use declscan::canon::canonicalize;
use declscan::tree::{Event, Item};
use declscan::visit::visit;
use declscan::locate::locate;
use declscan::manifest::ManifestValue;
use quote::ToTokens;

#[test]
fn round_trip_preserves_the_syntax_tree() {
    let decl = "fn add_two ( x : u32 ) -> u32 { x + 2 }";
    let text = canonicalize(decl).unwrap();
    let original: syn::File = syn::parse_str(decl).unwrap();
    let reparsed: syn::File = syn::parse_str(&text).unwrap();
    assert_eq!(
        original.to_token_stream().to_string(),
        reparsed.to_token_stream().to_string()
    );
    assert_ne!(text, decl);
}

#[test]
fn canonical_tokens_use_fixed_rendering() {
    let text = canonicalize("fn answer()->u64{42}").unwrap();
    assert_eq!(text, "fn answer () -> u64 { 42 }");
}

#[test]
fn invalid_tokens_are_rejected() {
    assert!(canonicalize("fn").is_none());
    assert!(canonicalize("struct {").is_none());
}

#[test]
fn macro_rules_with_unusual_body_is_canonicalized() {
    let text = canonicalize("macro_rules! m { bad }").unwrap();
    let reparsed: syn::File = syn::parse_str(&text).unwrap();
    assert_eq!(reparsed.items.len(), 1);
}

#[test]
fn function_with_unusual_macro_body_is_visited() {
    let items = vec![Item::Function {
        name: "holds_macro".to_string(),
        tokens: "fn holds_macro() { macro_rules! m { bad } }".to_string(),
        items: vec![],
    }];
    let events = visit(&items).unwrap();
    assert_eq!(events.len(), 2);
}

#[test]
fn scenario_default_project_with_one_greeting_function() {
    let manifest = ManifestValue::Table(vec![]);
    let candidates = locate(&manifest, false, &vec![]);
    let shown: Vec<&str> = candidates.iter().map(|s| s.as_str()).collect();
    assert_eq!(shown, vec!["src/lib.rs", "src/main.rs"]);

    let items = vec![Item::Function {
        name: "greet".to_string(),
        tokens: "fn greet() { println(); }".to_string(),
        items: vec![],
    }];
    let events = visit(&items).unwrap();
    assert_eq!(events.len(), 2);
    assert!(matches!(&events[0], Event::Function { name } if name == "greet"));
    let text = match &events[1] {
        Event::Canonical { text } => text.clone(),
        _ => panic!("expected the canonical text after the function event"),
    };
    let file: syn::File = syn::parse_str(&text).unwrap();
    assert_eq!(file.items.len(), 1);
    match &file.items[0] {
        syn::Item::Fn(f) => {
            assert_eq!(f.sig.ident.to_string(), "greet");
            assert!(f.sig.inputs.is_empty());
            assert_eq!(f.block.stmts.len(), 1);
        }
        _ => panic!("expected a function item"),
    }
}
