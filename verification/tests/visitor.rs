use declscan::tree::{Event, Item};
use declscan::visit::visit;

fn function(name: &str, tokens: &str, items: Vec<Item>) -> Item {
    Item::Function {
        name: name.to_string(),
        tokens: tokens.to_string(),
        items,
    }
}

#[test]
fn nested_module_function_struct_in_pre_order() {
    let items = vec![Item::Module {
        name: "outer".to_string(),
        items: vec![function(
            "inner",
            "fn inner() { struct Deep; }",
            vec![Item::Struct {
                name: "Deep".to_string(),
            }],
        )],
    }];
    let events = visit(&items).unwrap();
    assert_eq!(events.len(), 4);
    assert!(matches!(&events[0], Event::Module { name } if name == "outer"));
    assert!(matches!(&events[1], Event::Function { name } if name == "inner"));
    assert!(matches!(&events[2], Event::Canonical { .. }));
    assert!(matches!(&events[3], Event::Struct { name } if name == "Deep"));
}

#[test]
fn trait_impl_reports_the_trait_path() {
    let items = vec![Item::Impl {
        trait_path: Some("fmt::Debug".to_string()),
        items: vec![],
    }];
    let events = visit(&items).unwrap();
    assert_eq!(events.len(), 1);
    assert!(matches!(&events[0], Event::TraitImpl { trait_path } if trait_path == "fmt::Debug"));
}

#[test]
fn inherent_impl_reports_the_inherent_event() {
    let items = vec![Item::Impl {
        trait_path: None,
        items: vec![],
    }];
    let events = visit(&items).unwrap();
    assert_eq!(events.len(), 1);
    assert!(matches!(&events[0], Event::InherentImpl));
}

#[test]
fn struct_enum_and_trait_report_their_identifiers() {
    let items = vec![
        Item::Struct {
            name: "Point".to_string(),
        },
        Item::Enum {
            name: "Shade".to_string(),
        },
        Item::Trait {
            name: "Render".to_string(),
            items: vec![],
        },
        Item::Other,
    ];
    let events = visit(&items).unwrap();
    assert_eq!(events.len(), 3);
    assert!(matches!(&events[0], Event::Struct { name } if name == "Point"));
    assert!(matches!(&events[1], Event::Enum { name } if name == "Shade"));
    assert!(matches!(&events[2], Event::Trait { name } if name == "Render"));
}

#[test]
fn invalid_function_tokens_raise_a_canonicalization_fault() {
    let items = vec![function("broken", "fn (", vec![])];
    let fault = visit(&items).unwrap_err();
    assert_eq!(fault.tokens, "fn (");
}

#[test]
fn fault_in_a_nested_function_stops_the_walk() {
    let items = vec![Item::Module {
        name: "outer".to_string(),
        items: vec![function("bad", "fn {", vec![])],
    }];
    assert!(visit(&items).is_err());
}
