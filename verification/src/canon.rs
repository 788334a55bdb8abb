//! Canonicalization of declarations: the round trip from source text
//! through a parsed syntax tree back to a canonical, whitespace-insensitive
//! token rendering.
//!
//! The round trip is performed by the parser and serializer crates; what
//! they compute is a function of the input text alone, so the library names
//! the two results — whether the text parses, and its canonical token
//! rendering — and states every contract over those names.
//!
//! The printer crate's pretty renderer takes no part here: it is partial —
//! it aborts on trees it cannot print, such as a `macro_rules` body of
//! unexpected shape, which the parser nevertheless accepts — and verified
//! code may not make a call that can abort. The driver applies it to the
//! canonical token text at the reporting edge, where an abort is the loud
//! fatal failure the design calls for.

use vstd::prelude::*;
use quote::ToTokens;

verus! {

/// Whether a piece of text is syntactically valid source: whether the
/// parser accepts it as a translation unit. The grammar belongs to the
/// parser crate, so the result is named, not written out.
pub uninterp spec fn parses_as_source(s: Seq<char>) -> bool;

/// The canonical token rendering of a piece of source text: the result of
/// parsing it, serializing the tree back to a token stream, re-parsing
/// those tokens and rendering the re-parsed tree's token stream as text. A
/// lossless, whitespace-insensitive form, and a function of the input text
/// alone; the token formatting belongs to the serializer crate, so the
/// result is named, not written out.
pub uninterp spec fn canonical_tokens(s: Seq<char>) -> Seq<char>;

/// Relies on syn::parse_str::<syn::File> accepting exactly the strings
/// that are syntactically valid source files, and returning `Err` — not
/// aborting — on all others; on quote's `ToTokens` for `syn::File`
/// serializing any parsed tree to tokens that syn::parse2 re-parses (the
/// two crates' documented round trip); and on proc-macro2's `Display` for
/// token streams, a total, deterministic token rendering. The intermediate
/// tree and token stream never leave this body, so the composition is
/// stated as one function of the input text. Every step returns on every
/// input.
#[verifier::external_body]
fn roundtrip_canonical(source: &str) -> (r: Option<String>)
    ensures
        r is Some <==> parses_as_source(source@),
        r matches Some(t) ==> t@ == canonical_tokens(source@),
        r is Some ==> parses_as_source(canonical_tokens(source@)),
{
    let tree: syn::File = match syn::parse_str(source) {
        Ok(tree) => tree,
        Err(_) => {
            return None;
        },
    };
    let stream = tree.to_token_stream();
    let reparsed: syn::File = match syn::parse2(stream) {
        Ok(reparsed) => reparsed,
        Err(_) => {
            return None;
        },
    };
    Some(reparsed.to_token_stream().to_string())
}

/// Performs the canonicalization round trip on a declaration given as
/// source or token text: `Some` holding the canonical token rendering —
/// itself valid source — exactly when the text is syntactically valid,
/// `None` otherwise.
pub fn canonicalize(source: &str) -> (r: Option<String>)
    ensures
        r is Some <==> parses_as_source(source@),
        r matches Some(t) ==> t@ == canonical_tokens(source@),
        r is Some ==> parses_as_source(canonical_tokens(source@)),
{
    roundtrip_canonical(source)
}

} // verus!
