//! The classified syntax tree of one source file, and the reports a
//! traversal of it emits.
//!
//! An [`Item`] is one declaration, classified by kind; items that can hold
//! further declarations (a module's body, a trait's default method bodies,
//! an implementation's method bodies, a function's body) carry them as
//! children, to unbounded depth. The traversal reports are modelled at the
//! specification level by [`item_events`]: a depth-first, pre-order
//! sequence with one event per declaration, and for each function
//! declaration additionally its canonical token text: the lossless,
//! whitespace-insensitive rendering the canonicalization round trip gives.

use vstd::prelude::*;
use crate::canon::{canonical_tokens, parses_as_source};

verus! {

/// One classified item of a source file's syntax tree.
pub enum Item {
    /// A function declaration: its identifier, its declaration as token
    /// text, and the items declared in its body.
    Function { name: String, tokens: String, items: Vec<Item> },
    /// A struct declaration. Fields are not declarations: nothing nests.
    Struct { name: String },
    /// An enum declaration. Variants are not declarations: nothing nests.
    Enum { name: String },
    /// A module declaration and the items of its body.
    Module { name: String, items: Vec<Item> },
    /// A trait declaration and the items declared in its default method
    /// bodies.
    Trait { name: String, items: Vec<Item> },
    /// An implementation block: the textual path of the trait it implements
    /// (`None` for an inherent implementation), and the items declared in
    /// its method bodies.
    Impl { trait_path: Option<String>, items: Vec<Item> },
    /// An item of a kind the traversal does not classify.
    Other,
}

/// One traversal report, at the specification level.
pub enum EventView {
    /// A function declaration was met, with this identifier.
    Function { name: Seq<char> },
    /// The canonical token text of the function declaration just
    /// reported.
    Canonical { text: Seq<char> },
    /// A struct declaration was met, with this identifier.
    Struct { name: Seq<char> },
    /// An enum declaration was met, with this identifier.
    Enum { name: Seq<char> },
    /// A module declaration was met, with this identifier.
    Module { name: Seq<char> },
    /// A trait declaration was met, with this identifier.
    Trait { name: Seq<char> },
    /// An implementation of the trait with this textual path was met.
    TraitImpl { trait_path: Seq<char> },
    /// An inherent implementation was met.
    InherentImpl,
}

/// One traversal report.
#[derive(Debug)]
pub enum Event {
    /// A function declaration was met, with this identifier.
    Function { name: String },
    /// The canonical token text of the function declaration just
    /// reported.
    Canonical { text: String },
    /// A struct declaration was met, with this identifier.
    Struct { name: String },
    /// An enum declaration was met, with this identifier.
    Enum { name: String },
    /// A module declaration was met, with this identifier.
    Module { name: String },
    /// A trait declaration was met, with this identifier.
    Trait { name: String },
    /// An implementation of the trait with this textual path was met.
    TraitImpl { trait_path: String },
    /// An inherent implementation was met.
    InherentImpl,
}

impl View for Event {
    type V = EventView;

    open spec fn view(&self) -> EventView {
        match self {
            Event::Function { name } => EventView::Function { name: name@ },
            Event::Canonical { text } => EventView::Canonical { text: text@ },
            Event::Struct { name } => EventView::Struct { name: name@ },
            Event::Enum { name } => EventView::Enum { name: name@ },
            Event::Module { name } => EventView::Module { name: name@ },
            Event::Trait { name } => EventView::Trait { name: name@ },
            Event::TraitImpl { trait_path } => EventView::TraitImpl { trait_path: trait_path@ },
            Event::InherentImpl => EventView::InherentImpl,
        }
    }
}

/// The views of a sequence of reports.
pub open spec fn event_views(s: Seq<Event>) -> Seq<EventView> {
    Seq::new(s.len(), |i: int| s[i]@)
}

/// The reports an item emits for itself, its children's aside: a function's
/// identifier and canonical token text; a struct's, enum's, module's or trait's
/// identifier; exactly one implementation event for an implementation
/// block; nothing for an unclassified item.
pub open spec fn own_events(it: Item) -> Seq<EventView> {
    match it {
        Item::Function { name, tokens, items } => seq![
            EventView::Function { name: name@ },
            EventView::Canonical { text: canonical_tokens(tokens@) },
        ],
        Item::Struct { name } => seq![EventView::Struct { name: name@ }],
        Item::Enum { name } => seq![EventView::Enum { name: name@ }],
        Item::Module { name, items } => seq![EventView::Module { name: name@ }],
        Item::Trait { name, items } => seq![EventView::Trait { name: name@ }],
        Item::Impl { trait_path, items } => match trait_path {
            Some(t) => seq![EventView::TraitImpl { trait_path: t@ }],
            None => seq![EventView::InherentImpl],
        },
        Item::Other => seq![],
    }
}

/// The children an item's traversal recurses into.
pub open spec fn child_items(it: Item) -> Seq<Item> {
    match it {
        Item::Function { name, tokens, items } => items@,
        Item::Module { name, items } => items@,
        Item::Trait { name, items } => items@,
        Item::Impl { trait_path, items } => items@,
        _ => seq![],
    }
}

/// The reports a depth-first, pre-order traversal of one item emits: the
/// item's own reports, then — recursively, in lexical order — those of its
/// children.
pub open spec fn item_events(it: Item) -> Seq<EventView>
    decreases it,
{
    match it {
        Item::Function { name, tokens, items } => seq![
            EventView::Function { name: name@ },
            EventView::Canonical { text: canonical_tokens(tokens@) },
        ] + items_events(items@),
        Item::Struct { name } => seq![EventView::Struct { name: name@ }],
        Item::Enum { name } => seq![EventView::Enum { name: name@ }],
        Item::Module { name, items } => seq![EventView::Module { name: name@ }] + items_events(
            items@,
        ),
        Item::Trait { name, items } => seq![EventView::Trait { name: name@ }] + items_events(
            items@,
        ),
        Item::Impl { trait_path, items } => (match trait_path {
            Some(t) => seq![EventView::TraitImpl { trait_path: t@ }],
            None => seq![EventView::InherentImpl],
        }) + items_events(items@),
        Item::Other => seq![],
    }
}

/// The reports of a sequence of items, in order.
pub open spec fn items_events(items: Seq<Item>) -> Seq<EventView>
    decreases items,
{
    if items.len() == 0 {
        seq![]
    } else {
        items_events(items.drop_last()) + item_events(items.last())
    }
}

/// Whether every function declaration in an item's tree carries
/// syntactically valid token text, so that canonicalization succeeds
/// throughout a traversal of it.
pub open spec fn item_canonical_ok(it: Item) -> bool
    decreases it,
{
    match it {
        Item::Function { name, tokens, items } => parses_as_source(tokens@) && items_canonical_ok(
            items@,
        ),
        Item::Module { name, items } => items_canonical_ok(items@),
        Item::Trait { name, items } => items_canonical_ok(items@),
        Item::Impl { trait_path, items } => items_canonical_ok(items@),
        _ => true,
    }
}

/// Whether canonicalization succeeds throughout a sequence of items.
pub open spec fn items_canonical_ok(items: Seq<Item>) -> bool
    decreases items,
{
    if items.len() == 0 {
        true
    } else {
        items_canonical_ok(items.drop_last()) && item_canonical_ok(items.last())
    }
}

/// Law: a traversal reports an item as its own reports followed by its
/// children's, so every declaration is reported exactly where it stands.
pub proof fn lemma_item_events_split(it: Item)
    ensures
        item_events(it) == own_events(it) + items_events(child_items(it)),
{
    assert(items_events(Seq::<Item>::empty()) == Seq::<EventView>::empty());
    assert(item_events(it) =~= own_events(it) + items_events(child_items(it)));
}

/// The reports of a single item, as a sequence of one.
proof fn lemma_items_events_singleton(x: Item)
    ensures
        items_events(seq![x]) == item_events(x),
{
    assert(seq![x].drop_last() =~= Seq::<Item>::empty());
    assert(seq![x].last() == x);
    assert(items_events(seq![x]) == items_events(Seq::<Item>::empty()) + item_events(x));
    assert(Seq::<EventView>::empty() + item_events(x) =~= item_events(x));
}

/// Law: a module holding one function whose body holds one struct is
/// reported as the module, then the function with its canonical text, then
/// the struct — in that nested order and nothing else.
pub proof fn lemma_nested_report_order(m: Item, f: Item, s: Item)
    requires
        s matches Item::Struct { .. },
        f matches Item::Function { items: fitems, .. } && fitems@ == seq![s],
        m matches Item::Module { items: mitems, .. } && mitems@ == seq![f],
    ensures
        item_events(m) == own_events(m) + own_events(f) + own_events(s),
        own_events(m).len() == 1 && own_events(m)[0] is Module,
        own_events(f).len() == 2 && own_events(f)[0] is Function && own_events(f)[1] is Canonical,
        own_events(s).len() == 1 && own_events(s)[0] is Struct,
{
    lemma_item_events_split(m);
    lemma_item_events_split(f);
    lemma_item_events_split(s);
    lemma_items_events_singleton(f);
    lemma_items_events_singleton(s);
    assert(child_items(m) == seq![f]);
    assert(child_items(f) == seq![s]);
    assert(child_items(s) =~= Seq::<Item>::empty());
    assert(items_events(Seq::<Item>::empty()) == Seq::<EventView>::empty());
    assert(item_events(s) =~= own_events(s));
    assert(item_events(m) =~= own_events(m) + own_events(f) + own_events(s));
}

/// Law: an implementation block is reported as exactly one implementation
/// event — naming the trait when it implements one, the inherent event
/// otherwise, never both and never neither — followed by its children's
/// reports.
pub proof fn lemma_impl_report(it: Item)
    requires
        it matches Item::Impl { .. },
    ensures
        own_events(it).len() == 1,
        it matches Item::Impl { trait_path: Some(t), .. } ==> own_events(it) == seq![
            EventView::TraitImpl { trait_path: t@ },
        ],
        it matches Item::Impl { trait_path: None, .. } ==> own_events(it) == seq![
            EventView::InherentImpl,
        ],
        own_events(it)[0] is TraitImpl <==> it matches Item::Impl { trait_path: Some(_), .. },
        own_events(it)[0] is InherentImpl <==> it matches Item::Impl { trait_path: None, .. },
        item_events(it) == own_events(it) + items_events(child_items(it)),
{
    lemma_item_events_split(it);
}

} // verus!
