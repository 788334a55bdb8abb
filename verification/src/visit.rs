//! The declaration visitor: a depth-first, pre-order walk over a sequence
//! of classified items that collects one report per declaration and the
//! canonical token text of every function declaration it meets.
//!
//! A function declaration whose token text fails to re-parse stops the walk
//! with a [`CanonicalizationFault`]: an internal invariant violation, never
//! silently swallowed.

use vstd::prelude::*;
use crate::canon::canonicalize;
use crate::tree::{
    Event, EventView, Item, event_views, item_canonical_ok, item_events, items_canonical_ok,
    items_events,
};

verus! {

/// The fault raised when a function declaration's token text fails to
/// re-parse during canonicalization. It carries the offending token text.
#[derive(Debug)]
pub struct CanonicalizationFault {
    pub tokens: String,
}

proof fn lemma_event_views_push(s: Seq<Event>, e: Event)
    ensures
        event_views(s.push(e)) == event_views(s).push(e@),
{
    assert(event_views(s.push(e)) =~= event_views(s).push(e@));
}

proof fn lemma_items_step(items: Seq<Item>, i: int)
    requires
        0 <= i < items.len(),
    ensures
        items_events(items.subrange(0, i + 1)) == items_events(items.subrange(0, i))
            + item_events(items[i]),
        items_canonical_ok(items.subrange(0, i + 1)) == (items_canonical_ok(
            items.subrange(0, i),
        ) && item_canonical_ok(items[i])),
{
    assert(items.subrange(0, i + 1).drop_last() =~= items.subrange(0, i));
    assert(items.subrange(0, i + 1).last() == items[i]);
}

/// If a sequence of items canonicalizes throughout, so does each item.
proof fn lemma_items_ok_index(items: Seq<Item>, i: int)
    requires
        0 <= i < items.len(),
        items_canonical_ok(items),
    ensures
        item_canonical_ok(items[i]),
    decreases items.len(),
{
    if i == items.len() - 1 {
        assert(items.last() == items[i]);
    } else {
        lemma_items_ok_index(items.drop_last(), i);
        assert(items.drop_last()[i] == items[i]);
    }
}

/// Walks one item, appending its reports to `out` in pre-order.
fn visit_item(it: &Item, out: &mut Vec<Event>) -> (r: Result<(), CanonicalizationFault>)
    ensures
        r is Ok <==> item_canonical_ok(*it),
        r is Ok ==> event_views(final(out)@) == event_views(old(out)@) + item_events(*it),
    decreases *it,
{
    match it {
        Item::Function { name, tokens, items } => {
            let ghost out0 = out@;
            out.push(Event::Function { name: name.clone() });
            proof {
                lemma_event_views_push(out0, out@.last());
            }
            match canonicalize(tokens.as_str()) {
                Some(text) => {
                    let ghost out1 = out@;
                    out.push(Event::Canonical { text });
                    proof {
                        lemma_event_views_push(out1, out@.last());
                    }
                    let r = visit_items_into(items, out);
                    proof {
                        if r is Ok {
                            assert(event_views(out@) =~= event_views(out0) + item_events(*it));
                        }
                    }
                    r
                },
                None => Err(CanonicalizationFault { tokens: tokens.clone() }),
            }
        },
        Item::Struct { name } => {
            let ghost out0 = out@;
            out.push(Event::Struct { name: name.clone() });
            proof {
                lemma_event_views_push(out0, out@.last());
                assert(event_views(out@) =~= event_views(out0) + item_events(*it));
            }
            Ok(())
        },
        Item::Enum { name } => {
            let ghost out0 = out@;
            out.push(Event::Enum { name: name.clone() });
            proof {
                lemma_event_views_push(out0, out@.last());
                assert(event_views(out@) =~= event_views(out0) + item_events(*it));
            }
            Ok(())
        },
        Item::Module { name, items } => {
            let ghost out0 = out@;
            out.push(Event::Module { name: name.clone() });
            proof {
                lemma_event_views_push(out0, out@.last());
            }
            let r = visit_items_into(items, out);
            proof {
                if r is Ok {
                    assert(event_views(out@) =~= event_views(out0) + item_events(*it));
                }
            }
            r
        },
        Item::Trait { name, items } => {
            let ghost out0 = out@;
            out.push(Event::Trait { name: name.clone() });
            proof {
                lemma_event_views_push(out0, out@.last());
            }
            let r = visit_items_into(items, out);
            proof {
                if r is Ok {
                    assert(event_views(out@) =~= event_views(out0) + item_events(*it));
                }
            }
            r
        },
        Item::Impl { trait_path, items } => {
            let ghost out0 = out@;
            match trait_path {
                Some(t) => out.push(Event::TraitImpl { trait_path: t.clone() }),
                None => out.push(Event::InherentImpl),
            }
            proof {
                lemma_event_views_push(out0, out@.last());
            }
            let r = visit_items_into(items, out);
            proof {
                if r is Ok {
                    assert(event_views(out@) =~= event_views(out0) + item_events(*it));
                }
            }
            r
        },
        Item::Other => {
            proof {
                assert(event_views(out@) =~= event_views(out@) + item_events(*it));
            }
            Ok(())
        },
    }
}

/// Walks a sequence of items in order, appending their reports to `out`.
fn visit_items_into(items: &Vec<Item>, out: &mut Vec<Event>) -> (r: Result<
    (),
    CanonicalizationFault,
>)
    ensures
        r is Ok <==> items_canonical_ok(items@),
        r is Ok ==> event_views(final(out)@) == event_views(old(out)@) + items_events(items@),
    decreases items@,
{
    let ghost base = out@;
    let n = items.len();
    proof {
        assert(items@.subrange(0, 0) =~= Seq::<Item>::empty());
        assert(event_views(out@) =~= event_views(base) + items_events(items@.subrange(0, 0)));
    }
    for i in 0..n
        invariant
            n == items@.len(),
            items_canonical_ok(items@.subrange(0, i as int)),
            event_views(out@) == event_views(base) + items_events(items@.subrange(0, i as int)),
        decreases n - i,
    {
        let r = visit_item(&items[i], out);
        match r {
            Ok(()) => {
                proof {
                    lemma_items_step(items@, i as int);
                    assert(event_views(out@) =~= event_views(base) + items_events(
                        items@.subrange(0, i + 1),
                    ));
                }
            },
            Err(f) => {
                proof {
                    if items_canonical_ok(items@) {
                        lemma_items_ok_index(items@, i as int);
                    }
                }
                return Err(f);
            },
        }
    }
    proof {
        assert(items@.subrange(0, n as int) =~= items@);
    }
    Ok(())
}

/// Walks every item of one source file's tree in depth-first pre-order,
/// returning one report per declaration — for each function declaration,
/// its identifier followed by its canonical token text — or the fault
/// of the first function declaration whose token text failed to re-parse.
pub fn visit(items: &Vec<Item>) -> (r: Result<Vec<Event>, CanonicalizationFault>)
    ensures
        r is Ok <==> items_canonical_ok(items@),
        r matches Ok(events) ==> event_views(events@) == items_events(items@),
{
    let mut out: Vec<Event> = Vec::new();
    let r = visit_items_into(items, &mut out);
    match r {
        Ok(()) => {
            proof {
                assert(event_views(Seq::<Event>::empty()) =~= Seq::<EventView>::empty());
                assert(event_views(out@) =~= items_events(items@));
            }
            Ok(out)
        },
        Err(f) => Err(f),
    }
}

} // verus!
