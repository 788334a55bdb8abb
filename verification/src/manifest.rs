//! A schema-less model of the manifest document that describes a project.
//!
//! The manifest is a loosely typed tree of tagged values: strings, integers,
//! booleans, arrays and tables. No schema is enforced; callers read the few
//! keys they recognize through option-returning accessors and tolerate the
//! absence or wrong shape of everything else.

use vstd::prelude::*;

verus! {

/// One node of the manifest document: a tagged value with no fixed schema.
///
/// A table keeps its entries in document order; a key is looked up by its
/// first occurrence. Values of kinds the locator never reads (dates, floats)
/// are carried as `Other`.
pub enum ManifestValue {
    Text(String),
    Integer(i64),
    Boolean(bool),
    Array(Vec<ManifestValue>),
    Table(Vec<(String, ManifestValue)>),
    Other,
}

/// The value under `key` in a table: the first entry whose key matches,
/// or `None` when no entry does.
pub open spec fn lookup(entries: Seq<(String, ManifestValue)>, key: Seq<char>) -> Option<
    ManifestValue,
>
    decreases entries.len(),
{
    if entries.len() == 0 {
        None
    } else if entries[0].0@ == key {
        Some(entries[0].1)
    } else {
        lookup(entries.subrange(1, entries.len() as int), key)
    }
}

impl ManifestValue {
    /// The value under `key`, when this node is a table that has the key.
    pub open spec fn spec_get(self, key: Seq<char>) -> Option<ManifestValue> {
        match self {
            ManifestValue::Table(entries) => lookup(entries@, key),
            _ => None,
        }
    }

    /// Looks `key` up in this node: its first binding when the node is a
    /// table holding the key, `None` otherwise.
    pub fn get<'a>(&'a self, key: &String) -> (r: Option<&'a ManifestValue>)
        ensures
            match r {
                Some(v) => self.spec_get(key@) == Some(*v),
                None => self.spec_get(key@) is None,
            },
    {
        match self {
            ManifestValue::Table(entries) => table_get(entries, key),
            _ => None,
        }
    }
}

/// The first binding of `key` among `entries`, by linear search.
pub fn table_get<'a>(entries: &'a Vec<(String, ManifestValue)>, key: &String) -> (r: Option<
    &'a ManifestValue,
>)
    ensures
        match r {
            Some(v) => lookup(entries@, key@) == Some(*v),
            None => lookup(entries@, key@) is None,
        },
{
    let n = entries.len();
    proof {
        assert(entries@.subrange(0, n as int) =~= entries@);
    }
    for i in 0..n
        invariant
            n == entries@.len(),
            lookup(entries@, key@) == lookup(entries@.subrange(i as int, n as int), key@),
    {
        if entries[i].0 == *key {
            return Some(&entries[i].1);
        }
        proof {
            assert(entries@.subrange(i as int, n as int).subrange(
                1,
                (n - i) as int,
            ) =~= entries@.subrange(i + 1, n as int));
        }
    }
    proof {
        assert(entries@.subrange(n as int, n as int).len() == 0);
    }
    None
}

} // verus!
