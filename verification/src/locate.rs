//! The project locator: resolves the ordered list of candidate source-file
//! paths from the manifest.
//!
//! The policy, in fixed order: one library path (the declared `lib.path`, or
//! the conventional `src/lib.rs`), then the executable paths (each declared
//! `bin` entry's `path` in declaration order, or — when no binary entry is
//! declared — the conventional `src/main.rs` followed by every `.rs` file a
//! walk of the auxiliary-executables directory yielded). The locator neither
//! deduplicates nor checks existence: that is its caller's concern.

use vstd::prelude::*;
use crate::manifest::{ManifestValue, lookup, table_get};
use vstd::string::StringExecFns;
use vstd::string::StrSliceExecFns;

verus! {

/// The views of a sequence of path strings.
pub open spec fn path_views(s: Seq<String>) -> Seq<Seq<char>> {
    Seq::new(s.len(), |i: int| s[i]@)
}

/// Whether a path names a `.rs` file: it ends in the three characters
/// `.rs`, preceded by a character that starts a nonempty file stem — a
/// path whose last component is exactly `.rs` has no extension and does
/// not count.
pub open spec fn is_rs_path(s: Seq<char>) -> bool {
    &&& s.len() >= 4
    &&& s[s.len() - 4] != '/'
    &&& s[s.len() - 3] == '.'
    &&& s[s.len() - 2] == 'r'
    &&& s[s.len() - 1] == 's'
}

/// The library path the manifest declares: the string under `lib.path`,
/// when the manifest is a table whose `lib` key holds a table whose `path`
/// key holds a string.
pub open spec fn declared_lib_path(m: ManifestValue) -> Option<Seq<char>> {
    match m.spec_get("lib"@) {
        Some(ManifestValue::Table(lt)) => match lookup(lt@, "path"@) {
            Some(ManifestValue::Text(p)) => Some(p@),
            _ => None,
        },
        _ => None,
    }
}

/// The single library candidate: the declared path, or the conventional
/// default when none is declared.
pub open spec fn lib_candidate(m: ManifestValue) -> Seq<char> {
    match declared_lib_path(m) {
        Some(p) => p,
        None => "src/lib.rs"@,
    }
}

/// The binary entries the manifest declares: the elements of the array
/// under `bin`, when that array is present and holds at least one entry.
pub open spec fn declared_bins(m: ManifestValue) -> Option<Seq<ManifestValue>> {
    match m.spec_get("bin"@) {
        Some(ManifestValue::Array(es)) => if es@.len() > 0 {
            Some(es@)
        } else {
            None
        },
        _ => None,
    }
}

/// The path one binary entry contributes: the string under its `path` key;
/// an entry that is no table, or lacks a string there, contributes nothing.
pub open spec fn entry_path(e: ManifestValue) -> Seq<Seq<char>> {
    match e {
        ManifestValue::Table(t) => match lookup(t@, "path"@) {
            Some(ManifestValue::Text(p)) => seq![p@],
            _ => seq![],
        },
        _ => seq![],
    }
}

/// The declared executable candidates: each entry's path, in declaration
/// order.
pub open spec fn bin_paths(es: Seq<ManifestValue>) -> Seq<Seq<char>>
    decreases es.len(),
{
    if es.len() == 0 {
        seq![]
    } else {
        bin_paths(es.drop_last()) + entry_path(es.last())
    }
}

/// Every `.rs` path among the walked entries, in walk order.
pub open spec fn rs_files(scan: Seq<Seq<char>>) -> Seq<Seq<char>>
    decreases scan.len(),
{
    if scan.len() == 0 {
        seq![]
    } else if is_rs_path(scan.last()) {
        rs_files(scan.drop_last()).push(scan.last())
    } else {
        rs_files(scan.drop_last())
    }
}

/// The fallback executable candidates: the conventional `src/main.rs`,
/// then — when the auxiliary directory exists — every `.rs` file its walk
/// yielded.
pub open spec fn default_bin_candidates(dir_exists: bool, scan: Seq<Seq<char>>) -> Seq<Seq<char>> {
    seq!["src/main.rs"@] + if dir_exists {
        rs_files(scan)
    } else {
        seq![]
    }
}

/// The executable candidates: the declared binary paths when any binary
/// entry is declared, the conventional defaults otherwise.
pub open spec fn exe_candidates(m: ManifestValue, dir_exists: bool, scan: Seq<Seq<char>>) -> Seq<
    Seq<char>,
> {
    match declared_bins(m) {
        Some(es) => bin_paths(es),
        None => default_bin_candidates(dir_exists, scan),
    }
}

/// The full candidate list: the one library path, then the executables.
pub open spec fn candidate_paths(m: ManifestValue, dir_exists: bool, scan: Seq<Seq<char>>) -> Seq<
    Seq<char>,
> {
    seq![lib_candidate(m)] + exe_candidates(m, dir_exists, scan)
}

/// Whether `path` names a `.rs` file.
pub fn is_rs_file(path: &String) -> (r: bool)
    ensures
        r == is_rs_path(path@),
{
    let s = path.as_str();
    let n = s.unicode_len();
    if n < 4 {
        return false;
    }
    s.get_char(n - 4) != '/' && s.get_char(n - 3) == '.' && s.get_char(n - 2) == 'r'
        && s.get_char(n - 1) == 's'
}

proof fn lemma_path_views_push(s: Seq<String>, x: String)
    ensures
        path_views(s.push(x)) == path_views(s).push(x@),
{
    assert(path_views(s.push(x)) =~= path_views(s).push(x@));
}

proof fn lemma_bin_paths_step(es: Seq<ManifestValue>, i: int)
    requires
        0 <= i < es.len(),
    ensures
        bin_paths(es.subrange(0, i + 1)) == bin_paths(es.subrange(0, i)) + entry_path(es[i]),
{
    assert(es.subrange(0, i + 1).drop_last() =~= es.subrange(0, i));
    assert(es.subrange(0, i + 1).last() == es[i]);
}

/// Computes the ordered candidate source paths for the project `manifest`
/// describes. `bin_dir_exists` says whether the auxiliary-executables
/// directory exists; `bin_dir_scan` holds the paths its walk yielded, in
/// walk order.
pub fn locate(manifest: &ManifestValue, bin_dir_exists: bool, bin_dir_scan: &Vec<String>) -> (r:
    Vec<String>)
    ensures
        path_views(r@) == candidate_paths(*manifest, bin_dir_exists, path_views(bin_dir_scan@)),
{
    let lib_key = String::from_str("lib");
    let bin_key = String::from_str("bin");
    let path_key = String::from_str("path");
    let mut out: Vec<String> = Vec::new();

    let lib_path: String = match manifest.get(&lib_key) {
        Some(ManifestValue::Table(lt)) => match table_get(lt, &path_key) {
            Some(ManifestValue::Text(p)) => p.clone(),
            _ => String::from_str("src/lib.rs"),
        },
        _ => String::from_str("src/lib.rs"),
    };
    out.push(lib_path);
    assert(path_views(out@) =~= seq![lib_candidate(*manifest)]);

    let mut declared = false;
    match manifest.get(&bin_key) {
        Some(ManifestValue::Array(es)) => {
            if es.len() > 0 {
                declared = true;
                let ghost base = out@;
                let n = es.len();
                proof {
                    assert(es@.subrange(0, 0) =~= Seq::<ManifestValue>::empty());
                }
                for i in 0..n
                    invariant
                        n == es@.len(),
                        path_key@ == "path"@,
                        path_views(out@) == path_views(base) + bin_paths(es@.subrange(0, i as int)),
                {
                    let ghost out_before = out@;
                    let e: &ManifestValue = &es[i];
                    match e {
                        ManifestValue::Table(bt) => match table_get(bt, &path_key) {
                            Some(ManifestValue::Text(p)) => {
                                proof {
                                    assert(entry_path(*e) =~= seq![p@]);
                                }
                                out.push(p.clone());
                                proof {
                                    lemma_path_views_push(out_before, out@.last());
                                }
                            },
                            _ => {
                                proof {
                                    assert(entry_path(*e) =~= Seq::<Seq<char>>::empty());
                                }
                            },
                        },
                        _ => {
                            proof {
                                assert(entry_path(*e) =~= Seq::<Seq<char>>::empty());
                            }
                        },
                    }
                    proof {
                        lemma_bin_paths_step(es@, i as int);
                        assert(path_views(out@) =~= path_views(base) + bin_paths(
                            es@.subrange(0, i + 1),
                        ));
                    }
                }
                proof {
                    assert(es@.subrange(0, n as int) =~= es@);
                }
            }
        },
        _ => {},
    }
    if !declared {
        let ghost out_before_main = out@;
        out.push(String::from_str("src/main.rs"));
        proof {
            lemma_path_views_push(out_before_main, out@.last());
        }
        if bin_dir_exists {
            let ghost base = out@;
            let ghost scan = path_views(bin_dir_scan@);
            let m = bin_dir_scan.len();
            proof {
                assert(scan.subrange(0, 0) =~= Seq::<Seq<char>>::empty());
                assert(path_views(out@) =~= path_views(base) + rs_files(scan.subrange(0, 0)));
            }
            for j in 0..m
                invariant
                    m == bin_dir_scan@.len(),
                    scan == path_views(bin_dir_scan@),
                    path_views(out@) == path_views(base) + rs_files(scan.subrange(0, j as int)),
            {
                let ghost out_before = out@;
                if is_rs_file(&bin_dir_scan[j]) {
                    out.push(bin_dir_scan[j].clone());
                    proof {
                        lemma_path_views_push(out_before, out@.last());
                    }
                }
                proof {
                    assert(scan.subrange(0, j + 1).drop_last() =~= scan.subrange(0, j as int));
                    assert(scan.subrange(0, j + 1).last() == bin_dir_scan@[j as int]@);
                    assert(path_views(out@) =~= path_views(base) + rs_files(
                        scan.subrange(0, j + 1),
                    ));
                }
            }
            proof {
                assert(scan.subrange(0, m as int) =~= scan);
            }
        }
    }
    proof {
        assert(path_views(out@) =~= candidate_paths(
            *manifest,
            bin_dir_exists,
            path_views(bin_dir_scan@),
        ));
    }
    out
}

/// Law: a manifest lacking a library table declares no library path, and
/// its first candidate is exactly the conventional default `src/lib.rs`.
pub proof fn lemma_lib_default(m: ManifestValue, dir_exists: bool, scan: Seq<Seq<char>>)
    requires
        !(m.spec_get("lib"@) matches Some(ManifestValue::Table(_))),
    ensures
        declared_lib_path(m) is None,
        candidate_paths(m, dir_exists, scan).len() >= 1,
        candidate_paths(m, dir_exists, scan)[0] == "src/lib.rs"@,
{
}

/// Law: a manifest declaring a library path has exactly that path as its
/// first candidate — the default is never put in its place — and the
/// library contributes no other candidate.
pub proof fn lemma_lib_declared(m: ManifestValue, dir_exists: bool, scan: Seq<Seq<char>>, p: Seq<
    char,
>)
    requires
        declared_lib_path(m) == Some(p),
    ensures
        candidate_paths(m, dir_exists, scan)[0] == p,
        candidate_paths(m, dir_exists, scan) == seq![p] + exe_candidates(m, dir_exists, scan),
{
}

/// Law: the walked `.rs` files are exactly the walked paths that name `.rs`
/// files — nothing is added and only non-`.rs` entries are dropped.
pub proof fn lemma_rs_files_exactly(scan: Seq<Seq<char>>)
    ensures
        forall|p: Seq<char>| #[trigger]
            rs_files(scan).contains(p) <==> (scan.contains(p) && is_rs_path(p)),
    decreases scan.len(),
{
    if scan.len() == 0 {
        assert forall|p: Seq<char>| #[trigger]
            rs_files(scan).contains(p) <==> (scan.contains(p) && is_rs_path(p)) by {
            assert(!rs_files(scan).contains(p));
            assert(!scan.contains(p));
        }
    } else {
        let head = scan.drop_last();
        let last = scan.last();
        lemma_rs_files_exactly(head);
        assert forall|p: Seq<char>| #[trigger]
            rs_files(scan).contains(p) <==> (scan.contains(p) && is_rs_path(p)) by {
            assert(scan.contains(p) <==> (head.contains(p) || p == last)) by {
                if scan.contains(p) {
                    let i = choose|i: int| 0 <= i < scan.len() && scan[i] == p;
                    if i < scan.len() - 1 {
                        assert(head[i] == p);
                    }
                }
                if head.contains(p) {
                    let i = choose|i: int| 0 <= i < head.len() && head[i] == p;
                    assert(scan[i] == p);
                }
                if p == last {
                    assert(scan[scan.len() - 1] == p);
                }
            }
            assert(rs_files(head).contains(p) <==> (head.contains(p) && is_rs_path(p)));
            if is_rs_path(last) {
                let prev = rs_files(head);
                assert(rs_files(scan) == prev.push(last));
                assert(prev.push(last).contains(p) <==> (prev.contains(p) || p == last)) by {
                    if prev.push(last).contains(p) {
                        let i = choose|i: int| 0 <= i < prev.push(last).len() && prev.push(last)[i]
                            == p;
                        if i < prev.len() {
                            assert(prev[i] == p);
                        }
                    }
                    if prev.contains(p) {
                        let i = choose|i: int| 0 <= i < prev.len() && prev[i] == p;
                        assert(prev.push(last)[i] == p);
                    }
                    if p == last {
                        assert(prev.push(last)[prev.len() as int] == p);
                    }
                }
            } else {
                assert(rs_files(scan) == rs_files(head));
                if p == last {
                    assert(!is_rs_path(p));
                }
            }
        }
    }
}

/// Law: a manifest declaring no binary entry falls back to exactly the
/// conventional `src/main.rs` followed — when the auxiliary directory
/// exists — by the walked `.rs` files, and to no other executable
/// candidate.
pub proof fn lemma_bins_default(m: ManifestValue, dir_exists: bool, scan: Seq<Seq<char>>)
    requires
        declared_bins(m) is None,
    ensures
        exe_candidates(m, dir_exists, scan) == seq!["src/main.rs"@] + if dir_exists {
            rs_files(scan)
        } else {
            Seq::<Seq<char>>::empty()
        },
        forall|p: Seq<char>| #[trigger]
            rs_files(scan).contains(p) <==> (scan.contains(p) && is_rs_path(p)),
{
    lemma_rs_files_exactly(scan);
}

/// Law: a manifest declaring binary entries contributes exactly the
/// declared paths, in declaration order — each entry adds its own `path`
/// after its predecessors' — and the defaults are never consulted, whatever
/// the auxiliary directory holds.
pub proof fn lemma_bins_declared(
    m: ManifestValue,
    dir_exists: bool,
    scan: Seq<Seq<char>>,
    es: Seq<ManifestValue>,
)
    requires
        declared_bins(m) == Some(es),
    ensures
        exe_candidates(m, dir_exists, scan) == bin_paths(es),
        forall|i: int|
            0 <= i < es.len() ==> #[trigger] bin_paths(es.subrange(0, i + 1)) == bin_paths(
                es.subrange(0, i),
            ) + entry_path(es[i]),
{
    assert forall|i: int| 0 <= i < es.len() implies #[trigger] bin_paths(es.subrange(0, i + 1))
        == bin_paths(es.subrange(0, i)) + entry_path(es[i]) by {
        assert(es.subrange(0, i + 1).drop_last() =~= es.subrange(0, i));
        assert(es.subrange(0, i + 1).last() == es[i]);
    }
}

} // verus!
