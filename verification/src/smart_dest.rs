//! Top-level shape of an archive and the smart choice of its destination
//! directory.

use vstd::prelude::*;
use vstd::string::StrSliceExecFns;
use vstd::string::StringExecFns;

use crate::codecs::{
    bz2_plain_of, gz_plain_of, path_exists, tar_names_of, tar_wf, xz_plain_of, zip_names_of,
    zip_wf, zst_plain_of,
};
use crate::error::FastZipError;
use crate::formats::{detect_format, spec_detected, spec_head, ArchiveFormat};
use crate::path_utils::{archive_stem, spec_archive_stem};
use crate::rar_format::RarExtractor;
use crate::sevenz_format::SevenZExtractor;
use crate::strutil::{
    join_path, lemma_lex_antisym, lemma_lex_total, lemma_lex_trans, spec_digits, spec_join,
    spec_lex_le, spec_lex_lt, str_eq, str_lex_le, u64_to_string,
};
use crate::tar_format::{spec_tar_ok, TarExtractor};
use crate::zip_format::ZipExtractor;

verus! {

/// Path separators recognized inside archive member names.
pub open spec fn spec_is_sep(c: char) -> bool {
    c == '/' || c == '\\'
}

/// `s` with all trailing separators removed.
pub open spec fn spec_trim_seps(s: Seq<char>) -> Seq<char>
    decreases s.len(),
{
    if s.len() > 0 && spec_is_sep(s[s.len() - 1]) {
        spec_trim_seps(s.drop_last())
    } else {
        s
    }
}

/// Index of the first separator in `s`, or -1 when there is none.
pub open spec fn spec_first_sep_index(s: Seq<char>) -> int
    decreases s.len(),
{
    if s.len() == 0 {
        -1
    } else if spec_is_sep(s[0]) {
        0
    } else if spec_first_sep_index(s.skip(1)) == -1 {
        -1
    } else {
        1 + spec_first_sep_index(s.skip(1))
    }
}

/// The first path segment of a member name, after trailing separators are
/// dropped; empty for names that carry no usable top-level segment.
pub open spec fn spec_top_segment(s: Seq<char>) -> Seq<char> {
    let t = spec_trim_seps(s);
    let i = spec_first_sep_index(t);
    if 0 <= i < t.len() {
        t.take(i)
    } else {
        t
    }
}

/// A member name that sits directly at the archive root and does not denote
/// a directory: non-empty, with no separator anywhere.
pub open spec fn spec_single_file_name(s: Seq<char>) -> bool {
    s.len() > 0 && spec_first_sep_index(s) == -1
}

/// The archive holds exactly one member and that member is a root-level
/// file.
pub open spec fn spec_single_file(names: Seq<Seq<char>>) -> bool {
    names.len() == 1 && spec_single_file_name(names[0])
}

/// More than one member, and every member that has a usable top segment
/// has the same one.
pub open spec fn spec_single_root(ns: Seq<Seq<char>>) -> bool {
    &&& ns.len() > 1
    &&& (exists|i: int| 0 <= i < ns.len() && spec_top_segment(#[trigger] ns[i]).len() > 0)
    &&& (forall|i: int, j: int|
        0 <= i < ns.len() && 0 <= j < ns.len() && spec_top_segment(#[trigger] ns[i]).len() > 0
            && spec_top_segment(#[trigger] ns[j]).len() > 0 ==> spec_top_segment(ns[i])
            == spec_top_segment(ns[j]))
}

/// Strictly increasing in lexicographic order (so also duplicate-free).
pub open spec fn spec_strictly_sorted(vs: Seq<Seq<char>>) -> bool {
    forall|i: int, j: int| 0 <= i < j < vs.len() ==> spec_lex_lt(#[trigger] vs[i], #[trigger] vs[j])
}

/// `x` is the top segment of one of the first `k` names.
pub open spec fn spec_is_top_of_prefix(x: Seq<char>, nv: Seq<Seq<char>>, k: int) -> bool {
    exists|i: int| 0 <= i < k && spec_top_segment(#[trigger] nv[i]) == x
}

/// `t` is the classification of the member-name list `nv` under the shared
/// rule: `entries` is the sorted, duplicate-free list of the non-empty top
/// segments of `nv`; `single_file` and `single_root_dir` follow their
/// definitions over `nv`.
pub open spec fn spec_classified(t: TopLevelEntries, nv: Seq<Seq<char>>) -> bool {
    &&& spec_strictly_sorted(t.entry_views())
    &&& (forall|j: int| 0 <= j < t.entries@.len() ==> (#[trigger] t.entries@[j])@.len() > 0)
    &&& (forall|k: int|
        0 <= k < nv.len() && spec_top_segment(#[trigger] nv[k]).len() > 0 ==> t.entry_views()
            .contains(spec_top_segment(nv[k])))
    &&& (forall|j: int|
        0 <= j < t.entries@.len() ==> spec_is_top_of_prefix(
            (#[trigger] t.entries@[j])@,
            nv,
            nv.len() as int,
        ))
    &&& t.single_file == spec_single_file(nv)
    &&& ((t.single_root_dir is Some) <==> (t.entry_views().len() == 1 && nv.len() > 1))
    &&& (t.single_root_dir is Some ==> t.single_root_dir->0@ == t.entry_views()[0])
}

/// The top-level shape of an archive: the deduplicated, sorted first path
/// segments of its members, whether they all share a single root directory,
/// and whether the archive is a lone root-level file.
#[derive(Debug, Clone)]
pub struct TopLevelEntries {
    /// Deduplicated, lexicographically sorted top-level entry names.
    pub entries: Vec<String>,
    /// Set when every member lies below one shared top segment and the
    /// archive has more than one member.
    pub single_root_dir: Option<String>,
    /// Set when the archive has exactly one member sitting at the root.
    pub single_file: bool,
}

impl TopLevelEntries {
    /// The views of the collected entry names.
    pub open spec fn entry_views(self) -> Seq<Seq<char>> {
        self.entries@.map_values(|s: String| s@)
    }
}

fn trim_seps(s: &str) -> (r: &str)
    ensures
        r@ == spec_trim_seps(s@),
{
    let n: usize = s.unicode_len();
    let mut e: usize = n;
    let mut done = false;
    proof {
        assert(s@.take(n as int) =~= s@);
    }
    while !done && e > 0
        invariant
            e <= n,
            n == s@.len(),
            spec_trim_seps(s@) == spec_trim_seps(s@.take(e as int)),
            done ==> e > 0 && !spec_is_sep(s@[e - 1]),
        decreases e + (if done {
            0int
        } else {
            1int
        }),
    {
        let c = s.get_char(e - 1);
        if c == '/' || c == '\\' {
            proof {
                assert(s@.take(e as int).drop_last() =~= s@.take(e - 1));
            }
            e = e - 1;
        } else {
            done = true;
        }
    }
    let r = s.substring_char(0, e);
    proof {
        assert(r@ =~= s@.take(e as int));
        if e > 0 {
            assert(!spec_is_sep(s@.take(e as int)[e - 1]));
        }
    }
    r
}

proof fn lemma_first_sep_index_props(s: Seq<char>)
    ensures
        -1 <= spec_first_sep_index(s) < s.len(),
        spec_first_sep_index(s) >= 0 ==> spec_is_sep(s[spec_first_sep_index(s)]),
        forall|j: int| 0 <= j < spec_first_sep_index(s) ==> !spec_is_sep(#[trigger] s[j]),
        spec_first_sep_index(s) == -1 ==> forall|j: int|
            0 <= j < s.len() ==> !spec_is_sep(#[trigger] s[j]),
    decreases s.len(),
{
    if s.len() > 0 && !spec_is_sep(s[0]) {
        lemma_first_sep_index_props(s.skip(1));
        assert forall|j: int| 1 <= j < s.len() && !spec_is_sep(s.skip(1)[j - 1]) implies !spec_is_sep(
            s[j],
        ) by {
            assert(s.skip(1)[j - 1] == s[j]);
        }
    }
}

fn first_sep_index(s: &str) -> (r: Option<usize>)
    ensures
        spec_first_sep_index(s@) == match r {
            Some(i) => i as int,
            None => -1,
        },
        r is Some ==> r->0 < s@.len(),
{
    let n: usize = s.unicode_len();
    let mut i: usize = 0;
    while i < n
        invariant
            i <= n,
            n == s@.len(),
            forall|j: int| 0 <= j < i ==> !spec_is_sep(#[trigger] s@[j]),
        decreases n - i,
    {
        let c = s.get_char(i);
        if c == '/' || c == '\\' {
            proof {
                lemma_first_sep_index_props(s@);
            }
            return Some(i);
        }
        i = i + 1;
    }
    proof {
        lemma_first_sep_index_props(s@);
    }
    None
}

/// The first path segment of `s`, per `spec_top_segment`.
fn top_segment(s: &str) -> (r: String)
    ensures
        r@ == spec_top_segment(s@),
{
    let t = trim_seps(s);
    let n: usize = t.unicode_len();
    match first_sep_index(t) {
        None => t.to_owned(),
        Some(i) => {
            let r = t.substring_char(0, i).to_owned();
            proof {
                assert(r@ =~= spec_top_segment(s@));
            }
            r
        },
    }
}

/// Insert `s` into the sorted, duplicate-free list `v`, keeping it sorted
/// and dropping `s` when it is already present.
fn insert_unique_sorted(v: &mut Vec<String>, s: String)
    requires
        spec_strictly_sorted(old(v)@.map_values(|x: String| x@)),
    ensures
        spec_strictly_sorted(final(v)@.map_values(|x: String| x@)),
        final(v)@.map_values(|y: String| y@).contains(s@),
        forall|j: int|
            0 <= j < old(v)@.len() ==> final(v)@.map_values(|y: String| y@).contains(
                (#[trigger] old(v)@[j])@,
            ),
        forall|j: int|
            0 <= j < final(v)@.len() ==> old(v)@.map_values(|y: String| y@).contains(
                (#[trigger] final(v)@[j])@,
            ) || final(v)@[j]@ == s@,
{
    let ghost ov = old(v)@.map_values(|x: String| x@);
    let mut i: usize = 0;
    while i < v.len()
        invariant
            i <= v@.len(),
            v@ == old(v)@,
            spec_strictly_sorted(ov),
            ov == v@.map_values(|x: String| x@),
            forall|j: int| 0 <= j < i ==> spec_lex_lt(#[trigger] ov[j], s@),
        decreases v@.len() - i,
    {
        if str_eq(v[i].as_str(), s.as_str()) {
            proof {
                assert(ov[i as int] == s@);
                assert(ov.contains(s@));
                assert forall|j: int| 0 <= j < v@.len() implies ov.contains((#[trigger] v@[j])@) by {
                    assert(ov[j] == v@[j]@);
                    assert(ov.contains(ov[j]));
                }
            }
            return;
        }
        if str_lex_le(s.as_str(), v[i].as_str()) {
            let ghost vi = ov[i as int];
            v.insert(i, s);
            proof {
                let nv = v@.map_values(|x: String| x@);
                assert(nv =~= ov.insert(i as int, s@));
                assert forall|p: int, q: int| 0 <= p < q < nv.len() implies spec_lex_lt(
                    #[trigger] nv[p],
                    #[trigger] nv[q],
                ) by {
                    if p < i && q == i {
                        assert(nv[p] == ov[p]);
                        assert(spec_lex_lt(ov[p], s@));
                    } else if p == i && q > i {
                        assert(nv[q] == ov[q - 1]);
                        if q - 1 == i {
                            assert(spec_lex_lt(s@, ov[i as int]));
                        } else {
                            assert(spec_lex_lt(ov[i as int], ov[q - 1]));
                            lemma_lex_trans(s@, ov[i as int], ov[q - 1]);
                            assert(s@ != ov[q - 1]) by {
                                if s@ == ov[q - 1] {
                                    lemma_lex_antisym(s@, ov[i as int]);
                                }
                            }
                        }
                    } else if p < i && q < i {
                        assert(nv[p] == ov[p]);
                        assert(nv[q] == ov[q]);
                    } else if p < i && q > i {
                        assert(nv[p] == ov[p]);
                        assert(nv[q] == ov[q - 1]);
                        if q - 1 == i {
                            assert(spec_lex_lt(ov[p], s@));
                        } else {
                            assert(spec_lex_lt(ov[p], ov[q - 1]));
                        }
                    } else {
                        assert(p > i && q > i);
                        assert(nv[p] == ov[p - 1]);
                        assert(nv[q] == ov[q - 1]);
                        assert(spec_lex_lt(ov[p - 1], ov[q - 1]));
                    }
                }
                assert forall|x: Seq<char>| nv.contains(x) <==> (ov.contains(x) || x == s@) by {
                    if nv.contains(x) {
                        let w = choose|w: int| 0 <= w < nv.len() && nv[w] == x;
                        if w < i {
                            assert(ov[w] == x);
                        } else if w == i {
                        } else {
                            assert(ov[w - 1] == x);
                        }
                    }
                    if ov.contains(x) {
                        let w = choose|w: int| 0 <= w < ov.len() && ov[w] == x;
                        if w < i {
                            assert(nv[w] == x);
                        } else {
                            assert(nv[w + 1] == x);
                        }
                    }
                    if x == s@ {
                        assert(nv[i as int] == x);
                    }
                }
                assert forall|j: int| 0 <= j < ov.len() implies nv.contains(
                    (#[trigger] old(v)@[j])@,
                ) by {
                    assert(ov[j] == old(v)@[j]@);
                    assert(ov.contains(ov[j]));
                    assert(nv.contains(ov[j]));
                }
                assert forall|j: int| 0 <= j < nv.len() implies (ov.contains((#[trigger] v@[j])@)
                    || v@[j]@ == s@) by {
                    assert(nv[j] == v@[j]@);
                    assert(nv.contains(nv[j]));
                }
            }
            return;
        }
        proof {
            lemma_lex_total(s@, ov[i as int]);
            assert(spec_lex_le(ov[i as int], s@));
            assert(ov[i as int] != s@);
        }
        i = i + 1;
    }
    v.push(s);
    proof {
        let nv = v@.map_values(|x: String| x@);
        assert(nv =~= ov.push(s@));
        assert forall|p: int, q: int| 0 <= p < q < nv.len() implies spec_lex_lt(
            #[trigger] nv[p],
            #[trigger] nv[q],
        ) by {
            if q == nv.len() - 1 {
                assert(nv[p] == ov[p]);
                assert(spec_lex_lt(ov[p], s@));
            } else {
                assert(nv[p] == ov[p]);
                assert(nv[q] == ov[q]);
            }
        }
        assert forall|x: Seq<char>| nv.contains(x) <==> (ov.contains(x) || x == s@) by {
            if nv.contains(x) {
                let w = choose|w: int| 0 <= w < nv.len() && nv[w] == x;
                if w < ov.len() {
                    assert(ov[w] == x);
                }
            }
            if ov.contains(x) {
                let w = choose|w: int| 0 <= w < ov.len() && ov[w] == x;
                assert(nv[w] == x);
            }
            if x == s@ {
                assert(nv[nv.len() - 1] == x);
            }
        }
        assert forall|j: int| 0 <= j < ov.len() implies nv.contains((#[trigger] old(v)@[j])@) by {
            assert(ov[j] == old(v)@[j]@);
            assert(ov.contains(ov[j]));
            assert(nv.contains(ov[j]));
        }
        assert forall|j: int| 0 <= j < nv.len() implies (ov.contains((#[trigger] v@[j])@) || v@[j]@
            == s@) by {
            assert(nv[j] == v@[j]@);
            assert(nv.contains(nv[j]));
        }
    }
}

/// Classify the member names of an archive following the shared rule: the
/// deduplicated, sorted set of first path segments; whether all members
/// share one root while the archive holds more than one member; and whether
/// the archive is a lone root-level file.
pub fn classify_top_level(names: &Vec<String>) -> (t: TopLevelEntries)
    ensures
        spec_classified(t, names@.map_values(|s: String| s@)),
{
    let ghost nv = names@.map_values(|s: String| s@);
    let mut entries: Vec<String> = Vec::new();
    let mut k: usize = 0;
    while k < names.len()
        invariant
            k <= names@.len(),
            nv == names@.map_values(|s: String| s@),
            spec_strictly_sorted(entries@.map_values(|s: String| s@)),
            forall|j: int| 0 <= j < entries@.len() ==> (#[trigger] entries@[j])@.len() > 0,
            forall|i: int|
                0 <= i < k && spec_top_segment((#[trigger] names@[i])@).len() > 0
                    ==> entries@.map_values(|s: String| s@).contains(spec_top_segment(names@[i]@)),
            forall|j: int|
                0 <= j < entries@.len() ==> spec_is_top_of_prefix(
                    (#[trigger] entries@[j])@,
                    nv,
                    k as int,
                ),
        decreases names@.len() - k,
    {
        let top = top_segment(names[k].as_str());
        proof {
            assert(nv[k as int] == names@[k as int]@);
        }
        if top.unicode_len() > 0 {
            let ghost pre = entries@;
            let ghost prev = entries@.map_values(|s: String| s@);
            let ghost topv = top@;
            insert_unique_sorted(&mut entries, top);
            proof {
                let ev = entries@.map_values(|s: String| s@);
                assert forall|i: int|
                    0 <= i < k + 1 && spec_top_segment((#[trigger] names@[i])@).len() > 0 implies ev
                    .contains(spec_top_segment(names@[i]@)) by {
                    if i < k as int {
                        assert(prev.contains(spec_top_segment(names@[i]@)));
                        let w = choose|w: int|
                            0 <= w < prev.len() && prev[w] == spec_top_segment(names@[i]@);
                        assert(pre[w]@ == spec_top_segment(names@[i]@));
                        assert(ev.contains(pre[w]@));
                    } else {
                        assert(topv == spec_top_segment(names@[i]@));
                        assert(ev.contains(topv));
                    }
                }
                assert forall|j: int| 0 <= j < entries@.len() implies (#[trigger] entries@[j])@.len()
                    > 0 by {
                    assert(prev.contains(entries@[j]@) || entries@[j]@ == topv);
                    if prev.contains(entries@[j]@) {
                        let w = choose|w: int| 0 <= w < prev.len() && prev[w] == entries@[j]@;
                        assert(prev[w] == pre[w]@);
                    }
                }
                assert forall|j: int| 0 <= j < entries@.len() implies spec_is_top_of_prefix(
                    (#[trigger] entries@[j])@,
                    nv,
                    k + 1,
                ) by {
                    assert(prev.contains(entries@[j]@) || entries@[j]@ == topv);
                    if prev.contains(entries@[j]@) {
                        let w = choose|w: int|
                            0 <= w < prev.len() && prev[w] == entries@[j]@;
                        assert(prev[w] == pre[w]@);
                        assert(spec_is_top_of_prefix(pre[w]@, nv, k as int));
                        let i0 = choose|i0: int|
                            0 <= i0 < k && spec_top_segment(#[trigger] nv[i0]) == pre[w]@;
                        assert(spec_top_segment(nv[i0]) == entries@[j]@);
                    } else {
                        assert(spec_top_segment(nv[k as int]) == entries@[j]@);
                    }
                }
            }
        } else {
            proof {
                assert forall|i: int|
                    0 <= i < k + 1 && spec_top_segment((#[trigger] names@[i])@).len() > 0
                    implies entries@.map_values(|s: String| s@).contains(
                    spec_top_segment(names@[i]@),
                ) by {
                    if i == k as int {
                        assert(spec_top_segment(names@[i]@) == top@);
                    }
                }
            }
        }
        k = k + 1;
    }
    let single_file: bool = if names.len() == 1 {
        let s0 = names[0].as_str();
        let nonempty = s0.unicode_len() > 0;
        let nosep = matches!(first_sep_index(s0), None);
        proof {
            assert(nv[0] == names@[0]@);
        }
        nonempty && nosep
    } else {
        false
    };
    let single_root_dir: Option<String> = if entries.len() == 1 && names.len() > 1 {
        Some(entries[0].clone())
    } else {
        None
    };
    let t = TopLevelEntries { entries, single_root_dir, single_file };
    proof {
        assert forall|kk: int|
            0 <= kk < nv.len() && spec_top_segment(#[trigger] nv[kk]).len() > 0 implies t
            .entry_views().contains(spec_top_segment(nv[kk])) by {
            assert(nv[kk] == names@[kk]@);
        }
    }
    t
}


/// Law: under the shared classification rule, an archive is reported as
/// having a single root directory exactly when it holds more than one
/// member and every member with a usable top segment shares the same one.
pub proof fn lemma_single_root_classified(t: TopLevelEntries, ns: Seq<Seq<char>>)
    requires
        spec_classified(t, ns),
    ensures
        (t.single_root_dir is Some) <==> spec_single_root(ns),
{
    let ev = t.entry_views();
    if t.single_root_dir is Some {
        assert(ev.len() == 1 && ns.len() > 1);
        assert(spec_is_top_of_prefix((t.entries@[0])@, ns, ns.len() as int));
        let i0 = choose|i: int|
            0 <= i < ns.len() && spec_top_segment(#[trigger] ns[i]) == (t.entries@[0])@;
        assert((t.entries@[0])@.len() > 0);
        assert(spec_top_segment(ns[i0]).len() > 0);
        assert forall|i: int, j: int|
            0 <= i < ns.len() && 0 <= j < ns.len() && spec_top_segment(#[trigger] ns[i]).len() > 0
                && spec_top_segment(#[trigger] ns[j]).len() > 0 implies spec_top_segment(ns[i])
            == spec_top_segment(ns[j]) by {
            assert(ev.contains(spec_top_segment(ns[i])));
            let wi = choose|w: int| 0 <= w < ev.len() && ev[w] == spec_top_segment(ns[i]);
            assert(ev.contains(spec_top_segment(ns[j])));
            let wj = choose|w: int| 0 <= w < ev.len() && ev[w] == spec_top_segment(ns[j]);
            assert(wi == 0 && wj == 0);
        }
        assert(spec_single_root(ns));
    }
    if spec_single_root(ns) {
        let i0 = choose|i: int| 0 <= i < ns.len() && spec_top_segment(#[trigger] ns[i]).len() > 0;
        let x = spec_top_segment(ns[i0]);
        assert(ev.contains(x));
        assert forall|j: int| 0 <= j < ev.len() implies ev[j] == x by {
            assert(spec_is_top_of_prefix((t.entries@[j])@, ns, ns.len() as int));
            let ij = choose|i: int|
                0 <= i < ns.len() && spec_top_segment(#[trigger] ns[i]) == (t.entries@[j])@;
            assert((t.entries@[j])@.len() > 0);
            assert(spec_top_segment(ns[ij]) == x);
            assert(ev[j] == (t.entries@[j])@);
        }
        let w = choose|w: int| 0 <= w < ev.len() && ev[w] == x;
        if ev.len() >= 2 {
            assert(ev[0] == x && ev[1] == x);
            assert(spec_lex_lt(ev[0], ev[1]));
            assert(false);
        }
        assert(ev.len() == 1 && ns.len() > 1);
        assert(t.single_root_dir is Some);
    }
}

/// The member names that the archive bytes `d` hold under `format`, where
/// that is a function of the bytes alone.
pub open spec fn spec_data_names(format: ArchiveFormat, d: Seq<u8>) -> Option<Seq<Seq<char>>> {
    match format {
        ArchiveFormat::Zip => Some(zip_names_of(d)),
        ArchiveFormat::Tar => Some(tar_names_of(d)),
        ArchiveFormat::TarGz => Some(tar_names_of(gz_plain_of(d))),
        ArchiveFormat::TarXz => Some(tar_names_of(xz_plain_of(d))),
        ArchiveFormat::TarBz2 => Some(tar_names_of(bz2_plain_of(d))),
        ArchiveFormat::TarZst => Some(tar_names_of(zst_plain_of(d))),
        _ => None,
    }
}

/// Whether listing the archive bytes `d` under `format` succeeds: the
/// bytes parse as the container (after the compression layer, for the
/// layered TAR formats). False for the formats not listed from bytes.
pub open spec fn spec_data_listing_ok(format: ArchiveFormat, d: Seq<u8>) -> bool {
    match format {
        ArchiveFormat::Zip => zip_wf(d),
        ArchiveFormat::Tar | ArchiveFormat::TarGz | ArchiveFormat::TarXz | ArchiveFormat::TarBz2
            | ArchiveFormat::TarZst => spec_tar_ok(format, d) && tar_wf(
            crate::tar_format::spec_tar_payload(format, d)->0,
        ),
        _ => false,
    }
}

/// The folder name derived from the archive's file name; a name that
/// yields nothing falls back to a fixed one.
pub open spec fn spec_resolve_stem(path: Seq<char>) -> Seq<char> {
    if spec_archive_stem(path).len() == 0 {
        "extracted"@
    } else {
        spec_archive_stem(path)
    }
}

/// The `k`-th candidate destination: `base/stem` first, then
/// `base/stem (2)`, `base/stem (3)`, ...
pub open spec fn spec_candidate(base: Seq<char>, stem: Seq<char>, k: nat) -> Seq<char> {
    if k <= 1 {
        spec_join(base, stem)
    } else {
        spec_join(base, stem + " ("@ + spec_digits(k) + ")"@)
    }
}

/// List an archive's top-level entries by format. Single-file compressed
/// streams report a synthetic lone-file shape without decoding; the
/// container formats list their member names and classify them.
///
/// `data` carries the archive's bytes for the formats that are read in
/// memory (ZIP and the TAR family); `None` means the file could not be
/// read.
pub fn list_top_level_entries(path: &str, data: &Option<Vec<u8>>, format: ArchiveFormat) -> (r:
    Result<TopLevelEntries, FastZipError>)
    ensures
        format.spec_is_single_compressed() ==> (r matches Ok(t) && t.single_file
            && t.entries@.len() == 0 && t.single_root_dir is None),
        data is Some && spec_data_names(format, data->0@) is Some ==> (r matches Ok(t)
            ==> spec_classified(t, spec_data_names(format, data->0@)->0)),
        format is Rar ==> (r matches Err(e) && e is UnsupportedFormat),
        !format.spec_is_single_compressed() && !(format is SevenZ) && !(format is Rar) && data
            is None ==> (r matches Err(e) && e matches FastZipError::FileNotFound(p) && p@
            == path@),
        data is Some && spec_data_listing_ok(format, data->0@) ==> r is Ok,
{
    if format.is_single_compressed() {
        return Ok(
            TopLevelEntries { entries: Vec::new(), single_root_dir: None, single_file: true },
        );
    }
    match format {
        ArchiveFormat::SevenZ => SevenZExtractor::list_top_level(path),
        ArchiveFormat::Rar => RarExtractor::list_top_level(path),
        ArchiveFormat::Zip => {
            match data {
                Some(d) => ZipExtractor::list_top_level(d),
                None => Err(FastZipError::FileNotFound(path.to_owned())),
            }
        },
        _ => {
            match data {
                Some(d) => TarExtractor::list_top_level(d, format),
                None => Err(FastZipError::FileNotFound(path.to_owned())),
            }
        },
    }
}

/// Detect an archive's format and list its top-level entries, for
/// previews and for the smart-destination decision.
pub fn list_archive_top_level(path: &str, data: &Option<Vec<u8>>) -> (r: Result<
    (ArchiveFormat, TopLevelEntries),
    FastZipError,
>)
    ensures
        spec_detected(path@, spec_head(*data)) is None ==> r is Err,
        crate::formats::spec_from_extension(path@) is None && data is None ==> (r matches Err(e)
            && e matches FastZipError::FileNotFound(p) && p@ == path@),
        crate::formats::spec_from_extension(path@) is None && data is Some
            && crate::formats::spec_from_magic(data->0@) is None ==> r == Err::<
            (ArchiveFormat, TopLevelEntries),
            FastZipError,
        >(FastZipError::FormatDetectionFailed),
        r matches Ok(ft) ==> spec_detected(path@, spec_head(*data)) == Some(ft.0),
        r matches Ok(ft) ==> (ft.0.spec_is_single_compressed() ==> ft.1.single_file),
        r matches Ok(ft) ==> (data is Some && spec_data_names(ft.0, data->0@) is Some
            ==> spec_classified(ft.1, spec_data_names(ft.0, data->0@)->0)),
        spec_detected(path@, spec_head(*data)) matches Some(f) && f.spec_is_single_compressed()
            ==> r is Ok,
        spec_detected(path@, spec_head(*data)) matches Some(f) && data is Some
            && spec_data_listing_ok(f, data->0@) ==> r is Ok,
        spec_detected(path@, spec_head(*data)) matches Some(f) && f is Rar ==> (r matches Err(e)
            && e is UnsupportedFormat),
        spec_detected(path@, spec_head(*data)) matches Some(f) && (f is Zip || f is Tar || f
            is TarGz || f is TarXz || f is TarBz2 || f is TarZst) && data is None ==> (r matches
            Err(e) && (e matches FastZipError::FileNotFound(p) && p@ == path@)),
{
    let format = detect_format(path, data)?;
    let entries = list_top_level_entries(path, data, format)?;
    Ok((format, entries))
}

/// Choose the destination directory for an archive whose top-level shape
/// is already known.
///
/// A lone root-level file goes straight into `base_dir`; so does an
/// archive whose members all share one root folder, since extraction
/// recreates that folder by itself. Everything else gets a folder named
/// after the archive, probing `name`, `name (2)`, `name (3)`, ... for one
/// that does not exist yet. The probe asks the disk, so only the shape of
/// the answer is promised; the caller creates the directory.
pub fn resolve_dest_from_entries(entries: &TopLevelEntries, archive_path: &str, base_dir: &str)
    -> (r: Result<String, FastZipError>)
    ensures
        entries.single_file ==> (r matches Ok(d) && d@ == base_dir@),
        !entries.single_file && entries.single_root_dir is Some ==> (r matches Ok(d) && d@
            == base_dir@),
        !entries.single_file && entries.single_root_dir is None ==> (r matches Ok(d) ==> exists|
            k: nat,
        | 1 <= k && d@ == spec_candidate(base_dir@, spec_resolve_stem(archive_path@), k)),
        r matches Err(e) ==> e is Other,
{
    if entries.single_file {
        return Ok(base_dir.to_owned());
    }
    if entries.single_root_dir.is_some() {
        return Ok(base_dir.to_owned());
    }
    let st0 = archive_stem(archive_path);
    let stem: String = if st0.unicode_len() == 0 {
        "extracted".to_owned()
    } else {
        st0
    };
    let first = join_path(base_dir, stem.as_str());
    if !path_exists(first.as_str()) {
        proof {
            let k: nat = 1;
            assert(first@ == spec_candidate(base_dir@, spec_resolve_stem(archive_path@), k));
        }
        return Ok(first);
    }
    let mut k: u64 = 2;
    while k < u64::MAX
        invariant
            2 <= k,
            stem@ == spec_resolve_stem(archive_path@),
            !entries.single_file,
            entries.single_root_dir is None,
        decreases u64::MAX - k,
    {
        let suffix = u64_to_string(k);
        let cand_name = stem.clone().concat(" (").concat(suffix.as_str()).concat(")");
        let cand = join_path(base_dir, cand_name.as_str());
        proof {
            assert(cand_name@ =~= stem@ + " ("@ + spec_digits(k as nat) + ")"@);
        }
        if !path_exists(cand.as_str()) {
            proof {
                let kk: nat = k as nat;
                assert(cand@ == spec_candidate(base_dir@, spec_resolve_stem(archive_path@), kk));
            }
            return Ok(cand);
        }
        k = k + 1;
    }
    Err(FastZipError::Other("no unused destination name".to_owned()))
}

/// Compute the smart destination for the archive at `archive_path` under
/// `base_dir`: list, classify, then decide.
pub fn resolve_smart_dest(archive_path: &str, base_dir: &str, format: ArchiveFormat, data: &Option<
    Vec<u8>,
>) -> (r: Result<String, FastZipError>)
    ensures
        format.spec_is_single_compressed() ==> (r matches Ok(d) && d@ == base_dir@),
        data is Some && spec_data_names(format, data->0@) is Some && spec_single_file(
            spec_data_names(format, data->0@)->0,
        ) ==> (r matches Ok(d) ==> d@ == base_dir@),
        data is Some && spec_data_names(format, data->0@) is Some && spec_single_root(
            spec_data_names(format, data->0@)->0,
        ) ==> (r matches Ok(d) ==> d@ == base_dir@),
        r matches Ok(d) ==> (d@ == base_dir@ || exists|k: nat|
            1 <= k && d@ == spec_candidate(base_dir@, spec_resolve_stem(archive_path@), k)),
        format is Rar ==> (r matches Err(e) && e is UnsupportedFormat),
        data is Some && spec_data_listing_ok(format, data->0@) ==> (r is Ok || (r matches Err(e)
            && e is Other)),
        data is Some && spec_data_listing_ok(format, data->0@) && spec_single_file(
            spec_data_names(format, data->0@)->0,
        ) ==> (r matches Ok(d) && d@ == base_dir@),
        data is Some && spec_data_listing_ok(format, data->0@) && spec_single_root(
            spec_data_names(format, data->0@)->0,
        ) ==> (r matches Ok(d) && d@ == base_dir@),
        !format.spec_is_single_compressed() && !(format is SevenZ) && !(format is Rar) && data
            is None ==> (r matches Err(e) && e matches FastZipError::FileNotFound(p) && p@
            == archive_path@),
{
    let entries = list_top_level_entries(archive_path, data, format)?;
    proof {
        if data is Some && spec_data_names(format, data->0@) is Some {
            let ns = spec_data_names(format, data->0@)->0;
            if spec_single_root(ns) {
                lemma_single_root_classified(entries, ns);
            }
        }
    }
    resolve_dest_from_entries(&entries, archive_path, base_dir)
}

} // verus!
