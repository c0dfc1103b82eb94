//! Entry-name normalization: archive-internal names become safe, relative
//! component lists that cannot escape the destination directory.

use vstd::prelude::*;
use vstd::string::StrSliceExecFns;
use vstd::string::StringExecFns;

use crate::formats::{spec_file_name, spec_stem_of};
use crate::strutil::{
    ends_with, last_index_of, spec_ends_with, spec_split_slash, split_slash, str_eq,
};

verus! {

/// A component that may appear in a normalized path: non-empty and neither
/// the current- nor the parent-directory marker.
pub open spec fn spec_component_ok(p: Seq<char>) -> bool {
    p.len() > 0 && p != "."@ && p != ".."@
}

/// One normalization step: empty and current-directory components are
/// dropped, a parent-directory component pops the last accumulated
/// component, anything else is kept verbatim.
pub open spec fn spec_norm_step(acc: Seq<Seq<char>>, p: Seq<char>) -> Seq<Seq<char>> {
    if p.len() == 0 || p == "."@ {
        acc
    } else if p == ".."@ {
        if acc.len() > 0 {
            acc.drop_last()
        } else {
            acc
        }
    } else {
        acc.push(p)
    }
}

pub open spec fn spec_norm_parts(acc: Seq<Seq<char>>, parts: Seq<Seq<char>>) -> Seq<Seq<char>>
    decreases parts.len(),
{
    if parts.len() == 0 {
        acc
    } else {
        spec_norm_parts(spec_norm_step(acc, parts[0]), parts.skip(1))
    }
}

/// The normalized components of an archive entry name.
pub open spec fn spec_normalize(name: Seq<char>) -> Seq<Seq<char>> {
    spec_norm_parts(Seq::empty(), spec_split_slash(name))
}

fn norm_rec(parts: &Vec<String>, i: usize, acc: &mut Vec<String>)
    requires
        i <= parts@.len(),
    ensures
        final(acc)@.map_values(|s: String| s@) == spec_norm_parts(
            old(acc)@.map_values(|s: String| s@),
            parts@.map_values(|s: String| s@).skip(i as int),
        ),
    decreases parts@.len() - i,
{
    let ghost ps = parts@.map_values(|s: String| s@);
    if i == parts.len() {
        proof {
            assert(ps.skip(i as int) =~= Seq::<Seq<char>>::empty());
        }
        return;
    }
    let p = &parts[i];
    if p.unicode_len() == 0 || str_eq(p.as_str(), ".") {
    } else if str_eq(p.as_str(), "..") {
        if acc.len() > 0 {
            acc.pop();
        }
    } else {
        acc.push(p.clone());
    }
    proof {
        assert(ps.skip(i as int)[0] == ps[i as int]);
        assert(acc@.map_values(|s: String| s@) =~= spec_norm_step(
            old(acc)@.map_values(|s: String| s@),
            ps[i as int],
        ));
    }
    norm_rec(parts, i + 1, acc);
    proof {
        assert(ps.skip(i as int).skip(1) =~= ps.skip(i + 1));
    }
}

/// Normalize an archive-internal entry name into the list of path
/// components it may occupy below a destination directory.
///
/// Root markers, empty pieces and `.` are dropped; `..` pops the last kept
/// component instead of ever appearing in the result; every other component
/// is kept verbatim, full Unicode included.
pub fn normalize_entry_path(name: &str) -> (r: Vec<String>)
    ensures
        r@.map_values(|s: String| s@) == spec_normalize(name@),
{
    let parts = split_slash(name);
    let mut acc: Vec<String> = Vec::new();
    proof {
        assert(acc@.map_values(|s: String| s@) =~= Seq::<Seq<char>>::empty());
    }
    norm_rec(&parts, 0, &mut acc);
    proof {
        assert(parts@.map_values(|s: String| s@).skip(0) =~= parts@.map_values(|s: String| s@));
        assert(acc@.map_values(|s: String| s@) =~= spec_normalize(name@));
    }
    acc
}

proof fn lemma_norm_parts_safe(acc: Seq<Seq<char>>, parts: Seq<Seq<char>>)
    requires
        forall|i: int| 0 <= i < acc.len() ==> spec_component_ok(#[trigger] acc[i]),
    ensures
        forall|i: int|
            0 <= i < spec_norm_parts(acc, parts).len() ==> spec_component_ok(
                #[trigger] spec_norm_parts(acc, parts)[i],
            ),
    decreases parts.len(),
{
    if parts.len() == 0 {
        assert(spec_norm_parts(acc, parts) == acc);
    } else {
        let p = parts[0];
        let next = spec_norm_step(acc, p);
        assert forall|i: int| 0 <= i < next.len() implies spec_component_ok(#[trigger] next[i]) by {
            if p.len() == 0 || p == "."@ {
                assert(spec_component_ok(acc[i]));
            } else if p == ".."@ {
                if acc.len() > 0 {
                    assert(next[i] == acc[i]);
                }
                assert(spec_component_ok(acc[i]));
            } else {
                if i < acc.len() {
                    assert(next[i] == acc[i]);
                    assert(spec_component_ok(acc[i]));
                } else {
                    assert(next[i] == p);
                }
            }
        }
        lemma_norm_parts_safe(next, parts.skip(1));
        assert(spec_norm_parts(acc, parts) == spec_norm_parts(next, parts.skip(1)));
        assert forall|i: int| 0 <= i < spec_norm_parts(acc, parts).len() implies spec_component_ok(
            #[trigger] spec_norm_parts(acc, parts)[i],
        ) by {
            assert(spec_norm_parts(acc, parts)[i] == spec_norm_parts(next, parts.skip(1))[i]);
        }
    }
}

/// Path safety: no normalized entry name holds an empty, `.` or `..`
/// component, so joining the components under a destination directory can
/// never escape it.
pub proof fn lemma_normalize_entry_path_safe(name: Seq<char>)
    ensures
        forall|i: int|
            0 <= i < spec_normalize(name).len() ==> spec_component_ok(
                #[trigger] spec_normalize(name)[i],
            ),
{
    lemma_norm_parts_safe(Seq::empty(), spec_split_slash(name));
}

proof fn lemma_norm_parts_all_ok(acc: Seq<Seq<char>>, parts: Seq<Seq<char>>)
    requires
        forall|i: int| 0 <= i < parts.len() ==> spec_component_ok(#[trigger] parts[i]),
    ensures
        spec_norm_parts(acc, parts) == acc + parts,
    decreases parts.len(),
{
    if parts.len() == 0 {
        assert(acc + parts =~= acc);
    } else {
        assert(spec_component_ok(parts[0]));
        assert(spec_norm_step(acc, parts[0]) == acc.push(parts[0]));
        lemma_norm_parts_all_ok(acc.push(parts[0]), parts.skip(1));
        assert(acc.push(parts[0]) + parts.skip(1) =~= acc + parts);
    }
}

/// Structure preservation: an entry name made only of ordinary components
/// keeps exactly those components, in order and at their original depths.
pub proof fn lemma_normalize_keeps_normal_components(name: Seq<char>)
    requires
        forall|i: int|
            0 <= i < spec_split_slash(name).len() ==> spec_component_ok(
                #[trigger] spec_split_slash(name)[i],
            ),
    ensures
        spec_normalize(name) == spec_split_slash(name),
{
    lemma_norm_parts_all_ok(Seq::empty(), spec_split_slash(name));
    assert(Seq::empty() + spec_split_slash(name) =~= spec_split_slash(name));
}

/// The relative path spelled by `parts`, joined with '/'.
pub open spec fn spec_join_rel(parts: Seq<Seq<char>>) -> Seq<char>
    decreases parts.len(),
{
    if parts.len() == 0 {
        Seq::empty()
    } else if parts.len() == 1 {
        parts[0]
    } else {
        parts[0] + seq!['/'] + spec_join_rel(parts.skip(1))
    }
}

fn join_rel_rec(parts: &Vec<String>, i: usize) -> (r: String)
    requires
        i <= parts@.len(),
    ensures
        r@ == spec_join_rel(parts@.map_values(|s: String| s@).skip(i as int)),
    decreases parts@.len() - i,
{
    let ghost ps = parts@.map_values(|s: String| s@);
    if i == parts.len() {
        proof {
            assert(ps.skip(i as int) =~= Seq::<Seq<char>>::empty());
        }
        return String::new();
    }
    if i + 1 == parts.len() {
        let r = parts[i].clone();
        proof {
            assert(ps.skip(i as int).len() == 1);
            assert(ps.skip(i as int)[0] == ps[i as int]);
        }
        return r;
    }
    let rest = join_rel_rec(parts, i + 1);
    let r = parts[i].clone().concat("/").concat(rest.as_str());
    proof {
        reveal_strlit("/");
        assert(ps.skip(i as int)[0] == ps[i as int]);
        assert(ps.skip(i as int).skip(1) =~= ps.skip(i + 1));
        assert(r@ =~= spec_join_rel(ps.skip(i as int)));
    }
    r
}

/// Join path components with '/' into one relative path.
pub fn join_components(parts: &Vec<String>) -> (r: String)
    ensures
        r@ == spec_join_rel(parts@.map_values(|s: String| s@)),
{
    let r = join_rel_rec(parts, 0);
    proof {
        assert(parts@.map_values(|s: String| s@).skip(0) =~= parts@.map_values(|s: String| s@));
    }
    r
}

/// The archive's base name with its extension stripped; a compound
/// `name.tar.xx` loses both the compression extension and the `.tar`.
pub open spec fn spec_archive_stem(path: Seq<char>) -> Seq<char> {
    let st = spec_stem_of(spec_file_name(path));
    if spec_ends_with(st, ".tar"@) {
        st.take(st.len() - ".tar"@.len())
    } else {
        st
    }
}

/// The file-name part of `path`.
pub fn file_name_of(path: &str) -> (r: &str)
    ensures
        r@ == spec_file_name(path@),
{
    let n: usize = path.unicode_len();
    let start: usize = match last_index_of(path, '/') {
        Some(i) => i + 1,
        None => 0,
    };
    let r = path.substring_char(start, n);
    proof {
        crate::strutil::lemma_last_index_of_props(path@, '/');
        assert(r@ =~= spec_file_name(path@));
    }
    r
}

/// The archive stem of `path` (see `spec_archive_stem`).
pub fn archive_stem(path: &str) -> (r: String)
    ensures
        r@ == spec_archive_stem(path@),
{
    let name = file_name_of(path);
    let m: usize = name.unicode_len();
    let d: usize = match last_index_of(name, '.') {
        Some(i) => i,
        None => 0,
    };
    let st = if d == 0 {
        name
    } else {
        name.substring_char(0, d)
    };
    proof {
        assert(st@ =~= spec_stem_of(name@));
    }
    let k: usize = st.unicode_len();
    if ends_with(st, ".tar") {
        proof {
            reveal_strlit(".tar");
        }
        let r = st.substring_char(0, k - 4).to_owned();
        proof {
            assert(r@ =~= spec_archive_stem(path@));
        }
        r
    } else {
        st.to_owned()
    }
}

} // verus!
