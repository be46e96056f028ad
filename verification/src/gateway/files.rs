//! The file browser's rules: which paths stay inside the working directory
//! (compared component by component once `.` and `..` are resolved), which
//! entries are shown, and in what order.
use vstd::prelude::*;
use crate::cdp::discovery::{join_paths, joined_path};
use crate::json::texts;
use crate::shared::ChatApiError;
use crate::paths::{components_of, inside_dir, path_components, path_starts_with, resolved_inside};
use crate::text::{chars_of, push_str};
use crate::tools::file_ops::{chars_lt, lemma_chars_lt};

verus! {

broadcast use vstd::seq_lib::group_seq_properties;

/// Whether `path` starts with `base`, component by component.
pub fn starts_with_path(path: &str, base: &str) -> (r: bool)
    ensures
        r == path_starts_with(path@, base@),
{
    let pc = components_of(path);
    let bc = components_of(base);
    if bc.len() > pc.len() {
        return false;
    }
    let mut k: usize = 0;
    while k < bc.len()
        invariant
            k <= bc.len() <= pc.len(),
            texts(pc@) == path_components(path@),
            texts(bc@) == path_components(base@),
            forall|j: int| 0 <= j < k ==> texts(pc@)[j] == texts(bc@)[j],
        decreases bc.len() - k,
    {
        if pc[k] != bc[k] {
            assert(texts(pc@)[k as int] == pc@[k as int]@);
            assert(texts(bc@)[k as int] == bc@[k as int]@);
            assert(texts(pc@).subrange(0, bc.len() as int)[k as int] == texts(pc@)[k as int]);
            assert(texts(pc@).subrange(0, bc@.len() as int) != texts(bc@));
            return false;
        }
        k = k + 1;
    }
    assert(texts(pc@).subrange(0, bc.len() as int) =~= texts(bc@));
    true
}

/// A path taken relative to the working directory stays inside it: joined
/// to it and resolved, it does not leave it.
pub open spec fn stays_inside(working_dir: Seq<char>, rel: Seq<char>) -> bool {
    resolved_inside(joined_path(working_dir, rel), working_dir)
}

/// The directory to list: the working directory joined with the asked path
/// (`.` when none), refused when it leaves the working directory.
pub fn listing_dir(working_dir: &str, rel: Option<&str>) -> (r: Result<String, ChatApiError>)
    ensures
        ({
            let p = match rel { Some(x) => x@, None => "."@ };
            if stays_inside(working_dir@, p) {
                r matches Ok(abs) && abs@ == joined_path(working_dir@, p)
            } else {
                r matches Err(ChatApiError::InvalidRequest(m)) && m@ == "Path outside working directory"@
            }
        }),
{
    let p = match rel {
        Some(x) => x,
        None => ".",
    };
    let abs = join_paths(working_dir, p);
    if inside_dir(abs.as_str(), working_dir) {
        Ok(abs)
    } else {
        Err(ChatApiError::InvalidRequest(String::from_str("Path outside working directory")))
    }
}

/// The file to read: the working directory joined with the asked path; a
/// missing path and one that leaves the working directory are refused.
pub fn readable_file(working_dir: &str, rel: Option<&str>) -> (r: Result<String, ChatApiError>)
    ensures
        rel is None ==> (r matches Err(ChatApiError::InvalidRequest(m)) && m@ == "Missing 'path' parameter"@),
        rel matches Some(p) ==> if stays_inside(working_dir@, p@) {
            r matches Ok(abs) && abs@ == joined_path(working_dir@, p@)
        } else {
            r matches Err(ChatApiError::InvalidRequest(m)) && m@ == "Path outside working directory"@
        },
{
    match rel {
        None => Err(ChatApiError::InvalidRequest(String::from_str("Missing 'path' parameter"))),
        Some(p) => {
            let abs = join_paths(working_dir, p);
            if inside_dir(abs.as_str(), working_dir) {
                Ok(abs)
            } else {
                Err(ChatApiError::InvalidRequest(String::from_str("Path outside working directory")))
            }
        },
    }
}

/// Hidden entries are not shown, except the knowledge base.
pub open spec fn entry_shown(name: Seq<char>) -> bool {
    !(name.len() > 0 && name[0] == '.') || name == ".knowledge"@
}

pub fn shown_entry(name: &str) -> (r: bool)
    ensures
        r == entry_shown(name@),
{
    let cs = chars_of(name);
    if cs.len() > 0 && cs[0] == '.' {
        String::from_str(name) == String::from_str(".knowledge")
    } else {
        true
    }
}

/// An entry's path as the listing shows it: relative to the working
/// directory, through the listed directory.
pub fn entry_path(rel_dir: &str, name: &str) -> (r: String)
    ensures
        r@ == (if rel_dir@ == "."@ { name@ } else { rel_dir@ + "/"@ + name@ }),
{
    if String::from_str(rel_dir) == String::from_str(".") {
        String::from_str(name)
    } else {
        let mut out = String::from_str(rel_dir);
        push_str(&mut out, "/");
        push_str(&mut out, name);
        out
    }
}

/// The listing's order: directories first, then by name.
pub open spec fn listing_lt(a: (Seq<char>, bool), b: (Seq<char>, bool)) -> bool {
    (a.1 && !b.1) || (a.1 == b.1 && chars_lt(a.0, b.0))
}

pub open spec fn listing_sorted(v: Seq<(Seq<char>, bool)>) -> bool {
    forall|i: int, j: int| 0 <= i < j < v.len() ==> !listing_lt(v[j], v[i])
}

proof fn lemma_listing_lt(a: (Seq<char>, bool), b: (Seq<char>, bool), c: (Seq<char>, bool))
    ensures
        !listing_lt(a, a),
        a != b ==> listing_lt(a, b) || listing_lt(b, a),
        listing_lt(a, b) && listing_lt(b, c) ==> listing_lt(a, c),
{
    lemma_chars_lt(a.0, b.0, c.0);
    lemma_chars_lt(b.0, a.0, c.0);
    lemma_chars_lt(a.0, c.0, b.0);
    lemma_chars_lt(c.0, b.0, a.0);
    lemma_chars_lt(b.0, c.0, a.0);
    lemma_chars_lt(c.0, a.0, b.0);
}

fn name_before(a: &String, b: &String) -> (r: bool)
    ensures
        r == chars_lt(a@, b@),
{
    let ac = chars_of(a.as_str());
    let bc = chars_of(b.as_str());
    let mut k: usize = 0;
    while k < ac.len() && k < bc.len() && ac[k] == bc[k]
        invariant
            k <= ac.len(),
            k <= bc.len(),
            chars_lt(a@, b@) == chars_lt(ac@.skip(k as int), bc@.skip(k as int)),
            ac@ == a@,
            bc@ == b@,
        decreases ac.len() - k,
    {
        assert(ac@.skip(k as int).drop_first() =~= ac@.skip(k + 1));
        assert(bc@.skip(k as int).drop_first() =~= bc@.skip(k + 1));
        k = k + 1;
    }
    if k == ac.len() {
        k < bc.len()
    } else if k == bc.len() {
        false
    } else {
        ac[k] < bc[k]
    }
}

/// Sorts a listing's (name, is-directory) entries: directories first, then
/// by name.
pub fn sort_listing(items: &Vec<(String, bool)>) -> (r: Vec<(String, bool)>)
    ensures
        listing_sorted(crate::tools::file_ops::entries_view(r@)),
        crate::tools::file_ops::entries_view(r@).to_multiset() == crate::tools::file_ops::entries_view(items@).to_multiset(),
{
    broadcast use vstd::seq_lib::group_to_multiset_ensures;
    let mut out: Vec<(String, bool)> = Vec::new();
    let ghost iv = crate::tools::file_ops::entries_view(items@);
    let mut i: usize = 0;
    assert(iv.take(0) =~= Seq::<(Seq<char>, bool)>::empty());
    assert(crate::tools::file_ops::entries_view(out@) =~= Seq::<(Seq<char>, bool)>::empty());
    while i < items.len()
        invariant
            i <= items.len(),
            iv == crate::tools::file_ops::entries_view(items@),
            listing_sorted(crate::tools::file_ops::entries_view(out@)),
            crate::tools::file_ops::entries_view(out@).to_multiset() == iv.take(i as int).to_multiset(),
        decreases items.len() - i,
    {
        let x = (items[i].0.clone(), items[i].1);
        let ghost xv = (x.0@, x.1);
        assert(xv == iv[i as int]);
        let mut p: usize = 0;
        while p < out.len() && !((x.1 && !out[p].1) || (x.1 == out[p].1 && name_before(&x.0, &out[p].0)))
            invariant
                p <= out.len(),
                xv == (x.0@, x.1),
                forall|j: int| 0 <= j < p ==> !listing_lt(xv, #[trigger] crate::tools::file_ops::entries_view(out@)[j]),
            decreases out.len() - p,
        {
            p = p + 1;
        }
        let ghost ov = crate::tools::file_ops::entries_view(out@);
        out.insert(p, x);
        proof {
            let nv = crate::tools::file_ops::entries_view(out@);
            assert(nv =~= ov.insert(p as int, xv));
            assert forall|a: int, b: int| 0 <= a < b < nv.len() implies !listing_lt(nv[b], nv[a]) by {
                if a < p && b < p {
                    assert(nv[a] == ov[a] && nv[b] == ov[b]);
                } else if a < p && b == p {
                    assert(nv[a] == ov[a] && nv[b] == xv);
                    lemma_listing_lt(xv, ov[a], ov[a]);
                    lemma_listing_lt(ov[a], xv, xv);
                } else if a < p && b > p {
                    assert(nv[a] == ov[a] && nv[b] == ov[b - 1]);
                } else if a == p {
                    assert(nv[a] == xv && nv[b] == ov[b - 1]);
                    assert(listing_lt(xv, ov[p as int]));
                    lemma_listing_lt(ov[b - 1], xv, ov[p as int]);
                    lemma_listing_lt(ov[p as int], ov[p as int], ov[p as int]);
                } else {
                    assert(nv[a] == ov[a - 1] && nv[b] == ov[b - 1]);
                }
            }
            assert(nv.remove(p as int) =~= ov);
            assert(iv.take(i + 1) =~= iv.take(i as int).push(xv));
            assert(nv.to_multiset().count(xv) > 0) by {
                assert(nv[p as int] == xv);
            }
            assert(nv.to_multiset() =~= ov.to_multiset().insert(xv));
        }
        i = i + 1;
    }
    assert(iv.take(i as int) =~= iv);
    out
}

} // verus!
