//! Paths as lists of components: splitting a path the way
//! `Path::components` does, and resolving `.` and `..` lexically.
use vstd::prelude::*;
use crate::json::texts;
use crate::rules::prompt::{join, push_join};
use crate::text::{chars_of, find_exec, find_from, lemma_find_from_bounds, string_of};

verus! {

broadcast use vstd::seq_lib::group_seq_properties;

/// The pieces of `s` from `start` between `/` separators.
pub open spec fn pieces_from(s: Seq<char>, start: int) -> Seq<Seq<char>>
    decreases s.len() - start,
{
    if start < 0 || start > s.len() {
        Seq::empty()
    } else {
        match find_from(s, seq!['/'], start) {
            Some(i) => {
                proof {
                    lemma_find_from_bounds(s, seq!['/'], start);
                }
                seq![s.subrange(start, i)] + pieces_from(s, i + 1)
            },
            None => seq![s.subrange(start, s.len() as int)],
        }
    }
}

/// A piece that names something: not empty, not `.`.
pub open spec fn is_normal(p: Seq<char>) -> bool {
    p.len() > 0 && p != seq!['.']
}

/// The components of a path as `Path::components` gives them: the root, a
/// leading `.` of a relative path, and every other non-empty piece but `.`.
pub open spec fn path_components(s: Seq<char>) -> Seq<Seq<char>> {
    let ps = pieces_from(s, 0);
    let rooted = s.len() > 0 && s[0] == '/';
    (if rooted { seq![seq!['/']] } else { Seq::empty() })
        + (if !rooted && ps.len() > 0 && ps[0] == seq!['.'] { seq![seq!['.']] } else { Seq::empty() })
        + ps.filter(|p: Seq<char>| is_normal(p))
}

/// `Path::starts_with`: the base's components begin the path's.
pub open spec fn path_starts_with(path: Seq<char>, base: Seq<char>) -> bool {
    let pc = path_components(path);
    let bc = path_components(base);
    bc.len() <= pc.len() && pc.subrange(0, bc.len() as int) == bc
}

pub fn components_of(s: &str) -> (r: Vec<String>)
    ensures
        texts(r@) == path_components(s@),
{
    let cs = chars_of(s);
    let n = cs.len();
    let slash = vec!['/'];
    assert(slash@ =~= seq!['/']);
    let rooted = n > 0 && cs[0] == '/';
    // the pieces, one at a time
    let ghost ps = pieces_from(cs@, 0);
    let mut start: usize = 0;
    let mut first = true;
    let mut kept: Vec<String> = Vec::new();
    let mut lead_dot = false;
    let ghost done: Seq<Seq<char>> = Seq::empty();
    assert(done + pieces_from(cs@, 0) == ps);
    loop
        invariant_except_break
            done + pieces_from(cs@, start as int) == ps,
        invariant
            start <= n,
            n == cs.len(),
            cs@ == s@,
            slash@ == seq!['/'],
            ps == pieces_from(cs@, 0),
            first <==> done.len() == 0,
            texts(kept@) == done.filter(|p: Seq<char>| is_normal(p)),
            lead_dot <==> (done.len() > 0 && done[0] == seq!['.']),
        ensures
            done == ps,
            texts(kept@) == ps.filter(|p: Seq<char>| is_normal(p)),
            lead_dot <==> (ps.len() > 0 && ps[0] == seq!['.']),
        decreases n + 1 - start,
    {
        let found = find_exec(&cs, &slash, start);
        proof {
            lemma_find_from_bounds(cs@, slash@, start as int);
        }
        let end = match found {
            Some(i) => i,
            None => n,
        };
        let piece = string_of(&cs, start, end);
        let ghost pv = piece@;
        assert(pieces_from(cs@, start as int) == seq![pv] + match found {
            Some(i) => pieces_from(cs@, i + 1),
            None => Seq::<Seq<char>>::empty(),
        });
        let normal = end > start && !(end == start + 1 && cs[start] == '.');
        proof {
            assert(normal == is_normal(pv)) by {
                if end == start + 1 {
                    assert(pv.len() == 1);
                    assert(pv[0] == cs@[start as int]);
                    if cs@[start as int] == '.' {
                        assert(pv =~= seq!['.']);
                    } else {
                        assert(pv != seq!['.']) by {
                            if pv == seq!['.'] {
                                assert(pv[0] == '.');
                            }
                        }
                    }
                } else if end > start + 1 {
                    assert(pv != seq!['.']) by {
                        if pv == seq!['.'] {
                            assert(pv.len() == 1);
                        }
                    }
                }
            }
            reveal(Seq::filter);
            assert((done.push(pv)).drop_last() =~= done);
        }
        if first && end > start && end - start == 1 && cs[start] == '.' {
            lead_dot = true;
            assert(pv =~= seq!['.']);
        }
        if normal {
            kept.push(piece);
            assert(texts(kept@) =~= done.filter(|p: Seq<char>| is_normal(p)).push(pv));
        }
        let ghost nd = done.push(pv);
        proof {
            assert(nd.drop_last() =~= done);
            assert(nd[0] == if done.len() == 0 { pv } else { done[0] });
            done = nd;
        }
        first = false;
        match found {
            Some(i) => {
                assert(done + pieces_from(cs@, i + 1) =~= ps);
                start = i + 1;
            },
            None => {
                assert(done =~= ps);
                break;
            },
        }
    }
    proof {
        reveal_strlit("/");
        reveal_strlit(".");
    }
    let mut out: Vec<String> = Vec::new();
    if rooted {
        let root = String::from_str("/");
        assert(root@ =~= seq!['/']);
        out.push(root);
        assert(texts(out@) =~= seq![seq!['/']]);
    } else if lead_dot {
        let dot = String::from_str(".");
        assert(dot@ =~= seq!['.']);
        out.push(dot);
        assert(texts(out@) =~= seq![seq!['.']]);
    }
    let ghost head = texts(out@);
    let mut i: usize = 0;
    while i < kept.len()
        invariant
            i <= kept.len(),
            texts(out@) == head + texts(kept@).take(i as int),
        decreases kept.len() - i,
    {
        let ghost before = texts(out@);
        out.push(kept[i].clone());
        assert(texts(out@) =~= before.push(kept@[i as int]@));
        assert(texts(kept@).take(i + 1) =~= texts(kept@).take(i as int).push(kept@[i as int]@));
        i = i + 1;
    }
    assert(texts(kept@).take(i as int) =~= texts(kept@));
    assert(texts(out@) =~= path_components(s@)) by {
        if rooted {
            assert(head =~= seq![seq!['/']]);
        } else if lead_dot {
            assert(head =~= seq![seq!['.']]);
        } else {
            assert(head =~= Seq::<Seq<char>>::empty());
        }
    }
    out
}

/// One component taken into a resolved path: `.` is dropped, `..` takes back
/// the last named component (the root's parent is the root, and a relative
/// path that runs out keeps the `..`), anything else is added.
pub open spec fn resolve_step(st: Seq<Seq<char>>, p: Seq<char>) -> Seq<Seq<char>> {
    if p == seq!['.'] {
        st
    } else if p == seq!['.', '.'] {
        if st.len() > 0 && st.last() == seq!['/'] {
            st
        } else if st.len() > 0 && st.last() != seq!['.', '.'] {
            st.drop_last()
        } else {
            st.push(p)
        }
    } else {
        st.push(p)
    }
}

/// Components with every `.` and `..` resolved, left to right.
pub open spec fn resolve(cs: Seq<Seq<char>>) -> Seq<Seq<char>>
    decreases cs.len(),
{
    if cs.len() == 0 {
        Seq::empty()
    } else {
        resolve_step(resolve(cs.drop_last()), cs.last())
    }
}

/// A path's components, lexically resolved.
pub open spec fn resolved_components(s: Seq<char>) -> Seq<Seq<char>> {
    resolve(path_components(s))
}

/// Whether `path`, resolved, lies within `base`, resolved: the base's
/// components begin the path's and nothing after them climbs out.
pub open spec fn resolved_inside(path: Seq<char>, base: Seq<char>) -> bool {
    let pc = resolved_components(path);
    let bc = resolved_components(base);
    &&& bc.len() <= pc.len()
    &&& pc.subrange(0, bc.len() as int) == bc
    &&& forall|i: int| bc.len() <= i < pc.len() ==> pc[i] != seq!['.', '.']
}

fn text_is(s: &String, t: &str) -> (r: bool)
    ensures
        r == (s@ == t@),
{
    *s == String::from_str(t)
}

/// Resolves `.` and `..` in a component list.
pub fn resolve_components(v: &Vec<String>) -> (r: Vec<String>)
    ensures
        texts(r@) == resolve(texts(v@)),
{
    proof {
        reveal_strlit(".");
        reveal_strlit("..");
        reveal_strlit("/");
    }
    let ghost all = texts(v@);
    let mut out: Vec<String> = Vec::new();
    let mut i: usize = 0;
    assert(all.take(0) =~= Seq::<Seq<char>>::empty());
    assert(texts(out@) =~= Seq::<Seq<char>>::empty());
    while i < v.len()
        invariant
            i <= v.len(),
            all == texts(v@),
            texts(out@) == resolve(all.take(i as int)),
        decreases v.len() - i,
    {
        proof {
            reveal_strlit(".");
            reveal_strlit("..");
            reveal_strlit("/");
            assert("."@ =~= seq!['.']);
            assert(".."@ =~= seq!['.', '.']);
            assert("/"@ =~= seq!['/']);
        }
        let ghost st = texts(out@);
        let ghost pv = v@[i as int]@;
        assert(all.take(i + 1).drop_last() =~= all.take(i as int));
        assert(all.take(i + 1).last() == pv);
        assert(resolve(all.take(i + 1)) == resolve_step(st, pv));
        let p = &v[i];
        if text_is(p, ".") {
            assert(pv =~= seq!['.']);
        } else if text_is(p, "..") {
            assert(pv =~= seq!['.', '.']);
            assert(pv != seq!['.']);
            let n = out.len();
            if n > 0 && text_is(&out[n - 1], "/") {
                assert(st.last() == out@[n - 1]@);
                assert(st.last() =~= seq!['/']);
            } else if n > 0 && !text_is(&out[n - 1], "..") {
                assert(st.last() == out@[n - 1]@);
                assert(st.last() != seq!['/']);
                assert(st.last() != seq!['.', '.']);
                out.pop();
                assert(texts(out@) =~= st.drop_last());
            } else {
                if n > 0 {
                    assert(st.last() == out@[n - 1]@);
                    assert(st.last() =~= seq!['.', '.']);
                    assert(st.last() != seq!['/']);
                }
                out.push(p.clone());
                assert(texts(out@) =~= st.push(pv));
            }
        } else {
            assert(pv != seq!['.']);
            assert(pv != seq!['.', '.']);
            out.push(p.clone());
            assert(texts(out@) =~= st.push(pv));
        }
        i = i + 1;
    }
    assert(all.take(v.len() as int) =~= all);
    out
}

/// Whether `path` lies within `base` once both are resolved.
pub fn inside_dir(path: &str, base: &str) -> (r: bool)
    ensures
        r == resolved_inside(path@, base@),
{
    proof {
        reveal_strlit("..");
    }
    let pc = resolve_components(&components_of(path));
    let bc = resolve_components(&components_of(base));
    if bc.len() > pc.len() {
        return false;
    }
    let mut k: usize = 0;
    while k < bc.len()
        invariant
            k <= bc.len() <= pc.len(),
            texts(pc@) == resolved_components(path@),
            texts(bc@) == resolved_components(base@),
            forall|j: int| 0 <= j < k ==> texts(pc@)[j] == texts(bc@)[j],
        decreases bc.len() - k,
    {
        if pc[k] != bc[k] {
            assert(texts(pc@)[k as int] == pc@[k as int]@);
            assert(texts(bc@)[k as int] == bc@[k as int]@);
            assert(texts(pc@).subrange(0, bc.len() as int)[k as int] == texts(pc@)[k as int]);
            assert(texts(pc@).subrange(0, bc@.len() as int) != texts(bc@));
            return false;
        }
        k = k + 1;
    }
    assert(texts(pc@).subrange(0, bc.len() as int) =~= texts(bc@));
    let mut m: usize = bc.len();
    while m < pc.len()
        invariant
            bc.len() <= m <= pc.len(),
            texts(pc@) == resolved_components(path@),
            texts(bc@) == resolved_components(base@),
            forall|j: int| bc.len() <= j < m ==> texts(pc@)[j] != seq!['.', '.'],
        decreases pc.len() - m,
    {
        proof {
            reveal_strlit("..");
            assert(".."@ =~= seq!['.', '.']);
        }
        assert(texts(pc@)[m as int] == pc@[m as int]@);
        if text_is(&pc[m], "..") {
            assert(pc@[m as int]@ =~= seq!['.', '.']);
            return false;
        }
        m = m + 1;
    }
    true
}

/// Resolved components as text: a root as the leading `/`, the rest joined
/// by `/` (a relative path that resolves to nothing is empty).
pub open spec fn render(cs: Seq<Seq<char>>) -> Seq<char> {
    if cs.len() > 0 && cs[0] == seq!['/'] {
        seq!['/'] + join(cs.drop_first(), seq!['/'])
    } else {
        join(cs, seq!['/'])
    }
}

/// A path in lexical canonical form: `.` dropped, `..` resolved, empty
/// pieces and trailing slashes gone.
pub open spec fn canonical_path(s: Seq<char>) -> Seq<char> {
    render(resolved_components(s))
}

pub fn canonical_path_of(path: &str) -> (r: String)
    ensures
        r@ == canonical_path(path@),
{
    proof {
        reveal_strlit("/");
        assert("/"@ =~= seq!['/']);
    }
    let comps = resolve_components(&components_of(path));
    let ghost cv = texts(comps@);
    let mut out = String::new();
    if comps.len() > 0 && text_is(&comps[0], "/") {
        let mut rest: Vec<String> = Vec::new();
        let mut i: usize = 1;
        while i < comps.len()
            invariant
                1 <= i <= comps.len(),
                cv == texts(comps@),
                texts(rest@) == cv.subrange(1, i as int),
            decreases comps.len() - i,
        {
            let ghost before = texts(rest@);
            let c = comps[i].clone();
            assert(c@ == comps@[i as int]@);
            rest.push(c);
            assert(texts(rest@) =~= before.push(cv[i as int]));
            assert(cv.subrange(1, i + 1) =~= cv.subrange(1, i as int).push(cv[i as int]));
            i = i + 1;
        }
        assert(cv.subrange(1, cv.len() as int) =~= cv.drop_first());
        out.push('/');
        assert(rest@.map_values(|p: String| p@) =~= texts(rest@));
        push_join(&mut out, &rest, "/");
        assert(cv[0] == comps@[0]@);
        assert(out@ =~= render(cv));
    } else {
        assert(comps@.map_values(|p: String| p@) =~= cv);
        push_join(&mut out, &comps, "/");
        if comps.len() > 0 {
            assert(cv[0] == comps@[0]@);
        }
        assert(out@ =~= render(cv));
    }
    out
}

} // verus!
