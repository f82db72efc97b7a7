//! Path arithmetic: joining an inclusion argument onto a base directory,
//! reducing a path to its canonical spelling, and taking a parent directory.
//!
//! Paths here are plain character sequences with `/` as the separator.
//! Canonicalization is lexical: empty and `.` segments vanish and `..` pops
//! the segment before it, so two spellings of the same file compare equal and
//! cycle detection cannot be fooled by a detour through `..`.

use vstd::prelude::*;

verus! {

/// `rel` resolved against the directory `base`: a rooted `rel` (leading `/`)
/// stands alone, otherwise the two are joined with a separator.
pub open spec fn join_path(base: Seq<char>, rel: Seq<char>) -> Seq<char> {
    if rel.len() > 0 && rel[0] == '/' {
        rel
    } else if base.len() == 0 {
        rel
    } else {
        base + seq!['/'] + rel
    }
}

/// The segment `.`.
pub open spec fn seg_dot() -> Seq<char> {
    seq!['.']
}

/// The segment `..`.
pub open spec fn seg_dotdot() -> Seq<char> {
    seq!['.', '.']
}

/// Splitting on `/`, from position `i`, with the segment read so far and the
/// segments already complete.
pub open spec fn split_step(s: Seq<char>, i: int, cur: Seq<char>, acc: Seq<Seq<char>>) -> Seq<
    Seq<char>,
>
    decreases s.len() - i,
{
    if i >= s.len() {
        acc.push(cur)
    } else if s[i] == '/' {
        split_step(s, i + 1, Seq::empty(), acc.push(cur))
    } else {
        split_step(s, i + 1, cur.push(s[i]), acc)
    }
}

/// The `/`-separated segments of `s`.
pub open spec fn split_segments(s: Seq<char>) -> Seq<Seq<char>> {
    split_step(s, 0, Seq::empty(), Seq::empty())
}

/// One canonicalization step over the segments from `i` on, folding them onto
/// a stack: empty and `.` segments vanish, `..` pops a poppable segment and
/// otherwise stays (a relative path may climb above its start).
pub open spec fn norm_step(segs: Seq<Seq<char>>, i: int, stack: Seq<Seq<char>>) -> Seq<Seq<char>>
    decreases segs.len() - i,
{
    if i >= segs.len() {
        stack
    } else {
        let g = segs[i];
        if g.len() == 0 || g == seg_dot() {
            norm_step(segs, i + 1, stack)
        } else if g == seg_dotdot() {
            if stack.len() > 0 && stack.last() != seg_dotdot() {
                norm_step(segs, i + 1, stack.drop_last())
            } else {
                norm_step(segs, i + 1, stack.push(g))
            }
        } else {
            norm_step(segs, i + 1, stack.push(g))
        }
    }
}

/// Rendering segments back into a path, from `i` on, onto what is rendered
/// already.
pub open spec fn render_step(segs: Seq<Seq<char>>, i: int, acc: Seq<char>) -> Seq<char>
    decreases segs.len() - i,
{
    if i >= segs.len() {
        acc
    } else if i == 0 {
        render_step(segs, i + 1, acc + segs[i])
    } else {
        render_step(segs, i + 1, acc + seq!['/'] + segs[i])
    }
}

/// The canonical spelling of a path: split, normalize, render.
pub open spec fn canonical_path(p: Seq<char>) -> Seq<char> {
    render_step(norm_step(split_segments(p), 0, Seq::empty()), 0, Seq::empty())
}

/// The index of the last `/` strictly before position `i`, or -1.
pub open spec fn last_slash_before(p: Seq<char>, i: int) -> int
    decreases i,
{
    if i <= 0 {
        -1
    } else if p[i - 1] == '/' {
        i - 1
    } else {
        last_slash_before(p, i - 1)
    }
}

/// The directory part of a path: everything before the last `/`, or the empty
/// path when there is no separator.
pub open spec fn parent_dir(p: Seq<char>) -> Seq<char> {
    let j = last_slash_before(p, p.len() as int);
    if j < 0 {
        Seq::empty()
    } else {
        p.take(j)
    }
}

/// The views of a vector of character vectors.
pub open spec fn views_of(s: Seq<Vec<char>>) -> Seq<Seq<char>> {
    s.map_values(|v: Vec<char>| v@)
}

/// Joins `rel` onto the directory `base`.
pub fn join_chars(base: &Vec<char>, rel: &Vec<char>) -> (r: Vec<char>)
    ensures
        r@ == join_path(base@, rel@),
{
    if rel.len() > 0 && rel[0] == '/' {
        let r = crate::chars::copy_range(rel, 0, rel.len());
        proof {
            assert(r@ =~= rel@);
        }
        r
    } else if base.len() == 0 {
        let r = crate::chars::copy_range(rel, 0, rel.len());
        proof {
            assert(r@ =~= rel@);
        }
        r
    } else {
        let mut r = crate::chars::copy_range(base, 0, base.len());
        r.push('/');
        crate::chars::push_all(&mut r, rel);
        proof {
            assert(r@ =~= base@ + seq!['/'] + rel@);
        }
        r
    }
}

/// Reduces `p` to its canonical spelling.
pub fn canonicalize_chars(p: &Vec<char>) -> (r: Vec<char>)
    ensures
        r@ == canonical_path(p@),
{
    let n = p.len();
    // Split on '/'.
    let mut segs: Vec<Vec<char>> = Vec::new();
    let mut cur: Vec<char> = Vec::new();
    let mut i: usize = 0;
    proof {
        assert(views_of(segs@) =~= Seq::<Seq<char>>::empty());
    }
    while i < n
        invariant
            0 <= i <= n,
            n == p@.len(),
            split_step(p@, i as int, cur@, views_of(segs@)) == split_segments(p@),
        decreases n - i,
    {
        let c = p[i];
        if c == '/' {
            let ghost pre = segs@;
            segs.push(cur);
            cur = Vec::new();
            proof {
                assert(views_of(segs@) =~= views_of(pre).push(segs@.last()@));
            }
        } else {
            cur.push(c);
        }
        i = i + 1;
    }
    let ghost pre = segs@;
    segs.push(cur);
    proof {
        assert(views_of(segs@) =~= views_of(pre).push(segs@.last()@));
        assert(views_of(segs@) == split_segments(p@));
    }
    // Normalize the segments onto a stack.
    let m = segs.len();
    let mut stack: Vec<Vec<char>> = Vec::new();
    let mut k: usize = 0;
    proof {
        assert(views_of(stack@) =~= Seq::<Seq<char>>::empty());
    }
    while k < m
        invariant
            0 <= k <= m,
            m == segs@.len(),
            views_of(segs@) == split_segments(p@),
            norm_step(views_of(segs@), k as int, views_of(stack@)) == norm_step(
                views_of(segs@),
                0,
                Seq::empty(),
            ),
        decreases m - k,
    {
        let g = &segs[k];
        proof {
            assert(views_of(segs@)[k as int] == g@);
        }
        let is_empty = g.len() == 0;
        let is_dot = g.len() == 1 && g[0] == '.';
        let is_dotdot = g.len() == 2 && g[0] == '.' && g[1] == '.';
        proof {
            if is_dot {
                assert(g@ =~= seg_dot());
            }
            if is_dotdot {
                assert(g@ =~= seg_dotdot());
            }
        }
        if is_empty || is_dot {
            // segment vanishes
        } else if is_dotdot {
            let popped = if stack.len() > 0 {
                let top = &stack[stack.len() - 1];
                proof {
                    assert(views_of(stack@).last() == top@);
                }
                !(top.len() == 2 && top[0] == '.' && top[1] == '.')
            } else {
                false
            };
            proof {
                if stack@.len() > 0 && !popped {
                    assert(views_of(stack@).last() =~= seg_dotdot());
                }
            }
            if popped {
                let ghost pre = stack@;
                let _ = stack.pop();
                proof {
                    assert(views_of(stack@) =~= views_of(pre).drop_last());
                }
            } else {
                let ghost pre = stack@;
                let gcopy = crate::chars::copy_range(g, 0, g.len());
                proof {
                    assert(gcopy@ =~= g@);
                }
                stack.push(gcopy);
                proof {
                    assert(views_of(stack@) =~= views_of(pre).push(g@));
                }
            }
        } else {
            let ghost pre = stack@;
            let gcopy = crate::chars::copy_range(g, 0, g.len());
            proof {
                assert(gcopy@ =~= g@);
            }
            stack.push(gcopy);
            proof {
                assert(views_of(stack@) =~= views_of(pre).push(g@));
            }
        }
        k = k + 1;
    }
    // Render the stack back into a path.
    let t = stack.len();
    let mut out: Vec<char> = Vec::new();
    let mut k2: usize = 0;
    while k2 < t
        invariant
            0 <= k2 <= t,
            t == stack@.len(),
            render_step(views_of(stack@), k2 as int, out@) == render_step(
                views_of(stack@),
                0,
                Seq::empty(),
            ),
            k2 == 0 ==> out@ == Seq::<char>::empty(),
        decreases t - k2,
    {
        let g = &stack[k2];
        let ghost out_pre = out@;
        proof {
            assert(views_of(stack@)[k2 as int] == g@);
        }
        if k2 > 0 {
            out.push('/');
        }
        crate::chars::push_all(&mut out, g);
        proof {
            if k2 == 0 {
                assert(out@ =~= out_pre + g@);
            } else {
                assert(out@ =~= out_pre + seq!['/'] + g@);
            }
        }
        k2 = k2 + 1;
    }
    proof {
        assert(render_step(views_of(stack@), t as int, out@) == out@);
        assert(norm_step(views_of(segs@), m as int, views_of(stack@)) == views_of(stack@));
    }
    out
}

/// The directory part of `p`.
pub fn parent_chars(p: &Vec<char>) -> (r: Vec<char>)
    ensures
        r@ == parent_dir(p@),
{
    let n = p.len();
    let mut j: usize = n;
    while j > 0
        invariant
            0 <= j <= n,
            n == p@.len(),
            last_slash_before(p@, n as int) == last_slash_before(p@, j as int),
            forall|m: int| j <= m < n ==> p@[m] != '/',
        decreases j,
    {
        if p[j - 1] == '/' {
            return crate::chars::copy_range(p, 0, j - 1);
        }
        j = j - 1;
    }
    Vec::new()
}

} // verus!
