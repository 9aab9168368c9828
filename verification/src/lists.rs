//! Positions in lists: wrapping round the ends, and lists without an item.

use vstd::arithmetic::div_mod::{lemma_fundamental_div_mod, lemma_fundamental_div_mod_converse};
use vstd::prelude::*;

verus! {

/// The position `offset` steps from `current` in a ring of `count` positions.
pub fn wrapped_index(current: usize, offset: isize, count: usize) -> (r: usize)
    requires
        count > 0,
    ensures
        r as int == (current + offset) % (count as int),
        r < count,
{
    let from: usize = current % count;
    let ghost n = count as int;
    let ghost turns = (current as int) / n;
    proof {
        lemma_fundamental_div_mod(current as int, n);
    }
    if offset >= 0 {
        let steps: usize = (offset as usize) % count;
        let ghost more = (offset as int) / n;
        proof {
            lemma_fundamental_div_mod(offset as int, n);
        }
        if steps < count - from {
            proof {
                assert((turns + more) * n + (from + steps) == current + offset) by (nonlinear_arith)
                    requires
                        current == n * turns + from,
                        offset == n * more + steps,
                ;
                lemma_fundamental_div_mod_converse(
                    current + offset,
                    n,
                    turns + more,
                    from + steps,
                );
            }
            from + steps
        } else {
            let r: usize = steps - (count - from);
            proof {
                assert((turns + more + 1) * n + r == current + offset) by (nonlinear_arith)
                    requires
                        current == n * turns + from,
                        offset == n * more + steps,
                        r == steps - (n - from),
                ;
                lemma_fundamental_div_mod_converse(
                    current + offset,
                    n,
                    turns + more + 1,
                    r as int,
                );
            }
            r
        }
    } else {
        let back: usize = (-(offset + 1)) as usize + 1;
        let steps: usize = back % count;
        let ghost more = (back as int) / n;
        proof {
            lemma_fundamental_div_mod(back as int, n);
        }
        if steps <= from {
            let r: usize = from - steps;
            proof {
                assert((turns - more) * n + r == current + offset) by (nonlinear_arith)
                    requires
                        current == n * turns + from,
                        -offset == n * more + steps,
                        r == from - steps,
                ;
                lemma_fundamental_div_mod_converse(current + offset, n, turns - more, r as int);
            }
            r
        } else {
            let r: usize = count - (steps - from);
            proof {
                assert((turns - more - 1) * n + r == current + offset) by (nonlinear_arith)
                    requires
                        current == n * turns + from,
                        -offset == n * more + steps,
                        r == n - (steps - from),
                ;
                lemma_fundamental_div_mod_converse(
                    current + offset,
                    n,
                    turns - more - 1,
                    r as int,
                );
            }
            r
        }
    }
}

/// A step and the step back end where they began.
pub proof fn law_wrapping_is_undone(current: int, offset: int, count: int)
    requires
        0 <= current < count,
    ensures
        ((current + offset) % count - offset) % count == current,
{
    let there = (current + offset) % count;
    let turns = (current + offset) / count;
    lemma_fundamental_div_mod(current + offset, count);
    assert((-turns) * count + current == there - offset) by (nonlinear_arith)
        requires
            current + offset == count * turns + there,
    ;
    lemma_fundamental_div_mod_converse(there - offset, count, -turns, current);
}

/// The position `offset` steps from `current`, held between the first and the last of `count`.
pub open spec fn clamped(current: int, offset: int, count: int) -> int {
    if current + offset < 0 {
        0
    } else if current + offset > count - 1 {
        count - 1
    } else {
        current + offset
    }
}

/// The position `offset` steps from `current`, held between the first and the last of `count`.
pub fn clamped_index(current: usize, offset: isize, count: usize) -> (r: usize)
    requires
        current < count,
    ensures
        r as int == clamped(current as int, offset as int, count as int),
{
    if offset >= 0 {
        let steps: usize = offset as usize;
        if steps > count - 1 - current {
            count - 1
        } else {
            current + steps
        }
    } else {
        let steps: usize = (-(offset + 1)) as usize + 1;
        if steps > current {
            0
        } else {
            current - steps
        }
    }
}

/// Filtering one item more.
pub proof fn lemma_filter_take<A>(s: Seq<A>, keep: spec_fn(A) -> bool, i: int)
    requires
        0 <= i < s.len(),
    ensures
        s.take(i + 1).filter(keep) == if keep(s[i]) {
            s.take(i).filter(keep).push(s[i])
        } else {
            s.take(i).filter(keep)
        },
{
    reveal(Seq::filter);
    assert(s.take(i + 1).drop_last() =~= s.take(i));
    assert(s.take(i + 1).last() == s[i]);
}

/// What a filtered list holds.
pub proof fn lemma_filter_holds<A>(s: Seq<A>, keep: spec_fn(A) -> bool)
    ensures
        forall|x: A| #[trigger] s.filter(keep).contains(x) <==> s.contains(x) && keep(x),
        s.no_duplicates() ==> s.filter(keep).no_duplicates(),
    decreases s.len(),
{
    reveal(Seq::filter);
    if s.len() > 0 {
        let front = s.drop_last();
        lemma_filter_holds(front, keep);
        assert forall|x: A| s.contains(x) <==> front.contains(x) || x == s.last() by {
            if s.contains(x) {
                let k = choose|k: int| 0 <= k < s.len() && s[k] == x;
                if k < s.len() - 1 {
                    assert(front[k] == x);
                }
            }
            if front.contains(x) {
                let k = choose|k: int| 0 <= k < front.len() && front[k] == x;
                assert(s[k] == x);
            }
            assert(s[s.len() - 1] == s.last());
        }
        let kept = front.filter(keep);
        assert forall|x: A| #[trigger] s.filter(keep).contains(x) <==> s.contains(x) && keep(x) by {
            if keep(s.last()) {
                assert(s.filter(keep) =~= kept.push(s.last()));
                if s.filter(keep).contains(x) {
                    let k = choose|k: int|
                        0 <= k < s.filter(keep).len() && s.filter(keep)[k] == x;
                    if k < kept.len() {
                        assert(kept[k] == x);
                    }
                }
                if kept.contains(x) {
                    let k = choose|k: int| 0 <= k < kept.len() && kept[k] == x;
                    assert(s.filter(keep)[k] == x);
                }
                assert(s.filter(keep)[kept.len() as int] == s.last());
            }
        }
        if s.no_duplicates() {
            assert(front.no_duplicates()) by {
                assert forall|i: int, j: int| 0 <= i < front.len() && 0 <= j < front.len() && i
                    != j implies front[i] != front[j] by {
                    assert(s[i] != s[j]);
                }
            }
            if keep(s.last()) {
                assert(!front.contains(s.last())) by {
                    if front.contains(s.last()) {
                        let k = choose|k: int| 0 <= k < front.len() && front[k] == s.last();
                        assert(s[k] != s[s.len() - 1]);
                    }
                }
                assert(!kept.contains(s.last()));
                assert(s.filter(keep).no_duplicates()) by {
                    assert forall|i: int, j: int|
                        0 <= i < s.filter(keep).len() && 0 <= j < s.filter(keep).len() && i
                            != j implies s.filter(keep)[i] != s.filter(keep)[j] by {
                        if i < kept.len() && j < kept.len() {
                            assert(kept[i] != kept[j]);
                        } else if i < kept.len() {
                            assert(kept.contains(kept[i]));
                        } else {
                            assert(kept.contains(kept[j]));
                        }
                    }
                }
            }
        }
    }
}

}
