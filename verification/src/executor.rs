//! Joining the results of fanned-out work. The runner may execute workers
//! serially or in parallel; whichever way, the per-item outcomes are folded
//! here in stable input order, the first failure wins, and the fold provably
//! does not depend on the order tasks completed in.

use vstd::prelude::*;
use crate::error::BuildError;
use crate::model::Icon;

verus! {

/// Whether a batch runs one task per item or strictly one after another.
#[derive(Debug, Clone, Copy, PartialEq, Eq, Structural)]
pub enum ExecutionMode {
    /// One task per item, joined after all complete.
    Parallel,
    /// One item after another, for deterministic or low-resource runs.
    Serial,
}

/// Whether every outcome succeeded.
pub open spec fn all_ok<R>(outs: Seq<Result<(R, Vec<Icon>), BuildError>>) -> bool {
    forall|i: int| 0 <= i < outs.len() ==> (#[trigger] outs[i]) is Ok
}

/// The payloads of successful outcomes, in input order.
pub open spec fn results_of<R>(outs: Seq<Result<(R, Vec<Icon>), BuildError>>) -> Seq<R> {
    outs.map_values(|o: Result<(R, Vec<Icon>), BuildError>| o->Ok_0.0)
}

/// The icons of successful outcomes, concatenated in input order.
pub open spec fn icons_of<R>(outs: Seq<Result<(R, Vec<Icon>), BuildError>>) -> Seq<Icon>
    decreases outs.len(),
{
    if outs.len() == 0 {
        seq![]
    } else {
        icons_of(outs.drop_last()) + outs.last()->Ok_0.1@
    }
}

/// Moves every icon of `src` to the end of `dst`, in order.
fn append_icons(dst: &mut Vec<Icon>, src: Vec<Icon>)
    ensures
        final(dst)@ == old(dst)@ + src@,
{
    let ghost src0 = src@;
    let mut rem = src;
    proof {
        assert(old(dst)@ + src0.take(0) =~= old(dst)@);
    }
    let ghost mut taken: int = 0;
    while rem.len() > 0
        invariant
            0 <= taken,
            taken + rem@.len() == src0.len(),
            rem@ == src0.skip(taken),
            dst@ == old(dst)@ + src0.take(taken),
        decreases rem@.len(),
    {
        let ghost pre_rem = rem@;
        let x = rem.remove(0);
        dst.push(x);
        proof {
            assert(pre_rem[0] == src0[taken]);
            assert(pre_rem.drop_first() =~= src0.skip(taken + 1));
            assert(rem@ =~= pre_rem.drop_first());
            assert(src0.take(taken + 1).drop_last() =~= src0.take(taken));
            assert(src0.take(taken + 1).last() == src0[taken]);
            taken = taken + 1;
            assert(rem@ =~= src0.skip(taken));
            assert(dst@ =~= old(dst)@ + src0.take(taken));
        }
    }
    proof {
        assert(src0.take(src0.len() as int) =~= src0);
    }
}

/// Folds the per-item outcomes of one batch, in stable input order: the
/// first failure aborts the batch, otherwise all payloads and all icons are
/// merged in order.
pub fn collect_outcomes<R>(outcomes: Vec<Result<(R, Vec<Icon>), BuildError>>) -> (r: Result<
    (Vec<R>, Vec<Icon>),
    BuildError,
>)
    ensures
        match r {
            Ok(p) => {
                &&& all_ok(outcomes@)
                &&& p.0@ == results_of(outcomes@)
                &&& p.1@ == icons_of(outcomes@)
            },
            Err(e) => exists|i: int|
                {
                    &&& 0 <= i < outcomes@.len()
                    &&& (#[trigger] outcomes@[i]) is Err
                    &&& e == outcomes@[i]->Err_0
                    &&& all_ok(outcomes@.take(i))
                },
        },
{
    let ghost outs0 = outcomes@;
    let mut rem = outcomes;
    let mut results: Vec<R> = Vec::new();
    let mut icons: Vec<Icon> = Vec::new();
    let ghost mut i: int = 0;
    proof {
        assert(results@ =~= results_of(outs0.take(0)));
        assert(icons@ =~= icons_of(outs0.take(0)));
    }
    while rem.len() > 0
        invariant
            outs0 == outcomes@,
            0 <= i,
            i + rem@.len() == outs0.len(),
            rem@ == outs0.skip(i),
            all_ok(outs0.take(i)),
            results@ == results_of(outs0.take(i)),
            icons@ == icons_of(outs0.take(i)),
        decreases rem@.len(),
    {
        let o = rem.remove(0);
        proof {
            assert(o == outs0[i]);
        }
        match o {
            Ok(pair) => {
                let (x, ic) = pair;
                results.push(x);
                append_icons(&mut icons, ic);
                proof {
                    i = i + 1;
                    assert(outs0.take(i).drop_last() =~= outs0.take(i - 1));
                    assert(outs0.take(i).last() == outs0[i - 1]);
                    assert(rem@ =~= outs0.skip(i));
                    assert(results@ =~= results_of(outs0.take(i)));
                    assert(icons@ =~= icons_of(outs0.take(i)));
                    assert(all_ok(outs0.take(i)));
                }
            },
            Err(e) => {
                proof {
                    assert(outs0[i] is Err);
                    assert(0 <= i < outcomes@.len() && outcomes@[i] is Err && e == outcomes@[
                        i
                    ]->Err_0 && all_ok(outcomes@.take(i)));
                }
                return Err(e);
            },
        }
    }
    proof {
        assert(outs0.take(outs0.len() as int) =~= outs0);
    }
    Ok((results, icons))
}

/// Whether `v` is an input-ordered reading of the tagged outcomes `items`:
/// position `k` holds a payload that some task tagged `k` returned.
pub open spec fn places<R>(items: Seq<(usize, R)>, v: Seq<R>) -> bool {
    forall|k: int| 0 <= k < v.len() ==> items.contains((k as usize, #[trigger] v[k]))
}

/// Whether no two tagged outcomes carry the same tag.
pub open spec fn distinct_tags<R>(items: Seq<(usize, R)>) -> bool {
    forall|a: int, b: int|
        0 <= a < b < items.len() ==> (#[trigger] items[a]).0 != (#[trigger] items[b]).0
}

/// Law: the folded batch output does not depend on task completion order.
/// Any two input-ordered readings of the same tagged outcomes are equal, so
/// serial and parallel runs over identical inputs yield identical content.
pub proof fn lemma_completion_order_irrelevant<R>(items: Seq<(usize, R)>, v1: Seq<R>, v2: Seq<R>)
    requires
        distinct_tags(items),
        places(items, v1),
        places(items, v2),
        v1.len() == v2.len(),
    ensures
        v1 == v2,
{
    assert forall|k: int| 0 <= k < v1.len() implies v1[k] == v2[k] by {
        let first_pair = (k as usize, v1[k]);
        let second_pair = (k as usize, v2[k]);
        let a = choose|a: int| 0 <= a < items.len() && items[a] == first_pair;
        let b = choose|b: int| 0 <= b < items.len() && items[b] == second_pair;
        assert(items[a].0 == items[b].0);
        if a != b {
            assert(items[a].0 != items[b].0);
        }
    }
    assert(v1 =~= v2);
}

/// Places tagged per-item outcomes into stable input order, whatever order
/// the tasks completed in: position `k` of the result holds the payload
/// tagged `k`. Nothing is returned when the tags are not exactly the batch
/// positions.
pub fn order_results<R>(items: Vec<(usize, R)>, n: usize) -> (r: Option<Vec<R>>)
    ensures
        match r {
            Some(v) => v@.len() == n && places(items@, v@),
            None => !(items@.len() == n && distinct_tags(items@) && forall|j: int|
                0 <= j < items@.len() ==> (#[trigger] items@[j]).0 < n),
        },
{
    let ghost items0 = items@;
    let mut slots: Vec<Option<R>> = Vec::new();
    let mut j: usize = 0;
    while j < n
        invariant
            j <= n,
            slots@.len() == j,
            forall|t: int| 0 <= t < j ==> (#[trigger] slots@[t]) is None,
        decreases n - j,
    {
        slots.push(None);
        j += 1;
    }
    if items.len() != n {
        return None;
    }
    let mut rem = items;
    let mut i: usize = 0;
    while rem.len() > 0
        invariant
            items0 == items@,
            i + rem@.len() == items0.len(),
            items0.len() == n,
            rem@ == items0.skip(i as int),
            slots@.len() == n,
            distinct_tags(items0.take(i as int)),
            forall|u: int| 0 <= u < i ==> (#[trigger] items0[u]).0 < n,
            forall|t: int|
                0 <= t < n && (#[trigger] slots@[t]) is Some ==> items0.contains(
                    (t as usize, slots@[t]->0),
                ),
            forall|u: int|
                0 <= u < i ==> slots@[(#[trigger] items0[u]).0 as int] is Some,
            forall|t: int|
                0 <= t < n && (#[trigger] slots@[t]) is Some ==> exists|u: int|
                    0 <= u < i && (#[trigger] items0[u]).0 == t as usize,
        decreases rem@.len(),
    {
        let item = rem.remove(0);
        proof {
            assert(item == items0[i as int]);
        }
        let (tag, payload) = item;
        if tag >= n {
            proof {
                assert(items0[i as int].0 >= n);
                assert(!(forall|j: int|
                    0 <= j < items@.len() ==> (#[trigger] items@[j]).0 < n));
            }
            return None;
        }
        if slots[tag].is_some() {
            proof {
                let u = choose|u: int|
                    0 <= u < i && (#[trigger] items0[u]).0 == tag;
                assert(items0[u].0 == items0[i as int].0);
                assert(!distinct_tags(items0));
            }
            return None;
        }
        let ghost pre_slots = slots@;
        slots[tag] = Some(payload);
        i += 1;
        proof {
            assert(rem@ =~= items0.skip(i as int));
            assert(slots@ =~= pre_slots.update(tag as int, slots@[tag as int]));
            assert(items0.contains((tag, slots@[tag as int]->0)));
            assert forall|a: int, b: int|
                0 <= a < b < i implies (#[trigger] items0[a]).0 != (#[trigger] items0[b]).0 by {
                if b == i - 1 {
                    assert(pre_slots[items0[a].0 as int] is Some);
                    assert(items0[b].0 == tag);
                    assert(pre_slots[items0[b].0 as int] is None);
                } else {
                    assert(items0.take(i as int - 1)[a] == items0[a]);
                    assert(items0.take(i as int - 1)[b] == items0[b]);
                }
            }
            assert(distinct_tags(items0.take(i as int))) by {
                assert(forall|a: int, b: int|
                    0 <= a < b < i ==> (#[trigger] items0.take(i as int)[a]).0 != (
                    #[trigger] items0.take(i as int)[b]).0);
            }
        }
    }
    proof {
        assert(items0.take(items0.len() as int) =~= items0);
        assert forall|t: int| 0 <= t < n implies (#[trigger] slots@[t]) is Some by {
            if slots@[t] is None {
                lemma_missed_slot(items0, slots@, n as int, t);
                assert(distinct_tags(items0));
            }
        }
    }
    let ghost slots0 = slots@;
    let mut out: Vec<R> = Vec::new();
    let mut k: usize = 0;
    let mut rem_slots = slots;
    while rem_slots.len() > 0
        invariant
            k + rem_slots@.len() == n,
            slots0.len() == n,
            rem_slots@ == slots0.skip(k as int),
            forall|t: int| 0 <= t < n ==> (#[trigger] slots0[t]) is Some,
            forall|t: int|
                0 <= t < n && (#[trigger] slots0[t]) is Some ==> items0.contains(
                    (t as usize, slots0[t]->0),
                ),
            out@.len() == k,
            forall|t: int| 0 <= t < k ==> (#[trigger] out@[t]) == slots0[t]->0,
        decreases rem_slots@.len(),
    {
        let s = rem_slots.remove(0);
        proof {
            assert(s == slots0[k as int]);
        }
        match s {
            Some(x) => {
                out.push(x);
                k += 1;
                proof {
                    assert(rem_slots@ =~= slots0.skip(k as int));
                }
            },
            None => {
                proof {
                    assert(false);
                }
            },
        }
    }
    proof {
        assert forall|t: int| 0 <= t < n implies items0.contains(
            (t as usize, #[trigger] out@[t]),
        ) by {
            assert(out@[t] == slots0[t]->0);
        }
    }
    Some(out)
}

/// With `n` distinct in-range tags and a slot hit for every item, no slot
/// can be left empty: the tag values would then number fewer than `n`.
proof fn lemma_missed_slot<R>(items: Seq<(usize, R)>, slots: Seq<Option<R>>, n: int, hole: int)
    requires
        items.len() == n,
        slots.len() == n,
        0 <= hole < n,
        slots[hole] is None,
        forall|u: int| 0 <= u < items.len() ==> (#[trigger] items[u]).0 < n,
        forall|u: int|
            0 <= u < items.len() ==> slots[(#[trigger] items[u]).0 as int] is Some,
    ensures
        !distinct_tags(items),
{
    let tags = Seq::new(items.len(), |u: int| items[u].0 as int);
    let good = Set::<int>::new(|t: int| 0 <= t < n && t != hole);
    let full = Set::<int>::new(|t: int| 0 <= t < n);
    vstd::set_lib::lemma_int_range(0, n);
    assert(full =~= Set::<int>::new(|t: int| 0 <= t < n));
    assert(vstd::set_lib::set_int_range(0, n) =~= full);
    assert(good =~= full.remove(hole));
    assert(full.contains(hole));
    assert(good.len() == n - 1);
    assert forall|u: int| 0 <= u < tags.len() implies good.contains(#[trigger] tags[u]) by {
        assert(items[u].0 < n);
        assert(slots[items[u].0 as int] is Some);
    }
    vstd::seq_lib::seq_to_set_is_finite(tags);
    assert forall|x: int| tags.to_set().contains(x) implies good.contains(x) by {
        let u = choose|u: int| 0 <= u < tags.len() && tags[u] == x;
    }
    vstd::set_lib::lemma_len_subset(tags.to_set(), good);
    if distinct_tags(items) {
        assert forall|a: int, b: int|
            0 <= a < tags.len() && 0 <= b < tags.len() && a != b implies #[trigger] tags[a] != #[trigger] tags[b] by {
            if a < b {
                assert(items[a].0 != items[b].0);
            } else {
                assert(items[b].0 != items[a].0);
            }
        }
        assert(tags.no_duplicates());
        tags.unique_seq_to_set();
        assert(tags.to_set().len() == n);
    }
}

} // verus!
