//! Dense slot numbering of the tiles a program touches.
use vstd::prelude::*;

use std::collections::HashMap;

use crate::device_model::zero_cell;
use crate::device_plan::cell;

verus! {

broadcast use vstd::std_specs::hash::group_hash_axioms;

/// The tiles as cell names.
pub open spec fn names(touched: Seq<u32>) -> Seq<int> {
    Seq::new(touched.len(), |i: int| touched[i] as int)
}

/// The list with `c` appended, unless it is the zero row or already listed.
pub open spec fn note(list: Seq<int>, c: int) -> Seq<int> {
    if c == zero_cell() || list.contains(c) {
        list
    } else {
        list.push(c)
    }
}

/// The list after every cell of `cells` has been noted, first to last.
pub open spec fn note_all(list: Seq<int>, cells: Seq<int>) -> Seq<int>
    decreases cells.len(),
{
    if cells.len() == 0 {
        list
    } else {
        note(note_all(list, cells.drop_last()), cells.last())
    }
}

/// The elements of `v` whose flag is set, in order.
pub open spec fn select<T>(v: Seq<T>, keep: Seq<bool>) -> Seq<T>
    decreases v.len(),
{
    if v.len() == 0 {
        Seq::empty()
    } else {
        let earlier = select(v.drop_last(), keep);
        if keep[v.len() - 1] {
            earlier.push(v.last())
        } else {
            earlier
        }
    }
}

/// Nothing is listed twice.
pub open spec fn distinct(touched: Seq<u32>) -> bool {
    forall|i: int, j: int|
        0 <= i < touched.len() && 0 <= j < touched.len() && #[trigger] touched[i]
            == #[trigger] touched[j] ==> i == j
}

/// `slot_of` numbers the tiles as `touched` lists them.
pub open spec fn numbering(slot_of: Map<u32, u32>, touched: Seq<u32>) -> bool {
    &&& distinct(touched)
    &&& forall|t: u32| #[trigger]
        slot_of.contains_key(t) ==> slot_of[t] < touched.len() && touched[slot_of[t] as int] == t
    &&& forall|i: int| 0 <= i < touched.len() ==> slot_of.contains_key(#[trigger] touched[i])
}

/// The cell a slot stands for; slot `zero` stands for the zero row.
pub open spec fn slot_name(touched: Seq<u32>, zero: u32, s: u32) -> int {
    if s == zero {
        zero_cell()
    } else {
        touched[s as int] as int
    }
}

/// `later` lists what `earlier` lists, and possibly more after it.
pub open spec fn extends(earlier: Seq<u32>, later: Seq<u32>) -> bool {
    &&& earlier.len() <= later.len()
    &&& forall|i: int| 0 <= i < earlier.len() ==> #[trigger] later[i] == earlier[i]
}

/// Keep only the elements of `v` whose aligned flag is set.
pub fn filter_keep<T: Copy>(v: &Vec<T>, keep: &Vec<bool>) -> (r: Vec<T>)
    requires
        keep@.len() >= v@.len(),
    ensures
        r@ == select(v@, keep@),
{
    let mut r: Vec<T> = Vec::new();
    let n: usize = v.len();
    let mut i: usize = 0;
    assert(v@.take(0) =~= Seq::<T>::empty());
    while i < n
        invariant
            i <= n,
            n == v@.len(),
            keep@.len() >= n,
            r@ == select(v@.take(i as int), keep@),
        decreases n - i,
    {
        assert(v@.take(i + 1).drop_last() =~= v@.take(i as int));
        assert(v@.take(i + 1).last() == v@[i as int]);
        if keep[i] {
            r.push(v[i]);
        }
        i = i + 1;
    }
    assert(v@.take(n as int) =~= v@);
    r
}

/// The slot of a tile, numbering it next if it has none yet.
pub fn assign_slot(t: u32, slot_of: &mut HashMap<u32, u32>, touched: &mut Vec<u32>) -> (s: u32)
    requires
        numbering(old(slot_of)@, old(touched)@),
        old(touched)@.len() < u32::MAX,
    ensures
        numbering(final(slot_of)@, final(touched)@),
        extends(old(touched)@, final(touched)@),
        final(touched)@.len() <= old(touched)@.len() + 1,
        names(final(touched)@) == note(names(old(touched)@), t as int),
        s < final(touched)@.len(),
        final(touched)@[s as int] == t,
{
    let ghost before = touched@;
    let ghost map_before = slot_of@;
    if slot_of.contains_key(&t) {
        let s: u32 = *slot_of.get(&t).unwrap();
        assert(names(before)[s as int] == t as int);
        return s;
    }
    let s: u32 = touched.len() as u32;
    slot_of.insert(t, s);
    touched.push(t);
    proof {
        assert(!names(before).contains(t as int)) by {
            if names(before).contains(t as int) {
                let i = choose|i: int| 0 <= i < names(before).len() && names(before)[i] == t as int;
                assert(before[i] == t);
                assert(map_before.contains_key(before[i]));
            }
        }
        assert(names(touched@) =~= names(before).push(t as int));
        assert forall|i: int| 0 <= i < touched@.len() implies slot_of@.contains_key(
            #[trigger] touched@[i],
        ) by {
            if i < before.len() {
                assert(touched@[i] == before[i]);
                assert(map_before.contains_key(before[i]));
            }
        }
        assert forall|i: int, j: int|
            0 <= i < touched@.len() && 0 <= j < touched@.len() && #[trigger] touched@[i]
                == #[trigger] touched@[j] implies i == j by {
            if i < before.len() && j < before.len() {
                assert(before[i] == before[j]);
            } else if i < before.len() {
                assert(map_before.contains_key(before[i]));
            } else if j < before.len() {
                assert(map_before.contains_key(before[j]));
            }
        }
    }
    s
}

/// The slot of a tile, or `u32::MAX` for the zero row, whose slot is numbered last.
pub fn index_of(
    t: u32,
    zero_row: u32,
    slot_of: &mut HashMap<u32, u32>,
    touched: &mut Vec<u32>,
) -> (s: u32)
    requires
        numbering(old(slot_of)@, old(touched)@),
        old(touched)@.len() < u32::MAX,
    ensures
        numbering(final(slot_of)@, final(touched)@),
        extends(old(touched)@, final(touched)@),
        final(touched)@.len() <= old(touched)@.len() + 1,
        names(final(touched)@) == note(names(old(touched)@), cell(t, zero_row)),
        s == u32::MAX || s < final(touched)@.len(),
        slot_name(final(touched)@, u32::MAX, s) == cell(t, zero_row),
{
    if t == zero_row {
        u32::MAX
    } else {
        assign_slot(t, slot_of, touched)
    }
}

} // verus!
