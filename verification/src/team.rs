use vstd::prelude::*;
use vstd::multiset::Multiset;
use crate::structs::{FighterInfo, GearInfo, same_slot};

verus! {

/// `s` with the first slot equal to `x` set to `y`; `s` itself when no slot
/// equals `x`.
pub open spec fn replace_first(
    s: Seq<Option<FighterInfo>>,
    x: Option<FighterInfo>,
    y: Option<FighterInfo>,
) -> Seq<Option<FighterInfo>> {
    match s.index_of_first(x) {
        Some(i) => s.update(i, y),
        None => s,
    }
}

/// Puts `y` in place of `x` in a player's team: in the first matching slot of
/// the active fighters when they hold `x`, else in the first matching slot of
/// the bench.
pub open spec fn replace_in_team(
    fighters: Seq<Option<FighterInfo>>,
    bench: Seq<Option<FighterInfo>>,
    x: Option<FighterInfo>,
    y: Option<FighterInfo>,
) -> (Seq<Option<FighterInfo>>, Seq<Option<FighterInfo>>) {
    if fighters.contains(x) {
        (replace_first(fighters, x, y), bench)
    } else {
        (fighters, replace_first(bench, x, y))
    }
}

/// Whether the team (active fighters or bench) holds `x`.
pub open spec fn team_holds(
    fighters: Seq<Option<FighterInfo>>,
    bench: Seq<Option<FighterInfo>>,
    x: Option<FighterInfo>,
) -> bool {
    fighters.contains(x) || bench.contains(x)
}

/// `s` with slot `i` removed by moving the last slot into it.
pub open spec fn swap_removed<T>(s: Seq<T>, i: int) -> Seq<T> {
    s.update(i, s.last()).drop_last()
}

/// The gear slots after `g` is taken out: its first slot is removed by moving
/// the last slot into it, and an empty slot is appended at the end.
pub open spec fn take_gear(s: Seq<Option<GearInfo>>, g: GearInfo) -> Seq<Option<GearInfo>> {
    match s.index_of_first(Some(g)) {
        Some(i) => swap_removed(s, i).push(None),
        None => s,
    }
}

/// A copy of the slots of `v`.
pub fn copy_slots(v: &Vec<Option<FighterInfo>>) -> (r: Vec<Option<FighterInfo>>)
    ensures
        r@ == v@,
{
    let mut r: Vec<Option<FighterInfo>> = Vec::new();
    let mut i: usize = 0;
    while i < v.len()
        invariant
            i <= v.len(),
            r@ == v@.take(i as int),
        decreases v.len() - i,
    {
        r.push(v[i]);
        proof {
            assert(r@ =~= v@.take(i + 1));
        }
        i = i + 1;
    }
    proof {
        assert(v@.take(v.len() as int) =~= v@);
    }
    r
}

/// Whether the team (active fighters or bench) holds `x`.
pub fn team_holds_exec(fighters: &Vec<Option<FighterInfo>>, bench: &Vec<Option<FighterInfo>>, x: &Option<FighterInfo>) -> (r: bool)
    ensures
        r == team_holds(fighters@, bench@, *x),
{
    position_of(fighters, x).is_some() || position_of(bench, x).is_some()
}

/// The index of the first slot of `v` equal to `x`, if any.
pub fn position_of(v: &Vec<Option<FighterInfo>>, x: &Option<FighterInfo>) -> (r: Option<usize>)
    ensures
        match r {
            Some(i) => v@.index_of_first(*x) == Some(i as int),
            None => v@.index_of_first(*x) is None,
        },
        r is Some <==> v@.contains(*x),
        r matches Some(i) ==> i < v@.len() && v@[i as int] == *x,
{
    proof {
        v@.index_of_first_ensures(*x);
    }
    let mut i: usize = 0;
    while i < v.len()
        invariant
            i <= v.len(),
            forall|j: int| 0 <= j < i ==> v@[j] != *x,
        decreases v.len() - i,
    {
        if same_slot(&v[i], x) {
            proof {
                v@.index_of_first_ensures(*x);
            }
            return Some(i);
        }
        i = i + 1;
    }
    None
}

/// Sets the first slot of `v` equal to `x` to `y`; returns whether there was one.
pub fn replace_first_in(v: &mut Vec<Option<FighterInfo>>, x: &Option<FighterInfo>, y: Option<FighterInfo>) -> (found: bool)
    ensures
        final(v)@ == replace_first(old(v)@, *x, y),
        found == old(v)@.contains(*x),
        !found ==> final(v)@ == old(v)@,
{
    match position_of(v, x) {
        Some(i) => {
            v.set(i, y);
            true
        },
        None => false,
    }
}

/// Puts `y` in place of `x` in the active fighters, or else in the bench.
pub fn replace_in_team_exec(
    fighters: &mut Vec<Option<FighterInfo>>,
    bench: &mut Vec<Option<FighterInfo>>,
    x: &Option<FighterInfo>,
    y: Option<FighterInfo>,
)
    ensures
        (final(fighters)@, final(bench)@) == replace_in_team(old(fighters)@, old(bench)@, *x, y),
{
    let found: bool = replace_first_in(fighters, x, y);
    if !found {
        replace_first_in(bench, x, y);
    }
}

/// The index of the first slot of `v` holding `g`, if any.
pub fn gear_position(v: &Vec<Option<GearInfo>>, g: &GearInfo) -> (r: Option<usize>)
    ensures
        match r {
            Some(i) => v@.index_of_first(Some(*g)) == Some(i as int),
            None => v@.index_of_first(Some(*g)) is None,
        },
        r matches Some(i) ==> i < v@.len() && v@[i as int] == Some(*g),
{
    proof {
        v@.index_of_first_ensures(Some(*g));
    }
    let mut i: usize = 0;
    while i < v.len()
        invariant
            i <= v.len(),
            forall|j: int| 0 <= j < i ==> v@[j] != Some(*g),
        decreases v.len() - i,
    {
        let found: bool = match &v[i] {
            Some(h) => *h == *g,
            None => false,
        };
        if found {
            proof {
                v@.index_of_first_ensures(Some(*g));
            }
            return Some(i);
        }
        i = i + 1;
    }
    None
}


/// Removing a slot by moving the last slot into it removes exactly that
/// slot's value from the multiset of slots.
pub proof fn lemma_swap_removed_multiset<T>(s: Seq<T>, i: int)
    requires
        0 <= i < s.len(),
    ensures
        swap_removed(s, i).to_multiset() == s.to_multiset().remove(s[i]),
{
    broadcast use vstd::seq_lib::group_to_multiset_ensures, vstd::multiset::group_multiset_properties, vstd::multiset::group_multiset_axioms;

    let t = s.update(i, s.last());
    assert(t.last() == s.last());
    assert(t =~= t.drop_last().push(t.last()));
    assert(t.to_multiset() == s.to_multiset().insert(s.last()).remove(s[i]));
    assert(t.to_multiset() == t.drop_last().to_multiset().insert(s.last()));
    assert(s.contains(s[i]));
    assert(s.to_multiset().count(s[i]) > 0);
    let d = t.drop_last();
    assert forall|v: T| #[trigger] d.to_multiset().count(v) == s.to_multiset().remove(s[i]).count(v) by {
        assert(t.to_multiset().count(v) == d.to_multiset().insert(s.last()).count(v));
    }
    assert(swap_removed(s, i).to_multiset() =~= s.to_multiset().remove(s[i]));
}

/// Dropping the first element of a non-empty sequence removes it from the
/// multiset.
pub proof fn lemma_drop_first_multiset<T>(s: Seq<T>)
    requires
        s.len() > 0,
    ensures
        s.drop_first().to_multiset() == s.to_multiset().remove(s[0]),
{
    broadcast use vstd::seq_lib::group_to_multiset_ensures;

    assert(s.remove(0) =~= s.drop_first());
}

/// An element of a concatenation is an element of one of its parts.
pub proof fn lemma_concat_contains<T>(a: Seq<T>, b: Seq<T>, x: T)
    requires
        (a + b).contains(x),
    ensures
        a.contains(x) || b.contains(x),
{
    let k = choose|k: int| 0 <= k < (a + b).len() && (a + b)[k] == x;
    if k < a.len() {
        assert(a[k] == x);
    } else {
        assert(b[k - a.len()] == x);
    }
}


/// Taking one copy of `x` out of either part of a multiset sum takes it out
/// of the sum.
pub proof fn lemma_remove_from_sum<T>(a: Multiset<T>, b: Multiset<T>, x: T)
    ensures
        a.count(x) > 0 ==> a.remove(x).add(b) == a.add(b).remove(x),
        b.count(x) > 0 ==> a.add(b.remove(x)) == a.add(b).remove(x),
{
    broadcast use vstd::multiset::group_multiset_axioms;

    if a.count(x) > 0 {
        assert(a.remove(x).add(b) =~= a.add(b).remove(x));
    }
    if b.count(x) > 0 {
        assert(a.add(b.remove(x)) =~= a.add(b).remove(x));
    }
}

} // verus!
