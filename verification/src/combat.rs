use vstd::prelude::*;
use crate::decimal::{Decimal, in_range};
use crate::structs::{BattleEnd, FighterInfo};
use crate::team::copy_slots;

verus! {

/// Whether some slot of `s` holds a fighter.
pub open spec fn has_fighter(s: Seq<Option<FighterInfo>>) -> bool {
    exists|i: int| 0 <= i < s.len() && #[trigger] s[i] is Some
}

/// Whether `i` is the first slot of `s` that holds a fighter.
pub open spec fn is_first_fighter(s: Seq<Option<FighterInfo>>, i: int) -> bool {
    &&& 0 <= i < s.len()
    &&& s[i] is Some
    &&& forall|j: int| 0 <= j < i ==> #[trigger] s[j] is None
}

/// The index of the first slot of `s` that holds a fighter (meaningful when
/// there is one).
pub open spec fn first_fighter(s: Seq<Option<FighterInfo>>) -> int
    decreases s.len(),
{
    if s.len() == 0 {
        0
    } else if s[0] is Some {
        0
    } else {
        1 + first_fighter(s.drop_first())
    }
}

/// The number of slots of `s` that hold a fighter.
pub open spec fn count_fighters(s: Seq<Option<FighterInfo>>) -> nat
    decreases s.len(),
{
    if s.len() == 0 {
        0
    } else {
        (if s[0] is Some { 1nat } else { 0nat }) + count_fighters(s.drop_first())
    }
}

/// The positive part of an amount of attos.
pub open spec fn positive_part(v: int) -> nat {
    if v > 0 {
        v as nat
    } else {
        0
    }
}

/// Whether the attacking team's slot `d` holds a fighter.
pub open spec fn attacker_holds(att: Seq<Option<FighterInfo>>, d: int) -> bool {
    0 <= d < att.len() && att[d] is Some
}

/// How far a battle is from its next fallen attacker while no attacker
/// falls: when the defender's front fighter deals damage, the health of the
/// attacker's front fighter; else, when the attacker's front fighter deals
/// damage and the defender's fall would empty an attacking slot that holds a
/// fighter, the health of the defender's front fighter; else zero.
pub open spec fn round_measure(att: Seq<Option<FighterInfo>>, def: Seq<Option<FighterInfo>>) -> nat {
    let a = first_fighter(att);
    let d = first_fighter(def);
    let af = att[a]->0;
    let df = def[d]->0;
    if df.attack.attos > 0 {
        positive_part(af.health.attos as int)
    } else if attacker_holds(att, d) && af.attack.attos > 0 {
        positive_part(df.health.attos as int)
    } else {
        0
    }
}

/// `f` after taking `damage`.
pub open spec fn hit(f: FighterInfo, damage: Decimal) -> FighterInfo {
    FighterInfo { health: Decimal { attos: (f.health.attos - damage.attos) as i128 }, ..f }
}

/// Whether one round between the front fighters of the two teams can be
/// fought without aborting: no health leaves the representable range, and
/// when the defender's front fighter falls, its slot index is a slot of the
/// attacking team.
pub open spec fn round_safe(att: Seq<Option<FighterInfo>>, def: Seq<Option<FighterInfo>>) -> bool {
    let a = first_fighter(att);
    let d = first_fighter(def);
    let af = att[a]->0;
    let df = def[d]->0;
    let df_after = df.health.attos - af.attack.attos;
    &&& in_range(af.health.attos - df.attack.attos)
    &&& in_range(df_after)
    &&& df_after <= 0 ==> d < att.len()
}

/// Whether one round brings the battle nearer to its end: the defender's
/// front fighter deals damage, or the attacker's front fighter deals damage
/// and the defender's fall would empty an attacking slot that holds a
/// fighter, or an attacking fighter falls in this very round.
pub open spec fn round_progresses(att: Seq<Option<FighterInfo>>, def: Seq<Option<FighterInfo>>) -> bool {
    let a = first_fighter(att);
    let d = first_fighter(def);
    let af = att[a]->0;
    let df = def[d]->0;
    let af_after = af.health.attos - df.attack.attos;
    let df_after = df.health.attos - af.attack.attos;
    ||| df.attack.attos > 0
    ||| attacker_holds(att, d) && af.attack.attos > 0
    ||| af_after <= 0
    ||| df_after <= 0 && attacker_holds(att, d)
}

/// Whether one round can be fought and brings the battle nearer to its end.
/// A round that is safe but makes no progress removes no attacking fighter,
/// and neither does any later round (`law_stalled_battle_stays_stalled`):
/// such a battle goes on for ever.
pub open spec fn round_ok(att: Seq<Option<FighterInfo>>, def: Seq<Option<FighterInfo>>) -> bool {
    round_safe(att, def) && round_progresses(att, def)
}

/// One round of battle. The front fighters strike each other at once. A
/// fallen attacker leaves its slot empty; when the defender's front fighter
/// falls, the attacking team's slot at the defender's index is emptied (the
/// defending team keeps it).
pub open spec fn fight_round(att: Seq<Option<FighterInfo>>, def: Seq<Option<FighterInfo>>) -> (
    Seq<Option<FighterInfo>>,
    Seq<Option<FighterInfo>>,
) {
    let a = first_fighter(att);
    let d = first_fighter(def);
    let af = att[a]->0;
    let df = def[d]->0;
    let af2 = hit(af, df.attack);
    let df2 = hit(df, af.attack);
    let att1 = att.update(a, Some(af2));
    let def1 = def.update(d, Some(df2));
    let att2 = if af2.health.attos <= 0 { att1.update(a, None) } else { att1 };
    let att3 = if df2.health.attos <= 0 { att2.update(d, None) } else { att2 };
    (att3, def1)
}

/// The outcome of a battle between `att` and `def`, fought round by round
/// until one team has no fighters; `None` when the battle cannot be fought
/// to an end: an empty team list, a round that aborts, or a round after
/// which no attacking fighter ever falls (see `round_ok`).
pub open spec fn battle(att: Seq<Option<FighterInfo>>, def: Seq<Option<FighterInfo>>) -> Option<BattleEnd>
    decreases count_fighters(att), round_measure(att, def),
{
    if att.len() == 0 {
        None
    } else if !has_fighter(att) {
        if def.len() == 0 {
            None
        } else if has_fighter(def) {
            Some(BattleEnd::Defeat)
        } else {
            Some(BattleEnd::Draw)
        }
    } else if def.len() == 0 {
        None
    } else if !has_fighter(def) {
        Some(BattleEnd::Victory)
    } else if !round_ok(att, def) {
        None
    } else {
        proof {
            lemma_round_progress(att, def);
        }
        let next = fight_round(att, def);
        battle(next.0, next.1)
    }
}

/// The first fighter index is the first slot holding a fighter.
pub proof fn lemma_first_fighter(s: Seq<Option<FighterInfo>>)
    requires
        has_fighter(s),
    ensures
        is_first_fighter(s, first_fighter(s)),
    decreases s.len(),
{
    if s[0] is None {
        let t = s.drop_first();
        let k = choose|i: int| 0 <= i < s.len() && #[trigger] s[i] is Some;
        assert(t[k - 1] is Some);
        lemma_first_fighter(t);
        assert forall|j: int| 0 <= j < first_fighter(s) implies #[trigger] s[j] is None by {
            if j > 0 {
                assert(s[j] == t[j - 1]);
            }
        }
    }
}

/// A slot that is the first to hold a fighter is the first fighter index.
pub proof fn lemma_first_fighter_unique(s: Seq<Option<FighterInfo>>, i: int)
    requires
        is_first_fighter(s, i),
    ensures
        first_fighter(s) == i,
{
    assert(has_fighter(s));
    lemma_first_fighter(s);
    let f = first_fighter(s);
    if f < i {
        assert(s[f] is None);
    } else if i < f {
        assert(s[i] is None);
    }
}

/// How setting one slot changes the number of fighters.
pub proof fn lemma_count_update(s: Seq<Option<FighterInfo>>, i: int, v: Option<FighterInfo>)
    requires
        0 <= i < s.len(),
    ensures
        count_fighters(s.update(i, v)) + (if s[i] is Some { 1int } else { 0int })
            == count_fighters(s) + (if v is Some { 1int } else { 0int }),
    decreases s.len(),
{
    let u = s.update(i, v);
    if i > 0 {
        assert(u.drop_first() =~= s.drop_first().update(i - 1, v));
        lemma_count_update(s.drop_first(), i - 1, v);
    } else {
        assert(u.drop_first() =~= s.drop_first());
    }
}

/// Each round that `round_ok` admits either removes an attacking fighter or
/// lowers `round_measure`.
pub proof fn lemma_round_progress(att: Seq<Option<FighterInfo>>, def: Seq<Option<FighterInfo>>)
    requires
        has_fighter(att),
        has_fighter(def),
        round_ok(att, def),
    ensures
        ({
            let next = fight_round(att, def);
            ||| count_fighters(next.0) < count_fighters(att)
            ||| count_fighters(next.0) == count_fighters(att) && round_measure(next.0, next.1) < round_measure(att, def)
        }),
{
    let a = first_fighter(att);
    let d = first_fighter(def);
    lemma_first_fighter(att);
    lemma_first_fighter(def);
    let af = att[a]->0;
    let df = def[d]->0;
    let af2 = hit(af, df.attack);
    let df2 = hit(df, af.attack);
    let att1 = att.update(a, Some(af2));
    let def1 = def.update(d, Some(df2));
    lemma_count_update(att, a, Some(af2));
    let att2 = if af2.health.attos <= 0 { att1.update(a, None) } else { att1 };
    if af2.health.attos <= 0 {
        lemma_count_update(att1, a, None);
    }
    let att3 = if df2.health.attos <= 0 { att2.update(d, None) } else { att2 };
    if df2.health.attos <= 0 {
        lemma_count_update(att2, d, None);
    }
    assert(att3 == fight_round(att, def).0);
    assert(def1 == fight_round(att, def).1);
    assert(attacker_holds(att, d) <==> attacker_holds(att1, d));
    if count_fighters(att3) == count_fighters(att) {
        assert(af2.health.attos > 0);
        assert(!(df2.health.attos <= 0 && attacker_holds(att, d)));
        if df2.health.attos <= 0 {
            assert(att1[d] is None);
        }
        assert(att3 =~= att1);
        assert(is_first_fighter(att1, a));
        lemma_first_fighter_unique(att1, a);
        assert(is_first_fighter(def1, d));
        lemma_first_fighter_unique(def1, d);
        assert(att3[a]->0 == af2);
        assert(def1[d]->0 == df2);
        assert(attacker_holds(att3, d) == attacker_holds(att, d));
    }
}

/// Whether the battle is over for `team_1`, and where it stands: when
/// `team_1` still has a fighter, `(false, false, i)` with `i` its first
/// fighter's slot; otherwise `(true, b, 0)` where `b` says whether `team_2`
/// still has a fighter.
pub fn check_combat_end(team_1: Vec<Option<FighterInfo>>, team_2: Vec<Option<FighterInfo>>) -> (r: (
    bool,
    bool,
    usize,
))
    requires
        team_1.len() > 0,
        !has_fighter(team_1@) ==> team_2.len() > 0,
    ensures
        has_fighter(team_1@) ==> !r.0 && !r.1 && is_first_fighter(team_1@, r.2 as int),
        has_fighter(team_1@) ==> r.2 == first_fighter(team_1@),
        !has_fighter(team_1@) ==> r == (true, has_fighter(team_2@), 0usize),
{
    let mut x: usize = 0;
    while x < team_1.len()
        invariant
            x <= team_1.len(),
            forall|j: int| 0 <= j < x ==> #[trigger] team_1@[j] is None,
        decreases team_1.len() - x,
    {
        if team_1[x].is_some() {
            proof {
                lemma_first_fighter_unique(team_1@, x as int);
            }
            return (false, false, x);
        }
        x = x + 1;
    }
    let mut y: usize = 0;
    while y < team_2.len()
        invariant
            y <= team_2.len(),
            forall|j: int| 0 <= j < team_1.len() ==> #[trigger] team_1@[j] is None,
            forall|j: int| 0 <= j < y ==> #[trigger] team_2@[j] is None,
        decreases team_2.len() - y,
    {
        if team_2[y].is_some() {
            return (true, true, 0);
        }
        y = y + 1;
    }
    (true, false, 0)
}

/// Fights a battle between `attacker` and `defender` to its end and tells
/// how it ended for the attacker; `None` when it cannot be fought to an end
/// (an empty team list, a defending front fighter that deals no damage, an
/// amount out of range, or a fallen defender whose slot index is not a slot
/// of the attacking team).
pub fn try_combat(attacker: Vec<Option<FighterInfo>>, defender: Vec<Option<FighterInfo>>) -> (r: Option<BattleEnd>)
    ensures
        r == battle(attacker@, defender@),
{
    let ghost goal = battle(attacker@, defender@);
    let mut att: Vec<Option<FighterInfo>> = attacker;
    let mut def: Vec<Option<FighterInfo>> = defender;
    loop
        invariant
            battle(att@, def@) == goal,
            goal == battle(attacker@, defender@),
        decreases count_fighters(att@), round_measure(att@, def@),
    {
        if att.len() == 0 || def.len() == 0 {
            return None;
        }
        let attacker_tuple: (bool, bool, usize) = check_combat_end(copy_slots(&att), copy_slots(&def));
        if attacker_tuple.0 {
            if attacker_tuple.1 {
                return Some(BattleEnd::Defeat);
            } else {
                return Some(BattleEnd::Draw);
            }
        }
        let defender_tuple: (bool, bool, usize) = check_combat_end(copy_slots(&def), copy_slots(&att));
        if defender_tuple.0 {
            if defender_tuple.1 {
                return Some(BattleEnd::Victory);
            } else {
                return Some(BattleEnd::Draw);
            }
        }
        let ghost att0 = att@;
        let ghost def0 = def@;
        let a: usize = attacker_tuple.2;
        let d: usize = defender_tuple.2;
        let mut attacker_fighter: FighterInfo = att[a].unwrap();
        let mut defender_fighter: FighterInfo = def[d].unwrap();
        let attacker_health: Option<Decimal> = attacker_fighter.health.checked_minus(defender_fighter.attack);
        let defender_health: Option<Decimal> = defender_fighter.health.checked_minus(attacker_fighter.attack);
        if attacker_health.is_none() || defender_health.is_none() {
            return None;
        }
        let attacker_after: Decimal = attacker_health.unwrap();
        let defender_after: Decimal = defender_health.unwrap();
        if defender_after.is_not_positive() && d >= att.len() {
            return None;
        }
        let holds: bool = d < att.len() && att[d].is_some();
        let progress: bool = !defender_fighter.attack.is_not_positive()
            || (holds && !attacker_fighter.attack.is_not_positive())
            || attacker_after.is_not_positive()
            || (defender_after.is_not_positive() && holds);
        if !progress {
            return None;
        }
        attacker_fighter.health = attacker_after;
        defender_fighter.health = defender_after;
        proof {
            assert(round_ok(att0, def0));
            lemma_round_progress(att0, def0);
        }
        att.set(a, Some(attacker_fighter));
        def.set(d, Some(defender_fighter));
        if attacker_fighter.health.is_not_positive() {
            att.set(a, None);
        }
        if defender_fighter.health.is_not_positive() {
            att.set(d, None);
        }
        proof {
            assert((att@, def@) == fight_round(att0, def0));
        }
    }
}

/// Fights a battle between `attacker` and `defender` to its end and tells
/// how it ended for the attacker.
pub fn combat(attacker: Vec<Option<FighterInfo>>, defender: Vec<Option<FighterInfo>>) -> (r: BattleEnd)
    requires
        battle(attacker@, defender@) is Some,
    ensures
        battle(attacker@, defender@) == Some(r),
{
    let outcome: Option<BattleEnd> = try_combat(attacker, defender);
    outcome.unwrap()
}

} // verus!
