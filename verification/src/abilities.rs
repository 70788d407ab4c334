use vstd::prelude::*;
use crate::decimal::Decimal;
use crate::structs::{AbilityTypes, Combat, CombatView, FighterInfo, Position, Targeting};
use crate::team::{copy_slots, replace_first, replace_first_in, replace_in_team, replace_in_team_exec};
use crate::combat::{first_fighter, has_fighter, is_first_fighter, lemma_first_fighter_unique};

verus! {

/// Adds `gold` to the player's gold.
pub fn gold_grant(combat_data: Combat, gold: u8) -> (r: Combat)
    requires
        combat_data.gold + gold <= u8::MAX,
    ensures
        r@ == (CombatView { gold: (combat_data.gold + gold) as u8, ..combat_data@ }),
{
    let mut combat_data = combat_data;
    combat_data.gold = combat_data.gold + gold;
    combat_data
}

/// `fighter` with its health and attack set to the given values.
pub fn stat_change(fighter: FighterInfo, health: Decimal, attack: Decimal) -> (r: FighterInfo)
    ensures
        r == (FighterInfo { health, attack, ..fighter }),
{
    let mut fighter = fighter;
    fighter.health = health;
    fighter.attack = attack;
    fighter
}

/// `fighter` with its tier set to `exp`.
pub fn exp_grant(fighter: FighterInfo, exp: u8) -> (r: FighterInfo)
    ensures
        r == (FighterInfo { tier: exp, ..fighter }),
{
    let mut fighter = fighter;
    fighter.tier = exp;
    fighter
}

/// Puts `new_fighter` (the fighter that the game data holds under the
/// summoning ability's key) into the first empty active slot, or else the
/// first empty bench slot; when both are full nothing changes.
pub fn summon_fighter(combat_data: Combat, new_fighter: FighterInfo) -> (r: Combat)
    ensures
        ({
            let t = replace_in_team(combat_data.fighters@, combat_data.bench@, None, Some(new_fighter));
            r@ == CombatView { fighters: t.0, bench: t.1, ..combat_data@ }
        }),
{
    let mut combat_data = combat_data;
    replace_in_team_exec(&mut combat_data.fighters, &mut combat_data.bench, &None, Some(new_fighter));
    combat_data
}

/// During battle, puts `new_fighter` into the first empty slot of the own
/// team (`which`) or of the enemy team, and returns that team; a full team
/// is returned unchanged.
pub fn combat_summon_fighter(
    team: Vec<Option<FighterInfo>>,
    enemy_team: Vec<Option<FighterInfo>>,
    new_fighter: FighterInfo,
    which: bool,
) -> (r: Vec<Option<FighterInfo>>)
    ensures
        r@ == replace_first(if which { team@ } else { enemy_team@ }, None, Some(new_fighter)),
{
    let mut summon_team = if which { team } else { enemy_team };
    replace_first_in(&mut summon_team, &None, Some(new_fighter));
    summon_team
}

/// Whether the ability of the active fighter at `index` can fire outside
/// battle: the slot holds a fighter and the ability carries what its effect
/// needs (for a summon, the fighter looked up under its key).
pub open spec fn non_combat_ok(c: CombatView, index: int, summoned: Option<FighterInfo>) -> bool {
    &&& 0 <= index < c.fighters.len()
    &&& c.fighters[index] is Some
    &&& ({
        let f = c.fighters[index]->0;
        match f.ability.effect {
            AbilityTypes::Exp => f.ability.exp is Some,
            AbilityTypes::Gold => f.ability.gold is Some && c.gold + f.ability.gold->0 <= u8::MAX,
            AbilityTypes::Gear => true,
            AbilityTypes::Summon => f.ability.summon is Some && summoned is Some,
            AbilityTypes::Stats => f.ability.stats is Some,
        }
    })
}

/// The game state after the ability of the active fighter at `index` fires
/// outside battle.
pub open spec fn non_combat_effect(c: CombatView, index: int, summoned: Option<FighterInfo>) -> CombatView {
    let f = c.fighters[index]->0;
    match f.ability.effect {
        AbilityTypes::Exp => CombatView {
            fighters: c.fighters.update(index, Some(FighterInfo { tier: f.ability.exp->0, ..f })),
            ..c
        },
        AbilityTypes::Gold => CombatView { gold: (c.gold + f.ability.gold->0) as u8, ..c },
        AbilityTypes::Gear => c,
        AbilityTypes::Summon => {
            let t = replace_in_team(c.fighters, c.bench, None, summoned);
            CombatView { fighters: t.0, bench: t.1, ..c }
        },
        AbilityTypes::Stats => {
            let stats = f.ability.stats->0;
            CombatView {
                fighters: c.fighters.update(index, Some(FighterInfo { health: stats.0, attack: stats.1, ..f })),
                ..c
            }
        },
    }
}

/// Fires the ability of the active fighter at `index` outside battle: a
/// new tier, gold, a summon (of `summoned`, the fighter that the game data
/// holds under the ability's key) or new stats; gear does nothing yet.
pub fn non_combat_abilities(combat_data: Combat, index: usize, summoned: Option<FighterInfo>) -> (r: Combat)
    requires
        non_combat_ok(combat_data@, index as int, summoned),
    ensures
        r@ == non_combat_effect(combat_data@, index as int, summoned),
{
    let mut combat_data = combat_data;
    let fighter: FighterInfo = combat_data.fighters[index].unwrap();
    match fighter.ability.effect {
        AbilityTypes::Exp => {
            combat_data.fighters.set(index, Some(exp_grant(fighter, fighter.ability.exp.unwrap())));
            combat_data
        },
        AbilityTypes::Gold => gold_grant(combat_data, fighter.ability.gold.unwrap()),
        AbilityTypes::Gear => combat_data,
        AbilityTypes::Summon => summon_fighter(combat_data, summoned.unwrap()),
        AbilityTypes::Stats => {
            let stats: (Decimal, Decimal) = fighter.ability.stats.unwrap();
            combat_data.fighters.set(index, Some(stat_change(fighter, stats.0, stats.1)));
            combat_data
        },
    }
}

/// The stat that a search looks at: health, or else attack (in attos).
pub open spec fn stat_of(f: FighterInfo, health: bool) -> int {
    if health {
        f.health.attos as int
    } else {
        f.attack.attos as int
    }
}

/// Whether slot `i` holds the fighter with the most (or least) of the stat,
/// the first such slot when several tie.
pub open spec fn is_best_slot(team: Seq<Option<FighterInfo>>, i: int, health: bool, most: bool) -> bool {
    &&& 0 <= i < team.len()
    &&& team[i] is Some
    &&& forall|j: int|
        0 <= j < team.len() && #[trigger] team[j] is Some ==> if most {
            stat_of(team[j]->0, health) <= stat_of(team[i]->0, health)
        } else {
            stat_of(team[i]->0, health) <= stat_of(team[j]->0, health)
        }
    &&& forall|j: int|
        0 <= j < i && #[trigger] team[j] is Some ==> if most {
            stat_of(team[j]->0, health) < stat_of(team[i]->0, health)
        } else {
            stat_of(team[i]->0, health) < stat_of(team[j]->0, health)
        }
}

/// Whether some fighter of `team` can beat the starting value of a stat
/// search: a positive value when searching for the most, a value below the
/// largest amount when searching for the least.
pub open spec fn has_candidate(team: Seq<Option<FighterInfo>>, health: bool, most: bool) -> bool {
    exists|j: int|
        0 <= j < team.len() && #[trigger] team[j] is Some && if most {
            stat_of(team[j]->0, health) > 0
        } else {
            stat_of(team[j]->0, health) < i128::MAX
        }
}

/// The slot a stat search settles on: the first fighter with the most (or
/// least) of the stat; a search that finds no fighter beating its starting
/// value (zero for the most, the largest amount for the least) settles on
/// slot zero.
pub open spec fn best_slot(team: Seq<Option<FighterInfo>>, health: bool, most: bool) -> int {
    if !has_candidate(team, health, most) {
        0
    } else {
        choose|i: int| is_best_slot(team, i, health, most)
    }
}

/// At most one slot is the best slot.
pub proof fn lemma_best_slot_unique(team: Seq<Option<FighterInfo>>, i: int, k: int, health: bool, most: bool)
    requires
        is_best_slot(team, i, health, most),
        is_best_slot(team, k, health, most),
    ensures
        i == k,
{
    if i < k {
        assert(team[i] is Some);
    } else if k < i {
        assert(team[k] is Some);
    }
}

/// Finds the slot of the fighter with the most (`most`) or least health
/// (`health`) or attack. Empty slots are skipped; the last slot must hold a
/// fighter.
pub fn find_most_least_stat(team: Vec<Option<FighterInfo>>, health: bool, most: bool) -> (r: usize)
    requires
        team.len() > 0,
        team@.last() is Some,
    ensures
        r as int == best_slot(team@, health, most),
        r < team.len(),
        has_candidate(team@, health, most) ==> is_best_slot(team@, r as int, health, most),
{
    let mut best: usize = 0;
    let mut found: bool = false;
    let mut best_value: i128 = 0;
    let mut iter: usize = 0;
    while iter < team.len()
        invariant
            iter <= team.len(),
            best < team.len(),
            found ==> best < iter && team@[best as int] is Some
                && best_value == stat_of(team@[best as int]->0, health),
            found ==> forall|j: int|
                0 <= j < iter && #[trigger] team@[j] is Some ==> if most {
                    stat_of(team@[j]->0, health) <= best_value
                } else {
                    best_value <= stat_of(team@[j]->0, health)
                },
            found ==> forall|j: int|
                0 <= j < best && #[trigger] team@[j] is Some ==> if most {
                    stat_of(team@[j]->0, health) < best_value
                } else {
                    best_value < stat_of(team@[j]->0, health)
                },
            found <==> exists|j: int|
                0 <= j < iter && #[trigger] team@[j] is Some && if most {
                    stat_of(team@[j]->0, health) > 0
                } else {
                    stat_of(team@[j]->0, health) < i128::MAX
                },
            !found ==> best == 0,
        decreases team.len() - iter,
    {
        match team[iter] {
            None => {},
            Some(f) => {
                let check: i128 = if health { f.health.attos } else { f.attack.attos };
                if most {
                    let threshold: i128 = if found { best_value } else { 0 };
                    if check > threshold {
                        best = iter;
                        best_value = check;
                        found = true;
                    }
                } else {
                    let threshold: i128 = if found { best_value } else { i128::MAX };
                    if check < threshold {
                        best = iter;
                        best_value = check;
                        found = true;
                    }
                }
            },
        }
        iter = iter + 1;
    }
    proof {
        if !has_candidate(team@, health, most) {
            if found {
                assert(has_candidate(team@, health, most));
            }
        } else {
            if !found {
                let j = choose|j: int|
                    0 <= j < team.len() && #[trigger] team@[j] is Some && if most {
                        stat_of(team@[j]->0, health) > 0
                    } else {
                        stat_of(team@[j]->0, health) < i128::MAX
                    };
                assert(team@[j] is Some);
            }
            assert(is_best_slot(team@, best as int, health, most));
            let c = choose|i: int| is_best_slot(team@, i, health, most);
            lemma_best_slot_unique(team@, c, best as int, health, most);
        }
    }
    best
}

/// Whether `i` is the last slot of `s` that holds a fighter.
pub open spec fn is_last_fighter(s: Seq<Option<FighterInfo>>, i: int) -> bool {
    &&& 0 <= i < s.len()
    &&& s[i] is Some
    &&& forall|j: int| i < j < s.len() ==> #[trigger] s[j] is None
}

/// The index of the last slot of `s` that holds a fighter (meaningful when
/// there is one).
pub open spec fn last_fighter(s: Seq<Option<FighterInfo>>) -> int {
    choose|i: int| is_last_fighter(s, i)
}

/// The slot of the first fighter of `v`, if any.
fn first_fighter_slot(v: &Vec<Option<FighterInfo>>) -> (r: Option<usize>)
    ensures
        match r {
            Some(i) => has_fighter(v@) && i as int == first_fighter(v@) && is_first_fighter(v@, i as int),
            None => !has_fighter(v@),
        },
{
    let mut i: usize = 0;
    while i < v.len()
        invariant
            i <= v.len(),
            forall|j: int| 0 <= j < i ==> #[trigger] v@[j] is None,
        decreases v.len() - i,
    {
        if v[i].is_some() {
            proof {
                lemma_first_fighter_unique(v@, i as int);
            }
            return Some(i);
        }
        i = i + 1;
    }
    None
}

/// The slot of the last fighter of `v`, if any.
fn last_fighter_slot(v: &Vec<Option<FighterInfo>>) -> (r: Option<usize>)
    ensures
        match r {
            Some(i) => has_fighter(v@) && i as int == last_fighter(v@) && is_last_fighter(v@, i as int),
            None => !has_fighter(v@),
        },
{
    let mut i: usize = v.len();
    while i > 0
        invariant
            i <= v.len(),
            forall|j: int| i <= j < v.len() ==> #[trigger] v@[j] is None,
        decreases i,
    {
        if v[i - 1].is_some() {
            proof {
                let k = (i - 1) as int;
                assert(is_last_fighter(v@, k));
                let c = choose|c: int| is_last_fighter(v@, c);
                if c < k {
                    assert(v@[k] is Some);
                } else if k < c {
                    assert(v@[c] is Some);
                }
            }
            return Some(i - 1);
        }
        i = i - 1;
    }
    None
}

/// Whether an ability aims at the enemy team.
pub open spec fn targets_enemy(f: FighterInfo) -> bool {
    f.ability.targeting is Enemy
}

/// The team an ability of `f` aims at.
pub open spec fn aimed_team(
    team: Seq<Option<FighterInfo>>,
    enemy_team: Seq<Option<FighterInfo>>,
    f: FighterInfo,
) -> Seq<Option<FighterInfo>> {
    if targets_enemy(f) {
        enemy_team
    } else {
        team
    }
}

/// The position an ability of the fighter in slot `user` aims at; an ability
/// on the user itself aims at the user's own slot.
pub open spec fn aimed_position(f: FighterInfo, user: int) -> Position {
    match f.ability.targeting {
        Targeting::User => Position::Specific(user as usize),
        Targeting::Ally(p) => p,
        Targeting::Enemy(p) => p,
    }
}

/// Whether a position can be resolved to a fighter of team `t`; `pick` is
/// the slot a random position settled on (a draw below `t.len() - 1`).
pub open spec fn target_slot_ok(t: Seq<Option<FighterInfo>>, pos: Position, pick: int) -> bool {
    match pos {
        Position::First => has_fighter(t),
        Position::Last => has_fighter(t),
        Position::MostHP => t.len() > 0 && t.last() is Some && t[best_slot(t, true, true)] is Some,
        Position::LeastHP => t.len() > 0 && t.last() is Some && t[best_slot(t, true, false)] is Some,
        Position::MostATK => t.len() > 0 && t.last() is Some && t[best_slot(t, false, true)] is Some,
        Position::LeastATK => t.len() > 0 && t.last() is Some && t[best_slot(t, false, false)] is Some,
        Position::Specific(z) => z < t.len() && (t[z as int] is Some || has_fighter(t)),
        Position::Random => t.len() >= 2 && 0 <= pick < t.len() - 1 && t[pick] is Some,
    }
}

/// The slot of team `t` that a position resolves to.
pub open spec fn target_slot(t: Seq<Option<FighterInfo>>, pos: Position, pick: int) -> int {
    match pos {
        Position::First => first_fighter(t),
        Position::Last => last_fighter(t),
        Position::MostHP => best_slot(t, true, true),
        Position::LeastHP => best_slot(t, true, false),
        Position::MostATK => best_slot(t, false, true),
        Position::LeastATK => best_slot(t, false, false),
        Position::Specific(z) => if t[z as int] is Some { z as int } else { first_fighter(t) },
        Position::Random => pick,
    }
}

/// Whether the ability of the fighter in slot `user` of `team` can fire in
/// battle: its target resolves to a fighter, and a summon has the fighter
/// looked up under its key.
pub open spec fn combat_ability_ok(
    team: Seq<Option<FighterInfo>>,
    user: int,
    enemy_team: Seq<Option<FighterInfo>>,
    summoned: Option<FighterInfo>,
    pick: int,
) -> bool {
    &&& 0 <= user < team.len()
    &&& team[user] is Some
    &&& ({
        let f = team[user]->0;
        &&& target_slot_ok(aimed_team(team, enemy_team, f), aimed_position(f, user), pick)
        &&& f.ability.effect is Summon ==> f.ability.summon is Some && summoned is Some
    })
}

/// The two teams after the ability of the fighter in slot `user` fires in
/// battle: a summon fills the first empty slot of the aimed team; a stats
/// ability gives the target the user's health and attack; other effects
/// change nothing.
pub open spec fn combat_ability_effect(
    team: Seq<Option<FighterInfo>>,
    user: int,
    enemy_team: Seq<Option<FighterInfo>>,
    summoned: Option<FighterInfo>,
    pick: int,
) -> (Seq<Option<FighterInfo>>, Seq<Option<FighterInfo>>) {
    let f = team[user]->0;
    let t = aimed_team(team, enemy_team, f);
    let slot = target_slot(t, aimed_position(f, user), pick);
    match f.ability.effect {
        AbilityTypes::Summon => if targets_enemy(f) {
            (team, replace_first(enemy_team, None, summoned))
        } else {
            (replace_first(team, None, summoned), enemy_team)
        },
        AbilityTypes::Stats => {
            let target = t[slot]->0;
            let changed = t.update(slot, Some(FighterInfo { health: f.health, attack: f.attack, ..target }));
            if targets_enemy(f) {
                (team, changed)
            } else {
                (changed, enemy_team)
            }
        },
        _ => (team, enemy_team),
    }
}

/// Whether slot `pick` of the team aimed at by the fighter in slot `user`
/// holds a fighter: a random target is drawn again until it does.
pub fn random_target_accepted(
    team: &Vec<Option<FighterInfo>>,
    user: usize,
    enemy_team: &Vec<Option<FighterInfo>>,
    pick: usize,
) -> (r: bool)
    requires
        user < team.len(),
        team@[user as int] is Some,
    ensures
        ({
            let t = aimed_team(team@, enemy_team@, team@[user as int]->0);
            r == (pick < t.len() && t[pick as int] is Some)
        }),
{
    let fighter: FighterInfo = team[user].unwrap();
    let targeted: &Vec<Option<FighterInfo>> = match fighter.ability.targeting {
        Targeting::Enemy(_) => enemy_team,
        _ => team,
    };
    pick < targeted.len() && targeted[pick].is_some()
}

/// Resolves a target position to a slot of `targeted`.
fn resolve_target(targeted: &Vec<Option<FighterInfo>>, pos: Position, pick: usize) -> (r: usize)
    requires
        target_slot_ok(targeted@, pos, pick as int),
    ensures
        r as int == target_slot(targeted@, pos, pick as int),
        r < targeted.len(),
        targeted@[r as int] is Some,
{
    match pos {
        Position::First => {
            let u: Option<usize> = first_fighter_slot(targeted);
            u.unwrap()
        },
        Position::Last => {
            let u: Option<usize> = last_fighter_slot(targeted);
            u.unwrap()
        },
        Position::MostHP => find_most_least_stat(copy_slots(targeted), true, true),
        Position::LeastHP => {
            let u: usize = find_most_least_stat(copy_slots(targeted), true, false);
            u
        },
        Position::MostATK => find_most_least_stat(copy_slots(targeted), false, true),
        Position::LeastATK => {
            let u: usize = find_most_least_stat(copy_slots(targeted), false, false);
            u
        },
        Position::Specific(z) => {
            if targeted[z].is_none() {
                let u: Option<usize> = first_fighter_slot(targeted);
                u.unwrap()
            } else {
                z
            }
        },
        Position::Random => pick,
    }
}

/// Fires the ability of the fighter in slot `user` of `team` during battle
/// and returns both teams afterwards (own team first). `summoned` is the
/// fighter that the game data holds under a summon ability's key; `pick` is
/// the slot that a random target settled on.
pub fn combat_abilities(
    team: Vec<Option<FighterInfo>>,
    user: usize,
    enemy_team: Vec<Option<FighterInfo>>,
    summoned: Option<FighterInfo>,
    pick: usize,
) -> (r: (Vec<Option<FighterInfo>>, Vec<Option<FighterInfo>>))
    requires
        combat_ability_ok(team@, user as int, enemy_team@, summoned, pick as int),
    ensures
        (r.0@, r.1@) == combat_ability_effect(team@, user as int, enemy_team@, summoned, pick as int),
{
    let fighter: FighterInfo = team[user].unwrap();
    let enemy: bool = match fighter.ability.targeting {
        Targeting::Enemy(_) => true,
        _ => false,
    };
    let targeted_pos: Position = match fighter.ability.targeting {
        Targeting::Enemy(x) => x,
        Targeting::Ally(y) => y,
        Targeting::User => Position::Specific(user),
    };
    let mut targeted_team: Vec<Option<FighterInfo>> = if enemy { copy_slots(&enemy_team) } else { copy_slots(&team) };
    let target_usize: usize = resolve_target(&targeted_team, targeted_pos, pick);
    let target: FighterInfo = targeted_team[target_usize].unwrap();
    match fighter.ability.effect {
        AbilityTypes::Summon => {
            let new_fighter: FighterInfo = summoned.unwrap();
            if enemy {
                let own: Vec<Option<FighterInfo>> = copy_slots(&team);
                let summoned_team: Vec<Option<FighterInfo>> = combat_summon_fighter(team, enemy_team, new_fighter, false);
                (own, summoned_team)
            } else {
                let other: Vec<Option<FighterInfo>> = copy_slots(&enemy_team);
                let summoned_team: Vec<Option<FighterInfo>> = combat_summon_fighter(team, enemy_team, new_fighter, true);
                (summoned_team, other)
            }
        },
        AbilityTypes::Stats => {
            let changed: FighterInfo = stat_change(target, fighter.health, fighter.attack);
            targeted_team.set(target_usize, Some(changed));
            if enemy {
                (team, targeted_team)
            } else {
                (targeted_team, enemy_team)
            }
        },
        _ => (team, enemy_team),
    }
}

} // verus!
