use vstd::prelude::*;
use crate::structs::{BattleEnd, CombatView, FighterInfo, ShopView, Actions};
use crate::team::{replace_first, replace_in_team, team_holds};
use crate::actions::{
    action_effect, action_ok, bought, can_buy, can_sell, can_set_positions, combined, positioned,
    sell_value, sold,
};
use crate::combat::{battle, count_fighters, fight_round, first_fighter, round_measure, has_fighter,
    lemma_count_update, lemma_first_fighter, lemma_first_fighter_unique, lemma_round_progress, round_ok,
    round_progresses, round_safe, is_first_fighter, attacker_holds, hit};
use crate::gameplay::{tier_for_round, battle_recorded, can_record_battle, GameData, RoundOutcome};
use crate::structs::{AbilityTypes, Position, Targeting, GearInfo};
use crate::decimal::{Decimal, ONE_ATTOS};
use crate::abilities::{combat_ability_effect, combat_ability_ok, is_last_fighter, last_fighter, best_slot,
    has_candidate, is_best_slot, lemma_best_slot_unique};

verus! {

/// Replacing the first occurrence of a slot value keeps the number of slots.
pub proof fn lemma_replace_first_len(s: Seq<Option<FighterInfo>>, x: Option<FighterInfo>, y: Option<FighterInfo>)
    ensures
        replace_first(s, x, y).len() == s.len(),
{
    s.index_of_first_ensures(x);
}

/// Replacing the first occurrence of a value that the slots hold swaps one
/// copy of it for one copy of the new value.
pub proof fn lemma_replace_first_multiset(s: Seq<Option<FighterInfo>>, x: Option<FighterInfo>, y: Option<FighterInfo>)
    requires
        s.contains(x),
    ensures
        replace_first(s, x, y).to_multiset() == s.to_multiset().remove(x).insert(y),
{
    broadcast use vstd::seq_lib::group_to_multiset_ensures, vstd::multiset::group_multiset_axioms;

    s.index_of_first_ensures(x);
    let i = s.index_of_first(x)->0;
    assert(s.to_multiset().count(x) > 0);
    assert(s.to_multiset().insert(y).remove(x) =~= s.to_multiset().remove(x).insert(y));
}

/// Putting `y` in place of a value `x` that the team holds swaps one copy of
/// `x` for one copy of `y` among the team's slots, and keeps the sizes of
/// the team and the bench.
pub proof fn lemma_replace_in_team(
    fighters: Seq<Option<FighterInfo>>,
    bench: Seq<Option<FighterInfo>>,
    x: Option<FighterInfo>,
    y: Option<FighterInfo>,
)
    requires
        team_holds(fighters, bench, x),
    ensures
        ({
            let t = replace_in_team(fighters, bench, x, y);
            &&& t.0.len() == fighters.len()
            &&& t.1.len() == bench.len()
            &&& (t.0 + t.1).to_multiset() == (fighters + bench).to_multiset().remove(x).insert(y)
        }),
{
    broadcast use vstd::multiset::group_multiset_axioms;

    let t = replace_in_team(fighters, bench, x, y);
    lemma_replace_first_len(fighters, x, y);
    lemma_replace_first_len(bench, x, y);
    vstd::seq_lib::lemma_multiset_commutative(t.0, t.1);
    vstd::seq_lib::lemma_multiset_commutative(fighters, bench);
    if fighters.contains(x) {
        lemma_replace_first_multiset(fighters, x, y);
        vstd::seq_lib::to_multiset_contains(fighters, x);
        assert(fighters.to_multiset().remove(x).insert(y).add(bench.to_multiset())
            =~= fighters.to_multiset().add(bench.to_multiset()).remove(x).insert(y));
    } else {
        lemma_replace_first_multiset(bench, x, y);
        vstd::seq_lib::to_multiset_contains(bench, x);
        assert(fighters.to_multiset().add(bench.to_multiset().remove(x).insert(y))
            =~= fighters.to_multiset().add(bench.to_multiset()).remove(x).insert(y));
    }
}

/// Law: every allowed shop action keeps the number of active slots, bench
/// slots, shop fighter slots and shop gear slots.
pub proof fn law_actions_keep_slot_counts(c: CombatView, s: ShopView, action: Actions)
    requires
        action_ok(c, s, action),
    ensures
        ({
            let r = action_effect(c, s, action);
            &&& r.0.fighters.len() == c.fighters.len()
            &&& r.0.bench.len() == c.bench.len()
            &&& r.1.fighters.len() == s.fighters.len()
            &&& r.1.gear.len() == s.gear.len()
        }),
{
    match action {
        Actions::Sell(f) => {
            lemma_replace_in_team(c.fighters, c.bench, Some(f), None);
        },
        Actions::Buy(f) => {
            lemma_replace_in_team(c.fighters, c.bench, None, Some(f));
            lemma_replace_first_len(s.fighters, Some(f), None);
        },
        Actions::Use((g, f)) => {
            lemma_replace_first_len(c.fighters, Some(f), Some(crate::actions::geared(f)));
            s.gear.index_of_first_ensures(Some(g));
        },
        Actions::SetFighters((fighters, bench)) => {},
        Actions::Combine((big, smol, buy)) => {
            let t = crate::actions::team_after_upgrade(c.fighters, c.bench, big, smol);
            lemma_replace_in_team(c.fighters, c.bench, Some(big), Some(combined(big, smol)));
            if buy {
                lemma_replace_first_len(s.fighters, Some(smol), None);
            } else {
                lemma_replace_in_team(t.0, t.1, Some(smol), None);
            }
        },
    }
}

/// Law: a shop action changes only the team, the bench, the gold and the
/// shop; the round, the shop tier, the player's health and wins, the bonus
/// choice and the scouted enemy stay as they were.
pub proof fn law_actions_keep_round_data(c: CombatView, s: ShopView, action: Actions)
    requires
        action_ok(c, s, action),
    ensures
        ({
            let r = action_effect(c, s, action).0;
            &&& r.state == c.state
            &&& r.round == c.round
            &&& r.shop_tier == c.shop_tier
            &&& r.next_round_choice == c.next_round_choice
            &&& r.player_health == c.player_health
            &&& r.player_wins == c.player_wins
            &&& r.next_enemy == c.next_enemy
        }),
{
}

/// Law: rearranging the team keeps exactly the same fighters and empty
/// slots, only in other places.
pub proof fn law_set_positions_keeps_members(
    c: CombatView,
    fighters: Seq<Option<FighterInfo>>,
    bench: Seq<Option<FighterInfo>>,
)
    requires
        can_set_positions(c, fighters, bench),
    ensures
        ({
            let r = positioned(c, fighters, bench);
            (r.fighters + r.bench).to_multiset() == (c.fighters + c.bench).to_multiset()
        }),
{
}

/// Law: selling takes exactly one copy of the fighter out of the team,
/// leaving an empty slot, and pays its sell value.
pub proof fn law_sell_takes_one_copy(c: CombatView, f: FighterInfo)
    requires
        can_sell(c, f),
    ensures
        ({
            let r = sold(c, f);
            &&& (r.fighters + r.bench).to_multiset() == (c.fighters + c.bench).to_multiset().remove(Some(f)).insert(None)
            &&& r.gold == c.gold + sell_value(f.tier)
        }),
{
    lemma_replace_in_team(c.fighters, c.bench, Some(f), None);
}

/// Law: buying moves the fighter from a shop slot into an empty team slot
/// and charges its cost.
pub proof fn law_buy_moves_fighter_into_team(c: CombatView, s: ShopView, f: FighterInfo)
    requires
        can_buy(c, s, f),
    ensures
        ({
            let r = bought(c, s, f);
            &&& (r.0.fighters + r.0.bench).to_multiset() == (c.fighters + c.bench).to_multiset().remove(None).insert(Some(f))
            &&& r.1.fighters.to_multiset() == s.fighters.to_multiset().remove(Some(f)).insert(None)
            &&& r.0.gold == c.gold - f.cost
        }),
{
    lemma_replace_in_team(c.fighters, c.bench, None, Some(f));
    lemma_replace_first_multiset(s.fighters, Some(f), None);
}

/// Replacing the first `x` by a `y` that the slots lack, and then the first
/// `y` by `x`, gives back the slots.
pub proof fn lemma_replace_first_round_trip(s: Seq<Option<FighterInfo>>, x: Option<FighterInfo>, y: Option<FighterInfo>)
    requires
        s.contains(x),
        !s.contains(y),
    ensures
        replace_first(s, x, y).contains(y),
        replace_first(replace_first(s, x, y), y, x) == s,
{
    s.index_of_first_ensures(x);
    let i = s.index_of_first(x)->0;
    let t = s.update(i, y);
    assert(t[i] == y);
    t.index_of_first_ensures(y);
    let k = t.index_of_first(y)->0;
    if k != i {
        assert(s[k] == y);
    }
    assert(t.update(i, x) =~= s);
}

/// Law: selling a fighter just bought leaves the team with the same
/// fighters and empty slots as before the purchase, and exactly the team of
/// before when it held no copy of that fighter already (otherwise the copy
/// sold is the first one held, which may stand elsewhere); the player's gold
/// changes by the sell value minus the cost.
pub proof fn law_buy_then_sell_restores_team(c: CombatView, s: ShopView, f: FighterInfo)
    requires
        can_buy(c, s, f),
        c.gold - f.cost + sell_value(f.tier) <= u8::MAX,
    ensures
        ({
            let after_buy = bought(c, s, f).0;
            let after_sell = sold(after_buy, f);
            &&& can_sell(after_buy, f)
            &&& (after_sell.fighters + after_sell.bench).to_multiset() == (c.fighters + c.bench).to_multiset()
            &&& !team_holds(c.fighters, c.bench, Some(f)) ==> after_sell.fighters == c.fighters
                && after_sell.bench == c.bench
            &&& after_sell.gold == c.gold - f.cost + sell_value(f.tier)
        }),
{
    if !team_holds(c.fighters, c.bench, Some(f)) {
        if c.fighters.contains(None) {
            lemma_replace_first_round_trip(c.fighters, None, Some(f));
        } else {
            lemma_replace_first_round_trip(c.bench, None, Some(f));
        }
    }
    broadcast use vstd::multiset::group_multiset_axioms;

    let after_buy = bought(c, s, f).0;
    lemma_replace_in_team(c.fighters, c.bench, None, Some(f));
    let m = (c.fighters + c.bench).to_multiset();
    let m1 = (after_buy.fighters + after_buy.bench).to_multiset();
    assert(m1.count(Some(f)) > 0);
    vstd::seq_lib::to_multiset_contains(after_buy.fighters + after_buy.bench, Some(f));
    crate::team::lemma_concat_contains(after_buy.fighters, after_buy.bench, Some(f));
    lemma_replace_in_team(after_buy.fighters, after_buy.bench, Some(f), None);
    vstd::seq_lib::to_multiset_contains(c.fighters + c.bench, None);
    if !(c.fighters + c.bench).contains(None) {
        let k = if c.fighters.contains(None) {
            choose|k: int| 0 <= k < c.fighters.len() && c.fighters[k] == None::<FighterInfo>
        } else {
            choose|k: int| 0 <= k < c.bench.len() && c.bench[k] == None::<FighterInfo>
        };
        if c.fighters.contains(None) {
            assert((c.fighters + c.bench)[k] == None::<FighterInfo>);
        } else {
            assert((c.fighters + c.bench)[c.fighters.len() + k] == None::<FighterInfo>);
        }
    }
    assert(m.remove(None).insert(Some(f)).remove(Some(f)).insert(None) =~= m);
}

/// Law: a combined fighter's tier never exceeds nine, and it gains on the
/// big fighter's tier (up to that cap), health and attack.
pub proof fn law_combined_tier_capped(big: FighterInfo, smol: FighterInfo)
    requires
        big.tier < 9,
    ensures
        combined(big, smol).tier <= 9,
        combined(big, smol).tier >= big.tier,
        combined(big, smol).id == big.id,
{
}

/// Law: a round of battle never takes a fighter from the defending team: the
/// defender's front fighter is only damaged, never removed.
pub proof fn law_defender_keeps_its_fighters(att: Seq<Option<FighterInfo>>, def: Seq<Option<FighterInfo>>)
    requires
        has_fighter(att),
        has_fighter(def),
    ensures
        count_fighters(fight_round(att, def).1) == count_fighters(def),
        has_fighter(fight_round(att, def).1),
{
    lemma_first_fighter(def);
    let d = first_fighter(def);
    let next = fight_round(att, def);
    lemma_count_update(def, d, next.1[d]);
    assert(next.1[d] is Some);
}

/// Law: the attacking team wins a battle only when the defending team has no
/// fighter to begin with, and the battle is a draw only when neither team
/// has one; against a defending team with a fighter, every battle that ends
/// is lost.
pub proof fn law_victory_and_draw_need_empty_defence(att: Seq<Option<FighterInfo>>, def: Seq<Option<FighterInfo>>)
    ensures
        battle(att, def) == Some(BattleEnd::Victory) ==> has_fighter(att) && !has_fighter(def),
        battle(att, def) == Some(BattleEnd::Draw) ==> !has_fighter(att) && !has_fighter(def),
        battle(att, def) is Some && has_fighter(def) ==> battle(att, def) == Some(BattleEnd::Defeat),
    decreases count_fighters(att), round_measure(att, def),
{
    if att.len() > 0 && has_fighter(att) && def.len() > 0 && has_fighter(def) && round_ok(att, def) {
        lemma_round_progress(att, def);
        let next = fight_round(att, def);
        law_defender_keeps_its_fighters(att, def);
        law_victory_and_draw_need_empty_defence(next.0, next.1);
    }
}

/// Law: a battle round that can be fought but makes no progress removes no
/// attacking fighter, keeps both front fighters in their slots, and leaves
/// a battle whose next round again makes no progress; so no attacking
/// fighter ever falls and the battle never ends.
pub proof fn law_stalled_battle_stays_stalled(att: Seq<Option<FighterInfo>>, def: Seq<Option<FighterInfo>>)
    requires
        has_fighter(att),
        has_fighter(def),
        round_safe(att, def),
        !round_progresses(att, def),
    ensures
        ({
            let next = fight_round(att, def);
            &&& count_fighters(next.0) == count_fighters(att)
            &&& has_fighter(next.0)
            &&& has_fighter(next.1)
            &&& first_fighter(next.0) == first_fighter(att)
            &&& first_fighter(next.1) == first_fighter(def)
            &&& !round_progresses(next.0, next.1)
        }),
{
    let a = first_fighter(att);
    let d = first_fighter(def);
    lemma_first_fighter(att);
    lemma_first_fighter(def);
    let af = att[a]->0;
    let df = def[d]->0;
    let af2 = hit(af, df.attack);
    let df2 = hit(df, af.attack);
    let att1 = att.update(a, Some(af2));
    let def1 = def.update(d, Some(df2));
    lemma_count_update(att, a, Some(af2));
    let next = fight_round(att, def);
    if df2.health.attos <= 0 {
        assert(!attacker_holds(att, d));
        assert(att1[d] is None);
    }
    assert(next.0 =~= att1);
    assert(next.1 == def1);
    assert(is_first_fighter(att1, a));
    lemma_first_fighter_unique(att1, a);
    assert(is_first_fighter(def1, d));
    lemma_first_fighter_unique(def1, d);
    assert(has_fighter(att1)) by {
        assert(att1[a] is Some);
    }
    assert(has_fighter(def1)) by {
        assert(def1[d] is Some);
    }
    assert(attacker_holds(att1, d) == attacker_holds(att, d));
}

/// Law: the shop tier lies between one and six and never falls as the rounds
/// go by (from round one on).
pub proof fn law_shop_tier_rises(r1: u8, r2: u8)
    requires
        1 <= r1 <= r2,
    ensures
        1 <= tier_for_round(r1) <= 6,
        tier_for_round(r1) <= tier_for_round(r2),
{
}


/// Law: while both teams have a fighter, a battle is fought round by round.
/// When the health of both front fighters after their blows is an amount,
/// the round makes progress (the defending front fighter deals damage, the
/// attacking front fighter falls, or the attacking slot at the defender's
/// index holds a fighter and the attacker deals damage or the defender
/// falls), and, only when the defending front fighter falls, its index is a
/// slot of the attacking team, then the battle ends as the battle after
/// this round does.
pub proof fn law_battle_goes_round_by_round(att: Seq<Option<FighterInfo>>, def: Seq<Option<FighterInfo>>)
    requires
        has_fighter(att),
        has_fighter(def),
        ({
            let a = first_fighter(att);
            let d = first_fighter(def);
            let af = att[a]->0;
            let df = def[d]->0;
            let af_after = af.health.attos - df.attack.attos;
            let df_after = df.health.attos - af.attack.attos;
            &&& i128::MIN <= af_after <= i128::MAX
            &&& i128::MIN <= df_after <= i128::MAX
            &&& df_after <= 0 ==> d < att.len()
            &&& df.attack.attos > 0 || af_after <= 0 || (d < att.len() && att[d] is Some && (af.attack.attos
                > 0 || df_after <= 0))
        }),
    ensures
        battle(att, def) == battle(fight_round(att, def).0, fight_round(att, def).1),
{
    lemma_first_fighter(att);
    lemma_first_fighter(def);
    assert(round_ok(att, def));
}

/// Law: an attacking team with slots but no fighter left loses against a
/// defending team that still has one.
pub proof fn law_fallen_attackers_lose(att: Seq<Option<FighterInfo>>, def: Seq<Option<FighterInfo>>)
    requires
        att.len() > 0,
        forall|i: int| 0 <= i < att.len() ==> #[trigger] att[i] is None,
        0 <= first_fighter(def) < def.len(),
        def[first_fighter(def)] is Some,
    ensures
        battle(att, def) == Some(BattleEnd::Defeat),
{
    assert(has_fighter(def));
}

/// Law: when the attacking team's only fighter falls in a round that the
/// defending front fighter survives (both healths staying amounts), the
/// battle is a defeat, whatever the defending front fighter's index.
pub proof fn law_last_attacker_falling_is_defeat(att: Seq<Option<FighterInfo>>, def: Seq<Option<FighterInfo>>)
    requires
        count_fighters(att) == 1,
        has_fighter(def),
        ({
            let a = first_fighter(att);
            let d = first_fighter(def);
            let af = att[a]->0;
            let df = def[d]->0;
            let af_after = af.health.attos - df.attack.attos;
            let df_after = df.health.attos - af.attack.attos;
            &&& i128::MIN <= af_after <= 0
            &&& 0 < df_after <= i128::MAX
        }),
    ensures
        battle(att, def) == Some(BattleEnd::Defeat),
{
    lemma_count_positive_has_fighter(att);
    lemma_first_fighter(att);
    lemma_first_fighter(def);
    let a = first_fighter(att);
    let d = first_fighter(def);
    let af = att[a]->0;
    let df = def[d]->0;
    let next = fight_round(att, def);
    let af2 = hit(af, df.attack);
    let att1 = att.update(a, Some(af2));
    lemma_count_update(att, a, Some(af2));
    lemma_count_update(att1, a, None);
    assert(next.0 =~= att1.update(a, None));
    assert(count_fighters(next.0) == 0);
    lemma_count_positive_has_fighter(next.0);
    assert(next.1[d] is Some);
    law_battle_goes_round_by_round(att, def);
    law_fallen_attackers_lose_by_count(next.0, next.1, d);
}

/// A team with a fighter in some slot counts at least one fighter, and a
/// team that counts one has a fighter.
proof fn lemma_count_positive_has_fighter(s: Seq<Option<FighterInfo>>)
    ensures
        has_fighter(s) <==> count_fighters(s) > 0,
    decreases s.len(),
{
    if s.len() > 0 {
        lemma_count_positive_has_fighter(s.drop_first());
        if has_fighter(s) && s[0] is None {
            let k = choose|i: int| 0 <= i < s.len() && #[trigger] s[i] is Some;
            assert(s.drop_first()[k - 1] is Some);
        }
        if has_fighter(s.drop_first()) {
            let k = choose|i: int| 0 <= i < s.len() - 1 && #[trigger] s.drop_first()[i] is Some;
            assert(s[k + 1] is Some);
        }
        if s[0] is Some {
            assert(has_fighter(s)) by {
                assert(s[0] is Some);
            }
        }
    }
}

proof fn law_fallen_attackers_lose_by_count(att: Seq<Option<FighterInfo>>, def: Seq<Option<FighterInfo>>, d: int)
    requires
        att.len() > 0,
        !has_fighter(att),
        0 <= d < def.len(),
        def[d] is Some,
    ensures
        battle(att, def) == Some(BattleEnd::Defeat),
{
    assert(has_fighter(def));
}

/// Law: a stats ability aimed at the last enemy fighter gives the user's
/// health and attack to the enemy fighter in the last slot that holds one
/// (every later slot being empty), and changes no other slot of either team.
pub proof fn law_stats_on_last_enemy(
    team: Seq<Option<FighterInfo>>,
    user: int,
    enemy: Seq<Option<FighterInfo>>,
    summoned: Option<FighterInfo>,
    pick: int,
    i: int,
)
    requires
        combat_ability_ok(team, user, enemy, summoned, pick),
        team[user]->0.ability.effect is Stats,
        team[user]->0.ability.targeting == Targeting::Enemy(Position::Last),
        0 <= i < enemy.len(),
        enemy[i] is Some,
        forall|j: int| i < j < enemy.len() ==> #[trigger] enemy[j] is None,
    ensures
        ({
            let f = team[user]->0;
            let r = combat_ability_effect(team, user, enemy, summoned, pick);
            &&& r.0 == team
            &&& r.1.len() == enemy.len()
            &&& r.1[i] == Some(FighterInfo { health: f.health, attack: f.attack, ..enemy[i]->0 })
            &&& forall|j: int| 0 <= j < enemy.len() && j != i ==> r.1[j] == enemy[j]
        }),
{
    lemma_last_fighter_is(enemy, i);
}

/// Law: a stats ability aimed at the last allied fighter gives the user's
/// health and attack to the fighter in the last slot of the own team that
/// holds one, and changes no other slot of either team.
pub proof fn law_stats_on_last_ally(
    team: Seq<Option<FighterInfo>>,
    user: int,
    enemy: Seq<Option<FighterInfo>>,
    summoned: Option<FighterInfo>,
    pick: int,
    i: int,
)
    requires
        combat_ability_ok(team, user, enemy, summoned, pick),
        team[user]->0.ability.effect is Stats,
        team[user]->0.ability.targeting == Targeting::Ally(Position::Last),
        0 <= i < team.len(),
        team[i] is Some,
        forall|j: int| i < j < team.len() ==> #[trigger] team[j] is None,
    ensures
        ({
            let f = team[user]->0;
            let r = combat_ability_effect(team, user, enemy, summoned, pick);
            &&& r.1 == enemy
            &&& r.0.len() == team.len()
            &&& r.0[i] == Some(FighterInfo { health: f.health, attack: f.attack, ..team[i]->0 })
            &&& forall|j: int| 0 <= j < team.len() && j != i ==> r.0[j] == team[j]
        }),
{
    lemma_last_fighter_is(team, i);
}

/// Law: a stats ability aimed at the first enemy fighter gives the user's
/// health and attack to the enemy fighter in the first slot that holds one
/// (every earlier slot being empty), and changes no other slot.
pub proof fn law_stats_on_first_enemy(
    team: Seq<Option<FighterInfo>>,
    user: int,
    enemy: Seq<Option<FighterInfo>>,
    summoned: Option<FighterInfo>,
    pick: int,
    i: int,
)
    requires
        combat_ability_ok(team, user, enemy, summoned, pick),
        team[user]->0.ability.effect is Stats,
        team[user]->0.ability.targeting == Targeting::Enemy(Position::First),
        0 <= i < enemy.len(),
        enemy[i] is Some,
        forall|j: int| 0 <= j < i ==> #[trigger] enemy[j] is None,
    ensures
        ({
            let f = team[user]->0;
            let r = combat_ability_effect(team, user, enemy, summoned, pick);
            &&& r.0 == team
            &&& r.1.len() == enemy.len()
            &&& r.1[i] == Some(FighterInfo { health: f.health, attack: f.attack, ..enemy[i]->0 })
            &&& forall|j: int| 0 <= j < enemy.len() && j != i ==> r.1[j] == enemy[j]
        }),
{
    assert(is_first_fighter(enemy, i));
    lemma_first_fighter_unique(enemy, i);
}

/// The last slot that holds a fighter is the slot `last_fighter` names.
proof fn lemma_last_fighter_is(s: Seq<Option<FighterInfo>>, i: int)
    requires
        0 <= i < s.len(),
        s[i] is Some,
        forall|j: int| i < j < s.len() ==> #[trigger] s[j] is None,
    ensures
        last_fighter(s) == i,
{
    assert(is_last_fighter(s, i));
    let c = last_fighter(s);
    assert(is_last_fighter(s, c));
    if c < i {
        assert(s[i] is None);
    } else if i < c {
        assert(s[c] is None);
    }
}

/// Law: selling a fighter pays 1 gold for tiers one and two, 2 gold for
/// tiers three to eight, 3 gold for tier nine and nothing for any other
/// tier; a sale is allowed whenever the team holds the fighter and the
/// player's gold is at most 252.
pub proof fn law_sell_pays_by_tier(c: CombatView, s: ShopView, f: FighterInfo)
    ensures
        (c.fighters.contains(Some(f)) || c.bench.contains(Some(f))) && c.gold <= 252 ==> action_ok(
            c,
            s,
            Actions::Sell(f),
        ),
        action_ok(c, s, Actions::Sell(f)) ==> ({
            let after = action_effect(c, s, Actions::Sell(f)).0;
            &&& 1 <= f.tier <= 2 ==> after.gold == c.gold + 1
            &&& 3 <= f.tier <= 8 ==> after.gold == c.gold + 2
            &&& f.tier == 9 ==> after.gold == c.gold + 3
            &&& (f.tier == 0 || f.tier > 9) ==> after.gold == c.gold
        }),
{
}

/// Law: a purchase is allowed exactly when the shop offers the fighter, the
/// team has an empty active or bench slot and the player's gold is at least
/// the fighter's cost (gold equal to the cost included); it leaves the
/// player with the gold minus the cost.
pub proof fn law_buy_allowed_when_affordable(c: CombatView, s: ShopView, f: FighterInfo)
    ensures
        action_ok(c, s, Actions::Buy(f)) <==> (s.fighters.contains(Some(f)) && (c.fighters.contains(None)
            || c.bench.contains(None)) && c.gold >= f.cost),
        action_ok(c, s, Actions::Buy(f)) ==> action_effect(c, s, Actions::Buy(f)).0.gold == c.gold - f.cost,
{
}

/// Law: a defeat costs the player `health_on_loss` health whenever the
/// difference is an amount; when the game is not won already and the
/// health left is zero or less, the game is lost and its state ends, and
/// when health is left the game goes on.
pub proof fn law_defeat_costs_health(c: CombatView, game_data: GameData)
    requires
        i128::MIN <= c.player_health.attos - game_data.health_on_loss.attos <= i128::MAX,
    ensures
        can_record_battle(c, BattleEnd::Defeat, game_data),
        ({
            let left = c.player_health.attos - game_data.health_on_loss.attos;
            let (after, outcome) = battle_recorded(c, BattleEnd::Defeat, game_data);
            &&& after.player_health.attos == left
            &&& after.player_wins == c.player_wins
            &&& c.player_wins != game_data.wins_for_victory && left <= 0 ==> outcome == RoundOutcome::GameLost
                && !after.state
            &&& c.player_wins != game_data.wins_for_victory && left > 0 ==> outcome == RoundOutcome::Continues
                && after.state == c.state
        }),
{
}

/// Law: in one round of battle the two front fighters strike each other at
/// once. The defending front fighter stays in its slot with its health
/// lowered by the attacker's attack, and no other defending slot changes.
/// The attacking front fighter's health is lowered by the defender's
/// attack, and its slot is emptied when that leaves zero or less; when the
/// defending front fighter is left with zero or less, the attacking slot at
/// its index is emptied; no other attacking slot changes.
pub proof fn law_one_round(att: Seq<Option<FighterInfo>>, def: Seq<Option<FighterInfo>>)
    requires
        has_fighter(att),
        has_fighter(def),
        ({
            let af = att[first_fighter(att)]->0;
            let df = def[first_fighter(def)]->0;
            &&& i128::MIN <= af.health.attos - df.attack.attos <= i128::MAX
            &&& i128::MIN <= df.health.attos - af.attack.attos <= i128::MAX
            &&& df.health.attos - af.attack.attos <= 0 ==> first_fighter(def) < att.len()
        }),
    ensures
        ({
            let a = first_fighter(att);
            let d = first_fighter(def);
            let af = att[a]->0;
            let df = def[d]->0;
            let ah = af.health.attos - df.attack.attos;
            let dh = df.health.attos - af.attack.attos;
            let next = fight_round(att, def);
            &&& next.0.len() == att.len()
            &&& next.1.len() == def.len()
            &&& next.1[d] == Some(FighterInfo { health: Decimal { attos: dh as i128 }, ..df })
            &&& forall|j: int| 0 <= j < def.len() && j != d ==> next.1[j] == def[j]
            &&& ah <= 0 ==> next.0[a] is None
            &&& ah > 0 && !(dh <= 0 && d == a) ==> next.0[a] == Some(
                FighterInfo { health: Decimal { attos: ah as i128 }, ..af },
            )
            &&& dh <= 0 ==> next.0[d] is None
            &&& forall|j: int|
                0 <= j < att.len() && j != a && !(dh <= 0 && j == d) ==> next.0[j] == att[j]
        }),
{
    lemma_first_fighter(att);
    lemma_first_fighter(def);
}

/// Law: a battle against a defending team with slots but no fighter is won
/// when the attacking team has a fighter, and a draw when it has none.
pub proof fn law_empty_defence(att: Seq<Option<FighterInfo>>, def: Seq<Option<FighterInfo>>)
    requires
        att.len() > 0,
        def.len() > 0,
        forall|i: int| 0 <= i < def.len() ==> #[trigger] def[i] is None,
    ensures
        (exists|i: int| 0 <= i < att.len() && #[trigger] att[i] is Some) ==> battle(att, def) == Some(
            BattleEnd::Victory,
        ),
        (forall|i: int| 0 <= i < att.len() ==> #[trigger] att[i] is None) ==> battle(att, def) == Some(
            BattleEnd::Draw,
        ),
{
}

/// Law: a purchase puts the fighter in the first empty active slot and
/// changes no other slot of the team.
pub proof fn law_buy_fills_first_empty_active_slot(c: CombatView, s: ShopView, f: FighterInfo, i: int)
    requires
        action_ok(c, s, Actions::Buy(f)),
        0 <= i < c.fighters.len(),
        c.fighters[i] is None,
        forall|j: int| 0 <= j < i ==> #[trigger] c.fighters[j] is Some,
    ensures
        ({
            let after = action_effect(c, s, Actions::Buy(f)).0;
            &&& after.fighters.len() == c.fighters.len()
            &&& after.fighters[i] == Some(f)
            &&& forall|j: int| 0 <= j < c.fighters.len() && j != i ==> after.fighters[j] == c.fighters[j]
            &&& after.bench == c.bench
        }),
{
    assert(c.fighters.contains(None));
    lemma_first_index_is(c.fighters, None, i);
}

/// Law: when every active slot holds a fighter, a purchase puts the fighter
/// in the first empty bench slot and changes no other slot of the team.
pub proof fn law_buy_fills_first_empty_bench_slot(c: CombatView, s: ShopView, f: FighterInfo, i: int)
    requires
        action_ok(c, s, Actions::Buy(f)),
        forall|j: int| 0 <= j < c.fighters.len() ==> #[trigger] c.fighters[j] is Some,
        0 <= i < c.bench.len(),
        c.bench[i] is None,
        forall|j: int| 0 <= j < i ==> #[trigger] c.bench[j] is Some,
    ensures
        ({
            let after = action_effect(c, s, Actions::Buy(f)).0;
            &&& after.fighters == c.fighters
            &&& after.bench.len() == c.bench.len()
            &&& after.bench[i] == Some(f)
            &&& forall|j: int| 0 <= j < c.bench.len() && j != i ==> after.bench[j] == c.bench[j]
        }),
{
    if c.fighters.contains(None) {
        let k = choose|k: int| 0 <= k < c.fighters.len() && c.fighters[k] == None::<FighterInfo>;
        assert(c.fighters[k] is Some);
    }
    lemma_first_index_is(c.bench, None, i);
}

/// The first slot equal to `x` is the one `index_of_first` names.
proof fn lemma_first_index_is(s: Seq<Option<FighterInfo>>, x: Option<FighterInfo>, i: int)
    requires
        0 <= i < s.len(),
        s[i] == x,
        forall|j: int| 0 <= j < i ==> #[trigger] s[j] != x,
    ensures
        s.index_of_first(x) == Some(i),
{
    s.index_of_first_ensures(x);
    assert(s.contains(x));
    let k = s.index_of_first(x)->0;
    if k < i {
        assert(s[k] != x);
    } else if i < k {
        assert(s[i] == x);
    }
}

/// Law: using gear on an active fighter gives the fighter's first active
/// slot one more health and one more attack, changes no other slot of the
/// team, and charges the gear's cost.
pub proof fn law_gear_adds_one_health_and_attack(c: CombatView, s: ShopView, g: GearInfo, f: FighterInfo, i: int)
    requires
        action_ok(c, s, Actions::Use((g, f))),
        0 <= i < c.fighters.len(),
        c.fighters[i] == Some(f),
        forall|j: int| 0 <= j < i ==> #[trigger] c.fighters[j] != Some(f),
    ensures
        ({
            let after = action_effect(c, s, Actions::Use((g, f))).0;
            &&& after.gold == c.gold - g.cost
            &&& after.fighters.len() == c.fighters.len()
            &&& after.fighters[i] == Some(
                FighterInfo {
                    health: Decimal { attos: (f.health.attos + 1_000_000_000_000_000_000) as i128 },
                    attack: Decimal { attos: (f.attack.attos + 1_000_000_000_000_000_000) as i128 },
                    ..f
                },
            )
            &&& forall|j: int| 0 <= j < c.fighters.len() && j != i ==> after.fighters[j] == c.fighters[j]
            &&& after.bench == c.bench
        }),
{
    lemma_first_index_is(c.fighters, Some(f), i);
    assert(ONE_ATTOS == 1_000_000_000_000_000_000);
}

/// Law: combining adds the two tiers up to at most nine, and gives the big
/// fighter one more health and attack (in whole units) for a fodder fighter
/// of tier one or two, two more for any higher tier.
pub proof fn law_combine_gains(big: FighterInfo, smol: FighterInfo)
    ensures
        combined(big, smol).tier == if big.tier + smol.tier > 9 { 9 } else { big.tier + smol.tier },
        combined(big, smol).id == big.id,
        smol.tier <= 2 ==> combined(big, smol).health.attos == (big.health.attos + 1_000_000_000_000_000_000) as i128
            && combined(big, smol).attack.attos == (big.attack.attos + 1_000_000_000_000_000_000) as i128,
        smol.tier > 2 ==> combined(big, smol).health.attos == (big.health.attos + 2_000_000_000_000_000_000) as i128
            && combined(big, smol).attack.attos == (big.attack.attos + 2_000_000_000_000_000_000) as i128,
{
    assert(ONE_ATTOS == 1_000_000_000_000_000_000);
}

/// Law: a combination that buys the fodder fighter charges its cost; one
/// that takes it from the team leaves the gold as it was.
pub proof fn law_combine_gold(c: CombatView, s: ShopView, big: FighterInfo, smol: FighterInfo, buy: bool)
    requires
        action_ok(c, s, Actions::Combine((big, smol, buy))),
    ensures
        buy ==> action_effect(c, s, Actions::Combine((big, smol, buy))).0.gold == c.gold - smol.cost,
        !buy ==> action_effect(c, s, Actions::Combine((big, smol, buy))).0.gold == c.gold,
{
}

/// Law: a victory adds one win whenever the count fits, keeps the player's
/// health, and wins the game when the count reaches the wins needed; a draw
/// changes neither health nor wins.
pub proof fn law_victory_and_draw_recorded(c: CombatView, game_data: GameData)
    ensures
        c.player_wins < 255 ==> can_record_battle(c, BattleEnd::Victory, game_data),
        can_record_battle(c, BattleEnd::Draw, game_data),
        c.player_wins < 255 ==> ({
            let (after, outcome) = battle_recorded(c, BattleEnd::Victory, game_data);
            &&& after.player_wins == c.player_wins + 1
            &&& after.player_health == c.player_health
            &&& c.player_wins + 1 == game_data.wins_for_victory ==> outcome == RoundOutcome::GameWon && !after.state
        }),
        ({
            let (after, outcome) = battle_recorded(c, BattleEnd::Draw, game_data);
            &&& after.player_wins == c.player_wins
            &&& after.player_health == c.player_health
            &&& c.player_wins != game_data.wins_for_victory && c.player_health.attos > 0 ==> outcome
                == RoundOutcome::Continues && after.state == c.state
        }),
{
}

/// Law: a stats ability aimed at the enemy fighter with the most (or least)
/// health (or attack) changes the first enemy slot whose fighter has the
/// most (least) of that stat, every fighter before it having strictly less
/// (more), provided that fighter's stat beats the search's start (is above
/// zero for the most, below the largest amount for the least); that slot
/// gets the user's health and attack, and no other slot changes.
pub proof fn law_stats_on_ranked_enemy(
    team: Seq<Option<FighterInfo>>,
    user: int,
    enemy: Seq<Option<FighterInfo>>,
    summoned: Option<FighterInfo>,
    pick: int,
    p: Position,
    i: int,
)
    requires
        combat_ability_ok(team, user, enemy, summoned, pick),
        team[user]->0.ability.effect is Stats,
        team[user]->0.ability.targeting == Targeting::Enemy(p),
        p is MostHP || p is LeastHP || p is MostATK || p is LeastATK,
        0 <= i < enemy.len(),
        enemy[i] is Some,
        ({
            let health = p is MostHP || p is LeastHP;
            let most = p is MostHP || p is MostATK;
            let v = if health { enemy[i]->0.health.attos } else { enemy[i]->0.attack.attos };
            &&& most ==> v > 0
            &&& !most ==> v < i128::MAX
            &&& forall|j: int|
                0 <= j < enemy.len() && #[trigger] enemy[j] is Some ==> {
                    let w = if health { enemy[j]->0.health.attos } else { enemy[j]->0.attack.attos };
                    &&& most ==> w <= v
                    &&& !most ==> v <= w
                    &&& j < i && most ==> w < v
                    &&& j < i && !most ==> v < w
                }
        }),
    ensures
        ({
            let f = team[user]->0;
            let r = combat_ability_effect(team, user, enemy, summoned, pick);
            &&& r.0 == team
            &&& r.1.len() == enemy.len()
            &&& r.1[i] == Some(FighterInfo { health: f.health, attack: f.attack, ..enemy[i]->0 })
            &&& forall|j: int| 0 <= j < enemy.len() && j != i ==> r.1[j] == enemy[j]
        }),
{
    let health = p is MostHP || p is LeastHP;
    let most = p is MostHP || p is MostATK;
    assert(is_best_slot(enemy, i, health, most));
    assert(has_candidate(enemy, health, most));
    let c = choose|k: int| is_best_slot(enemy, k, health, most);
    lemma_best_slot_unique(enemy, c, i, health, most);
    assert(best_slot(enemy, health, most) == i);
}

/// Law: a stats ability aimed at a specific enemy slot changes that slot
/// when it holds a fighter, and otherwise the first enemy slot that holds
/// one; no other slot changes.
pub proof fn law_stats_on_specific_enemy(
    team: Seq<Option<FighterInfo>>,
    user: int,
    enemy: Seq<Option<FighterInfo>>,
    summoned: Option<FighterInfo>,
    pick: int,
    z: usize,
    i: int,
)
    requires
        combat_ability_ok(team, user, enemy, summoned, pick),
        team[user]->0.ability.effect is Stats,
        team[user]->0.ability.targeting == Targeting::Enemy(Position::Specific(z)),
        0 <= i < enemy.len(),
        enemy[i] is Some,
        enemy[z as int] is Some ==> i == z,
        enemy[z as int] is None ==> forall|j: int| 0 <= j < i ==> #[trigger] enemy[j] is None,
    ensures
        ({
            let f = team[user]->0;
            let r = combat_ability_effect(team, user, enemy, summoned, pick);
            &&& r.0 == team
            &&& r.1.len() == enemy.len()
            &&& r.1[i] == Some(FighterInfo { health: f.health, attack: f.attack, ..enemy[i]->0 })
            &&& forall|j: int| 0 <= j < enemy.len() && j != i ==> r.1[j] == enemy[j]
        }),
{
    if enemy[z as int] is None {
        assert(is_first_fighter(enemy, i));
        lemma_first_fighter_unique(enemy, i);
    }
}

/// Law: a stats ability aimed at the user itself gives the user its own
/// health and attack, leaving both teams as they were.
pub proof fn law_stats_on_user_changes_nothing(
    team: Seq<Option<FighterInfo>>,
    user: int,
    enemy: Seq<Option<FighterInfo>>,
    summoned: Option<FighterInfo>,
    pick: int,
)
    requires
        combat_ability_ok(team, user, enemy, summoned, pick),
        team[user]->0.ability.effect is Stats,
        team[user]->0.ability.targeting == Targeting::User,
        team.len() <= usize::MAX,
    ensures
        combat_ability_effect(team, user, enemy, summoned, pick) == (team, enemy),
{
    let f = team[user]->0;
    assert((user as usize) as int == user);
    assert(FighterInfo { health: f.health, attack: f.attack, ..f } == f);
    let r = combat_ability_effect(team, user, enemy, summoned, pick);
    assert(r.0 =~= team);
}

/// Law: a stats ability aimed at a random enemy slot changes the slot the
/// draw settled on, and no other.
pub proof fn law_stats_on_random_enemy(
    team: Seq<Option<FighterInfo>>,
    user: int,
    enemy: Seq<Option<FighterInfo>>,
    summoned: Option<FighterInfo>,
    pick: int,
)
    requires
        combat_ability_ok(team, user, enemy, summoned, pick),
        team[user]->0.ability.effect is Stats,
        team[user]->0.ability.targeting == Targeting::Enemy(Position::Random),
    ensures
        ({
            let f = team[user]->0;
            let r = combat_ability_effect(team, user, enemy, summoned, pick);
            &&& r.0 == team
            &&& r.1.len() == enemy.len()
            &&& r.1[pick] == Some(FighterInfo { health: f.health, attack: f.attack, ..enemy[pick]->0 })
            &&& forall|j: int| 0 <= j < enemy.len() && j != pick ==> r.1[j] == enemy[j]
        }),
{
}

/// Law: a summon in battle aimed at the enemy puts the summoned fighter in
/// the first empty enemy slot, changing no other slot of either team; a
/// full enemy team stays as it was.
pub proof fn law_battle_summon_fills_first_empty_enemy_slot(
    team: Seq<Option<FighterInfo>>,
    user: int,
    enemy: Seq<Option<FighterInfo>>,
    summoned: Option<FighterInfo>,
    pick: int,
    i: int,
)
    requires
        combat_ability_ok(team, user, enemy, summoned, pick),
        team[user]->0.ability.effect is Summon,
        team[user]->0.ability.targeting is Enemy,
        0 <= i <= enemy.len(),
        i < enemy.len() ==> enemy[i] is None,
        forall|j: int| 0 <= j < i ==> #[trigger] enemy[j] is Some,
    ensures
        ({
            let r = combat_ability_effect(team, user, enemy, summoned, pick);
            &&& r.0 == team
            &&& r.1.len() == enemy.len()
            &&& i < enemy.len() ==> r.1[i] == summoned
            &&& forall|j: int| 0 <= j < enemy.len() && j != i ==> r.1[j] == enemy[j]
        }),
{
    if i < enemy.len() {
        lemma_first_index_is(enemy, None, i);
    } else {
        enemy.index_of_first_ensures(None);
        if enemy.contains(None) {
            let k = choose|k: int| 0 <= k < enemy.len() && enemy[k] == None::<FighterInfo>;
            assert(enemy[k] is Some);
        }
    }
}

/// Law: a summon in battle aimed at the own team puts the summoned fighter
/// in the first empty slot of that team, changing no other slot of either
/// team; a full team stays as it was.
pub proof fn law_battle_summon_fills_first_empty_own_slot(
    team: Seq<Option<FighterInfo>>,
    user: int,
    enemy: Seq<Option<FighterInfo>>,
    summoned: Option<FighterInfo>,
    pick: int,
    i: int,
)
    requires
        combat_ability_ok(team, user, enemy, summoned, pick),
        team[user]->0.ability.effect is Summon,
        !(team[user]->0.ability.targeting is Enemy),
        0 <= i <= team.len(),
        i < team.len() ==> team[i] is None,
        forall|j: int| 0 <= j < i ==> #[trigger] team[j] is Some,
    ensures
        ({
            let r = combat_ability_effect(team, user, enemy, summoned, pick);
            &&& r.1 == enemy
            &&& r.0.len() == team.len()
            &&& i < team.len() ==> r.0[i] == summoned
            &&& forall|j: int| 0 <= j < team.len() && j != i ==> r.0[j] == team[j]
        }),
{
    if i < team.len() {
        lemma_first_index_is(team, None, i);
    } else {
        team.index_of_first_ensures(None);
        if team.contains(None) {
            let k = choose|k: int| 0 <= k < team.len() && team[k] == None::<FighterInfo>;
            assert(team[k] is Some);
        }
    }
}

} // verus!
