use auto_chess::abilities::{
    combat_abilities, combat_summon_fighter, exp_grant, find_most_least_stat, gold_grant, non_combat_abilities,
    random_target_accepted, stat_change, summon_fighter,
};
use auto_chess::decimal::{Decimal, ONE_ATTOS};
use auto_chess::structs::{
    AbilityInfo, AbilityTypes, Activation, Choices, Combat, FighterInfo, Position, Targeting,
};

fn dec(n: i128) -> Decimal {
    Decimal::from_attos(n * ONE_ATTOS)
}

fn ability(effect: AbilityTypes, targeting: Targeting) -> AbilityInfo {
    AbilityInfo {
        effect,
        activation: Activation::Passive,
        summon: Some((7, 1)),
        gold: Some(3),
        stats: Some((dec(9), dec(8))),
        exp: Some(4),
        targeting,
        times: 1,
        repetition: 0,
    }
}

fn fighter(id: u128, health: i128, attack: i128, effect: AbilityTypes, targeting: Targeting) -> FighterInfo {
    FighterInfo {
        id,
        tier: 1,
        health: dec(health),
        attack: dec(attack),
        ability: ability(effect, targeting),
        gear: 0,
        cost: 1,
    }
}

fn plain(id: u128, health: i128, attack: i128) -> FighterInfo {
    fighter(id, health, attack, AbilityTypes::Gear, Targeting::User)
}

fn combat(fighters: Vec<Option<FighterInfo>>, bench: Vec<Option<FighterInfo>>, gold: u8) -> Combat {
    Combat {
        state: true,
        round: 1,
        shop_tier: 1,
        fighters,
        bench,
        next_round_choice: Choices::NoChoice,
        gold,
        player_health: dec(100),
        player_wins: 0,
        next_enemy: None,
    }
}

#[test]
fn gold_stats_and_tier_grants() {
    let c = gold_grant(combat(vec![], vec![], 5), 3);
    assert_eq!(c.gold, 8);
    let f = plain(1, 2, 2);
    let g = stat_change(f, dec(6), dec(7));
    assert_eq!((g.health, g.attack, g.id), (dec(6), dec(7), 1));
    assert_eq!(exp_grant(f, 5).tier, 5);
}

#[test]
fn summons_fill_the_first_empty_slot() {
    let a = plain(1, 2, 2);
    let s = plain(9, 1, 1);
    let c = summon_fighter(combat(vec![Some(a), None, None], vec![None], 0), s);
    assert_eq!(c.fighters, vec![Some(a), Some(s), None]);
    let c = summon_fighter(combat(vec![Some(a)], vec![Some(a), None], 0), s);
    assert_eq!(c.fighters, vec![Some(a)]);
    assert_eq!(c.bench, vec![Some(a), Some(s)]);
    let full = summon_fighter(combat(vec![Some(a)], vec![Some(a)], 0), s);
    assert_eq!(full.bench, vec![Some(a)]);
    assert_eq!(combat_summon_fighter(vec![Some(a)], vec![None, Some(a)], s, false), vec![Some(s), Some(a)]);
    assert_eq!(combat_summon_fighter(vec![Some(a), None], vec![None], s, true), vec![Some(a), Some(s)]);
}

#[test]
fn non_combat_abilities_apply_their_effect() {
    let exp = fighter(1, 2, 2, AbilityTypes::Exp, Targeting::User);
    let c = non_combat_abilities(combat(vec![Some(exp)], vec![], 0), 0, None);
    assert_eq!(c.fighters[0].unwrap().tier, 4);

    let gold = fighter(2, 2, 2, AbilityTypes::Gold, Targeting::User);
    let c = non_combat_abilities(combat(vec![Some(gold)], vec![], 10), 0, None);
    assert_eq!(c.gold, 13);

    let stats = fighter(3, 2, 2, AbilityTypes::Stats, Targeting::User);
    let c = non_combat_abilities(combat(vec![Some(stats)], vec![], 0), 0, None);
    assert_eq!((c.fighters[0].unwrap().health, c.fighters[0].unwrap().attack), (dec(9), dec(8)));

    let summoner = fighter(4, 2, 2, AbilityTypes::Summon, Targeting::User);
    let s = plain(7, 1, 1);
    let c = non_combat_abilities(combat(vec![Some(summoner), None], vec![None], 0), 0, Some(s));
    assert_eq!(c.fighters, vec![Some(summoner), Some(s)]);

    let gear = fighter(5, 2, 2, AbilityTypes::Gear, Targeting::User);
    let before = combat(vec![Some(gear)], vec![None], 1);
    assert_eq!(non_combat_abilities(before.clone(), 0, None), before);
}

#[test]
fn stat_search_finds_first_extreme() {
    let team = vec![Some(plain(1, 3, 5)), None, Some(plain(2, 7, 1)), Some(plain(3, 7, 9))];
    assert_eq!(find_most_least_stat(team.clone(), true, true), 2);
    assert_eq!(find_most_least_stat(team.clone(), true, false), 0);
    assert_eq!(find_most_least_stat(team.clone(), false, true), 3);
    assert_eq!(find_most_least_stat(team.clone(), false, false), 2);
    // No positive health: the search for the most settles on slot zero.
    let weak = vec![None, Some(plain(4, -1, 0))];
    assert_eq!(find_most_least_stat(weak, true, true), 0);
}

#[test]
fn least_search_starts_from_the_largest_amount() {
    let mut top = plain(5, 1, 1);
    top.health = Decimal::from_attos(i128::MAX);
    // Nothing lies below the largest amount: the search settles on slot zero,
    // though that slot is empty.
    assert_eq!(find_most_least_stat(vec![None, Some(top)], true, false), 0);
    // A fighter below the largest amount is found after one that holds it.
    assert_eq!(find_most_least_stat(vec![Some(top), Some(plain(6, 4, 1))], true, false), 1);
    // Attack is searched the same way.
    let mut strong = plain(7, 1, 1);
    strong.attack = Decimal::from_attos(i128::MAX);
    assert_eq!(find_most_least_stat(vec![None, Some(strong), Some(strong)], false, false), 0);
}

#[test]
fn stats_ability_copies_user_stats_onto_target() {
    let user = fighter(1, 6, 4, AbilityTypes::Stats, Targeting::Enemy(Position::First));
    let e1 = plain(2, 10, 10);
    let (own, enemy) = combat_abilities(vec![Some(user)], 0, vec![None, Some(e1)], None, 0);
    assert_eq!(own, vec![Some(user)]);
    let mut changed = e1;
    changed.health = dec(6);
    changed.attack = dec(4);
    assert_eq!(enemy, vec![None, Some(changed)]);
}

#[test]
fn stats_ability_on_most_attack_ally() {
    let user = fighter(1, 6, 4, AbilityTypes::Stats, Targeting::Ally(Position::MostATK));
    let ally = plain(2, 1, 9);
    let (own, enemy) = combat_abilities(vec![Some(user), Some(ally)], 0, vec![None], None, 0);
    let mut changed = ally;
    changed.health = dec(6);
    changed.attack = dec(4);
    assert_eq!(own, vec![Some(user), Some(changed)]);
    assert_eq!(enemy, vec![None]);
}

#[test]
fn summon_ability_in_battle() {
    let user = fighter(1, 6, 4, AbilityTypes::Summon, Targeting::Enemy(Position::Last));
    let s = plain(7, 1, 1);
    let e1 = plain(2, 10, 10);
    let (own, enemy) = combat_abilities(vec![Some(user)], 0, vec![Some(e1), None], Some(s), 0);
    assert_eq!(own, vec![Some(user)]);
    assert_eq!(enemy, vec![Some(e1), Some(s)]);
    let self_summon = fighter(1, 6, 4, AbilityTypes::Summon, Targeting::User);
    let (own, _) = combat_abilities(vec![Some(self_summon), None], 0, vec![Some(e1)], Some(s), 0);
    assert_eq!(own, vec![Some(self_summon), Some(s)]);
}

#[test]
fn random_target_is_drawn_until_it_holds_a_fighter() {
    let user = fighter(1, 6, 4, AbilityTypes::Stats, Targeting::Enemy(Position::Random));
    let e1 = plain(2, 10, 10);
    let team = vec![Some(user)];
    let enemy = vec![None, Some(e1), None];
    assert!(!random_target_accepted(&team, 0, &enemy, 0));
    assert!(random_target_accepted(&team, 0, &enemy, 1));
    assert!(!random_target_accepted(&team, 0, &enemy, 5));
    let (_, after) = combat_abilities(team, 0, enemy, None, 1);
    assert_eq!(after[1].unwrap().health, dec(6));
}

#[test]
fn other_effects_change_nothing_in_battle() {
    let user = fighter(1, 6, 4, AbilityTypes::Gold, Targeting::Ally(Position::Specific(0)));
    let (own, enemy) = combat_abilities(vec![Some(user)], 0, vec![None], None, 0);
    assert_eq!(own, vec![Some(user)]);
    assert_eq!(enemy, vec![None]);
}
