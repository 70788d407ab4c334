use auto_chess::combat::{check_combat_end, combat, try_combat};
use auto_chess::decimal::{Decimal, ONE_ATTOS};
use auto_chess::structs::{AbilityInfo, AbilityTypes, Activation, BattleEnd, FighterInfo, Targeting};

fn dec(n: i128) -> Decimal {
    Decimal::from_attos(n * ONE_ATTOS)
}

fn fighter(id: u128, health: i128, attack: i128) -> FighterInfo {
    FighterInfo {
        id,
        tier: 1,
        health: dec(health),
        attack: dec(attack),
        ability: AbilityInfo {
            effect: AbilityTypes::Gold,
            activation: Activation::Passive,
            summon: None,
            gold: None,
            stats: None,
            exp: None,
            targeting: Targeting::User,
            times: 1,
            repetition: 0,
        },
        gear: 0,
        cost: 1,
    }
}

#[test]
fn check_end_reports_first_living_fighter() {
    let a = fighter(1, 3, 2);
    assert_eq!(check_combat_end(vec![None, None, Some(a), Some(a)], vec![None]), (false, false, 2));
}

#[test]
fn check_end_reports_whether_other_team_lives() {
    let a = fighter(1, 3, 2);
    assert_eq!(check_combat_end(vec![None, None], vec![None, Some(a)]), (true, true, 0));
    assert_eq!(check_combat_end(vec![None], vec![None, None]), (true, false, 0));
}

#[test]
fn battle_lost_by_the_attacker() {
    // 3/2 against 5/1: after three rounds the attacker falls.
    let a = fighter(1, 3, 2);
    let d = fighter(2, 5, 1);
    assert_eq!(combat(vec![Some(a)], vec![Some(d)]), BattleEnd::Defeat);
}

#[test]
fn battle_against_empty_defence_is_won() {
    let a = fighter(1, 3, 2);
    assert_eq!(combat(vec![None, Some(a)], vec![None, None]), BattleEnd::Victory);
}

#[test]
fn battle_between_empty_teams_is_drawn() {
    assert_eq!(combat(vec![None], vec![None, None]), BattleEnd::Draw);
}

#[test]
fn fallen_defender_empties_the_attackers_slot_at_its_index() {
    // The defender's front fighter stands in slot 1; when it falls the
    // attacker loses its own slot 1, and the defender fights on.
    let a = fighter(1, 100, 10);
    let b = fighter(2, 100, 10);
    let d = fighter(3, 5, 1);
    assert_eq!(combat(vec![Some(a), Some(b)], vec![None, Some(d)]), BattleEnd::Defeat);
}

#[test]
fn harmless_defender_still_falls() {
    // The defender deals no damage, but the attacker wears it down; its fall
    // empties the attacker's own slot at the same index, so the attacker loses.
    let a = fighter(1, 3, 2);
    let harmless = fighter(2, 5, 0);
    assert_eq!(try_combat(vec![Some(a)], vec![Some(harmless)]), Some(BattleEnd::Defeat));
    assert_eq!(combat(vec![Some(a)], vec![Some(harmless)]), BattleEnd::Defeat);
    // A defender that heals the attacker still falls, and takes the
    // attacker's slot with it.
    let healer = fighter(5, 5, -1);
    assert_eq!(combat(vec![Some(a)], vec![Some(healer)]), BattleEnd::Defeat);
}

#[test]
fn battle_that_cannot_end_is_refused() {
    let a = fighter(1, 3, 2);
    let harmless = fighter(2, 5, 0);
    // Neither front fighter deals damage: the battle would go on for ever.
    let idle = fighter(3, 3, 0);
    assert_eq!(try_combat(vec![Some(idle)], vec![Some(harmless)]), None);
    // The defender deals no damage and its fall would empty an empty slot.
    assert_eq!(try_combat(vec![None, Some(a)], vec![Some(harmless)]), None);
    assert_eq!(try_combat(Vec::new(), vec![Some(harmless)]), None);
    assert_eq!(try_combat(vec![Some(a)], Vec::new()), None);
    // The defender's fallen front fighter stands at an index the attacker lacks.
    let weak = fighter(4, 1, 1);
    assert_eq!(try_combat(vec![Some(a)], vec![None, Some(weak)]), None);
}

#[test]
fn try_combat_agrees_with_combat() {
    let a = fighter(1, 4, 3);
    let d = fighter(2, 7, 2);
    assert_eq!(try_combat(vec![Some(a)], vec![Some(d)]), Some(BattleEnd::Defeat));
}
