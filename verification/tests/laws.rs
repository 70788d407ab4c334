use auto_chess::actions::{buy_fighter, perform_action, sell_fighter, combine_fighters};
use auto_chess::decimal::{Decimal, ONE_ATTOS};
use auto_chess::gameplay::shop_tier_for_round;
use auto_chess::structs::{
    AbilityInfo, AbilityTypes, Actions, Activation, Choices, Combat, FighterInfo, GearInfo, Shop, Targeting,
};

fn dec(n: i128) -> Decimal {
    Decimal::from_attos(n * ONE_ATTOS)
}

fn fighter(id: u128, tier: u8, cost: u8) -> FighterInfo {
    FighterInfo {
        id,
        tier,
        health: dec(2),
        attack: dec(2),
        ability: AbilityInfo {
            effect: AbilityTypes::Gold,
            activation: Activation::Passive,
            summon: None,
            gold: None,
            stats: None,
            exp: None,
            targeting: Targeting::User,
            times: 1,
            repetition: 0,
        },
        gear: 0,
        cost,
    }
}

fn combat(fighters: Vec<Option<FighterInfo>>, bench: Vec<Option<FighterInfo>>, gold: u8) -> Combat {
    Combat {
        state: true,
        round: 1,
        shop_tier: 1,
        fighters,
        bench,
        next_round_choice: Choices::NoChoice,
        gold,
        player_health: dec(100),
        player_wins: 0,
        next_enemy: None,
    }
}

fn members(c: &Combat) -> Vec<(u128, u8)> {
    let mut v: Vec<(u128, u8)> =
        c.fighters.iter().chain(c.bench.iter()).map(|s| s.map(|f| (f.id + 1, f.tier)).unwrap_or((0, 0))).collect();
    v.sort();
    v
}

#[test]
fn buying_then_selling_restores_the_team() {
    let a = fighter(1, 1, 1);
    let b = fighter(2, 3, 2);
    let c = combat(vec![Some(b), Some(a), None], vec![None, Some(b)], 6);
    let shop = Shop { fighters: vec![None, Some(b)], gear: vec![] };
    let (bought, _) = buy_fighter(c.clone(), b, shop);
    let sold = sell_fighter(bought, b);
    assert_eq!(members(&sold), members(&c));
    assert_eq!(sold.gold, 6 - 2 + 2);
    // The copy sold is the first one held, not the one just bought.
    assert_eq!(sold.fighters, vec![None, Some(a), Some(b)]);
}

#[test]
fn shop_actions_keep_slot_counts() {
    let a = fighter(1, 1, 1);
    let big = fighter(3, 2, 1);
    let gear = GearInfo { id: 5, tier: 1, cost: 1 };
    let c = combat(vec![Some(a), Some(big), None], vec![None, Some(big)], 9);
    let shop = Shop { fighters: vec![Some(big), None], gear: vec![Some(gear), None, Some(gear)] };
    let actions = vec![
        Actions::Sell(a),
        Actions::Buy(big),
        Actions::Use((gear, a)),
        Actions::Combine((big, big, false)),
        Actions::SetFighters((vec![None, Some(big), Some(a), Some(a)], vec![Some(big), None])),
    ];
    for action in actions {
        let (c2, s2) = perform_action(c.clone(), shop.clone(), action).unwrap();
        assert_eq!((c2.fighters.len(), c2.bench.len()), (3, 2));
        assert_eq!((s2.fighters.len(), s2.gear.len()), (2, 3));
    }
}

#[test]
fn set_positions_keeps_members() {
    let a = fighter(1, 1, 1);
    let b = fighter(2, 2, 1);
    let c = combat(vec![Some(a), None], vec![Some(b)], 0);
    let r = perform_action(c.clone(), Shop { fighters: vec![], gear: vec![] },
        Actions::SetFighters((vec![Some(b), Some(a)], vec![None]))).unwrap().0;
    assert_eq!(members(&r), members(&c));
    assert!(perform_action(c, Shop { fighters: vec![], gear: vec![] },
        Actions::SetFighters((vec![Some(b), Some(b)], vec![None]))).is_none());
}

#[test]
fn combined_tier_is_capped_at_nine() {
    let big = fighter(1, 8, 1);
    let smol = fighter(1, 7, 1);
    let c = combat(vec![Some(big)], vec![Some(smol)], 0);
    let (r, _) = combine_fighters(c, big, smol, Shop { fighters: vec![], gear: vec![] }, false);
    let combined = r.fighters[0].unwrap();
    assert_eq!(combined.tier, 9);
    assert_eq!(combined.health, dec(4));
    assert_eq!(r.bench, vec![None]);
}

#[test]
fn shop_tier_never_falls() {
    let mut last: u8 = 1;
    for round in 1..=255u8 {
        let t = shop_tier_for_round(round);
        assert!(1 <= t && t <= 6 && t >= last);
        last = t;
    }
}

#[test]
fn buying_then_selling_a_new_fighter_restores_the_team_exactly() {
    let a = fighter(1, 1, 1);
    let b = fighter(2, 3, 2);
    let c = combat(vec![Some(a), None, None], vec![None], 6);
    let shop = Shop { fighters: vec![Some(b)], gear: vec![] };
    let (bought, _) = buy_fighter(c.clone(), b, shop);
    assert_eq!(bought.fighters, vec![Some(a), Some(b), None]);
    let sold = sell_fighter(bought, b);
    assert_eq!(sold.fighters, c.fighters);
    assert_eq!(sold.bench, c.bench);
    assert_eq!(sold.gold, c.gold);
}

#[test]
fn actions_clone_to_equal_actions() {
    let a = fighter(1, 1, 1);
    let b = fighter(2, 2, 1);
    let all = vec![
        Actions::Sell(a),
        Actions::Buy(b),
        Actions::Use((GearInfo { id: 4, tier: 1, cost: 1 }, a)),
        Actions::SetFighters((vec![Some(a), None], vec![Some(b)])),
        Actions::Combine((a, b, true)),
    ];
    for action in all {
        assert_eq!(action.clone(), action);
    }
}
