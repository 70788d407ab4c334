use auto_chess::actions;
use auto_chess::decimal::{Decimal, ONE_ATTOS};
use auto_chess::structs::{
    AbilityInfo, AbilityTypes, Actions, Activation, Choices, Combat, FighterInfo, GearInfo, Shop, Targeting,
};

fn dec(n: i128) -> Decimal {
    Decimal::from_attos(n * ONE_ATTOS)
}

fn test_ability() -> AbilityInfo {
    AbilityInfo {
        effect: AbilityTypes::Gold,
        activation: Activation::Passive,
        summon: None,
        gold: None,
        stats: None,
        exp: None,
        targeting: Targeting::User,
        times: 1,
        repetition: 0,
    }
}

fn fighter(id: u128, tier: u8, health: i128, attack: i128, cost: u8) -> FighterInfo {
    FighterInfo { id, tier, health: dec(health), attack: dec(attack), ability: test_ability(), gear: 0, cost }
}

fn combat(fighters: Vec<Option<FighterInfo>>, bench: Vec<Option<FighterInfo>>) -> Combat {
    Combat {
        state: true,
        round: 1,
        shop_tier: 1,
        fighters,
        bench,
        next_round_choice: Choices::NoChoice,
        gold: 10,
        player_health: dec(100),
        player_wins: 0,
        next_enemy: None,
    }
}

#[test]
fn test_sell() {
    let test_fighter_1 = fighter(1, 1, 2, 2, 1);
    let test_fighter_2 = fighter(2, 4, 3, 2, 2);
    let test_fighter_3 = fighter(3, 9, 3, 3, 4);
    let mut test_combat_data = combat(
        vec![None, Some(test_fighter_1), Some(test_fighter_2), None, Some(test_fighter_3)],
        vec![None, Some(test_fighter_3)],
    );
    // Checks selling fighter 1
    let sale1 = actions::sell_fighter(test_combat_data.clone(), test_fighter_1);
    test_combat_data.fighters = vec![None, None, Some(test_fighter_2), None, Some(test_fighter_3)];
    assert_eq!(test_combat_data.fighters, sale1.fighters);
    test_combat_data.gold += 1;
    assert_eq!(test_combat_data, sale1);
    // Checks selling fighter 2
    let sale2 = actions::sell_fighter(sale1.clone(), test_fighter_2);
    test_combat_data.fighters = vec![None, None, None, None, Some(test_fighter_3)];
    assert_eq!(test_combat_data.fighters, sale2.fighters);
    test_combat_data.gold += 2;
    assert_eq!(test_combat_data, sale2);
    // Checks selling fighter 3
    let sale3 = actions::sell_fighter(sale2.clone(), test_fighter_3);
    test_combat_data.fighters = vec![None, None, None, None, None];
    assert_eq!(test_combat_data.fighters, sale3.fighters);
    test_combat_data.gold += 3;
    assert_eq!(test_combat_data, sale3);
    // Checks selling fighter 3 in bench
    let sale4 = actions::sell_fighter(sale3.clone(), test_fighter_3);
    test_combat_data.bench = vec![None, None];
    assert_eq!(test_combat_data.bench, sale4.bench);
    test_combat_data.gold += 3;
    assert_eq!(test_combat_data, sale4);
}

#[test]
fn test_buy() {
    let test_fighter_1 = fighter(1, 1, 2, 2, 1);
    let test_fighter_2 = fighter(2, 4, 3, 2, 2);
    let test_fighter_3 = fighter(3, 3, 3, 3, 3);
    let mut test_combat_data = combat(
        vec![None, None, None, Some(test_fighter_2), Some(test_fighter_1)],
        vec![None, Some(test_fighter_3)],
    );
    let mut test_shop_data = Shop {
        fighters: vec![Some(test_fighter_1), Some(test_fighter_2), None, Some(test_fighter_3), Some(test_fighter_1)],
        gear: Vec::new(),
    };
    let buy1 = actions::buy_fighter(test_combat_data.clone(), test_fighter_1, test_shop_data.clone());
    test_combat_data.fighters = vec![Some(test_fighter_1), None, None, Some(test_fighter_2), Some(test_fighter_1)];
    test_shop_data.fighters = vec![None, Some(test_fighter_2), None, Some(test_fighter_3), Some(test_fighter_1)];
    assert_eq!(test_combat_data.fighters, buy1.0.fighters);
    assert_eq!(test_shop_data.fighters, buy1.1.fighters);
    test_combat_data.gold -= test_fighter_1.cost;
    assert_eq!(test_combat_data, buy1.0);

    let buy2 = actions::buy_fighter(buy1.0.clone(), test_fighter_2, buy1.1.clone());
    test_combat_data.fighters =
        vec![Some(test_fighter_1), Some(test_fighter_2), None, Some(test_fighter_2), Some(test_fighter_1)];
    test_shop_data.fighters = vec![None, None, None, Some(test_fighter_3), Some(test_fighter_1)];
    assert_eq!(test_combat_data.fighters, buy2.0.fighters);
    assert_eq!(test_shop_data.fighters, buy2.1.fighters);
    test_combat_data.gold -= test_fighter_2.cost;
    assert_eq!(test_combat_data, buy2.0);

    let buy3 = actions::buy_fighter(buy2.0.clone(), test_fighter_3, buy2.1.clone());
    test_combat_data.fighters = vec![
        Some(test_fighter_1),
        Some(test_fighter_2),
        Some(test_fighter_3),
        Some(test_fighter_2),
        Some(test_fighter_1),
    ];
    test_shop_data.fighters = vec![None, None, None, None, Some(test_fighter_1)];
    assert_eq!(test_combat_data.fighters, buy3.0.fighters);
    assert_eq!(test_shop_data.fighters, buy3.1.fighters);
    test_combat_data.gold -= test_fighter_3.cost;
    assert_eq!(test_combat_data, buy3.0);

    let buy4 = actions::buy_fighter(buy3.0.clone(), test_fighter_1, buy3.1.clone());
    test_combat_data.bench = vec![Some(test_fighter_1), Some(test_fighter_3)];
    test_shop_data.fighters = vec![None, None, None, None, None];
    assert_eq!(test_combat_data.fighters, buy4.0.fighters);
    assert_eq!(test_combat_data.bench, buy4.0.bench);
    assert_eq!(test_shop_data.fighters, buy4.1.fighters);
    test_combat_data.gold -= test_fighter_1.cost;
    assert_eq!(test_combat_data, buy4.0);
}

#[test]
fn test_use() {
    let test_fighter_1 = fighter(1, 1, 2, 2, 1);
    let test_fighter_2 = fighter(1, 2, 3, 3, 1);
    let test_gear_1 = GearInfo { id: 1, cost: 1, tier: 1 };
    let test_gear_2 = GearInfo { id: 22, cost: 4, tier: 2 };
    let mut test_combat_data = combat(
        vec![None, None, None, Some(test_fighter_2), Some(test_fighter_1)],
        vec![None, None],
    );
    let mut test_shop_data = Shop {
        fighters: vec![Some(test_fighter_1), Some(test_fighter_2), None, None, Some(test_fighter_1)],
        gear: vec![Some(test_gear_1), Some(test_gear_2), None],
    };
    let use1 = actions::use_gear(test_combat_data.clone(), test_gear_1, test_fighter_1, test_shop_data.clone());
    test_shop_data.gear = vec![None, Some(test_gear_2), None];
    assert_eq!(test_shop_data.gear, use1.1.gear);
    let mut new_fighter = test_fighter_1.clone();
    new_fighter.health = new_fighter.health.plus(dec(1));
    new_fighter.attack = new_fighter.attack.plus(dec(1));
    test_combat_data.fighters[4] = Some(new_fighter);
    test_combat_data.gold -= test_gear_1.cost;
    assert_eq!(test_combat_data, use1.0);
}

#[test]
fn test_combine() {
    let test_fighter_1 = fighter(1, 1, 2, 2, 1);
    let test_fighter_2 = fighter(1, 2, 3, 3, 1);
    let test_fighter_3 = fighter(1, 3, 4, 4, 1);
    let test_fighter_4 = fighter(1, 5, 5, 5, 1);
    let test_fighter_5 = fighter(1, 8, 7, 7, 1);
    let test_fighter_6 = fighter(1, 9, 8, 8, 1);
    let mut test_combat_data = combat(
        vec![None, None, None, Some(test_fighter_2), Some(test_fighter_1)],
        vec![None, Some(test_fighter_1)],
    );
    let mut test_shop_data = Shop {
        fighters: vec![Some(test_fighter_3), Some(test_fighter_2), None, None, Some(test_fighter_1)],
        gear: Vec::new(),
    };
    let combine1: (Combat, Shop) =
        actions::combine_fighters(test_combat_data.clone(), test_fighter_1, test_fighter_1, test_shop_data.clone(), false);
    test_combat_data.fighters = vec![None, None, None, Some(test_fighter_2), Some(test_fighter_2)];
    test_combat_data.bench = vec![None, None];
    assert_eq!(test_shop_data, combine1.1);
    assert_eq!(test_combat_data, combine1.0);

    let combine2: (Combat, Shop) =
        actions::combine_fighters(combine1.0.clone(), test_fighter_2, test_fighter_1, combine1.1.clone(), true);
    test_combat_data.fighters = vec![None, None, None, Some(test_fighter_3), Some(test_fighter_2)];
    test_shop_data.fighters = vec![Some(test_fighter_3), Some(test_fighter_2), None, None, None];
    test_combat_data.gold -= test_fighter_1.cost;
    assert_eq!(test_shop_data, combine2.1);
    assert_eq!(test_combat_data, combine2.0);

    let combine3: (Combat, Shop) =
        actions::combine_fighters(combine2.0.clone(), test_fighter_3, test_fighter_2, combine2.1.clone(), true);
    test_combat_data.fighters = vec![None, None, None, Some(test_fighter_4), Some(test_fighter_2)];
    test_shop_data.fighters = vec![Some(test_fighter_3), None, None, None, None];
    test_combat_data.gold -= test_fighter_2.cost;
    assert_eq!(test_shop_data, combine3.1);
    assert_eq!(test_combat_data, combine3.0);

    let combine4: (Combat, Shop) =
        actions::combine_fighters(combine3.0.clone(), test_fighter_4, test_fighter_3, combine3.1.clone(), true);
    test_combat_data.fighters = vec![None, None, None, Some(test_fighter_5), Some(test_fighter_2)];
    test_shop_data.fighters = vec![None, None, None, None, None];
    test_combat_data.gold -= test_fighter_3.cost;
    assert_eq!(test_shop_data, combine4.1);
    assert_eq!(test_combat_data, combine4.0);

    let combine5: (Combat, Shop) =
        actions::combine_fighters(combine4.0.clone(), test_fighter_5, test_fighter_2, combine4.1.clone(), false);
    test_combat_data.fighters = vec![None, None, None, Some(test_fighter_6), None];
    assert_eq!(test_combat_data, combine5.0);
}

#[test]
fn test_set_position() {
    let test_fighter_1 = fighter(1, 1, 2, 2, 1);
    let test_fighter_2 = fighter(1, 2, 3, 3, 1);
    let test_fighter_3 = fighter(1, 3, 4, 4, 1);
    let test_fighter_4 = fighter(1, 5, 5, 5, 1);
    let test_fighter_5 = fighter(1, 8, 7, 7, 1);
    let test_fighter_6 = fighter(1, 9, 8, 8, 1);
    let mut test_combat_data = combat(
        vec![
            Some(test_fighter_1),
            Some(test_fighter_2),
            Some(test_fighter_3),
            Some(test_fighter_4),
            Some(test_fighter_5),
        ],
        vec![None, Some(test_fighter_6)],
    );
    let new_fighter_position =
        vec![Some(test_fighter_6), Some(test_fighter_3), Some(test_fighter_4), Some(test_fighter_5), None];
    let new_bench_position = vec![Some(test_fighter_2), Some(test_fighter_1)];
    let test_position: Combat =
        actions::set_positions(test_combat_data.clone(), new_fighter_position.clone(), new_bench_position.clone());
    test_combat_data.fighters = new_fighter_position;
    test_combat_data.bench = new_bench_position;
    assert_eq!(test_combat_data, test_position);
}

// The inputs on which the game aborts the transaction are refused by
// `perform_action`.

#[test]
fn refuses_selling_a_fighter_the_team_lacks() {
    let test_fighter_1 = fighter(1, 1, 2, 2, 1);
    let test_fighter_2 = fighter(2, 4, 3, 2, 2);
    let test_fighter_3 = fighter(3, 3, 3, 3, 4);
    let test_combat_data = combat(
        vec![None, Some(test_fighter_1), Some(test_fighter_2), None, Some(test_fighter_3)],
        vec![None, Some(test_fighter_3)],
    );
    let mut foo_fighter = test_fighter_1.clone();
    foo_fighter.tier = 9;
    assert!(foo_fighter != test_fighter_1);
    let shop = Shop { fighters: Vec::new(), gear: Vec::new() };
    assert!(actions::perform_action(test_combat_data, shop, Actions::Sell(foo_fighter)).is_none());
}

#[test]
fn refuses_buying_a_fighter_the_shop_lacks() {
    let test_fighter_1 = fighter(1, 1, 2, 2, 1);
    let test_fighter_2 = fighter(2, 4, 3, 2, 2);
    let test_fighter_3 = fighter(3, 3, 3, 3, 3);
    let test_combat_data = combat(
        vec![None, None, None, Some(test_fighter_2), Some(test_fighter_1)],
        vec![None, Some(test_fighter_3)],
    );
    let test_shop_data = Shop {
        fighters: vec![Some(test_fighter_1), Some(test_fighter_2), None, Some(test_fighter_3), Some(test_fighter_1)],
        gear: Vec::new(),
    };
    let buy1 = actions::perform_action(test_combat_data, test_shop_data, Actions::Buy(test_fighter_3)).unwrap();
    assert_eq!(buy1.0.fighters, vec![Some(test_fighter_3), None, None, Some(test_fighter_2), Some(test_fighter_1)]);
    assert_eq!(buy1.1.fighters, vec![Some(test_fighter_1), Some(test_fighter_2), None, None, Some(test_fighter_1)]);
    assert_eq!(buy1.0.gold, 7);
    assert!(actions::perform_action(buy1.0, buy1.1, Actions::Buy(test_fighter_3)).is_none());
}

#[test]
fn refuses_gear_the_shop_lacks() {
    let test_fighter_1 = fighter(1, 1, 2, 2, 1);
    let test_fighter_2 = fighter(2, 4, 3, 2, 2);
    let test_gear_1 = GearInfo { id: 1, cost: 1, tier: 1 };
    let test_gear_2 = GearInfo { id: 22, cost: 4, tier: 2 };
    let test_combat_data = combat(
        vec![None, None, None, Some(test_fighter_2), Some(test_fighter_1)],
        vec![None, None],
    );
    let test_shop_data = Shop {
        fighters: vec![Some(test_fighter_1), Some(test_fighter_2), None, None, Some(test_fighter_1)],
        gear: vec![Some(test_gear_1), None, None],
    };
    assert!(actions::perform_action(test_combat_data, test_shop_data, Actions::Use((test_gear_2, test_fighter_1))).is_none());
}

#[test]
fn refuses_combining_different_fighters() {
    let test_fighter_1 = fighter(1, 1, 2, 2, 1);
    let test_fighter_2 = fighter(1, 2, 3, 3, 1);
    let test_fighter_3 = fighter(11, 3, 4, 4, 1);
    let test_combat_data = combat(
        vec![None, None, None, Some(test_fighter_2), Some(test_fighter_1)],
        vec![None, Some(test_fighter_1)],
    );
    let test_shop_data = Shop {
        fighters: vec![Some(test_fighter_3), Some(test_fighter_2), None, None, Some(test_fighter_1)],
        gear: Vec::new(),
    };
    assert!(actions::perform_action(
        test_combat_data,
        test_shop_data,
        Actions::Combine((test_fighter_1, test_fighter_3, true))
    )
    .is_none());
}
