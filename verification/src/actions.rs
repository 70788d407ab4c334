use vstd::prelude::*;
use crate::decimal::{Decimal, ONE_ATTOS, in_range};
use crate::structs::{Actions, Combat, CombatView, FighterInfo, GearInfo, Shop, ShopView};
use vstd::multiset::Multiset;
use crate::team::{copy_slots, team_holds_exec, lemma_remove_from_sum, lemma_concat_contains, lemma_drop_first_multiset, lemma_swap_removed_multiset, position_of, gear_position, replace_first, replace_first_in, replace_in_team, replace_in_team_exec, take_gear, team_holds};

verus! {

/// Gold paid back for selling a fighter of the given tier.
pub open spec fn sell_value(tier: u8) -> u8 {
    if 1 <= tier <= 2 {
        1
    } else if 3 <= tier <= 8 {
        2
    } else if tier == 9 {
        3
    } else {
        0
    }
}

/// The fighter after a piece of gear is used on it: one more health and
/// one more attack.
pub open spec fn geared(f: FighterInfo) -> FighterInfo {
    FighterInfo {
        health: Decimal { attos: (f.health.attos + ONE_ATTOS) as i128 },
        attack: Decimal { attos: (f.attack.attos + ONE_ATTOS) as i128 },
        ..f
    }
}

/// Health and attack that combining gains from the fodder fighter's tier.
pub open spec fn combine_upgrades(smol_tier: u8) -> u8 {
    if smol_tier <= 2 {
        1
    } else {
        2
    }
}

/// The fighter that combining `big` with `smol` yields: the tiers add up to at
/// most nine, health and attack grow by the upgrades.
pub open spec fn combined(big: FighterInfo, smol: FighterInfo) -> FighterInfo {
    let up = combine_upgrades(smol.tier) * ONE_ATTOS;
    FighterInfo {
        tier: if big.tier + smol.tier > 9 { 9 } else { (big.tier + smol.tier) as u8 },
        health: Decimal { attos: (big.health.attos + up) as i128 },
        attack: Decimal { attos: (big.attack.attos + up) as i128 },
        ..big
    }
}

/// Whether `f` can be sold: the team holds it and the gold it brings fits.
pub open spec fn can_sell(c: CombatView, f: FighterInfo) -> bool {
    &&& team_holds(c.fighters, c.bench, Some(f))
    &&& c.gold + sell_value(f.tier) <= u8::MAX
}

/// The game state after selling `f`: its first slot among the active
/// fighters (or, when none holds it, on the bench) is emptied and the
/// player gets the fighter's sell value in gold.
pub open spec fn sold(c: CombatView, f: FighterInfo) -> CombatView {
    let t = replace_in_team(c.fighters, c.bench, Some(f), None);
    CombatView { fighters: t.0, bench: t.1, gold: (c.gold + sell_value(f.tier)) as u8, ..c }
}

/// Whether `f` can be bought: the shop offers it, the team has an empty
/// slot and the player can pay for it.
pub open spec fn can_buy(c: CombatView, s: ShopView, f: FighterInfo) -> bool {
    &&& s.fighters.contains(Some(f))
    &&& team_holds(c.fighters, c.bench, None)
    &&& c.gold >= f.cost
}

/// The game state and shop after buying `f`: the fighter's first shop slot
/// is emptied, the fighter takes the first empty active slot (or else the
/// first empty bench slot) and its cost is paid.
pub open spec fn bought(c: CombatView, s: ShopView, f: FighterInfo) -> (CombatView, ShopView) {
    let t = replace_in_team(c.fighters, c.bench, None, Some(f));
    (
        CombatView { fighters: t.0, bench: t.1, gold: (c.gold - f.cost) as u8, ..c },
        ShopView { fighters: replace_first(s.fighters, Some(f), None), ..s },
    )
}

/// Whether gear `g` can be used on `f`: `f` is an active fighter, the shop
/// offers `g`, the player can pay for it and the stats stay in range.
pub open spec fn can_use_gear(c: CombatView, s: ShopView, g: GearInfo, f: FighterInfo) -> bool {
    &&& c.fighters.contains(Some(f))
    &&& s.gear.contains(Some(g))
    &&& c.gold >= g.cost
    &&& in_range(f.health.attos + ONE_ATTOS)
    &&& in_range(f.attack.attos + ONE_ATTOS)
}

/// The game state and shop after using `g` on `f`: the fighter's first
/// active slot holds it with one more health and attack, the gear leaves the
/// shop and its cost is paid.
pub open spec fn gear_used(c: CombatView, s: ShopView, g: GearInfo, f: FighterInfo) -> (CombatView, ShopView) {
    (
        CombatView {
            fighters: replace_first(c.fighters, Some(f), Some(geared(f))),
            gold: (c.gold - g.cost) as u8,
            ..c
        },
        ShopView { gear: take_gear(s.gear, g), ..s },
    )
}

/// The team after the big fighter of a combination is replaced by the
/// combined fighter.
pub open spec fn team_after_upgrade(
    fighters: Seq<Option<FighterInfo>>,
    bench: Seq<Option<FighterInfo>>,
    big: FighterInfo,
    smol: FighterInfo,
) -> (Seq<Option<FighterInfo>>, Seq<Option<FighterInfo>>) {
    replace_in_team(fighters, bench, Some(big), Some(combined(big, smol)))
}

/// Whether `big` can be combined with `smol` (from the team, or bought from
/// the shop when `buy` is set).
pub open spec fn can_combine(c: CombatView, s: ShopView, big: FighterInfo, smol: FighterInfo, buy: bool) -> bool {
    &&& big.tier < 9
    &&& big.id == smol.id
    &&& big.tier + smol.tier <= u8::MAX
    &&& in_range(big.health.attos + combine_upgrades(smol.tier) * ONE_ATTOS)
    &&& in_range(big.attack.attos + combine_upgrades(smol.tier) * ONE_ATTOS)
    &&& team_holds(c.fighters, c.bench, Some(big))
    &&& !buy ==> ({
        let t = team_after_upgrade(c.fighters, c.bench, big, smol);
        team_holds(t.0, t.1, Some(smol))
    })
    &&& buy ==> s.fighters.contains(Some(smol))
    &&& buy ==> c.gold >= smol.cost
}

/// The game state and shop after combining: `big` is replaced by the
/// combined fighter, then `smol` leaves the team, or, when bought, leaves
/// the shop and its cost is paid.
pub open spec fn combine_result(
    c: CombatView,
    s: ShopView,
    big: FighterInfo,
    smol: FighterInfo,
    buy: bool,
) -> (CombatView, ShopView) {
    let t = team_after_upgrade(c.fighters, c.bench, big, smol);
    if buy {
        (
            CombatView { fighters: t.0, bench: t.1, gold: (c.gold - smol.cost) as u8, ..c },
            ShopView { fighters: replace_first(s.fighters, Some(smol), None), ..s },
        )
    } else {
        let u = replace_in_team(t.0, t.1, Some(smol), None);
        (CombatView { fighters: u.0, bench: u.1, ..c }, s)
    }
}

/// Whether the team can be rearranged into the first entries of `fighters`
/// and `bench`: both lists are long enough, neither part is empty, and the
/// requested entries are exactly the fighters and empty slots of the team.
pub open spec fn can_set_positions(
    c: CombatView,
    fighters: Seq<Option<FighterInfo>>,
    bench: Seq<Option<FighterInfo>>,
) -> bool {
    &&& c.fighters.len() > 0
    &&& c.bench.len() > 0
    &&& fighters.len() >= c.fighters.len()
    &&& bench.len() >= c.bench.len()
    &&& (fighters.take(c.fighters.len() as int) + bench.take(c.bench.len() as int)).to_multiset()
        == (c.fighters + c.bench).to_multiset()
}

/// The game state after rearranging the team.
pub open spec fn positioned(
    c: CombatView,
    fighters: Seq<Option<FighterInfo>>,
    bench: Seq<Option<FighterInfo>>,
) -> CombatView {
    CombatView {
        fighters: fighters.take(c.fighters.len() as int),
        bench: bench.take(c.bench.len() as int),
        ..c
    }
}

fn sell_gold(tier: u8) -> (r: u8)
    ensures
        r == sell_value(tier),
{
    if 1 <= tier && tier <= 2 {
        1
    } else if 3 <= tier && tier <= 8 {
        2
    } else if tier == 9 {
        3
    } else {
        0
    }
}

/// Sells `fighter`: its first slot among the active fighters (or, when none
/// holds it, on the bench) becomes empty and the player gets gold back by
/// the fighter's tier.
pub fn sell_fighter(combat_data: Combat, fighter: FighterInfo) -> (r: Combat)
    requires
        can_sell(combat_data@, fighter),
    ensures
        r@ == sold(combat_data@, fighter),
{
    let mut combat_data = combat_data;
    replace_in_team_exec(&mut combat_data.fighters, &mut combat_data.bench, &Some(fighter), None);
    let gold: u8 = sell_gold(fighter.tier);
    combat_data.gold = combat_data.gold + gold;
    combat_data
}

/// Buys `fighter` from the shop: its first shop slot becomes empty, the
/// fighter takes the first empty active slot (or, when there is none, the
/// first empty bench slot) and its cost is paid.
pub fn buy_fighter(combat_data: Combat, fighter: FighterInfo, shop_data: Shop) -> (r: (Combat, Shop))
    requires
        can_buy(combat_data@, shop_data@, fighter),
    ensures
        (r.0@, r.1@) == bought(combat_data@, shop_data@, fighter),
{
    let mut combat_data = combat_data;
    let mut shop_data = shop_data;
    replace_first_in(&mut shop_data.fighters, &Some(fighter), None);
    replace_in_team_exec(&mut combat_data.fighters, &mut combat_data.bench, &None, Some(fighter));
    combat_data.gold = combat_data.gold - fighter.cost;
    (combat_data, shop_data)
}

/// Uses `gear` on an active `fighter`: the fighter's first active slot gets
/// it back with one more health and attack, the gear leaves the shop (its
/// slot takes the last one and an empty slot is appended) and its cost is
/// paid.
pub fn use_gear(combat_data: Combat, gear: GearInfo, fighter: FighterInfo, shop_data: Shop) -> (r: (Combat, Shop))
    requires
        can_use_gear(combat_data@, shop_data@, gear, fighter),
    ensures
        (r.0@, r.1@) == gear_used(combat_data@, shop_data@, gear, fighter),
{
    let mut combat_data = combat_data;
    let mut shop_data = shop_data;
    let one: Decimal = Decimal::one();
    let mut new_fighter: FighterInfo = fighter;
    new_fighter.health = fighter.health.plus(one);
    new_fighter.attack = fighter.attack.plus(one);
    replace_first_in(&mut combat_data.fighters, &Some(fighter), Some(new_fighter));
    let pos: Option<usize> = gear_position(&shop_data.gear, &gear);
    proof {
        shop_data.gear@.index_of_first_ensures(Some(gear));
    }
    let i: usize = pos.unwrap();
    shop_data.gear.swap_remove(i);
    shop_data.gear.push(None);
    combat_data.gold = combat_data.gold - gear.cost;
    (combat_data, shop_data)
}

/// Combines two copies of a fighter: `big_fighter` (in the team) is
/// replaced by the combined fighter; the fodder `smol_fighter` is then
/// taken from the team, or, when `buy` is set, bought from the shop (its
/// shop slot becomes empty and its cost is paid).
pub fn combine_fighters(
    combat_data: Combat,
    big_fighter: FighterInfo,
    smol_fighter: FighterInfo,
    shop_data: Shop,
    buy: bool,
) -> (r: (Combat, Shop))
    requires
        can_combine(combat_data@, shop_data@, big_fighter, smol_fighter, buy),
    ensures
        (r.0@, r.1@) == combine_result(combat_data@, shop_data@, big_fighter, smol_fighter, buy),
{
    let mut combat_data = combat_data;
    let mut shop_data = shop_data;
    let upgrades: u8 = if smol_fighter.tier <= 2 { 1 } else { 2 };
    let mut new_fighter: FighterInfo = big_fighter;
    let mut tier: u8 = big_fighter.tier + smol_fighter.tier;
    if tier > 9 {
        tier = 9;
    }
    new_fighter.tier = tier;
    let up: Decimal = Decimal::from_u8(upgrades);
    new_fighter.health = big_fighter.health.plus(up);
    new_fighter.attack = big_fighter.attack.plus(up);
    assert(new_fighter == combined(big_fighter, smol_fighter));
    replace_in_team_exec(&mut combat_data.fighters, &mut combat_data.bench, &Some(big_fighter), Some(new_fighter));
    if !buy {
        replace_in_team_exec(&mut combat_data.fighters, &mut combat_data.bench, &Some(smol_fighter), None);
    } else {
        replace_first_in(&mut shop_data.fighters, &Some(smol_fighter), None);
        combat_data.gold = combat_data.gold - smol_fighter.cost;
    }
    (combat_data, shop_data)
}

/// Takes one copy of `item` out of the team: from its first active slot
/// holding it, or else from its first bench slot holding it (the last slot
/// of that list moves into the gap). Returns whether the team held it.
fn draw_from_team(
    fighters: &mut Vec<Option<FighterInfo>>,
    bench: &mut Vec<Option<FighterInfo>>,
    item: &Option<FighterInfo>,
) -> (found: bool)
    ensures
        found == team_holds(old(fighters)@, old(bench)@, *item),
        found ==> (final(fighters)@ + final(bench)@).to_multiset()
            == (old(fighters)@ + old(bench)@).to_multiset().remove(*item),
        found ==> (old(fighters)@ + old(bench)@).to_multiset().count(*item) > 0,
        !found ==> final(fighters)@ == old(fighters)@ && final(bench)@ == old(bench)@,
{
    let ghost f = fighters@;
    let ghost b = bench@;
    proof {
        vstd::seq_lib::lemma_multiset_commutative(f, b);
        vstd::seq_lib::to_multiset_contains(f, *item);
        vstd::seq_lib::to_multiset_contains(b, *item);
        lemma_remove_from_sum(f.to_multiset(), b.to_multiset(), *item);
    }
    match position_of(fighters, item) {
        Some(i) => {
            proof {
                lemma_swap_removed_multiset(f, i as int);
            }
            fighters.swap_remove(i);
            proof {
                vstd::seq_lib::lemma_multiset_commutative(fighters@, b);
            }
            true
        },
        None => match position_of(bench, item) {
            Some(i) => {
                proof {
                    lemma_swap_removed_multiset(b, i as int);
                }
                bench.swap_remove(i);
                proof {
                    vstd::seq_lib::lemma_multiset_commutative(f, bench@);
                }
                true
            },
            None => false,
        },
    }
}

/// Putting `x` on one side and taking it from the other keeps the sum.
proof fn lemma_move_between<T>(a: Multiset<T>, b: Multiset<T>, x: T)
    requires
        b.count(x) > 0,
    ensures
        a.insert(x).add(b.remove(x)) == a.add(b),
{
    broadcast use vstd::multiset::group_multiset_axioms;

    assert(a.insert(x).add(b.remove(x)) =~= a.add(b));
}

/// Rearranges the team as `set_positions` does, or returns `None` exactly
/// when the rearrangement is not possible.
pub fn try_set_positions(
    combat_data: Combat,
    fighters: Vec<Option<FighterInfo>>,
    bench: Vec<Option<FighterInfo>>,
) -> (r: Option<Combat>)
    ensures
        r is Some <==> can_set_positions(combat_data@, fighters@, bench@),
        r matches Some(c) ==> c@ == positioned(combat_data@, fighters@, bench@),
{
    broadcast use vstd::seq_lib::group_to_multiset_ensures, vstd::multiset::group_multiset_properties;

    let ghost old_data = combat_data@;
    let ghost cond = can_set_positions(combat_data@, fighters@, bench@);
    let ghost init = (combat_data.fighters@ + combat_data.bench@).to_multiset();
    let bench_len: usize = combat_data.bench.len();
    let fighters_len: usize = combat_data.fighters.len();
    if fighters_len == 0 || bench_len == 0 || fighters.len() < fighters_len || bench.len() < bench_len {
        return None;
    }
    let mut data: Combat = combat_data;
    let mut new_fighter_vec: Vec<Option<FighterInfo>> = Vec::new();
    let mut new_bench_vec: Vec<Option<FighterInfo>> = Vec::new();
    let ghost requested = fighters@.take(fighters_len as int) + bench@.take(bench_len as int);
    proof {
        assert(fighters@.subrange(0, fighters_len as int) + bench@.take(bench_len as int) =~= requested);
        assert(new_fighter_vec@.to_multiset() =~= Multiset::<Option<FighterInfo>>::empty());
    }
    let mut y: usize = 0;
    while y < fighters_len
        invariant
            y <= fighters_len,
            fighters_len == old_data.fighters.len(),
            bench_len == old_data.bench.len(),
            fighters.len() >= fighters_len,
            bench.len() >= bench_len,
            fighters_len > 0,
            bench_len > 0,
            cond == can_set_positions(old_data, fighters@, bench@),
            old_data == combat_data@,
            requested == fighters@.take(fighters_len as int) + bench@.take(bench_len as int),
            init == (old_data.fighters + old_data.bench).to_multiset(),
            new_fighter_vec@ == fighters@.take(y as int),
            new_fighter_vec@.to_multiset().add((data.fighters@ + data.bench@).to_multiset()) == init,
            cond ==> (data.fighters@ + data.bench@).to_multiset()
                == (fighters@.subrange(y as int, fighters_len as int) + bench@.take(bench_len as int)).to_multiset(),
            data@ == (CombatView { fighters: data.fighters@, bench: data.bench@, ..old_data }),
        decreases fighters_len - y,
    {
        let item: Option<FighterInfo> = fighters[y];
        let ghost rest = fighters@.subrange(y as int, fighters_len as int) + bench@.take(bench_len as int);
        let ghost pf = data.fighters@;
        let ghost pb = data.bench@;
        let ghost pool = pf + pb;
        proof {
            assert(rest[0] == item);
            vstd::seq_lib::to_multiset_contains(rest, item);
            lemma_drop_first_multiset(rest);
            assert(rest.drop_first() =~= fighters@.subrange(y + 1, fighters_len as int) + bench@.take(bench_len as int));
        }
        let found: bool = draw_from_team(&mut data.fighters, &mut data.bench, &item);
        if !found {
            proof {
                if cond {
                    assert(pool.to_multiset() == rest.to_multiset());
                    vstd::seq_lib::to_multiset_contains(pool, item);
                    lemma_concat_contains(pf, pb, item);
                }
            }
            return None;
        }
        proof {
            lemma_move_between(new_fighter_vec@.to_multiset(), pool.to_multiset(), item);
        }
        let ghost before_push = new_fighter_vec@;
        new_fighter_vec.push(item);
        proof {
            assert(new_fighter_vec@ =~= fighters@.take(y + 1));
            vstd::seq_lib::to_multiset_build(before_push, item);
        }
        y = y + 1;
    }
    proof {
        assert(fighters@.subrange(fighters_len as int, fighters_len as int) + bench@.take(bench_len as int)
            =~= bench@.subrange(0, bench_len as int));
        assert(fighters@.take(fighters_len as int) + bench@.take(0) =~= fighters@.take(fighters_len as int));
    }
    let mut z: usize = 0;
    while z < bench_len
        invariant
            z <= bench_len,
            fighters_len == old_data.fighters.len(),
            bench_len == old_data.bench.len(),
            fighters.len() >= fighters_len,
            bench.len() >= bench_len,
            fighters_len > 0,
            bench_len > 0,
            cond == can_set_positions(old_data, fighters@, bench@),
            old_data == combat_data@,
            requested == fighters@.take(fighters_len as int) + bench@.take(bench_len as int),
            init == (old_data.fighters + old_data.bench).to_multiset(),
            new_fighter_vec@ == fighters@.take(fighters_len as int),
            new_bench_vec@ == bench@.take(z as int),
            (new_fighter_vec@ + new_bench_vec@).to_multiset().add((data.fighters@ + data.bench@).to_multiset()) == init,
            cond ==> (data.fighters@ + data.bench@).to_multiset()
                == bench@.subrange(z as int, bench_len as int).to_multiset(),
            data@ == (CombatView { fighters: data.fighters@, bench: data.bench@, ..old_data }),
        decreases bench_len - z,
    {
        let item: Option<FighterInfo> = bench[z];
        let ghost rest = bench@.subrange(z as int, bench_len as int);
        let ghost pf = data.fighters@;
        let ghost pb = data.bench@;
        let ghost pool = pf + pb;
        let ghost drawn = new_fighter_vec@ + new_bench_vec@;
        proof {
            assert(rest[0] == item);
            vstd::seq_lib::to_multiset_contains(rest, item);
            lemma_drop_first_multiset(rest);
            assert(rest.drop_first() =~= bench@.subrange(z + 1, bench_len as int));
        }
        let found: bool = draw_from_team(&mut data.fighters, &mut data.bench, &item);
        if !found {
            proof {
                if cond {
                    assert(pool.to_multiset() == rest.to_multiset());
                    vstd::seq_lib::to_multiset_contains(pool, item);
                    lemma_concat_contains(pf, pb, item);
                }
            }
            return None;
        }
        proof {
            lemma_move_between(drawn.to_multiset(), pool.to_multiset(), item);
        }
        new_bench_vec.push(item);
        proof {
            vstd::seq_lib::to_multiset_build(drawn, item);
            assert(new_bench_vec@ =~= bench@.take(z + 1));
            assert(new_fighter_vec@ + new_bench_vec@ =~= drawn.push(item));
        }
        z = z + 1;
    }
    proof {
        let drawn = new_fighter_vec@ + new_bench_vec@;
        assert(drawn =~= requested);
        let rem = (data.fighters@ + data.bench@).to_multiset();
        assert(init.len() == requested.len());
        assert(rem.len() == 0);
        assert(rem =~= Multiset::<Option<FighterInfo>>::empty());
        assert(requested.to_multiset() =~= init);
    }
    data.fighters = new_fighter_vec;
    data.bench = new_bench_vec;
    Some(data)
}

/// Rearranges the team: the active fighters become the first
/// `fighters.len()` entries of `fighters` and the bench the first
/// `bench.len()` entries of `bench` (lengths taken before the call). Each
/// requested entry is drawn from the current team, so together they must be
/// exactly the fighters and empty slots the team holds now.
pub fn set_positions(
    combat_data: Combat,
    fighters: Vec<Option<FighterInfo>>,
    bench: Vec<Option<FighterInfo>>,
) -> (r: Combat)
    requires
        can_set_positions(combat_data@, fighters@, bench@),
    ensures
        r@ == positioned(combat_data@, fighters@, bench@),
        (r.fighters@ + r.bench@).to_multiset() == (combat_data.fighters@ + combat_data.bench@).to_multiset(),
{
    let placed: Option<Combat> = try_set_positions(combat_data, fighters, bench);
    placed.unwrap()
}

/// Whether a shop action is allowed in the given game state and shop.
pub open spec fn action_ok(c: CombatView, s: ShopView, action: Actions) -> bool {
    match action {
        Actions::Sell(f) => can_sell(c, f),
        Actions::Buy(f) => can_buy(c, s, f),
        Actions::Use((g, f)) => can_use_gear(c, s, g, f),
        Actions::SetFighters((fighters, bench)) => can_set_positions(c, fighters@, bench@),
        Actions::Combine((big, smol, buy)) => can_combine(c, s, big, smol, buy),
    }
}

/// The game state and shop after a shop action.
pub open spec fn action_effect(c: CombatView, s: ShopView, action: Actions) -> (CombatView, ShopView) {
    match action {
        Actions::Sell(f) => (sold(c, f), s),
        Actions::Buy(f) => bought(c, s, f),
        Actions::Use((g, f)) => gear_used(c, s, g, f),
        Actions::SetFighters((fighters, bench)) => (positioned(c, fighters@, bench@), s),
        Actions::Combine((big, smol, buy)) => combine_result(c, s, big, smol, buy),
    }
}

/// Carries out one shop action, or returns `None` exactly when the action is
/// not allowed (where the game would abort the transaction).
pub fn perform_action(combat_data: Combat, shop_data: Shop, action: Actions) -> (r: Option<(Combat, Shop)>)
    ensures
        r is Some <==> action_ok(combat_data@, shop_data@, action),
        r matches Some(p) ==> (p.0@, p.1@) == action_effect(combat_data@, shop_data@, action),
{
    match action {
        Actions::Sell(f) => {
            let holds: bool = team_holds_exec(&combat_data.fighters, &combat_data.bench, &Some(f));
            if !holds || combat_data.gold.checked_add(sell_gold(f.tier)).is_none() {
                return None;
            }
            Some((sell_fighter(combat_data, f), shop_data))
        },
        Actions::Buy(f) => {
            let offered: bool = position_of(&shop_data.fighters, &Some(f)).is_some();
            let room: bool = team_holds_exec(&combat_data.fighters, &combat_data.bench, &None);
            if !offered || !room || combat_data.gold < f.cost {
                return None;
            }
            Some(buy_fighter(combat_data, f, shop_data))
        },
        Actions::Use((g, f)) => {
            let active: bool = position_of(&combat_data.fighters, &Some(f)).is_some();
            let offered: bool = gear_position(&shop_data.gear, &g).is_some();
            proof {
                shop_data.gear@.index_of_first_ensures(Some(g));
            }
            if !active || !offered || combat_data.gold < g.cost
                || f.health.attos.checked_add(ONE_ATTOS).is_none()
                || f.attack.attos.checked_add(ONE_ATTOS).is_none() {
                return None;
            }
            Some(use_gear(combat_data, g, f, shop_data))
        },
        Actions::SetFighters((fighters, bench)) => {
            match try_set_positions(combat_data, fighters, bench) {
                Some(c) => Some((c, shop_data)),
                None => None,
            }
        },
        Actions::Combine((big, smol, buy)) => {
            if big.tier >= 9 || big.id != smol.id || big.tier.checked_add(smol.tier).is_none() {
                return None;
            }
            let upgrades: u8 = if smol.tier <= 2 { 1 } else { 2 };
            let up: Decimal = Decimal::from_u8(upgrades);
            let health: Option<i128> = big.health.attos.checked_add(up.attos);
            let attack: Option<i128> = big.attack.attos.checked_add(up.attos);
            if health.is_none() || attack.is_none() {
                return None;
            }
            if !team_holds_exec(&combat_data.fighters, &combat_data.bench, &Some(big)) {
                return None;
            }
            if buy {
                let offered: bool = position_of(&shop_data.fighters, &Some(smol)).is_some();
                if !offered || combat_data.gold < smol.cost {
                    return None;
                }
            } else {
                let mut tier: u8 = big.tier + smol.tier;
                if tier > 9 {
                    tier = 9;
                }
                let mut new_fighter: FighterInfo = big;
                new_fighter.tier = tier;
                new_fighter.health = Decimal::from_attos(health.unwrap());
                new_fighter.attack = Decimal::from_attos(attack.unwrap());
                assert(new_fighter == combined(big, smol));
                let mut fighters: Vec<Option<FighterInfo>> = copy_slots(&combat_data.fighters);
                let mut bench: Vec<Option<FighterInfo>> = copy_slots(&combat_data.bench);
                replace_in_team_exec(&mut fighters, &mut bench, &Some(big), Some(new_fighter));
                if !team_holds_exec(&fighters, &bench, &Some(smol)) {
                    return None;
                }
            }
            Some(combine_fighters(combat_data, big, smol, shop_data, buy))
        },
    }
}

} // verus!
