use vstd::prelude::*;
use crate::decimal::{Decimal, in_range};
use crate::structs::{Account, Activation, AbilityTypes, BattleEnd, Choices, Combat, CombatView, FighterInfo, Shop};
use crate::abilities::{non_combat_abilities, non_combat_effect, non_combat_ok};
use crate::team::copy_slots;

verus! {

/// The plain settings of a game: starting values, the penalty for a lost
/// battle, the wins needed to take a game, and how often the shop, the bench
/// and the team grow.
#[derive(Clone, Copy, Debug, PartialEq, Eq, Structural)]
pub struct GameData {
    pub starting_gold: u8,
    pub starting_health: Decimal,
    pub starting_shop_fighters: usize,
    pub starting_shop_gear: usize,
    pub health_on_loss: Decimal,
    pub wins_for_victory: u8,
    pub rounds_for_shop_increase: u8,
    pub rounds_for_bench_increase: u8,
    pub rounds_for_fighter_increase: u8,
}

/// How a round ended for the game as a whole.
#[derive(Clone, Copy, Debug, PartialEq, Eq, Structural)]
pub enum RoundOutcome {
    /// The player reached the wins needed to take the game.
    GameWon,
    /// The player ran out of health.
    GameLost,
    /// The game goes on to the next round.
    Continues,
}

/// The state of a game that has just begun.
pub open spec fn fresh_combat(game_data: GameData) -> CombatView {
    CombatView {
        state: true,
        round: 1,
        shop_tier: 1,
        fighters: Seq::empty(),
        bench: Seq::empty(),
        next_round_choice: Choices::NoChoice,
        gold: game_data.starting_gold,
        player_health: game_data.starting_health,
        player_wins: 0,
        next_enemy: None,
    }
}

/// The state of a game that has just begun: round one, shop tier one, no
/// fighters, the starting gold and health.
pub fn new_combat(game_data: &GameData) -> (r: Combat)
    ensures
        r@ == fresh_combat(*game_data),
{
    Combat {
        state: true,
        round: 1,
        shop_tier: 1,
        fighters: Vec::new(),
        bench: Vec::new(),
        next_round_choice: Choices::NoChoice,
        gold: game_data.starting_gold,
        player_health: game_data.starting_health,
        player_wins: 0,
        next_enemy: None,
    }
}

/// The data of a newly bought account: no wins, no skins, a fresh game and
/// the given starting shop.
pub fn new_account(game_data: &GameData, shop: Shop) -> (r: Account)
    ensures
        r.total_wins == 0,
        r.skins_equiped == 0,
        r.combat_info@ == fresh_combat(*game_data),
        r.shop_info@ == shop@,
{
    Account { total_wins: 0, skins_equiped: 0, combat_info: new_combat(game_data), shop_info: shop }
}

/// Starts a new game on an account that is not in one: the wins and skins
/// stay, the game is fresh and the shop is the given starting shop.
pub fn start_gameplay(account: Account, game_data: &GameData, shop: Shop) -> (r: Account)
    requires
        !account.combat_info.state,
    ensures
        r.total_wins == account.total_wins,
        r.skins_equiped == account.skins_equiped,
        r.combat_info@ == fresh_combat(*game_data),
        r.shop_info@ == shop@,
{
    Account {
        total_wins: account.total_wins,
        skins_equiped: account.skins_equiped,
        combat_info: new_combat(game_data),
        shop_info: shop,
    }
}

/// Whether a shop action fires the acted-on fighter's ability: selling a
/// fighter whose ability fires on sale, or buying one whose ability fires on
/// purchase.
pub open spec fn triggers_ability(action: crate::structs::Actions) -> bool {
    match action {
        crate::structs::Actions::Sell(f) => f.ability.activation == Activation::Sell,
        crate::structs::Actions::Buy(f) => f.ability.activation == Activation::Buy,
        _ => false,
    }
}

/// Whether a shop action fires the acted-on fighter's ability.
pub fn action_triggers_ability(action: &crate::structs::Actions) -> (r: bool)
    ensures
        r == triggers_ability(*action),
{
    match action {
        crate::structs::Actions::Sell(f) => f.ability.activation == Activation::Sell,
        crate::structs::Actions::Buy(f) => f.ability.activation == Activation::Buy,
        _ => false,
    }
}

/// The key under which the game data holds the fighter that the ability of
/// the active fighter at `index` summons, when that slot holds a fighter
/// whose ability is a summon with a key.
pub open spec fn summon_key_of(c: CombatView, index: int) -> Option<(u128, u8)> {
    if 0 <= index < c.fighters.len() && c.fighters[index] is Some
        && c.fighters[index]->0.ability.effect is Summon {
        c.fighters[index]->0.ability.summon
    } else {
        None
    }
}

/// The key under which the game data holds the fighter that the ability of
/// the active fighter at `index` summons, when that ability is a summon.
pub fn summon_key(combat_data: &Combat, index: usize) -> (r: Option<(u128, u8)>)
    ensures
        r == summon_key_of(combat_data@, index as int),
{
    if index >= combat_data.fighters.len() {
        return None;
    }
    match combat_data.fighters[index] {
        Some(f) => match f.ability.effect {
            AbilityTypes::Summon => f.ability.summon,
            _ => None,
        },
        None => None,
    }
}

/// The fighter to look up before an ability step: the summon key of the
/// active fighter at `index` when its ability fires (`fires`) and is a
/// summon; nothing otherwise.
pub fn summon_request(combat_data: &Combat, index: usize, fires: bool) -> (r: Option<(u128, u8)>)
    ensures
        r == (if fires { summon_key_of(combat_data@, index as int) } else { None }),
{
    if fires {
        summon_key(combat_data, index)
    } else {
        None
    }
}

/// The game state after an ability step: unchanged when the ability does
/// not fire, else the effect of the active fighter's ability at `index`.
pub open spec fn ability_step_effect(c: CombatView, index: int, fires: bool, summoned: Option<FighterInfo>) -> CombatView {
    if fires {
        non_combat_effect(c, index, summoned)
    } else {
        c
    }
}

/// One step of firing abilities outside battle: when `fires` is set, the
/// ability of the active fighter at `index` fires (with `summoned`, the
/// fighter looked up under the key that `summon_request` named); otherwise
/// nothing changes. `None` exactly when a firing ability cannot fire (where
/// the game would abort the transaction).
pub fn ability_step(combat_data: Combat, index: usize, fires: bool, summoned: Option<FighterInfo>) -> (r: Option<Combat>)
    ensures
        r is Some <==> (fires ==> non_combat_ok(combat_data@, index as int, summoned)),
        r matches Some(c) ==> c@ == ability_step_effect(combat_data@, index as int, fires, summoned),
{
    if fires {
        try_non_combat_abilities(combat_data, index, summoned)
    } else {
        Some(combat_data)
    }
}

/// The number of fighters and of pieces of gear a new round's shop draws:
/// five fighters and two pieces of gear, then as many extra pairs (a
/// fighter, then a piece of gear) as `extra_shop_slots` gives.
pub fn round_shop_draws(round: u8, game_data: &GameData) -> (r: (usize, usize, usize))
    requires
        game_data.rounds_for_shop_increase > 0,
    ensures
        r == (5usize, 2usize, multiples_below(round as nat, game_data.rounds_for_shop_increase as nat) as usize),
{
    let extra: u8 = extra_shop_slots(round, game_data);
    (5, 2, extra as usize)
}

/// Fires the ability of the active fighter at `index` as
/// `non_combat_abilities` does, or returns `None` exactly when it cannot
/// fire (where the game would abort the transaction).
pub fn try_non_combat_abilities(combat_data: Combat, index: usize, summoned: Option<FighterInfo>) -> (r: Option<Combat>)
    ensures
        r is Some <==> non_combat_ok(combat_data@, index as int, summoned),
        r matches Some(c) ==> c@ == non_combat_effect(combat_data@, index as int, summoned),
{
    if index >= combat_data.fighters.len() {
        return None;
    }
    let fighter: FighterInfo = match combat_data.fighters[index] {
        Some(f) => f,
        None => {
            return None;
        },
    };
    let ok: bool = match fighter.ability.effect {
        AbilityTypes::Exp => fighter.ability.exp.is_some(),
        AbilityTypes::Gold => match fighter.ability.gold {
            Some(g) => combat_data.gold.checked_add(g).is_some(),
            None => false,
        },
        AbilityTypes::Gear => true,
        AbilityTypes::Summon => fighter.ability.summon.is_some() && summoned.is_some(),
        AbilityTypes::Stats => fighter.ability.stats.is_some(),
    };
    if !ok {
        return None;
    }
    Some(non_combat_abilities(combat_data, index, summoned))
}

/// Whether the fighter in slot `y` of the active team (or of the bench when
/// `on_bench` is set) has an ability that fires at `when`; `None` when the
/// slot is empty or missing (where the game would abort the transaction).
pub fn ability_fires_at(combat_data: &Combat, y: usize, on_bench: bool, when: Activation) -> (r: Option<bool>)
    ensures
        ({
            let s = if on_bench { combat_data.bench@ } else { combat_data.fighters@ };
            &&& r is Some <==> y < s.len() && s[y as int] is Some
            &&& r matches Some(b) ==> b == (s[y as int]->0.ability.activation == when)
        }),
{
    let slots: &Vec<Option<FighterInfo>> = if on_bench { &combat_data.bench } else { &combat_data.fighters };
    if y >= slots.len() {
        return None;
    }
    match slots[y] {
        Some(f) => Some(f.ability.activation == when),
        None => None,
    }
}

/// The game state after a battle: a defeat costs health, a victory adds a
/// win; reaching the wins needed, or running out of health, ends the game.
pub open spec fn battle_recorded(c: CombatView, battle: BattleEnd, game_data: GameData) -> (CombatView, RoundOutcome) {
    let health = if battle is Defeat {
        Decimal { attos: (c.player_health.attos - game_data.health_on_loss.attos) as i128 }
    } else {
        c.player_health
    };
    let wins = if battle is Victory { (c.player_wins + 1) as u8 } else { c.player_wins };
    let c1 = CombatView { player_health: health, player_wins: wins, ..c };
    if wins == game_data.wins_for_victory {
        (CombatView { state: false, ..c1 }, RoundOutcome::GameWon)
    } else if health.attos <= 0 {
        (CombatView { state: false, ..c1 }, RoundOutcome::GameLost)
    } else {
        (c1, RoundOutcome::Continues)
    }
}

/// Whether a battle result can be recorded: the health after a defeat and
/// the wins after a victory stay in range.
pub open spec fn can_record_battle(c: CombatView, battle: BattleEnd, game_data: GameData) -> bool {
    &&& battle is Defeat ==> in_range(c.player_health.attos - game_data.health_on_loss.attos)
    &&& battle is Victory ==> c.player_wins < u8::MAX
}

/// Records the result of the round's battle and tells whether the game goes
/// on, was won or was lost.
pub fn record_battle(combat_data: Combat, battle: BattleEnd, game_data: &GameData) -> (r: (Combat, RoundOutcome))
    requires
        can_record_battle(combat_data@, battle, *game_data),
    ensures
        (r.0@, r.1) == battle_recorded(combat_data@, battle, *game_data),
{
    let mut combat_data = combat_data;
    match battle {
        BattleEnd::Defeat => {
            combat_data.player_health = combat_data.player_health.minus(game_data.health_on_loss);
        },
        BattleEnd::Victory => {
            combat_data.player_wins = combat_data.player_wins + 1;
        },
        BattleEnd::Draw => {},
    }
    if combat_data.player_wins == game_data.wins_for_victory {
        combat_data.state = false;
        return (combat_data, RoundOutcome::GameWon);
    }
    if combat_data.player_health.is_not_positive() {
        combat_data.state = false;
        return (combat_data, RoundOutcome::GameLost);
    }
    (combat_data, RoundOutcome::Continues)
}

/// Records the battle as `record_battle` does, or returns `None` exactly
/// when the result cannot be recorded (where the game would abort the
/// transaction).
pub fn try_record_battle(combat_data: Combat, battle: BattleEnd, game_data: &GameData) -> (r: Option<(Combat, RoundOutcome)>)
    ensures
        r is Some <==> can_record_battle(combat_data@, battle, *game_data),
        r matches Some(p) ==> (p.0@, p.1) == battle_recorded(combat_data@, battle, *game_data),
{
    let ok: bool = match battle {
        BattleEnd::Defeat => combat_data.player_health.checked_minus(game_data.health_on_loss).is_some(),
        BattleEnd::Victory => combat_data.player_wins < u8::MAX,
        BattleEnd::Draw => true,
    };
    if !ok {
        return None;
    }
    Some(record_battle(combat_data, battle, game_data))
}

/// The team the player fights this round: the scouted enemy when there is
/// one, else the team drawn from matchmaking (`None` when there is neither,
/// where the game would abort the transaction).
pub fn pick_opponent(
    combat_data: &Combat,
    drawn: Option<Vec<Option<FighterInfo>>>,
) -> (r: Option<Vec<Option<FighterInfo>>>)
    ensures
        match combat_data.next_enemy {
            Some(e) => r matches Some(v) && v@ == e@,
            None => (r is Some <==> drawn is Some) && (r matches Some(v) ==> v@ == drawn->0@),
        },
{
    match &combat_data.next_enemy {
        Some(e) => Some(copy_slots(e)),
        None => drawn,
    }
}

/// The account after a won game: one more total win and the game's final
/// state; `None` when the win count would overflow (where the game would
/// abort the transaction).
pub fn record_win(account: Account, combat_data: Combat) -> (r: Option<Account>)
    ensures
        r is Some <==> account.total_wins < u128::MAX,
        r matches Some(a) ==> a.total_wins == account.total_wins + 1 && a.skins_equiped == account.skins_equiped
            && a.combat_info@ == combat_data@ && a.shop_info@ == account.shop_info@,
{
    if account.total_wins == u128::MAX {
        return None;
    }
    Some(Account {
        total_wins: account.total_wins + 1,
        skins_equiped: account.skins_equiped,
        combat_info: combat_data,
        shop_info: account.shop_info,
    })
}

/// The shop tier of a round: tier one for rounds one and two, tier two for
/// rounds three and four, and so on up to tier five for rounds nine and ten;
/// any other round (past ten, or zero) has tier six.
pub open spec fn tier_for_round(round: u8) -> u8 {
    if 1 <= round <= 2 {
        1
    } else if 3 <= round <= 4 {
        2
    } else if 5 <= round <= 6 {
        3
    } else if 7 <= round <= 8 {
        4
    } else if 9 <= round <= 10 {
        5
    } else {
        6
    }
}

/// The shop tier of a round.
pub fn shop_tier_for_round(round: u8) -> (r: u8)
    ensures
        r == tier_for_round(round),
{
    if 1 <= round && round <= 2 {
        1
    } else if 3 <= round && round <= 4 {
        2
    } else if 5 <= round && round <= 6 {
        3
    } else if 7 <= round && round <= 8 {
        4
    } else if 9 <= round && round <= 10 {
        5
    } else {
        6
    }
}

/// The number of rounds in `0..n` that are multiples of `k`.
pub open spec fn multiples_below(n: nat, k: nat) -> nat
    decreases n,
{
    if n == 0 {
        0
    } else {
        multiples_below((n - 1) as nat, k) + if (n - 1) as nat % k == 0 { 1nat } else { 0nat }
    }
}

/// `n` empty slots.
pub open spec fn empty_slots(n: nat) -> Seq<Option<FighterInfo>> {
    Seq::new(n, |i: int| None::<FighterInfo>)
}

/// How many fighters and pieces of gear the shop gains on top of its base
/// offer in a round: one of each for every multiple of the shop increase
/// below the round number.
pub fn extra_shop_slots(round: u8, game_data: &GameData) -> (r: u8)
    requires
        game_data.rounds_for_shop_increase > 0,
    ensures
        r == multiples_below(round as nat, game_data.rounds_for_shop_increase as nat),
{
    let k: u8 = game_data.rounds_for_shop_increase;
    let mut count: u8 = 0;
    let mut i: u8 = 0;
    while i < round
        invariant
            i <= round,
            k == game_data.rounds_for_shop_increase,
            k > 0,
            count == multiples_below(i as nat, k as nat),
            count <= i,
        decreases round - i,
    {
        if i % k == 0 {
            count = count + 1;
        }
        i = i + 1;
    }
    count
}

/// The team after growing for the next round: the shop tier follows the
/// round, and the bench and the team each gain an empty slot for every
/// multiple of their increase below the round number.
pub open spec fn grown(c: CombatView, game_data: GameData) -> CombatView {
    CombatView {
        shop_tier: tier_for_round(c.round),
        bench: c.bench + empty_slots(multiples_below(c.round as nat, game_data.rounds_for_bench_increase as nat)),
        fighters: c.fighters + empty_slots(
            multiples_below(c.round as nat, game_data.rounds_for_fighter_increase as nat),
        ),
        ..c
    }
}

/// Sets the shop tier for the round and grows the bench and the team.
pub fn grow_team(combat_data: Combat, game_data: &GameData) -> (r: Combat)
    requires
        game_data.rounds_for_bench_increase > 0,
        game_data.rounds_for_fighter_increase > 0,
    ensures
        r@ == grown(combat_data@, *game_data),
{
    let ghost before = combat_data@;
    let mut combat_data = combat_data;
    combat_data.shop_tier = shop_tier_for_round(combat_data.round);
    let kb: u8 = game_data.rounds_for_bench_increase;
    let kf: u8 = game_data.rounds_for_fighter_increase;
    let mut round: u8 = 0;
    while round < combat_data.round
        invariant
            round <= combat_data.round,
            combat_data.round == before.round,
            kb == game_data.rounds_for_bench_increase,
            kf == game_data.rounds_for_fighter_increase,
            kb > 0,
            kf > 0,
            combat_data.bench@ == before.bench + empty_slots(multiples_below(round as nat, kb as nat)),
            combat_data.fighters@ == before.fighters + empty_slots(multiples_below(round as nat, kf as nat)),
            combat_data@ == (CombatView {
                shop_tier: tier_for_round(before.round),
                bench: combat_data.bench@,
                fighters: combat_data.fighters@,
                ..before
            }),
        decreases combat_data.round - round,
    {
        if round % kb == 0 {
            combat_data.bench.push(None);
        }
        if round % kf == 0 {
            combat_data.fighters.push(None);
        }
        proof {
            let nb = multiples_below(round as nat, kb as nat);
            let nf = multiples_below(round as nat, kf as nat);
            assert(empty_slots(nb).push(None) =~= empty_slots(nb + 1));
            assert(empty_slots(nf).push(None) =~= empty_slots(nf + 1));
            assert((before.bench + empty_slots(nb)).push(None) =~= before.bench + empty_slots(nb).push(None));
            assert((before.fighters + empty_slots(nf)).push(None) =~= before.fighters + empty_slots(nf).push(None));
        }
        round = round + 1;
    }
    combat_data
}

/// The extra draws that the player's bonus for the next round calls for.
#[derive(Clone, Copy, Debug, PartialEq, Eq, Structural)]
pub struct BonusDraws {
    /// Extra fighters to draw into the shop.
    pub fighters: u8,
    /// Extra pieces of gear to draw into the shop.
    pub gear: u8,
    /// Whether to scout the next enemy.
    pub scout: bool,
}

/// The game state after the chosen bonus is granted: the scouted enemy is
/// forgotten and a gold bonus adds the round number in gold.
pub open spec fn bonus_granted(c: CombatView) -> CombatView {
    let c1 = CombatView { next_enemy: None, ..c };
    if c.next_round_choice is MoreGold {
        CombatView { gold: (c.gold + c.round) as u8, ..c1 }
    } else {
        c1
    }
}

/// The draws a bonus calls for: the gear bonus brings one extra fighter per
/// round number, the fighters bonus one extra piece of gear per round
/// number, and the scouter a scouted enemy.
pub open spec fn bonus_draws(c: CombatView) -> BonusDraws {
    BonusDraws {
        fighters: if c.next_round_choice is MoreGear { c.round } else { 0 },
        gear: if c.next_round_choice is MoreFighters { c.round } else { 0 },
        scout: c.next_round_choice is EnemyScouter,
    }
}

/// Grants the bonus the player picked last round and tells which extra
/// draws it calls for.
pub fn grant_bonus(combat_data: Combat) -> (r: (Combat, BonusDraws))
    requires
        combat_data.next_round_choice is MoreGold ==> combat_data.gold + combat_data.round <= u8::MAX,
    ensures
        r.0@ == bonus_granted(combat_data@),
        r.1 == bonus_draws(combat_data@),
{
    let mut combat_data = combat_data;
    combat_data.next_enemy = None;
    let mut draws: BonusDraws = BonusDraws { fighters: 0, gear: 0, scout: false };
    match combat_data.next_round_choice {
        Choices::EnemyScouter => {
            draws.scout = true;
        },
        Choices::MoreGold => {
            combat_data.gold = combat_data.gold + combat_data.round;
        },
        Choices::MoreGear => {
            draws.fighters = combat_data.round;
        },
        Choices::MoreFighters => {
            draws.gear = combat_data.round;
        },
        Choices::NoChoice => {},
    }
    (combat_data, draws)
}

/// Grants the bonus as `grant_bonus` does, or returns `None` exactly when a
/// gold bonus would not fit (where the game would abort the transaction).
pub fn try_grant_bonus(combat_data: Combat) -> (r: Option<(Combat, BonusDraws)>)
    ensures
        r is Some <==> (combat_data.next_round_choice is MoreGold ==> combat_data.gold + combat_data.round <= u8::MAX),
        r matches Some(p) ==> p.0@ == bonus_granted(combat_data@) && p.1 == bonus_draws(combat_data@),
{
    let fits: bool = match combat_data.next_round_choice {
        Choices::MoreGold => combat_data.gold.checked_add(combat_data.round).is_some(),
        _ => true,
    };
    if !fits {
        return None;
    }
    Some(grant_bonus(combat_data))
}

/// The game state at the start of the next round: still in a game, one
/// round further, with the player's new bonus choice.
pub open spec fn next_round_state(c: CombatView, choice: Choices) -> CombatView {
    CombatView { state: true, round: (c.round + 1) as u8, next_round_choice: choice, ..c }
}

/// Moves the game on to the next round with the player's new bonus choice.
pub fn next_round(combat_data: Combat, choice: Choices) -> (r: Combat)
    requires
        combat_data.round < u8::MAX,
    ensures
        r@ == next_round_state(combat_data@, choice),
{
    let mut combat_data = combat_data;
    combat_data.state = true;
    combat_data.round = combat_data.round + 1;
    combat_data.next_round_choice = choice;
    combat_data
}

/// Whether `x` is the first bracket of `thresholds` holding `odds`: for
/// fighters `thresholds[x] <= odds < thresholds[x + 1]`, for gear
/// `thresholds[x] < odds <= thresholds[x + 1]`.
pub open spec fn in_bracket(thresholds: Seq<u8>, odds: u128, x: int, for_gear: bool) -> bool {
    &&& 0 <= x
    &&& x + 1 < thresholds.len()
    &&& if for_gear {
        thresholds[x] < odds <= thresholds[x + 1]
    } else {
        thresholds[x] <= odds < thresholds[x + 1]
    }
}

/// Whether some bracket of `thresholds` holds `odds`.
pub open spec fn has_bracket(thresholds: Seq<u8>, odds: u128, for_gear: bool) -> bool {
    exists|x: int| #[trigger] in_bracket(thresholds, odds, x, for_gear)
}

/// Whether `x` is the first bracket of `thresholds` holding `odds`.
pub open spec fn is_first_bracket(thresholds: Seq<u8>, odds: u128, x: int, for_gear: bool) -> bool {
    &&& in_bracket(thresholds, odds, x, for_gear)
    &&& forall|y: int| 0 <= y < x ==> !#[trigger] in_bracket(thresholds, odds, y, for_gear)
}

/// The tier a random draw of `odds` selects under a shop tier's odds
/// thresholds: one more than the first bracket holding the odds (kept to
/// its low byte); `None` when no bracket holds them (where the game would
/// abort the transaction).
pub fn random_tier(odds: u128, thresholds: &Vec<u8>, for_gear: bool) -> (r: Option<u8>)
    ensures
        r is Some <==> has_bracket(thresholds@, odds, for_gear),
        r matches Some(t) ==> exists|x: int| #[trigger] is_first_bracket(thresholds@, odds, x, for_gear) && t == (x + 1) % 256,
{
    if thresholds.len() == 0 {
        return None;
    }
    let last: usize = thresholds.len() - 1;
    let mut x: usize = 0;
    while x < last
        invariant
            last + 1 == thresholds.len(),
            x <= last,
            forall|y: int| 0 <= y < x ==> !#[trigger] in_bracket(thresholds@, odds, y, for_gear),
        decreases last - x,
    {
        let low: u128 = thresholds[x] as u128;
        let high: u128 = thresholds[x + 1] as u128;
        let hit: bool = if for_gear { low < odds && odds <= high } else { low <= odds && odds < high };
        if hit {
            assert(is_first_bracket(thresholds@, odds, x as int, for_gear));
            return Some(((x + 1) % 256) as u8);
        }
        x = x + 1;
    }
    proof {
        if has_bracket(thresholds@, odds, for_gear) {
            let w = choose|w: int| #[trigger] in_bracket(thresholds@, odds, w, for_gear);
            assert(!in_bracket(thresholds@, odds, w, for_gear));
        }
    }
    None
}

} // verus!
