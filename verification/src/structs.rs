use vstd::prelude::*;
use crate::decimal::Decimal;

verus! {

/// What a fighter's ability does.
#[derive(Clone, Copy, Debug, PartialEq, Eq, Structural)]
pub enum AbilityTypes {
    Gold,
    Gear,
    Summon,
    Stats,
    Exp,
}

/// The moment at which a fighter's ability fires.
#[derive(Clone, Copy, Debug, PartialEq, Eq, Structural)]
pub enum Activation {
    Buy,
    Sell,
    TurnEnd,
    TurnStart,
    Hurt(u8),
    Death,
    Buff(u8),
    CombatStart,
    Kill,
    Hit,
    Passive,
    Levelup,
    ShopTierUp,
    AllySummon,
    EnemySummon,
}

/// Which slot of a team an ability aims at.
#[derive(Clone, Copy, Debug, PartialEq, Eq, Structural)]
pub enum Position {
    Last,
    First,
    MostHP,
    LeastHP,
    MostATK,
    LeastATK,
    Specific(usize),
    Random,
}

/// Whose team an ability aims at.
#[derive(Clone, Copy, Debug, PartialEq, Eq, Structural)]
pub enum Targeting {
    User,
    Ally(Position),
    Enemy(Position),
}

/// The bonus a player picks for the next round.
#[derive(Clone, Copy, Debug, PartialEq, Eq, Structural)]
pub enum Choices {
    EnemyScouter,
    MoreFighters,
    MoreGear,
    MoreGold,
    /// No bonus (named `None` in the game's data).
    NoChoice,
}

/// How a battle ended, seen from the attacking team.
#[derive(Clone, Copy, Debug, PartialEq, Eq, Structural)]
pub enum BattleEnd {
    Victory,
    Defeat,
    Draw,
}

/// A fighter's ability.
#[derive(Clone, Copy, Debug, Eq)]
pub struct AbilityInfo {
    pub effect: AbilityTypes,
    pub activation: Activation,
    pub summon: Option<(u128, u8)>,
    pub gold: Option<u8>,
    pub stats: Option<(Decimal, Decimal)>,
    pub exp: Option<u8>,
    pub targeting: Targeting,
    pub times: u8,
    pub repetition: u8,
}

impl PartialEq for AbilityInfo {
    fn eq(&self, other: &Self) -> (r: bool) {
        let summon_eq: bool = match (self.summon, other.summon) {
            (Some((a_id, a_tier)), Some((b_id, b_tier))) => a_id == b_id && a_tier == b_tier,
            (None, None) => true,
            _ => false,
        };
        let stats_eq: bool = match (self.stats, other.stats) {
            (Some((a_h, a_a)), Some((b_h, b_a))) => a_h == b_h && a_a == b_a,
            (None, None) => true,
            _ => false,
        };
        self.effect == other.effect && self.activation == other.activation && summon_eq
            && self.gold == other.gold && stats_eq && self.exp == other.exp
            && self.targeting == other.targeting && self.times == other.times
            && self.repetition == other.repetition
    }
}

impl vstd::std_specs::cmp::PartialEqSpecImpl for AbilityInfo {
    open spec fn obeys_eq_spec() -> bool {
        true
    }

    open spec fn eq_spec(&self, other: &AbilityInfo) -> bool {
        *self == *other
    }
}

/// A fighter: who it is, its tier and stats, its ability and its price.
#[derive(Clone, Copy, Debug, Eq)]
pub struct FighterInfo {
    pub id: u128,
    pub tier: u8,
    pub health: Decimal,
    pub attack: Decimal,
    pub ability: AbilityInfo,
    pub gear: u128,
    pub cost: u8,
}

impl PartialEq for FighterInfo {
    fn eq(&self, other: &Self) -> (r: bool) {
        self.id == other.id && self.tier == other.tier && self.health == other.health
            && self.attack == other.attack && self.ability == other.ability
            && self.gear == other.gear && self.cost == other.cost
    }
}

impl vstd::std_specs::cmp::PartialEqSpecImpl for FighterInfo {
    open spec fn obeys_eq_spec() -> bool {
        true
    }

    open spec fn eq_spec(&self, other: &FighterInfo) -> bool {
        *self == *other
    }
}

/// A piece of gear offered in the shop.
#[derive(Clone, Copy, Debug, PartialEq, Eq, Structural)]
pub struct GearInfo {
    pub id: u128,
    pub tier: u8,
    pub cost: u8,
}

/// What the shop offers this round; an empty slot is `None`.
#[derive(Clone, Debug, PartialEq, Eq)]
pub struct Shop {
    pub fighters: Vec<Option<FighterInfo>>,
    pub gear: Vec<Option<GearInfo>>,
}

/// A player's state within one game.
#[derive(Clone, Debug, PartialEq, Eq)]
pub struct Combat {
    pub state: bool,
    pub round: u8,
    pub shop_tier: u8,
    pub fighters: Vec<Option<FighterInfo>>,
    pub bench: Vec<Option<FighterInfo>>,
    pub next_round_choice: Choices,
    pub gold: u8,
    pub player_health: Decimal,
    pub player_wins: u8,
    pub next_enemy: Option<Vec<Option<FighterInfo>>>,
}

/// The abstract value of a `Shop`: its slots as sequences.
pub struct ShopView {
    pub fighters: Seq<Option<FighterInfo>>,
    pub gear: Seq<Option<GearInfo>>,
}

impl View for Shop {
    type V = ShopView;

    open spec fn view(&self) -> ShopView {
        ShopView { fighters: self.fighters@, gear: self.gear@ }
    }
}

/// The abstract value of a `Combat`: its fields, with the team, bench and
/// scouted enemy as sequences.
pub struct CombatView {
    pub state: bool,
    pub round: u8,
    pub shop_tier: u8,
    pub fighters: Seq<Option<FighterInfo>>,
    pub bench: Seq<Option<FighterInfo>>,
    pub next_round_choice: Choices,
    pub gold: u8,
    pub player_health: Decimal,
    pub player_wins: u8,
    pub next_enemy: Option<Seq<Option<FighterInfo>>>,
}

impl View for Combat {
    type V = CombatView;

    open spec fn view(&self) -> CombatView {
        CombatView {
            state: self.state,
            round: self.round,
            shop_tier: self.shop_tier,
            fighters: self.fighters@,
            bench: self.bench@,
            next_round_choice: self.next_round_choice,
            gold: self.gold,
            player_health: self.player_health,
            player_wins: self.player_wins,
            next_enemy: match self.next_enemy {
                Some(v) => Some(v@),
                None => None,
            },
        }
    }
}

/// The data an account keeps between games.
#[derive(Clone, Debug, PartialEq, Eq)]
pub struct Account {
    pub total_wins: u128,
    pub skins_equiped: u32,
    pub combat_info: Combat,
    pub shop_info: Shop,
}

/// A move a player makes in the shop between battles.
#[derive(Debug, PartialEq, Eq)]
pub enum Actions {
    Sell(FighterInfo),
    Buy(FighterInfo),
    Use((GearInfo, FighterInfo)),
    SetFighters((Vec<Option<FighterInfo>>, Vec<Option<FighterInfo>>)),
    Combine((FighterInfo, FighterInfo, bool)),
}

impl Clone for Actions {
    fn clone(&self) -> (r: Self) {
        match self {
            Actions::Sell(f) => Actions::Sell(*f),
            Actions::Buy(f) => Actions::Buy(*f),
            Actions::Use((g, f)) => Actions::Use((*g, *f)),
            Actions::SetFighters((fighters, bench)) => Actions::SetFighters((fighters.clone(), bench.clone())),
            Actions::Combine((big, smol, buy)) => Actions::Combine((*big, *smol, *buy)),
        }
    }
}

/// Whether two team slots hold the same fighter (or are both empty).
pub fn same_slot(a: &Option<FighterInfo>, b: &Option<FighterInfo>) -> (r: bool)
    ensures
        r == (*a == *b),
{
    match (a, b) {
        (Some(x), Some(y)) => x == y,
        (None, None) => true,
        _ => false,
    }
}

} // verus!
