//! Combatants: their side, name, stat block and health.
use vstd::prelude::*;

verus! {

/// Which party a combatant fights for.
#[derive(Clone, Copy, Debug, PartialEq, Eq, Structural)]
pub enum Side {
    Player,
    Enemy,
}

/// A stable handle for a registered combatant: its registration index.
#[derive(Clone, Copy, Debug, PartialEq, Eq, Structural)]
pub struct CombatantId {
    pub index: usize,
}

/// The configuration record a combatant is registered with.
#[derive(Clone, Copy, Debug, PartialEq, Eq, Structural)]
pub struct Stats {
    pub life: u32,
    pub armor: u32,
    pub initiative: u32,
    pub attack: u32,
    pub defense: u32,
    pub damage: u32,
    /// Number of d20 rolled as bonus damage on a hit.
    pub dice_count: u32,
    /// Highest finte level this combatant may declare.
    pub finte_cap: u32,
    /// Highest wuchtschlag level this combatant may declare.
    pub wuchtschlag_cap: u32,
}

/// Current and maximum health.
#[derive(Clone, Copy, Debug, PartialEq, Eq, Structural)]
pub struct Health {
    pub current: u32,
    pub max: u32,
}

impl Health {
    pub fn new(life: u32) -> (r: Health)
        ensures
            r == (Health { current: life, max: life }),
    {
        Health { current: life, max: life }
    }

    pub open spec fn alive(self) -> bool {
        self.current > 0
    }

    pub fn is_alive(&self) -> (r: bool)
        ensures
            r == self.alive(),
    {
        self.current > 0
    }

    /// Lowers `current` by `amount` less `armor`, stopping at zero, and returns
    /// the damage that armor let through.
    pub fn take_damage(&mut self, amount: u32, armor: u32) -> (r: u32)
        ensures
            r == sat_sub(amount as int, armor as int),
            final(self).max == old(self).max,
            final(self).current == sat_sub(old(self).current as int, r as int),
    {
        let actual = amount.saturating_sub(armor);
        self.current = self.current.saturating_sub(actual);
        actual
    }

    /// Raises `current` by `amount`, but not above `max`.
    pub fn heal(&mut self, amount: u32)
        requires
            old(self).current <= old(self).max,
        ensures
            final(self).max == old(self).max,
            final(self).current == min(old(self).current + amount, old(self).max as int),
    {
        if amount >= self.max - self.current {
            self.current = self.max;
        } else {
            self.current = self.current + amount;
        }
    }
}

/// `a - b`, or zero where `b` exceeds `a`.
pub open spec fn sat_sub(a: int, b: int) -> int {
    if a > b {
        a - b
    } else {
        0
    }
}

pub open spec fn min(a: int, b: int) -> int {
    if a <= b {
        a
    } else {
        b
    }
}

/// The special-move levels a combatant may declare at most.
#[derive(Clone, Copy, Debug, PartialEq, Eq, Structural)]
pub struct SpecialAbilities {
    pub finte_level: u32,
    pub wuchtschlag_level: u32,
}

impl SpecialAbilities {
    pub fn new(finte: u32, wuchtschlag: u32) -> (r: SpecialAbilities)
        ensures
            r == (SpecialAbilities { finte_level: finte, wuchtschlag_level: wuchtschlag }),
    {
        SpecialAbilities { finte_level: finte, wuchtschlag_level: wuchtschlag }
    }
}

/// The initiative a combatant was registered with, and its roll for the
/// current combat (`base` plus a d6).
#[derive(Clone, Copy, Debug, PartialEq, Eq, Structural)]
pub struct Initiative {
    pub base: u32,
    pub randomized: u64,
}

impl Initiative {
    pub fn new(base: u32) -> (r: Initiative)
        ensures
            r == (Initiative { base, randomized: 0 }),
    {
        Initiative { base, randomized: 0 }
    }
}

/// A registered combatant. Its name is for messages only.
pub struct Combatant {
    pub side: Side,
    pub name: String,
    pub stats: Stats,
}

/// What the rules read of a combatant.
pub ghost struct CombatantView {
    pub side: Side,
    pub name: Seq<char>,
    pub stats: Stats,
}

impl View for Combatant {
    type V = CombatantView;

    open spec fn view(&self) -> CombatantView {
        CombatantView { side: self.side, name: self.name@, stats: self.stats }
    }
}

impl Combatant {
    pub fn new(side: Side, name: String, stats: Stats) -> (r: Combatant)
        ensures
            r@ == (CombatantView { side, name: name@, stats }),
    {
        Combatant { side, name, stats }
    }

    pub fn abilities(&self) -> (r: SpecialAbilities)
        ensures
            r.finte_level == self.stats.finte_cap,
            r.wuchtschlag_level == self.stats.wuchtschlag_cap,
    {
        SpecialAbilities::new(self.stats.finte_cap, self.stats.wuchtschlag_cap)
    }
}

} // verus!
