//! The arithmetic of one attack: thresholds, damage and special-move levels.
use vstd::prelude::*;
use crate::character::{CombatantId, SpecialAbilities, sat_sub, min};

verus! {

/// The action a combatant declares for its turn.
#[derive(Clone, Copy, Debug, PartialEq, Eq, Structural)]
pub struct QueuedAction {
    pub target: CombatantId,
    pub finte_level: u32,
    pub wuchtschlag_level: u32,
}

impl QueuedAction {
    pub fn new(target: CombatantId, finte_level: u32, wuchtschlag_level: u32) -> (r: QueuedAction)
        ensures
            r == (QueuedAction { target, finte_level, wuchtschlag_level }),
    {
        QueuedAction { target, finte_level, wuchtschlag_level }
    }

    pub open spec fn clamp_spec(self, caps: SpecialAbilities) -> QueuedAction {
        QueuedAction {
            target: self.target,
            finte_level: min(self.finte_level as int, caps.finte_level as int) as u32,
            wuchtschlag_level: min(
                self.wuchtschlag_level as int,
                caps.wuchtschlag_level as int,
            ) as u32,
        }
    }

    /// The same action with each level lowered to the cap where it exceeds it.
    pub fn clamped(&self, caps: SpecialAbilities) -> (r: QueuedAction)
        ensures
            r == self.clamp_spec(caps),
    {
        QueuedAction {
            target: self.target,
            finte_level: clamp_level(self.finte_level, caps.finte_level),
            wuchtschlag_level: clamp_level(self.wuchtschlag_level, caps.wuchtschlag_level),
        }
    }
}

pub fn clamp_level(level: u32, cap: u32) -> (r: u32)
    ensures
        r == min(level as int, cap as int),
{
    if level <= cap {
        level
    } else {
        cap
    }
}

/// The highest d20 roll that still hits: the attack value less the finte level
/// and twice the wuchtschlag level, and not below zero.
pub open spec fn attack_threshold(attack: u32, finte: u32, wuchtschlag: u32) -> int {
    sat_sub(attack as int, finte + 2 * wuchtschlag)
}

/// The highest d20 roll that still parries: the defense value less twice the
/// attacker's finte level, and not below zero.
pub open spec fn defense_threshold(defense: u32, finte: u32) -> int {
    sat_sub(defense as int, 2 * finte)
}

/// The damage of a hit before armor: base damage, the bonus dice, and twice
/// the wuchtschlag level.
pub open spec fn raw_damage(damage: u32, dice_sum: int, wuchtschlag: u32) -> int {
    damage + dice_sum + 2 * wuchtschlag
}

/// The damage that armor lets through.
pub open spec fn mitigated(raw: int, armor: u32) -> int {
    sat_sub(raw, armor as int)
}

pub fn hit_threshold(attack: u32, finte: u32, wuchtschlag: u32) -> (r: u32)
    ensures
        r == attack_threshold(attack, finte, wuchtschlag),
{
    let penalty: u64 = finte as u64 + 2 * (wuchtschlag as u64);
    if (attack as u64) > penalty {
        (attack as u64 - penalty) as u32
    } else {
        0
    }
}

pub fn parry_threshold(defense: u32, finte: u32) -> (r: u32)
    ensures
        r == defense_threshold(defense, finte),
{
    let penalty: u64 = 2 * (finte as u64);
    if (defense as u64) > penalty {
        (defense as u64 - penalty) as u32
    } else {
        0
    }
}

pub fn damage_through_armor(raw: u64, armor: u32) -> (r: u64)
    ensures
        r == mitigated(raw as int, armor),
{
    raw.saturating_sub(armor as u64)
}

/// Whether an attack with the hit roll `roll` lands.
pub fn attack_lands(attack: u32, finte: u32, wuchtschlag: u32, roll: u32) -> (r: bool)
    ensures
        r == (roll <= attack_threshold(attack, finte, wuchtschlag)),
{
    roll <= hit_threshold(attack, finte, wuchtschlag)
}

/// Whether the defender parries with the parry roll `roll`.
pub fn parried(defense: u32, finte: u32, roll: u32) -> (r: bool)
    ensures
        r == (roll <= defense_threshold(defense, finte)),
{
    roll <= parry_threshold(defense, finte)
}

/// The damage a landed, unparried hit does through armor, where the damage
/// dice summed to `dice_sum`.
pub fn hit_damage(damage: u32, dice_sum: u64, wuchtschlag: u32, armor: u32) -> (r: u64)
    requires
        dice_sum <= 20 * (u32::MAX as u64),
    ensures
        r == mitigated(raw_damage(damage, dice_sum as int, wuchtschlag), armor),
{
    let raw: u64 = damage as u64 + dice_sum + 2 * (wuchtschlag as u64);
    damage_through_armor(raw, armor)
}

/// Without special moves the thresholds are the plain attack and defense
/// values, and a hit carries no bonus damage.
pub proof fn lemma_no_special_moves(attack: u32, defense: u32, damage: u32, dice_sum: int)
    ensures
        attack_threshold(attack, 0, 0) == attack,
        defense_threshold(defense, 0) == defense,
        raw_damage(damage, dice_sum, 0) == damage + dice_sum,
{
}

/// A wuchtschlag of level `w` adds exactly `2w` damage and lowers the attack
/// threshold by `2w` (not below zero).
pub proof fn lemma_wuchtschlag(attack: u32, finte: u32, w: u32, damage: u32, dice_sum: int)
    ensures
        raw_damage(damage, dice_sum, w) == raw_damage(damage, dice_sum, 0) + 2 * w,
        attack_threshold(attack, finte, w) == sat_sub(
            attack_threshold(attack, finte, 0),
            2 * w,
        ),
{
}

/// Armor at least as high as the raw damage lets nothing through.
pub proof fn lemma_armor_absorbs(raw: int, armor: u32)
    requires
        armor >= raw,
    ensures
        mitigated(raw, armor) == 0,
{
}

} // verus!
