//! Laws of the battle, stated over its abstract state and proved.
use vstd::prelude::*;
use crate::battle::{BattleView, CombatError, Phase, dealt, action_kind, lemma_dealt_nonneg};
use crate::character::{CombatantId, Health, Side, sat_sub, min};
use crate::events::{EventView, MessageType, announce_text, miss_text};
use crate::rules::{QueuedAction, attack_threshold, mitigated, raw_damage};
use crate::dice::lemma_d20s_range;
use crate::turn_order::initiative_order;

verus! {

/// Health stays in `[0, max]`. Every operation of `BattleState` keeps its state
/// well-formed, and in a well-formed state no combatant's health exceeds its
/// maximum (and, being unsigned, none is negative).
pub proof fn lemma_health_in_range(v: BattleView, i: int)
    requires
        v.wf(),
        0 <= i < v.len(),
    ensures
        0 <= v.healths[i].current <= v.healths[i].max,
{
    lemma_dealt_nonneg(v.damage_log, i);
}

/// The damage applied to a combatant over the battle adds up to the health it
/// lost while it lives, and to at least its starting health once it is down.
pub proof fn lemma_damage_accounting(v: BattleView, i: int)
    requires
        v.wf(),
        0 <= i < v.len(),
    ensures
        v.alive(i) ==> dealt(v.damage_log, i) == v.combatants[i].stats.life
            - v.healths[i].current,
        !v.alive(i) ==> dealt(v.damage_log, i) >= v.combatants[i].stats.life,
{
    lemma_dealt_nonneg(v.damage_log, i);
}

/// Two combatants with equal initiative rolls take their turns in
/// registration order.
pub proof fn lemma_initiative_ties(v: BattleView, i: int, j: int)
    requires
        v.wf(),
        0 <= i < j < v.turn_order.len(),
        v.rolls[v.turn_order[i].index as int] == v.rolls[v.turn_order[j].index as int],
    ensures
        v.turn_order[i].index < v.turn_order[j].index,
{
    assert(crate::turn_order::goes_before(v.rolls, v.turn_order[i], v.turn_order[j]));
}

/// A missed attack adds the announcement, of the attacker's action kind, and
/// exactly one miss notice, a `PlayerAction` message, and nothing else: no
/// damage, no parry, no change to anyone's health.
pub proof fn lemma_missed_attack(v: BattleView, a: int, act: QueuedAction)
    requires
        v.wf(),
        0 <= a < v.len(),
        act.target.index < v.len(),
        v.dice.roll(1, 20).0 > attack_threshold(
            v.combatants[a].stats.attack,
            min(act.finte_level as int, v.combatants[a].stats.finte_cap as int) as u32,
            min(act.wuchtschlag_level as int, v.combatants[a].stats.wuchtschlag_cap as int) as u32,
        ),
    ensures
        v.resolve(a, act).events == v.events.push(
            EventView {
                kind: action_kind(v.side_of(a)),
                text: announce_text(v.combatants[a].name),
                delay_ms: 0,
            },
        ).push(
            EventView {
                kind: MessageType::PlayerAction,
                text: miss_text(v.combatants[a].name),
                delay_ms: 0,
            },
        ),
        v.resolve(a, act).healths == v.healths,
        v.resolve(a, act).damage_log == v.damage_log,
{
}

/// Damage that armor absorbs entirely leaves the target's health unchanged.
pub proof fn lemma_armor_absorbs_hit(v: BattleView, t: int, raw: int, armor: u32)
    requires
        v.wf(),
        0 <= t < v.len(),
        armor >= raw,
    ensures
        mitigated(raw, armor) == 0,
        v.hurt(t, mitigated(raw, armor)).healths == v.healths,
{
    assert(v.hurt(t, 0).healths =~= v.healths);
}

proof fn lemma_skip_dead_healths(v: BattleView)
    ensures
        v.skip_dead().healths == v.healths,
    decreases v.turn_order.len() - v.cursor,
{
    if 0 <= v.cursor < v.turn_order.len() && !v.alive(v.turn_order[v.cursor].index as int) {
        lemma_skip_dead_healths(BattleView { cursor: v.cursor + 1, ..v });
    }
}

proof fn lemma_settle_healths(v: BattleView)
    ensures
        v.settle().healths == v.healths,
{
    lemma_skip_dead_healths(v);
    lemma_skip_dead_healths(v.skip_dead().rollover());
}

/// No health rises in a step: each combatant's health after a step is at most
/// what it was before.
pub proof fn lemma_step_never_heals(v: BattleView, i: int)
    requires
        v.wf(),
        0 <= i < v.len(),
    ensures
        v.step().healths.len() == v.healths.len(),
        v.step().healths[i].current <= v.healths[i].current,
{
    if v.phase == Phase::ReadyToResolve && 0 <= v.cursor < v.turn_order.len() {
        let a = v.turn_order[v.cursor].index as int;
        let r = if v.side_of(a) == Side::Enemy {
            let (act, w) = v.plan(a);
            w.resolve(a, act)
        } else {
            v.resolve(a, v.pending.unwrap())
        };
        if v.side_of(a) == Side::Enemy || v.pending.is_some() {
            lemma_settle_healths(BattleView { pending: None, cursor: r.cursor + 1, ..r });
        }
    }
}

/// A finished battle stays finished: stepping changes nothing and every
/// operation that would change it is refused.
pub proof fn lemma_finished_absorbing(v: BattleView, id: CombatantId, act: QueuedAction, side: Side)
    requires
        v.phase is Finished,
    ensures
        v.step() == v,
        v.submit_error(id, act) == Some(CombatError::WrongPhase),
        v.add_error(side) == Some(CombatError::WrongPhase),
{
}

proof fn lemma_skip_dead_frame(v: BattleView)
    requires
        0 <= v.cursor,
    ensures
        v.skip_dead().cursor >= v.cursor,
        v.skip_dead().round == v.round,
        v.skip_dead().phase == v.phase,
    decreases v.turn_order.len() - v.cursor,
{
    if 0 <= v.cursor < v.turn_order.len() && !v.alive(v.turn_order[v.cursor].index as int) {
        lemma_skip_dead_frame(BattleView { cursor: v.cursor + 1, ..v });
    }
}

proof fn lemma_settle_progress(v: BattleView)
    requires
        0 <= v.cursor,
        v.round < u32::MAX,
    ensures
        v.settle().phase is Finished || v.settle().round > v.round || (v.settle().round == v.round
            && v.settle().cursor >= v.cursor),
{
    if v.winner().is_none() {
        lemma_skip_dead_frame(v);
        let s = v.skip_dead();
        if s.cursor >= s.turn_order.len() {
            lemma_skip_dead_frame(s.rollover());
        }
    }
}

/// Each step in which an action is ready makes progress: the battle ends, a
/// new round opens, or the turn passes to a later place in the same round.
/// So no round runs forever. (The round count stops at the largest `u32`,
/// which this leaves out.)
pub proof fn lemma_step_progress(v: BattleView)
    requires
        v.wf(),
        v.phase == Phase::ReadyToResolve,
        v.round < u32::MAX,
    ensures
        v.step().phase is Finished || v.step().round > v.round || (v.step().round == v.round
            && v.step().cursor > v.cursor),
{
    let a = v.turn_order[v.cursor].index as int;
    if v.side_of(a) == Side::Enemy {
        let p = choose|i: int|
            0 <= i < v.len() && v.combatants[i].side == Side::Player && (#[trigger] v.healths[
                i]).current > 0;
        assert(v.player == Some(p as usize));
        let (act, w) = v.plan(a);
        let r = w.resolve(a, act);
        lemma_settle_progress(BattleView { pending: None, cursor: r.cursor + 1, ..r });
    } else {
        let r = v.resolve(a, v.pending.unwrap());
        lemma_settle_progress(BattleView { pending: None, cursor: r.cursor + 1, ..r });
    }
}

/// Once the combat has begun, the battle is finished exactly when the end
/// condition holds (the player is down, or every enemy is), and the winner is
/// the side the condition names.
pub proof fn lemma_finished_iff_decided(v: BattleView)
    requires
        v.wf(),
        v.phase != Phase::Idle,
    ensures
        v.phase is Finished <==> v.winner().is_some(),
        v.phase is Finished ==> v.winner() == Some(v.phase->winner),
{
}

/// Before its end, the combatant on turn is alive, and every living
/// combatant has a place in the turn order.
pub proof fn lemma_on_turn_alive(v: BattleView)
    requires
        v.wf(),
        v.phase == Phase::AwaitingPlayerAction || v.phase == Phase::ReadyToResolve,
    ensures
        v.current().is_some(),
        v.alive(v.current().unwrap().index as int),
        forall|i: int|
            0 <= i < v.len() && v.alive(i) ==> v.turn_order.contains(
                CombatantId { index: i as usize },
            ),
{
    assert forall|i: int| 0 <= i < v.len() && v.alive(i) implies v.turn_order.contains(
        CombatantId { index: i as usize },
    ) by {
        assert(v.healths[i].current > 0);
    }
}

/// An attacker with attack 0 always misses: every d20 is at least 1 and the
/// hit threshold is 0, so the resolution adds the announcement and the miss
/// notice only, and changes no health.
pub proof fn lemma_zero_attack_misses(v: BattleView, a: int, act: QueuedAction)
    requires
        v.wf(),
        0 <= a < v.len(),
        act.target.index < v.len(),
        v.combatants[a].stats.attack == 0,
    ensures
        v.resolve(a, act).events == v.events.push(
            EventView {
                kind: action_kind(v.side_of(a)),
                text: announce_text(v.combatants[a].name),
                delay_ms: 0,
            },
        ).push(
            EventView {
                kind: MessageType::PlayerAction,
                text: miss_text(v.combatants[a].name),
                delay_ms: 0,
            },
        ),
        v.resolve(a, act).healths == v.healths,
{
}

/// Armor at least as high as the largest damage an attacker can roll (base
/// damage, twenty per damage die, twice its highest wuchtschlag) absorbs every
/// hit of it: resolving its action changes no health, and a damage notice, if
/// any, reports 0.
pub proof fn lemma_armor_wall(v: BattleView, a: int, act: QueuedAction)
    requires
        v.wf(),
        0 <= a < v.len(),
        0 <= act.target.index < v.len(),
        v.combatants[act.target.index as int].stats.armor >= v.combatants[a].stats.damage + 20
            * v.combatants[a].stats.dice_count + 2 * v.combatants[a].stats.wuchtschlag_cap,
    ensures
        v.resolve(a, act).healths == v.healths,
{
    let att = v.combatants[a];
    let t = act.target.index as int;
    let w = min(act.wuchtschlag_level as int, att.stats.wuchtschlag_cap as int) as u32;
    let d1 = v.dice.roll(1, 20).1;
    lemma_d20s_range(d1, att.stats.dice_count as nat);
    let sum = d1.roll_d20s(att.stats.dice_count as nat).0;
    assert(raw_damage(att.stats.damage, sum, w) <= v.combatants[t].stats.armor);
    assert(v.hurt(t, 0).healths =~= v.healths);
}

/// The enemy's planned levels lie between 0 and its caps, and its target is
/// the player.
pub proof fn lemma_plan_levels(v: BattleView, a: int)
    requires
        v.wf(),
        0 <= a < v.len(),
        v.player.is_some(),
    ensures
        v.plan(a).0.finte_level <= v.combatants[a].stats.finte_cap,
        v.plan(a).0.wuchtschlag_level <= v.combatants[a].stats.wuchtschlag_cap,
        v.plan(a).0.target == (CombatantId { index: v.player.unwrap() }),
{
}

/// Each initiative roll is the combatant's base plus a d6 in `[1, 6]`.
pub proof fn lemma_initiative_rolls(v: BattleView, n: nat, i: int)
    requires
        n <= v.len(),
        0 <= i < n,
    ensures
        v.initiative_rolls(n).0.len() == n,
        v.combatants[i].stats.initiative + 1 <= v.initiative_rolls(n).0[i]
            <= v.combatants[i].stats.initiative + 6,
    decreases n,
{
    if i < n - 1 {
        lemma_initiative_rolls(v, (n - 1) as nat, i);
    }
    lemma_rolls_len(v, (n - 1) as nat);
}

proof fn lemma_rolls_len(v: BattleView, n: nat)
    ensures
        v.initiative_rolls(n).0.len() == n,
    decreases n,
{
    if n > 0 {
        lemma_rolls_len(v, (n - 1) as nat);
    }
}

/// Two combatants whose initiative bases differ by at least five: the one
/// with the higher base always goes first, whatever the dice, since a tie
/// keeps registration order and the first registered has the higher base.
pub proof fn lemma_initiative_gap(v: BattleView)
    requires
        v.wf(),
        v.phase == Phase::Idle,
        v.len() == 2,
        v.combatants[0].stats.initiative >= v.combatants[1].stats.initiative + 5,
        v.healths[0].current > 0,
        v.healths[1].current > 0,
        v.combatants[0].side != v.combatants[1].side,
    ensures
        v.begin().turn_order == seq![CombatantId { index: 0 }, CombatantId { index: 1 }],
{
    let u = v.emit(MessageType::CombatStart, crate::events::start_text(), 0);
    let (rolls, d) = u.initiative_rolls(2);
    lemma_initiative_rolls(u, 2, 0);
    lemma_initiative_rolls(u, 2, 1);
    let order = initiative_order(rolls, u.healths, 2);
    let first = initiative_order(rolls, u.healths, 1);
    let none = initiative_order(rolls, u.healths, 0);
    assert(none == Seq::<CombatantId>::empty());
    assert(crate::turn_order::insert_pos(none, rolls, rolls[0], 0) == 0);
    assert(first =~= seq![CombatantId { index: 0 }]);
    assert(crate::turn_order::insert_pos(first, rolls, rolls[1], 1) == 1);
    assert(crate::turn_order::insert_pos(first, rolls, rolls[1], 0) == 1);
    assert(order =~= seq![CombatantId { index: 0 }, CombatantId { index: 1 }]);
    let w = BattleView { rolls, dice: d, turn_order: order, round: 1, cursor: 0, ..u }.emit(
        MessageType::RoundStart,
        crate::events::round_text(1),
        0,
    );
    let p = if v.combatants[0].side == Side::Player { 0int } else { 1int };
    let e = 1 - p;
    assert(w.combatants[p].side == Side::Player && w.healths[p].current > 0);
    assert(w.combatants[e].side == Side::Enemy && w.healths[e].current > 0);
    assert(w.winner().is_none());
}

/// One resolution depends only on the roster, the healths and the dice: two
/// states that agree on those add the same two events and reach the same
/// healths and dice state.
pub proof fn lemma_resolve_determined(a: BattleView, b: BattleView, x: int, act: QueuedAction)
    requires
        a.combatants == b.combatants,
        a.healths == b.healths,
        a.dice == b.dice,
    ensures
        a.resolve(x, act).events.len() == a.events.len() + 2,
        b.resolve(x, act).events.len() == b.events.len() + 2,
        a.resolve(x, act).events.subrange(a.events.len() as int, a.events.len() + 2 as int)
            == b.resolve(x, act).events.subrange(b.events.len() as int, b.events.len() + 2 as int),
        a.resolve(x, act).healths == b.resolve(x, act).healths,
        a.resolve(x, act).dice == b.resolve(x, act).dice,
{
    let ra = a.resolve(x, act);
    let rb = b.resolve(x, act);
    assert(ra.events.subrange(a.events.len() as int, a.events.len() + 2 as int) =~= rb.events.subrange(
        b.events.len() as int,
        b.events.len() + 2 as int,
    ));
}

/// The enemy's plan depends only on the roster, the player and the dice.
pub proof fn lemma_plan_determined(a: BattleView, b: BattleView, x: int)
    requires
        a.combatants == b.combatants,
        a.player == b.player,
        a.dice == b.dice,
    ensures
        a.plan(x).0 == b.plan(x).0,
        a.plan(x).1.dice == b.plan(x).1.dice,
{
}

/// The initiative rolls and the turn order built from them depend only on the
/// roster, the healths and the dice.
pub proof fn lemma_initiative_determined(a: BattleView, b: BattleView, n: nat)
    requires
        a.combatants == b.combatants,
        a.healths == b.healths,
        a.dice == b.dice,
    ensures
        a.initiative_rolls(n) == b.initiative_rolls(n),
        initiative_order(a.initiative_rolls(n).0, a.healths, n) == initiative_order(
            b.initiative_rolls(n).0,
            b.healths,
            n,
        ),
    decreases n,
{
    if n > 0 {
        lemma_initiative_determined(a, b, (n - 1) as nat);
    }
}

/// The total of `amounts`.
pub open spec fn total(amounts: Seq<int>) -> int
    decreases amounts.len(),
{
    if amounts.len() == 0 {
        0
    } else {
        total(amounts.drop_last()) + amounts.last()
    }
}

/// `hs` is a series of healths, each the one before less `dealt` (stopping at
/// zero), as `Health::take_damage` leaves it.
pub open spec fn damage_series(hs: Seq<Health>, dealt: Seq<int>) -> bool {
    &&& hs.len() == dealt.len() + 1
    &&& forall|k: int|
        0 <= k < dealt.len() ==> #[trigger] dealt[k] >= 0 && hs[k + 1].max == hs[k].max
            && hs[k + 1].current == sat_sub(hs[k].current as int, dealt[k])
}

/// Over a series of `take_damage` calls from full health, the damage dealt
/// adds up to the health lost while the combatant lives, and to at least its
/// maximum once it is down.
pub proof fn lemma_take_damage_series(hs: Seq<Health>, dealt: Seq<int>)
    requires
        damage_series(hs, dealt),
        hs[0].current == hs[0].max,
    ensures
        hs.last().max == hs[0].max,
        hs.last().current > 0 ==> total(dealt) == hs[0].max - hs.last().current,
        hs.last().current == 0 ==> total(dealt) >= hs[0].max,
    decreases dealt.len(),
{
    if dealt.len() > 0 {
        let hs0 = hs.drop_last();
        let d0 = dealt.drop_last();
        assert forall|k: int| 0 <= k < d0.len() implies #[trigger] d0[k] >= 0 && hs0[k + 1].max
            == hs0[k].max && hs0[k + 1].current == sat_sub(hs0[k].current as int, d0[k]) by {
            assert(d0[k] == dealt[k]);
        }
        lemma_take_damage_series(hs0, d0);
        let k = dealt.len() - 1;
        assert(dealt[k] >= 0);
        assert(hs.last() == hs[k + 1]);
        assert(hs0.last() == hs[k]);
    }
}

} // verus!
