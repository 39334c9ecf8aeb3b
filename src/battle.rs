//! The battle: registry, turn scheduler, resolution engine, AI planner and
//! event stream, driven one scheduler unit at a time.
use vstd::prelude::*;
use crate::character::{
    Combatant, CombatantId, CombatantView, Health, Side, Stats, sat_sub, min,
};
use crate::dice::{Dice, DiceView};
use crate::events::{
    CombatMessageEvent, EventView, MessageType, announce_text, miss_text, parry_text, damage_text,
    round_text, start_text, end_text, announce_message, miss_message, parry_message,
    damage_message, round_message, start_message, end_message,
};
use crate::rules::{
    QueuedAction, clamp_level, attack_threshold, defense_threshold, raw_damage, mitigated,
    attack_lands, parried, hit_damage,
};
use crate::turn_order::{
    initiative_order, initiative_order_of, indices_below, lemma_initiative_order,
    ordered_by_initiative, goes_before,
};

verus! {

/// Where the battle stands.
#[derive(Clone, Copy, Debug, PartialEq, Eq, Structural)]
pub enum Phase {
    /// Combatants may be added; the combat has not begun.
    Idle,
    /// The player is on turn and the host must submit an action.
    AwaitingPlayerAction,
    /// The combatant on turn has an action to resolve (an enemy plans its own).
    ReadyToResolve,
    /// The combat is over.
    Finished { winner: Side },
}

/// Why an operation was refused.
#[derive(Clone, Copy, Debug, PartialEq, Eq, Structural)]
pub enum CombatError {
    /// The id is not registered.
    UnknownCombatant,
    /// The operation is not legal in the current phase or turn.
    WrongPhase,
    /// The target is not alive, or is on the attacker's side.
    BadTarget,
    /// The roster would break its own rules (a second player, or no room for
    /// another combatant).
    InvariantViolated,
}

/// The abstract state of a battle.
pub ghost struct BattleView {
    pub combatants: Seq<CombatantView>,
    pub healths: Seq<Health>,
    /// Each combatant's initiative roll for this combat.
    pub rolls: Seq<u64>,
    /// The player's registration index, once added.
    pub player: Option<usize>,
    pub round: u32,
    pub turn_order: Seq<CombatantId>,
    pub cursor: int,
    pub phase: Phase,
    /// The player's submitted action, until it is resolved.
    pub pending: Option<QueuedAction>,
    /// Events not yet drained.
    pub events: Seq<EventView>,
    pub dice: DiceView,
    /// Every damage applied in this battle: target index and amount.
    pub damage_log: Seq<(int, int)>,
}

/// The total damage that `log` records against combatant `i`.
pub open spec fn dealt(log: Seq<(int, int)>, i: int) -> int
    decreases log.len(),
{
    if log.len() == 0 {
        0
    } else {
        dealt(log.drop_last(), i) + if log.last().0 == i {
            log.last().1
        } else {
            0
        }
    }
}

/// The entries of `order` whose combatant is alive, in the same order.
pub open spec fn living(order: Seq<CombatantId>, healths: Seq<Health>) -> Seq<CombatantId>
    decreases order.len(),
{
    if order.len() == 0 {
        order
    } else {
        let prev = living(order.drop_last(), healths);
        if healths[order.last().index as int].current > 0 {
            prev.push(order.last())
        } else {
            prev
        }
    }
}

pub open spec fn action_kind(side: Side) -> MessageType {
    match side {
        Side::Player => MessageType::PlayerAction,
        Side::Enemy => MessageType::EnemyAction,
    }
}

impl BattleView {
    pub open spec fn initial(seed: u64) -> BattleView {
        BattleView {
            combatants: Seq::empty(),
            healths: Seq::empty(),
            rolls: Seq::empty(),
            player: None,
            round: 0,
            turn_order: Seq::empty(),
            cursor: 0,
            phase: Phase::Idle,
            pending: None,
            events: Seq::empty(),
            dice: DiceView { seed, calls: Seq::empty() },
            damage_log: Seq::empty(),
        }
    }

    pub open spec fn len(self) -> int {
        self.combatants.len() as int
    }

    pub open spec fn alive(self, i: int) -> bool {
        self.healths[i].current > 0
    }

    pub open spec fn side_of(self, i: int) -> Side {
        self.combatants[i].side
    }

    pub open spec fn side_alive(self, side: Side) -> bool {
        exists|i: int|
            0 <= i < self.len() && self.combatants[i].side == side && (#[trigger] self.healths[
                i]).current > 0
    }

    /// The end condition: the enemies win once the player is down, the player
    /// once every enemy is.
    pub open spec fn winner(self) -> Option<Side> {
        if !self.side_alive(Side::Player) {
            Some(Side::Enemy)
        } else if !self.side_alive(Side::Enemy) {
            Some(Side::Player)
        } else {
            None
        }
    }

    /// The registry, the health accounting, the turn order and the cursor
    /// agree with one another.
    pub open spec fn consistent(self) -> bool {
        &&& self.len() <= usize::MAX
        &&& self.healths.len() == self.len()
        &&& self.rolls.len() == self.len()
        &&& forall|i: int|
            0 <= i < self.len() ==> {
                &&& (#[trigger] self.healths[i]).max == self.combatants[i].stats.life
                &&& self.healths[i].current == sat_sub(
                    self.healths[i].max as int,
                    dealt(self.damage_log, i),
                )
            }
        &&& forall|k: int|
            0 <= k < self.damage_log.len() ==> {
                &&& 0 <= (#[trigger] self.damage_log[k]).0 < self.len()
                &&& self.damage_log[k].1 >= 0
            }
        &&& match self.player {
            Some(p) => p < self.len() && self.side_of(p as int) == Side::Player,
            None => true,
        }
        &&& forall|i: int|
            0 <= i < self.len() && (#[trigger] self.combatants[i]).side == Side::Player
                ==> self.player == Some(i as usize)
        &&& indices_below(self.turn_order, self.len())
        &&& ordered_by_initiative(self.turn_order, self.rolls)
        &&& 0 <= self.cursor <= self.turn_order.len()
        &&& match self.pending {
            Some(a) => a.target.index < self.len(),
            None => true,
        }
    }

    /// Every living combatant has a place in the turn order.
    pub open spec fn in_order(self) -> bool {
        forall|i: int|
            0 <= i < self.len() && (#[trigger] self.healths[i]).current > 0
                ==> self.turn_order.contains(CombatantId { index: i as usize })
    }

    /// The cursor is on a living combatant.
    pub open spec fn on_turn_alive(self) -> bool {
        &&& 0 <= self.cursor < self.turn_order.len()
        &&& self.alive(self.turn_order[self.cursor].index as int)
    }

    /// What each phase promises. Once the combat has begun, the phase is
    /// `Finished` exactly when the end condition holds, with its winner;
    /// otherwise a living combatant is on turn, and only the player's turn
    /// can hold a submitted action.
    pub open spec fn phase_ok(self) -> bool {
        match self.phase {
            Phase::Idle => self.pending.is_none(),
            Phase::AwaitingPlayerAction => {
                &&& self.in_order()
                &&& self.on_turn_alive()
                &&& self.side_of(self.turn_order[self.cursor].index as int) == Side::Player
                &&& self.pending.is_none()
                &&& self.winner().is_none()
            },
            Phase::ReadyToResolve => {
                &&& self.in_order()
                &&& self.on_turn_alive()
                &&& self.winner().is_none()
                &&& (self.side_of(self.turn_order[self.cursor].index as int) == Side::Player
                    <==> self.pending.is_some())
            },
            Phase::Finished { winner } => {
                &&& self.in_order()
                &&& self.winner() == Some(winner)
                &&& self.pending.is_none()
            },
        }
    }

    /// The invariant of a battle: consistent, and in a state its phase allows.
    pub open spec fn wf(self) -> bool {
        self.consistent() && self.phase_ok()
    }

    pub open spec fn emit(self, kind: MessageType, text: Seq<char>, delay_ms: u64) -> BattleView {
        BattleView { events: self.events.push(EventView { kind, text, delay_ms }), ..self }
    }

    pub open spec fn with_dice(self, dice: DiceView) -> BattleView {
        BattleView { dice, ..self }
    }

    // ---- registry

    pub open spec fn add_error(self, side: Side) -> Option<CombatError> {
        if self.phase != Phase::Idle {
            Some(CombatError::WrongPhase)
        } else if side == Side::Player && self.player.is_some() {
            Some(CombatError::InvariantViolated)
        } else if self.len() >= usize::MAX {
            Some(CombatError::InvariantViolated)
        } else {
            None
        }
    }

    pub open spec fn add(self, side: Side, name: Seq<char>, stats: Stats) -> BattleView {
        BattleView {
            combatants: self.combatants.push(CombatantView { side, name, stats }),
            healths: self.healths.push(Health { current: stats.life, max: stats.life }),
            rolls: self.rolls.push(0),
            player: if side == Side::Player {
                Some(self.len() as usize)
            } else {
                self.player
            },
            ..self
        }
    }

    // ---- scheduler

    pub open spec fn finish(self, winner: Side) -> BattleView {
        BattleView { phase: Phase::Finished { winner }, ..self }.emit(
            MessageType::CombatEnd,
            end_text(winner == Side::Player),
            0,
        )
    }

    /// Moves the cursor past combatants that died before their turn.
    pub open spec fn skip_dead(self) -> BattleView
        decreases self.turn_order.len() - self.cursor,
    {
        if 0 <= self.cursor < self.turn_order.len() && !self.alive(
            self.turn_order[self.cursor].index as int,
        ) {
            BattleView { cursor: self.cursor + 1, ..self }.skip_dead()
        } else {
            self
        }
    }

    /// Ends the round: the dead leave the order, the round count goes up (it
    /// stops at the largest `u32`) and the cursor returns to the start.
    pub open spec fn rollover(self) -> BattleView {
        let round = if self.round < u32::MAX {
            (self.round + 1) as u32
        } else {
            self.round
        };
        BattleView {
            turn_order: living(self.turn_order, self.healths),
            round,
            cursor: 0,
            ..self
        }.emit(MessageType::RoundStart, round_text(round as nat), 0)
    }

    /// The phase for the combatant under the cursor, by its side.
    pub open spec fn select(self) -> BattleView {
        if 0 <= self.cursor < self.turn_order.len() {
            let phase = if self.side_of(self.turn_order[self.cursor].index as int) == Side::Player {
                Phase::AwaitingPlayerAction
            } else {
                Phase::ReadyToResolve
            };
            BattleView { phase, ..self }
        } else {
            self
        }
    }

    /// After a change: end the combat if it is decided, else find the next
    /// living combatant on turn, rolling the round over when it is exhausted.
    pub open spec fn settle(self) -> BattleView {
        match self.winner() {
            Some(w) => self.finish(w),
            None => {
                let s = self.skip_dead();
                if s.cursor < s.turn_order.len() {
                    s.select()
                } else {
                    s.rollover().skip_dead().select()
                }
            },
        }
    }

    /// `base + d6` for each of the first `n` combatants, drawn in registration
    /// order.
    pub open spec fn initiative_rolls(self, n: nat) -> (Seq<u64>, DiceView)
        decreases n,
    {
        if n == 0 {
            (Seq::empty(), self.dice)
        } else {
            let (prev, d) = self.initiative_rolls((n - 1) as nat);
            let (r, d2) = d.roll(1, 6);
            (prev.push((self.combatants[n - 1].stats.initiative + r) as u64), d2)
        }
    }

    pub open spec fn begin(self) -> BattleView {
        let v = self.emit(MessageType::CombatStart, start_text(), 0);
        let (rolls, d) = v.initiative_rolls(v.len() as nat);
        BattleView {
            rolls,
            dice: d,
            turn_order: initiative_order(rolls, v.healths, v.len() as nat),
            round: 1,
            cursor: 0,
            ..v
        }.emit(MessageType::RoundStart, round_text(1), 0).settle()
    }

    // ---- resolution

    /// Lowers the health of `t` by `amount`, stopping at zero, and records it.
    pub open spec fn hurt(self, t: int, amount: int) -> BattleView {
        let h = self.healths[t];
        BattleView {
            healths: self.healths.update(
                t,
                Health { current: sat_sub(h.current as int, amount) as u32, max: h.max },
            ),
            damage_log: self.damage_log.push((t, amount)),
            ..self
        }
    }

    /// Combatant `a` carries out `act` (levels clamped to its caps): announce,
    /// hit roll, damage dice, parry roll, armor, in that order. The
    /// announcement is of the attacker's action kind; a miss notice is always
    /// a `PlayerAction` message.
    pub open spec fn resolve(self, a: int, act: QueuedAction) -> BattleView {
        let att = self.combatants[a];
        let t = act.target.index as int;
        let tgt = self.combatants[t];
        let f = min(act.finte_level as int, att.stats.finte_cap as int) as u32;
        let w = min(act.wuchtschlag_level as int, att.stats.wuchtschlag_cap as int) as u32;
        let kind = action_kind(att.side);
        let v = self.emit(kind, announce_text(att.name), 0);
        let (hit_roll, d1) = v.dice.roll(1, 20);
        if hit_roll <= attack_threshold(att.stats.attack, f, w) {
            let (sum, d2) = d1.roll_d20s(att.stats.dice_count as nat);
            let (parry_roll, d3) = d2.roll(1, 20);
            if parry_roll <= defense_threshold(tgt.stats.defense, f) {
                v.with_dice(d3).emit(MessageType::Defense, parry_text(tgt.name), 200)
            } else {
                let dmg = mitigated(raw_damage(att.stats.damage, sum, w), tgt.stats.armor);
                v.with_dice(d3).hurt(t, dmg).emit(
                    MessageType::Damage,
                    damage_text(tgt.name, dmg as nat),
                    300,
                )
            }
        } else {
            v.with_dice(d1).emit(MessageType::PlayerAction, miss_text(att.name), 0)
        }
    }

    /// The enemy `a`'s action: at the player, with finte and wuchtschlag levels
    /// drawn uniformly up to its caps, in that order.
    pub open spec fn plan(self, a: int) -> (QueuedAction, BattleView) {
        let stats = self.combatants[a].stats;
        let (f, d1) = self.dice.roll(0, stats.finte_cap);
        let (w, d2) = d1.roll(0, stats.wuchtschlag_cap);
        (
            QueuedAction {
                target: CombatantId { index: self.player.unwrap() },
                finte_level: f,
                wuchtschlag_level: w,
            },
            self.with_dice(d2),
        )
    }

    pub open spec fn end_turn(self) -> BattleView {
        BattleView { pending: None, cursor: self.cursor + 1, ..self }.settle()
    }

    /// One scheduler unit: in `ReadyToResolve` the combatant on turn acts
    /// (an enemy plans first) and the turn passes on; in any other phase,
    /// nothing.
    pub open spec fn step(self) -> BattleView {
        if self.phase == Phase::ReadyToResolve && 0 <= self.cursor < self.turn_order.len() {
            let a = self.turn_order[self.cursor].index as int;
            if self.side_of(a) == Side::Enemy {
                if self.player.is_some() {
                    let (act, v) = self.plan(a);
                    v.resolve(a, act).end_turn()
                } else {
                    self
                }
            } else {
                match self.pending {
                    Some(act) => self.resolve(a, act).end_turn(),
                    None => self,
                }
            }
        } else {
            self
        }
    }

    // ---- action submission

    pub open spec fn current(self) -> Option<CombatantId> {
        if 0 <= self.cursor < self.turn_order.len() {
            Some(self.turn_order[self.cursor])
        } else {
            None
        }
    }

    pub open spec fn submit_error(self, id: CombatantId, act: QueuedAction) -> Option<CombatError> {
        if self.phase != Phase::AwaitingPlayerAction {
            Some(CombatError::WrongPhase)
        } else if id.index >= self.len() {
            Some(CombatError::UnknownCombatant)
        } else if self.current() != Some(id) {
            Some(CombatError::WrongPhase)
        } else if act.target.index >= self.len() {
            Some(CombatError::UnknownCombatant)
        } else if !self.alive(act.target.index as int) || self.side_of(act.target.index as int)
            == self.side_of(id.index as int) {
            Some(CombatError::BadTarget)
        } else {
            None
        }
    }

    pub open spec fn submit(self, id: CombatantId, act: QueuedAction) -> BattleView {
        let stats = self.combatants[id.index as int].stats;
        BattleView {
            phase: Phase::ReadyToResolve,
            pending: Some(
                QueuedAction {
                    target: act.target,
                    finte_level: min(act.finte_level as int, stats.finte_cap as int) as u32,
                    wuchtschlag_level: min(
                        act.wuchtschlag_level as int,
                        stats.wuchtschlag_cap as int,
                    ) as u32,
                },
            ),
            ..self
        }
    }
}

/// A battle between one player and a group of enemies.
pub struct BattleState {
    combatants: Vec<Combatant>,
    healths: Vec<Health>,
    rolls: Vec<u64>,
    player: Option<usize>,
    round: u32,
    turn_order: Vec<CombatantId>,
    cursor: usize,
    phase: Phase,
    pending: Option<QueuedAction>,
    events: Vec<CombatMessageEvent>,
    dice: Dice,
    damage_log: Ghost<Seq<(int, int)>>,
}

/// What a host may show of a battle.
pub struct Snapshot {
    pub round: u32,
    pub turn_order: Vec<CombatantId>,
    pub healths: Vec<Health>,
    pub phase: Phase,
}

impl View for BattleState {
    type V = BattleView;

    closed spec fn view(&self) -> BattleView {
        BattleView {
            combatants: self.combatants@.map_values(|c: Combatant| c@),
            healths: self.healths@,
            rolls: self.rolls@,
            player: self.player,
            round: self.round,
            turn_order: self.turn_order@,
            cursor: self.cursor as int,
            phase: self.phase,
            pending: self.pending,
            events: self.events@.map_values(|e: CombatMessageEvent| e@),
            dice: self.dice@,
            damage_log: self.damage_log@,
        }
    }
}

/// A new battle whose rolls all come from `seed`.
pub fn create_battle(seed: u64) -> (r: BattleState)
    ensures
        r@ == BattleView::initial(seed),
        r@.wf(),
{
    BattleState::new(seed)
}

impl BattleState {
    pub fn new(seed: u64) -> (r: BattleState)
        ensures
            r@ == BattleView::initial(seed),
            r@.wf(),
    {
        let r = BattleState {
            combatants: Vec::new(),
            healths: Vec::new(),
            rolls: Vec::new(),
            player: None,
            round: 0,
            turn_order: Vec::new(),
            cursor: 0,
            phase: Phase::Idle,
            pending: None,
            events: Vec::new(),
            dice: Dice::new(seed),
            damage_log: Ghost(Seq::empty()),
        };
        proof {
            assert(r@.combatants =~= Seq::empty());
            assert(r@.events =~= Seq::empty());
        }
        r
    }

    fn emit(&mut self, kind: MessageType, text: String, delay_ms: u64)
        ensures
            final(self)@ == old(self)@.emit(kind, text@, delay_ms),
    {
        let ghost v0 = self@;
        self.events.push(CombatMessageEvent::new(text, kind, delay_ms));
        proof {
            assert(self@.events =~= v0.events.push(EventView { kind, text: text@, delay_ms }));
        }
    }

    fn add(&mut self, side: Side, name: String, stats: Stats) -> (r: Result<CombatantId, CombatError>)
        requires
            old(self)@.consistent(),
        ensures
            final(self)@.consistent(),
            match old(self)@.add_error(side) {
                Some(e) => r == Err::<CombatantId, CombatError>(e) && final(self)@ == old(self)@,
                None => r == Ok::<CombatantId, CombatError>(CombatantId { index: old(self)@.len() as usize })
                    && final(self)@ == old(self)@.add(side, name@, stats),
            },
    {
        if self.phase != Phase::Idle {
            return Err(CombatError::WrongPhase);
        }
        if side == Side::Player && self.player.is_some() {
            return Err(CombatError::InvariantViolated);
        }
        if self.combatants.len() == usize::MAX {
            return Err(CombatError::InvariantViolated);
        }
        let ghost v0 = self@;
        let index = self.combatants.len();
        let ghost name_view = name@;
        self.combatants.push(Combatant::new(side, name, stats));
        self.healths.push(Health::new(stats.life));
        self.rolls.push(0);
        if side == Side::Player {
            self.player = Some(index);
        }
        proof {
            let c = CombatantView { side, name: name_view, stats };
            assert(self@.combatants =~= v0.combatants.push(c));
            assert(self@ == v0.add(side, name_view, stats));
            lemma_add_consistent(v0, side, name_view, stats);
        }
        Ok(CombatantId { index })
    }

    fn side_alive(&self, side: Side) -> (r: bool)
        requires
            self@.consistent(),
        ensures
            r == self@.side_alive(side),
    {
        let mut i: usize = 0;
        while i < self.combatants.len()
            invariant
                self@.consistent(),
                i <= self@.len(),
                forall|j: int|
                    0 <= j < i ==> !(self@.combatants[j].side == side && (#[trigger] self@.healths[
                        j]).current > 0),
            decreases self@.len() - i,
        {
            if self.combatants[i].side == side && self.healths[i].current > 0 {
                assert(self@.combatants[i as int].side == side && self@.healths[i as int].current > 0);
                return true;
            }
            i = i + 1;
        }
        false
    }

    fn winner(&self) -> (r: Option<Side>)
        requires
            self@.consistent(),
        ensures
            r == self@.winner(),
    {
        if !self.side_alive(Side::Player) {
            Some(Side::Enemy)
        } else if !self.side_alive(Side::Enemy) {
            Some(Side::Player)
        } else {
            None
        }
    }

    fn finish(&mut self, winner: Side)
        requires
            old(self)@.consistent(),
        ensures
            final(self)@ == old(self)@.finish(winner),
            final(self)@.consistent(),
    {
        self.phase = Phase::Finished { winner };
        self.emit(MessageType::CombatEnd, end_message(winner == Side::Player), 0);
    }

    fn skip_dead(&mut self)
        requires
            old(self)@.consistent(),
        ensures
            final(self)@ == old(self)@.skip_dead(),
            final(self)@.consistent(),
    {
        let ghost v0 = self@;
        while self.cursor < self.turn_order.len()
            && self.healths[self.turn_order[self.cursor].index].current == 0
            invariant
                self@.consistent(),
                self@.skip_dead() == v0.skip_dead(),
            decreases self.turn_order.len() - self.cursor,
        {
            let ghost before = self@;
            self.cursor = self.cursor + 1;
            assert(self@ == BattleView { cursor: before.cursor + 1, ..before });
        }
    }

    fn rollover(&mut self)
        requires
            old(self)@.consistent(),
        ensures
            final(self)@ == old(self)@.rollover(),
            final(self)@.consistent(),
    {
        let ghost v0 = self@;
        let mut kept: Vec<CombatantId> = Vec::new();
        let mut i: usize = 0;
        while i < self.turn_order.len()
            invariant
                self@ == v0,
                v0.consistent(),
                i <= v0.turn_order.len(),
                kept@ == living(v0.turn_order.take(i as int), v0.healths),
                indices_below(kept@, v0.len()),
            decreases v0.turn_order.len() - i,
        {
            let id = self.turn_order[i];
            proof {
                assert(v0.turn_order.take(i + 1).drop_last() =~= v0.turn_order.take(i as int));
            }
            if self.healths[id.index].current > 0 {
                kept.push(id);
            }
            i = i + 1;
        }
        proof {
            assert(v0.turn_order.take(i as int) =~= v0.turn_order);
            lemma_living_ordered(v0.turn_order, v0.healths, v0.rolls);
        }
        self.turn_order = kept;
        if self.round < u32::MAX {
            self.round = self.round + 1;
        }
        self.cursor = 0;
        let text = round_message(self.round);
        self.emit(MessageType::RoundStart, text, 0);
    }

    fn select(&mut self)
        requires
            old(self)@.consistent(),
        ensures
            final(self)@ == old(self)@.select(),
            final(self)@.consistent(),
    {
        if self.cursor < self.turn_order.len() {
            let a = self.turn_order[self.cursor].index;
            if self.combatants[a].side == Side::Player {
                self.phase = Phase::AwaitingPlayerAction;
            } else {
                self.phase = Phase::ReadyToResolve;
            }
        }
    }

    fn settle(&mut self)
        requires
            old(self)@.consistent(),
        ensures
            final(self)@ == old(self)@.settle(),
            final(self)@.consistent(),
            old(self)@.in_order() && old(self)@.pending.is_none() ==> final(self)@.wf(),
    {
        proof {
            if old(self)@.in_order() && old(self)@.pending.is_none() {
                lemma_settle_wf(old(self)@);
            }
        }
        match self.winner() {
            Some(w) => self.finish(w),
            None => {
                self.skip_dead();
                if self.cursor < self.turn_order.len() {
                    self.select();
                } else {
                    self.rollover();
                    self.skip_dead();
                    self.select();
                }
            },
        }
    }

    fn roll(&mut self, lo: u32, hi: u32) -> (r: u32)
        requires
            lo <= hi,
        ensures
            lo <= r <= hi,
            (r, final(self)@.dice) == old(self)@.dice.roll(lo, hi),
            final(self)@ == old(self)@.with_dice(final(self)@.dice),
    {
        self.dice.roll(lo, hi)
    }

    /// The sum of `n` d20.
    fn roll_d20s(&mut self, n: u32) -> (r: u64)
        ensures
            r <= 20 * n,
            (r as int, final(self)@.dice) == old(self)@.dice.roll_d20s(n as nat),
            final(self)@ == old(self)@.with_dice(final(self)@.dice),
    {
        let ghost v0 = self@;
        let mut sum: u64 = 0;
        let mut i: u32 = 0;
        while i < n
            invariant
                i <= n,
                sum <= 20 * i,
                (sum as int, self@.dice) == v0.dice.roll_d20s(i as nat),
                self@ == v0.with_dice(self@.dice),
            decreases n - i,
        {
            let r = self.roll(1, 20);
            sum = sum + r as u64;
            i = i + 1;
        }
        sum
    }

    fn hurt(&mut self, t: usize, amount: u64)
        requires
            old(self)@.consistent(),
            t < old(self)@.len(),
        ensures
            final(self)@ == old(self)@.hurt(t as int, amount as int),
            final(self)@.consistent(),
    {
        let h = self.healths[t];
        let current = if (h.current as u64) > amount {
            (h.current as u64 - amount) as u32
        } else {
            0
        };
        self.healths.set(t, Health { current, max: h.max });
        self.damage_log = Ghost(self.damage_log@.push((t as int, amount as int)));
        proof {
            lemma_hurt_consistent(old(self)@, t as int, amount as int);
        }
    }

    /// Carries out `act` for combatant `a`, clamping its levels to `a`'s caps.
    fn resolve(&mut self, a: usize, act: QueuedAction)
        requires
            old(self)@.consistent(),
            a < old(self)@.len(),
            act.target.index < old(self)@.len(),
        ensures
            final(self)@ == old(self)@.resolve(a as int, act),
            final(self)@.consistent(),
            old(self)@.in_order() ==> final(self)@.in_order(),
    {
        proof {
            lemma_resolve_frame(old(self)@, a as int, act);
        }
        let att = self.combatants[a].stats;
        let side = self.combatants[a].side;
        let t = act.target.index;
        let f = clamp_level(act.finte_level, att.finte_cap);
        let w = clamp_level(act.wuchtschlag_level, att.wuchtschlag_cap);
        let kind = match side {
            Side::Player => MessageType::PlayerAction,
            Side::Enemy => MessageType::EnemyAction,
        };
        let text = announce_message(&self.combatants[a].name);
        self.emit(kind, text, 0);
        let hit = self.roll(1, 20);
        if attack_lands(att.attack, f, w, hit) {
            let sum = self.roll_d20s(att.dice_count);
            let parry = self.roll(1, 20);
            let tgt = self.combatants[t].stats;
            if parried(tgt.defense, f, parry) {
                let text = parry_message(&self.combatants[t].name);
                self.emit(MessageType::Defense, text, 200);
            } else {
                let dmg = hit_damage(att.damage, sum, w, tgt.armor);
                self.hurt(t, dmg);
                let text = damage_message(&self.combatants[t].name, dmg);
                self.emit(MessageType::Damage, text, 300);
            }
        } else {
            let text = miss_message(&self.combatants[a].name);
            self.emit(MessageType::PlayerAction, text, 0);
        }
    }

    /// The action of enemy `a`.
    fn plan(&mut self, a: usize) -> (r: QueuedAction)
        requires
            old(self)@.consistent(),
            a < old(self)@.len(),
            old(self)@.player.is_some(),
        ensures
            (r, final(self)@) == old(self)@.plan(a as int),
            final(self)@.consistent(),
            old(self)@.in_order() ==> final(self)@.in_order(),
    {
        let caps = self.combatants[a].stats;
        let f = self.roll(0, caps.finte_cap);
        let w = self.roll(0, caps.wuchtschlag_cap);
        let p = match self.player {
            Some(p) => p,
            None => 0,
        };
        QueuedAction { target: CombatantId { index: p }, finte_level: f, wuchtschlag_level: w }
    }

    fn end_turn(&mut self)
        requires
            old(self)@.consistent(),
            old(self)@.cursor < old(self)@.turn_order.len(),
        ensures
            final(self)@ == old(self)@.end_turn(),
            final(self)@.consistent(),
            old(self)@.in_order() ==> final(self)@.wf(),
    {
        let len = self.turn_order.len();
        assert(self.cursor < len);
        self.pending = None;
        self.cursor = self.cursor + 1;
        self.settle();
    }

    /// Drives the battle by one scheduler unit: where an action is ready, the
    /// combatant on turn carries it out (an enemy plans it first) and the turn
    /// passes to the next living combatant; in any other phase nothing
    /// happens.
    pub fn step(&mut self)
        requires
            old(self)@.wf(),
        ensures
            final(self)@ == old(self)@.step(),
            final(self)@.wf(),
    {
        if self.phase == Phase::ReadyToResolve && self.cursor < self.turn_order.len() {
            let a = self.turn_order[self.cursor].index;
            if self.combatants[a].side == Side::Enemy {
                if self.player.is_some() {
                    let act = self.plan(a);
                    self.resolve(a, act);
                    self.end_turn();
                }
            } else {
                match self.pending {
                    Some(act) => {
                        self.resolve(a, act);
                        self.end_turn();
                    },
                    None => {},
                }
            }
        }
    }

    /// Starts the combat: announces it, rolls each combatant's initiative
    /// (`base + d6`, in registration order), orders the living by it, opens
    /// round one and finds the first combatant on turn. Only while idle.
    pub fn begin_combat(&mut self) -> (r: Result<(), CombatError>)
        requires
            old(self)@.wf(),
        ensures
            final(self)@.wf(),
            old(self)@.phase == Phase::Idle ==> r == Ok::<(), CombatError>(()) && final(self)@
                == old(self)@.begin(),
            old(self)@.phase != Phase::Idle ==> r == Err::<(), CombatError>(CombatError::WrongPhase)
                && final(self)@ == old(self)@,
    {
        if self.phase != Phase::Idle {
            return Err(CombatError::WrongPhase);
        }
        self.emit(MessageType::CombatStart, start_message(), 0);
        let ghost v1 = self@;
        let mut rolls: Vec<u64> = Vec::new();
        let mut i: usize = 0;
        while i < self.combatants.len()
            invariant
                i <= v1.len(),
                v1.consistent(),
                rolls@.len() == i,
                (rolls@, self@.dice) == v1.initiative_rolls(i as nat),
                self@ == v1.with_dice(self@.dice),
            decreases v1.len() - i,
        {
            let r = self.roll(1, 6);
            rolls.push(self.combatants[i].stats.initiative as u64 + r as u64);
            i = i + 1;
        }
        let order = initiative_order_of(&rolls, &self.healths);
        proof {
            lemma_initiative_order(rolls@, self@.healths, rolls@.len());
        }
        self.rolls = rolls;
        self.turn_order = order;
        self.round = 1;
        self.cursor = 0;
        self.emit(MessageType::RoundStart, round_message(1), 0);
        proof {
            let u = self@;
            assert forall|i: int|
                0 <= i < u.len() && (#[trigger] u.healths[i]).current > 0 implies u.turn_order.contains(
                CombatantId { index: i as usize },
            ) by {}
        }
        self.settle();
        Ok(())
    }

    /// Queues the player's action for its turn, with its levels clamped to the
    /// player's caps.
    pub fn submit_player_action(&mut self, id: CombatantId, action: QueuedAction) -> (r: Result<
        (),
        CombatError,
    >)
        requires
            old(self)@.wf(),
        ensures
            final(self)@.wf(),
            match old(self)@.submit_error(id, action) {
                Some(e) => r == Err::<(), CombatError>(e) && final(self)@ == old(self)@,
                None => r == Ok::<(), CombatError>(()) && final(self)@ == old(self)@.submit(
                    id,
                    action,
                ),
            },
    {
        if self.phase != Phase::AwaitingPlayerAction {
            return Err(CombatError::WrongPhase);
        }
        if id.index >= self.combatants.len() {
            return Err(CombatError::UnknownCombatant);
        }
        if !(self.cursor < self.turn_order.len() && self.turn_order[self.cursor] == id) {
            return Err(CombatError::WrongPhase);
        }
        let t = action.target.index;
        if t >= self.combatants.len() {
            return Err(CombatError::UnknownCombatant);
        }
        if self.healths[t].current == 0 || self.combatants[t].side == self.combatants[id.index].side {
            return Err(CombatError::BadTarget);
        }
        let caps = self.combatants[id.index].abilities();
        self.pending = Some(action.clamped(caps));
        self.phase = Phase::ReadyToResolve;
        proof {
            lemma_same_winner(self@, old(self)@);
        }
        Ok(())
    }

    /// Hands out the events emitted since the last call, oldest first, and
    /// forgets them.
    pub fn drain_events(&mut self) -> (r: Vec<CombatMessageEvent>)
        requires
            old(self)@.wf(),
        ensures
            r@.map_values(|e: CombatMessageEvent| e@) == old(self)@.events,
            final(self)@ == (BattleView { events: Seq::empty(), ..old(self)@ }),
            final(self)@.wf(),
    {
        let mut out: Vec<CombatMessageEvent> = Vec::new();
        std::mem::swap(&mut out, &mut self.events);
        proof {
            assert(self@.events =~= Seq::<EventView>::empty());
            lemma_same_winner(self@, old(self)@);
        }
        out
    }

    /// Round, turn order, healths by registration index, and phase.
    pub fn snapshot(&self) -> (r: Snapshot)
        ensures
            r.round == self@.round,
            r.turn_order@ == self@.turn_order,
            r.healths@ == self@.healths,
            r.phase == self@.phase,
    {
        Snapshot {
            round: self.round,
            turn_order: copy_vec(&self.turn_order),
            healths: copy_vec(&self.healths),
            phase: self.phase,
        }
    }

    pub fn phase(&self) -> (r: Phase)
        ensures
            r == self@.phase,
    {
        self.phase
    }

    /// The combatant on turn, or `None` once the round is exhausted (or before
    /// the combat begins).
    pub fn current_turn(&self) -> (r: Option<CombatantId>)
        ensures
            r == self@.current(),
    {
        if self.cursor < self.turn_order.len() {
            Some(self.turn_order[self.cursor])
        } else {
            None
        }
    }

    /// Whether every place of the current round's order has been used.
    pub fn is_round_over(&self) -> (r: bool)
        ensures
            r == (self@.cursor >= self@.turn_order.len()),
    {
        self.cursor >= self.turn_order.len()
    }

    pub fn round(&self) -> (r: u32)
        ensures
            r == self@.round,
    {
        self.round
    }

    /// The health of a registered combatant.
    pub fn health(&self, id: CombatantId) -> (r: Result<Health, CombatError>)
        requires
            self@.consistent(),
        ensures
            id.index < self@.len() ==> r == Ok::<Health, CombatError>(self@.healths[id.index as int]),
            id.index >= self@.len() ==> r == Err::<Health, CombatError>(CombatError::UnknownCombatant),
    {
        if id.index < self.healths.len() {
            Ok(self.healths[id.index])
        } else {
            Err(CombatError::UnknownCombatant)
        }
    }

    /// A registered combatant: side, name and stats.
    pub fn get(&self, id: CombatantId) -> (r: Result<&Combatant, CombatError>)
        requires
            self@.consistent(),
        ensures
            id.index < self@.len() ==> r is Ok && r->Ok_0@ == self@.combatants[id.index as int],
            id.index >= self@.len() ==> r == Err::<&Combatant, CombatError>(
                CombatError::UnknownCombatant,
            ),
    {
        if id.index < self.combatants.len() {
            Ok(&self.combatants[id.index])
        } else {
            Err(CombatError::UnknownCombatant)
        }
    }

    /// The initiative of a registered combatant: its base and, once the combat
    /// has begun, its roll.
    pub fn initiative(&self, id: CombatantId) -> (r: Result<crate::character::Initiative, CombatError>)
        requires
            self@.consistent(),
        ensures
            id.index < self@.len() ==> r == Ok::<crate::character::Initiative, CombatError>(
                crate::character::Initiative {
                    base: self@.combatants[id.index as int].stats.initiative,
                    randomized: self@.rolls[id.index as int],
                },
            ),
            id.index >= self@.len() ==> r == Err::<crate::character::Initiative, CombatError>(
                CombatError::UnknownCombatant,
            ),
    {
        if id.index < self.combatants.len() {
            Ok(
                crate::character::Initiative {
                    base: self.combatants[id.index].stats.initiative,
                    randomized: self.rolls[id.index],
                },
            )
        } else {
            Err(CombatError::UnknownCombatant)
        }
    }

    /// The ids of the living combatants of `side`, in registration order.
    pub fn alive_ids(&self, side: Side) -> (r: Vec<CombatantId>)
        requires
            self@.consistent(),
        ensures
            r@ == alive_of(self@, side, self@.len() as nat),
    {
        let mut out: Vec<CombatantId> = Vec::new();
        let mut i: usize = 0;
        while i < self.combatants.len()
            invariant
                i <= self@.len(),
                self@.consistent(),
                out@ == alive_of(self@, side, i as nat),
            decreases self@.len() - i,
        {
            if self.combatants[i].side == side && self.healths[i].current > 0 {
                out.push(CombatantId { index: i });
            }
            i = i + 1;
        }
        out
    }

    /// Registers the player. Only while idle, and only once.
    pub fn add_player(&mut self, name: String, stats: Stats) -> (r: Result<CombatantId, CombatError>)
        requires
            old(self)@.wf(),
        ensures
            final(self)@.wf(),
            match old(self)@.add_error(Side::Player) {
                Some(e) => r == Err::<CombatantId, CombatError>(e) && final(self)@ == old(self)@,
                None => r == Ok::<CombatantId, CombatError>(CombatantId { index: old(self)@.len() as usize })
                    && final(self)@ == old(self)@.add(Side::Player, name@, stats),
            },
    {
        self.add(Side::Player, name, stats)
    }

    /// Registers an enemy. Only while idle.
    pub fn add_enemy(&mut self, name: String, stats: Stats) -> (r: Result<CombatantId, CombatError>)
        requires
            old(self)@.wf(),
        ensures
            final(self)@.wf(),
            match old(self)@.add_error(Side::Enemy) {
                Some(e) => r == Err::<CombatantId, CombatError>(e) && final(self)@ == old(self)@,
                None => r == Ok::<CombatantId, CombatError>(CombatantId { index: old(self)@.len() as usize })
                    && final(self)@ == old(self)@.add(Side::Enemy, name@, stats),
            },
    {
        self.add(Side::Enemy, name, stats)
    }
}

proof fn lemma_add_consistent(v: BattleView, side: Side, name: Seq<char>, stats: Stats)
    requires
        v.consistent(),
        v.add_error(side).is_none(),
    ensures
        v.add(side, name, stats).consistent(),
{
    let n = v.add(side, name, stats);
    assert forall|i: int| 0 <= i < n.len() implies {
        &&& (#[trigger] n.healths[i]).max == n.combatants[i].stats.life
        &&& n.healths[i].current == sat_sub(n.healths[i].max as int, dealt(n.damage_log, i))
    } by {
        if i == v.len() {
            lemma_dealt_unlisted(n.damage_log, i);
        } else {
            assert(n.healths[i] == v.healths[i]);
            assert(n.combatants[i] == v.combatants[i]);
        }
    }
    assert forall|i: int| 0 <= i < n.len() && (#[trigger] n.combatants[i]).side == Side::Player implies n.player
        == Some(i as usize) by {
        if i < v.len() {
            assert(n.combatants[i] == v.combatants[i]);
            assert(v.side_of(i) == Side::Player);
        }
    }
    assert forall|i: int| 0 <= i < n.turn_order.len() implies #[trigger] n.turn_order[i].index
        < n.len() by {
        assert(v.turn_order[i].index < v.len());
    }
    match n.player {
        Some(p) => {
            if (p as int) < v.len() {
                assert(n.combatants[p as int] == v.combatants[p as int]);
            }
        },
        None => {},
    }
}

/// The ids among the first `n` whose combatant is of `side` and alive.
pub open spec fn alive_of(v: BattleView, side: Side, n: nat) -> Seq<CombatantId>
    decreases n,
{
    if n == 0 {
        Seq::empty()
    } else {
        let prev = alive_of(v, side, (n - 1) as nat);
        if v.combatants[n - 1].side == side && v.alive(n - 1) {
            prev.push(CombatantId { index: (n - 1) as usize })
        } else {
            prev
        }
    }
}

fn copy_vec<T: Copy>(v: &Vec<T>) -> (r: Vec<T>)
    ensures
        r@ == v@,
{
    let mut out: Vec<T> = Vec::new();
    let mut i: usize = 0;
    while i < v.len()
        invariant
            i <= v.len(),
            out@ == v@.take(i as int),
        decreases v.len() - i,
    {
        out.push(v[i]);
        proof {
            assert(v@.take(i + 1) =~= v@.take(i as int).push(v@[i as int]));
        }
        i = i + 1;
    }
    proof {
        assert(v@.take(i as int) =~= v@);
    }
    out
}

/// Every entry of `living(order, healths)` is an entry of `order`, at the
/// same or a later position relative to the others.
proof fn lemma_living_members(order: Seq<CombatantId>, healths: Seq<Health>, i: int)
    requires
        0 <= i < living(order, healths).len(),
    ensures
        order.contains(living(order, healths)[i]),
    decreases order.len(),
{
    let prev = living(order.drop_last(), healths);
    if healths[order.last().index as int].current > 0 && i == prev.len() {
        assert(order[order.len() - 1] == order.last());
    } else {
        lemma_living_members(order.drop_last(), healths, i);
        let p = choose|p: int| 0 <= p < order.drop_last().len() && order.drop_last()[p] == prev[i];
        assert(order[p] == prev[i]);
    }
}

/// Dropping the dead keeps the initiative order.
proof fn lemma_living_ordered(order: Seq<CombatantId>, healths: Seq<Health>, rolls: Seq<u64>)
    requires
        ordered_by_initiative(order, rolls),
    ensures
        ordered_by_initiative(living(order, healths), rolls),
    decreases order.len(),
{
    if order.len() > 0 {
        let rest = order.drop_last();
        assert forall|i: int, j: int|
            #![trigger rest[i], rest[j]]
            0 <= i < j < rest.len() implies goes_before(rolls, rest[i], rest[j]) by {
            assert(rest[i] == order[i] && rest[j] == order[j]);
        }
        lemma_living_ordered(rest, healths, rolls);
        let prev = living(rest, healths);
        if healths[order.last().index as int].current > 0 {
            let next = prev.push(order.last());
            assert forall|i: int, j: int|
                #![trigger next[i], next[j]]
                0 <= i < j < next.len() implies goes_before(rolls, next[i], next[j]) by {
                if j == prev.len() {
                    lemma_living_members(rest, healths, i);
                    let p = choose|p: int| 0 <= p < rest.len() && rest[p] == prev[i];
                    assert(order[p] == rest[p]);
                    assert(order[order.len() - 1] == order.last());
                    assert(goes_before(rolls, order[p], order[order.len() - 1]));
                } else {
                    assert(next[i] == prev[i] && next[j] == prev[j]);
                }
            }
        }
    }
}

proof fn lemma_living_alive(order: Seq<CombatantId>, healths: Seq<Health>, i: int)
    requires
        0 <= i < living(order, healths).len(),
    ensures
        healths[living(order, healths)[i].index as int].current > 0,
    decreases order.len(),
{
    let prev = living(order.drop_last(), healths);
    if !(healths[order.last().index as int].current > 0 && i == prev.len()) {
        lemma_living_alive(order.drop_last(), healths, i);
    }
}

proof fn lemma_living_keeps(order: Seq<CombatantId>, healths: Seq<Health>, id: CombatantId)
    requires
        order.contains(id),
        healths[id.index as int].current > 0,
    ensures
        living(order, healths).contains(id),
    decreases order.len(),
{
    let rest = order.drop_last();
    let prev = living(rest, healths);
    if order.last() == id {
        assert(living(order, healths)[prev.len() as int] == id);
    } else {
        let p = choose|p: int| 0 <= p < order.len() && order[p] == id;
        assert(p != order.len() - 1);
        assert(rest[p] == id);
        lemma_living_keeps(rest, healths, id);
        let q = choose|q: int| 0 <= q < prev.len() && prev[q] == id;
        if healths[order.last().index as int].current > 0 {
            assert(living(order, healths)[q] == id);
        }
    }
}

proof fn lemma_skip_dead_shape(v: BattleView)
    requires
        0 <= v.cursor <= v.turn_order.len(),
    ensures
        v.skip_dead() == (BattleView { cursor: v.skip_dead().cursor, ..v }),
        v.cursor <= v.skip_dead().cursor <= v.turn_order.len(),
        v.skip_dead().cursor < v.turn_order.len() ==> v.alive(
            v.turn_order[v.skip_dead().cursor].index as int,
        ),
    decreases v.turn_order.len() - v.cursor,
{
    if 0 <= v.cursor < v.turn_order.len() && !v.alive(v.turn_order[v.cursor].index as int) {
        lemma_skip_dead_shape(BattleView { cursor: v.cursor + 1, ..v });
    }
}

/// The end condition reads only the roster and the healths.
proof fn lemma_same_winner(a: BattleView, b: BattleView)
    requires
        a.combatants == b.combatants,
        a.healths == b.healths,
    ensures
        a.winner() == b.winner(),
{
    assert(a.side_alive(Side::Player) == b.side_alive(Side::Player)) by {
        if a.side_alive(Side::Player) {
            let i = choose|i: int|
                0 <= i < a.len() && a.combatants[i].side == Side::Player && (#[trigger] a.healths[
                    i]).current > 0;
            assert(b.healths[i] == a.healths[i]);
        }
        if b.side_alive(Side::Player) {
            let i = choose|i: int|
                0 <= i < b.len() && b.combatants[i].side == Side::Player && (#[trigger] b.healths[
                    i]).current > 0;
            assert(b.healths[i] == a.healths[i]);
        }
    }
    assert(a.side_alive(Side::Enemy) == b.side_alive(Side::Enemy)) by {
        if a.side_alive(Side::Enemy) {
            let i = choose|i: int|
                0 <= i < a.len() && a.combatants[i].side == Side::Enemy && (#[trigger] a.healths[
                    i]).current > 0;
            assert(b.healths[i] == a.healths[i]);
        }
        if b.side_alive(Side::Enemy) {
            let i = choose|i: int|
                0 <= i < b.len() && b.combatants[i].side == Side::Enemy && (#[trigger] b.healths[
                    i]).current > 0;
            assert(b.healths[i] == a.healths[i]);
        }
    }
}

/// While the combat is undecided the player is alive, and so in the order.
proof fn lemma_undecided_player(v: BattleView) -> (p: int)
    requires
        v.consistent(),
        v.in_order(),
        v.winner().is_none(),
    ensures
        0 <= p < v.len(),
        v.alive(p),
        v.turn_order.contains(CombatantId { index: p as usize }),
{
    let p = choose|i: int|
        0 <= i < v.len() && v.combatants[i].side == Side::Player && (#[trigger] v.healths[
            i]).current > 0;
    p
}

/// Settling a consistent state whose living combatants all have a place in
/// the order, with no action pending, gives a state its phase allows.
proof fn lemma_settle_wf(v: BattleView)
    requires
        v.consistent(),
        v.in_order(),
        v.pending.is_none(),
    ensures
        v.settle().wf(),
{
    match v.winner() {
        Some(w) => {
            lemma_same_winner(v.finish(w), v);
        },
        None => {
            lemma_skip_dead_shape(v);
            let s = v.skip_dead();
            lemma_same_winner(s, v);
            lemma_same_winner(s.select(), v);
            if s.cursor >= s.turn_order.len() {
                let r = s.rollover();
                let p = lemma_undecided_player(v);
                lemma_living_keeps(v.turn_order, v.healths, CombatantId { index: p as usize });
                assert forall|i: int|
                    0 <= i < r.len() && (#[trigger] r.healths[i]).current > 0 implies r.turn_order.contains(
                    CombatantId { index: i as usize },
                ) by {
                    lemma_living_keeps(v.turn_order, v.healths, CombatantId { index: i as usize });
                }
                lemma_living_alive(v.turn_order, v.healths, 0);
                assert forall|i: int| 0 <= i < r.turn_order.len() implies #[trigger] r.turn_order[i].index
                    < r.len() by {
                    lemma_living_members(v.turn_order, v.healths, i);
                    let q = choose|q: int| 0 <= q < v.turn_order.len() && v.turn_order[q] == r.turn_order[i];
                    assert(v.turn_order[q].index < v.len());
                }
                lemma_living_ordered(v.turn_order, v.healths, v.rolls);
                lemma_skip_dead_shape(r);
                lemma_same_winner(r, v);
                lemma_same_winner(r.skip_dead().select(), v);
            }
        },
    }
}

/// Resolving an action changes neither the roster, the order nor the phase,
/// and revives no one.
proof fn lemma_resolve_frame(v: BattleView, a: int, act: QueuedAction)
    requires
        v.consistent(),
        0 <= a < v.len(),
        0 <= act.target.index < v.len(),
    ensures
        v.resolve(a, act).combatants == v.combatants,
        v.resolve(a, act).turn_order == v.turn_order,
        v.resolve(a, act).healths.len() == v.healths.len(),
        forall|i: int|
            0 <= i < v.len() && (#[trigger] v.resolve(a, act).healths[i]).current > 0
                ==> v.healths[i].current > 0,
        v.in_order() ==> v.resolve(a, act).in_order(),
{
    let r = v.resolve(a, act);
    assert forall|i: int|
        0 <= i < v.len() && (#[trigger] r.healths[i]).current > 0 implies v.healths[i].current
        > 0 by {}
    if v.in_order() {
        assert forall|i: int|
            0 <= i < r.len() && (#[trigger] r.healths[i]).current > 0 implies r.turn_order.contains(
            CombatantId { index: i as usize },
        ) by {
            assert(v.healths[i].current > 0);
        }
    }
}

pub proof fn lemma_dealt_nonneg(log: Seq<(int, int)>, i: int)
    requires
        forall|k: int| 0 <= k < log.len() ==> (#[trigger] log[k]).1 >= 0,
    ensures
        dealt(log, i) >= 0,
    decreases log.len(),
{
    if log.len() > 0 {
        lemma_dealt_nonneg(log.drop_last(), i);
    }
}

proof fn lemma_hurt_consistent(v: BattleView, t: int, amount: int)
    requires
        v.consistent(),
        0 <= t < v.len(),
        amount >= 0,
    ensures
        v.hurt(t, amount).consistent(),
{
    let n = v.hurt(t, amount);
    assert(n.damage_log.drop_last() =~= v.damage_log);
    assert forall|i: int| 0 <= i < n.len() implies {
        &&& (#[trigger] n.healths[i]).max == n.combatants[i].stats.life
        &&& n.healths[i].current == sat_sub(n.healths[i].max as int, dealt(n.damage_log, i))
    } by {
        lemma_dealt_nonneg(v.damage_log, i);
        assert(v.healths[i].max == v.combatants[i].stats.life);
    }
    assert forall|k: int| 0 <= k < n.damage_log.len() implies {
        &&& 0 <= (#[trigger] n.damage_log[k]).0 < n.len()
        &&& n.damage_log[k].1 >= 0
    } by {
        if k < v.damage_log.len() {
            assert(n.damage_log[k] == v.damage_log[k]);
        }
    }
}

/// Where no damage was ever recorded against `i`, none was dealt.
proof fn lemma_dealt_unlisted(log: Seq<(int, int)>, i: int)
    requires
        forall|k: int| 0 <= k < log.len() ==> (#[trigger] log[k]).0 != i,
    ensures
        dealt(log, i) == 0,
    decreases log.len(),
{
    if log.len() > 0 {
        lemma_dealt_unlisted(log.drop_last(), i);
    }
}

} // verus!
