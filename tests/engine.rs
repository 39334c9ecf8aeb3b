use dungeon_combat::battle::{create_battle, BattleState, CombatError, Phase};
use dungeon_combat::character::{CombatantId, Health, Side, SpecialAbilities, Stats};
use dungeon_combat::dice::Dice;
use dungeon_combat::events::{decimal_text, MessageType};
use dungeon_combat::rules::{
    attack_lands, clamp_level, damage_through_armor, hit_damage, hit_threshold, parried,
    parry_threshold, QueuedAction,
};

fn stats(life: u32, armor: u32, attack: u32, defense: u32, damage: u32, dice: u32) -> Stats {
    Stats {
        life,
        armor,
        initiative: 10,
        attack,
        defense,
        damage,
        dice_count: dice,
        finte_cap: 2,
        wuchtschlag_cap: 2,
    }
}

fn duel(seed: u64, player: Stats, enemy: Stats) -> (BattleState, CombatantId, CombatantId) {
    let mut b = create_battle(seed);
    let p = b.add_player("Held".to_string(), player).unwrap();
    let e = b.add_enemy("Ork".to_string(), enemy).unwrap();
    b.begin_combat().unwrap();
    (b, p, e)
}

/// The amount in a "<name> nimmt <n> Schaden!" message.
fn amount_of(message: &str) -> u64 {
    let rest = message.split(" nimmt ").nth(1).unwrap();
    rest.trim_end_matches(" Schaden!").parse().unwrap()
}

#[test]
fn thresholds_without_special_moves() {
    assert_eq!(hit_threshold(14, 0, 0), 14);
    assert_eq!(parry_threshold(9, 0), 9);
    assert_eq!(hit_threshold(0, 0, 0), 0);
}

#[test]
fn wuchtschlag_lowers_threshold_by_twice_its_level() {
    assert_eq!(hit_threshold(20, 0, 3), 14);
    assert_eq!(hit_threshold(20, 1, 3), 13);
    assert_eq!(hit_threshold(5, 1, 3), 0);
    assert_eq!(hit_threshold(u32::MAX, u32::MAX, u32::MAX), 0);
    assert_eq!(parry_threshold(10, 2), 6);
    assert_eq!(parry_threshold(3, 2), 0);
}

#[test]
fn armor_absorbs_damage_up_to_its_value() {
    assert_eq!(damage_through_armor(5, 10), 0);
    assert_eq!(damage_through_armor(10, 10), 0);
    assert_eq!(damage_through_armor(25, 10), 15);
}

#[test]
fn levels_are_clamped_to_caps() {
    assert_eq!(clamp_level(5, 2), 2);
    assert_eq!(clamp_level(1, 2), 1);
    let a = QueuedAction::new(CombatantId { index: 1 }, 7, 9);
    let c = a.clamped(SpecialAbilities::new(3, 0));
    assert_eq!(c, QueuedAction::new(CombatantId { index: 1 }, 3, 0));
}

#[test]
fn health_take_damage_and_heal() {
    let mut h = Health::new(20);
    assert!(h.is_alive());
    assert_eq!(h.take_damage(8, 3), 5);
    assert_eq!(h, Health { current: 15, max: 20 });
    assert_eq!(h.take_damage(2, 3), 0);
    assert_eq!(h.current, 15);
    h.heal(100);
    assert_eq!(h.current, 20);
    assert_eq!(h.take_damage(50, 0), 50);
    assert_eq!(h.current, 0);
    assert!(!h.is_alive());
    h.heal(4);
    assert_eq!(h.current, 4);
}

#[test]
fn decimal_text_writes_numbers() {
    assert_eq!(decimal_text(0), "0");
    assert_eq!(decimal_text(7), "7");
    assert_eq!(decimal_text(10), "10");
    assert_eq!(decimal_text(4096), "4096");
    assert_eq!(decimal_text(u64::MAX), u64::MAX.to_string());
}

#[test]
fn dice_rolls_stay_in_range_and_vary() {
    let mut d = Dice::new(9);
    let mut seen = [false; 21];
    for _ in 0..500 {
        let r = d.roll(1, 20);
        assert!((1..=20).contains(&r));
        seen[r as usize] = true;
    }
    assert!(seen.iter().filter(|s| **s).count() > 10);
    for _ in 0..50 {
        assert_eq!(d.roll(4, 4), 4);
        let r = d.roll(0, 2);
        assert!(r <= 2);
    }
}

#[test]
fn dice_with_equal_seeds_agree() {
    let mut a = Dice::new(77);
    let mut b = Dice::new(77);
    for _ in 0..100 {
        assert_eq!(a.roll(1, 20), b.roll(1, 20));
    }
}

#[test]
fn health_stays_within_bounds() {
    for seed in 0..20u64 {
        let (mut b, p, _) = duel(seed, stats(30, 0, 15, 5, 6, 2), stats(25, 0, 15, 5, 6, 2));
        for _ in 0..400 {
            match b.phase() {
                Phase::AwaitingPlayerAction => {
                    let t = b.alive_ids(Side::Enemy)[0];
                    b.submit_player_action(p, QueuedAction::new(t, 1, 1)).unwrap();
                }
                Phase::ReadyToResolve => b.step(),
                _ => break,
            }
            for h in b.snapshot().healths {
                assert!(h.current <= h.max);
            }
        }
        assert!(matches!(b.phase(), Phase::Finished { .. }));
    }
}

#[test]
fn damage_events_add_up_to_lost_health() {
    for seed in 0..20u64 {
        let (mut b, p, e) = duel(seed, stats(40, 1, 14, 6, 4, 1), stats(30, 2, 14, 6, 4, 1));
        let mut to_player = 0u64;
        let mut to_enemy = 0u64;
        for _ in 0..1000 {
            match b.phase() {
                Phase::AwaitingPlayerAction => {
                    b.submit_player_action(p, QueuedAction::new(e, 0, 1)).unwrap();
                }
                Phase::ReadyToResolve => b.step(),
                _ => break,
            }
            for ev in b.drain_events() {
                if ev.message_type == MessageType::Damage {
                    if ev.message.starts_with("Held") {
                        to_player += amount_of(&ev.message);
                    } else {
                        to_enemy += amount_of(&ev.message);
                    }
                }
            }
        }
        let hp = b.health(p).unwrap();
        let he = b.health(e).unwrap();
        for (dealt, h) in [(to_player, hp), (to_enemy, he)] {
            if h.is_alive() {
                assert_eq!(dealt, (h.max - h.current) as u64);
            } else {
                assert!(dealt >= h.max as u64);
            }
        }
    }
}

#[test]
fn a_miss_emits_announcement_and_one_player_action_miss_notice() {
    let (mut b, p, e) = duel(5, stats(10, 0, 0, 0, 5, 1), stats(10, 0, 0, 0, 5, 1));
    b.drain_events();
    for _ in 0..20 {
        match b.phase() {
            Phase::AwaitingPlayerAction => {
                b.submit_player_action(p, QueuedAction::new(e, 0, 0)).unwrap();
                assert!(b.drain_events().is_empty());
            }
            Phase::ReadyToResolve => {
                let on_turn = b.current_turn().unwrap();
                b.step();
                let events = b.drain_events();
                let kind = if on_turn == p {
                    MessageType::PlayerAction
                } else {
                    MessageType::EnemyAction
                };
                let name = if on_turn == p { "Held" } else { "Ork" };
                assert_eq!(events[0].message_type, kind);
                assert_eq!(events[0].message, format!("{} startet den Angriff!", name));
                assert_eq!(events[1].message_type, MessageType::PlayerAction);
                assert_eq!(events[1].message, format!("{} scheiterte anzugreifen...", name));
                let rest = &events[2..];
                assert!(rest.iter().all(|ev| ev.message_type == MessageType::RoundStart));
            }
            _ => panic!("the battle cannot end"),
        }
    }
}

#[test]
fn finished_battle_is_absorbing() {
    let (mut b, p, e) = duel(2, stats(30, 0, 20, 0, 50, 0), stats(1, 0, 0, 0, 0, 0));
    for _ in 0..10 {
        match b.phase() {
            Phase::AwaitingPlayerAction => {
                b.submit_player_action(p, QueuedAction::new(e, 0, 0)).unwrap();
            }
            Phase::ReadyToResolve => b.step(),
            _ => break,
        }
    }
    assert_eq!(b.phase(), Phase::Finished { winner: Side::Player });
    b.drain_events();
    let before = b.snapshot();
    b.step();
    assert!(b.drain_events().is_empty());
    assert_eq!(b.snapshot().healths, before.healths);
    assert_eq!(b.submit_player_action(p, QueuedAction::new(e, 0, 0)), Err(CombatError::WrongPhase));
    assert_eq!(b.begin_combat(), Err(CombatError::WrongPhase));
}

#[test]
fn each_ready_step_moves_the_turn_forward() {
    let (mut b, p, e) = duel(8, stats(60, 0, 12, 6, 3, 1), stats(60, 0, 12, 6, 3, 1));
    for _ in 0..500 {
        match b.phase() {
            Phase::AwaitingPlayerAction => {
                b.submit_player_action(p, QueuedAction::new(e, 0, 0)).unwrap();
            }
            Phase::ReadyToResolve => {
                let round = b.round();
                let turn = b.snapshot().turn_order.iter().position(|id| Some(*id) == b.current_turn());
                b.step();
                let later_turn = b.snapshot().turn_order.iter().position(|id| Some(*id) == b.current_turn());
                assert!(matches!(b.phase(), Phase::Finished { .. })
                    || b.round() > round
                    || (b.round() == round && later_turn > turn));
            }
            _ => break,
        }
    }
    assert!(matches!(b.phase(), Phase::Finished { .. }));
}

#[test]
fn dead_at_start_are_left_out_and_decide_the_battle() {
    let mut b = create_battle(3);
    b.add_player("Held".to_string(), stats(10, 0, 10, 10, 1, 1)).unwrap();
    let dead = b.add_enemy("Geist".to_string(), stats(0, 0, 10, 10, 1, 1)).unwrap();
    b.begin_combat().unwrap();
    assert_eq!(b.phase(), Phase::Finished { winner: Side::Player });
    assert!(!b.snapshot().turn_order.contains(&dead));
    let events = b.drain_events();
    let kinds: Vec<MessageType> = events.iter().map(|e| e.message_type).collect();
    assert_eq!(kinds, vec![MessageType::CombatStart, MessageType::RoundStart, MessageType::CombatEnd]);
}

#[test]
fn no_player_means_the_enemies_win() {
    let mut b = create_battle(3);
    b.add_enemy("Ork".to_string(), stats(10, 0, 10, 10, 1, 1)).unwrap();
    b.begin_combat().unwrap();
    assert_eq!(b.phase(), Phase::Finished { winner: Side::Enemy });
}

#[test]
fn operations_in_the_wrong_phase_are_refused() {
    let mut b = create_battle(1);
    let p = b.add_player("Held".to_string(), stats(10, 0, 10, 10, 1, 1)).unwrap();
    let e = b.add_enemy("Ork".to_string(), stats(10, 0, 10, 10, 1, 1)).unwrap();
    assert_eq!(b.phase(), Phase::Idle);
    assert_eq!(b.current_turn(), None);
    assert!(b.is_round_over());
    assert_eq!(
        b.submit_player_action(p, QueuedAction::new(e, 0, 0)),
        Err(CombatError::WrongPhase)
    );
    b.begin_combat().unwrap();
    assert_eq!(b.begin_combat(), Err(CombatError::WrongPhase));
    assert_eq!(
        b.add_enemy("Nachzügler".to_string(), stats(10, 0, 10, 10, 1, 1)),
        Err(CombatError::WrongPhase)
    );
}

#[test]
fn a_second_player_is_refused() {
    let mut b = create_battle(1);
    assert_eq!(b.add_player("A".to_string(), stats(10, 0, 10, 10, 1, 1)), Ok(CombatantId { index: 0 }));
    assert_eq!(
        b.add_player("B".to_string(), stats(10, 0, 10, 10, 1, 1)),
        Err(CombatError::InvariantViolated)
    );
    assert_eq!(b.add_enemy("C".to_string(), stats(10, 0, 10, 10, 1, 1)), Ok(CombatantId { index: 1 }));
}

/// A battle where it is the player's turn: player and two enemies, the player
/// far ahead in initiative.
fn awaiting_player() -> (BattleState, CombatantId, CombatantId, CombatantId) {
    let mut b = create_battle(11);
    let mut fast = stats(10, 0, 10, 10, 1, 1);
    fast.initiative = 100;
    let p = b.add_player("Held".to_string(), fast).unwrap();
    let e1 = b.add_enemy("Ork".to_string(), stats(10, 0, 10, 10, 1, 1)).unwrap();
    let e2 = b.add_enemy("Troll".to_string(), stats(10, 0, 10, 10, 1, 1)).unwrap();
    b.begin_combat().unwrap();
    assert_eq!(b.phase(), Phase::AwaitingPlayerAction);
    assert_eq!(b.current_turn(), Some(p));
    assert!(!b.is_round_over());
    (b, p, e1, e2)
}

#[test]
fn submitting_for_someone_else_is_refused() {
    let (mut b, p, e1, _) = awaiting_player();
    assert_eq!(
        b.submit_player_action(e1, QueuedAction::new(p, 0, 0)),
        Err(CombatError::WrongPhase)
    );
    assert_eq!(
        b.submit_player_action(CombatantId { index: 9 }, QueuedAction::new(e1, 0, 0)),
        Err(CombatError::UnknownCombatant)
    );
    assert_eq!(b.phase(), Phase::AwaitingPlayerAction);
}

#[test]
fn bad_targets_are_refused() {
    let (mut b, p, _, _) = awaiting_player();
    assert_eq!(
        b.submit_player_action(p, QueuedAction::new(p, 0, 0)),
        Err(CombatError::BadTarget)
    );
    assert_eq!(
        b.submit_player_action(p, QueuedAction::new(CombatantId { index: 3 }, 0, 0)),
        Err(CombatError::UnknownCombatant)
    );
    assert_eq!(b.health(CombatantId { index: 3 }), Err(CombatError::UnknownCombatant));
}

#[test]
fn a_dead_target_is_refused() {
    let mut b = create_battle(11);
    let mut fast = stats(10, 0, 10, 10, 1, 1);
    fast.initiative = 100;
    let p = b.add_player("Held".to_string(), fast).unwrap();
    let dead = b.add_enemy("Geist".to_string(), stats(0, 0, 10, 10, 1, 1)).unwrap();
    b.add_enemy("Ork".to_string(), stats(10, 0, 10, 10, 1, 1)).unwrap();
    b.begin_combat().unwrap();
    assert_eq!(
        b.submit_player_action(p, QueuedAction::new(dead, 0, 0)),
        Err(CombatError::BadTarget)
    );
}

#[test]
fn submitting_moves_to_ready_and_step_resolves() {
    let (mut b, p, e1, e2) = awaiting_player();
    b.drain_events();
    assert_eq!(b.submit_player_action(p, QueuedAction::new(e2, 5, 5)), Ok(()));
    assert_eq!(b.phase(), Phase::ReadyToResolve);
    b.step();
    let events = b.drain_events();
    assert_eq!(events[0].message, "Held startet den Angriff!");
    assert_eq!(events[0].message_type, MessageType::PlayerAction);
    assert!(events.iter().all(|ev| !ev.message.starts_with("Ork ")));
    assert_ne!(b.current_turn(), Some(p));
    let _ = e1;
}

#[test]
fn stepping_while_awaiting_does_nothing() {
    let (mut b, p, _, _) = awaiting_player();
    b.drain_events();
    b.step();
    assert!(b.drain_events().is_empty());
    assert_eq!(b.phase(), Phase::AwaitingPlayerAction);
    assert_eq!(b.current_turn(), Some(p));
}

#[test]
fn parry_and_damage_messages_carry_their_delays() {
    let mut seen_damage = false;
    let mut seen_parry = false;
    for seed in 0..30u64 {
        let (mut b, p, e) = duel(seed, stats(50, 0, 20, 10, 3, 1), stats(50, 0, 20, 10, 3, 1));
        for _ in 0..40 {
            match b.phase() {
                Phase::AwaitingPlayerAction => {
                    b.submit_player_action(p, QueuedAction::new(e, 0, 0)).unwrap();
                }
                Phase::ReadyToResolve => b.step(),
                _ => break,
            }
        }
        for ev in b.drain_events() {
            match ev.message_type {
                MessageType::Damage => {
                    seen_damage = true;
                    assert_eq!(ev.delay_ms, 300);
                    assert!(ev.message.ends_with(" Schaden!"));
                }
                MessageType::Defense => {
                    seen_parry = true;
                    assert_eq!(ev.delay_ms, 200);
                    assert!(ev.message.ends_with(" parriert erfolgreich!"));
                }
                _ => assert_eq!(ev.delay_ms, 0),
            }
        }
    }
    assert!(seen_damage && seen_parry);
}

#[test]
fn registry_lookups() {
    let (b, p, e) = duel(6, stats(12, 2, 10, 10, 1, 1), stats(9, 0, 10, 10, 1, 1));
    let hero = b.get(p).unwrap();
    assert_eq!(hero.side, Side::Player);
    assert_eq!(hero.name, "Held");
    assert_eq!(hero.stats.life, 12);
    assert_eq!(hero.abilities(), SpecialAbilities::new(2, 2));
    assert_eq!(b.get(e).unwrap().side, Side::Enemy);
    assert!(b.get(CombatantId { index: 2 }).is_err());
    assert_eq!(b.alive_ids(Side::Player), vec![p]);
    assert_eq!(b.alive_ids(Side::Enemy), vec![e]);
    assert_eq!(b.initiative(p).unwrap().base, 10);
    assert_eq!(b.round(), 1);
}

#[test]
fn hits_parries_and_damage_on_given_rolls() {
    // Without special moves: the plain attack and defense values decide.
    assert!(attack_lands(12, 0, 0, 12));
    assert!(!attack_lands(12, 0, 0, 13));
    assert!(parried(8, 0, 8));
    assert!(!parried(8, 0, 9));
    assert_eq!(hit_damage(20, 15, 0, 5), 30);
    // A wuchtschlag of 3: six more damage, a threshold six lower.
    assert_eq!(hit_damage(20, 15, 3, 5), 36);
    assert!(attack_lands(20, 0, 3, 14));
    assert!(!attack_lands(20, 0, 3, 15));
    // A finte of 2 lowers the parry threshold by four.
    assert!(parried(10, 2, 6));
    assert!(!parried(10, 2, 7));
    // Armor at least the raw damage lets nothing through.
    assert_eq!(hit_damage(3, 4, 0, 10), 0);
    assert_eq!(hit_damage(3, 4, 1, 9), 0);
    // An attack of zero never lands on a d20.
    for roll in 1..=20 {
        assert!(!attack_lands(0, 0, 0, roll));
    }
}

#[test]
fn an_enemy_miss_notice_is_a_player_action() {
    let (mut b, p, e) = duel(5, stats(10, 0, 0, 0, 5, 1), stats(10, 0, 0, 0, 5, 1));
    let mut seen_enemy_miss = false;
    for _ in 0..10 {
        match b.phase() {
            Phase::AwaitingPlayerAction => {
                b.submit_player_action(p, QueuedAction::new(e, 0, 0)).unwrap();
            }
            Phase::ReadyToResolve => b.step(),
            _ => break,
        }
        for ev in b.drain_events() {
            if ev.message == "Ork startet den Angriff!" {
                assert_eq!(ev.message_type, MessageType::EnemyAction);
            }
            if ev.message == "Ork scheiterte anzugreifen..." {
                seen_enemy_miss = true;
                assert_eq!(ev.message_type, MessageType::PlayerAction);
            }
        }
    }
    assert!(seen_enemy_miss);
}

#[test]
fn initiative_rolls_are_base_plus_a_d6() {
    for seed in 0..40u64 {
        let mut b = create_battle(seed);
        let p = b.add_player("Held".to_string(), stats(10, 0, 10, 10, 1, 1)).unwrap();
        let mut slow = stats(10, 0, 10, 10, 1, 1);
        slow.initiative = 0;
        let e = b.add_enemy("Ork".to_string(), slow).unwrap();
        b.begin_combat().unwrap();
        let rp = b.initiative(p).unwrap().randomized;
        let re = b.initiative(e).unwrap().randomized;
        assert!((11..=16).contains(&rp));
        assert!((1..=6).contains(&re));
    }
}

#[test]
fn enemy_levels_stay_within_caps() {
    // An enemy with attack 20 hits whenever its threshold allows, so a
    // wuchtschlag above its cap would show as a lower hit rate; here the cap
    // is 0, so every enemy attack lands and is never parried.
    let mut sure = stats(500, 0, 20, 0, 1, 0);
    sure.finte_cap = 0;
    sure.wuchtschlag_cap = 0;
    let (mut b, p, e) = duel(13, stats(500, 0, 0, 0, 1, 0), sure);
    let mut enemy_hits = 0;
    for _ in 0..60 {
        match b.phase() {
            Phase::AwaitingPlayerAction => {
                b.submit_player_action(p, QueuedAction::new(e, 0, 0)).unwrap();
            }
            Phase::ReadyToResolve => b.step(),
            _ => break,
        }
        for ev in b.drain_events() {
            if ev.message.starts_with("Held nimmt ") {
                assert_eq!(ev.message, "Held nimmt 1 Schaden!");
                enemy_hits += 1;
            }
        }
    }
    assert!(enemy_hits >= 15);
}
