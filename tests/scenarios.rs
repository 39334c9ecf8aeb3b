use dungeon_combat::battle::{create_battle, BattleState, Phase};
use dungeon_combat::character::{CombatantId, Side, Stats};
use dungeon_combat::events::{CombatMessageEvent, MessageType};
use dungeon_combat::rules::QueuedAction;
use dungeon_combat::world::EnemyTypeData;

fn stats(
    life: u32,
    armor: u32,
    initiative: u32,
    attack: u32,
    defense: u32,
    damage: u32,
    dice_count: u32,
    finte_cap: u32,
    wuchtschlag_cap: u32,
) -> Stats {
    Stats {
        life,
        armor,
        initiative,
        attack,
        defense,
        damage,
        dice_count,
        finte_cap,
        wuchtschlag_cap,
    }
}

/// Drives the battle until it is finished or `max_units` scheduler units have
/// passed; the player always attacks the first living enemy with `finte` and
/// `wuchtschlag`. Returns every event emitted.
fn drive(
    b: &mut BattleState,
    player: CombatantId,
    finte: u32,
    wuchtschlag: u32,
    max_units: usize,
) -> Vec<CombatMessageEvent> {
    let mut events = b.drain_events();
    for _ in 0..max_units {
        match b.phase() {
            Phase::AwaitingPlayerAction => {
                let target = b.alive_ids(Side::Enemy)[0];
                b.submit_player_action(player, QueuedAction::new(target, finte, wuchtschlag))
                    .unwrap();
            }
            Phase::ReadyToResolve => b.step(),
            Phase::Finished { .. } | Phase::Idle => break,
        }
        events.extend(b.drain_events());
    }
    events
}

fn trivial_win(seed: u64) -> (BattleState, Vec<CombatMessageEvent>) {
    let mut b = create_battle(seed);
    let player = b
        .add_player("Spieler".to_string(), stats(20, 5, 14, 20, 20, 20, 4, 0, 0))
        .unwrap();
    let zombie = EnemyTypeData::MiniZombie;
    b.add_enemy(zombie.stats().9.to_string(), zombie.combat_stats())
        .unwrap();
    b.begin_combat().unwrap();
    let events = drive(&mut b, player, 0, 0, 1000);
    (b, events)
}

#[test]
fn trivial_win_scenario() {
    let (b, events) = trivial_win(1);
    assert_eq!(b.phase(), Phase::Finished { winner: Side::Player });
    assert!(b.round() <= 2, "round {}", b.round());
    assert!(events.iter().any(|e| e.message_type == MessageType::Damage
        && e.message.starts_with("Mini Zombie nimmt ")));
    assert_eq!(events[0].message_type, MessageType::CombatStart);
    assert_eq!(events[1].message_type, MessageType::RoundStart);
    assert_eq!(events[1].message, "Runde 1 beginnt!");
    let last = events.last().unwrap();
    assert_eq!(last.message_type, MessageType::CombatEnd);
    assert_eq!(last.message, "Du hast alle Gegner besiegt!");
}

#[test]
fn trivial_loss_scenario() {
    let mut b = create_battle(1);
    let player = b
        .add_player("Spieler".to_string(), stats(1, 0, 10, 0, 0, 0, 0, 0, 0))
        .unwrap();
    for _ in 0..2 {
        let z = EnemyTypeData::BigZombie;
        b.add_enemy(z.stats().9.to_string(), z.combat_stats()).unwrap();
    }
    b.begin_combat().unwrap();
    let events = drive(&mut b, player, 0, 0, 100_000);
    assert_eq!(b.phase(), Phase::Finished { winner: Side::Enemy });
    assert_eq!(b.snapshot().healths[0].current, 0);
    assert!(!events.iter().any(|e| e.message_type == MessageType::Damage
        && e.message.starts_with("Big Zombie")));
    assert_eq!(events.last().unwrap().message, "Du wurdest besiegt...");
}

#[test]
fn miss_forced_scenario() {
    let mut damage_events = 0;
    let mut resolutions = 0;
    for seed in 0..100u64 {
        let mut b = create_battle(seed);
        let player = b
            .add_player("Spieler".to_string(), stats(10, 0, 10, 0, 10, 5, 2, 2, 2))
            .unwrap();
        b.add_enemy("Gegner".to_string(), stats(10, 0, 10, 0, 10, 5, 2, 2, 2))
            .unwrap();
        b.begin_combat().unwrap();
        let events = drive(&mut b, player, 0, 0, 8);
        resolutions += events
            .iter()
            .filter(|e| e.message.ends_with(" startet den Angriff!"))
            .count();
        damage_events += events
            .iter()
            .filter(|e| e.message_type == MessageType::Damage)
            .count();
        assert!(!events.iter().any(|e| e.message_type == MessageType::Defense));
        assert!(!matches!(b.phase(), Phase::Finished { .. }));
    }
    assert!(resolutions >= 100);
    assert_eq!(damage_events, 0);
}

#[test]
fn armor_wall_scenario() {
    let mut b = create_battle(4);
    let player = b
        .add_player("Spieler".to_string(), stats(30, 1000, 10, 20, 0, 20, 3, 0, 0))
        .unwrap();
    b.add_enemy("Golem".to_string(), stats(30, 1000, 10, 20, 0, 20, 3, 0, 0))
        .unwrap();
    b.begin_combat().unwrap();
    let events = drive(&mut b, player, 0, 0, 300);
    let damage: Vec<&CombatMessageEvent> = events
        .iter()
        .filter(|e| e.message_type == MessageType::Damage)
        .collect();
    assert!(damage.len() >= 100);
    assert!(damage.iter().all(|e| e.message.ends_with(" nimmt 0 Schaden!")));
    let snap = b.snapshot();
    assert_eq!(snap.healths[0].current, 30);
    assert_eq!(snap.healths[1].current, 30);
}

#[test]
fn initiative_order_scenario() {
    for seed in 0..60u64 {
        let mut b = create_battle(seed);
        let first = b
            .add_player("Spieler".to_string(), stats(10, 0, 10, 10, 10, 1, 1, 0, 0))
            .unwrap();
        let second = b
            .add_enemy("Gegner".to_string(), stats(10, 0, 5, 10, 10, 1, 1, 0, 0))
            .unwrap();
        b.begin_combat().unwrap();
        let r1 = b.initiative(first).unwrap().randomized;
        let r2 = b.initiative(second).unwrap().randomized;
        assert!((11..=16).contains(&r1));
        assert!((6..=11).contains(&r2));
        // 5 + 6 can only tie 10 + 1, and a tie keeps registration order.
        assert_eq!(b.snapshot().turn_order, vec![first, second]);
    }
}

#[test]
fn initiative_ties_keep_registration_order() {
    let mut ties = 0;
    for seed in 0..60u64 {
        let mut b = create_battle(seed);
        let e1 = b.add_enemy("A".to_string(), stats(10, 0, 10, 10, 10, 1, 1, 0, 0)).unwrap();
        let p = b.add_player("Spieler".to_string(), stats(10, 0, 10, 10, 10, 1, 1, 0, 0)).unwrap();
        let e2 = b.add_enemy("B".to_string(), stats(10, 0, 10, 10, 10, 1, 1, 0, 0)).unwrap();
        b.begin_combat().unwrap();
        let ids = [e1, p, e2];
        let order = b.snapshot().turn_order;
        assert_eq!(order.len(), 3);
        for i in 0..3 {
            for j in (i + 1)..3 {
                let ri = b.initiative(order[i]).unwrap().randomized;
                let rj = b.initiative(order[j]).unwrap().randomized;
                assert!(ri > rj || (ri == rj && order[i].index < order[j].index));
                if ri == rj {
                    ties += 1;
                }
            }
        }
        for id in ids.iter() {
            assert!(order.contains(id));
        }
    }
    assert!(ties > 0);
}

#[test]
fn determinism_scenario() {
    let (b1, e1) = trivial_win(1);
    let (b2, e2) = trivial_win(1);
    assert_eq!(e1.len(), e2.len());
    for (a, b) in e1.iter().zip(e2.iter()) {
        assert_eq!(a.message, b.message);
        assert_eq!(a.message_type, b.message_type);
        assert_eq!(a.delay_ms, b.delay_ms);
    }
    let s1 = b1.snapshot();
    let s2 = b2.snapshot();
    assert_eq!(s1.round, s2.round);
    assert_eq!(s1.turn_order, s2.turn_order);
    assert_eq!(s1.healths, s2.healths);
    assert_eq!(s1.phase, s2.phase);
}
