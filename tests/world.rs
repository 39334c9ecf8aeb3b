use dungeon_combat::character::Stats;
use dungeon_combat::world::{EnemyTypeData, PlayerType, RoomTypeData, UpgradeTypeData, WorldState};

#[test]
fn enemy_stat_lines() {
    assert_eq!(
        EnemyTypeData::MiniZombie.stats(),
        (10, 1, 12, 10, 6, 1, 1, 1, 0, "Mini Zombie")
    );
    assert_eq!(EnemyTypeData::Endboss.stats().9, "Endboss");
    let s = EnemyTypeData::BigZombie.combat_stats();
    assert_eq!(
        s,
        Stats {
            life: 20,
            armor: 3,
            initiative: 6,
            attack: 13,
            defense: 8,
            damage: 2,
            dice_count: 2,
            finte_cap: 1,
            wuchtschlag_cap: 2,
        }
    );
}

#[test]
fn rooms_and_upgrades() {
    assert_eq!(RoomTypeData::DiningHall.enemies().len(), 5);
    assert_eq!(RoomTypeData::FinalRoom.enemies(), vec![EnemyTypeData::Endboss]);
    assert_eq!(RoomTypeData::Pantry1.name(), "Pantry");
    assert_eq!(UpgradeTypeData::for_room(RoomTypeData::IntroRoom), Some(UpgradeTypeData::Life));
    assert_eq!(UpgradeTypeData::for_room(RoomTypeData::FinalRoom), None);
    assert_eq!(UpgradeTypeData::PantryCompound.stats(), (5, 5, 0, 0, 0, 0, 2, 0, 0));
}

#[test]
fn world_walks_through_the_rooms() {
    let mut w = WorldState::new();
    assert_eq!(w.current_room(), RoomTypeData::IntroRoom);
    assert_eq!(w.progress(), "Raum 1 von 8");
    let mut steps = 0;
    while w.advance() {
        steps += 1;
    }
    assert_eq!(steps, 7);
    assert_eq!(w.current_room(), RoomTypeData::FinalRoom);
    assert!(!w.has_next_room());
    assert_eq!(w.progress(), "Raum 8 von 8");
}

#[test]
fn player_classes_and_upgrades() {
    assert_eq!(PlayerType::from_index(0), PlayerType::SwordFighter);
    assert_eq!(PlayerType::from_index(1), PlayerType::ShieldFighter);
    assert_eq!(PlayerType::from_index(7), PlayerType::SwordFighter);
    let sword = PlayerType::SwordFighter.stats();
    assert_eq!((sword.life, sword.armor, sword.initiative, sword.attack), (20, 1, 14, 12));
    let shield = PlayerType::ShieldFighter.stats();
    assert_eq!((shield.life, shield.defense, shield.wuchtschlag_cap), (25, 12, 0));
    let up = UpgradeTypeData::PantryCompound.apply(sword);
    assert_eq!(up.life, 25);
    assert_eq!(up.damage, 5);
    assert_eq!(up.armor, 1);
    let skilled = UpgradeTypeData::Skill.apply(shield);
    assert_eq!((skilled.finte_cap, skilled.wuchtschlag_cap), (2, 1));
    let mut huge = sword;
    huge.armor = u32::MAX;
    assert_eq!(UpgradeTypeData::Armour.apply(huge).armor, u32::MAX);
}
