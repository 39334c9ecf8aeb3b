//! The dungeon: its rooms in order, the enemies of each room and the upgrade
//! found after clearing it.
use vstd::prelude::*;
use crate::character::Stats;
use crate::events::{decimal, decimal_text};

verus! {

/// The kinds of enemy.
#[derive(Clone, Copy, Debug, PartialEq, Eq, Structural)]
pub enum EnemyTypeData {
    MiniZombie,
    Scientist,
    BigZombie,
    Endboss,
}

impl EnemyTypeData {
    /// life, armor, initiative, attack, defense, damage, dice, finte,
    /// wuchtschlag, name
    pub open spec fn stats_spec(self) -> (u32, u32, u32, u32, u32, u32, u32, u32, u32, Seq<char>) {
        match self {
            EnemyTypeData::MiniZombie => (10, 1, 12, 10, 6, 1, 1, 1, 0, "Mini Zombie"@),
            EnemyTypeData::Scientist => (15, 0, 10, 12, 10, 4, 1, 2, 1, "Scientist"@),
            EnemyTypeData::BigZombie => (20, 3, 6, 13, 8, 2, 2, 1, 2, "Big Zombie"@),
            EnemyTypeData::Endboss => (50, 5, 4, 14, 10, 1, 4, 3, 3, "Endboss"@),
        }
    }

    /// The stat line of this kind of enemy: life, armor, initiative, attack,
    /// defense, damage, number of damage dice, finte cap, wuchtschlag cap,
    /// and its name.
    pub fn stats(&self) -> (r: (u32, u32, u32, u32, u32, u32, u32, u32, u32, &'static str))
        ensures
            (r.0, r.1, r.2, r.3, r.4, r.5, r.6, r.7, r.8, r.9@) == self.stats_spec(),
    {
        match self {
            EnemyTypeData::MiniZombie => (10, 1, 12, 10, 6, 1, 1, 1, 0, "Mini Zombie"),
            EnemyTypeData::Scientist => (15, 0, 10, 12, 10, 4, 1, 2, 1, "Scientist"),
            EnemyTypeData::BigZombie => (20, 3, 6, 13, 8, 2, 2, 1, 2, "Big Zombie"),
            EnemyTypeData::Endboss => (50, 5, 4, 14, 10, 1, 4, 3, 3, "Endboss"),
        }
    }

    /// The stat line as the record a battle registers combatants with.
    pub fn combat_stats(&self) -> (r: Stats)
        ensures
            r == (Stats {
                life: self.stats_spec().0,
                armor: self.stats_spec().1,
                initiative: self.stats_spec().2,
                attack: self.stats_spec().3,
                defense: self.stats_spec().4,
                damage: self.stats_spec().5,
                dice_count: self.stats_spec().6,
                finte_cap: self.stats_spec().7,
                wuchtschlag_cap: self.stats_spec().8,
            }),
    {
        let s = self.stats();
        Stats {
            life: s.0,
            armor: s.1,
            initiative: s.2,
            attack: s.3,
            defense: s.4,
            damage: s.5,
            dice_count: s.6,
            finte_cap: s.7,
            wuchtschlag_cap: s.8,
        }
    }
}

/// The rooms of the dungeon.
#[derive(Clone, Copy, Debug, PartialEq, Eq, Structural)]
pub enum RoomTypeData {
    IntroRoom,
    FloorRoom,
    Pantry1,
    LibraryRoom,
    DiningHall,
    Laboratory,
    Corridor,
    FinalRoom,
}

impl RoomTypeData {
    pub open spec fn enemies_spec(self) -> Seq<EnemyTypeData> {
        match self {
            RoomTypeData::IntroRoom => seq![EnemyTypeData::MiniZombie],
            RoomTypeData::FloorRoom => seq![EnemyTypeData::MiniZombie, EnemyTypeData::MiniZombie],
            RoomTypeData::Pantry1 => seq![EnemyTypeData::MiniZombie, EnemyTypeData::MiniZombie],
            RoomTypeData::LibraryRoom => seq![
                EnemyTypeData::MiniZombie,
                EnemyTypeData::MiniZombie,
                EnemyTypeData::Scientist,
            ],
            RoomTypeData::DiningHall => seq![
                EnemyTypeData::MiniZombie,
                EnemyTypeData::MiniZombie,
                EnemyTypeData::MiniZombie,
                EnemyTypeData::Scientist,
                EnemyTypeData::Scientist,
            ],
            RoomTypeData::Laboratory => seq![
                EnemyTypeData::Scientist,
                EnemyTypeData::Scientist,
                EnemyTypeData::Scientist,
                EnemyTypeData::Scientist,
            ],
            RoomTypeData::Corridor => seq![
                EnemyTypeData::BigZombie,
                EnemyTypeData::BigZombie,
                EnemyTypeData::BigZombie,
            ],
            RoomTypeData::FinalRoom => seq![EnemyTypeData::Endboss],
        }
    }

    /// The enemies waiting in this room.
    pub fn enemies(&self) -> (r: Vec<EnemyTypeData>)
        ensures
            r@ == self.enemies_spec(),
    {
        let r = match self {
            RoomTypeData::IntroRoom => vec![EnemyTypeData::MiniZombie],
            RoomTypeData::FloorRoom => vec![EnemyTypeData::MiniZombie, EnemyTypeData::MiniZombie],
            RoomTypeData::Pantry1 => vec![EnemyTypeData::MiniZombie, EnemyTypeData::MiniZombie],
            RoomTypeData::LibraryRoom => vec![
                EnemyTypeData::MiniZombie,
                EnemyTypeData::MiniZombie,
                EnemyTypeData::Scientist,
            ],
            RoomTypeData::DiningHall => vec![
                EnemyTypeData::MiniZombie,
                EnemyTypeData::MiniZombie,
                EnemyTypeData::MiniZombie,
                EnemyTypeData::Scientist,
                EnemyTypeData::Scientist,
            ],
            RoomTypeData::Laboratory => vec![
                EnemyTypeData::Scientist,
                EnemyTypeData::Scientist,
                EnemyTypeData::Scientist,
                EnemyTypeData::Scientist,
            ],
            RoomTypeData::Corridor => vec![
                EnemyTypeData::BigZombie,
                EnemyTypeData::BigZombie,
                EnemyTypeData::BigZombie,
            ],
            RoomTypeData::FinalRoom => vec![EnemyTypeData::Endboss],
        };
        proof {
            assert(r@ =~= self.enemies_spec());
        }
        r
    }

    pub open spec fn name_spec(self) -> Seq<char> {
        match self {
            RoomTypeData::IntroRoom => "Intro Room"@,
            RoomTypeData::FloorRoom => "Floor Room"@,
            RoomTypeData::Pantry1 => "Pantry"@,
            RoomTypeData::LibraryRoom => "Library"@,
            RoomTypeData::DiningHall => "Dining Hall"@,
            RoomTypeData::Laboratory => "Laboratory"@,
            RoomTypeData::Corridor => "Corridor"@,
            RoomTypeData::FinalRoom => "Final Room"@,
        }
    }

    pub fn name(&self) -> (r: &'static str)
        ensures
            r@ == self.name_spec(),
    {
        match self {
            RoomTypeData::IntroRoom => "Intro Room",
            RoomTypeData::FloorRoom => "Floor Room",
            RoomTypeData::Pantry1 => "Pantry",
            RoomTypeData::LibraryRoom => "Library",
            RoomTypeData::DiningHall => "Dining Hall",
            RoomTypeData::Laboratory => "Laboratory",
            RoomTypeData::Corridor => "Corridor",
            RoomTypeData::FinalRoom => "Final Room",
        }
    }
}

/// The upgrades found in the rooms.
#[derive(Clone, Copy, Debug, PartialEq, Eq, Structural)]
pub enum UpgradeTypeData {
    Finte,
    Life,
    Damage,
    Skill,
    Armour,
    Attack,
    PantryCompound,
}

impl UpgradeTypeData {
    pub open spec fn for_room_spec(room: RoomTypeData) -> Option<UpgradeTypeData> {
        match room {
            RoomTypeData::IntroRoom => Some(UpgradeTypeData::Life),
            RoomTypeData::FloorRoom => Some(UpgradeTypeData::Damage),
            RoomTypeData::Pantry1 => Some(UpgradeTypeData::PantryCompound),
            RoomTypeData::LibraryRoom => Some(UpgradeTypeData::Skill),
            RoomTypeData::DiningHall => Some(UpgradeTypeData::Armour),
            RoomTypeData::Laboratory => Some(UpgradeTypeData::Attack),
            RoomTypeData::Corridor => Some(UpgradeTypeData::Finte),
            RoomTypeData::FinalRoom => None,
        }
    }

    /// The upgrade found after clearing `room`; none after the last.
    pub fn for_room(room: RoomTypeData) -> (r: Option<UpgradeTypeData>)
        ensures
            r == Self::for_room_spec(room),
    {
        match room {
            RoomTypeData::IntroRoom => Some(UpgradeTypeData::Life),
            RoomTypeData::FloorRoom => Some(UpgradeTypeData::Damage),
            RoomTypeData::Pantry1 => Some(UpgradeTypeData::PantryCompound),
            RoomTypeData::LibraryRoom => Some(UpgradeTypeData::Skill),
            RoomTypeData::DiningHall => Some(UpgradeTypeData::Armour),
            RoomTypeData::Laboratory => Some(UpgradeTypeData::Attack),
            RoomTypeData::Corridor => Some(UpgradeTypeData::Finte),
            RoomTypeData::FinalRoom => None,
        }
    }

    /// life, max life, armor, initiative, attack, defense, damage, finte,
    /// wuchtschlag
    pub open spec fn stats_spec(self) -> (u32, u32, u32, u32, u32, u32, u32, u32, u32) {
        match self {
            UpgradeTypeData::Finte => (0, 0, 0, 0, 0, 0, 0, 1, 0),
            UpgradeTypeData::Life => (5, 5, 0, 0, 0, 0, 0, 0, 0),
            UpgradeTypeData::Damage => (0, 0, 0, 0, 0, 0, 2, 0, 0),
            UpgradeTypeData::Skill => (0, 0, 0, 0, 0, 0, 0, 1, 1),
            UpgradeTypeData::Armour => (0, 0, 3, 0, 0, 0, 0, 0, 0),
            UpgradeTypeData::Attack => (0, 0, 0, 0, 2, 0, 0, 0, 0),
            UpgradeTypeData::PantryCompound => (5, 5, 0, 0, 0, 0, 2, 0, 0),
        }
    }

    /// What the upgrade adds: life, max life, armor, initiative, attack,
    /// defense, damage, finte cap, wuchtschlag cap.
    pub fn stats(&self) -> (r: (u32, u32, u32, u32, u32, u32, u32, u32, u32))
        ensures
            r == self.stats_spec(),
    {
        match self {
            UpgradeTypeData::Finte => (0, 0, 0, 0, 0, 0, 0, 1, 0),
            UpgradeTypeData::Life => (5, 5, 0, 0, 0, 0, 0, 0, 0),
            UpgradeTypeData::Damage => (0, 0, 0, 0, 0, 0, 2, 0, 0),
            UpgradeTypeData::Skill => (0, 0, 0, 0, 0, 0, 0, 1, 1),
            UpgradeTypeData::Armour => (0, 0, 3, 0, 0, 0, 0, 0, 0),
            UpgradeTypeData::Attack => (0, 0, 0, 0, 2, 0, 0, 0, 0),
            UpgradeTypeData::PantryCompound => (5, 5, 0, 0, 0, 0, 2, 0, 0),
        }
    }
}

/// The sum of two stat values, stopping at the largest `u32`.
pub open spec fn sat_add(a: u32, b: u32) -> u32 {
    if a as int + b as int > u32::MAX as int {
        u32::MAX
    } else {
        (a + b) as u32
    }
}

impl UpgradeTypeData {
    /// `stats` with this upgrade added (each value stopping at the largest
    /// `u32`). Initiative and dice are not raised by any upgrade.
    pub fn apply(&self, stats: Stats) -> (r: Stats)
        ensures
            r == (Stats {
                life: sat_add(stats.life, self.stats_spec().1),
                armor: sat_add(stats.armor, self.stats_spec().2),
                initiative: sat_add(stats.initiative, self.stats_spec().3),
                attack: sat_add(stats.attack, self.stats_spec().4),
                defense: sat_add(stats.defense, self.stats_spec().5),
                damage: sat_add(stats.damage, self.stats_spec().6),
                dice_count: stats.dice_count,
                finte_cap: sat_add(stats.finte_cap, self.stats_spec().7),
                wuchtschlag_cap: sat_add(stats.wuchtschlag_cap, self.stats_spec().8),
            }),
    {
        let u = self.stats();
        Stats {
            life: stats.life.saturating_add(u.1),
            armor: stats.armor.saturating_add(u.2),
            initiative: stats.initiative.saturating_add(u.3),
            attack: stats.attack.saturating_add(u.4),
            defense: stats.defense.saturating_add(u.5),
            damage: stats.damage.saturating_add(u.6),
            dice_count: stats.dice_count,
            finte_cap: stats.finte_cap.saturating_add(u.7),
            wuchtschlag_cap: stats.wuchtschlag_cap.saturating_add(u.8),
        }
    }
}

/// The classes a player may choose.
#[derive(Clone, Copy, Debug, PartialEq, Eq, Structural)]
pub enum PlayerType {
    SwordFighter,
    ShieldFighter,
}

impl PlayerType {
    /// The class at position `index` of the selection; the first for any
    /// other index.
    pub fn from_index(index: usize) -> (r: PlayerType)
        ensures
            r == (if index == 1 {
                PlayerType::ShieldFighter
            } else {
                PlayerType::SwordFighter
            }),
    {
        if index == 1 {
            PlayerType::ShieldFighter
        } else {
            PlayerType::SwordFighter
        }
    }

    pub open spec fn stats_spec(self) -> Stats {
        match self {
            PlayerType::SwordFighter => Stats {
                life: 20,
                armor: 1,
                initiative: 14,
                attack: 12,
                defense: 10,
                damage: 3,
                dice_count: 2,
                finte_cap: 1,
                wuchtschlag_cap: 1,
            },
            PlayerType::ShieldFighter => Stats {
                life: 25,
                armor: 3,
                initiative: 10,
                attack: 10,
                defense: 12,
                damage: 2,
                dice_count: 2,
                finte_cap: 1,
                wuchtschlag_cap: 0,
            },
        }
    }

    /// The starting stat line of this class.
    pub fn stats(&self) -> (r: Stats)
        ensures
            r == self.stats_spec(),
    {
        match self {
            PlayerType::SwordFighter => Stats {
                life: 20,
                armor: 1,
                initiative: 14,
                attack: 12,
                defense: 10,
                damage: 3,
                dice_count: 2,
                finte_cap: 1,
                wuchtschlag_cap: 1,
            },
            PlayerType::ShieldFighter => Stats {
                life: 25,
                armor: 3,
                initiative: 10,
                attack: 10,
                defense: 12,
                damage: 2,
                dice_count: 2,
                finte_cap: 1,
                wuchtschlag_cap: 0,
            },
        }
    }
}

/// The rooms in the order they are visited.
pub open spec fn dungeon_rooms() -> Seq<RoomTypeData> {
    seq![
        RoomTypeData::IntroRoom,
        RoomTypeData::FloorRoom,
        RoomTypeData::Pantry1,
        RoomTypeData::LibraryRoom,
        RoomTypeData::DiningHall,
        RoomTypeData::Laboratory,
        RoomTypeData::Corridor,
        RoomTypeData::FinalRoom,
    ]
}

/// Progress through the dungeon.
pub struct WorldState {
    pub rooms: Vec<RoomTypeData>,
    pub current_room_index: usize,
    pub total_rooms: usize,
}

impl WorldState {
    /// The index is on a room, and the total is the number of rooms.
    pub open spec fn wf(&self) -> bool {
        &&& self.current_room_index < self.rooms@.len()
        &&& self.total_rooms == self.rooms@.len()
    }

    /// At the first room of the dungeon.
    pub fn new() -> (r: WorldState)
        ensures
            r.wf(),
            r.rooms@ == dungeon_rooms(),
            r.current_room_index == 0,
    {
        let rooms = vec![
            RoomTypeData::IntroRoom,
            RoomTypeData::FloorRoom,
            RoomTypeData::Pantry1,
            RoomTypeData::LibraryRoom,
            RoomTypeData::DiningHall,
            RoomTypeData::Laboratory,
            RoomTypeData::Corridor,
            RoomTypeData::FinalRoom,
        ];
        proof {
            assert(rooms@ =~= dungeon_rooms());
        }
        let total = rooms.len();
        WorldState { rooms, current_room_index: 0, total_rooms: total }
    }

    pub fn current_room(&self) -> (r: RoomTypeData)
        requires
            self.wf(),
        ensures
            r == self.rooms@[self.current_room_index as int],
    {
        self.rooms[self.current_room_index]
    }

    /// Moves to the next room, if there is one, and says whether it did.
    pub fn advance(&mut self) -> (r: bool)
        requires
            old(self).wf(),
        ensures
            final(self).wf(),
            final(self).rooms == old(self).rooms,
            final(self).total_rooms == old(self).total_rooms,
            r == (old(self).current_room_index + 1 < old(self).total_rooms),
            final(self).current_room_index == if r {
                old(self).current_room_index + 1
            } else {
                old(self).current_room_index as int
            },
    {
        if self.has_next_room() {
            self.current_room_index = self.current_room_index + 1;
            true
        } else {
            false
        }
    }

    pub fn has_next_room(&self) -> (r: bool)
        requires
            self.wf(),
        ensures
            r == (self.current_room_index + 1 < self.total_rooms),
    {
        self.current_room_index < self.total_rooms - 1
    }

    /// `"Raum <current> von <total>"`, counting rooms from one.
    pub fn progress(&self) -> (r: String)
        requires
            self.wf(),
        ensures
            r@ == "Raum "@ + decimal((self.current_room_index + 1) as nat) + " von "@ + decimal(
                self.total_rooms as nat,
            ),
    {
        let mut s = String::from_str("Raum ");
        let a = decimal_text(self.current_room_index as u64 + 1);
        s.append(a.as_str());
        s.append(" von ");
        let b = decimal_text(self.total_rooms as u64);
        s.append(b.as_str());
        s
    }
}

} // verus!
