//! The fixed identifiers and tables of the game, and the shape of the static
//! catalog of schematics.

use crate::guid::{guid_eq, Guid};
use crate::property::FloatLeaf;
use crate::search::{first_index, lemma_first_index_absent, lemma_first_index_found};
use vstd::prelude::*;

verus! {

pub const DRILLER: Guid = [
    0x9E, 0xDD, 0x56, 0xF1, 0xEE, 0xBC, 0xC5, 0x48, 0x8D, 0x5B, 0x5E, 0x5B, 0x80, 0xB6, 0x2D, 0xB4,
];

pub const ENGINEER: Guid = [
    0x85, 0xEF, 0x62, 0x6C, 0x65, 0xF1, 0x02, 0x4A, 0x8D, 0xFE, 0xB5, 0xD0, 0xF3, 0x90, 0x9D, 0x2E,
];

pub const GUNNER: Guid = [
    0xAE, 0x56, 0xE1, 0x80, 0xFE, 0xC0, 0xC4, 0x4D, 0x96, 0xFA, 0x29, 0xC2, 0x83, 0x66, 0xB9, 0x7B,
];

pub const SCOUT: Guid = [
    0x30, 0xD8, 0xEA, 0x17, 0xD8, 0xFB, 0xBA, 0x4C, 0x95, 0x30, 0x6D, 0xE9, 0x65, 0x5C, 0x2F, 0x8C,
];

pub const MAGNITE: Guid = [
    0xAA, 0xDE, 0xD8, 0x76, 0x6C, 0x22, 0x7D, 0x40, 0x80, 0x32, 0xAF, 0xD1, 0x8D, 0x63, 0x56, 0x1E,
];

pub const BISMOR: Guid = [
    0xAF, 0x0D, 0xC4, 0xFE, 0x83, 0x61, 0xBB, 0x48, 0xB3, 0x2C, 0x92, 0xCC, 0x97, 0xE2, 0x1D, 0xE7,
];

pub const CROPPA: Guid = [
    0x8A, 0xA7, 0xFB, 0x43, 0x29, 0x3A, 0x0B, 0x49, 0xB8, 0xBE, 0x42, 0xFF, 0xE0, 0x68, 0xA4, 0x4C,
];

pub const UMANITE: Guid = [
    0x5F, 0x2B, 0xCF, 0x83, 0x47, 0x76, 0x0A, 0x42, 0xA2, 0x3B, 0x6E, 0xDC, 0x07, 0xC0, 0x94, 0x1D,
];

pub const JADIZ: Guid = [
    0x22, 0xBC, 0x4F, 0x7D, 0x07, 0xD1, 0x3E, 0x43, 0xBF, 0xCA, 0x81, 0xBD, 0x9C, 0x14, 0xB1, 0xAF,
];

pub const ENOR_PEARL: Guid = [
    0x48, 0x8D, 0x05, 0x14, 0x6F, 0x5F, 0x75, 0x4B, 0xA3, 0xD4, 0x61, 0x0D, 0x08, 0xC0, 0x60, 0x3E,
];

pub const STARCH_NUT: Guid = [
    0x72, 0x31, 0x22, 0x04, 0xE2, 0x87, 0xBC, 0x41, 0x81, 0x55, 0x40, 0xA0, 0xCF, 0x88, 0x12, 0x80,
];

pub const YEAST_CONE: Guid = [
    0x07, 0x85, 0x48, 0xB9, 0x32, 0x32, 0xC0, 0x40, 0x85, 0xF8, 0x92, 0xE0, 0x84, 0xA7, 0x41, 0x00,
];

pub const MALT_STAR: Guid = [
    0x41, 0xEA, 0x55, 0x0C, 0x1D, 0x46, 0xC5, 0x4B, 0xBE, 0x2E, 0x9C, 0xA5, 0xA7, 0xAC, 0xCB, 0x06,
];

pub const BARLEY_BULB: Guid = [
    0x22, 0xDA, 0xA7, 0x57, 0xAD, 0x7A, 0x80, 0x49, 0x89, 0x1B, 0x17, 0xED, 0xCC, 0x2F, 0xE0, 0x98,
];

pub const ERROR_CUBES: Guid = [
    0x58, 0x28, 0x65, 0x2C, 0x9A, 0x5D, 0xE8, 0x45, 0xA9, 0xE2, 0xE1, 0xB8, 0xB4, 0x63, 0xC5, 0x16,
];

pub const DATA_CELLS: Guid = [
    0x99, 0xFA, 0x52, 0x6A, 0xD8, 0x77, 0x48, 0x45, 0x94, 0x98, 0x90, 0x5A, 0x27, 0x86, 0x93, 0xF6,
];

pub const BLANK_CORES: Guid = [
    0xA1, 0x0C, 0xB2, 0x85, 0x38, 0x71, 0xFB, 0x49, 0x9A, 0xC8, 0x54, 0xA1, 0xCD, 0xE2, 0x20, 0x2C,
];

pub const PHAZYONITE: Guid = [
    0x67, 0x66, 0x8A, 0xAE, 0x82, 0x8F, 0xDB, 0x48, 0xA9, 0x11, 0x1E, 0x1B, 0x91, 0x2D, 0xBF, 0xA4,
];

/// The highest level a character can reach.
pub const MAX_LEVEL: i32 = 25;

/// The largest amount that an integer field is edited to.
pub const MAX_I32: i32 = 268_435_456;

/// The largest amount that a quantity is edited to, as the bit pattern of
/// the 32-bit float 268435456.
pub const MAX_F32: u32 = 0x4D80_0000;


/// The experience needed to reach each level after the first.
pub const XP_TABLE: [i32; 25] = [
    0, 3000, 7000, 12000, 18000, 25000, 33000, 42000, 52000, 63000, 75000, 88000, 102000, 117000,
    132500, 148500, 165000, 182000, 199500, 217500, 236000, 255000, 274500, 294500, 315000,
];

/// The promotion labels, by the number of times a character has retired.
pub const PROMOTIONS: [&'static str; 20] = [
    "None", "Bronze 1", "Bronze 2", "Bronze 3", "Silver 1", "Silver 2", "Silver 3", "Gold 1",
    "Gold 2", "Gold 3", "Platinum 1", "Platinum 2", "Platinum 3", "Diamond 1", "Diamond 2",
    "Diamond 3", "Legendary 1", "Legendary 2", "Legendary 3", "Legendary 3+",
];

/// A resource that a schematic is made from or paid in.
#[derive(Debug, Clone, Copy, PartialEq, Eq, Structural)]
pub enum Resource {
    Credits,
    Croppa,
    Umanite,
    Bismor,
    Jadiz,
    Magnite,
    EnorPearl,
}

/// How far an overclock departs from the stock weapon.
#[derive(Debug, Clone, Copy, PartialEq, Eq, Structural)]
pub enum OverclockType {
    Clean,
    Balanced,
    Unstable,
}

/// The slot that a cosmetic item fills.
#[derive(Debug, Clone, Copy, PartialEq, Eq, Structural)]
pub enum CosmeticType {
    Headwear,
    Moustache,
    Beard,
    Sideburns,
    VictoryMove,
    PaintJob,
}

/// Whether a schematic that the player owns has been forged.
#[derive(Debug, Clone, Copy, PartialEq, Eq, Structural)]
pub enum Status {
    Forged,
    Unforged,
}

/// One of the four playable characters.
#[derive(Debug, Clone, Copy, PartialEq, Eq, Structural)]
pub enum Dwarf {
    Engineer,
    Gunner,
    Driller,
    Scout,
}

/// One part of the price of a schematic.
#[derive(Debug, Clone, Copy, PartialEq, Eq, Structural)]
pub enum CostInResource {
    Credits(i32),
    Croppa(FloatLeaf),
    Umanite(FloatLeaf),
    Bismor(FloatLeaf),
    Jadiz(FloatLeaf),
    Magnite(FloatLeaf),
    EnorPearl(FloatLeaf),
}

/// One entry of the static catalog: what an identifier found in a document
/// stands for.
#[derive(Debug, PartialEq, Eq)]
pub enum Schematic {
    Overclock {
        name: String,
        guid: Guid,
        dwarf: Dwarf,
        ty: OverclockType,
        cost: Vec<CostInResource>,
        status: Option<Status>,
    },
    Cosmetic {
        name: String,
        guid: Guid,
        dwarf: Dwarf,
        ty: CosmeticType,
        cost: Vec<CostInResource>,
        status: Option<Status>,
    },
    Mineral { guid: Guid, resource: Resource, status: Option<Status> },
}

/// The mathematical content of a [`Schematic`].
pub ghost enum SchematicModel {
    Overclock {
        name: Seq<char>,
        guid: Seq<u8>,
        dwarf: Dwarf,
        ty: OverclockType,
        cost: Seq<CostInResource>,
        status: Option<Status>,
    },
    Cosmetic {
        name: Seq<char>,
        guid: Seq<u8>,
        dwarf: Dwarf,
        ty: CosmeticType,
        cost: Seq<CostInResource>,
        status: Option<Status>,
    },
    Mineral { guid: Seq<u8>, resource: Resource, status: Option<Status> },
}

impl SchematicModel {
    /// The identifier of the entry.
    pub open spec fn guid(self) -> Seq<u8> {
        match self {
            SchematicModel::Overclock { guid, .. } => guid,
            SchematicModel::Cosmetic { guid, .. } => guid,
            SchematicModel::Mineral { guid, .. } => guid,
        }
    }

    /// The entry with its status replaced.
    pub open spec fn with_status(self, new: Option<Status>) -> SchematicModel {
        match self {
            SchematicModel::Overclock { name, guid, dwarf, ty, cost, status } => {
                SchematicModel::Overclock { name, guid, dwarf, ty, cost, status: new }
            },
            SchematicModel::Cosmetic { name, guid, dwarf, ty, cost, status } => {
                SchematicModel::Cosmetic { name, guid, dwarf, ty, cost, status: new }
            },
            SchematicModel::Mineral { guid, resource, status } => SchematicModel::Mineral {
                guid,
                resource,
                status: new,
            },
        }
    }
}

impl View for Schematic {
    type V = SchematicModel;

    open spec fn view(&self) -> SchematicModel {
        match self {
            Schematic::Overclock { name, guid, dwarf, ty, cost, status } => {
                SchematicModel::Overclock {
                    name: name@,
                    guid: guid@,
                    dwarf: *dwarf,
                    ty: *ty,
                    cost: cost@,
                    status: *status,
                }
            },
            Schematic::Cosmetic { name, guid, dwarf, ty, cost, status } => {
                SchematicModel::Cosmetic {
                    name: name@,
                    guid: guid@,
                    dwarf: *dwarf,
                    ty: *ty,
                    cost: cost@,
                    status: *status,
                }
            },
            Schematic::Mineral { guid, resource, status } => SchematicModel::Mineral {
                guid: guid@,
                resource: *resource,
                status: *status,
            },
        }
    }
}

fn copy_cost(cost: &Vec<CostInResource>) -> (copy: Vec<CostInResource>)
    ensures
        copy@ == cost@,
{
    let mut copy: Vec<CostInResource> = Vec::new();
    let mut i: usize = 0;
    while i < cost.len()
        invariant
            i <= cost.len(),
            copy@ == cost@.subrange(0, i as int),
        decreases cost.len() - i,
    {
        copy.push(cost[i]);
        assert(copy@ =~= cost@.subrange(0, i + 1));
        i += 1;
    }
    assert(copy@ =~= cost@);
    copy
}

impl Clone for Schematic {
    fn clone(&self) -> (copy: Self)
        ensures
            copy@ == self@,
    {
        match self {
            Schematic::Overclock { name, guid, dwarf, ty, cost, status } => Schematic::Overclock {
                name: name.clone(),
                guid: *guid,
                dwarf: *dwarf,
                ty: *ty,
                cost: copy_cost(cost),
                status: *status,
            },
            Schematic::Cosmetic { name, guid, dwarf, ty, cost, status } => Schematic::Cosmetic {
                name: name.clone(),
                guid: *guid,
                dwarf: *dwarf,
                ty: *ty,
                cost: copy_cost(cost),
                status: *status,
            },
            Schematic::Mineral { guid, resource, status } => Schematic::Mineral {
                guid: *guid,
                resource: *resource,
                status: *status,
            },
        }
    }
}

impl Schematic {
    /// Replaces the status of the entry and nothing else.
    pub fn set_status(&mut self, new: Option<Status>)
        ensures
            final(self)@ == old(self)@.with_status(new),
    {
        match self {
            Schematic::Overclock { status, .. } => *status = new,
            Schematic::Cosmetic { status, .. } => *status = new,
            Schematic::Mineral { status, .. } => *status = new,
        }
    }

    /// The identifier of the entry.
    pub fn get_guid(&self) -> (guid: Guid)
        ensures
            guid@ == self@.guid(),
    {
        match self {
            Schematic::Overclock { guid, .. } => *guid,
            Schematic::Cosmetic { guid, .. } => *guid,
            Schematic::Mineral { guid, .. } => *guid,
        }
    }
}

/// The static catalog of schematics. It is configuration that the caller
/// supplies; an identifier stands for the first entry that carries it.
#[derive(Debug, Clone, PartialEq, Eq)]
pub struct Catalog {
    pub entries: Vec<Schematic>,
}

/// The models of a list of catalog entries.
pub open spec fn schematics_model(entries: Seq<Schematic>) -> Seq<SchematicModel> {
    Seq::new(entries.len(), |i: int| entries[i]@)
}

/// The entries that carry the identifier `guid`.
pub open spec fn has_guid(guid: Seq<u8>) -> spec_fn(SchematicModel) -> bool {
    |entry: SchematicModel| entry.guid() == guid
}

/// The entry of a list that `guid` stands for.
pub open spec fn lookup(entries: Seq<SchematicModel>, guid: Seq<u8>) -> Option<SchematicModel> {
    match first_index(entries, has_guid(guid)) {
        Some(i) => Some(entries[i]),
        None => None,
    }
}

impl View for Catalog {
    type V = Seq<SchematicModel>;

    open spec fn view(&self) -> Seq<SchematicModel> {
        schematics_model(self.entries@)
    }
}

/// The position of the first of `entries` that carries `guid`.
pub fn find_schematic(entries: &Vec<Schematic>, guid: &Guid) -> (found: Option<usize>)
    ensures
        match found {
            Some(i) => first_index(schematics_model(entries@), has_guid(guid@)) == Some(i as int),
            None => first_index(schematics_model(entries@), has_guid(guid@)) is None,
        },
{
    let ghost model = schematics_model(entries@);
    let mut i: usize = 0;
    while i < entries.len()
        invariant
            i <= entries.len(),
            model == schematics_model(entries@),
            forall|j: int| 0 <= j < i ==> !has_guid(guid@)(#[trigger] model[j]),
        decreases entries.len() - i,
    {
        let candidate = entries[i].get_guid();
        if guid_eq(&candidate, guid) {
            proof {
                assert(has_guid(guid@)(model[i as int]));
                lemma_first_index_found(model, has_guid(guid@), i as int);
            }
            return Some(i);
        }
        i += 1;
    }
    proof {
        lemma_first_index_absent(model, has_guid(guid@));
    }
    None
}

impl Catalog {
    /// The entry that `guid` stands for.
    pub fn get(&self, guid: &Guid) -> (found: Option<&Schematic>)
        ensures
            match found {
                Some(entry) => lookup(self@, guid@) == Some(entry@),
                None => lookup(self@, guid@) is None,
            },
    {
        match find_schematic(&self.entries, guid) {
            Some(i) => Some(&self.entries[i]),
            None => None,
        }
    }
}

/// The hints that the document codec needs: for each path at which the
/// format does not say what a struct holds, the kind of its payload, `Guid`
/// for an identifier and `Unk` for a custom struct.
pub open spec fn hint_table() -> Seq<(Seq<char>, Seq<char>)> {
    seq![
        ("SeasonSave.StructProperty.Seasons.MapProperty.Key.StructProperty"@, "Guid"@),
        ("SeasonSave.StructProperty.Seasons.MapProperty.Value.StructProperty"@, "Unk"@),
        ("SeasonSave.StructProperty.Seasons.MapProperty.Value.StructProperty.CompletedSpecialChallenges.MapProperty.Key.StructProperty"@, "Guid"@),
        ("UnLockedMissionParameters.MapProperty.Key.StructProperty"@, "Guid"@),
        ("UnLockedMissionParameters.MapProperty.Value.StructProperty"@, "Unk"@),
        ("ItemUpgradeSelections.MapProperty.Key.StructProperty"@, "Guid"@),
        ("ItemUpgradeSelections.MapProperty.Value.StructProperty"@, "Unk"@),
        ("ItemUpgradeLoadouts.ArrayProperty.Loadout.MapProperty.Key.StructProperty"@, "Guid"@),
        ("ItemUpgradeLoadouts.ArrayProperty.Loadout.MapProperty.Value.StructProperty"@, "Unk"@),
        ("EnemiesKilled.MapProperty.Key.StructProperty"@, "Guid"@),
        ("UnlockedItemSkins.MapProperty.Key.StructProperty"@, "Guid"@),
        ("UnlockedItemSkins.MapProperty.Value.StructProperty"@, "Unk"@),
        ("Resources.StructProperty.OwnedResources.MapProperty.Key.StructProperty"@, "Guid"@),
        ("FSDEventRewardsSave.StructProperty.EventsSeen.SetProperty.StructProperty"@, "Guid"@),
        ("GameDLCSave.StructProperty.AnnouncedIDs.SetProperty.StructProperty"@, "Guid"@),
        ("Drinks.StructProperty.UnlockedDrinks.SetProperty.StructProperty"@, "Guid"@),
        ("UnlockedItemSkins.MapProperty.Value.StructProperty.Skins.SetProperty.StructProperty"@, "Guid"@),
        ("UnlockedPickaxeParts.SetProperty.StructProperty"@, "Guid"@),
        ("MinersManualKnownObjects.SetProperty.StructProperty"@, "Guid"@),
        ("FSDEventRewardsSave.StructProperty.PopupsSeen.SetProperty.StructProperty"@, "Guid"@),
    ]
}

/// The paths and kinds of a list of hints.
pub open spec fn hints_model(hints: Seq<(String, String)>) -> Seq<(Seq<char>, Seq<char>)> {
    Seq::new(hints.len(), |i: int| (hints[i].0@, hints[i].1@))
}

fn hint(path: &str, kind: &str) -> (pair: (String, String))
    ensures
        pair.0@ == path@,
        pair.1@ == kind@,
{
    (path.to_owned(), kind.to_owned())
}

/// The hints that the document codec needs, one for each ambiguous path.
pub fn get_hints() -> (hints: Vec<(String, String)>)
    ensures
        hints_model(hints@) == hint_table(),
{
    let mut hints: Vec<(String, String)> = Vec::new();
    hints.push(hint(
        "SeasonSave.StructProperty.Seasons.MapProperty.Key.StructProperty",
        "Guid",
    ));
    hints.push(hint(
        "SeasonSave.StructProperty.Seasons.MapProperty.Value.StructProperty",
        "Unk",
    ));
    hints.push(hint(
        "SeasonSave.StructProperty.Seasons.MapProperty.Value.StructProperty.CompletedSpecialChallenges.MapProperty.Key.StructProperty",
        "Guid",
    ));
    hints.push(hint(
        "UnLockedMissionParameters.MapProperty.Key.StructProperty",
        "Guid",
    ));
    hints.push(hint(
        "UnLockedMissionParameters.MapProperty.Value.StructProperty",
        "Unk",
    ));
    hints.push(hint(
        "ItemUpgradeSelections.MapProperty.Key.StructProperty",
        "Guid",
    ));
    hints.push(hint(
        "ItemUpgradeSelections.MapProperty.Value.StructProperty",
        "Unk",
    ));
    hints.push(hint(
        "ItemUpgradeLoadouts.ArrayProperty.Loadout.MapProperty.Key.StructProperty",
        "Guid",
    ));
    hints.push(hint(
        "ItemUpgradeLoadouts.ArrayProperty.Loadout.MapProperty.Value.StructProperty",
        "Unk",
    ));
    hints.push(hint(
        "EnemiesKilled.MapProperty.Key.StructProperty",
        "Guid",
    ));
    hints.push(hint(
        "UnlockedItemSkins.MapProperty.Key.StructProperty",
        "Guid",
    ));
    hints.push(hint(
        "UnlockedItemSkins.MapProperty.Value.StructProperty",
        "Unk",
    ));
    hints.push(hint(
        "Resources.StructProperty.OwnedResources.MapProperty.Key.StructProperty",
        "Guid",
    ));
    hints.push(hint(
        "FSDEventRewardsSave.StructProperty.EventsSeen.SetProperty.StructProperty",
        "Guid",
    ));
    hints.push(hint(
        "GameDLCSave.StructProperty.AnnouncedIDs.SetProperty.StructProperty",
        "Guid",
    ));
    hints.push(hint(
        "Drinks.StructProperty.UnlockedDrinks.SetProperty.StructProperty",
        "Guid",
    ));
    hints.push(hint(
        "UnlockedItemSkins.MapProperty.Value.StructProperty.Skins.SetProperty.StructProperty",
        "Guid",
    ));
    hints.push(hint(
        "UnlockedPickaxeParts.SetProperty.StructProperty",
        "Guid",
    ));
    hints.push(hint(
        "MinersManualKnownObjects.SetProperty.StructProperty",
        "Guid",
    ));
    hints.push(hint(
        "FSDEventRewardsSave.StructProperty.PopupsSeen.SetProperty.StructProperty",
        "Guid",
    ));
    assert(hints_model(hints@) =~= hint_table());
    hints
}

/// No path has two hints.
pub proof fn law_hint_paths_differ()
    ensures
        forall|a: int, b: int|
            0 <= a < b < hint_table().len() ==> (#[trigger] hint_table()[a]).0 != (
            #[trigger] hint_table()[b]).0,
{
    reveal_strlit("SeasonSave.StructProperty.Seasons.MapProperty.Key.StructProperty");
    reveal_strlit("SeasonSave.StructProperty.Seasons.MapProperty.Value.StructProperty");
    reveal_strlit("SeasonSave.StructProperty.Seasons.MapProperty.Value.StructProperty.CompletedSpecialChallenges.MapProperty.Key.StructProperty");
    reveal_strlit("UnLockedMissionParameters.MapProperty.Key.StructProperty");
    reveal_strlit("UnLockedMissionParameters.MapProperty.Value.StructProperty");
    reveal_strlit("ItemUpgradeSelections.MapProperty.Key.StructProperty");
    reveal_strlit("ItemUpgradeSelections.MapProperty.Value.StructProperty");
    reveal_strlit("ItemUpgradeLoadouts.ArrayProperty.Loadout.MapProperty.Key.StructProperty");
    reveal_strlit("ItemUpgradeLoadouts.ArrayProperty.Loadout.MapProperty.Value.StructProperty");
    reveal_strlit("EnemiesKilled.MapProperty.Key.StructProperty");
    reveal_strlit("UnlockedItemSkins.MapProperty.Key.StructProperty");
    reveal_strlit("UnlockedItemSkins.MapProperty.Value.StructProperty");
    reveal_strlit("Resources.StructProperty.OwnedResources.MapProperty.Key.StructProperty");
    reveal_strlit("FSDEventRewardsSave.StructProperty.EventsSeen.SetProperty.StructProperty");
    reveal_strlit("GameDLCSave.StructProperty.AnnouncedIDs.SetProperty.StructProperty");
    reveal_strlit("Drinks.StructProperty.UnlockedDrinks.SetProperty.StructProperty");
    reveal_strlit("UnlockedItemSkins.MapProperty.Value.StructProperty.Skins.SetProperty.StructProperty");
    reveal_strlit("UnlockedPickaxeParts.SetProperty.StructProperty");
    reveal_strlit("MinersManualKnownObjects.SetProperty.StructProperty");
    reveal_strlit("FSDEventRewardsSave.StructProperty.PopupsSeen.SetProperty.StructProperty");
    let table = hint_table();
    assert forall|a: int, b: int| 0 <= a < b < table.len() implies (#[trigger] table[a]).0 != (
    #[trigger] table[b]).0 by {
        let x = table[a].0;
        let y = table[b].0;
        assert(x.len() != y.len() || x[35] != y[35]);
    }
}

} // verus!
