use editor_core::error::ParsingError;
use editor_core::guid::Guid;
use editor_core::property::{Document, FloatLeaf, PropertyNode, StructValue};
use editor_core::registry::{
    Catalog, CosmeticType, CostInResource, Dwarf, OverclockType, Resource, Schematic, Status,
    BARLEY_BULB, BISMOR, BLANK_CORES, CROPPA, DATA_CELLS, DRILLER, ENGINEER, ENOR_PEARL,
    ERROR_CUBES, GUNNER, JADIZ, MAGNITE, MALT_STAR, PHAZYONITE, SCOUT, STARCH_NUT, UMANITE,
    YEAST_CONE,
};
use editor_core::resources::{
    get_owned_resources, get_owned_resources_mut, get_resource, get_resource_mut, get_resources,
    set_resources,
};
use editor_core::save_file::brewing::Brewing;
use editor_core::save_file::dwarfs::{Characters, Rank};
use editor_core::save_file::forge::{join, Forge};
use editor_core::save_file::minerals::{Mineral, Minerals};
use editor_core::save_file::miscellaneous::Miscellaneous;
use editor_core::save_file::SaveFile;

const UNKNOWN: Guid = [0x11; 16];

fn float(value: f32) -> FloatLeaf {
    FloatLeaf { bits: value.to_bits() }
}

fn key(guid: Guid) -> PropertyNode {
    PropertyNode::StructProperty(StructValue::Guid(guid))
}

fn quantity(guid: Guid, value: f32) -> (PropertyNode, PropertyNode) {
    (key(guid), PropertyNode::FloatProperty(float(value)))
}

fn record(fields: Vec<(String, PropertyNode)>) -> PropertyNode {
    PropertyNode::StructProperty(StructValue::CustomStruct(fields))
}

fn character(guid: Guid, xp: i32, times_retired: i32) -> PropertyNode {
    record(vec![
        ("SavegameID".to_string(), key(guid)),
        ("XP".to_string(), PropertyNode::IntProperty(xp)),
        ("Nickname".to_string(), PropertyNode::StrProperty("Karl".to_string())),
        ("TimesRetired".to_string(), PropertyNode::IntProperty(times_retired)),
    ])
}

fn resource_entries() -> Vec<(PropertyNode, PropertyNode)> {
    vec![
        quantity(UNKNOWN, 5.0),
        quantity(MAGNITE, 1.0),
        quantity(BISMOR, 2.0),
        quantity(CROPPA, 3.0),
        quantity(UMANITE, 4.0),
        quantity(JADIZ, 5.5),
        quantity(ENOR_PEARL, 6.0),
        quantity(STARCH_NUT, 7.0),
        quantity(YEAST_CONE, 8.0),
        quantity(MALT_STAR, 9.0),
        quantity(BARLEY_BULB, 10.0),
        quantity(ERROR_CUBES, 11.0),
        quantity(DATA_CELLS, 12.0),
        quantity(BLANK_CORES, 13.0),
        quantity(PHAZYONITE, 14.25),
        quantity(MAGNITE, 99.0),
    ]
}

fn document_with(
    resources: PropertyNode,
    records: Vec<PropertyNode>,
    owned: Vec<PropertyNode>,
) -> Document {
    Document {
        header: vec![0x47, 0x56, 0x41, 0x53, 2, 0, 0, 0],
        properties: vec![
            ("VersionNumber".to_string(), PropertyNode::IntProperty(3)),
            ("Resources".to_string(), resources),
            ("Credits".to_string(), PropertyNode::IntProperty(1234)),
            ("CharacterSaves".to_string(), PropertyNode::ArrayProperty(records)),
            ("PerkPoints".to_string(), PropertyNode::IntProperty(7)),
            (
                "SchematicSave".to_string(),
                record(vec![
                    (
                        "ForgedSchematics".to_string(),
                        PropertyNode::ArrayProperty(vec![key([0xC3; 16]), key([0xA1; 16])]),
                    ),
                    ("SkinFixupCounter".to_string(), PropertyNode::IntProperty(1)),
                    ("OwnedSchematics".to_string(), PropertyNode::ArrayProperty(owned)),
                ]),
            ),
            (
                "Seasons".to_string(),
                PropertyNode::SetProperty(vec![PropertyNode::Opaque(vec![1, 2, 3])]),
            ),
        ],
    }
}

fn resources_node(entries: Vec<(PropertyNode, PropertyNode)>) -> PropertyNode {
    record(vec![
        ("OwnedResources".to_string(), PropertyNode::MapProperty(entries)),
        ("Spare".to_string(), PropertyNode::BoolProperty(false)),
    ])
}

fn records() -> Vec<PropertyNode> {
    vec![
        character(ENGINEER, 10000, 5),
        PropertyNode::IntProperty(0),
        character(UNKNOWN, 1, 1),
        character(SCOUT, 0, 0),
        PropertyNode::StructProperty(StructValue::DateTime(17)),
        character(GUNNER, 315000, 19),
        character(DRILLER, 2999, 18),
        character(SCOUT, 3000, 40),
    ]
}

fn owned() -> Vec<PropertyNode> {
    vec![key([0xA1; 16]), key(UNKNOWN), key([0xB2; 16]), key([0xA1; 16]), key([0xC3; 16])]
}

fn sample() -> Document {
    document_with(resources_node(resource_entries()), records(), owned())
}

fn catalog() -> Catalog {
    Catalog {
        entries: vec![
            Schematic::Overclock {
                name: "Compact Ammo".to_string(),
                guid: [0xA1; 16],
                dwarf: Dwarf::Scout,
                ty: OverclockType::Clean,
                cost: vec![CostInResource::Credits(7250), CostInResource::Bismor(float(125.0))],
                status: None,
            },
            Schematic::Cosmetic {
                name: "Mighty Pelt".to_string(),
                guid: [0xB2; 16],
                dwarf: Dwarf::Driller,
                ty: CosmeticType::Beard,
                cost: Vec::new(),
                status: None,
            },
            Schematic::Mineral { guid: [0xC3; 16], resource: Resource::Jadiz, status: None },
            Schematic::Mineral { guid: [0xA1; 16], resource: Resource::Croppa, status: None },
            Schematic::Mineral { guid: [0xD4; 16], resource: Resource::Magnite, status: None },
        ],
    }
}

fn failed_cast(kind: &str) -> ParsingError {
    ParsingError::FailedCastError(kind.to_string())
}

fn missing(entry: &str) -> ParsingError {
    ParsingError::MissingEntry(entry.to_string())
}

#[test]
fn resolver_lists_the_inventory_in_document_order() {
    let index = get_owned_resources(&sample()).unwrap();
    assert_eq!(index.len(), 16);
    assert_eq!(index[0], (UNKNOWN, float(5.0)));
    assert_eq!(index[1], (MAGNITE, float(1.0)));
    assert_eq!(index[14], (PHAZYONITE, float(14.25)));
    assert_eq!(index[15], (MAGNITE, float(99.0)));
    assert_eq!(get_resource(&index, &MAGNITE), Ok(float(1.0)));
    assert_eq!(
        get_resources(&index, &[JADIZ, UNKNOWN, PHAZYONITE]),
        Ok(vec![float(5.5), float(5.0), float(14.25)])
    );
    assert_eq!(
        get_resources(&index, &[JADIZ, [0x77; 16], [0x78; 16]]),
        Err(missing("77777777-7777-7777-7777-777777777777"))
    );
    assert_eq!(get_resources(&index, &[]), Ok(Vec::new()));
}

#[test]
fn resolver_names_the_kind_expected_at_the_failing_hop() {
    let mut doc = sample();
    doc.properties.remove(1);
    assert_eq!(get_owned_resources(&doc), Err(missing("Resources")));

    let doc = document_with(PropertyNode::IntProperty(1), records(), owned());
    assert_eq!(get_owned_resources(&doc), Err(failed_cast("StructProperty")));

    let doc = document_with(key(MAGNITE), records(), owned());
    assert_eq!(get_owned_resources(&doc), Err(failed_cast("CustomStruct")));

    let doc = document_with(record(Vec::new()), records(), owned());
    assert_eq!(get_owned_resources(&doc), Err(failed_cast("MapProperty")));

    let doc = document_with(
        record(vec![
            ("Spare".to_string(), PropertyNode::BoolProperty(false)),
            ("OwnedResources".to_string(), PropertyNode::MapProperty(resource_entries())),
        ]),
        records(),
        owned(),
    );
    assert_eq!(get_owned_resources(&doc), Err(failed_cast("MapProperty")));
}

#[test]
fn resolver_names_the_kind_expected_of_an_entry() {
    let with_entry = |entry: (PropertyNode, PropertyNode)| {
        let mut entries = resource_entries();
        entries.insert(3, entry);
        document_with(resources_node(entries), records(), owned())
    };
    let doc = with_entry((PropertyNode::IntProperty(1), PropertyNode::FloatProperty(float(1.0))));
    assert_eq!(get_owned_resources(&doc), Err(failed_cast("StructProperty")));
    let doc = with_entry((PropertyNode::IntProperty(1), PropertyNode::IntProperty(1)));
    assert_eq!(get_owned_resources(&doc), Err(failed_cast("StructProperty")));
    let doc = with_entry((key(UNKNOWN), PropertyNode::IntProperty(1)));
    assert_eq!(get_owned_resources(&doc), Err(failed_cast("FloatProperty")));
    let doc = with_entry((
        PropertyNode::StructProperty(StructValue::DateTime(1)),
        PropertyNode::IntProperty(1),
    ));
    assert_eq!(get_owned_resources(&doc), Err(failed_cast("FloatProperty")));
    let doc = with_entry((
        PropertyNode::StructProperty(StructValue::DateTime(1)),
        PropertyNode::FloatProperty(float(1.0)),
    ));
    assert_eq!(get_owned_resources(&doc), Err(failed_cast("Guid")));
    let mut doc = with_entry((
        PropertyNode::StructProperty(StructValue::Other(vec![1])),
        PropertyNode::FloatProperty(float(1.0)),
    ));
    assert_eq!(get_owned_resources_mut(&mut doc).err(), Some(failed_cast("Guid")));
    assert_eq!(Minerals::from_gvas(&doc), Err(failed_cast("Guid")));
    assert_eq!(Brewing::from_gvas(&doc), Err(failed_cast("Guid")));
    assert_eq!(Miscellaneous::from_gvas(&doc), Err(failed_cast("Guid")));
    assert_eq!(SaveFile::from_gvas(&doc), Err(failed_cast("Guid")));
}

#[test]
fn mutable_resolver_hands_out_the_entries_of_the_document() {
    let mut doc = sample();
    {
        let entries = get_owned_resources_mut(&mut doc).unwrap();
        assert_eq!(*entries, resource_entries());
        *get_resource_mut(entries, &JADIZ).unwrap() = PropertyNode::FloatProperty(float(0.25));
        assert_eq!(
            get_resource_mut(entries, &[0x77; 16]),
            Err(missing("77777777-7777-7777-7777-777777777777"))
        );
    }
    let mut entries = resource_entries();
    entries[5] = quantity(JADIZ, 0.25);
    assert_eq!(doc, document_with(resources_node(entries), records(), owned()));

    let mut broken = document_with(record(Vec::new()), records(), owned());
    assert_eq!(get_owned_resources_mut(&mut broken).err(), Some(failed_cast("MapProperty")));
    assert_eq!(broken, document_with(record(Vec::new()), records(), owned()));
}

#[test]
fn writes_stop_at_the_first_identifier_without_an_entry() {
    let mut entries = resource_entries();
    let outcome = set_resources(
        &mut entries,
        &[
            (BISMOR, float(20.0)),
            (MAGNITE, float(10.0)),
            ([0x77; 16], float(1.0)),
            (JADIZ, float(50.0)),
        ],
    );
    assert_eq!(outcome, Err(missing("77777777-7777-7777-7777-777777777777")));
    let mut expected = resource_entries();
    expected[1] = quantity(MAGNITE, 10.0);
    expected[2] = quantity(BISMOR, 20.0);
    assert_eq!(entries, expected);

    assert_eq!(set_resources(&mut entries, &[(JADIZ, float(50.0)), (JADIZ, float(51.0))]), Ok(()));
    expected[5] = quantity(JADIZ, 51.0);
    assert_eq!(entries, expected);
    assert_eq!(set_resources(&mut entries, &[]), Ok(()));
    assert_eq!(entries, expected);
}

#[test]
fn builders_read_each_quantity_under_its_identifier() {
    let doc = sample();
    assert_eq!(
        Minerals::from_gvas(&doc),
        Ok(Minerals {
            magnite: float(1.0),
            bismor: float(2.0),
            croppa: float(3.0),
            umanite: float(4.0),
            jadiz: float(5.5),
            enor_pearl: float(6.0),
        })
    );
    assert_eq!(
        Brewing::from_gvas(&doc),
        Ok(Brewing {
            starch_nut: float(7.0),
            yeast_cone: float(8.0),
            malt_star: float(9.0),
            barley_bulb: float(10.0),
        })
    );
    assert_eq!(
        Miscellaneous::from_gvas(&doc),
        Ok(Miscellaneous {
            credits: 1234,
            perk_points: 7,
            error_cubes: float(11.0),
            data_cells: float(12.0),
            blank_cores: float(13.0),
            phazyonite: float(14.25),
        })
    );
}

#[test]
fn builders_fail_with_the_first_missing_identifier() {
    let without = |guids: &[Guid]| {
        let entries = resource_entries()
            .into_iter()
            .filter(|entry| !guids.iter().any(|guid| entry.0 == key(*guid)))
            .collect();
        document_with(resources_node(entries), records(), owned())
    };
    assert_eq!(
        Minerals::from_gvas(&without(&[ENOR_PEARL, CROPPA])),
        Err(missing("8AA7FB43-293A-0B49-B8BE-42FFE068A44C"))
    );
    assert_eq!(
        Minerals::from_gvas(&without(&[MAGNITE])),
        Err(missing("AADED876-6C22-7D40-8032-AFD18D63561E"))
    );
    assert_eq!(
        Brewing::from_gvas(&without(&[BARLEY_BULB])),
        Err(missing("22DAA757-AD7A-8049-891B-17EDCC2FE098"))
    );
    assert_eq!(
        Miscellaneous::from_gvas(&without(&[DATA_CELLS, PHAZYONITE])),
        Err(missing("99FA526A-D877-4845-9498-905A278693F6"))
    );
    assert!(Minerals::from_gvas(&without(&[BARLEY_BULB, DATA_CELLS])).is_ok());
    assert!(Brewing::from_gvas(&without(&[MAGNITE, PHAZYONITE])).is_ok());
}

#[test]
fn missing_currency_counter_fails_the_miscellaneous_builder_alone() {
    let mut doc = sample();
    doc.properties.remove(2);
    assert_eq!(Miscellaneous::from_gvas(&doc), Err(missing("Credits")));
    assert_eq!(Minerals::from_gvas(&doc), Minerals::from_gvas(&sample()));
    assert_eq!(Brewing::from_gvas(&doc), Brewing::from_gvas(&sample()));
    assert_eq!(Characters::from_gvas(&doc), Characters::from_gvas(&sample()));
    assert_eq!(Forge::from_gvas(&doc, &catalog()), Forge::from_gvas(&sample(), &catalog()));
    assert_eq!(SaveFile::from_gvas(&doc), Err(missing("Credits")));

    let mut doc = sample();
    doc.properties.remove(4);
    assert_eq!(Miscellaneous::from_gvas(&doc), Err(missing("PerkPoints")));

    let mut doc = sample();
    doc.properties[2].1 = PropertyNode::FloatProperty(float(1.0));
    assert_eq!(Miscellaneous::from_gvas(&doc), Err(failed_cast("IntProperty")));
}

#[test]
fn minerals_are_reached_by_name() {
    let mut minerals = Minerals::from_gvas(&sample()).unwrap();
    assert_eq!(minerals.get(Mineral::Magnite), float(1.0));
    assert_eq!(minerals.get(Mineral::Bismor), float(2.0));
    assert_eq!(minerals.get(Mineral::Croppa), float(3.0));
    assert_eq!(minerals.get(Mineral::Umanite), float(4.0));
    assert_eq!(minerals.get(Mineral::Jadiz), float(5.5));
    assert_eq!(minerals.get(Mineral::EnorPearl), float(6.0));
    minerals.set(Mineral::Umanite, float(40.0));
    minerals.set(Mineral::EnorPearl, float(60.0));
    assert_eq!(
        minerals,
        Minerals {
            magnite: float(1.0),
            bismor: float(2.0),
            croppa: float(3.0),
            umanite: float(40.0),
            jadiz: float(5.5),
            enor_pearl: float(60.0),
        }
    );
    minerals.set(Mineral::Magnite, float(10.0));
    minerals.set(Mineral::Bismor, float(20.0));
    minerals.set(Mineral::Croppa, float(30.0));
    minerals.set(Mineral::Jadiz, float(50.0));
    assert_eq!(minerals.get(Mineral::Magnite), float(10.0));
    assert_eq!(minerals.get(Mineral::Bismor), float(20.0));
    assert_eq!(minerals.get(Mineral::Croppa), float(30.0));
    assert_eq!(minerals.get(Mineral::Jadiz), float(50.0));
    assert_eq!(minerals.get(Mineral::Umanite), float(40.0));
}

#[test]
fn characters_take_the_rank_of_their_last_record() {
    let doc = sample();
    assert!(Characters::can_read(&doc));
    let characters = Characters::from_gvas(&doc).unwrap();
    assert_eq!(
        characters.engineer,
        Rank { xp: 10000, times_retired: 5, promotion: "Silver 2".to_string() }
    );
    assert_eq!(
        characters.driller,
        Rank { xp: 2999, times_retired: 18, promotion: "Legendary 3".to_string() }
    );
    assert_eq!(
        characters.gunner,
        Rank { xp: 315000, times_retired: 19, promotion: "Legendary 3+".to_string() }
    );
    assert_eq!(
        characters.scout,
        Rank { xp: 3000, times_retired: 40, promotion: "Legendary 3+".to_string() }
    );
    assert_eq!(characters.engineer.xp_to_level(), (3, 3000));
    assert_eq!(characters.gunner.xp_to_level(), (25, 0));
}

#[test]
fn characters_without_a_record_stay_unset() {
    let doc = document_with(
        resources_node(resource_entries()),
        vec![character(UNKNOWN, 5, 5), PropertyNode::BoolProperty(true), character(GUNNER, 1, 2)],
        owned(),
    );
    let characters = Characters::from_gvas(&doc).unwrap();
    assert_eq!(characters.engineer, Rank::default());
    assert_eq!(characters.engineer.promotion, "");
    assert_eq!(characters.driller, Rank::default());
    assert_eq!(characters.scout, Rank::default());
    assert_eq!(characters.gunner, Rank::new(1, 2));
    let empty = document_with(resources_node(resource_entries()), Vec::new(), owned());
    assert_eq!(Characters::from_gvas(&empty), Ok(Characters::default()));
}

#[test]
fn character_records_fail_by_their_first_unreadable_field() {
    let with_record = |fields: Vec<(String, PropertyNode)>| {
        document_with(
            resources_node(resource_entries()),
            vec![character(ENGINEER, 1, 1), record(fields), character(SCOUT, -1, -1)],
            owned(),
        )
    };
    let id = || ("SavegameID".to_string(), key(GUNNER));
    let xp = || ("XP".to_string(), PropertyNode::IntProperty(1));
    let retired = || ("TimesRetired".to_string(), PropertyNode::IntProperty(1));

    let doc = with_record(vec![xp(), retired()]);
    assert!(Characters::can_read(&doc));
    assert_eq!(Characters::from_gvas(&doc), Err(missing("SavegameID")));
    let doc = with_record(vec![("SavegameID".to_string(), PropertyNode::IntProperty(1)), xp()]);
    assert_eq!(Characters::from_gvas(&doc), Err(failed_cast("StructProperty")));
    let doc = with_record(vec![
        ("SavegameID".to_string(), PropertyNode::StructProperty(StructValue::DateTime(3))),
        xp(),
        retired(),
    ]);
    assert_eq!(Characters::from_gvas(&doc), Err(failed_cast("Guid")));
    let doc = with_record(vec![id(), retired()]);
    assert_eq!(Characters::from_gvas(&doc), Err(missing("XP")));
    let doc = with_record(vec![id(), ("XP".to_string(), key(GUNNER)), retired()]);
    assert_eq!(Characters::from_gvas(&doc), Err(failed_cast("IntProperty")));
    let doc = with_record(vec![id(), xp()]);
    assert_eq!(Characters::from_gvas(&doc), Err(missing("TimesRetired")));
    let doc = with_record(vec![
        retired(),
        xp(),
        id(),
        ("TimesRetired".to_string(), PropertyNode::BoolProperty(true)),
    ]);
    assert!(!Characters::can_read(&doc));
    let doc = with_record(vec![
        id(),
        xp(),
        ("TimesRetired".to_string(), PropertyNode::BoolProperty(true)),
    ]);
    assert_eq!(Characters::from_gvas(&doc), Err(failed_cast("IntProperty")));

    let mut doc = sample();
    doc.properties.remove(3);
    assert!(Characters::can_read(&doc));
    assert_eq!(Characters::from_gvas(&doc), Err(missing("CharacterSaves")));
    let mut doc = sample();
    doc.properties[3].1 = PropertyNode::SetProperty(Vec::new());
    assert_eq!(Characters::from_gvas(&doc), Err(failed_cast("ArrayProperty")));
}

#[test]
fn negative_retirement_counts_are_found_before_reading() {
    let doc = document_with(
        resources_node(resource_entries()),
        vec![character(ENGINEER, 1, 1), character(UNKNOWN, 1, -1)],
        owned(),
    );
    assert!(!Characters::can_read(&doc));
    let doc = document_with(
        resources_node(resource_entries()),
        vec![character(ENGINEER, -5, 0), character(SCOUT, 1, i32::MAX)],
        owned(),
    );
    assert!(Characters::can_read(&doc));
    assert_eq!(Characters::from_gvas(&doc).unwrap().engineer.xp, -5);
    let doc = document_with(
        resources_node(resource_entries()),
        vec![character(ENGINEER, 1, i32::MIN)],
        owned(),
    );
    assert!(!Characters::can_read(&doc));
}

#[test]
fn save_file_is_readable_unless_a_count_is_negative() {
    assert!(SaveFile::can_read(&sample()));
    let negative = || vec![character(ENGINEER, 1, -1)];
    let doc = document_with(resources_node(resource_entries()), negative(), owned());
    assert!(!SaveFile::can_read(&doc));
    let doc = document_with(record(Vec::new()), negative(), owned());
    assert!(SaveFile::can_read(&doc));
    assert_eq!(SaveFile::from_gvas(&doc), Err(failed_cast("MapProperty")));
    let mut doc = document_with(resources_node(resource_entries()), negative(), owned());
    doc.properties.remove(4);
    assert!(SaveFile::can_read(&doc));
    assert_eq!(SaveFile::from_gvas(&doc), Err(missing("PerkPoints")));
    assert_eq!(SaveFile::default().forge, Forge::default());
}

#[test]
fn save_file_reads_four_views_and_no_schematics() {
    let save_file = SaveFile::from_gvas(&sample()).unwrap();
    assert_eq!(Ok(save_file.minerals), Minerals::from_gvas(&sample()));
    assert_eq!(Ok(save_file.brewing), Brewing::from_gvas(&sample()));
    assert_eq!(Ok(save_file.miscellaneous), Miscellaneous::from_gvas(&sample()));
    assert_eq!(Ok(save_file.dwarfs), Characters::from_gvas(&sample()));
    assert_eq!(save_file.forge, Forge::default());
    assert!(save_file.forge.owned_schematics.is_empty());
    assert!(save_file.forge.forged_schematics.is_empty());
}

#[test]
fn unknown_schematics_are_skipped_and_known_ones_marked() {
    let forge = Forge::from_gvas(&sample(), &catalog()).unwrap();
    let compact_ammo = |status| Schematic::Overclock {
        name: "Compact Ammo".to_string(),
        guid: [0xA1; 16],
        dwarf: Dwarf::Scout,
        ty: OverclockType::Clean,
        cost: vec![CostInResource::Credits(7250), CostInResource::Bismor(float(125.0))],
        status: Some(status),
    };
    assert_eq!(
        forge.owned_schematics,
        vec![
            compact_ammo(Status::Unforged),
            Schematic::Cosmetic {
                name: "Mighty Pelt".to_string(),
                guid: [0xB2; 16],
                dwarf: Dwarf::Driller,
                ty: CosmeticType::Beard,
                cost: Vec::new(),
                status: Some(Status::Unforged),
            },
            Schematic::Mineral {
                guid: [0xC3; 16],
                resource: Resource::Jadiz,
                status: Some(Status::Unforged),
            },
        ]
    );
    assert_eq!(
        forge.forged_schematics,
        vec![
            Schematic::Mineral {
                guid: [0xC3; 16],
                resource: Resource::Jadiz,
                status: Some(Status::Forged),
            },
            compact_ammo(Status::Forged),
        ]
    );
    assert_eq!(Forge::get_owned(&sample(), &catalog()), Ok(forge.owned_schematics));
    assert_eq!(Forge::get_forged(&sample(), &catalog()), Ok(forge.forged_schematics));
    assert_eq!(Forge::get_schematic_save(&sample()).map(|fields| fields.len()), Ok(3));
}

#[test]
fn schematic_absent_from_the_catalog_raises_no_error() {
    let items = vec![key(UNKNOWN), key([0x99; 16])];
    assert_eq!(join(&items, &catalog(), Status::Unforged), Ok(Vec::new()));
    assert_eq!(join(&Vec::new(), &catalog(), Status::Forged), Ok(Vec::new()));
    let none = Catalog { entries: Vec::new() };
    assert_eq!(join(&owned(), &none, Status::Forged), Ok(Vec::new()));
}

#[test]
fn malformed_schematic_entry_fails_the_join() {
    let items = vec![key([0xA1; 16]), PropertyNode::IntProperty(3), key(UNKNOWN)];
    assert_eq!(join(&items, &catalog(), Status::Unforged), Err(failed_cast("StructProperty")));
    let items = vec![key(UNKNOWN), PropertyNode::StructProperty(StructValue::DateTime(1))];
    assert_eq!(join(&items, &catalog(), Status::Unforged), Err(failed_cast("Guid")));
    let items = vec![record(Vec::new()), PropertyNode::IntProperty(3)];
    assert_eq!(join(&items, &catalog(), Status::Forged), Err(failed_cast("Guid")));

    let doc = document_with(
        resources_node(resource_entries()),
        records(),
        vec![key([0xA1; 16]), PropertyNode::BoolProperty(true)],
    );
    assert_eq!(Forge::from_gvas(&doc, &catalog()), Err(failed_cast("StructProperty")));
    assert_eq!(Forge::get_owned(&doc, &catalog()), Err(failed_cast("StructProperty")));
    assert!(Forge::get_forged(&doc, &catalog()).is_ok());
}

#[test]
fn schematic_lists_are_found_by_name() {
    let mut doc = sample();
    doc.properties.remove(5);
    assert_eq!(Forge::from_gvas(&doc, &catalog()), Err(missing("SchematicSave")));
    let mut doc = sample();
    doc.properties[5].1 = key(UNKNOWN);
    assert_eq!(Forge::from_gvas(&doc, &catalog()), Err(failed_cast("CustomStruct")));
    assert_eq!(Forge::get_schematic_save(&doc).err(), Some(failed_cast("CustomStruct")));
    let mut doc = sample();
    doc.properties[5].1 = PropertyNode::IntProperty(0);
    assert_eq!(Forge::from_gvas(&doc, &catalog()), Err(failed_cast("StructProperty")));
    let mut doc = sample();
    doc.properties[5].1 = record(vec![(
        "OwnedSchematics".to_string(),
        PropertyNode::ArrayProperty(Vec::new()),
    )]);
    assert_eq!(Forge::from_gvas(&doc, &catalog()), Err(missing("ForgedSchematics")));
    assert_eq!(Forge::get_owned(&doc, &catalog()), Ok(Vec::new()));
    let mut doc = sample();
    doc.properties[5].1 = record(vec![
        ("ForgedSchematics".to_string(), PropertyNode::ArrayProperty(Vec::new())),
        ("OwnedSchematics".to_string(), PropertyNode::MapProperty(Vec::new())),
    ]);
    assert_eq!(Forge::from_gvas(&doc, &catalog()), Err(failed_cast("ArrayProperty")));
}

#[test]
fn catalog_gives_the_first_entry_under_an_identifier() {
    let catalog = catalog();
    assert_eq!(catalog.get(&[0xA1; 16]), Some(&catalog.entries[0]));
    assert_eq!(catalog.get(&[0xD4; 16]), Some(&catalog.entries[4]));
    assert_eq!(catalog.get(&UNKNOWN), None);
    let mut entry = catalog.entries[1].clone();
    assert_eq!(entry, catalog.entries[1]);
    assert_eq!(entry.get_guid(), [0xB2; 16]);
    entry.set_status(Some(Status::Forged));
    assert_eq!(
        entry,
        Schematic::Cosmetic {
            name: "Mighty Pelt".to_string(),
            guid: [0xB2; 16],
            dwarf: Dwarf::Driller,
            ty: CosmeticType::Beard,
            cost: Vec::new(),
            status: Some(Status::Forged),
        }
    );
    entry.set_status(None);
    assert_eq!(entry, catalog.entries[1]);
    assert_eq!(catalog.entries[2].get_guid(), [0xC3; 16]);
    assert_eq!(catalog.entries[0].clone().get_guid(), [0xA1; 16]);
}

#[test]
fn unchanged_views_leave_the_document_as_it_was() {
    let mut doc = sample();
    let save_file = SaveFile::from_gvas(&doc).unwrap();
    assert_eq!(save_file.save(&mut doc), Ok(()));
    assert_eq!(doc, sample());
}

#[test]
fn written_values_are_read_back() {
    let mut doc = sample();
    let mut save_file = SaveFile::from_gvas(&doc).unwrap();
    save_file.minerals = Minerals {
        magnite: float(100.5),
        bismor: float(0.0),
        croppa: float(-3.0),
        umanite: float(f32::MAX),
        jadiz: float(268_435_456.0),
        enor_pearl: float(1e-40),
    };
    save_file.brewing = Brewing {
        starch_nut: float(70.0),
        yeast_cone: float(80.0),
        malt_star: float(90.0),
        barley_bulb: FloatLeaf { bits: f32::NAN.to_bits() },
    };
    save_file.miscellaneous = Miscellaneous {
        credits: 268_435_456,
        perk_points: -1,
        error_cubes: float(110.0),
        data_cells: float(120.0),
        blank_cores: float(130.0),
        phazyonite: float(140.0),
    };
    assert_eq!(save_file.save(&mut doc), Ok(()));
    assert_eq!(Minerals::from_gvas(&doc), Ok(save_file.minerals));
    assert_eq!(Brewing::from_gvas(&doc), Ok(save_file.brewing));
    assert_eq!(Miscellaneous::from_gvas(&doc), Ok(save_file.miscellaneous));
    assert_eq!(Characters::from_gvas(&doc), Characters::from_gvas(&sample()));
    assert_eq!(Forge::from_gvas(&doc, &catalog()), Forge::from_gvas(&sample(), &catalog()));
}

#[test]
fn writing_one_field_changes_one_leaf() {
    let mut doc = sample();
    let mut save_file = SaveFile::from_gvas(&doc).unwrap();
    save_file.minerals.set(Mineral::Croppa, float(333.0));
    assert_eq!(save_file.save(&mut doc), Ok(()));
    let mut entries = resource_entries();
    entries[3] = quantity(CROPPA, 333.0);
    assert_eq!(doc, document_with(resources_node(entries), records(), owned()));

    let mut doc = sample();
    let mut save_file = SaveFile::from_gvas(&doc).unwrap();
    save_file.miscellaneous.perk_points = 70;
    assert_eq!(save_file.save(&mut doc), Ok(()));
    let mut expected = sample();
    expected.properties[4].1 = PropertyNode::IntProperty(70);
    assert_eq!(doc, expected);

    let mut doc = sample();
    let mut save_file = SaveFile::from_gvas(&doc).unwrap();
    save_file.dwarfs.engineer = Rank::new(1, 1);
    save_file.forge = Forge::from_gvas(&doc, &catalog()).unwrap();
    assert_eq!(save_file.save(&mut doc), Ok(()));
    assert_eq!(doc, sample());
}

#[test]
fn writer_fails_as_the_readers_do_and_keeps_what_it_wrote() {
    let save_file = SaveFile::from_gvas(&sample()).unwrap();

    let mut doc = sample();
    doc.properties.remove(1);
    assert_eq!(save_file.save(&mut doc), Err(missing("Resources")));
    let mut expected = sample();
    expected.properties.remove(1);
    assert_eq!(doc, expected);

    let mut edited = SaveFile::from_gvas(&sample()).unwrap();
    edited.minerals.magnite = float(10.0);
    edited.brewing.yeast_cone = float(80.0);
    edited.miscellaneous.credits = 5;
    edited.miscellaneous.perk_points = 6;
    let without_malt_star = || {
        let mut entries = resource_entries();
        entries.remove(9);
        entries
    };
    let mut doc = document_with(resources_node(without_malt_star()), records(), owned());
    assert_eq!(edited.save(&mut doc), Err(missing("41EA550C-1D46-C54B-BE2E-9CA5A7ACCB06")));
    let mut entries = without_malt_star();
    entries[1] = quantity(MAGNITE, 10.0);
    entries[8] = quantity(YEAST_CONE, 80.0);
    assert_eq!(doc, document_with(resources_node(entries), records(), owned()));

    let mut doc = sample();
    doc.properties[2].1 = PropertyNode::StrProperty("many".to_string());
    assert_eq!(edited.save(&mut doc), Err(failed_cast("IntProperty")));
    let mut entries = resource_entries();
    entries[1] = quantity(MAGNITE, 10.0);
    entries[8] = quantity(YEAST_CONE, 80.0);
    let mut expected = document_with(resources_node(entries), records(), owned());
    expected.properties[2].1 = PropertyNode::StrProperty("many".to_string());
    assert_eq!(doc, expected);

    let mut doc = sample();
    doc.properties.remove(4);
    assert_eq!(edited.save(&mut doc), Err(missing("PerkPoints")));
    let mut entries = resource_entries();
    entries[1] = quantity(MAGNITE, 10.0);
    entries[8] = quantity(YEAST_CONE, 80.0);
    let mut expected = document_with(resources_node(entries), records(), owned());
    expected.properties[2].1 = PropertyNode::IntProperty(5);
    expected.properties.remove(4);
    assert_eq!(doc, expected);

    let mut doc = sample();
    match &mut doc.properties[1].1 {
        PropertyNode::StructProperty(StructValue::CustomStruct(fields)) => match &mut fields[0].1 {
            PropertyNode::MapProperty(entries) => entries[15].1 = PropertyNode::IntProperty(1),
            _ => unreachable!(),
        },
        _ => unreachable!(),
    }
    assert_eq!(edited.save(&mut doc), Err(failed_cast("FloatProperty")));
}

#[test]
fn names_are_distinct_in_a_well_formed_document() {
    assert!(sample().is_well_formed());
    assert!(Document { header: Vec::new(), properties: Vec::new() }.is_well_formed());

    let mut doc = sample();
    doc.properties.push(("Credits".to_string(), PropertyNode::BoolProperty(true)));
    assert!(!doc.is_well_formed());

    let twice = || {
        record(vec![
            ("XP".to_string(), PropertyNode::IntProperty(1)),
            ("Level".to_string(), PropertyNode::IntProperty(2)),
            ("XP".to_string(), PropertyNode::IntProperty(3)),
        ])
    };
    assert!(!twice().is_well_formed());
    assert!(record(vec![("XP".to_string(), PropertyNode::IntProperty(1))]).is_well_formed());
    let mixed = PropertyNode::ArrayProperty(vec![PropertyNode::IntProperty(1), twice()]);
    assert!(!mixed.is_well_formed());
    assert!(!PropertyNode::SetProperty(vec![twice()]).is_well_formed());
    assert!(!PropertyNode::MapProperty(vec![(key(UNKNOWN), twice())]).is_well_formed());
    assert!(!PropertyNode::MapProperty(vec![(twice(), key(UNKNOWN))]).is_well_formed());
    let repeated = vec![(key(UNKNOWN), key(UNKNOWN)), (key(UNKNOWN), key(UNKNOWN))];
    assert!(PropertyNode::MapProperty(repeated).is_well_formed());
    assert!(!record(vec![("Inner".to_string(), record(vec![("Deep".to_string(), twice())]))])
        .is_well_formed());
    assert!(PropertyNode::StructProperty(StructValue::Other(vec![1])).is_well_formed());
    assert!(PropertyNode::Opaque(Vec::new()).is_well_formed());

    let mut doc = sample();
    doc.properties[6].1 = PropertyNode::SetProperty(vec![twice()]);
    assert!(!doc.is_well_formed());

    let mut doc = sample();
    let mut edited = SaveFile::from_gvas(&doc).unwrap();
    edited.minerals.jadiz = float(1.0);
    edited.miscellaneous.credits = 2;
    assert_eq!(edited.save(&mut doc), Ok(()));
    assert!(doc.is_well_formed());
}
