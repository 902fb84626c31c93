use editor_core::accessor::{
    find_field, get, get_array, get_custom_struct, get_int, get_mut, get_struct,
};
use editor_core::error::ParsingError;
use editor_core::property::{FloatLeaf, NodeKind, PropertyNode, StructValue};

fn fields() -> Vec<(String, PropertyNode)> {
    vec![
        ("Credits".to_string(), PropertyNode::IntProperty(10)),
        ("Name".to_string(), PropertyNode::StrProperty("Karl".to_string())),
        ("Id".to_string(), PropertyNode::StructProperty(StructValue::Guid([3; 16]))),
        (
            "Inner".to_string(),
            PropertyNode::StructProperty(StructValue::CustomStruct(vec![(
                "Depth".to_string(),
                PropertyNode::IntProperty(2),
            )])),
        ),
        (
            "List".to_string(),
            PropertyNode::ArrayProperty(vec![
                PropertyNode::BoolProperty(true),
                PropertyNode::ByteProperty(9),
            ]),
        ),
        ("Credits".to_string(), PropertyNode::IntProperty(99)),
        ("Ratio".to_string(), PropertyNode::FloatProperty(FloatLeaf { bits: 0.5f32.to_bits() })),
    ]
}

#[test]
fn find_field_gives_the_first_position_of_a_name() {
    let fields = fields();
    assert_eq!(find_field(&fields, "Credits"), Some(0));
    assert_eq!(find_field(&fields, "List"), Some(4));
    assert_eq!(find_field(&fields, "Ratio"), Some(6));
    assert_eq!(find_field(&fields, "credits"), None);
    assert_eq!(find_field(&fields, ""), None);
    assert_eq!(find_field(&Vec::new(), "Credits"), None);
}

#[test]
fn get_narrows_to_the_expected_kind() {
    let fields = fields();
    assert_eq!(
        get(&fields, "Credits", NodeKind::IntProperty),
        Ok(&PropertyNode::IntProperty(10))
    );
    assert_eq!(
        get(&fields, "Name", NodeKind::StrProperty),
        Ok(&PropertyNode::StrProperty("Karl".to_string()))
    );
    assert_eq!(
        get(&fields, "Credits", NodeKind::FloatProperty),
        Err(ParsingError::FailedCastError("FloatProperty".to_string()))
    );
    assert_eq!(
        get(&fields, "Name", NodeKind::MapProperty),
        Err(ParsingError::FailedCastError("MapProperty".to_string()))
    );
    assert_eq!(
        get(&fields, "Missing", NodeKind::IntProperty),
        Err(ParsingError::MissingEntry("Missing".to_string()))
    );
}

#[test]
fn kinds_are_named_as_in_the_format() {
    assert_eq!(NodeKind::IntProperty.name(), "IntProperty");
    assert_eq!(NodeKind::FloatProperty.name(), "FloatProperty");
    assert_eq!(NodeKind::BoolProperty.name(), "BoolProperty");
    assert_eq!(NodeKind::ByteProperty.name(), "ByteProperty");
    assert_eq!(NodeKind::StrProperty.name(), "StrProperty");
    assert_eq!(NodeKind::StructProperty.name(), "StructProperty");
    assert_eq!(NodeKind::ArrayProperty.name(), "ArrayProperty");
    assert_eq!(NodeKind::MapProperty.name(), "MapProperty");
    assert_eq!(NodeKind::SetProperty.name(), "SetProperty");
    assert_eq!(NodeKind::Opaque.name(), "Opaque");
    assert_eq!(PropertyNode::Opaque(vec![1, 2]).kind(), NodeKind::Opaque);
    assert_eq!(PropertyNode::SetProperty(Vec::new()).kind(), NodeKind::SetProperty);
    assert_eq!(PropertyNode::MapProperty(Vec::new()).kind(), NodeKind::MapProperty);
}

#[test]
fn typed_getters_read_the_first_field_of_the_name() {
    let fields = fields();
    assert_eq!(get_int(&fields, "Credits"), Ok(10));
    assert_eq!(
        get_int(&fields, "Name"),
        Err(ParsingError::FailedCastError("IntProperty".to_string()))
    );
    assert_eq!(get_int(&fields, "Nope"), Err(ParsingError::MissingEntry("Nope".to_string())));
    assert_eq!(get_struct(&fields, "Id"), Ok(&StructValue::Guid([3; 16])));
    assert_eq!(
        get_struct(&fields, "List"),
        Err(ParsingError::FailedCastError("StructProperty".to_string()))
    );
    assert_eq!(get_array(&fields, "List").map(|items| items.len()), Ok(2));
    assert_eq!(
        get_array(&fields, "Inner"),
        Err(ParsingError::FailedCastError("ArrayProperty".to_string()))
    );
    assert_eq!(get_array(&fields, "Nope"), Err(ParsingError::MissingEntry("Nope".to_string())));
    assert_eq!(get_custom_struct(&fields, "Inner").map(|inner| inner.len()), Ok(1));
    assert_eq!(
        get_custom_struct(&fields, "Id"),
        Err(ParsingError::FailedCastError("CustomStruct".to_string()))
    );
    assert_eq!(
        get_custom_struct(&fields, "Credits"),
        Err(ParsingError::FailedCastError("StructProperty".to_string()))
    );
}

#[test]
fn get_mut_overwrites_in_place_and_nothing_else() {
    let mut changed = fields();
    *get_mut(&mut changed, "Credits", NodeKind::IntProperty).unwrap() =
        PropertyNode::IntProperty(77);
    let mut expected = fields();
    expected[0].1 = PropertyNode::IntProperty(77);
    assert_eq!(changed, expected);

    let mut untouched = fields();
    assert_eq!(
        get_mut(&mut untouched, "Credits", NodeKind::StrProperty),
        Err(ParsingError::FailedCastError("StrProperty".to_string()))
    );
    assert_eq!(
        get_mut(&mut untouched, "Absent", NodeKind::IntProperty),
        Err(ParsingError::MissingEntry("Absent".to_string()))
    );
    assert_eq!(untouched, fields());
}
