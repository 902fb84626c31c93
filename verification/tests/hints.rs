use editor_core::registry::{get_hints, MAX_F32, MAX_I32, MAX_LEVEL, PROMOTIONS, XP_TABLE};

#[test]
fn hints_cover_each_ambiguous_path_once() {
    let hints = get_hints();
    assert_eq!(hints.len(), 20);
    for (i, (path, kind)) in hints.iter().enumerate() {
        assert!(kind == "Guid" || kind == "Unk");
        assert!(hints.iter().skip(i + 1).all(|(other, _)| other != path));
    }
    assert_eq!(
        hints[0],
        (
            "SeasonSave.StructProperty.Seasons.MapProperty.Key.StructProperty".to_string(),
            "Guid".to_string()
        )
    );
    assert_eq!(
        hints[1],
        (
            "SeasonSave.StructProperty.Seasons.MapProperty.Value.StructProperty".to_string(),
            "Unk".to_string()
        )
    );
    assert!(hints.contains(&(
        "Resources.StructProperty.OwnedResources.MapProperty.Key.StructProperty".to_string(),
        "Guid".to_string()
    )));
    assert_eq!(
        hints[19],
        (
            "FSDEventRewardsSave.StructProperty.PopupsSeen.SetProperty.StructProperty".to_string(),
            "Guid".to_string()
        )
    );
    assert_eq!(hints.iter().filter(|(_, kind)| kind == "Unk").count(), 5);
}

#[test]
fn tables_have_their_fixed_shape() {
    assert_eq!(PROMOTIONS.len(), 20);
    assert_eq!(PROMOTIONS[0], "None");
    assert_eq!(PROMOTIONS[5], "Silver 2");
    assert_eq!(PROMOTIONS[19], "Legendary 3+");
    assert_eq!(XP_TABLE.len(), 25);
    assert_eq!(XP_TABLE[0], 0);
    assert_eq!(XP_TABLE[24], 315000);
    assert!(XP_TABLE.windows(2).all(|pair| pair[0] < pair[1]));
    assert_eq!(MAX_LEVEL, 25);
    assert_eq!(MAX_I32, 268_435_456);
    assert_eq!(f32::from_bits(MAX_F32), 268_435_456.0);
}
