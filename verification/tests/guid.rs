use editor_core::error::ParsingError;
use editor_core::guid::{guid_eq, u8_to_string, Guid};
use editor_core::property::FloatLeaf;
use editor_core::registry::{MAGNITE, YEAST_CONE};
use editor_core::resources::get_resource;

#[test]
fn identifiers_are_compared_by_their_bytes() {
    let a: Guid = [7; 16];
    let mut b: Guid = [7; 16];
    assert!(guid_eq(&a, &b));
    b[15] = 8;
    assert!(!guid_eq(&a, &b));
    b[15] = 7;
    b[0] = 0;
    assert!(!guid_eq(&a, &b));
    assert!(guid_eq(&MAGNITE, &MAGNITE));
    assert!(!guid_eq(&MAGNITE, &YEAST_CONE));
}

#[test]
fn grouped_text_has_four_groups_of_eight_digits() {
    assert_eq!(u8_to_string(MAGNITE), "AADED876-6C227D40-8032AFD1-8D63561E");
    assert_eq!(u8_to_string([0; 16]), "00000000-00000000-00000000-00000000");
    assert_eq!(
        u8_to_string([0x00, 0x01, 0x0A, 0x0F, 0x10, 0x9A, 0xA9, 0xFF, 1, 2, 3, 4, 5, 6, 7, 8]),
        "00010A0F-109AA9FF-01020304-05060708"
    );
}

#[test]
fn missing_identifier_is_reported_by_its_text() {
    let index: Vec<(Guid, FloatLeaf)> = vec![(YEAST_CONE, FloatLeaf { bits: 0 })];
    assert_eq!(
        get_resource(&index, &MAGNITE),
        Err(ParsingError::MissingEntry("AADED876-6C22-7D40-8032-AFD18D63561E".to_string()))
    );
    assert_eq!(
        get_resource(&index, &[0; 16]),
        Err(ParsingError::MissingEntry("0".to_string()))
    );
    let mut almost_zero: Guid = [0; 16];
    almost_zero[15] = 1;
    assert_eq!(
        get_resource(&index, &almost_zero),
        Err(ParsingError::MissingEntry("00000000-0000-0000-0000-000000000001".to_string()))
    );
}

#[test]
fn first_entry_under_an_identifier_is_the_one_read() {
    let index: Vec<(Guid, FloatLeaf)> = vec![
        (YEAST_CONE, FloatLeaf { bits: 1 }),
        (MAGNITE, FloatLeaf { bits: 2 }),
        (MAGNITE, FloatLeaf { bits: 3 }),
    ];
    assert_eq!(get_resource(&index, &MAGNITE), Ok(FloatLeaf { bits: 2 }));
    assert_eq!(get_resource(&index, &YEAST_CONE), Ok(FloatLeaf { bits: 1 }));
}
