use mario_story_dialog_decode::extcmd::{n_params, ExtCmd, UnkCmd};

#[test]
fn test_n_params() {
    assert!(matches!(n_params(0x08), Some(0)));
    assert!(matches!(n_params(0x13), Some(1)));
    assert!(matches!(n_params(0x18), Some(7)));
}

#[test]
fn test_from_id_and_args() {
    assert!(matches!(
        ExtCmd::from_id_and_args(0x08, &[]),
        Some(ExtCmd::Unk8 {})
    ));
    assert!(matches!(
        ExtCmd::from_id_and_args(0x18, &[1, 2, 3, 4, 5, 6, 7]),
        Some(ExtCmd::GraphicsB {
            p1: 1,
            p2: 2,
            p3: 3,
            p4: 4,
            p5: 5,
            p6: 6,
            p7: 7,
        })
    ));
}

#[test]
fn n_params_unregistered_is_none() {
    assert!(n_params(0x00).is_none());
    assert!(n_params(0x42).is_none());
    assert!(n_params(0xFF).is_none());
}

#[test]
fn from_id_and_args_one_param() {
    assert_eq!(
        ExtCmd::from_id_and_args(0x13, &[5]),
        Some(ExtCmd::Unk13 { p1: 5 })
    );
    assert_eq!(
        ExtCmd::from_id_and_args(0x05, &[9]),
        Some(ExtCmd::TextColor { c: 9 })
    );
    assert_eq!(
        ExtCmd::from_id_and_args(0x0D, &[3, 4]),
        Some(ExtCmd::FontSize { x: 3, y: 4 })
    );
}

#[test]
fn from_id_and_args_wrong_count_fails() {
    assert_eq!(ExtCmd::from_id_and_args(0x08, &[1]), None);
    assert_eq!(ExtCmd::from_id_and_args(0x13, &[]), None);
    assert_eq!(ExtCmd::from_id_and_args(0x13, &[1, 2]), None);
    assert_eq!(ExtCmd::from_id_and_args(0x18, &[1, 2, 3, 4, 5, 6]), None);
    assert_eq!(
        ExtCmd::from_id_and_args(0x18, &[1, 2, 3, 4, 5, 6, 7, 8]),
        None
    );
}

#[test]
fn from_id_and_args_unregistered_fails() {
    assert_eq!(ExtCmd::from_id_and_args(0x42, &[]), None);
    assert_eq!(ExtCmd::from_id_and_args(0x42, &[1]), None);
}

#[test]
fn every_registered_id_builds_with_its_count() {
    let ids = [
        0x05u8, 0x08, 0x0C, 0x0D, 0x0E, 0x13, 0x14, 0x18, 0x24, 0x25, 0x26, 0x27, 0x29, 0x2F,
    ];
    for id in ids {
        let count = n_params(id).expect("registered id") as usize;
        let args = vec![0u8; count];
        assert!(ExtCmd::from_id_and_args(id, &args).is_some());
        let too_many = vec![0u8; count + 1];
        assert!(ExtCmd::from_id_and_args(id, &too_many).is_none());
    }
}

#[test]
fn unknown_command_value_carries_its_id() {
    let unk = ExtCmd::Unknown(UnkCmd(0x99));
    assert!(matches!(unk, ExtCmd::Unknown(UnkCmd(0x99))));
}
