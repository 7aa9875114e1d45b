use edged_core::server::{
    focus_record, hotkey_binding, level_from, remote_token, window_id_from, ProcessSerialNumber,
    RECORD_LEN,
};

#[test]
fn a_remote_token_is_the_process_a_tag_and_the_element() {
    let token = remote_token(0x0102, 0x0A0B);
    assert_eq!(
        token,
        vec![
            0x02, 0x01, 0, 0, 0, 0, 0, 0, 0x6f, 0x63, 0x6f, 0x63, 0x0B, 0x0A, 0, 0, 0, 0, 0, 0
        ]
    );
    assert_eq!(&remote_token(-1, 0)[0..4], &[0xff, 0xff, 0xff, 0xff]);
}

#[test]
fn a_focus_record_carries_its_window_and_phase() {
    let record = focus_record(0x1234_5678, 2);
    assert_eq!(record.len(), RECORD_LEN);
    assert_eq!(record[0x04], 0xf8);
    assert_eq!(record[0x08], 2);
    assert_eq!(record[0x3a], 0x10);
    assert_eq!(&record[0x3c..0x40], &[0x78, 0x56, 0x34, 0x12]);
    assert!(record[0x20..0x30].iter().all(|byte| *byte == 0xff));
    assert_eq!(record[0x00], 0);
    assert_eq!(record[0x40], 0);
}

#[test]
fn a_window_server_answer_holds_only_on_success() {
    assert_eq!(window_id_from(0, 40), Some(40));
    assert_eq!(window_id_from(0, 0), None);
    assert_eq!(window_id_from(-25204, 40), None);
    assert_eq!(level_from(0, 3), Some(3));
    assert_eq!(level_from(1, 0), None);
    assert_eq!(hotkey_binding(0, 18, 0x40000), Some((18, 0x40000)));
    assert_eq!(hotkey_binding(0, 0xFFFF, 0), None);
    assert_eq!(hotkey_binding(1, 18, 0), None);
    let psn = ProcessSerialNumber::default();
    assert_eq!((psn.high, psn.low), (0, 0));
}
