use uid_sync::names::PackageUidMap;
use uid_sync::record::{
    UidPackageEntry, UserspaceUidData, KSU_MAX_PACKAGE_NAME, KSU_MAX_UID_ENTRIES,
};
use uid_sync::scanner::{RootListing, ScanEntry, ScanError};
use uid_sync::submit::{
    conclude_rescan, conclude_submission, control_call_succeeded, encode_uid_map,
    perform_uid_scan_and_submit, submit_uid_data_to_kernel, ControlReply, RescanError, SubmitError,
    SubmitStep, CMD_SUBMIT_USER_UIDS, KERNEL_SU_OPTION, SERVED_STATUS,
};

fn expected_field(name: &[u8]) -> [u8; 256] {
    let mut field = [0u8; 256];
    for (i, b) in name.iter().enumerate() {
        if i < 255 {
            field[i] = *b;
        }
    }
    field
}

#[test]
fn limits_have_their_values() {
    assert_eq!(KSU_MAX_PACKAGE_NAME, 256);
    assert_eq!(KSU_MAX_UID_ENTRIES, 4096);
    assert_eq!(CMD_SUBMIT_USER_UIDS, 17);
    assert_eq!(KERNEL_SU_OPTION as u32, 0xDEADBEEF);
    assert_eq!(SERVED_STATUS, -1);
}

#[test]
fn short_name_is_followed_by_zeros() {
    let entry = UidPackageEntry::new(10001, "com.app.one");
    assert_eq!(entry.uid, 10001);
    assert_eq!(&entry.package[..11], b"com.app.one");
    assert!(entry.package[11..].iter().all(|b| *b == 0));
    assert_eq!(entry.package, expected_field(b"com.app.one"));
}

#[test]
fn empty_name_gives_a_field_of_zeros() {
    let entry = UidPackageEntry::new(0, "");
    assert_eq!(entry.uid, 0);
    assert_eq!(entry.package, [0u8; 256]);
}

#[test]
fn name_of_255_bytes_fits_whole() {
    let name = "n".repeat(255);
    let entry = UidPackageEntry::new(9, &name);
    assert_eq!(&entry.package[..255], name.as_bytes());
    assert_eq!(entry.package[255], 0);
}

#[test]
fn name_as_wide_as_the_field_loses_its_last_byte() {
    let name = "abcdefgh".repeat(32);
    assert_eq!(name.len(), 256);
    let entry = UidPackageEntry::new(9, &name);
    assert_eq!(&entry.package[..255], &name.as_bytes()[..255]);
    assert_eq!(entry.package[255], 0);
}

#[test]
fn longer_name_is_cut_to_255_bytes() {
    let name: String = (0..1000).map(|i| char::from(b'a' + (i % 26) as u8)).collect();
    let entry = UidPackageEntry::new(u32::MAX, &name);
    assert_eq!(entry.uid, u32::MAX);
    assert_eq!(&entry.package[..255], &name.as_bytes()[..255]);
    assert_eq!(entry.package[255], 0);
    assert_eq!(entry.package, expected_field(name.as_bytes()));
}

#[test]
fn new_record_is_empty_in_every_slot() {
    let record = UserspaceUidData::new();
    assert_eq!(record.count(), 0);
    for index in [0usize, 1, 4095, 4096, usize::MAX] {
        let slot = record.slot(index);
        assert_eq!(slot.uid, 0);
        assert_eq!(slot.package, [0u8; 256]);
    }
}

#[test]
fn add_entry_appends_until_the_record_is_full() {
    let mut record = UserspaceUidData::new();
    for i in 0..4096u32 {
        assert!(record.add_entry(i + 1, "pkg"));
        assert_eq!(record.count(), i + 1);
    }
    assert!(!record.add_entry(5000, "late"));
    assert_eq!(record.count(), 4096);
    assert_eq!(record.slot(0).uid, 1);
    assert_eq!(record.slot(4095).uid, 4096);
    assert_eq!(record.slot(4095).package, expected_field(b"pkg"));
}

#[test]
fn encoding_keeps_the_order_of_the_mapping() {
    let mut map = PackageUidMap::new();
    map.insert("com.app.one".to_string(), 10001);
    map.insert("com.app.two".to_string(), 10002);
    let record = encode_uid_map(&map);
    assert_eq!(record.count(), 2);
    assert_eq!(record.slot(0).uid, 10001);
    assert_eq!(record.slot(0).package, expected_field(b"com.app.one"));
    assert_eq!(record.slot(1).uid, 10002);
    assert_eq!(record.slot(1).package, expected_field(b"com.app.two"));
    assert_eq!(record.slot(2).uid, 0);
    assert_eq!(record.slot(2).package, [0u8; 256]);
}

#[test]
fn mapping_beyond_capacity_is_cut_to_capacity() {
    let mut map = PackageUidMap::new();
    for i in 0..4100u32 {
        map.insert(format!("pkg{}", i), 10000 + i);
    }
    assert_eq!(map.len(), 4100);
    let record = encode_uid_map(&map);
    assert_eq!(record.count(), 4096);
    for index in 0..4096usize {
        let slot = record.slot(index);
        let name = format!("pkg{}", index);
        assert_eq!(slot.uid, 10000 + index as u32);
        assert_eq!(slot.package, expected_field(name.as_bytes()));
        assert_eq!(map.get(&name), Some(slot.uid));
    }
}

#[test]
fn mapping_at_capacity_is_kept_whole() {
    let mut map = PackageUidMap::new();
    for i in 0..4096u32 {
        map.insert(format!("p{}", i), i);
    }
    let record = encode_uid_map(&map);
    assert_eq!(record.count(), 4096);
    assert_eq!(record.slot(4095).uid, 4095);
    assert_eq!(record.slot(4095).package, expected_field(b"p4095"));
}

#[test]
fn empty_mapping_is_submitted_without_a_call() {
    let map = PackageUidMap::new();
    assert!(matches!(submit_uid_data_to_kernel(&map), SubmitStep::Done));
}

#[test]
fn filled_mapping_calls_for_the_submit_command() {
    let mut map = PackageUidMap::new();
    map.insert("com.app.one".to_string(), 10001);
    match submit_uid_data_to_kernel(&map) {
        SubmitStep::Call { command, record } => {
            assert_eq!(command, 17);
            assert_eq!(record.count(), 1);
            assert_eq!(record.slot(0).uid, 10001);
            assert_eq!(record.slot(0).package, expected_field(b"com.app.one"));
        }
        SubmitStep::Done => panic!("a filled mapping must be sent"),
    }
}

#[test]
fn only_selector_with_served_status_is_success() {
    let magic = 0xDEADBEEFu32 as i32;
    assert!(control_call_succeeded(ControlReply { output: magic, status: -1 }));
    assert!(!control_call_succeeded(ControlReply { output: magic, status: 0 }));
    assert!(!control_call_succeeded(ControlReply { output: magic, status: 1 }));
    assert!(!control_call_succeeded(ControlReply { output: 0, status: -1 }));
    assert!(!control_call_succeeded(ControlReply { output: 0, status: 0 }));
    assert!(!control_call_succeeded(ControlReply { output: -1, status: magic }));
}

#[test]
fn reply_decides_the_outcome_of_a_submission() {
    let magic = 0xDEADBEEFu32 as i32;
    assert_eq!(conclude_submission(ControlReply { output: magic, status: -1 }), Ok(()));
    assert_eq!(
        conclude_submission(ControlReply { output: magic, status: 0 }),
        Err(SubmitError::Rejected)
    );
    assert_eq!(conclude_rescan(ControlReply { output: magic, status: -1 }), Ok(()));
    assert_eq!(
        conclude_rescan(ControlReply { output: 0, status: -1 }),
        Err(RescanError::Submit(SubmitError::Rejected))
    );
}

#[test]
fn rescan_of_a_missing_root_fails_with_the_scan_error() {
    let step = perform_uid_scan_and_submit(&RootListing::Missing);
    assert!(matches!(step, Err(RescanError::Scan(ScanError::RootMissing))));
    let step = perform_uid_scan_and_submit(&RootListing::Unreadable);
    assert!(matches!(step, Err(RescanError::Scan(ScanError::RootUnreadable))));
}

#[test]
fn rescan_that_finds_nothing_succeeds_without_a_call() {
    let step = perform_uid_scan_and_submit(&RootListing::Entries(Vec::new()));
    assert!(matches!(step, Ok(SubmitStep::Done)));
    let only_a_file = RootListing::Entries(vec![ScanEntry::Found {
        is_dir: false,
        name: Some("note.txt".to_string()),
        owner: Some(0),
    }]);
    assert!(matches!(perform_uid_scan_and_submit(&only_a_file), Ok(SubmitStep::Done)));
}

#[test]
fn rescan_sends_what_the_scan_found() {
    let listing = RootListing::Entries(vec![
        ScanEntry::Found { is_dir: true, name: Some("com.app.one".to_string()), owner: Some(10001) },
        ScanEntry::Found { is_dir: false, name: Some("note.txt".to_string()), owner: Some(0) },
        ScanEntry::Found { is_dir: true, name: Some("com.app.two".to_string()), owner: Some(10002) },
    ]);
    match perform_uid_scan_and_submit(&listing) {
        Ok(SubmitStep::Call { command, record }) => {
            assert_eq!(command, CMD_SUBMIT_USER_UIDS);
            assert_eq!(record.count(), 2);
            assert_eq!(record.slot(0).uid, 10001);
            assert_eq!(record.slot(0).package, expected_field(b"com.app.one"));
            assert_eq!(record.slot(1).uid, 10002);
            assert_eq!(record.slot(1).package, expected_field(b"com.app.two"));
        }
        other => panic!("unexpected step: {:?}", other),
    }
}
