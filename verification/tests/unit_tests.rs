use hcs_client::calculate_num_packets;
use hcs_client::paths::{FileHandlerConfig, FilePaths};
use hcs_client::records::PendingRecords;
use hcs_client::version::VersionCursor;
use hcs_client::CHUNK_SIZE;

fn config() -> FileHandlerConfig {
    FileHandlerConfig {
        storage_directory: b"/data/storage".to_vec(),
        symlink_directory: b"/data/view".to_vec(),
        metadata_directory: b"/data/meta".to_vec(),
        program_data_directory: b"/data/prog".to_vec(),
    }
}

#[test]
fn packet_count_is_ceiling() {
    assert_eq!(CHUNK_SIZE, 65536);
    assert_eq!(calculate_num_packets(0), 0);
    assert_eq!(calculate_num_packets(1), 1);
    assert_eq!(calculate_num_packets(65535), 1);
    assert_eq!(calculate_num_packets(65536), 1);
    assert_eq!(calculate_num_packets(65537), 2);
    assert_eq!(calculate_num_packets(10 * 65536), 10);
    assert_eq!(calculate_num_packets(u64::MAX), 281474976710656);
}

#[test]
fn cursor_reports_its_version() {
    let c = VersionCursor::new(9);
    assert_eq!(c.server_version(), 9);
}

#[test]
fn cursor_advances_forward() {
    let mut c = VersionCursor::new(3);
    assert!(c.set(4));
    assert_eq!(c.server_version(), 4);
    assert!(c.set(4));
    assert_eq!(c.server_version(), 4);
}

#[test]
fn cursor_never_moves_backward() {
    let mut c = VersionCursor::new(5);
    assert!(!c.set(2));
    assert_eq!(c.server_version(), 5);
}

#[test]
fn cursor_persists_as_eight_bytes() {
    let c = VersionCursor::new(258);
    let bytes = c.to_bytes();
    assert_eq!(bytes, vec![2u8, 1, 0, 0, 0, 0, 0, 0]);
    let back = VersionCursor::from_bytes(bytes.as_slice()).expect("eight bytes must load");
    assert_eq!(back.server_version(), 258);
    assert!(VersionCursor::from_bytes(&[1, 2, 3]).is_none());
    assert!(VersionCursor::from_bytes(&[0; 9]).is_none());
}

#[test]
fn commit_deletes_the_record() {
    let mut r = PendingRecords::new(vec![1, 2, 3]);
    assert!(r.contains(2));
    assert!(r.commit(2));
    assert!(!r.contains(2));
    assert!(r.contains(1));
    assert!(r.contains(3));
}

#[test]
fn commit_of_absent_record_changes_nothing() {
    // An already-committed change has no record; committing it again
    // deletes nothing and re-enqueues nothing.
    let mut r = PendingRecords::new(vec![4, 5]);
    assert!(r.commit(5));
    assert!(!r.commit(5));
    assert!(!r.commit(9));
    assert!(r.contains(4));
    assert!(!r.contains(5));
    assert!(!r.contains(9));
}

#[test]
fn projector_derives_three_paths() {
    let fp = FilePaths::from_relative_path(&b"a/b.txt".to_vec(), &config()).expect("valid path");
    assert_eq!(fp.storage_dir_path(), &b"/data/storage/a/b.txt".to_vec());
    assert_eq!(fp.symlink_dir_path(), &b"/data/view/a/b.txt".to_vec());
    assert_eq!(fp.custom_metadata_path(), &b"/data/meta/a/b.txt".to_vec());
}

#[test]
fn projector_rejects_bad_paths() {
    let c = config();
    assert!(FilePaths::from_relative_path(&b"".to_vec(), &c).is_err());
    assert!(FilePaths::from_relative_path(&b"/abs".to_vec(), &c).is_err());
    assert!(FilePaths::from_relative_path(&b"a\0b".to_vec(), &c).is_err());
    assert!(FilePaths::from_relative_path(&b"..".to_vec(), &c).is_err());
    assert!(FilePaths::from_relative_path(&b"../x".to_vec(), &c).is_err());
    assert!(FilePaths::from_relative_path(&b"a/../b".to_vec(), &c).is_err());
    assert!(FilePaths::from_relative_path(&b"a/..".to_vec(), &c).is_err());
}

#[test]
fn projector_accepts_dotted_names() {
    let c = config();
    // Dots that are not a ".." component are ordinary name characters.
    assert!(FilePaths::from_relative_path(&b"a..b".to_vec(), &c).is_ok());
    assert!(FilePaths::from_relative_path(&b"...".to_vec(), &c).is_ok());
    assert!(FilePaths::from_relative_path(&b"a/.hidden".to_vec(), &c).is_ok());
}
