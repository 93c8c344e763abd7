use otterpack::{PackError, PackSource, find_pack_source, find_zip_signature, DEBUG_FOLDER_NAME, MAX_SEARCH_SIZE};

const MAGIC: [u8; 4] = [0x50, 0x4B, 0x03, 0x04];

fn container(len: usize, at: &[usize]) -> Vec<u8> {
    let mut b = vec![0u8; len];
    for &p in at {
        b[p..p + 4].copy_from_slice(&MAGIC);
    }
    b
}

#[test]
fn first_signature_gives_offset_and_length() {
    let head = container(100, &[17, 40]);
    let r = find_pack_source(false, None, "app.exe".to_string(), 5000, &head).unwrap();
    assert_eq!(
        r,
        PackSource::EmbeddedZip { exe_path: "app.exe".to_string(), zip_start: 17, zip_size: 5000 - 17 }
    );
}

#[test]
fn signature_at_start() {
    let head = container(64, &[0]);
    assert_eq!(find_zip_signature(&head), Some(0));
}

#[test]
fn partial_signature_is_not_a_match() {
    let mut head = vec![0u8; 32];
    head[3..6].copy_from_slice(&[0x50, 0x4B, 0x03]);
    head[10..14].copy_from_slice(&[0x50, 0x4B, 0x03, 0x05]);
    assert_eq!(find_zip_signature(&head), None);
}

#[test]
fn missing_signature_in_release_mode() {
    let head = container(256, &[]);
    let r = find_pack_source(false, None, "app.exe".to_string(), 256, &head);
    assert_eq!(r, Err(PackError::NoBundledArchive));
}

#[test]
fn missing_signature_and_folder_in_debug_mode() {
    let head = container(256, &[]);
    let r = find_pack_source(true, None, "app.exe".to_string(), 256, &head);
    assert_eq!(r, Err(PackError::MissingDebugFolder));
    assert_ne!(PackError::MissingDebugFolder.message(), PackError::NoBundledArchive.message());
}

#[test]
fn debug_folder_wins_in_debug_mode() {
    let head = container(64, &[5]);
    let r = find_pack_source(true, Some(DEBUG_FOLDER_NAME.to_string()), "app.exe".to_string(), 64, &head);
    assert_eq!(r, Ok(PackSource::DebugFolder("_otterpack".to_string())));
}

#[test]
fn debug_folder_ignored_in_release_mode() {
    let head = container(64, &[5]);
    let r = find_pack_source(false, Some("_otterpack".to_string()), "app.exe".to_string(), 64, &head);
    assert_eq!(
        r,
        Ok(PackSource::EmbeddedZip { exe_path: "app.exe".to_string(), zip_start: 5, zip_size: 59 })
    );
}

#[test]
fn last_examined_position_and_the_one_after() {
    // Positions below len - 4 are examined.
    let head = container(20, &[15]);
    assert_eq!(find_zip_signature(&head), Some(15));
    let head = container(20, &[16]);
    assert_eq!(find_zip_signature(&head), None);
}

#[test]
fn search_stops_at_ten_mebibytes() {
    let window = MAX_SEARCH_SIZE as usize;
    assert_eq!(window, 10 * 1024 * 1024);
    let head = container(window + 64, &[window + 8]);
    assert_eq!(find_zip_signature(&head), None);
    let head = container(window + 64, &[window - 5]);
    assert_eq!(find_zip_signature(&head), Some(window - 5));
}

#[test]
fn tiny_container_has_no_archive() {
    assert_eq!(find_zip_signature(&[0x50, 0x4B]), None);
    assert_eq!(find_zip_signature(&[]), None);
}
