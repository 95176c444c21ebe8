use vellum::store::{encode_header, eq_bytes, key_from_bytes, read_all, retain_blobs, BlobLog};

fn log_of(blobs: &[&[u8]]) -> Vec<u8> {
    let mut log = BlobLog::open(0);
    let mut file = Vec::new();
    for b in blobs {
        let (at, record) = log.append(b);
        assert_eq!(at as usize, file.len());
        file.extend_from_slice(&record);
        log.wrote(record.len(), record.len()).unwrap();
    }
    assert_eq!(log.end() as usize, file.len());
    file
}

#[test]
fn records_are_length_prefixed_little_endian() {
    assert_eq!(encode_header(0x0102_0304), vec![4, 3, 2, 1]);
    let log = BlobLog::open(10);
    let (at, record) = log.append(b"hey");
    assert_eq!(at, 10);
    assert_eq!(record, vec![3, 0, 0, 0, b'h', b'e', b'y']);
}

#[test]
fn a_log_reads_back_what_was_appended() {
    let blobs: Vec<&[u8]> = vec![b"first note", b"", b"second"];
    let file = log_of(&blobs);
    let back = read_all(&file);
    assert_eq!(back, vec![b"first note".to_vec(), Vec::new(), b"second".to_vec()]);
    assert!(read_all(&[]).is_empty());
}

#[test]
fn a_torn_final_record_costs_only_that_record() {
    let mut file = log_of(&[b"kept", b"also kept"]);
    let torn = log_of(&[b"torn away"]);
    for cut in 0..torn.len() {
        let mut f = file.clone();
        f.extend_from_slice(&torn[..cut]);
        assert_eq!(read_all(&f), vec![b"kept".to_vec(), b"also kept".to_vec()], "cut at {cut}");
    }
    file.extend_from_slice(&torn);
    assert_eq!(read_all(&file).len(), 3);
}

#[test]
fn a_short_write_is_refused_and_keeps_the_end() {
    let mut log = BlobLog::open(7);
    assert_eq!(log.wrote(8, 5), Err("opfs: short blob append".to_string()));
    assert_eq!(log.end(), 7);
    assert_eq!(log.wrote(8, 8), Ok(()));
    assert_eq!(log.end(), 15);
}

#[test]
fn unreferenced_blobs_are_dropped() {
    let stored = vec![b"h1".to_vec(), b"h2".to_vec(), b"h3".to_vec()];
    let keep = vec![b"h2".to_vec(), b"h9".to_vec()];
    let (stale, remaining) = retain_blobs(&stored, &keep);
    assert_eq!(stale, vec![b"h1".to_vec(), b"h3".to_vec()]);
    assert_eq!(remaining, 1);
    let (stale, remaining) = retain_blobs(&Vec::new(), &keep);
    assert!(stale.is_empty());
    assert_eq!(remaining, 0);
    assert!(eq_bytes(b"abc", b"abc"));
    assert!(!eq_bytes(b"abc", b"abd"));
}

#[test]
fn device_keys_must_be_thirty_two_bytes() {
    let key = [7u8; 32];
    assert_eq!(key_from_bytes("author", &key), Ok(key.to_vec()));
    assert_eq!(
        key_from_bytes("endpoint-secret", &[1, 2, 3]),
        Err("endpoint-secret is 3 bytes, wanted 32".to_string())
    );
}
