use open_detect::{ArchiveKind, FileType, ScanResult, Scanner, SigSet, Signature};

#[test]
fn scan_one_sig_matches() {
    let signature_set =
        SigSet::from_signature(Signature("rule test { condition: true }".to_string())).unwrap();
    let scanner = Scanner::from(signature_set);

    let result = scanner.scan_buf(b"test input").unwrap();
    assert_eq!(ScanResult::from("test"), result);
}

#[test]
fn scan_one_sig_no_match() {
    let signature_set =
        SigSet::from_signature(Signature("rule test { condition: false }".to_string())).unwrap();
    let scanner = Scanner::from(signature_set);
    let result = scanner.scan_buf(b"test input").unwrap();
    assert_eq!(ScanResult::Clean, result);
}

#[test]
fn scan_multiple_sigs_match() {
    let signature_set = SigSet::from_signatures(vec![
        Signature("rule test1 { condition: true }".to_string()),
        Signature("rule test2 { condition: true }".to_string()),
    ])
    .unwrap();
    let scanner = Scanner::from(signature_set);
    let result = scanner.scan_buf(b"test input").unwrap();
    assert_eq!(ScanResult::from(vec!["test1", "test2"]), result);
}

#[test]
fn test_scanner_new() {
    let signature_set =
        SigSet::from_signature(Signature("rule test { condition: true }".to_string())).unwrap();

    let scanner = Scanner::new(signature_set);
    assert_eq!(scanner.max_extracted_size(), 500 * 1024 * 1024);
    assert_eq!(scanner.max_total_extracted_size(), 2 * 1024 * 1024 * 1024);
}

#[test]
fn test_scanner_with_custom_sizes() {
    let signature_set =
        SigSet::from_signature(Signature("rule test { condition: true }".to_string())).unwrap();

    let scanner = Scanner::new(signature_set)
        .with_max_extracted_size(100 * 1024 * 1024)
        .with_max_total_extracted_size(1024 * 1024 * 1024);

    assert_eq!(scanner.max_extracted_size(), 100 * 1024 * 1024);
    assert_eq!(scanner.max_total_extracted_size(), 1024 * 1024 * 1024);
}

#[test]
fn test_infer_file_type() {
    let zip_magic = b"PK\x03\x04";
    assert_eq!(
        FileType::infer(zip_magic),
        Some(FileType::Archive(ArchiveKind::Zip))
    );

    let text = b"hello world";
    let result = FileType::infer(text);
    assert!(result.is_none());
}

#[test]
fn test_scanner_is_send_and_sync() {
    fn assert_send<T: Send>() {}
    fn assert_sync<T: Sync>() {}
    assert_send::<Scanner>();
    assert_sync::<Scanner>();
}

#[test]
fn test_signature_set_with_no_rules() {
    let sig_set = SigSet::new();
    assert_eq!(sig_set.count(), 0);

    let scanner = Scanner::from(sig_set);
    let scan_result = scanner.scan_buf(b"any content").expect("Scan failed");
    assert_eq!(scan_result, ScanResult::Clean);
}

#[test]
fn builder_setters_change_only_their_own_limit() {
    let scanner = Scanner::new(SigSet::new()).with_max_extracted_size(7);
    assert_eq!(scanner.max_extracted_size(), 7);
    assert_eq!(scanner.max_total_extracted_size(), 2 * 1024 * 1024 * 1024);
    let scanner = scanner.with_max_total_extracted_size(9);
    assert_eq!(scanner.max_extracted_size(), 7);
    assert_eq!(scanner.max_total_extracted_size(), 9);
    let other = Scanner::new(SigSet::new())
        .with_max_total_extracted_size(9)
        .with_max_extracted_size(7);
    assert_eq!(other.max_extracted_size(), scanner.max_extracted_size());
    assert_eq!(other.max_total_extracted_size(), scanner.max_total_extracted_size());
}

#[test]
fn scanner_from_sig_set_uses_default_limits() {
    let scanner = Scanner::from(SigSet::new());
    assert_eq!(scanner.max_extracted_size(), 500 * 1024 * 1024);
    assert_eq!(scanner.max_total_extracted_size(), 2 * 1024 * 1024 * 1024);
    assert_eq!(scanner.sig_set().count(), 0);
}

#[test]
fn same_scanner_scans_repeatedly_alike() {
    let sig_set = SigSet::from_signature(Signature(
        "rule OpenDetectTest { strings: $a = \"b3BlbmRldGVjdAo=\" condition: $a }".to_string(),
    ))
    .unwrap();
    let scanner = Scanner::from(sig_set);
    let first = scanner.scan_buf(b"xx b3BlbmRldGVjdAo= yy").unwrap();
    assert_eq!(first, ScanResult::from("OpenDetectTest"));
    let second = scanner.scan_buf(b"clean content").unwrap();
    assert_eq!(second, ScanResult::Clean);
    let third = scanner.scan_buf(b"xx b3BlbmRldGVjdAo= yy").unwrap();
    assert_eq!(third, first);
    assert_eq!(scanner.scan_buf(b"B3BLBMRLDGVJDAO=").unwrap(), ScanResult::Clean);
    assert_eq!(scanner.scan_buf(b"b3BlbmRl").unwrap(), ScanResult::Clean);
    assert_eq!(scanner.scan_buf(b"").unwrap(), ScanResult::Clean);
}

#[test]
fn explicit_other_type_is_matched_as_it_is() {
    let sig_set =
        SigSet::from_signature(Signature("rule anything { condition: true }".to_string())).unwrap();
    let scanner = Scanner::from(sig_set);
    let result = scanner.scan_buf_ft(b"PK\x03\x04 not really a zip", &FileType::Other).unwrap();
    assert_eq!(result, ScanResult::from("anything"));
}

#[test]
fn broken_archive_is_an_io_error() {
    let sig_set =
        SigSet::from_signature(Signature("rule anything { condition: true }".to_string())).unwrap();
    let scanner = Scanner::from(sig_set);
    let result = scanner.scan_buf(b"PK\x03\x04 not really a zip");
    assert!(matches!(result, Err(open_detect::Error::IoError(_))));
    let result = scanner.scan_buf_ft(b"plain bytes", &FileType::Archive(ArchiveKind::Zip));
    assert!(matches!(result, Err(open_detect::Error::IoError(_))));
}

#[test]
fn from_and_new_scan_alike() {
    let set = SigSet::from_signature(Signature("rule test { condition: true }".to_string())).unwrap();
    let a = Scanner::from(set.clone());
    let b = Scanner::new(set).with_max_extracted_size(1).with_max_total_extracted_size(2);
    assert_eq!(a.scan_buf(b"x").unwrap(), b.scan_buf(b"x").unwrap());
    assert_eq!(a.sig_set().count(), b.sig_set().count());
}
