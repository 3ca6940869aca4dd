use open_detect::{ArchiveKind, FileType, ScanResult, Scanner, SigSet, Signature};

fn crc32(data: &[u8]) -> u32 {
    let mut crc = 0xffff_ffffu32;
    for byte in data {
        crc ^= *byte as u32;
        for _ in 0..8 {
            let mask = (crc & 1).wrapping_neg();
            crc = (crc >> 1) ^ (0xedb8_8320 & mask);
        }
    }
    !crc
}

/// A zip archive whose entries are stored uncompressed; a name ending in `/`
/// is a directory.
fn zip_of(entries: &[(&str, &[u8])]) -> Vec<u8> {
    let mut out = Vec::new();
    let mut central = Vec::new();
    for (name, data) in entries {
        let offset = out.len() as u32;
        let crc = crc32(data);
        let mut header = Vec::new();
        header.extend_from_slice(&0x0403_4b50u32.to_le_bytes());
        header.extend_from_slice(&20u16.to_le_bytes());
        header.extend_from_slice(&0u16.to_le_bytes());
        header.extend_from_slice(&0u16.to_le_bytes());
        header.extend_from_slice(&0u16.to_le_bytes());
        header.extend_from_slice(&0x21u16.to_le_bytes());
        header.extend_from_slice(&crc.to_le_bytes());
        header.extend_from_slice(&(data.len() as u32).to_le_bytes());
        header.extend_from_slice(&(data.len() as u32).to_le_bytes());
        header.extend_from_slice(&(name.len() as u16).to_le_bytes());
        header.extend_from_slice(&0u16.to_le_bytes());
        out.extend_from_slice(&header);
        out.extend_from_slice(name.as_bytes());
        out.extend_from_slice(data);

        central.extend_from_slice(&0x0201_4b50u32.to_le_bytes());
        central.extend_from_slice(&20u16.to_le_bytes());
        central.extend_from_slice(&header[4..30]);
        central.extend_from_slice(&0u16.to_le_bytes());
        central.extend_from_slice(&0u16.to_le_bytes());
        central.extend_from_slice(&0u16.to_le_bytes());
        let external: u32 = if name.ends_with('/') { 0x10 } else { 0 };
        central.extend_from_slice(&external.to_le_bytes());
        central.extend_from_slice(&offset.to_le_bytes());
        central.extend_from_slice(name.as_bytes());
    }
    let central_offset = out.len() as u32;
    out.extend_from_slice(&central);
    out.extend_from_slice(&0x0605_4b50u32.to_le_bytes());
    out.extend_from_slice(&0u16.to_le_bytes());
    out.extend_from_slice(&0u16.to_le_bytes());
    out.extend_from_slice(&(entries.len() as u16).to_le_bytes());
    out.extend_from_slice(&(entries.len() as u16).to_le_bytes());
    out.extend_from_slice(&(central.len() as u32).to_le_bytes());
    out.extend_from_slice(&central_offset.to_le_bytes());
    out.extend_from_slice(&0u16.to_le_bytes());
    out
}

/// A gzip stream holding `data` in stored (uncompressed) deflate blocks.
fn gzip_of(data: &[u8]) -> Vec<u8> {
    let mut out = vec![0x1f, 0x8b, 0x08, 0, 0, 0, 0, 0, 0, 0xff];
    let mut chunks = data.chunks(65535).peekable();
    if chunks.peek().is_none() {
        out.extend_from_slice(&[1, 0, 0, 0xff, 0xff]);
    }
    while let Some(chunk) = chunks.next() {
        out.push(if chunks.peek().is_none() { 1 } else { 0 });
        let len = chunk.len() as u16;
        out.extend_from_slice(&len.to_le_bytes());
        out.extend_from_slice(&(!len).to_le_bytes());
        out.extend_from_slice(chunk);
    }
    out.extend_from_slice(&crc32(data).to_le_bytes());
    out.extend_from_slice(&(data.len() as u32).to_le_bytes());
    out
}

/// A ustar archive holding the given regular files.
fn tar_of(files: &[(&str, &[u8])]) -> Vec<u8> {
    let mut out = Vec::new();
    for (name, data) in files {
        let mut header = [0u8; 512];
        header[..name.len()].copy_from_slice(name.as_bytes());
        header[100..108].copy_from_slice(b"0000644\0");
        header[108..116].copy_from_slice(b"0000000\0");
        header[116..124].copy_from_slice(b"0000000\0");
        header[124..136].copy_from_slice(format!("{:011o}\0", data.len()).as_bytes());
        header[136..148].copy_from_slice(b"00000000000\0");
        header[148..156].copy_from_slice(b"        ");
        header[156] = b'0';
        header[257..263].copy_from_slice(b"ustar\0");
        header[263..265].copy_from_slice(b"00");
        let sum: u32 = header.iter().map(|b| *b as u32).sum();
        header[148..156].copy_from_slice(format!("{:06o}\0 ", sum).as_bytes());
        out.extend_from_slice(&header);
        out.extend_from_slice(data);
        out.extend(std::iter::repeat(0u8).take((512 - data.len() % 512) % 512));
    }
    out.extend(std::iter::repeat(0u8).take(1024));
    out
}

fn test_scanner() -> Scanner {
    let sig_set = SigSet::from_signature(Signature(
        "rule OpenDetectTest { strings: $a = \"b3BlbmRldGVjdAo=\" condition: $a }".to_string(),
    ))
    .unwrap();
    Scanner::from(sig_set)
}

#[test]
fn zip_with_directory_and_files_reports_each_file() {
    let sig_set =
        SigSet::from_signature(Signature("rule test { condition: true }".to_string())).unwrap();
    let scanner = Scanner::from(sig_set);
    let zip = zip_of(&[("d/", b""), ("d/a", b"x"), ("d/b", b"y")]);
    assert_eq!(FileType::infer(&zip), Some(FileType::Archive(ArchiveKind::Zip)));
    assert_eq!(scanner.scan_buf(&zip).unwrap(), ScanResult::from(vec!["test", "test"]));
}

#[test]
fn zip_detections_are_those_of_its_malicious_files() {
    let scanner = test_scanner();
    let zip = zip_of(&[
        ("clean.txt", b"nothing here"),
        ("bad1.txt", b"x b3BlbmRldGVjdAo= y"),
        ("bad2.txt", b"b3BlbmRldGVjdAo="),
    ]);
    let result = scanner.scan_buf(&zip).unwrap();
    assert_eq!(result, ScanResult::from(vec!["OpenDetectTest", "OpenDetectTest"]));
}

#[test]
fn clean_zip_is_clean() {
    let scanner = test_scanner();
    let zip = zip_of(&[("a.txt", b"nothing"), ("b.txt", b"still nothing")]);
    assert_eq!(scanner.scan_buf(&zip).unwrap(), ScanResult::Clean);
    assert_eq!(
        scanner.scan_buf_ft(&zip, &FileType::Archive(ArchiveKind::Zip)).unwrap(),
        ScanResult::Clean
    );
}

#[test]
fn gzip_is_unpacked_before_matching() {
    let scanner = test_scanner();
    let gz = gzip_of(b"some text b3BlbmRldGVjdAo= more");
    assert_eq!(FileType::infer(&gz), Some(FileType::Archive(ArchiveKind::Gz)));
    assert_eq!(scanner.scan_buf(&gz).unwrap(), ScanResult::from("OpenDetectTest"));
    assert_eq!(scanner.scan_buf(&gzip_of(b"nothing")).unwrap(), ScanResult::Clean);
}

#[test]
fn tar_gz_and_nested_zip_are_unpacked_recursively() {
    let scanner = test_scanner();
    let tar = tar_of(&[("bad.txt", b"b3BlbmRldGVjdAo="), ("ok.txt", b"ok")]);
    let tar_gz = gzip_of(&tar);
    assert_eq!(scanner.scan_buf(&tar_gz).unwrap(), ScanResult::from("OpenDetectTest"));
    let inner = zip_of(&[("bad.txt", b"b3BlbmRldGVjdAo=")]);
    let outer = zip_of(&[("inner.zip", &inner), ("bad.txt", b"b3BlbmRldGVjdAo="), ("tar.gz", &tar_gz)]);
    assert_eq!(
        scanner.scan_buf(&outer).unwrap(),
        ScanResult::from(vec!["OpenDetectTest", "OpenDetectTest", "OpenDetectTest"])
    );
}

#[test]
fn corrupted_gzip_is_an_invalid_data_error() {
    let scanner = test_scanner();
    let mut gz = gzip_of(b"b3BlbmRldGVjdAo=");
    let len = gz.len();
    gz.truncate(len - 6);
    match scanner.scan_buf(&gz) {
        Err(open_detect::Error::IoError(e)) => assert_eq!(e.kind(), std::io::ErrorKind::InvalidData),
        other => panic!("expected an I/O error, got {:?}", other),
    }
}
