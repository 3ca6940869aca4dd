use open_detect::{DirEntryAction, SigSet, Signature};

#[test]
fn from_signature_valid() {
    let signature_set =
        SigSet::from_signature(Signature("rule test { condition: true }".to_string())).unwrap();

    assert_eq!(1, signature_set.count());
}

#[test]
fn from_signature_invalid() {
    let result = SigSet::from_signature(Signature("rule test { condition: ".to_string()));
    assert!(result.is_err());
}

#[test]
fn from_signatures_multiple() {
    let signature_set = SigSet::from_signatures(vec![
        Signature("rule test1 { condition: true }".to_string()),
        Signature("rule test2 { condition: true }".to_string()),
    ])
    .unwrap();

    assert_eq!(2, signature_set.count());
}

#[test]
fn with_signature_chaining() {
    let signature_set = SigSet::new()
        .with_signature(Signature("rule test { condition: true }".to_string()))
        .unwrap();

    assert_eq!(1, signature_set.count());
}

#[test]
fn empty_signature_list_always_compiles() {
    let set = SigSet::from_signatures(Vec::new()).unwrap();
    assert_eq!(set.count(), 0);
    assert_eq!(SigSet::default().count(), 0);
    assert_eq!(SigSet::new().with_signatures(Vec::new()).unwrap().count(), 0);
}

#[test]
fn invalid_signature_is_a_signature_error() {
    let result = SigSet::new().with_signatures(vec![
        Signature("rule ok { condition: true }".to_string()),
        Signature("rule broken { condition: ".to_string()),
    ]);
    assert!(matches!(result, Err(open_detect::Error::SignatureError(_))));
}

#[test]
fn adding_one_by_one_matches_adding_all() {
    let a = Signature("rule a { condition: true }".to_string());
    let b = Signature("rule b { condition: true }".to_string());
    let one_by_one = SigSet::new()
        .with_signature(a.clone())
        .unwrap()
        .with_signature(b.clone())
        .unwrap();
    let all = SigSet::new().with_signatures(vec![a, b]).unwrap();
    assert_eq!(one_by_one.count(), 2);
    assert_eq!(all.count(), 2);
}

#[test]
fn signature_extensions_ignore_case() {
    for ext in ["yar", "yara", "yrc", "YAR", "Yara", "yRc"] {
        assert!(SigSet::is_signature_extension(ext), "{ext}");
    }
    for ext in ["", "ya", "yarx", "yaraa", "txt", "yr", "yarä", "yrcs"] {
        assert!(!SigSet::is_signature_extension(ext), "{ext}");
    }
}

#[test]
fn dir_entries_are_descended_loaded_or_skipped() {
    assert_eq!(SigSet::dir_entry_action(true, true, None), DirEntryAction::Descend);
    assert_eq!(SigSet::dir_entry_action(true, false, Some("yar")), DirEntryAction::Skip);
    assert_eq!(SigSet::dir_entry_action(false, false, Some("YARA")), DirEntryAction::Load);
    assert_eq!(SigSet::dir_entry_action(false, true, Some("yrc")), DirEntryAction::Load);
    assert_eq!(SigSet::dir_entry_action(false, true, Some("txt")), DirEntryAction::Skip);
    assert_eq!(SigSet::dir_entry_action(false, false, None), DirEntryAction::Skip);
}

#[test]
fn cloned_set_keeps_its_signatures_and_rules() {
    let set = SigSet::from_signatures(vec![
        Signature("rule a { condition: true }".to_string()),
        Signature("rule b { condition: true }".to_string()),
    ])
    .unwrap();
    let copy = set.clone();
    assert_eq!(copy.count(), set.count());
    let extended = copy.with_signature(Signature("rule c { condition: true }".to_string())).unwrap();
    assert_eq!(extended.count(), 3);
    assert_eq!(set.count(), 2);
}
