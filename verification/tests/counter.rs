use mopro_bindings::counter::{finish_count, start_count, CountStep, UNKNOWN_COUNT};

#[test]
fn unknown_count_is_zero() {
    assert_eq!(UNKNOWN_COUNT, 0);
}

#[test]
fn unread_manifest_settles_the_count_as_unknown() {
    assert_eq!(start_count(None), CountStep::Done(0));
}

#[test]
fn manifest_without_bytecode_settles_the_count_as_unknown() {
    assert_eq!(start_count(Some(r#"{"abi":{}}"#)), CountStep::Done(0));
    assert_eq!(start_count(Some(r#"{"bytecode":false}"#)), CountStep::Done(0));
}

#[test]
fn corrupt_manifest_settles_the_count_as_unknown() {
    assert_eq!(start_count(Some("{\"bytecode\":")), CountStep::Done(0));
    assert_eq!(start_count(Some("")), CountStep::Done(0));
}

#[test]
fn manifest_with_bytecode_asks_the_backend() {
    let step = start_count(Some(r#"{"bytecode":"H4sIAAAA","abi":{}}"#));
    assert_eq!(step, CountStep::AskBackend("H4sIAAAA".to_string()));
}

#[test]
fn reported_count_is_handed_on() {
    assert_eq!(finish_count(Some(0)), 0);
    assert_eq!(finish_count(Some(1)), 1);
    assert_eq!(finish_count(Some(17)), 17);
    assert_eq!(finish_count(Some(u32::MAX as usize)), u32::MAX);
}

#[test]
fn backend_failure_gives_the_unknown_count() {
    assert_eq!(finish_count(None), 0);
}

#[test]
fn reported_count_is_reduced_to_32_bits() {
    let wide: u64 = 0x1_0000_0005;
    if let Ok(size) = usize::try_from(wide) {
        assert_eq!(finish_count(Some(size)), 5);
    }
    let exact: u64 = 0x1_0000_0000;
    if let Ok(size) = usize::try_from(exact) {
        assert_eq!(finish_count(Some(size)), 0);
    }
}

#[test]
fn count_of_one_public_input_end_to_end() {
    let manifest = r#"{"bytecode":"H4sIAAAA"}"#;
    let count = match start_count(Some(manifest)) {
        CountStep::AskBackend(bytecode) => {
            assert_eq!(bytecode, "H4sIAAAA");
            finish_count(Some(1))
        }
        CountStep::Done(count) => count,
    };
    assert_eq!(count, 1);
}
