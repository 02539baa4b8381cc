use mopro_bindings::manifest::{bytecode_or_error, circuit_bytecode};
use mopro_bindings::MoproError;

#[test]
fn bytecode_is_read_from_the_manifest() {
    let manifest = r#"{"noir_version":"1.0.0","hash":"123","abi":{"parameters":[]},"bytecode":"H4sIAAAAAAAA/62QQQ=="}"#;
    assert_eq!(circuit_bytecode(manifest), Ok("H4sIAAAAAAAA/62QQQ==".to_string()));
}

#[test]
fn bytecode_is_read_whatever_the_layout() {
    let manifest = "\n{\n  \"bytecode\" : \"abc\" ,\n  \"debug_symbols\" : null\n}\n";
    assert_eq!(circuit_bytecode(manifest), Ok("abc".to_string()));
}

#[test]
fn bytecode_escapes_are_resolved() {
    let manifest = r#"{"bytecode":"aA\n\"b\""}"#;
    assert_eq!(circuit_bytecode(manifest), Ok("aA\n\"b\"".to_string()));
}

#[test]
fn empty_bytecode_is_still_bytecode() {
    assert_eq!(circuit_bytecode(r#"{"bytecode":""}"#), Ok(String::new()));
}

#[test]
fn manifest_without_bytecode_is_an_error() {
    assert_eq!(circuit_bytecode(r#"{"abi":{}}"#), Err(MoproError::ManifestError));
    assert_eq!(circuit_bytecode("{}"), Err(MoproError::ManifestError));
}

#[test]
fn bytecode_that_is_no_string_is_an_error() {
    assert_eq!(circuit_bytecode(r#"{"bytecode":42}"#), Err(MoproError::ManifestError));
    assert_eq!(circuit_bytecode(r#"{"bytecode":null}"#), Err(MoproError::ManifestError));
    assert_eq!(circuit_bytecode(r#"{"bytecode":["abc"]}"#), Err(MoproError::ManifestError));
}

#[test]
fn bytecode_below_the_top_level_is_not_found() {
    let manifest = r#"{"circuit":{"bytecode":"abc"}}"#;
    assert_eq!(circuit_bytecode(manifest), Err(MoproError::ManifestError));
}

#[test]
fn manifest_that_is_no_object_is_an_error() {
    assert_eq!(circuit_bytecode(r#"["bytecode"]"#), Err(MoproError::ManifestError));
    assert_eq!(circuit_bytecode(r#""bytecode""#), Err(MoproError::ManifestError));
    assert_eq!(circuit_bytecode("7"), Err(MoproError::ManifestError));
}

#[test]
fn text_that_is_no_json_is_an_error() {
    assert_eq!(circuit_bytecode(""), Err(MoproError::ManifestError));
    assert_eq!(circuit_bytecode("bytecode"), Err(MoproError::ManifestError));
    assert_eq!(circuit_bytecode(r#"{"bytecode":"abc""#), Err(MoproError::ManifestError));
    assert_eq!(circuit_bytecode(r#"{"bytecode":"abc"} trailing"#), Err(MoproError::ManifestError));
}

#[test]
fn found_bytecode_is_handed_on() {
    assert_eq!(bytecode_or_error(Some("abc".to_string())), Ok("abc".to_string()));
}

#[test]
fn missing_bytecode_becomes_a_manifest_error() {
    assert_eq!(bytecode_or_error(None), Err(MoproError::ManifestError));
}
