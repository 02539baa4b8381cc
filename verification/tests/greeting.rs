use mopro_bindings::mopro_hello_world;

#[test]
fn test_mopro_hello_world() {
    assert_eq!(mopro_hello_world(), "Hello, World!");
}
