use vzglyd_clock::wire::{serialized_spec, WIRE_VERSION};

#[test]
fn framing_prefixes_the_version() {
    assert_eq!(serialized_spec(&[7, 8, 9]), vec![1, 7, 8, 9]);
    assert_eq!(WIRE_VERSION, 1);
}

#[test]
fn framing_of_empty_payload() {
    assert_eq!(serialized_spec(&[]), vec![WIRE_VERSION]);
}
