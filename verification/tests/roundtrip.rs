use morse::{decode, encode};

#[test]
fn roundtrip() {
    let test = |s: &'static str| {
        let encoded = encode(s).unwrap();
        let decoded = decode(&encoded).unwrap();
        assert_eq!(s, decoded);
    };

    test("ABCDEFGHIJKLMNOPQRSTUVWXYZ"); // letters
    test("1234567890"); // numbers
    test(":.?/-() "); // symbols

    // Test that we correctly cap partial bytes
    test("E");
    test("E ");
    test("E  ");
    test("E   ");
}
