use morse::{decode, encode, MorseError};

/// Every one of the 44 supported characters round-trips on its own.
#[test]
fn alphabet_coverage() {
    let alphabet = "ABCDEFGHIJKLMNOPQRSTUVWXYZ1234567890:.?/-() ";
    assert_eq!(alphabet.chars().count(), 44);
    for c in alphabet.chars() {
        let s = c.to_string();
        let encoded = encode(&s).unwrap();
        let decoded = decode(&encoded).unwrap();
        assert_eq!(s, decoded);
    }
}

/// Lowercase input is folded to uppercase before encoding.
#[test]
fn lowercase_is_folded() {
    let encoded = encode("hello world").unwrap();
    assert_eq!(encode("HELLO WORLD").unwrap(), encoded);
    assert_eq!(decode(&encoded).unwrap(), "HELLO WORLD");
}

/// The concrete scenario: "SOS" is twelve symbols, three bytes, no
/// padding, and comes back unchanged.
#[test]
fn sos_packs_exactly() {
    let encoded = encode("SOS").unwrap();
    assert_eq!(encoded, vec![42, 63, 42]);
    assert_eq!(decode(&[42, 63, 42]).unwrap(), "SOS");
}

/// A single short character leaves zero padding in its byte, which
/// must not read back as data.
#[test]
fn padding_boundary() {
    assert_eq!(encode("E").unwrap(), vec![0b0000_0010]);
    assert_eq!(decode(&[0b0000_0010]).unwrap(), "E");
    // One trailing space: terminator run closed by the marker.
    assert_eq!(encode("E ").unwrap(), vec![0b0100_0010]);
    assert_eq!(decode(&[0b0100_0010]).unwrap(), "E ");
}

/// The byte length is the symbol count rounded up to whole bytes; a
/// trailing space on a byte boundary costs one extra byte for the
/// marker.
#[test]
fn encoded_lengths() {
    assert_eq!(encode("").unwrap().len(), 0);
    assert_eq!(encode("E").unwrap().len(), 1); // 2 symbols
    assert_eq!(encode("SOS").unwrap().len(), 3); // 12 symbols
    assert_eq!(encode("A B").unwrap().len(), 3); // 9 symbols
    assert_eq!(encode("E ").unwrap().len(), 1); // 3 symbols + marker
    assert_eq!(encode("E  ").unwrap().len(), 2); // 4 symbols + marker spill
}

/// A space between words is one bare terminator in the stream.
#[test]
fn interior_space() {
    let encoded = encode("A B").unwrap();
    assert_eq!(encoded, vec![14, 171, 0]);
    assert_eq!(decode(&encoded).unwrap(), "A B");
    assert_eq!(decode(&encode("A  B").unwrap()).unwrap(), "A  B");
}

/// A message of spaces alone is kept by the marker.
#[test]
fn only_spaces() {
    assert_eq!(encode(" ").unwrap(), vec![0b0000_0100]);
    assert_eq!(decode(&[0b0000_0100]).unwrap(), " ");
    assert_eq!(decode(&encode("   ").unwrap()).unwrap(), "   ");
}

/// The empty message encodes to no bytes and decodes to no text.
#[test]
fn empty_message() {
    assert_eq!(encode("").unwrap(), Vec::<u8>::new());
    assert_eq!(decode(&[]).unwrap(), "");
}

/// A character outside the table is a typed error naming it.
#[test]
fn unsupported_character() {
    assert_eq!(encode("S#S"), Err(MorseError::UnsupportedCharacter('#')));
    assert_eq!(encode("é"), Err(MorseError::UnsupportedCharacter('é')));
}

/// Streams that fit no code word are malformed, not mangled.
#[test]
fn malformed_streams() {
    // An unterminated word: four dahs run into the end of the stream.
    assert_eq!(decode(&[0xFF]), Err(MorseError::MalformedCode));
    // A word of six dits closed by a terminator names no character.
    assert_eq!(decode(&[0b1010_1010, 0b0000_1010]), Err(MorseError::MalformedCode));
    // A seventh symbol can open no supported word.
    assert_eq!(decode(&[0b1010_1010, 0b0010_1010]), Err(MorseError::MalformedCode));
    // Data after the message-end marker.
    assert_eq!(decode(&[0b0000_0010, 0b1000_0001]), Err(MorseError::MalformedCode));
    // A marker inside an open word.
    assert_eq!(decode(&[0b0000_0110]), Err(MorseError::MalformedCode));
}
