use smech_farm::base64::{base64_decodable, base64_decode, base64_encode};

#[test]
fn encodes_the_known_vectors() {
    assert_eq!(base64_encode(b""), "");
    assert_eq!(base64_encode(b"f"), "Zg==");
    assert_eq!(base64_encode(b"fo"), "Zm8=");
    assert_eq!(base64_encode(b"foo"), "Zm9v");
    assert_eq!(base64_encode(b"foobar"), "Zm9vYmFy");
    assert_eq!(base64_encode(&[0xff, 0xef, 0xbe]), "/+++");
}

#[test]
fn decodes_what_it_encoded() {
    let mut data: Vec<u8> = Vec::new();
    for n in 0..=255u8 {
        let text = base64_encode(&data);
        assert_eq!(text.len(), 4 * ((data.len() + 2) / 3));
        assert!(base64_decodable(&text));
        assert_eq!(base64_decode(&text), data);
        data.push(n.wrapping_mul(37));
    }
}

#[test]
fn different_bytes_have_different_texts() {
    assert_ne!(base64_encode(b"a"), base64_encode(b"a\0"));
    assert_ne!(base64_encode(b"ab"), base64_encode(b"ba"));
}

#[test]
fn decoding_passes_over_padding_and_takes_others_for_zero() {
    assert_eq!(base64_decode("Zg"), b"f");
    assert_eq!(base64_decode("Z=g="), b"f");
    assert_eq!(base64_decode("!!!!"), vec![0u8, 0, 0]);
    assert_eq!(base64_decode("é!!"), vec![0u8, 0, 0]);
}

#[test]
fn a_single_symbol_at_the_end_cannot_be_decoded() {
    assert!(!base64_decodable("Z"));
    assert!(!base64_decodable("Zm9vY==="));
    assert!(base64_decodable(""));
    assert!(base64_decodable("===="));
}
