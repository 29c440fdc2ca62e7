use edge_capture::recorder::base64::base64_encode;

#[test]
fn base64_empty() {
    assert_eq!(base64_encode(&[]), "");
}

#[test]
fn base64_rfc4648_vectors() {
    assert_eq!(base64_encode(b"f"), "Zg==");
    assert_eq!(base64_encode(b"fo"), "Zm8=");
    assert_eq!(base64_encode(b"foo"), "Zm9v");
    assert_eq!(base64_encode(b"foob"), "Zm9vYg==");
    assert_eq!(base64_encode(b"fooba"), "Zm9vYmE=");
    assert_eq!(base64_encode(b"foobar"), "Zm9vYmFy");
}

#[test]
fn base64_high_bits_and_symbols() {
    assert_eq!(base64_encode(&[0xff, 0xff, 0xff]), "////");
    assert_eq!(base64_encode(&[0xfb, 0xef, 0xbe]), "++++");
    assert_eq!(base64_encode(&[0x00, 0x00, 0x00]), "AAAA");
    assert_eq!(base64_encode(&[0xff]), "/w==");
    assert_eq!(base64_encode(&[0x00, 0x10, 0x83, 0x10, 0x51, 0x87]), "ABCDEFGH");
}

#[test]
fn base64_length_is_four_per_started_group() {
    for n in 0..20usize {
        let data: Vec<u8> = (0..n as u8).collect();
        assert_eq!(base64_encode(&data).len(), 4 * ((n + 2) / 3));
    }
}

#[test]
fn base64_concatenation_of_aligned_prefix() {
    let a = b"abcdef";
    let b = b"xy";
    let mut ab = a.to_vec();
    ab.extend_from_slice(b);
    assert_eq!(base64_encode(&ab), format!("{}{}", base64_encode(a), base64_encode(b)));
}

#[test]
fn base64_distinct_inputs_distinct_outputs() {
    assert_ne!(base64_encode(&[0]), base64_encode(&[0, 0]));
    assert_ne!(base64_encode(&[1, 2]), base64_encode(&[1, 3]));
    assert_ne!(base64_encode(&[0, 0]), base64_encode(&[0, 0, 0]));
}

fn decode_standard(text: &str) -> Vec<u8> {
    let alphabet = b"ABCDEFGHIJKLMNOPQRSTUVWXYZabcdefghijklmnopqrstuvwxyz0123456789+/";
    let value = |c: u8| alphabet.iter().position(|&a| a == c).unwrap() as u32;
    let bytes = text.as_bytes();
    let mut out = Vec::new();
    for group in bytes.chunks(4) {
        let pad = group.iter().filter(|&&c| c == b'=').count();
        let mut n: u32 = 0;
        for &c in group {
            n = (n << 6) | if c == b'=' { 0 } else { value(c) };
        }
        let three = [(n >> 16) as u8, (n >> 8) as u8, n as u8];
        out.extend_from_slice(&three[..3 - pad]);
    }
    out
}

#[test]
fn base64_decodes_back_to_the_data() {
    for n in 0..40usize {
        let data: Vec<u8> = (0..n).map(|i| (i * 37 + 11) as u8).collect();
        assert_eq!(decode_standard(&base64_encode(&data)), data);
    }
    assert_eq!(decode_standard(&base64_encode(&[0xff, 0x00])), vec![0xff, 0x00]);
}
