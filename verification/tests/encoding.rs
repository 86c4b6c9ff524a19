use mobileconf::encoding::encode_base64;

fn encoded(data: &[u8]) -> String {
    encode_base64(data).unwrap()
}

#[test]
fn empty_input_gives_empty_text() {
    assert_eq!(encoded(b""), "");
}

#[test]
fn one_byte_is_padded_twice() {
    assert_eq!(encoded(b"f"), "Zg==");
}

#[test]
fn two_bytes_are_padded_once() {
    assert_eq!(encoded(b"fo"), "Zm8=");
}

#[test]
fn three_bytes_need_no_padding() {
    assert_eq!(encoded(b"foo"), "Zm9v");
}

#[test]
fn longer_inputs_follow_the_same_groups() {
    assert_eq!(encoded(b"foob"), "Zm9vYg==");
    assert_eq!(encoded(b"fooba"), "Zm9vYmE=");
    assert_eq!(encoded(b"foobar"), "Zm9vYmFy");
}

#[test]
fn last_two_alphabet_characters_are_plus_and_slash() {
    assert_eq!(encoded(&[0xfb, 0xff]), "+/8=");
    assert_eq!(encoded(&[0xff, 0xff, 0xff]), "////");
    assert_eq!(encoded(&[0xfb, 0xef, 0xbe]), "++++");
}

#[test]
fn zero_bytes_give_the_first_alphabet_character() {
    assert_eq!(encoded(&[0, 0, 0]), "AAAA");
    assert_eq!(encoded(&[0]), "AA==");
}

#[test]
fn every_six_bit_value_has_its_character() {
    // The 48 bytes whose 64 groups of six bits are 0, 1, .., 63.
    let mut data: Vec<u8> = Vec::new();
    let mut v: u32 = 0;
    while v < 64 {
        let word = (v << 18) | ((v + 1) << 12) | ((v + 2) << 6) | (v + 3);
        data.push((word >> 16) as u8);
        data.push((word >> 8) as u8);
        data.push(word as u8);
        v += 4;
    }
    assert_eq!(
        encoded(&data),
        "ABCDEFGHIJKLMNOPQRSTUVWXYZabcdefghijklmnopqrstuvwxyz0123456789+/"
    );
}

#[test]
fn text_is_four_characters_for_every_three_bytes_or_part_thereof() {
    let mut n: usize = 0;
    while n < 100 {
        let data = vec![0xa5u8; n];
        assert_eq!(encoded(&data).len(), 4 * ((n + 2) / 3));
        n += 1;
    }
}

#[test]
fn decoding_the_text_gives_the_bytes_back() {
    let mut n: usize = 0;
    while n < 70 {
        let data: Vec<u8> = (0..n).map(|i| (i * 37 + n * 11) as u8).collect();
        assert_eq!(base64::decode(encoded(&data)).unwrap(), data);
        n += 1;
    }
}
