use hermes::payload::{decode_index, encode_index};

#[test]
fn encode_zero_is_a_single_digit() {
    assert_eq!(encode_index(0), "0");
}

#[test]
fn encode_writes_plain_decimal() {
    assert_eq!(encode_index(1), "1");
    assert_eq!(encode_index(9), "9");
    assert_eq!(encode_index(10), "10");
    assert_eq!(encode_index(42), "42");
    assert_eq!(encode_index(1203), "1203");
}

#[test]
fn encode_largest_index() {
    assert_eq!(encode_index(usize::MAX), format!("{}", usize::MAX));
}

#[test]
fn decode_reads_plain_decimal() {
    assert_eq!(decode_index("0"), Some(0));
    assert_eq!(decode_index("1"), Some(1));
    assert_eq!(decode_index("42"), Some(42));
    assert_eq!(decode_index("1203"), Some(1203));
}

#[test]
fn decode_accepts_leading_zeros() {
    assert_eq!(decode_index("007"), Some(7));
    assert_eq!(decode_index("00"), Some(0));
}

#[test]
fn decode_rejects_empty_text() {
    assert_eq!(decode_index(""), None);
}

#[test]
fn decode_rejects_signs_and_blanks() {
    assert_eq!(decode_index("+1"), None);
    assert_eq!(decode_index("-1"), None);
    assert_eq!(decode_index(" 1"), None);
    assert_eq!(decode_index("1 "), None);
}

#[test]
fn decode_rejects_other_characters() {
    assert_eq!(decode_index("1x"), None);
    assert_eq!(decode_index("x1"), None);
    assert_eq!(decode_index("yes"), None);
    assert_eq!(decode_index("1.0"), None);
}

#[test]
fn decode_rejects_digits_outside_ascii() {
    // Arabic-Indic digit three, full-width digit one.
    assert_eq!(decode_index("\u{0663}"), None);
    assert_eq!(decode_index("\u{ff11}"), None);
}

#[test]
fn decode_reads_the_largest_index() {
    let text = format!("{}", usize::MAX);
    assert_eq!(decode_index(&text), Some(usize::MAX));
}

#[test]
fn decode_rejects_one_past_the_largest_index() {
    // usize::MAX ends in 5 on 32 and 64 bit machines alike.
    let mut text = format!("{}", usize::MAX);
    assert_eq!(text.pop(), Some('5'));
    text.push('6');
    assert_eq!(decode_index(&text), None);
}

#[test]
fn decode_rejects_a_number_with_one_digit_too_many() {
    let text = format!("{}0", usize::MAX);
    assert_eq!(decode_index(&text), None);
}

#[test]
fn decode_rejects_overflow_before_a_bad_character() {
    let text = format!("{}0x", usize::MAX);
    assert_eq!(decode_index(&text), None);
}

#[test]
fn decode_undoes_encode() {
    for index in 0..2000usize {
        assert_eq!(decode_index(&encode_index(index)), Some(index));
    }
    for index in [usize::MAX, usize::MAX - 1, usize::MAX / 10, usize::MAX / 10 + 1] {
        assert_eq!(decode_index(&encode_index(index)), Some(index));
    }
}

#[test]
fn encode_gives_different_texts_for_different_indices() {
    for a in 0..120usize {
        for b in 0..120usize {
            assert_eq!(encode_index(a) == encode_index(b), a == b);
        }
    }
}
