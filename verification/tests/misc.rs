use portier::misc::{decode, deserialize_timestamp, encode, urlencode};

#[test]
fn base64_is_url_safe_and_unpadded() {
    assert_eq!(encode(b"hi"), "aGk");
    assert_eq!(encode(b""), "");
    // Bytes that would need `+` and `/` in the standard alphabet.
    assert_eq!(encode(&[0xfb, 0xff]), "-_8");
    assert_eq!(decode(b"aGk").unwrap(), b"hi");
    assert_eq!(decode(b"-_8").unwrap(), vec![0xfb, 0xff]);
    assert!(decode(b"aGk=").is_err());
    assert!(decode(b"!!").is_err());
}

#[test]
fn base64_round_trips() {
    let data: Vec<u8> = (0u8..=255).collect();
    let text = encode(&data);
    assert_eq!(decode(text.as_bytes()).unwrap(), data);
}

#[test]
fn timestamps_parse_integers_and_fractions() {
    assert_eq!(deserialize_timestamp("1600000000"), Some(1_600_000_000));
    assert_eq!(deserialize_timestamp("0"), Some(0));
    // Fractions are floored away: some issuers emit float timestamps.
    assert_eq!(deserialize_timestamp("1600000000.5"), Some(1_600_000_000));
    assert_eq!(deserialize_timestamp("0.999"), Some(0));
    // Values beyond the 64-bit range saturate rather than wrap.
    assert_eq!(
        deserialize_timestamp("18446744073709551615"),
        Some(u64::MAX)
    );
    assert_eq!(
        deserialize_timestamp("99999999999999999999999"),
        Some(u64::MAX)
    );
}

#[test]
fn timestamps_reject_everything_else() {
    for bad in ["", "-5", "+5", "1e9", "1.", ".5", "1.2.3", "12a", " 12", "NaN"] {
        assert_eq!(deserialize_timestamp(bad), None, "input {:?}", bad);
    }
}

#[test]
fn urlencoding_matches_the_form_set() {
    // Unreserved bytes pass through, space becomes plus, the rest becomes
    // uppercase percent escapes.
    assert_eq!(urlencode("aZ09*-._"), "aZ09*-._");
    assert_eq!(urlencode("a b"), "a+b");
    assert_eq!(urlencode("a@x.com"), "a%40x.com");
    assert_eq!(urlencode("https://x/"), "https%3A%2F%2Fx%2F");
    // Multi-byte characters are encoded byte by byte.
    assert_eq!(urlencode("é"), "%C3%A9");
    assert_eq!(urlencode(""), "");
}
