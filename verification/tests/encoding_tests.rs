use discord_assist::text::encode_query;

#[test]
fn test_urlencoding() {
    let s = "the matrix";
    let encoded = encode_query(s);
    assert_eq!(encoded, "the%20matrix");
}

#[test]
fn lib_test_urlencoding() {
    let s = "ubuntu iso";
    let encoded = encode_query(s);
    assert_eq!(encoded, "ubuntu%20iso");
}

#[test]
fn urlencoding_escapes_reserved() {
    assert_eq!(encode_query("a&b=c d"), "a%26b%3Dc%20d");
    assert_eq!(encode_query(""), "");
}
