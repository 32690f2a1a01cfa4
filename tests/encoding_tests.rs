use helioscope::encoding::{decode_png_payload, png_data_url, png_data_url_from_encoded, remove_occurrences};

#[test]
fn data_url_of_bytes() {
    assert_eq!(png_data_url(&[1, 2, 3]), "data:image/png;base64,AQID");
    assert_eq!(png_data_url(b"hello"), "data:image/png;base64,aGVsbG8=");
    assert_eq!(png_data_url(&[]), "data:image/png;base64,");
}

#[test]
fn data_url_of_encoded_text() {
    assert_eq!(png_data_url_from_encoded("QUJD"), "data:image/png;base64,QUJD");
}

#[test]
fn removes_every_occurrence() {
    assert_eq!(remove_occurrences("aaa", "aa"), "a");
    assert_eq!(remove_occurrences("xabyabz", "ab"), "xyz");
    assert_eq!(remove_occurrences("abc", ""), "abc");
    assert_eq!(remove_occurrences("aaa", "aa"), "aaa".replace("aa", ""));
}

#[test]
fn decodes_data_url_payload() {
    assert_eq!(decode_png_payload("data:image/png;base64,AQID"), Ok(vec![1, 2, 3]));
    assert_eq!(decode_png_payload("aGVsbG8="), Ok(b"hello".to_vec()));
}

#[test]
fn rejects_bad_payload() {
    assert!(decode_png_payload("data:image/png;base64,@@@").is_err());
    assert!(decode_png_payload("AQI").is_err());
}

#[test]
fn data_url_round_trip() {
    let bytes: Vec<u8> = (0u8..=255).collect();
    assert_eq!(decode_png_payload(&png_data_url(&bytes)), Ok(bytes));
    assert_eq!(decode_png_payload(&png_data_url(&[])), Ok(vec![]));
}
