use base64::Engine;
use cipher::{BlockDecryptMut, KeyIvInit};
use md5::Digest;
use stream_source::crypto::{encrypt, encrypt_with_salt, evp_bytes_to_key, seal};
use stream_source::ident::{decode_id, encode_id, id_json_bytes, DecodeError, MediaId};

fn doc(id_type: &str, season: Option<usize>, episode: Option<usize>, source: Option<&str>) -> MediaId {
    MediaId {
        id_type: id_type.to_string(),
        imdb_id: "tt0137523".to_string(),
        tmdb_id: "550".to_string(),
        season,
        episode,
        source_id: source.map(|s| s.to_string()),
    }
}

fn same(a: &MediaId, b: &MediaId) -> bool {
    a.id_type == b.id_type
        && a.imdb_id == b.imdb_id
        && a.tmdb_id == b.tmdb_id
        && a.season == b.season
        && a.episode == b.episode
        && a.source_id == b.source_id
}

#[test]
fn canonical_json_sorts_keys_and_omits_absent_fields() {
    let d = MediaId {
        id_type: "tv".to_string(),
        imdb_id: "tt1".to_string(),
        tmdb_id: "2".to_string(),
        season: Some(0),
        episode: Some(1),
        source_id: None,
    };
    let json = String::from_utf8(id_json_bytes(&d)).unwrap();
    assert_eq!(json, r#"{"e":1,"id_type":"tv","imdb_id":"tt1","s":0,"tmdb_id":"2"}"#);
    let token = encode_id(&d);
    assert_eq!(
        token,
        "%7B%22e%22%3A1%2C%22id_type%22%3A%22tv%22%2C%22imdb_id%22%3A%22tt1%22%2C%22s%22%3A0%2C%22tmdb_id%22%3A%222%22%7D"
    );
}

#[test]
fn canonical_json_escapes_strings() {
    let mut d = doc("movie", None, None, Some("a\"b\\c\nd\u{1}é"));
    d.tmdb_id = "12345678901234567890".to_string();
    let json = String::from_utf8(id_json_bytes(&d)).unwrap();
    assert_eq!(
        json,
        "{\"id_type\":\"movie\",\"imdb_id\":\"tt0137523\",\"source_id\":\"a\\\"b\\\\c\\nd\\u0001é\",\"tmdb_id\":\"12345678901234567890\"}"
    );
}

#[test]
fn round_trip_of_episode_movie_and_server_documents() {
    let docs = vec![
        doc("tv", Some(3), Some(12), None),
        doc("movie", None, None, None),
        doc("tv", Some(0), Some(0), Some("sflix2")),
        doc("tv", Some(usize::MAX), None, Some("x y/z")),
        doc("m\u{e9}\u{1F600}\t\"", None, Some(7), Some("")),
    ];
    for d in docs.iter() {
        let token = encode_id(d);
        assert!(token.bytes().all(|b| b.is_ascii_alphanumeric() || b"-._~%".contains(&b)));
        let back = decode_id(&token).unwrap();
        assert!(same(d, &back));
    }
}

#[test]
fn truncated_or_corrupted_tokens_fail() {
    let token = encode_id(&doc("tv", Some(1), Some(2), Some("sflix2")));
    for cut in 0..token.len() {
        assert!(decode_id(&token[..cut]).is_err(), "prefix of length {} decoded", cut);
    }
    assert_eq!(decode_id("not-a-token").err(), Some(DecodeError::Malformed));
    assert_eq!(decode_id("%7B%7D").err(), Some(DecodeError::Malformed));
    let bad = "%7B%22id_type%22%3A%22%FF%22%2C%22imdb_id%22%3A%22a%22%2C%22tmdb_id%22%3A%22b%22%7D";
    assert_eq!(decode_id(bad).err(), Some(DecodeError::NotUtf8));
}

#[test]
fn decode_accepts_lower_case_escapes_and_overflowing_numbers_fail() {
    let token = "%7b%22id_type%22%3a%22tv%22%2c%22imdb_id%22%3a%22a%22%2c%22tmdb_id%22%3a%22b%22%7d";
    let d = decode_id(token).unwrap();
    assert_eq!(d.id_type, "tv");
    assert_eq!(d.imdb_id, "a");
    assert_eq!(d.tmdb_id, "b");
    assert_eq!(d.season, None);
    let big = "%7B%22e%22%3A99999999999999999999999%2C%22id_type%22%3A%22tv%22%2C%22imdb_id%22%3A%22a%22%2C%22tmdb_id%22%3A%22b%22%7D";
    assert_eq!(decode_id(big).err(), Some(DecodeError::Malformed));
}

#[test]
fn key_derivation_matches_openssl() {
    let (key, iv) = evp_bytes_to_key(b"password", &[0, 1, 2, 3, 4, 5, 6, 7]);
    let hex = |b: &[u8]| b.iter().map(|x| format!("{:02X}", x)).collect::<String>();
    assert_eq!(hex(&key), "B03096345E805D3AA4392D2E72791DFB13E12D3F61094A3FC347ACE86B99ADA6");
    assert_eq!(hex(&iv), "ACDE38B46073EEF81840283E44A4B22A");
}

#[test]
fn golden_vector_of_salted_container() {
    let out = encrypt_with_salt("hello", "password", &[0, 1, 2, 3, 4, 5, 6, 7]);
    assert_eq!(out, "U2FsdGVkX18AAQIDBAUGBw1U+MAa/i6QZvsWW2f5w4Q=");
    let same_bytes = seal(b"hello", b"password", &[0, 1, 2, 3, 4, 5, 6, 7]);
    assert_eq!(same_bytes, out);
}

#[test]
fn random_salt_changes_the_container_but_keeps_its_frame() {
    let a = encrypt("hello", "password").unwrap();
    let b = encrypt("hello", "password").unwrap();
    assert!(a.starts_with("U2FsdGVkX1"));
    assert_eq!(a.len(), b.len());
    assert_ne!(a, b);
}

fn openssl_decrypt(container_b64: &str, password: &[u8]) -> Vec<u8> {
    let raw = base64::engine::general_purpose::STANDARD.decode(container_b64).unwrap();
    assert_eq!(&raw[..8], b"Salted__");
    let salt = &raw[8..16];
    let mut derived: Vec<u8> = Vec::new();
    let mut prev: Vec<u8> = Vec::new();
    while derived.len() < 48 {
        let mut h = md5::Md5::new();
        h.update(&prev);
        h.update(password);
        h.update(salt);
        prev = h.finalize().to_vec();
        derived.extend_from_slice(&prev);
    }
    cbc::Decryptor::<aes::Aes256>::new(derived[..32].into(), derived[32..48].into())
        .decrypt_padded_vec_mut::<cipher::block_padding::Pkcs7>(&raw[16..])
        .unwrap()
}

#[test]
fn containers_under_any_salt_decrypt_to_the_plaintext() {
    let text = "{\"source\":\"sflix2\",\"id\":\"550\"} and some more text to span blocks";
    for _ in 0..4 {
        let c = encrypt(text, "pa55").unwrap();
        assert_eq!(openssl_decrypt(&c, b"pa55"), text.as_bytes());
    }
    let fixed = encrypt_with_salt("", "k", &[9, 9, 9, 9, 9, 9, 9, 9]);
    assert_eq!(fixed.len(), 44);
    assert_eq!(encrypt("", "k").unwrap().len(), 44);
    assert_eq!(encrypt("0123456789abcdef", "k").unwrap().len(), 64);
    assert_eq!(openssl_decrypt(&fixed, b"k"), b"");
}
