use imgcache::extract::extract_candidates;
use imgcache::timestamp::{decode_last_update, encode_last_update};

#[test]
fn extracts_trims_and_decodes_candidates_in_order() {
    let body: Vec<u8> = b"<a href=\"/images?img_url=http%3A%2F%2Fexample.com%2Fimg.jpg&amp;pos=1\">\
        <a href=\"/images?img_url=https%3A%2F%2Ffoo.bar%2Fb%20c.png&quot\"> \
        img_url=ftp%3A%2F%2Fnot-a-web-url"
        .to_vec();
    let found = extract_candidates(&body);
    assert_eq!(found.len(), 2);
    assert_eq!(found[0], b"http://example.com/img.jpg".to_vec());
    assert_eq!(found[1], b"https://foo.bar/b c.png".to_vec());
}

#[test]
fn body_without_markers_has_no_candidates() {
    let body: Vec<u8> = b"<html><body>nothing to see</body></html>".to_vec();
    assert_eq!(extract_candidates(&body).len(), 0);
    let empty: Vec<u8> = Vec::new();
    assert_eq!(extract_candidates(&empty).len(), 0);
}

#[test]
fn candidate_without_encoded_scheme_is_skipped() {
    let body: Vec<u8> = b"img_url=example.com%2Fimg.jpg img_url=".to_vec();
    assert_eq!(extract_candidates(&body).len(), 0);
}

#[test]
fn candidate_run_ends_at_the_first_foreign_character() {
    let body: Vec<u8> = b"img_url=http%3A%2F%2Fa.b%2Fc\"img_url=http%3A%2F%2Fd.e%2Ff<".to_vec();
    let found = extract_candidates(&body);
    assert_eq!(found.len(), 2);
    assert_eq!(found[0], b"http://a.b/c".to_vec());
    assert_eq!(found[1], b"http://d.e/f".to_vec());
}

#[test]
fn uppercase_and_lowercase_hex_decode_alike() {
    let body: Vec<u8> = b"img_url=http%3a%2f%2fx.y%2fz".to_vec();
    // Lowercase hex in the scheme is not the canonical `%3A%2F%2F` form.
    assert_eq!(extract_candidates(&body).len(), 0);

    let body2: Vec<u8> = b"img_url=http%3A%2F%2Fx.y%2Fz%4d%4E".to_vec();
    let found = extract_candidates(&body2);
    assert_eq!(found.len(), 1);
    assert_eq!(found[0], b"http://x.y/zMN".to_vec());
}

#[test]
fn marker_inside_a_rejected_run_is_still_found() {
    let body: Vec<u8> = b"img_url=img_url=http%3A%2F%2Fx.y%2Fz".to_vec();
    let found = extract_candidates(&body);
    assert_eq!(found.len(), 1);
    assert_eq!(found[0], b"http://x.y/z".to_vec());
}

#[test]
fn timestamp_encodes_big_endian_and_round_trips() {
    let encoded = encode_last_update(0x0102030405060708);
    assert_eq!(encoded, vec![1, 2, 3, 4, 5, 6, 7, 8]);
    assert_eq!(decode_last_update(&encoded), Some(0x0102030405060708));

    assert_eq!(decode_last_update(&vec![0; 7]), None);
    assert_eq!(decode_last_update(&Vec::new()), None);

    let mut long = encode_last_update(42);
    long.push(99);
    assert_eq!(decode_last_update(&long), Some(42));

    for v in [0u64, 1, 86400, u64::MAX] {
        assert_eq!(decode_last_update(&encode_last_update(v)), Some(v));
    }
}
