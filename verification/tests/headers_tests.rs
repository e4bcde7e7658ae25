use gvac::headers::{collect_headers, header_text};
use gvac::registry::Registry;

#[test]
fn header_value_text_follows_visible_ascii() {
    assert_eq!(header_text(&b"abc\tdef ~".to_vec()), "abc\tdef ~");
    assert_eq!(header_text(&vec![0x61, 0x80]), "");
    assert_eq!(header_text(&vec![0x61, 0x7f]), "");
    assert_eq!(header_text(&vec![]), "");
    for b in 0u8..=255 {
        let v = reqwest::header::HeaderValue::from_bytes(&[b'a', b]);
        if let Ok(v) = v {
            assert_eq!(header_text(&vec![b'a', b]), v.to_str().unwrap_or_default(), "byte {b}");
        }
    }
}

#[test]
fn later_headers_replace_earlier() {
    let r = collect_headers(vec![
        ("set-cookie".to_string(), b"a=1".to_vec()),
        ("x".to_string(), b"1".to_vec()),
        ("set-cookie".to_string(), b"b=2".to_vec()),
    ]);
    assert_eq!(r.len(), 2);
    assert_eq!(r.get("set-cookie").unwrap(), "b=2");
    assert_eq!(r.get("x").unwrap(), "1");
}

#[test]
fn registry_read_after_write() {
    let mut r: Registry<u32> = Registry::new();
    assert_eq!(r.insert("a".to_string(), 1), None);
    assert_eq!(r.insert("b".to_string(), 2), None);
    assert_eq!(r.insert("a".to_string(), 3), Some(1));
    assert_eq!(r.get("a"), Some(&3));
    assert_eq!(r.get("b"), Some(&2));
    assert_eq!(r.len(), 2);
    assert_eq!(r.remove("a"), Some(3));
    assert_eq!(r.remove("a"), None);
    assert!(!r.contains_key("a"));
    assert_eq!(r.get("b"), Some(&2));
    let taken = r.remove_keys(&vec!["b".to_string(), "zz".to_string()]);
    assert_eq!(taken, vec![("b".to_string(), 2)]);
    assert_eq!(r.len(), 0);
}
