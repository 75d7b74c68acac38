use bitdmx::assets::{check_json_limits, unpack_assets};
use std::io::Write;

fn compress(data: &[u8]) -> Vec<u8> {
    let mut e = flate2::write::ZlibEncoder::new(Vec::new(), flate2::Compression::default());
    e.write_all(data).unwrap();
    e.finish().unwrap()
}

#[test]
fn unpacks_files_in_path_order() {
    let archive = compress(b"{\"b/y.txt\":[104,105],\"a.txt\":[1,2,3]}");
    let files = unpack_assets(&archive).unwrap();
    assert_eq!(files, vec![("a.txt".to_string(), vec![1, 2, 3]), ("b/y.txt".to_string(), vec![104, 105])]);
}

#[test]
fn rejects_bad_archives() {
    assert_eq!(unpack_assets(b"not zlib"), None);
    assert_eq!(unpack_assets(&compress(b"[1,2]")), None);
}

#[test]
fn json_limits() {
    assert!(check_json_limits("{\"a\":[1,[2,{\"b\":3}]]}"));
    let deep_ok = "[".repeat(64) + &"]".repeat(64);
    assert!(check_json_limits(&deep_ok));
    let too_deep = "[".repeat(65) + &"]".repeat(65);
    assert!(!check_json_limits(&too_deep));
    assert!(check_json_limits(&format!("\"{}\"", "[".repeat(500))));
    assert!(check_json_limits(&format!("{{\"{}\":[1]}}", "x".repeat(1023))));
    assert!(!check_json_limits(&format!("{{\"{}\":[1]}}", "x".repeat(1024))));
    assert!(!check_json_limits(&format!("{{\"{}\":[1]}}", "\u{20ac}".repeat(342))));
    assert!(check_json_limits(&format!("{{\"{}\":[1]}}", "\u{20ac}".repeat(341))));
    assert!(!check_json_limits(&format!("\"{}\\\"{}\"", "a".repeat(600), "b".repeat(600))));
}

#[test]
fn unpacking_refuses_text_beyond_the_limits() {
    let long_key = format!("{{\"{}\":[1]}}", "\u{20ac}".repeat(23334));
    assert_eq!(unpack_assets(&compress(long_key.as_bytes())), None);
    let deep = "[".repeat(100000);
    assert_eq!(unpack_assets(&compress(deep.as_bytes())), None);
}

#[test]
fn json_exponents_within_the_parser_accumulator() {
    assert!(!check_json_limits("{\"a\":[1e99999999999999999999]}"));
    assert!(check_json_limits("{\"a\":[1e5, 2E-7, 3e+10]}"));
    assert!(check_json_limits("[1e-000000000000000000000000000005]"));
    assert!(check_json_limits(&format!("[1E+{}]", usize::MAX)));
    assert!(!check_json_limits(&format!("[1E+{}0]", usize::MAX)));
    assert!(check_json_limits("[true, false, \"e99999999999999999999999\"]"));
    let archive = compress(b"{\"a\":[1e99999999999999999999]}");
    assert_eq!(unpack_assets(&archive), None);
}
