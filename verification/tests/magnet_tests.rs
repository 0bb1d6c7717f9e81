use gosh_dl::error::EngineError;
use gosh_dl::torrent::magnet::parse_magnet;

fn refusal(uri: &str) -> String {
    match parse_magnet(uri) {
        Err(EngineError::InvalidInput { field, message }) => {
            assert_eq!(field, "magnet_uri");
            message
        }
        other => panic!("read: {:?}", other),
    }
}

#[test]
fn test_magnet_with_a_hexadecimal_hash() {
    let m = parse_magnet(
        "magnet:?xt=urn:btih:0123456789abcdefABCDEF0123456789abcdef01&dn=Some+File%20Name&tr=udp%3A%2F%2Ftracker.example%3A80&tr=http://b.example/announce",
    )
    .unwrap();
    assert_eq!(
        m.info_hash,
        [
            0x01, 0x23, 0x45, 0x67, 0x89, 0xab, 0xcd, 0xef, 0xab, 0xcd, 0xef, 0x01, 0x23, 0x45,
            0x67, 0x89, 0xab, 0xcd, 0xef, 0x01
        ]
    );
    assert_eq!(m.display_name, Some("Some File Name".to_string()));
    assert_eq!(
        m.trackers,
        vec!["udp://tracker.example:80".to_string(), "http://b.example/announce".to_string()]
    );
}

#[test]
fn test_magnet_with_a_base32_hash() {
    let m = parse_magnet("MAGNET:?xt=urn:btih:AAAQEAYEAUDAOCAJBIFQYDIOB4IBCEQT").unwrap();
    let expected: Vec<u8> = (0u8..20).collect();
    assert_eq!(m.info_hash.to_vec(), expected);
    assert_eq!(m.display_name, None);
    assert_eq!(m.trackers.len(), 0);
    let lower = parse_magnet("magnet:?xt=urn:btih:aaaqeayeaudaocajbifqydiob4ibceqt").unwrap();
    assert_eq!(lower.info_hash, m.info_hash);
    let ones = parse_magnet("magnet:?xt=urn:btih:77777777777777777777777777777777").unwrap();
    assert_eq!(ones.info_hash, [0xff; 20]);
}

#[test]
fn test_magnet_pairs_in_order() {
    let hash = "00".repeat(20);
    let other = "11".repeat(20);
    let uri =
        format!("magnet:?dn=first&xt=urn:btih:{}&x&y=&dn=second&xt=urn:sha1:abc&xt=urn:btih:{}", hash, other);
    let m = parse_magnet(&uri).unwrap();
    assert_eq!(m.info_hash, [0x11; 20]);
    assert_eq!(m.display_name, Some("second".to_string()));
    let undone = format!("magnet:?xt=urn:btih:{}&xt=urn:btih:short", hash);
    assert_eq!(refusal(&undone), "Missing or malformed info-hash");
}

#[test]
fn test_magnet_values_that_are_no_utf8_stay() {
    let uri = format!("magnet:?xt=urn:btih:{}&dn=bad%FF+name", "ab".repeat(20));
    let m = parse_magnet(&uri).unwrap();
    assert_eq!(m.display_name, Some("bad%FF name".to_string()));
    assert_eq!(m.name(), "bad%FF name");
}

#[test]
fn test_magnet_refusals() {
    assert_eq!(refusal(""), "Not a magnet link");
    assert_eq!(refusal("magnet:"), "Not a magnet link");
    assert_eq!(refusal("https://example.com/?xt=urn:btih:abc"), "Not a magnet link");
    assert_eq!(refusal("magnet:?"), "Missing or malformed info-hash");
    assert_eq!(refusal("magnet:?dn=name"), "Missing or malformed info-hash");
    assert_eq!(
        refusal(&format!("magnet:?xt=urn:btih:{}", "zz".repeat(20))),
        "Missing or malformed info-hash"
    );
    assert_eq!(
        refusal(&format!("magnet:?xt=urn:btih:{}", "1".repeat(32))),
        "Missing or malformed info-hash"
    );
    assert_eq!(
        refusal(&format!("magnet:?xt=urn:btih:{}", "a".repeat(39))),
        "Missing or malformed info-hash"
    );
}
