use gosh_dl::error::EngineError;
use gosh_dl::torrent::bencode::{
    dict_get_at, int_at, list_items_at, parse_metainfo, string_at, text_at, value_end_at,
    MAX_DEPTH,
};
use sha1::{Digest, Sha1};

fn b(text: &str) -> Vec<u8> {
    text.as_bytes().to_vec()
}

fn refusal(data: &[u8]) -> String {
    match parse_metainfo(&data.to_vec()) {
        Err(EngineError::InvalidInput { field, message }) => {
            assert_eq!(field, "torrent");
            message
        }
        other => panic!("read: {:?}", other),
    }
}

fn single_file_torrent() -> (Vec<u8>, Vec<u8>) {
    let mut info = b("d6:lengthi40e4:name8:data.bin12:piece lengthi16e6:pieces60:");
    info.extend((0u8..60).collect::<Vec<u8>>());
    info.extend(b("7:privatei1ee"));
    let mut data = b("d8:announce31:http://tracker.example/announce13:announce-listll31:http://tracker.example/announce17:udp://a.example:1el17:udp://b.example:2ei7e4:spamlee7:comment5:hello10:created by4:test13:creation datei1700000000e4:info");
    data.extend(info.clone());
    data.extend(b("e"));
    (data, info)
}

#[test]
fn test_strings_and_integers() {
    let d = b("4:spami42ei-7ei0e0:");
    assert_eq!(string_at(&d, 0), Some((2, 6)));
    assert_eq!(text_at(&d, 0), Some("spam".to_string()));
    assert_eq!(int_at(&d, 6), Some((42, 10)));
    assert_eq!(int_at(&d, 10), Some((-7, 14)));
    assert_eq!(int_at(&d, 14), Some((0, 17)));
    assert_eq!(string_at(&d, 17), Some((19, 19)));
    assert_eq!(string_at(&d, 6), None);
    assert_eq!(int_at(&d, 0), None);
    assert_eq!(string_at(&d, 100), None);
    assert_eq!(string_at(&b("5:spam"), 0), None);
    assert_eq!(string_at(&b("99999999999999999999999:x"), 0), None);
    assert_eq!(string_at(&b(":x"), 0), None);
    assert_eq!(int_at(&b("ie"), 0), None);
    assert_eq!(int_at(&b("i-e"), 0), None);
    assert_eq!(int_at(&b("i12"), 0), None);
    assert_eq!(int_at(&b("i9223372036854775807e"), 0), Some((i64::MAX, 21)));
    assert_eq!(int_at(&b("i9223372036854775808e"), 0), None);
    assert_eq!(int_at(&b("i-9223372036854775808e"), 0), Some((i64::MIN, 22)));
    assert_eq!(int_at(&b("i-9223372036854775809e"), 0), None);
    assert_eq!(text_at(&vec![b'2', b':', 0xff, 0xfe], 0), None);
}

#[test]
fn test_values_end_where_they_end() {
    let d = b("d3:bar4:spam3:fooli1ei2eee5:after");
    assert_eq!(value_end_at(&d, 0, MAX_DEPTH), Some(d.len() - 7));
    assert_eq!(value_end_at(&d, 1, MAX_DEPTH), Some(6));
    assert_eq!(value_end_at(&d, 17, MAX_DEPTH), Some(25));
    assert_eq!(value_end_at(&d, 0, 1), None);
    assert_eq!(value_end_at(&d, 0, 2), Some(d.len() - 7));
    assert_eq!(value_end_at(&b("li1e"), 0, MAX_DEPTH), None);
    assert_eq!(value_end_at(&b("di1ei2ee"), 0, MAX_DEPTH), None);
    assert_eq!(value_end_at(&b("d1:ae"), 0, MAX_DEPTH), None);
    assert_eq!(value_end_at(&b("x"), 0, MAX_DEPTH), None);
    assert_eq!(value_end_at(&b(""), 0, MAX_DEPTH), None);
    let deep = "l".repeat(MAX_DEPTH) + &"e".repeat(MAX_DEPTH);
    assert_eq!(value_end_at(&b(&deep), 0, MAX_DEPTH), Some(2 * MAX_DEPTH));
    let deeper = "l".repeat(MAX_DEPTH + 1) + &"e".repeat(MAX_DEPTH + 1);
    assert_eq!(value_end_at(&b(&deeper), 0, MAX_DEPTH), None);
    let bottomless = "l".repeat(100_000);
    assert_eq!(value_end_at(&b(&bottomless), 0, MAX_DEPTH), None);
}

#[test]
fn test_dictionary_and_list_members() {
    let d = b("d3:bar4:spam3:fooli1e3:twoe3:bari9ee");
    assert_eq!(dict_get_at(&d, 0, "bar"), Some(6));
    assert_eq!(dict_get_at(&d, 0, "foo"), Some(17));
    assert_eq!(dict_get_at(&d, 0, "fo"), None);
    assert_eq!(dict_get_at(&d, 0, "baz"), None);
    assert_eq!(dict_get_at(&d, 17, "bar"), None);
    assert_eq!(list_items_at(&d, 17), Some(vec![18, 21]));
    assert_eq!(list_items_at(&d, 0), None);
    assert_eq!(list_items_at(&b("le"), 0), Some(vec![]));
}

#[test]
fn test_torrent_of_one_file() {
    let (data, info) = single_file_torrent();
    let m = parse_metainfo(&data).unwrap();
    assert_eq!(m.info.name, "data.bin");
    assert_eq!(m.info.piece_length, 16);
    assert_eq!(m.info.total_size, 40);
    assert!(m.info.is_single_file);
    assert!(m.info.private);
    assert_eq!(m.info.pieces.len(), 3);
    assert_eq!(m.info.pieces[0].to_vec(), (0u8..20).collect::<Vec<u8>>());
    assert_eq!(m.info.pieces[2].to_vec(), (40u8..60).collect::<Vec<u8>>());
    assert_eq!(m.info.files.len(), 1);
    assert_eq!(m.info.files[0].path, "data.bin");
    assert_eq!(m.info.files[0].length, 40);
    assert_eq!(m.info.files[0].offset, 0);
    let mut hasher = Sha1::new();
    hasher.update(&info);
    let expected: [u8; 20] = hasher.finalize().into();
    assert_eq!(m.info_hash, expected);
    assert_eq!(m.announce, Some("http://tracker.example/announce".to_string()));
    assert_eq!(
        m.announce_list,
        vec![
            vec!["http://tracker.example/announce".to_string(), "udp://a.example:1".to_string()],
            vec!["udp://b.example:2".to_string()],
            Vec::<String>::new(),
        ]
    );
    assert_eq!(m.comment, Some("hello".to_string()));
    assert_eq!(m.created_by, Some("test".to_string()));
    assert_eq!(m.creation_date, Some(1_700_000_000));
    assert!(m.is_consistent());
    assert_eq!(
        m.all_trackers(),
        vec![
            "http://tracker.example/announce".to_string(),
            "udp://a.example:1".to_string(),
            "udp://b.example:2".to_string(),
        ]
    );
}

#[test]
fn test_torrent_of_several_files() {
    let mut data = b("d4:infod5:filesld6:lengthi10e4:pathl5:a.bineed6:lengthi0e4:pathl1:c5:d.bineed6:lengthi25e4:pathl1:c1:e5:f.bineee4:name5:album12:piece lengthi16e6:pieces60:");
    data.extend(vec![7u8; 60]);
    data.extend(b("ee"));
    let m = parse_metainfo(&data).unwrap();
    assert_eq!(m.info.name, "album");
    assert!(!m.info.is_single_file);
    assert!(!m.info.private);
    assert_eq!(m.info.total_size, 35);
    let files: Vec<(String, u64, u64)> =
        m.info.files.iter().map(|f| (f.path.clone(), f.length, f.offset)).collect();
    assert_eq!(
        files,
        vec![
            ("a.bin".to_string(), 10, 0),
            ("c/d.bin".to_string(), 0, 10),
            ("c/e/f.bin".to_string(), 25, 10),
        ]
    );
    assert_eq!(m.announce, None);
    assert_eq!(m.announce_list.len(), 0);
    assert_eq!(m.creation_date, None);
    assert!(m.is_consistent());
    assert!(m.info.validate_paths().is_ok());
}

#[test]
fn test_torrent_with_a_path_that_leads_out() {
    let mut data = b("d4:infod5:filesld6:lengthi16e4:pathl2:..2:..3:etc6:passwdeee4:name5:album12:piece lengthi16e6:pieces20:");
    data.extend(vec![7u8; 20]);
    data.extend(b("ee"));
    let m = parse_metainfo(&data).unwrap();
    assert_eq!(m.info.files[0].path, "../../etc/passwd");
    assert!(m.info.validate_paths().is_err());
}

#[test]
fn test_torrent_refusals() {
    assert_eq!(refusal(b""), "Invalid torrent: not a bencoded dictionary");
    assert_eq!(refusal(b"le"), "Invalid torrent: not a bencoded dictionary");
    assert_eq!(refusal(b"d4:infodee trailing"), "Invalid torrent: not a bencoded dictionary");
    assert_eq!(refusal(b"d4:infod"), "Invalid torrent: not a bencoded dictionary");
    assert_eq!(refusal(b"de"), "Invalid torrent: missing 'info' dictionary");
    assert_eq!(refusal(b"d4:infoi1ee"), "Invalid torrent: missing 'info' dictionary");
    assert_eq!(refusal(b"d4:infodee"), "Invalid torrent: missing 'name'");
    assert_eq!(refusal(b"d4:infod4:namei1eee"), "Invalid torrent: missing 'name'");
    assert_eq!(refusal(b"d4:infod4:name1:xee"), "Invalid torrent: missing 'piece length'");
    assert_eq!(
        refusal(b"d4:infod4:name1:x12:piece lengthi-1eee"),
        "Invalid torrent: missing 'piece length'"
    );
    assert_eq!(
        refusal(b"d4:infod4:name1:x12:piece lengthi16eee"),
        "Invalid torrent: missing or malformed 'pieces'"
    );
    assert_eq!(
        refusal(b"d4:infod4:name1:x12:piece lengthi16e6:pieces3:abcee"),
        "Invalid torrent: missing or malformed 'pieces'"
    );
    assert_eq!(
        refusal(b"d4:infod4:name1:x12:piece lengthi16e6:pieces0:ee"),
        "Invalid torrent: missing or malformed files"
    );
    assert_eq!(
        refusal(b"d4:infod5:filesld6:lengthi1e4:pathleee4:name1:x12:piece lengthi16e6:pieces0:ee"),
        "Invalid torrent: missing or malformed files"
    );
    assert_eq!(
        refusal(b"d4:infod5:filesi1e4:name1:x12:piece lengthi16e6:pieces0:ee"),
        "Invalid torrent: missing or malformed files"
    );
    assert_eq!(
        refusal(
            b"d4:infod5:filesld6:lengthi9223372036854775807e4:pathl1:aeed6:lengthi9223372036854775807e4:pathl1:beed6:lengthi2e4:pathl1:ceee4:name1:x12:piece lengthi16e6:pieces0:ee"
        ),
        "Invalid torrent: the files are too large"
    );
}
