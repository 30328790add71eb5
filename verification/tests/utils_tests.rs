use helix_db::engine::types::GraphError;
use helix_db::helixc::location::{line_col_of, Loc};
use helix_db::utils::decimal::{i128_text, parse_numeral, u128_text};
use helix_db::utils::id::{v6_uuid, ID};
use helix_db::utils::items::{find_property, DirectedEdge};
use helix_db::utils::label_hash::{hash_label, u32_to_be_bytes};
use helix_db::utils::tqdm::{tqdm, ProgChar};
use helix_db::protocol::value::Value;

#[test]
fn numeral_written_and_read_back() {
    for n in [0u128, 7, 10, 12345, 1_000_000_007, u128::MAX] {
        let text = u128_text(n);
        assert_eq!(text, n.to_string());
        assert_eq!(parse_numeral(&text), Some(n));
    }
}

#[test]
fn numeral_refuses_what_is_no_number() {
    assert_eq!(parse_numeral(""), None);
    assert_eq!(parse_numeral("12a"), None);
    assert_eq!(parse_numeral("-3"), None);
    assert_eq!(parse_numeral("340282366920938463463374607431768211456"), None);
    assert_eq!(parse_numeral("0042"), Some(42));
}

#[test]
fn signed_numbers_are_written_with_their_sign() {
    assert_eq!(i128_text(-42), "-42");
    assert_eq!(i128_text(0), "0");
    assert_eq!(i128_text(99), "99");
    assert_eq!(i128_text(i128::MIN), i128::MIN.to_string());
}

#[test]
fn id_text_round_trip() {
    let id = ID(0x1234_5678_9abc_def0_1122_3344_5566_7788);
    let text = id.stringify();
    assert_eq!(text, "12345678-9abc-def0-1122-334455667788");
    assert_eq!(ID::from_uuid_str(&text), Some(id));
    assert_eq!(id.inner(), 0x1234_5678_9abc_def0_1122_3344_5566_7788);
    assert_eq!(ID::from(5u128), ID(5));
}

#[test]
fn id_converts_to_its_number_and_derefs_to_it() {
    let id = ID(0xdead_beef_u128);
    let n: u128 = u128::from(id);
    assert_eq!(n, 0xdead_beef_u128);
    let id2 = ID(42);
    assert_eq!(*id2, 42u128);
}

#[test]
fn id_refuses_bad_text() {
    assert_eq!(ID::from_uuid_str("not-a-uuid"), None);
    assert_eq!(ID::from_uuid_str(""), None);
}

#[test]
fn fresh_uuids_are_version_6() {
    let a = v6_uuid();
    let text = ID(a).stringify();
    assert_eq!(text.len(), 36);
    assert_eq!(text.as_bytes()[14], b'6');
    assert_eq!((a >> 76) & 0xf, 6);
    assert_eq!((a >> 62) & 0x3, 2);
    assert_eq!(a & 0xffff_ffff_ffff, 0x0102_0304_0506);
}

#[test]
fn label_hash_is_big_endian_xxh32() {
    assert_eq!(hash_label("user", None), [122, 244, 188, 161]);
    assert_eq!(hash_label("person", None), [81, 182, 217, 19]);
    assert_eq!(hash_label("knows", Some(0)), [33, 203, 141, 24]);
    assert_eq!(hash_label("user", Some(42)), [182, 33, 239, 130]);
    assert_eq!(hash_label("", None), [0x02, 0xcc, 0x5d, 0x05]);
}

#[test]
fn u32_bytes_most_significant_first() {
    assert_eq!(u32_to_be_bytes(0x0102_0304), [1, 2, 3, 4]);
    assert_eq!(u32_to_be_bytes(0), [0, 0, 0, 0]);
    assert_eq!(u32_to_be_bytes(u32::MAX), [255, 255, 255, 255]);
}

#[test]
fn directed_edge_round_trip() {
    let mut edge_id = [0u8; 16];
    let mut other = [0u8; 16];
    for i in 0..16 {
        edge_id[i] = i as u8;
        other[i] = 100 + i as u8;
    }
    let e = DirectedEdge { edge_id, other_node_id: other };
    let bytes = e.encode();
    assert_eq!(&bytes[0..16], &edge_id);
    assert_eq!(&bytes[16..32], &other);
    let back = DirectedEdge::decode(&bytes).ok().unwrap();
    assert_eq!(back.edge_id, edge_id);
    assert_eq!(back.other_node_id, other);
    assert!(matches!(DirectedEdge::decode(&bytes[0..31]), Err(GraphError::SliceLengthError)));
}

#[test]
fn property_lookup_finds_first_pair() {
    let props = vec![
        ("name".to_string(), Value::String("a".to_string())),
        ("age".to_string(), Value::I32(3)),
        ("name".to_string(), Value::String("b".to_string())),
    ];
    assert!(matches!(find_property(&props, "name"), Some(Value::String(s)) if s == "a"));
    assert!(matches!(find_property(&props, "age"), Some(Value::I32(3))));
    assert!(find_property(&props, "missing").is_none());
}

#[test]
fn progress_never_passes_total() {
    let mut bar = tqdm::new(0..5, 2, Some(ProgChar::Block), Some("loading"));
    let mut seen = Vec::new();
    while let Some(x) = bar.next() {
        seen.push(x);
        assert!(bar.current <= 2);
    }
    assert_eq!(seen, vec![0, 1, 2, 3, 4]);
    assert_eq!(bar.current, 2);
    assert_eq!(bar.message.as_deref(), Some("loading"));
    assert_eq!(bar.prog_char.as_char(), '█');
}

#[test]
fn progress_message_is_cut_to_fifty_chars() {
    let long = "x".repeat(80);
    let bar = tqdm::new(0..1, 1, None, Some(&long));
    assert_eq!(bar.message.unwrap().len(), 50);
    assert_eq!(bar.prog_char.as_char(), '#');
}

#[test]
fn line_and_column_of_offsets() {
    let text: Vec<char> = "ab\ncd\n\nx".chars().collect();
    assert_eq!(line_col_of(&text, 0), (1, 1));
    assert_eq!(line_col_of(&text, 1), (1, 2));
    assert_eq!(line_col_of(&text, 3), (2, 1));
    assert_eq!(line_col_of(&text, 7), (4, 1));
    assert_eq!(line_col_of(&text, 8), (4, 2));
    let empty: Vec<char> = Vec::new();
    assert_eq!(line_col_of(&empty, 0), (1, 1));
    let l = Loc::new(3, 5).copy();
    assert_eq!((l.start, l.end, l.filepath.is_none()), (3, 5, true));
}
