use hax::data_type::DataType;
use hax::matcher::{FloatBounds, FloatWindow};
use hax::query::{parse, Node};
use hax::scanner::SearchResult;

/// Resolves the float literal of a query to bit patterns.
fn float_bounds(node: &Node) -> Option<FloatBounds> {
    let lit = node.constant().as_float.as_ref()?;
    let value: f64 = lit.text.parse().ok()?;
    let tol = 10f64.powf(-(lit.precision as f64));
    let double = FloatWindow {
        value: value.to_bits(),
        lower: (value - tol * 0.999).to_bits(),
        upper: (value + tol * 0.999).to_bits(),
        eq_lower: (value - tol).to_bits(),
        eq_upper: (value + tol).to_bits(),
    };
    let v = value as f32;
    let t = tol as f32;
    let single = FloatWindow {
        value: v.to_bits() as u64,
        lower: (v - t * 0.999).to_bits() as u64,
        upper: (v + t * 0.999).to_bits() as u64,
        eq_lower: (v - t).to_bits() as u64,
        eq_upper: (v + t).to_bits() as u64,
    };
    Some(FloatBounds { double, single })
}

fn haystack(needle: &[u8]) -> (Vec<u8>, usize) {
    let needle_len = needle.len();
    let mut bytes: Vec<u8> = vec![0; 4096];
    let index = ((rand::random::<usize>() % bytes.len()) / needle_len) * needle_len;
    for (idx, b) in needle.iter().enumerate() {
        bytes[index + idx] = *b;
    }
    (bytes, index)
}

fn search(bytes: &[u8], query: &str) -> Vec<SearchResult> {
    let node = parse(query).unwrap();
    let floats = float_bounds(&node);
    node.scan_page(bytes, 0, &floats)
}

fn perform_search(val_bytes: &[u8], query: &str) -> bool {
    let (bytes, needle) = haystack(val_bytes);
    let actual = search(&bytes, query);
    actual.len() >= 1 && actual.iter().any(|res| res.address == needle)
}

#[test]
fn finds_int() {
    let needle: i32 = 625;
    assert!(perform_search(&needle.to_ne_bytes(), "625"));
}

#[test]
fn finds_float() {
    let needle: f32 = 625.10001;
    assert!(perform_search(&needle.to_ne_bytes(), "=625.1"));
}

#[test]
fn finds_gt() {
    let needle: i64 = 625;
    assert!(perform_search(&needle.to_ne_bytes(), " > 500 "));
}

#[test]
fn no_find() {
    let needle: i32 = 625;
    assert!(!perform_search(&needle.to_ne_bytes(), "9999 "));
}

#[test]
fn no_find_gt() {
    let needle: i32 = 625;
    assert!(!perform_search(&needle.to_ne_bytes(), " > 625"));
}

fn buffer_with(at: usize, bytes: &[u8]) -> Vec<u8> {
    let mut mem = vec![0u8; 4096];
    mem[at..at + bytes.len()].copy_from_slice(bytes);
    mem
}

#[test]
fn found_int_has_type_and_bytes() {
    let mem = buffer_with(100, &625i32.to_ne_bytes());
    let hits = search(&mem, "625");
    let hit = hits
        .iter()
        .find(|r| r.address == 100 && r.data_type == DataType::FourBytes)
        .unwrap();
    assert_eq!(hit.value, 625i32.to_ne_bytes().to_vec());
}

#[test]
fn found_float_has_float_type() {
    let mem = buffer_with(200, &625.10001f32.to_ne_bytes());
    let hits = search(&mem, "=625.1");
    assert!(hits.iter().any(|r| r.address == 200 && r.data_type == DataType::Float));
    assert!(hits.iter().all(|r| r.data_type == DataType::Float || r.data_type == DataType::Double));
}

#[test]
fn found_i64_has_eight_byte_type() {
    let mem = buffer_with(264, &625i64.to_ne_bytes());
    let hits = search(&mem, " > 500 ");
    assert!(hits.iter().any(|r| r.address == 264 && r.data_type == DataType::EightBytes));
}

#[test]
fn page_base_offsets_addresses() {
    let mem = buffer_with(8, &77i32.to_ne_bytes());
    let node = parse("77").unwrap();
    let hits = node.scan_page(&mem, 0x1000, &None);
    assert!(hits.iter().any(|r| r.address == 0x1008 && r.data_type == DataType::FourBytes));
    assert!(hits.iter().all(|r| r.address >= 0x1000 && r.address + r.data_type.size_of() <= 0x1000 + 4096));
}

#[test]
fn trailing_bytes_are_ignored() {
    let mut mem = 5i32.to_ne_bytes().to_vec();
    mem.extend_from_slice(&[5, 0]);
    let hits = parse("5").unwrap().scan_page(&mem, 0, &None);
    assert_eq!(hits.len(), 1);
    assert_eq!(hits[0].address, 0);
    assert_eq!(hits[0].data_type, DataType::FourBytes);
}

#[test]
fn wide_slot_needs_eight_bytes() {
    let mem = 3i32.to_ne_bytes().repeat(3);
    let hits = parse("3").unwrap().scan_page(&mem, 0, &None);
    let fours: Vec<usize> = hits.iter().filter(|r| r.data_type == DataType::FourBytes).map(|r| r.address).collect();
    assert_eq!(fours, vec![0, 4, 8]);
    assert!(hits.iter().all(|r| r.data_type != DataType::EightBytes || r.address + 8 <= 12));
}

#[test]
fn empty_page_has_no_hits() {
    assert!(parse("0").unwrap().scan_page(&[], 0, &None).is_empty());
}

#[test]
fn results_in_address_then_shape_order() {
    let mem = vec![0u8; 16];
    let hits = search(&mem, "0");
    let order: Vec<(usize, DataType)> = hits.iter().map(|r| (r.address, r.data_type)).collect();
    assert_eq!(
        order,
        vec![
            (0, DataType::EightBytes),
            (0, DataType::FourBytes),
            (0, DataType::Double),
            (0, DataType::Float),
            (4, DataType::FourBytes),
            (4, DataType::Float),
            (8, DataType::EightBytes),
            (8, DataType::FourBytes),
            (8, DataType::Double),
            (8, DataType::Float),
            (12, DataType::FourBytes),
            (12, DataType::Float),
        ]
    );
}

#[test]
fn literal_narrowed_to_32_bits() {
    // 2^32 + 7 compares as 7 against 4-byte words
    let mem = buffer_with(16, &7i32.to_ne_bytes());
    let hits = parse("4294967303").unwrap().scan_page(&mem, 0, &None);
    assert!(hits.iter().any(|r| r.address == 16 && r.data_type == DataType::FourBytes));
    assert!(!hits.iter().any(|r| r.data_type == DataType::EightBytes));
}

#[test]
fn comparators_on_integers() {
    let mem = buffer_with(0, &10i32.to_ne_bytes());
    let at0 = |q: &str| parse(q).unwrap().scan_page(&mem[..4], 0, &None).len();
    assert_eq!(at0("10"), 1);
    assert_eq!(at0("=10"), 1);
    assert_eq!(at0("~10"), 1);
    assert_eq!(at0("!=10"), 0);
    assert_eq!(at0("!=11"), 1);
    assert_eq!(at0(">9"), 1);
    assert_eq!(at0(">10"), 0);
    assert_eq!(at0(">=10"), 1);
    assert_eq!(at0("<11"), 1);
    assert_eq!(at0("<10"), 0);
    assert_eq!(at0("<=10"), 1);
    assert_eq!(at0("> -3"), 1);
}

#[test]
fn float_tolerance_follows_precision() {
    let mem = 2.54f32.to_ne_bytes().to_vec();
    let count = |q: &str| search(&mem, q).iter().filter(|r| r.data_type == DataType::Float).count();
    assert_eq!(count("2.5"), 1);
    assert_eq!(count("2.54"), 1);
    assert_eq!(count("2.6"), 1);
    assert_eq!(count("2.7"), 0);
    assert_eq!(count("3"), 1);
    assert_eq!(count("4"), 0);
    assert_eq!(count("> 2.5"), 1);
    assert_eq!(count("< 2.5"), 0);
    assert_eq!(count("!= 2.6"), 0);
    assert_eq!(count("!= 2.7"), 1);
}

#[test]
fn nan_matches_no_float_comparison() {
    let mem = f32::NAN.to_ne_bytes().to_vec();
    for q in ["1", "> 1", "< 1", "=1", "!=1", ">=1", "<=1"] {
        assert!(search(&mem, q).iter().all(|r| r.data_type != DataType::Float), "{}", q);
    }
}

#[test]
fn zeros_of_both_signs_are_equal() {
    let mem = (-0.0f32).to_ne_bytes().to_vec();
    let hits = search(&mem, ">= 0");
    assert!(hits.iter().any(|r| r.data_type == DataType::Float));
}

#[test]
fn negative_floats_order() {
    let mem = (-3.5f32).to_ne_bytes().to_vec();
    let floats = |q: &str| search(&mem, q).iter().filter(|r| r.data_type == DataType::Float).count();
    assert_eq!(floats("< -3"), 1);
    assert_eq!(floats("> -4"), 1);
    assert_eq!(floats("> -3"), 0);
}

#[test]
fn test_single_checks_shape_and_length() {
    let node = parse("625").unwrap();
    assert!(node.test_single(&625i32.to_ne_bytes(), DataType::FourBytes, &None));
    assert!(node.test_single(&625i64.to_ne_bytes(), DataType::EightBytes, &None));
    assert!(!node.test_single(&625i64.to_ne_bytes(), DataType::FourBytes, &None));
    assert!(!node.test_single(&626i32.to_ne_bytes(), DataType::FourBytes, &None));
    let floats = float_bounds(&node);
    assert!(node.test_single(&625.0f32.to_ne_bytes(), DataType::Float, &floats));
    assert!(node.test_single(&625.0f64.to_ne_bytes(), DataType::Double, &floats));
    assert!(!node.test_single(&625.0f32.to_ne_bytes(), DataType::Float, &None));
}
