use hax::address::{parse_hex, Address, AddressGrid, UserAddress};
use hax::data_type::{all_data_types, DataType};
use hax::scanner::SearchResult;
use hax::words::{i32_bytes, i64_bytes, read_i32, read_i64, read_u32, read_u64};

#[test]
fn names_and_sizes() {
    let expect = [("4 bytes", 4), ("8 bytes", 8), ("Float", 4), ("Double", 8)];
    for (t, (name, size)) in all_data_types().iter().zip(expect) {
        assert_eq!(t.name(), name);
        assert_eq!(t.size_of(), size);
    }
    assert_eq!(DataType::default(), DataType::FourBytes);
}

#[test]
fn to_bytes_native_endian() {
    assert_eq!(DataType::FourBytes.to_bytes(&"625".to_string()).unwrap(), 625i32.to_ne_bytes().to_vec());
    assert_eq!(DataType::EightBytes.to_bytes(&"-2".to_string()).unwrap(), (-2i64).to_ne_bytes().to_vec());
}

#[test]
fn to_bytes_length_matches_size() {
    for s in ["0", "-1", "2147483647", "-2147483648", "+9"] {
        assert_eq!(DataType::FourBytes.to_bytes(&s.to_string()).unwrap().len(), 4);
        assert_eq!(DataType::EightBytes.to_bytes(&s.to_string()).unwrap().len(), 8);
    }
}

#[test]
fn to_bytes_rejects_bad_text() {
    assert!(DataType::FourBytes.to_bytes(&"2147483648".to_string()).is_err());
    assert!(DataType::EightBytes.to_bytes(&"2147483648".to_string()).is_ok());
    assert!(DataType::EightBytes.to_bytes(&"9223372036854775808".to_string()).is_err());
    for s in ["", "-", "+", "1.5", " 1", "1 ", "x", "1e3"] {
        assert!(DataType::FourBytes.to_bytes(&s.to_string()).is_err(), "{:?}", s);
    }
}

#[test]
fn round_trip_is_canonical() {
    let cases = [("42", "42"), ("+7", "7"), ("-0", "0"), ("007", "7"), ("-2147483648", "-2147483648")];
    for (input, text) in cases {
        let b = DataType::FourBytes.to_bytes(&input.to_string()).unwrap();
        assert_eq!(DataType::FourBytes.from_bytes(b), text);
    }
    let b = DataType::EightBytes.to_bytes(&"-9223372036854775808".to_string()).unwrap();
    assert_eq!(DataType::EightBytes.from_bytes(b), "-9223372036854775808");
}

#[test]
fn from_bytes_renders_decimal() {
    assert_eq!(DataType::FourBytes.from_bytes((-625i32).to_ne_bytes().to_vec()), "-625");
    assert_eq!(DataType::EightBytes.from_bytes(i64::MAX.to_ne_bytes().to_vec()), "9223372036854775807");
}

#[test]
fn words_read_native_order() {
    let b = 0x0102_0304u32.to_ne_bytes();
    assert_eq!(read_u32(&b, 0), 0x0102_0304);
    assert_eq!(read_i32(&(-7i32).to_ne_bytes(), 0), -7);
    let w = 0x0102_0304_0506_0708u64.to_ne_bytes();
    assert_eq!(read_u64(&w, 0), 0x0102_0304_0506_0708);
    assert_eq!(read_i64(&i64::MIN.to_ne_bytes(), 0), i64::MIN);
    assert_eq!(i32_bytes(-7), (-7i32).to_ne_bytes().to_vec());
    assert_eq!(i64_bytes(1 << 40), (1i64 << 40).to_ne_bytes().to_vec());
}

#[test]
fn value_to_string_of_result() {
    let r = SearchResult { address: 16, data_type: DataType::EightBytes, value: 99i64.to_ne_bytes().to_vec() };
    assert_eq!(r.value_to_string(), "99");
}

#[test]
fn hex_addresses() {
    assert_eq!(parse_hex("7ff6a000"), Some(0x7ff6_a000));
    assert_eq!(parse_hex("DEADbeef"), Some(0xdead_beef));
    assert_eq!(parse_hex("+10"), Some(16));
    assert_eq!(parse_hex(""), None);
    assert_eq!(parse_hex("+"), None);
    assert_eq!(parse_hex("-1"), None);
    assert_eq!(parse_hex("12g"), None);
    assert_eq!(parse_hex("10000000000000000"), None);
    assert_eq!(parse_hex("ffffffffffffffff"), Some(usize::MAX));
}

#[test]
fn address_from_text_and_number() {
    assert_eq!(Address::from("1f".to_string()).address, 0x1f);
    assert_eq!(Address::from("zz".to_string()).address, 0);
    let a = Address::from(42usize);
    assert_eq!(a.address, 42);
    assert_eq!(a.data_type, DataType::FourBytes);
}

#[test]
fn address_rows() {
    let mut grid = AddressGrid::new();
    grid.add_row();
    grid.add_row();
    grid.add_row();
    assert_eq!(grid.addresses.iter().map(|a| a.id).collect::<Vec<_>>(), vec![0, 1, 2]);
    grid.remove_row(1);
    grid.remove_row(9);
    assert_eq!(grid.addresses.iter().map(|a| a.id).collect::<Vec<_>>(), vec![0, 2]);
    grid.add_row();
    assert_eq!(grid.addresses.last().unwrap().id, 3);
    let mut row = UserAddress::new(5);
    assert_eq!(row.target(), None);
    row.address = "ff".to_string();
    assert_eq!(row.target(), Some(255));
}
