use malebolge::address::Address;
use malebolge::label::LabelView;
use malebolge::location::{Location, LocationType, LocationView};
use malebolge::module::Module;
use malebolge::project::{DataView, DataViewType, Label};
use malebolge::raw::RawView;
use malebolge::text::{
    digit, find_char, has_prefix, parse_decimal, part, push_bytes, push_decimal, push_hex, push_hex_plain,
    push_repeated, push_text, same_text,
};

#[test]
fn digits() {
    assert_eq!(digit(0), '0');
    assert_eq!(digit(9), '9');
    assert_eq!(digit(10), 'A');
    assert_eq!(digit(15), 'F');
}

#[test]
fn numbers_are_written() {
    let mut text = String::from("x");
    push_decimal(&mut text, 0);
    push_text(&mut text, ",");
    push_decimal(&mut text, 1234567890);
    push_text(&mut text, ",");
    push_decimal(&mut text, usize::MAX);
    assert_eq!(text, format!("x0,1234567890,{}", usize::MAX));
    let mut hex = String::new();
    push_hex(&mut hex, 0x1A2B, 8);
    push_repeated(&mut hex, '-', 2);
    push_hex(&mut hex, 0x1A2B, 2);
    push_repeated(&mut hex, '-', 0);
    push_hex(&mut hex, u64::MAX, 16);
    push_hex(&mut hex, 5, 0);
    assert_eq!(hex, "00001A2B--2BFFFFFFFFFFFFFFFF");
    let mut plain = String::new();
    push_hex_plain(&mut plain, 0);
    push_hex_plain(&mut plain, 0xABCDEF);
    push_hex_plain(&mut plain, 0x10);
    assert_eq!(plain, "0ABCDEF10");
}

#[test]
fn bytes_are_written_as_characters() {
    let mut text = String::from(">");
    push_bytes(&mut text, b"alpha_1");
    push_bytes(&mut text, &[]);
    push_bytes(&mut text, &[0x00, 0x7F, 0x80, 0xE9, 0xFF]);
    assert_eq!(text, ">alpha_1\u{0}\u{7f}\u{80}\u{e9}\u{ff}");
}

#[test]
fn texts_are_compared_and_searched() {
    assert!(same_text("abc", "abc"));
    assert!(!same_text("abc", "abd"));
    assert!(!same_text("abc", "ab"));
    assert!(same_text("", ""));
    assert!(has_prefix("tls_callback_1", "tls_callback_"));
    assert!(has_prefix("abc", ""));
    assert!(!has_prefix("ab", "abc"));
    assert!(!has_prefix("xbc", "ab"));
    assert_eq!(find_char("a:b:c", ':'), 1);
    assert_eq!(find_char("abc", ':'), 3);
    assert_eq!(find_char("", ':'), 0);
    assert_eq!(part("hello", 1, 3), "el");
    assert_eq!(part("hello", 5, 5), "");
}

#[test]
fn decimal_numbers_are_read() {
    assert_eq!(parse_decimal("abc123", 3), Some(123));
    assert_eq!(parse_decimal("0", 0), Some(0));
    assert_eq!(parse_decimal("007", 0), Some(7));
    assert_eq!(parse_decimal("", 0), None);
    assert_eq!(parse_decimal("12", 2), None);
    assert_eq!(parse_decimal("12a", 0), None);
    assert_eq!(parse_decimal("-1", 0), None);
    assert_eq!(parse_decimal("+1", 0), None);
    let max = format!("{}", usize::MAX);
    assert_eq!(parse_decimal(&max, 0), Some(usize::MAX));
    assert_eq!(parse_decimal(&format!("{}0", max), 0), None);
    assert_eq!(parse_decimal("18446744073709551616", 0), None);
}

#[test]
fn addresses_are_taken_apart() {
    assert_eq!(
        Address::parse("kernel32:entry_point+16"),
        Some(Address::new(Some("kernel32".to_string()), Some("entry_point".to_string()), 16))
    );
    assert_eq!(Address::parse("entry_point"), Some(Address::new(None, Some("entry_point".to_string()), 0)));
    assert_eq!(Address::parse(":tls_callback_0"), Some(Address::new(None, Some("tls_callback_0".to_string()), 0)));
    assert_eq!(Address::parse("+32"), Some(Address::new(None, None, 32)));
    assert_eq!(Address::parse(""), Some(Address::new(None, None, 0)));
    assert_eq!(Address::parse("mod:"), Some(Address::new(Some("mod".to_string()), None, 0)));
    assert_eq!(Address::parse("mod:+4"), Some(Address::new(Some("mod".to_string()), None, 4)));
    assert_eq!(Address::parse("a:b:c+1"), Some(Address::new(Some("a".to_string()), Some("b:c".to_string()), 1)));
    assert_eq!(Address::parse("a+b:c"), Some(Address::new(Some("a+b".to_string()), Some("c".to_string()), 0)));
    assert_eq!(Address::parse("sym+"), None);
    assert_eq!(Address::parse("sym+x"), None);
    assert_eq!(Address::parse("sym+1+2"), None);
    assert_eq!(Address::parse("sym+99999999999999999999999"), None);
    assert_eq!(Address::parse("kernel32:x").unwrap().module(), Some("kernel32"));
    assert_eq!(Address::parse("x").unwrap().module(), None);
}

#[test]
fn addresses_without_symbol_start_at_the_base() {
    let module = Module::new("m".to_string(), 0x1000, 0x100);
    assert_eq!(Address::parse("+16").unwrap().to_raw(&module, &[]), Some(0x1010));
    assert_eq!(Address::parse("m:").unwrap().to_raw(&module, &[]), Some(0x1000));
    assert_eq!(Address::parse("entry_point").unwrap().to_raw(&module, &[]), None);
    let high = Module::new("m".to_string(), u64::MAX, 0);
    assert_eq!(Address::parse("+0").unwrap().to_raw(&high, &[]), Some(u64::MAX));
    assert_eq!(Address::parse("+1").unwrap().to_raw(&high, &[]), None);
}

#[test]
fn location_rows() {
    let location = Location::new(0x1_4000_1000, LocationType::Export, "alpha".to_string());
    assert_eq!(location.address(), 0x1_4000_1000);
    assert_eq!(location.kind(), LocationType::Export);
    assert_eq!(location.name(), "alpha");
    assert_eq!(
        location.row(),
        ("0000000140001000".to_string(), "Export".to_string(), "alpha".to_string())
    );
    assert_eq!(LocationType::EntryPoint.text(), "Entry point");
    assert_eq!(LocationType::TlsCallback.text(), "TLS callback");
    let view = LocationView::new(vec![
        Location::new(0x10, LocationType::EntryPoint, String::new()),
        location.clone(),
    ]);
    assert_eq!(view.title(), "Locations");
    assert_eq!(view.len(), 2);
    assert_eq!(
        view.row(0),
        Some(("0000000000000010".to_string(), "Entry point".to_string(), String::new()))
    );
    assert_eq!(view.row(1), Some(location.row()));
    assert_eq!(view.row(2), None);
    assert_eq!(view.address_at(1), Some(0x1_4000_1000));
    assert_eq!(view.address_at(2), None);
}

#[test]
fn locations_of_labels() {
    let export = Label::Export { ordinal: 3, name: "beta".to_string() };
    assert_eq!(
        Location::of_label(0x1000, 0x20, &export),
        Location::new(0x1020, LocationType::Export, "beta".to_string())
    );
    assert_eq!(
        Location::of_label(0x1000, 0x20, &Label::EntryPoint),
        Location::new(0x1020, LocationType::EntryPoint, String::new())
    );
    assert_eq!(
        Location::of_label(u64::MAX, 2, &Label::TlsCallback { ordinal: 0 }),
        Location::new(1, LocationType::TlsCallback, String::new())
    );
}

#[test]
fn label_rows() {
    let view = LabelView;
    assert_eq!(view.title(), "Labels");
    assert_eq!(
        view.row(0x1030, &Label::Export { ordinal: 1, name: "alpha".to_string() }),
        ("0000000000001030".to_string(), "Export".to_string(), "alpha".to_string())
    );
    assert_eq!(
        view.row(0x1000, &Label::EntryPoint),
        ("0000000000001000".to_string(), "Entry point".to_string(), String::new())
    );
    assert_eq!(
        view.row(u64::MAX, &Label::TlsCallback { ordinal: 7 }),
        ("FFFFFFFFFFFFFFFF".to_string(), "TLS callback".to_string(), String::new())
    );
    assert_eq!(view.address_text(0x1_4000_0000, 0x1030), "0000000140001030");
}

fn raw(rva: u64, range: std::ops::Range<usize>) -> RawView {
    RawView::new(rva, DataView { type_: DataViewType::Raw, range })
}

#[test]
fn raw_view_rows() {
    let data: Vec<u8> = (0..64).collect();
    // twenty bytes from 0x1005 on: two rows
    let view = raw(0x1005, 4..24);
    assert_eq!(view.title(), "Raw (0000000000001005)");
    assert_eq!(view.len(), 20);
    assert_eq!(view.rows(), 2);
    assert_eq!(view.row_address(0), Some(0x1000));
    assert_eq!(view.row_address(1), Some(0x1010));
    assert_eq!(view.row_address(2), None);
    assert_eq!(view.row_span(&data, 0), Some((4, 15)));
    assert_eq!(view.row_span(&data, 1), Some((15, 24)));
    assert_eq!(view.row_span(&data, 2), None);
    assert_eq!(
        view.row_hex(&data, 0),
        Some("               04 05 06 07 08 09 0A 0B 0C 0D 0E".to_string())
    );
    assert_eq!(view.row_hex(&data, 1), Some("0F 10 11 12 13 14 15 16 17".to_string()));
    assert_eq!(view.row_hex(&data, 2), None);
}

#[test]
fn raw_view_aligned() {
    let data: Vec<u8> = (0x30..0x60).collect();
    let view = raw(0x2000, 0..32);
    assert_eq!(view.rows(), 2);
    assert_eq!(view.row_span(&data, 0), Some((0, 16)));
    assert_eq!(view.row_span(&data, 1), Some((16, 32)));
    assert_eq!(view.row_text(&data, 0), Some("0123456789:;<=>?".to_string()));
    assert_eq!(view.row_text(&data, 1), Some("@ABCDEFGHIJKLMNO".to_string()));
    assert_eq!(
        view.row_hex(&data, 0),
        Some("30 31 32 33 34 35 36 37 38 39 3A 3B 3C 3D 3E 3F".to_string())
    );
}

#[test]
fn raw_view_text() {
    let data = [0x00, 0x1F, 0x20, 0x41, 0x7E, 0x7F, 0x80, 0xFF];
    let view = raw(0x0E, 0..8);
    assert_eq!(view.rows(), 2);
    assert_eq!(view.row_text(&data, 0), Some("              ..".to_string()));
    assert_eq!(view.row_text(&data, 1), Some(" A~\u{7f}..".to_string()));
    assert_eq!(view.row_hex(&data, 1), Some("20 41 7E 7F 80 FF".to_string()));
}

#[test]
fn raw_view_edges() {
    let data = [1u8, 2, 3];
    let empty = raw(0x10, 2..2);
    assert_eq!(empty.len(), 0);
    assert_eq!(empty.rows(), 0);
    assert_eq!(empty.row_span(&data, 0), None);
    let backwards = raw(0x10, 3..1);
    assert_eq!(backwards.len(), 0);
    assert_eq!(backwards.rows(), 0);
    let beyond = raw(0x10, 1..4);
    assert_eq!(beyond.rows(), 1);
    assert_eq!(beyond.row_span(&data, 0), None);
    assert_eq!(beyond.row_hex(&data, 0), None);
    assert_eq!(beyond.row_text(&data, 0), None);
    // an indent alone makes a row, as the rows are counted from the aligned address
    let indented = raw(0x1F, 0..0);
    assert_eq!(indented.rows(), 1);
    assert_eq!(indented.row_span(&data, 0), Some((0, 0)));
    let high = raw(u64::MAX, 0..3);
    assert_eq!(high.rows(), 2);
    assert_eq!(high.row_address(0), Some(0xFFFF_FFFF_FFFF_FFF0));
    assert_eq!(high.row_address(1), None);
}
