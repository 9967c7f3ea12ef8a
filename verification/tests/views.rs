use malebolge::assembly::{AssemblyRow, AssemblyView};
use malebolge::dump::{DumpArgs, DumpArgsColumn};
use malebolge::output::{room_of, Output};
use malebolge::project::{DataView, DataViewType};
use malebolge::table::{BreakpointEntry, BreakpointList};
use malebolge::text::parse_hex;
use malebolge::window::GoToAddressWindow;

fn assembly(address: u64, range: std::ops::Range<usize>) -> AssemblyView {
    AssemblyView::new(64, address, DataView { type_: DataViewType::Assembly, range })
}

#[test]
fn assembly_rows_are_loaded_one_by_one() {
    // two bytes of padding, then: je +3, filler, mov eax, 1; jmp -7; ret
    let data = [0, 0, 0x74, 0x03, 0x90, 0x90, 0x90, 0xB8, 0x01, 0x00, 0x00, 0x00, 0xEB, 0xF9, 0xC3];
    let mut view = assembly(0x1000, 2..15);
    assert_eq!(view.title(), "Assembly (0000000000001000)");
    assert_eq!(view.len(), 0);
    assert_eq!(view.last_address(), Some(0x1000));
    assert!(view.row(0).is_none());
    assert!(view.load_row(&data));
    assert_eq!(
        view.row(0),
        Some(&AssemblyRow {
            address: 0x1005,
            bytes: "B8 01 00 00 00".to_string(),
            mnemonic: "mov".to_string(),
            operands: "eax,1".to_string(),
            target: None,
        })
    );
    assert_eq!(view.last_address(), Some(0x100A));
    assert!(view.load_row(&data));
    let jump = view.row(1).unwrap();
    assert_eq!(jump.address, 0x100A);
    assert_eq!(jump.bytes, "EB F9");
    assert_eq!(jump.mnemonic, "jmp");
    assert_eq!(jump.target, Some(0x1005));
    assert!(view.load_row(&data));
    assert_eq!(view.row(2).unwrap().mnemonic, "ret");
    assert_eq!(view.row(2).unwrap().operands, "");
    assert!(!view.load_row(&data));
    assert_eq!(view.len(), 3);
    assert_eq!(view.last_address(), Some(0x100D));
}

#[test]
fn assembly_view_finds_rows_and_misaligned_targets() {
    // mov eax, 1; jmp into the middle of the mov; ret
    let data = [0xB8, 0x01, 0x00, 0x00, 0x00, 0xEB, 0xFA, 0xC3];
    let mut view = assembly(0x2000, 0..8);
    while view.load_row(&data) {}
    assert_eq!(view.len(), 3);
    assert_eq!(view.row(1).unwrap().target, Some(0x2001));
    assert_eq!(view.row_of(0x2000), Some(0));
    assert_eq!(view.row_of(0x2005), Some(1));
    assert_eq!(view.row_of(0x2007), Some(2));
    assert_eq!(view.row_of(0x2001), None);
    assert!(view.is_misaligned(0x2001));
    assert!(view.is_misaligned(0x2006));
    assert!(!view.is_misaligned(0x2000));
    assert!(!view.is_misaligned(0x2005));
    assert!(!view.is_misaligned(0x2008));
    assert!(!view.is_misaligned(0x1FFF));
    assert_eq!(view.select(0x2005), None);
    assert_eq!(view.take_scroll(), Some(1));
    assert_eq!(view.take_scroll(), None);
    assert_eq!(view.select(0x3000), Some(0x3000));
    assert_eq!(view.take_scroll(), None);
}

#[test]
fn assembly_view_refuses_code_it_does_not_have() {
    let data = [0x90, 0x90];
    let mut beyond = assembly(0, 0..3);
    assert!(!beyond.load_row(&data));
    let mut backwards = assembly(0, 2..1);
    assert!(!backwards.load_row(&data));
    let mut unaddressable = assembly(u64::MAX, 0..2);
    assert!(!unaddressable.load_row(&data));
    assert_eq!(unaddressable.len(), 0);
    let mut empty = assembly(0, 1..1);
    assert!(!empty.load_row(&data));
}

#[test]
fn hexadecimal_numbers_are_read() {
    assert_eq!(parse_hex("0"), Some(0));
    assert_eq!(parse_hex("7fF6"), Some(0x7FF6));
    assert_eq!(parse_hex("0000000140001000"), Some(0x1_4000_1000));
    assert_eq!(parse_hex("FFFFFFFFFFFFFFFF"), Some(u64::MAX));
    assert_eq!(parse_hex("10000000000000000"), None);
    assert_eq!(parse_hex("00000000000000000FF"), Some(0xFF));
    assert_eq!(parse_hex(""), None);
    assert_eq!(parse_hex("0x10"), None);
    assert_eq!(parse_hex("12g"), None);
    assert_eq!(parse_hex(" 12"), None);
}

#[test]
fn go_to_address_window() {
    let mut window = GoToAddressWindow::new();
    assert!(window.open());
    assert_eq!(window.address(), "");
    assert_eq!(window.go(), None);
    assert!(window.open());
    window.set_address("zz".to_string());
    assert_eq!(window.go(), None);
    assert!(window.open());
    window.set_address("140001000".to_string());
    assert_eq!(window.go(), Some(0x1_4000_1000));
    assert!(!window.open());
    assert_eq!(window.address(), "140001000");
    let mut cancelled = GoToAddressWindow::default();
    cancelled.set_address("10".to_string());
    cancelled.cancel();
    assert!(!cancelled.open());
    assert_eq!(cancelled.address(), "10");
}

fn strings(cells: &[&str]) -> Vec<String> {
    cells.iter().map(|c| c.to_string()).collect()
}

#[test]
fn escape_sequences_take_no_room() {
    assert_eq!(room_of("abc"), 3);
    assert_eq!(room_of(""), 0);
    assert_eq!(room_of("\x1B[31mred\x1B[0m"), 3);
    assert_eq!(room_of("\x1B[1;91mmov\x1B[0m eax"), 7);
}

#[test]
fn plain_table() {
    let lines = Output::Normal.render_table(
        &strings(&["IDX", "VA", "RAW"]),
        &vec![strings(&["0", "1000", "55"]), strings(&["1", "1001", "48 89 E5"]), strings(&["22"])],
    );
    assert_eq!(lines, vec!["IDX VA   RAW     ", "0   1000 55      ", "1   1001 48 89 E5", "22 "]);
}

#[test]
fn framed_table() {
    let lines = Output::Pretty.render_table(
        &strings(&["IDX", "ASM"]),
        &vec![strings(&["0", "\x1B[91mpush\x1B[0m rbp"]), strings(&["1", "ret"])],
    );
    assert_eq!(
        lines,
        vec![
            "╔ IDX ╤══ ASM ═══╗",
            "║ 0   │ \x1B[91mpush\x1B[0m rbp ║",
            "║ 1   │ ret      ║",
            "╚ IDX ╧══ ASM ═══╝",
        ]
    );
}

#[test]
fn table_edges() {
    assert_eq!(Output::Normal.render_table(&vec![], &vec![]), vec![""]);
    assert_eq!(Output::Pretty.render_table(&vec![], &vec![]), vec!["╔╗", "╚╝"]);
    assert_eq!(Output::Pretty.render_table(&strings(&["A"]), &vec![vec![]]), vec!["╔ A ╗", "║  ║", "╚ A ╝"]);
    // a cell without a column is left out
    assert_eq!(
        Output::Normal.render_table(&strings(&["A"]), &vec![strings(&["1", "2"])]),
        vec!["A", "1"]
    );
    assert_eq!(Output::widths(&strings(&["AB", "C"]), &vec![strings(&["1", "234"])]), vec![2, 3]);
    // a name narrower than its cells is centered, the odd space to the right
    assert_eq!(
        Output::Pretty.render_table(&strings(&["A"]), &vec![strings(&["1234"])]),
        vec!["╔═ A ══╗", "║ 1234 ║", "╚═ A ══╝"]
    );
}

#[test]
fn entries_are_written_and_read_back() {
    let entry = BreakpointEntry { address: 0x1122_3344_5566_7788, triggered: true };
    assert_eq!(
        entry.encode(),
        vec![0x88, 0x77, 0x66, 0x55, 0x44, 0x33, 0x22, 0x11, 1, 0, 0, 0, 0, 0, 0, 0]
    );
    assert_eq!(BreakpointEntry::decode(&entry.encode()), Some(entry));
    let armed = BreakpointEntry { address: 0x1000, triggered: false };
    assert_eq!(BreakpointEntry::decode(&armed.encode()), Some(armed));
    assert_eq!(BreakpointEntry::default().encode(), vec![0u8; 16]);
    assert_eq!(BreakpointEntry::decode(&[0u8; 15]), None);
    let mut long = armed.encode();
    long[8] = 0x80;
    long.push(9);
    assert_eq!(BreakpointEntry::decode(&long), Some(BreakpointEntry { address: 0x1000, triggered: true }));
}

#[test]
fn table_from_entries() {
    let mut entries = vec![BreakpointEntry::default(); 256];
    entries[3] = BreakpointEntry { address: 0x10, triggered: true };
    let mut table = BreakpointList::from_entries(5, 6, entries.clone()).unwrap();
    assert_eq!(table.trigger_event(), 5);
    assert_eq!(table.resolve_event(), 6);
    assert_eq!(table.entries(), entries.as_slice());
    assert_eq!(table.poll_hits(), vec![0x10]);
    assert!(BreakpointList::from_entries(0, 0, vec![BreakpointEntry::default(); 255]).is_none());
    assert!(BreakpointList::from_entries(0, 0, vec![BreakpointEntry::default(); 257]).is_none());
    entries[4] = BreakpointEntry { address: 0, triggered: true };
    assert!(BreakpointList::from_entries(0, 0, entries).is_none());
}

#[test]
fn dump_headings() {
    let args = DumpArgs {
        count: 1,
        format: vec![
            DumpArgsColumn::Idx,
            DumpArgsColumn::Off,
            DumpArgsColumn::Va,
            DumpArgsColumn::Raw,
            DumpArgsColumn::Asm,
        ],
    };
    assert_eq!(args.headings(), vec!["IDX", "OFF", "VA", "RAW", "ASM"]);
    assert!(args.assembly());
    assert!(!DumpArgs { count: 1, format: vec![DumpArgsColumn::Raw] }.assembly());
    assert!(!DumpArgs { count: 1, format: vec![] }.assembly());
    assert_eq!(DumpArgs { count: 1, format: vec![] }.headings(), Vec::<String>::new());
}

#[test]
fn raw_dump() {
    let data: Vec<u8> = (0..40).collect();
    let args = DumpArgs {
        count: 10,
        format: vec![DumpArgsColumn::Idx, DumpArgsColumn::Off, DumpArgsColumn::Va, DumpArgsColumn::Raw],
    };
    assert_eq!(
        args.rows(&data, 0x100A),
        vec![
            strings(&["0", "0", "1000", "                              00 01 02 03 04 05"]),
            strings(&["1", "10", "1010", "06 07 08 09 0A 0B 0C 0D 0E 0F 10 11 12 13 14 15"]),
            strings(&["2", "20", "1020", "16 17 18 19 1A 1B 1C 1D 1E 1F 20 21 22 23 24 25"]),
            strings(&["3", "30", "1030", "26 27"]),
        ]
    );
    let few = DumpArgs { count: 2, format: vec![DumpArgsColumn::Va] };
    assert_eq!(few.rows(&data, 0x100A), vec![strings(&["1000"]), strings(&["1010"])]);
    let none = DumpArgs { count: 0, format: vec![DumpArgsColumn::Va] };
    assert_eq!(none.rows(&data, 0x100A), Vec::<Vec<String>>::new());
    assert_eq!(few.rows(&[], 0x1000), Vec::<Vec<String>>::new());
    let bare = DumpArgs { count: 2, format: vec![] };
    assert_eq!(bare.rows(&data, 0), vec![Vec::<String>::new(), Vec::<String>::new()]);
}

#[test]
fn assembly_dump() {
    // push rbp; je +3 over filler; mov eax, 1; ret
    let data = [0x55, 0x74, 0x03, 0x90, 0x90, 0x90, 0xB8, 0x01, 0x00, 0x00, 0x00, 0xC3];
    let args = DumpArgs {
        count: 1,
        format: vec![
            DumpArgsColumn::Idx,
            DumpArgsColumn::Off,
            DumpArgsColumn::Va,
            DumpArgsColumn::Raw,
            DumpArgsColumn::Asm,
        ],
    };
    assert_eq!(
        args.rows(&data, 0x1_4000_1000),
        vec![
            strings(&["0", "0", "0000000140001000", "55", "push rbp"]),
            strings(&["1", "6", "0000000140001006", "B8 01 00 00 00", "mov eax,1"]),
            strings(&["2", "B", "000000014000100B", "C3", "ret"]),
        ]
    );
    assert_eq!(args.rows(&[], 0), Vec::<Vec<String>>::new());
    let only = DumpArgs { count: 0, format: vec![DumpArgsColumn::Asm] };
    assert_eq!(only.rows(&data[11..], 0), vec![strings(&["ret"])]);
}
