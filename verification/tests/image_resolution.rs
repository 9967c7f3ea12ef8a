use malebolge::image::{find_data, find_section, Image, ImageError, SectionHeader, MACHINE_AMD64, MACHINE_I386};
use malebolge::module::Module;
use malebolge::project::{DataViewType, Label, Project};

const BASE: u64 = 0x1_4000_0000;

fn put16(image: &mut [u8], at: usize, value: u16) {
    image[at..at + 2].copy_from_slice(&value.to_le_bytes());
}

fn put32(image: &mut [u8], at: usize, value: u32) {
    image[at..at + 4].copy_from_slice(&value.to_le_bytes());
}

fn put64(image: &mut [u8], at: usize, value: u64) {
    image[at..at + 8].copy_from_slice(&value.to_le_bytes());
}

fn section(image: &mut [u8], at: usize, name: &[u8], rva: u32, raw: u32, size: u32, characteristics: u32) {
    image[at..at + name.len()].copy_from_slice(name);
    put32(image, at + 8, size);
    put32(image, at + 12, rva);
    put32(image, at + 16, size);
    put32(image, at + 20, raw);
    put32(image, at + 36, characteristics);
}

/// A small PE32+ image: code at 0x1000, data at 0x2000 with a
/// thread-local-storage directory, its callback array and an export table.
fn sample(machine: u16, entry: u32, callbacks: &[u64], terminated: bool) -> Vec<u8> {
    let mut image = vec![0u8; 0x800];
    image[0] = b'M';
    image[1] = b'Z';
    put32(&mut image, 0x3C, 0x40);
    image[0x40..0x44].copy_from_slice(b"PE\0\0");
    put16(&mut image, 0x44, machine);
    put16(&mut image, 0x46, 2);
    put16(&mut image, 0x54, 112 + 16 * 8);
    let optional = 0x58;
    put16(&mut image, optional, 0x20B);
    put32(&mut image, optional + 16, entry);
    put64(&mut image, optional + 24, BASE);
    put32(&mut image, optional + 32, 0x1000);
    put32(&mut image, optional + 36, 0x200);
    put32(&mut image, optional + 56, 0x3000);
    put32(&mut image, optional + 60, 0x400);
    put32(&mut image, optional + 108, 16);
    let directories = optional + 112;
    // export directory
    put32(&mut image, directories, 0x2040);
    put32(&mut image, directories + 4, 0x140);
    // thread-local-storage directory
    put32(&mut image, directories + 9 * 8, 0x2000);
    put32(&mut image, directories + 9 * 8 + 4, 40);
    let sections = directories + 16 * 8;
    section(&mut image, sections, b".text", 0x1000, 0x400, 0x200, 0x6000_0020);
    section(&mut image, sections + 40, b".rdata", 0x2000, 0x600, 0x200, 0x4000_0040);
    // code
    image[0x400] = 0xC3;
    // thread-local-storage directory at 0x2000, callback array at 0x2100
    put64(&mut image, 0x600 + 24, BASE + 0x2100);
    let mut at = 0x700;
    for callback in callbacks {
        put64(&mut image, at, *callback);
        at += 8;
    }
    if !terminated {
        for byte in image[at..].iter_mut() {
            *byte = 0xFF;
        }
    }
    // export directory at 0x2040: two addresses, one name
    let exports = 0x640;
    put32(&mut image, exports + 16, 1);
    put32(&mut image, exports + 20, 2);
    put32(&mut image, exports + 24, 1);
    put32(&mut image, exports + 28, 0x2080);
    put32(&mut image, exports + 32, 0x2090);
    put32(&mut image, exports + 36, 0x20A0);
    put32(&mut image, 0x680, 0x1030);
    put32(&mut image, 0x684, 0x20C0);
    put32(&mut image, 0x690, 0x20B0);
    put16(&mut image, 0x6A0, 0);
    image[0x6B0..0x6B6].copy_from_slice(b"alpha\0");
    image[0x6C0..0x6CB].copy_from_slice(b"other.beta\0");
    image
}

fn plain() -> Vec<u8> {
    sample(MACHINE_AMD64, 0x1000, &[BASE + 0x1010, BASE + 0x1020], true)
}

#[test]
fn headers_and_sections_are_read() {
    let data = plain();
    let image = Image::parse(&data).unwrap();
    assert_eq!(image.headers.machine, MACHINE_AMD64);
    assert_eq!(image.headers.image_base, BASE);
    assert_eq!(image.headers.entry_point, 0x1000);
    assert_eq!(image.headers.size_of_image, 0x3000);
    assert_eq!(image.bitness(), 64);
    assert_eq!(
        image.sections,
        vec![
            SectionHeader {
                virtual_address: 0x1000,
                virtual_size: 0x200,
                pointer_to_raw_data: 0x400,
                size_of_raw_data: 0x200,
                characteristics: 0x6000_0020,
            },
            SectionHeader {
                virtual_address: 0x2000,
                virtual_size: 0x200,
                pointer_to_raw_data: 0x600,
                size_of_raw_data: 0x200,
                characteristics: 0x4000_0040,
            },
        ]
    );
}

#[test]
fn garbage_is_malformed() {
    assert_eq!(Image::parse(&[]).err(), Some(ImageError::Malformed));
    assert_eq!(Image::parse(b"MZ").err(), Some(ImageError::Malformed));
    assert_eq!(Image::parse(&[0x7F, b'E', b'L', b'F', 0, 0, 0, 0]).err(), Some(ImageError::Malformed));
    assert_eq!(Project::new(vec![0u8; 64]).err(), Some(ImageError::Malformed));
    let mut data = plain();
    // a PE32 optional header is not read as PE32+
    put16(&mut data, 0x58, 0x10B);
    assert_eq!(Image::parse(&data).err(), Some(ImageError::Malformed));
}

#[test]
fn other_machines_are_unsupported() {
    let data = sample(0xAA64, 0x1000, &[], true);
    assert_eq!(Image::parse(&data).err(), Some(ImageError::UnsupportedImage));
    assert_eq!(Project::new(data.clone()).err(), Some(ImageError::UnsupportedImage));
    assert_eq!(Module::open("a".to_string(), 0, &data).err(), Some(ImageError::UnsupportedImage));
    assert!(Module::new("a".to_string(), 0, 0).symbols(&data).is_err());
    assert_eq!(Module::new("a".to_string(), 0, 0).symbol(&data, "entry_point"), None);
}

#[test]
fn x86_machine_is_supported() {
    let data = sample(MACHINE_I386, 0x1000, &[], true);
    assert_eq!(Image::parse(&data).unwrap().bitness(), 32);
}

#[test]
fn project_labels() {
    let project = Project::new(plain()).unwrap();
    assert_eq!(project.base(), BASE);
    assert_eq!(project.data().len(), 0x800);
    assert_eq!(project.bitness(), 64);
    let labels: Vec<(u64, Label)> = project.label_by_rva.iter().map(|(k, v)| (*k, v.clone())).collect();
    assert_eq!(
        labels,
        vec![
            (0x1000, Label::EntryPoint),
            (0x1010, Label::TlsCallback { ordinal: 0 }),
            (0x1020, Label::TlsCallback { ordinal: 1 }),
            (0x1030, Label::Export { ordinal: 1, name: "alpha".to_string() }),
        ]
    );
    assert_eq!(project.labels().len(), 4);
    assert_eq!(labels[0].1.text(), "Entry point");
    assert_eq!(labels[1].1.text(), "TLS callback");
    assert_eq!(labels[3].1.text(), "alpha");
}

#[test]
fn export_names_are_taken_byte_by_byte() {
    let mut data = plain();
    data[0x6B0..0x6B6].copy_from_slice(&[b'a', 0xE9, b'b', 0xFF, b'c', 0]);
    let project = Project::new(data).unwrap();
    assert_eq!(
        project.label_by_rva.get(&0x1030),
        Some(&Label::Export { ordinal: 1, name: "a\u{e9}b\u{ff}c".to_string() })
    );
}

#[test]
fn unnamed_export_has_an_empty_name() {
    let mut data = plain();
    // no names at all
    put32(&mut data, 0x640 + 24, 0);
    put32(&mut data, 0x640 + 32, 0);
    put32(&mut data, 0x640 + 36, 0);
    let project = Project::new(data).unwrap();
    assert_eq!(project.label_by_rva.get(&0x1030), Some(&Label::Export { ordinal: 1, name: String::new() }));
}

#[test]
fn zero_entry_point_has_no_label() {
    let project = Project::new(sample(MACHINE_AMD64, 0, &[], true)).unwrap();
    let keys: Vec<u64> = project.label_by_rva.keys().copied().collect();
    assert_eq!(keys, vec![0x1030]);
}

#[test]
fn later_labels_replace_earlier_ones() {
    // a callback at the entry point, and one at the export
    let project = Project::new(sample(MACHINE_AMD64, 0x1000, &[BASE + 0x1000, BASE + 0x1030], true)).unwrap();
    assert_eq!(project.label_by_rva.get(&0x1000), Some(&Label::TlsCallback { ordinal: 0 }));
    assert_eq!(project.label_by_rva.get(&0x1030), Some(&Label::TlsCallback { ordinal: 1 }));
    assert_eq!(project.label_by_rva.len(), 2);
}

#[test]
fn callback_below_the_base_wraps() {
    let project = Project::new(sample(MACHINE_AMD64, 0, &[BASE - 1], true)).unwrap();
    assert_eq!(project.label_by_rva.get(&u64::MAX), Some(&Label::TlsCallback { ordinal: 0 }));
}

#[test]
fn unterminated_callbacks_are_malformed() {
    let data = sample(MACHINE_AMD64, 0x1000, &[BASE + 0x1010], false);
    assert_eq!(Project::new(data.clone()).err(), Some(ImageError::Malformed));
    let module = Module::new("m".to_string(), BASE, 0x3000);
    assert_eq!(module.symbols(&data), Err(ImageError::Malformed));
    // a single symbol is found by walking only as far as its ordinal
    assert_eq!(module.symbol(&data, "tls_callback_0"), Some(BASE + 0x1010));
    assert_eq!(module.symbol(&data, "tls_callback_1"), Some(0xFFFF_FFFF_FFFF_FFFF));
    assert_eq!(module.symbol(&data, "tls_callback_40"), None);
}

#[test]
fn image_without_tls_directory_has_no_callbacks() {
    let mut data = plain();
    put32(&mut data, 0x58 + 112 + 9 * 8, 0);
    let image = Image::parse(&data).unwrap();
    assert_eq!(image.callback_range(&data), None);
    assert_eq!(image.callbacks(&data), Ok(vec![]));
    assert_eq!(image.callback(&data, 0), None);
    let module = Module::new("m".to_string(), BASE, 0x3000);
    assert_eq!(module.symbols(&data), Ok(vec![("entry_point".to_string(), BASE + 0x1000)]));
    assert_eq!(module.symbol(&data, "tls_callback_0"), None);
}

#[test]
fn short_tls_directory_is_ignored() {
    let mut data = plain();
    put32(&mut data, 0x58 + 112 + 9 * 8 + 4, 39);
    let image = Image::parse(&data).unwrap();
    assert_eq!(image.callbacks(&data), Ok(vec![]));
    put32(&mut data, 0x58 + 112 + 9 * 8 + 4, 0x201);
    assert_eq!(image.callbacks(&data), Ok(vec![]));
}

#[test]
fn callback_array_is_found() {
    let data = plain();
    let image = Image::parse(&data).unwrap();
    assert_eq!(image.callback_range(&data), Some((0x700, 0x100)));
    assert_eq!(image.callbacks(&data), Ok(vec![BASE + 0x1010, BASE + 0x1020]));
    assert_eq!(image.callback(&data, 0), Some(BASE + 0x1010));
    assert_eq!(image.callback(&data, 1), Some(BASE + 0x1020));
    assert_eq!(image.callback(&data, 2), None);
    assert_eq!(image.callback(&data, usize::MAX), None);
}

#[test]
fn module_symbols() {
    let data = plain();
    let module = Module::open("sample.exe".to_string(), 0x7FF6_0000_0000, &data).unwrap();
    assert_eq!(module.name(), "sample.exe");
    assert_eq!(module.base(), 0x7FF6_0000_0000);
    assert_eq!(module.size(), 0x3000);
    assert_eq!(
        module.symbols(&data),
        Ok(vec![
            ("entry_point".to_string(), BASE + 0x1000),
            ("tls_callback_0".to_string(), BASE + 0x1010),
            ("tls_callback_1".to_string(), BASE + 0x1020),
        ])
    );
    assert_eq!(module.symbol(&data, "entry_point"), Some(BASE + 0x1000));
    assert_eq!(module.symbol(&data, "tls_callback_0"), Some(BASE + 0x1010));
    assert_eq!(module.symbol(&data, "tls_callback_1"), Some(BASE + 0x1020));
    assert_eq!(module.symbol(&data, "tls_callback_01"), Some(BASE + 0x1020));
    assert_eq!(module.symbol(&data, "tls_callback_2"), None);
    assert_eq!(module.symbol(&data, "tls_callback_"), None);
    assert_eq!(module.symbol(&data, "tls_callback_x"), None);
    assert_eq!(module.symbol(&data, "tls_callback_+1"), None);
    assert_eq!(module.symbol(&data, "tls_callback_99999999999999999999999999"), None);
    assert_eq!(module.symbol(&data, "entry_points"), None);
    assert_eq!(module.symbol(&data, ""), None);
    assert_eq!(module.symbol(&data, "alpha"), None);
}

#[test]
fn resolution_is_idempotent() {
    let data = plain();
    let module = Module::new("m".to_string(), BASE, 0x3000);
    assert_eq!(module.symbols(&data), module.symbols(&data));
    let first = Project::new(data.clone()).unwrap();
    let second = Project::new(data).unwrap();
    assert_eq!(first.label_by_rva, second.label_by_rva);
}

#[test]
fn many_callbacks_get_decimal_names() {
    let callbacks: Vec<u64> = (0..12).map(|k| BASE + 0x1100 + k).collect();
    let data = sample(MACHINE_AMD64, 0, &callbacks, true);
    let symbols = Module::new("m".to_string(), BASE, 0).symbols(&data).unwrap();
    assert_eq!(symbols.len(), 12);
    assert_eq!(symbols[9], ("tls_callback_9".to_string(), BASE + 0x1109));
    assert_eq!(symbols[10], ("tls_callback_10".to_string(), BASE + 0x110A));
    assert_eq!(symbols[11], ("tls_callback_11".to_string(), BASE + 0x110B));
    assert_eq!(Module::new("m".to_string(), BASE, 0).symbol(&data, "tls_callback_11"), Some(BASE + 0x110B));
}

#[test]
fn sections_are_classified() {
    let project = Project::new(plain()).unwrap();
    let code = project.data_view(0x1000).unwrap();
    assert_eq!(code.type_, DataViewType::Assembly);
    assert_eq!(code.range, 0x400..0x600);
    let inside = project.data_view(0x1010).unwrap();
    assert_eq!(inside.range, 0x410..0x600);
    let data = project.data_view(0x2100).unwrap();
    assert_eq!(data.type_, DataViewType::Raw);
    assert_eq!(data.range, 0x700..0x800);
    assert!(project.data_view(0x11FF).is_some());
    assert!(project.data_view(0x1200).is_none());
    assert!(project.data_view(0x0FFF).is_none());
    assert!(project.data_view(0x3000).is_none());
    assert!(project.data_view(0x1_0000_1000).is_none());
    let module = Module::new("m".to_string(), 0, 0);
    let bytes = plain();
    assert_eq!(module.section_kind(&bytes, BASE + 0x1000), Some(DataViewType::Assembly));
    assert_eq!(module.section_kind(&bytes, BASE + 0x2000), Some(DataViewType::Raw));
    assert_eq!(module.section_kind(&bytes, BASE + 0x3000), None);
    assert_eq!(module.section_kind(&bytes, BASE - 1), None);
    assert_eq!(module.section_kind(&[], BASE), None);
}

#[test]
fn executable_flag_alone_makes_assembly() {
    let mut bytes = plain();
    // second section: executable, without the code flag
    put32(&mut bytes, 0x58 + 112 + 16 * 8 + 40 + 36, 0x2000_0000);
    let project = Project::new(bytes).unwrap();
    assert_eq!(project.data_view(0x2000).unwrap().type_, DataViewType::Assembly);
}

#[test]
fn section_past_the_data_gives_no_view() {
    let mut bytes = plain();
    bytes.truncate(0x7FF);
    // the export table no longer lies in the data
    assert_eq!(Project::new(bytes.clone()).err(), Some(ImageError::Malformed));
    put32(&mut bytes, 0x58 + 112, 0);
    // without it the image opens; its callback array does not lie in the
    // data either, so there are no callbacks
    let project = Project::new(bytes).unwrap();
    assert!(project.data_view(0x2000).is_none());
    assert!(project.data_view(0x1000).is_some());
    assert_eq!(project.label_by_rva.len(), 1);
}

#[test]
fn section_helpers() {
    let section = SectionHeader {
        virtual_address: 0x1000,
        virtual_size: 0x300,
        pointer_to_raw_data: 0x400,
        size_of_raw_data: 0x200,
        characteristics: 0x20,
    };
    assert!(section.contains_rva(0x1000));
    assert!(section.contains_rva(0x12FF));
    assert!(!section.contains_rva(0x1300));
    assert!(!section.contains_rva(0xFFF));
    assert_eq!(section.range_at(0x1000), Some((0x400, 0x200)));
    assert_eq!(section.range_at(0x11FF), Some((0x5FF, 1)));
    assert_eq!(section.range_at(0x1200), None);
    assert_eq!(section.range_at(0xFFF), None);
    assert!(section.executable());
    let high = SectionHeader { pointer_to_raw_data: 0xFFFF_FFFF, ..section };
    assert_eq!(high.range_at(0x1000), Some((0xFFFF_FFFF, 0x200)));
    assert_eq!(high.range_at(0x1001), None);
    let other = SectionHeader { virtual_address: 0x1100, characteristics: 0x40, ..section };
    assert!(!other.executable());
    let sections = vec![section, other];
    assert_eq!(find_section(&sections, 0x1100), Some(0));
    assert_eq!(find_section(&sections, 0x1300), Some(1));
    assert_eq!(find_section(&sections, 0x1400), None);
    assert_eq!(find_data(&sections, 0x600, 0x1000), Some((0x400, 0x200)));
    // the first section's bytes at 0x1100 lie in the data: 0x500..0x600
    assert_eq!(find_data(&sections, 0x600, 0x1100), Some((0x500, 0x100)));
    // cut short, the first section is passed over for the second
    assert_eq!(find_data(&sections, 0x5FF, 0x1100), None);
    assert_eq!(find_data(&sections, 0x5FF, 0x1101), None);
    assert_eq!(find_data(&sections, 0x3FF, 0x1000), None);
}
