use steam_tools::pe::PeFile;

const PE_OFFSET: usize = 0x80;
const OPTIONAL_HEADER: usize = 0x10;

struct Entry {
    name: &'static [u8],
    address: u32,
    size: u32,
    pointer: u32,
}

fn put16(data: &mut [u8], at: usize, value: u16) {
    data[at..at + 2].copy_from_slice(&value.to_le_bytes());
}

fn put32(data: &mut [u8], at: usize, value: u32) {
    data[at..at + 4].copy_from_slice(&value.to_le_bytes());
}

fn image(entries: &[Entry], len: usize) -> Vec<u8> {
    let mut data = vec![0u8; len];
    data[0..2].copy_from_slice(b"MZ");
    put32(&mut data, 0x3c, PE_OFFSET as u32);
    data[PE_OFFSET..PE_OFFSET + 4].copy_from_slice(b"PE\0\0");
    put16(&mut data, PE_OFFSET + 6, entries.len() as u16);
    put16(&mut data, PE_OFFSET + 20, OPTIONAL_HEADER as u16);
    for (i, entry) in entries.iter().enumerate() {
        let at = PE_OFFSET + 24 + OPTIONAL_HEADER + 40 * i;
        data[at..at + entry.name.len()].copy_from_slice(entry.name);
        put32(&mut data, at + 12, entry.address);
        put32(&mut data, at + 16, entry.size);
        put32(&mut data, at + 20, entry.pointer);
    }
    data
}

fn two_sections() -> Vec<u8> {
    let entries = [
        Entry { name: b".rdata", address: 0x3000, size: 0x100, pointer: 0x400 },
        Entry { name: b".text", address: 0x1000, size: 0x80, pointer: 0x200 },
    ];
    image(&entries, 0x500)
}

fn error(data: &[u8]) -> &'static str {
    match PeFile::parse(data) {
        Ok(_) => "",
        Err(message) => message,
    }
}

#[test]
fn section_headers_are_read() {
    let data = two_sections();
    let pe = PeFile::parse(&data).unwrap();
    assert_eq!(pe.sections.len(), 2);
    assert_eq!(pe.sections[0].name, ".rdata");
    assert_eq!(pe.sections[1].name, ".text");
    assert_eq!(pe.sections[1].virtual_address, 0x1000);
    assert_eq!(pe.sections[1].size_of_raw_data, 0x80);
    assert_eq!(pe.sections[1].pointer_to_raw_data, 0x200);
    assert_eq!(pe.text_section(), Some(1));
    assert!(pe.section_in_file(1));
    assert_eq!(pe.section_data(1), &data[0x200..0x280]);
}

#[test]
fn each_defect_of_an_image_has_its_message() {
    let good = two_sections();
    assert_eq!(error(&good), "");
    assert_eq!(error(&[]), "File too small for DOS header");
    assert_eq!(error(&good[..0x3f]), "File too small for DOS header");
    let mut bad = good.clone();
    bad[1] = b'z';
    assert_eq!(error(&bad), "Missing MZ signature");
    assert_eq!(error(&good[..0x40]), "File too small for NT headers");
    assert_eq!(error(&good[..PE_OFFSET + 23]), "File too small for NT headers");
    let mut bad = good.clone();
    put32(&mut bad, 0x3c, u32::MAX);
    assert_eq!(error(&bad), "File too small for NT headers");
    let mut bad = good.clone();
    bad[PE_OFFSET + 3] = 1;
    assert_eq!(error(&bad), "Missing PE signature");
    let table_end = PE_OFFSET + 24 + OPTIONAL_HEADER + 80;
    assert_eq!(error(&good[..table_end - 1]), "File truncated in section table");
    assert_eq!(error(&good[..table_end]), "");
    let mut bad = good.clone();
    put16(&mut bad, PE_OFFSET + 6, 200);
    assert_eq!(error(&bad), "File truncated in section table");
}

#[test]
fn an_image_without_sections_is_read() {
    let data = image(&[], PE_OFFSET + 24);
    let pe = PeFile::parse(&data).unwrap();
    assert!(pe.sections.is_empty());
    assert_eq!(pe.text_section(), None);
    assert_eq!(pe.file_offset_to_rva(0), None);
}

#[test]
fn names_end_at_a_zero_byte_and_are_decoded() {
    let entries = [
        Entry { name: b"longname", address: 0, size: 0, pointer: 0 },
        Entry { name: b"a\0b", address: 0, size: 0, pointer: 0 },
        Entry { name: b"x\xFFy", address: 0, size: 0, pointer: 0 },
        Entry { name: "\u{e9}t\u{e9}".as_bytes(), address: 0, size: 0, pointer: 0 },
        Entry { name: b"\0.text", address: 0, size: 0, pointer: 0 },
    ];
    let data = image(&entries, 0x400);
    let pe = PeFile::parse(&data).unwrap();
    let names: Vec<&str> = pe.sections.iter().map(|s| s.name.as_str()).collect();
    assert_eq!(names, vec!["longname", "a", "x\u{FFFD}y", "\u{e9}t\u{e9}", ""]);
    assert_eq!(pe.text_section(), None);
}

#[test]
fn offsets_are_mapped_to_addresses() {
    let data = two_sections();
    let pe = PeFile::parse(&data).unwrap();
    assert_eq!(pe.file_offset_to_rva(0x200), Some(0x1000));
    assert_eq!(pe.file_offset_to_rva(0x27f), Some(0x107f));
    assert_eq!(pe.file_offset_to_rva(0x280), None);
    assert_eq!(pe.file_offset_to_rva(0x1ff), None);
    assert_eq!(pe.file_offset_to_rva(0x4ff), Some(0x30ff));
    assert_eq!(pe.file_offset_to_rva(usize::MAX), None);
}

#[test]
fn the_first_section_that_holds_an_offset_decides() {
    let entries = [
        Entry { name: b".one", address: 0x1000, size: 0x20, pointer: 0x200 },
        Entry { name: b".two", address: 0x9000, size: 0x40, pointer: 0x200 },
    ];
    let data = image(&entries, 0x300);
    let pe = PeFile::parse(&data).unwrap();
    assert_eq!(pe.file_offset_to_rva(0x210), Some(0x1010));
    assert_eq!(pe.file_offset_to_rva(0x220), Some(0x9020));
}

#[test]
fn addresses_beyond_32_bits_are_noticed() {
    let entries = [Entry { name: b".text", address: 0xFFFF_FFF0, size: 0x20, pointer: 0x200 }];
    let data = image(&entries, 0x300);
    let pe = PeFile::parse(&data).unwrap();
    assert!(pe.has_rva_in_range(0x20f));
    assert_eq!(pe.file_offset_to_rva(0x20f), Some(u32::MAX));
    assert!(!pe.has_rva_in_range(0x210));
    assert!(pe.has_rva_in_range(0x220));
}

#[test]
fn a_section_may_reach_beyond_the_file() {
    let entries = [Entry { name: b".text", address: 0, size: 0x101, pointer: 0x200 }];
    let data = image(&entries, 0x300);
    let pe = PeFile::parse(&data).unwrap();
    assert!(!pe.section_in_file(0));
}

#[test]
fn a_name_field_of_eight_bytes_is_read_in_full() {
    let mut data = vec![0u8; 128];
    data[0..2].copy_from_slice(b"MZ");
    data[0x3c] = 0x40;
    data[64..66].copy_from_slice(b"PE");
    data[70] = 1;
    data[88..96].copy_from_slice(b".textbss");
    data[97] = 0x10;
    data[101] = 0x20;
    data[105] = 0x02;
    data[109] = 0x04;
    let pe = PeFile::parse(&data).unwrap();
    assert_eq!(pe.sections.len(), 1);
    assert_eq!(pe.sections[0].name, ".textbss");
    assert_eq!(pe.sections[0].virtual_address, 0x2000);
    assert_eq!(pe.sections[0].size_of_raw_data, 0x200);
    assert_eq!(pe.sections[0].pointer_to_raw_data, 0x400);
    assert_eq!(pe.text_section(), None);
}
