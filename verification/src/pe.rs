//! The parts of a Windows PE image that the scanner needs: the section table and the
//! way from file offsets to relative virtual addresses.
use crate::text::same_text;
use vstd::prelude::*;

verus! {

// ---------------------------------------------------------------------------
// Little-endian fields
// ---------------------------------------------------------------------------

/// The 16-bit little-endian number at offset `at`.
pub open spec fn le16(data: Seq<u8>, at: int) -> int {
    data[at] + 0x100 * data[at + 1]
}

/// The 32-bit little-endian number at offset `at`.
pub open spec fn le32(data: Seq<u8>, at: int) -> int {
    data[at] + 0x100 * data[at + 1] + 0x1_0000 * data[at + 2] + 0x100_0000 * data[at + 3]
}

fn read_u16(data: &[u8], at: usize) -> (r: u16)
    requires
        at + 2 <= data@.len(),
    ensures
        r == le16(data@, at as int),
{
    data[at] as u16 + 0x100 * (data[at + 1] as u16)
}

fn read_u32(data: &[u8], at: usize) -> (r: u32)
    requires
        at + 4 <= data@.len(),
    ensures
        r == le32(data@, at as int),
{
    data[at] as u32 + 0x100 * (data[at + 1] as u32) + 0x1_0000 * (data[at + 2] as u32) + 0x100_0000
        * (data[at + 3] as u32)
}

// ---------------------------------------------------------------------------
// The headers
// ---------------------------------------------------------------------------

/// The offset of the PE header, which the DOS header names.
pub open spec fn pe_offset(data: Seq<u8>) -> int {
    le32(data, 0x3c)
}

/// The number of sections that the PE header announces.
pub open spec fn section_count(data: Seq<u8>) -> int {
    le16(data, pe_offset(data) + 6)
}

/// The offset of the header of section `i`: the section table follows the optional
/// header, and each of its entries has 40 bytes.
pub open spec fn section_header(data: Seq<u8>, i: int) -> int {
    pe_offset(data) + 24 + le16(data, pe_offset(data) + 20) + 40 * i
}

/// What keeps `data` from being read as an image, if anything does. The checks are in
/// the order of the file, and the first that fails decides.
pub open spec fn image_error(data: Seq<u8>) -> Option<Seq<char>> {
    if data.len() < 0x40 {
        Some("File too small for DOS header"@)
    } else if !(data[0] == 0x4d && data[1] == 0x5a) {
        Some("Missing MZ signature"@)
    } else if data.len() < pe_offset(data) + 24 {
        Some("File too small for NT headers"@)
    } else if data.subrange(pe_offset(data), pe_offset(data) + 4) != seq![0x50u8, 0x45, 0, 0] {
        Some("Missing PE signature"@)
    } else if section_count(data) > 0 && data.len() < section_header(data, section_count(data)) {
        Some("File truncated in section table"@)
    } else {
        None
    }
}

/// The bytes before the first zero byte.
pub open spec fn until_nul(s: Seq<u8>) -> Seq<u8>
    decreases s.len(),
{
    if s.len() == 0 || s[0] == 0 {
        Seq::empty()
    } else {
        seq![s[0]] + until_nul(s.drop_first())
    }
}

/// The name field of a section header: up to eight bytes, ended by a zero byte.
pub open spec fn name_bytes(data: Seq<u8>, header: int) -> Seq<u8> {
    until_nul(data.subrange(header, header + 8))
}

/// The text that `String::from_utf8_lossy` makes of a byte sequence.
pub uninterp spec fn lossy_text(bytes: Seq<u8>) -> Seq<char>;

/// `String::from_utf8_lossy`. Bytes that are valid UTF-8 are decoded as they are; of
/// other bytes every invalid sequence is replaced by U+FFFD, so that one occurs in the
/// result. How many of them stand for an invalid sequence is not stated.
#[verifier::external_body]
fn decode_lossy(bytes: &[u8]) -> (r: String)
    ensures
        r@ == lossy_text(bytes@),
        vstd::utf8::valid_utf8(bytes@) ==> r@ == vstd::utf8::decode_utf8(bytes@),
        !vstd::utf8::valid_utf8(bytes@) ==> r@.contains('\u{FFFD}'),
{
    String::from_utf8_lossy(bytes).into_owned()
}

/// One entry of the section table.
pub struct Section {
    pub name: String,
    pub virtual_address: u32,
    pub size_of_raw_data: u32,
    pub pointer_to_raw_data: u32,
}

/// The bytes of `.text`, the name of the section that holds the code.
pub open spec fn text_name() -> Seq<u8> {
    seq![0x2eu8, 0x74, 0x65, 0x78, 0x74]
}

/// What a section header says.
pub struct SectionInfo {
    pub name: Seq<char>,
    pub virtual_address: int,
    pub size_of_raw_data: int,
    pub pointer_to_raw_data: int,
}

impl SectionInfo {
    /// The offset lies in the section's raw data.
    pub open spec fn holds(self, offset: int) -> bool {
        self.pointer_to_raw_data <= offset < self.end()
    }

    /// The offset behind the section's raw data.
    pub open spec fn end(self) -> int {
        self.pointer_to_raw_data + self.size_of_raw_data
    }
}

impl View for Section {
    type V = SectionInfo;

    open spec fn view(&self) -> SectionInfo {
        SectionInfo {
            name: self.name@,
            virtual_address: self.virtual_address as int,
            size_of_raw_data: self.size_of_raw_data as int,
            pointer_to_raw_data: self.pointer_to_raw_data as int,
        }
    }
}

/// The section whose header stands at offset `header`.
pub open spec fn section_at(data: Seq<u8>, header: int) -> SectionInfo {
    SectionInfo {
        name: lossy_text(name_bytes(data, header)),
        virtual_address: le32(data, header + 12),
        size_of_raw_data: le32(data, header + 16),
        pointer_to_raw_data: le32(data, header + 20),
    }
}

/// The section table that the bytes of an image hold.
pub open spec fn sections_of(data: Seq<u8>) -> Seq<SectionInfo> {
    Seq::new(section_count(data) as nat, |i: int| section_at(data, section_header(data, i)))
}

/// What is known of the text that a name field is decoded to: valid UTF-8 is decoded as it
/// is, and any other field leaves U+FFFD in the text. So the name is `.text` exactly where
/// the bytes spell it.
pub open spec fn is_decoded(bytes: Seq<u8>, name: Seq<char>) -> bool {
    &&& vstd::utf8::valid_utf8(bytes) ==> name == vstd::utf8::decode_utf8(bytes)
    &&& !vstd::utf8::valid_utf8(bytes) ==> name.contains('\u{FFFD}')
    &&& (name == ".text"@) == (bytes == text_name())
}

/// The name of every section is decoded from the bytes of its name field.
pub open spec fn names_decoded(data: Seq<u8>) -> bool {
    forall|i: int|
        0 <= i < sections_of(data).len() ==> is_decoded(
            name_bytes(data, section_header(data, i)),
            (#[trigger] sections_of(data)[i]).name,
        )
}

proof fn lemma_text_encoded()
    ensures
        vstd::utf8::encode_utf8(".text"@) == text_name(),
        !".text"@.contains('\u{FFFD}'),
{
    reveal_strlit(".text");
    let s = ".text"@;
    vstd::utf8::is_ascii_chars_encode_utf8(s);
    assert(vstd::utf8::encode_utf8(s) =~= text_name());
}

/// A name that is decoded as it is, or has U+FFFD in it, is `.text` exactly where its
/// bytes spell it.
proof fn lemma_text_name(bytes: Seq<u8>, name: Seq<char>)
    requires
        vstd::utf8::valid_utf8(bytes) ==> name == vstd::utf8::decode_utf8(bytes),
        !vstd::utf8::valid_utf8(bytes) ==> name.contains('\u{FFFD}'),
    ensures
        is_decoded(bytes, name),
{
    lemma_text_encoded();
    vstd::utf8::encode_utf8_valid_utf8(".text"@);
    vstd::utf8::encode_utf8_decode_utf8(".text"@);
    if vstd::utf8::valid_utf8(bytes) {
        vstd::utf8::decode_utf8_encode_utf8(bytes);
    }
}

/// Copies the bytes before the first zero byte of `field`.
fn take_until_nul(field: &[u8]) -> (r: Vec<u8>)
    ensures
        r@ == until_nul(field@),
{
    let mut out: Vec<u8> = Vec::new();
    let mut i: usize = 0;
    assert(field@.skip(0) =~= field@);
    assert(out@ + until_nul(field@) =~= until_nul(field@));
    while i < field.len() && field[i] != 0
        invariant
            i <= field@.len(),
            out@ + until_nul(field@.skip(i as int)) == until_nul(field@),
        decreases field@.len() - i,
    {
        let ghost rest = field@.skip(i as int);
        let ghost before = out@;
        out.push(field[i]);
        i += 1;
        proof {
            assert(rest.drop_first() =~= field@.skip(i as int));
            assert(before + (seq![rest[0]] + until_nul(rest.drop_first())) =~= out@ + until_nul(
                rest.drop_first(),
            ));
        }
    }
    assert(out@ + Seq::<u8>::empty() =~= out@);
    out
}

/// Reads the section header at offset `header`.
fn read_section(data: &[u8], header: usize) -> (section: Section)
    requires
        header + 40 <= data.len(),
    ensures
        section@ == section_at(data@, header as int),
        is_decoded(name_bytes(data@, header as int), section.name@),
{
    let raw_name: Vec<u8> = take_until_nul(&data[header..header + 8]);
    let name: String = decode_lossy(raw_name.as_slice());
    proof {
        lemma_text_name(raw_name@, name@);
    }
    Section {
        name,
        virtual_address: read_u32(data, header + 12),
        size_of_raw_data: read_u32(data, header + 16),
        pointer_to_raw_data: read_u32(data, header + 20),
    }
}

// ---------------------------------------------------------------------------
// The image
// ---------------------------------------------------------------------------

/// The address of a file offset: in the first section that holds the offset, as far
/// behind the section's virtual address as the offset lies in its raw data.
pub open spec fn rva_of(sections: Seq<SectionInfo>, offset: int) -> Option<int>
    decreases sections.len(),
{
    if sections.len() == 0 {
        None
    } else if sections[0].holds(offset) {
        Some(offset - sections[0].pointer_to_raw_data + sections[0].virtual_address)
    } else {
        rva_of(sections.drop_first(), offset)
    }
}

/// The address of the offset, if it has one, is a 32-bit number.
pub open spec fn rva_fits(sections: Seq<SectionInfo>, offset: int) -> bool {
    rva_of(sections, offset) matches Some(rva) ==> rva <= u32::MAX
}

/// The index of the first section named `.text`.
pub open spec fn text_index(sections: Seq<SectionInfo>) -> Option<int>
    decreases sections.len(),
{
    if sections.len() == 0 {
        None
    } else if sections[0].name == ".text"@ {
        Some(0)
    } else {
        match text_index(sections.drop_first()) {
            Some(i) => Some(i + 1),
            None => None,
        }
    }
}

/// A PE image: the bytes of the file and its section table.
pub struct PeFile<'a> {
    pub data: &'a [u8],
    pub sections: Vec<Section>,
}

impl<'a> PeFile<'a> {
    /// The section table.
    pub open spec fn table(&self) -> Seq<SectionInfo> {
        Seq::new(self.sections@.len(), |i: int| self.sections@[i]@)
    }

    /// The section table is the one that the bytes hold, and the name of each section is
    /// decoded from the bytes of its name field.
    pub open spec fn well_formed(&self) -> bool {
        &&& image_error(self.data@) is None
        &&& self.table() == sections_of(self.data@)
        &&& names_decoded(self.data@)
        &&& forall|i: int|
            0 <= i < self.sections@.len() ==> is_decoded(
                name_bytes(self.data@, section_header(self.data@, i)),
                (#[trigger] self.sections@[i]).name@,
            )
    }

    /// Reads the headers of an image. The error says which check failed first.
    pub fn parse(data: &'a [u8]) -> (r: Result<Self, &'static str>)
        ensures
            match r {
                Ok(pe) => image_error(data@) is None && pe.data@ == data@ && pe.well_formed(),
                Err(message) => image_error(data@) == Some(message@),
            },
            r matches Ok(pe) ==> {
                let d = data@;
                let p = d[0x3c] + 0x100 * d[0x3d] + 0x1_0000 * d[0x3e] + 0x100_0000 * d[0x3f];
                let table = p + 24 + d[p + 20] + 0x100 * d[p + 21];
                &&& pe.sections@.len() == d[p + 6] + 0x100 * d[p + 7]
                &&& forall|i: int|
                    #![trigger pe.sections@[i]]
                    0 <= i < pe.sections@.len() ==> {
                        let h = table + 40 * i;
                        &&& pe.sections@[i].virtual_address == d[h + 12] + 0x100 * d[h + 13]
                            + 0x1_0000 * d[h + 14] + 0x100_0000 * d[h + 15]
                        &&& pe.sections@[i].size_of_raw_data == d[h + 16] + 0x100 * d[h + 17]
                            + 0x1_0000 * d[h + 18] + 0x100_0000 * d[h + 19]
                        &&& pe.sections@[i].pointer_to_raw_data == d[h + 20] + 0x100 * d[h + 21]
                            + 0x1_0000 * d[h + 22] + 0x100_0000 * d[h + 23]
                    }
            },
    {
        if data.len() < 0x40 {
            return Err("File too small for DOS header");
        }
        if data[0] != 0x4d || data[1] != 0x5a {
            return Err("Missing MZ signature");
        }
        let len: u64 = data.len() as u64;
        let pe_at: u32 = read_u32(data, 0x3c);
        if len < pe_at as u64 + 24 {
            return Err("File too small for NT headers");
        }
        let pe: usize = pe_at as usize;
        let signed: bool = data[pe] == 0x50 && data[pe + 1] == 0x45 && data[pe + 2] == 0 && data[pe
            + 3] == 0;
        proof {
            let field = data@.subrange(pe as int, pe + 4);
            let wanted = seq![0x50u8, 0x45, 0, 0];
            if signed {
                assert(field =~= wanted);
            } else {
                assert(field[0] == data@[pe as int] && field[1] == data@[pe + 1] && field[2]
                    == data@[pe + 2] && field[3] == data@[pe + 3]);
                assert(wanted[0] == 0x50 && wanted[1] == 0x45 && wanted[2] == 0 && wanted[3] == 0);
            }
        }
        if !signed {
            return Err("Missing PE signature");
        }
        let num_sections: u16 = read_u16(data, pe + 6);
        let size_of_opt_header: u16 = read_u16(data, pe + 20);
        let table: u64 = pe_at as u64 + 24 + size_of_opt_header as u64;
        let mut sections: Vec<Section> = Vec::new();
        let mut i: u16 = 0;
        while i < num_sections
            invariant
                0x40 <= data@.len(),
                pe_offset(data@) + 24 <= data@.len(),
                len == data.len(),
                num_sections == section_count(data@),
                table == section_header(data@, 0),
                table <= 0x1_0001_0017,
                i <= num_sections,
                i > 0 ==> section_header(data@, i as int) <= data@.len(),
                image_error(data@) == (if section_count(data@) > 0 && data@.len() < section_header(
                    data@,
                    section_count(data@),
                ) {
                    Some("File truncated in section table"@)
                } else {
                    None
                }),
                sections@.len() == i,
                forall|k: int|
                    0 <= k < i ==> (#[trigger] sections@[k])@ == section_at(
                        data@,
                        section_header(data@, k),
                    ) && is_decoded(
                        name_bytes(data@, section_header(data@, k)),
                        sections@[k].name@,
                    ),
            decreases num_sections - i,
        {
            let header: u64 = table + (i as u64) * 40;
            if len < header + 40 {
                return Err("File truncated in section table");
            }
            sections.push(read_section(data, header as usize));
            i += 1;
        }
        let pe: PeFile<'a> = PeFile { data, sections };
        proof {
            assert(pe.table() =~= sections_of(data@));
            assert forall|k: int| 0 <= k < sections_of(data@).len() implies is_decoded(
                name_bytes(data@, section_header(data@, k)),
                (#[trigger] sections_of(data@)[k]).name,
            ) by {
                assert(pe.sections@[k]@ == sections_of(data@)[k]);
            }
        }
        Ok(pe)
    }

    /// Tests whether the address of the offset, if it has one, is a 32-bit number.
    pub fn has_rva_in_range(&self, offset: usize) -> (r: bool)
        ensures
            r == rva_fits(self.table(), offset as int),
    {
        let mut i: usize = 0;
        assert(self.table().skip(0) =~= self.table());
        while i < self.sections.len()
            invariant
                i <= self.table().len(),
                rva_of(self.table(), offset as int) == rva_of(
                    self.table().skip(i as int),
                    offset as int,
                ),
            decreases self.table().len() - i,
        {
            let ghost rest = self.table().skip(i as int);
            assert(rest[0] == self.table()[i as int]);
            let start: u64 = self.sections[i].pointer_to_raw_data as u64;
            let end: u64 = start + self.sections[i].size_of_raw_data as u64;
            if offset as u64 >= start && (offset as u64) < end {
                return (offset as u64 - start) + self.sections[i].virtual_address as u64
                    <= u32::MAX as u64;
            }
            assert(rest.drop_first() =~= self.table().skip(i + 1));
            i += 1;
        }
        true
    }

    /// The relative virtual address of a file offset; `None` where no section holds it.
    pub fn file_offset_to_rva(&self, offset: usize) -> (r: Option<u32>)
        requires
            rva_fits(self.table(), offset as int),
        ensures
            match r {
                Some(rva) => rva_of(self.table(), offset as int) == Some(rva as int),
                None => rva_of(self.table(), offset as int) is None,
            },
    {
        let mut i: usize = 0;
        assert(self.table().skip(0) =~= self.table());
        while i < self.sections.len()
            invariant
                i <= self.table().len(),
                rva_fits(self.table(), offset as int),
                rva_of(self.table(), offset as int) == rva_of(
                    self.table().skip(i as int),
                    offset as int,
                ),
            decreases self.table().len() - i,
        {
            let ghost rest = self.table().skip(i as int);
            assert(rest[0] == self.table()[i as int]);
            let start: u64 = self.sections[i].pointer_to_raw_data as u64;
            let end: u64 = start + self.sections[i].size_of_raw_data as u64;
            if offset as u64 >= start && (offset as u64) < end {
                return Some((offset as u64 - start) as u32 + self.sections[i].virtual_address);
            }
            assert(rest.drop_first() =~= self.table().skip(i + 1));
            i += 1;
        }
        None
    }

    /// The index of the first section named `.text`.
    pub fn text_section(&self) -> (r: Option<usize>)
        ensures
            match r {
                Some(i) => text_index(self.table()) == Some(i as int) && i < self.sections@.len(),
                None => text_index(self.table()) is None,
            },
    {
        let mut i: usize = 0;
        assert(self.table().skip(0) =~= self.table());
        while i < self.sections.len()
            invariant
                i <= self.table().len(),
                text_index(self.table()) == (match text_index(self.table().skip(i as int)) {
                    Some(k) => Some(k + i),
                    None => None::<int>,
                }),
            decreases self.table().len() - i,
        {
            let ghost rest = self.table().skip(i as int);
            assert(rest[0] == self.table()[i as int]);
            if same_text(self.sections[i].name.as_str(), ".text") {
                return Some(i);
            }
            assert(rest.drop_first() =~= self.table().skip(i + 1));
            i += 1;
        }
        None
    }

    /// Tests whether the raw data of section `i` lies within the file.
    pub fn section_in_file(&self, i: usize) -> (r: bool)
        requires
            i < self.table().len(),
        ensures
            r == (self.table()[i as int].end() <= self.data@.len()),
    {
        let end: u64 = self.sections[i].pointer_to_raw_data as u64
            + self.sections[i].size_of_raw_data as u64;
        end <= self.data.len() as u64
    }

    /// The raw data of section `i`.
    pub fn section_data(&self, i: usize) -> (r: &'a [u8])
        requires
            i < self.table().len(),
            self.table()[i as int].end() <= self.data@.len(),
        ensures
            r@ == self.data@.subrange(
                self.table()[i as int].pointer_to_raw_data,
                self.table()[i as int].end(),
            ),
    {
        let start: usize = self.sections[i].pointer_to_raw_data as usize;
        let size: usize = self.sections[i].size_of_raw_data as usize;
        let data: &'a [u8] = self.data;
        assert(data.len() == data@.len());
        &data[start..start + size]
    }
}

// ---------------------------------------------------------------------------
// Laws
// ---------------------------------------------------------------------------

/// Every offset in the raw data of a section has an address.
pub proof fn law_section_offsets_have_addresses(sections: Seq<SectionInfo>, i: int, offset: int)
    requires
        0 <= i < sections.len(),
        sections[i].holds(offset),
    ensures
        rva_of(sections, offset) is Some,
    decreases sections.len(),
{
    if !sections[0].holds(offset) {
        assert(sections.drop_first()[i - 1] == sections[i]);
        law_section_offsets_have_addresses(sections.drop_first(), i - 1, offset);
    }
}

/// An offset that no section holds has no address.
pub proof fn law_stray_offsets_have_no_address(sections: Seq<SectionInfo>, offset: int)
    requires
        forall|i: int| 0 <= i < sections.len() ==> !(#[trigger] sections[i]).holds(offset),
    ensures
        rva_of(sections, offset) is None,
    decreases sections.len(),
{
    if sections.len() > 0 {
        assert(!sections[0].holds(offset));
        assert forall|i: int| 0 <= i < sections.drop_first().len() implies !(
        #[trigger] sections.drop_first()[i]).holds(offset) by {
            assert(sections.drop_first()[i] == sections[i + 1]);
        }
        law_stray_offsets_have_no_address(sections.drop_first(), offset);
    }
}

/// Where no two sections share an offset, the address is the one that the section which
/// holds the offset gives it.
pub proof fn law_address_in_section(sections: Seq<SectionInfo>, i: int, offset: int)
    requires
        0 <= i < sections.len(),
        sections[i].holds(offset),
        forall|k: int|
            0 <= k < sections.len() && k != i ==> !(#[trigger] sections[k]).holds(offset),
    ensures
        rva_of(sections, offset) == Some(
            offset - sections[i].pointer_to_raw_data + sections[i].virtual_address,
        ),
    decreases sections.len(),
{
    if i > 0 {
        assert(!sections[0].holds(offset));
        let rest = sections.drop_first();
        assert(rest[i - 1] == sections[i]);
        assert forall|k: int| 0 <= k < rest.len() && k != i - 1 implies !(
        #[trigger] rest[k]).holds(offset) by {
            assert(rest[k] == sections[k + 1]);
        }
        law_address_in_section(rest, i - 1, offset);
    }
}

proof fn lemma_four_bytes(value: int)
    requires
        0 <= value < 0x1_0000_0000,
    ensures
        value == value % 0x100 + 0x100 * ((value / 0x100) % 0x100) + 0x1_0000 * ((value / 0x1_0000)
            % 0x100) + 0x100_0000 * (value / 0x100_0000),
{
    assert((value / 0x100) / 0x100 == value / 0x1_0000);
    assert((value / 0x1_0000) / 0x100 == value / 0x100_0000);
}

/// A section header reads back: where the offset `p` of the PE header, the number `n` of
/// sections, the size `o` of the optional header, and in the header of section `i` an
/// address, a size and a pointer are written, each to its own bytes with the lowest first,
/// those are the numbers of the section, for every 32-bit value of them.
pub proof fn law_section_headers_read_back(
    data: Seq<u8>,
    p: u32,
    n: u16,
    o: u16,
    i: int,
    address: u32,
    size: u32,
    pointer: u32,
)
    requires
        data[0x3c] as int == p as int % 0x100,
        data[0x3d] as int == (p as int / 0x100) % 0x100,
        data[0x3e] as int == (p as int / 0x1_0000) % 0x100,
        data[0x3f] as int == p as int / 0x100_0000,
        data[p + 6] as int == n as int % 0x100,
        data[p + 7] as int == n as int / 0x100,
        data[p + 20] as int == o as int % 0x100,
        data[p + 21] as int == o as int / 0x100,
        0 <= i < n,
        data[p + 24 + o + 40 * i + 12] as int == address as int % 0x100,
        data[p + 24 + o + 40 * i + 13] as int == (address as int / 0x100) % 0x100,
        data[p + 24 + o + 40 * i + 14] as int == (address as int / 0x1_0000) % 0x100,
        data[p + 24 + o + 40 * i + 15] as int == address as int / 0x100_0000,
        data[p + 24 + o + 40 * i + 16] as int == size as int % 0x100,
        data[p + 24 + o + 40 * i + 17] as int == (size as int / 0x100) % 0x100,
        data[p + 24 + o + 40 * i + 18] as int == (size as int / 0x1_0000) % 0x100,
        data[p + 24 + o + 40 * i + 19] as int == size as int / 0x100_0000,
        data[p + 24 + o + 40 * i + 20] as int == pointer as int % 0x100,
        data[p + 24 + o + 40 * i + 21] as int == (pointer as int / 0x100) % 0x100,
        data[p + 24 + o + 40 * i + 22] as int == (pointer as int / 0x1_0000) % 0x100,
        data[p + 24 + o + 40 * i + 23] as int == pointer as int / 0x100_0000,
    ensures
        sections_of(data).len() == n,
        sections_of(data)[i].virtual_address == address,
        sections_of(data)[i].size_of_raw_data == size,
        sections_of(data)[i].pointer_to_raw_data == pointer,
{
    lemma_four_bytes(p as int);
    lemma_four_bytes(address as int);
    lemma_four_bytes(size as int);
    lemma_four_bytes(pointer as int);
    let h = p + 24 + o + 40 * i;
    assert(pe_offset(data) == p);
    assert(section_count(data) == n) by {
        assert(n as int == n as int % 0x100 + 0x100 * (n as int / 0x100));
    }
    assert(section_header(data, i) == h) by {
        assert(o as int == o as int % 0x100 + 0x100 * (o as int / 0x100));
    }
    assert(section_at(data, h).virtual_address == address);
    assert(section_at(data, h).size_of_raw_data == size);
    assert(section_at(data, h).pointer_to_raw_data == pointer);
}

proof fn lemma_until_nul(s: Seq<u8>, k: int)
    requires
        0 <= k <= s.len(),
        forall|j: int| 0 <= j < k ==> #[trigger] s[j] != 0,
        k < s.len() ==> s[k] == 0,
    ensures
        until_nul(s) == s.take(k),
    decreases k,
{
    if k > 0 {
        let rest = s.drop_first();
        assert(s[0] != 0);
        assert forall|j: int| 0 <= j < k - 1 implies #[trigger] rest[j] != 0 by {
            assert(rest[j] == s[j + 1]);
        }
        lemma_until_nul(rest, k - 1);
        assert(seq![s[0]] + rest.take(k - 1) =~= s.take(k));
    } else {
        assert(until_nul(s) =~= s.take(0));
    }
}

/// The name of a section is spelled by the bytes of its name field up to the first zero
/// byte, at most eight of them: all of them, and no others.
pub proof fn law_names_are_spelled_by_their_bytes(data: Seq<u8>, i: int, h: int, k: int)
    requires
        names_decoded(data),
        0 <= i < sections_of(data).len(),
        h == (data[0x3c] + 0x100 * data[0x3d] + 0x1_0000 * data[0x3e] + 0x100_0000 * data[0x3f])
            + 24 + data[(data[0x3c] + 0x100 * data[0x3d] + 0x1_0000 * data[0x3e] + 0x100_0000
            * data[0x3f]) + 20] + 0x100 * data[(data[0x3c] + 0x100 * data[0x3d] + 0x1_0000
            * data[0x3e] + 0x100_0000 * data[0x3f]) + 21] + 40 * i,
        h + 8 <= data.len(),
        0 <= k <= 8,
        forall|j: int| h <= j < h + k ==> #[trigger] data[j] != 0,
        k < 8 ==> data[h + k] == 0,
    ensures
        sections_of(data)[i].name == lossy_text(data.subrange(h, h + k)),
        vstd::utf8::valid_utf8(data.subrange(h, h + k)) ==> sections_of(data)[i].name
            == vstd::utf8::decode_utf8(data.subrange(h, h + k)),
        !vstd::utf8::valid_utf8(data.subrange(h, h + k)) ==> sections_of(data)[i].name.contains(
            '\u{FFFD}',
        ),
        sections_of(data)[i].name == ".text"@ <==> data.subrange(h, h + k) == seq![
            0x2eu8,
            0x74,
            0x65,
            0x78,
            0x74,
        ],
{
    let field = data.subrange(h, h + 8);
    assert(section_header(data, i) == h);
    assert forall|j: int| 0 <= j < k implies #[trigger] field[j] != 0 by {
        assert(field[j] == data[h + j]);
    }
    lemma_until_nul(field, k);
    assert(field.take(k) =~= data.subrange(h, h + k));
    assert(is_decoded(name_bytes(data, section_header(data, i)), sections_of(data)[i].name));
}

/// An image is refused for the first defect in the order of the file, and accepted where it
/// has none: the file has room for each header, the signatures stand at their places, and
/// all entries of the section table lie within the file.
pub proof fn law_images_are_refused_for_their_first_defect(data: Seq<u8>)
    ensures
        ({
            let p = data[0x3c] + 0x100 * data[0x3d] + 0x1_0000 * data[0x3e] + 0x100_0000
                * data[0x3f];
            let n = data[p + 6] + 0x100 * data[p + 7];
            let table = p + 24 + data[p + 20] + 0x100 * data[p + 21];
            let small = data.len() < 64;
            let foreign = !(data[0] == 0x4d && data[1] == 0x5a);
            let short = data.len() < p + 24;
            let unsigned = !(data[p] == 0x50 && data[p + 1] == 0x45 && data[p + 2] == 0 && data[p
                + 3] == 0);
            let cut = n > 0 && data.len() < table + 40 * n;
            &&& small ==> image_error(data) == Some("File too small for DOS header"@)
            &&& !small && foreign ==> image_error(data) == Some("Missing MZ signature"@)
            &&& !small && !foreign && short ==> image_error(data) == Some(
                "File too small for NT headers"@,
            )
            &&& !small && !foreign && !short && unsigned ==> image_error(data) == Some(
                "Missing PE signature"@,
            )
            &&& !small && !foreign && !short && !unsigned && cut ==> image_error(data) == Some(
                "File truncated in section table"@,
            )
            &&& !small && !foreign && !short && !unsigned && !cut ==> image_error(data) is None
        }),
{
    let p = pe_offset(data);
    let field = data.subrange(p, p + 4);
    let wanted = seq![0x50u8, 0x45, 0, 0];
    if data.len() >= 0x40 && data.len() >= p + 24 {
        assert(field[0] == data[p] && field[1] == data[p + 1] && field[2] == data[p + 2] && field[3]
            == data[p + 3]);
        assert(wanted[0] == 0x50 && wanted[1] == 0x45 && wanted[2] == 0 && wanted[3] == 0);
        if data[p] == 0x50 && data[p + 1] == 0x45 && data[p + 2] == 0 && data[p + 3] == 0 {
            assert(field =~= wanted);
        }
    }
}

/// An offset gets its address from the first section whose raw data holds it: as far behind
/// the section's address as the offset lies behind the section's pointer. An offset that no
/// raw data holds has no address.
pub proof fn law_first_section_gives_the_address(
    sections: Seq<SectionInfo>,
    i: int,
    offset: int,
)
    ensures
        0 <= i < sections.len() && sections[i].pointer_to_raw_data <= offset
            < sections[i].pointer_to_raw_data + sections[i].size_of_raw_data && (forall|k: int|
            0 <= k < i ==> !((#[trigger] sections[k]).pointer_to_raw_data <= offset
                < sections[k].pointer_to_raw_data + sections[k].size_of_raw_data)) ==> rva_of(
            sections,
            offset,
        ) == Some(sections[i].virtual_address + (offset - sections[i].pointer_to_raw_data)),
        (forall|k: int|
            0 <= k < sections.len() ==> !((#[trigger] sections[k]).pointer_to_raw_data <= offset
                < sections[k].pointer_to_raw_data + sections[k].size_of_raw_data)) ==> rva_of(
            sections,
            offset,
        ) is None,
    decreases sections.len(),
{
    if sections.len() > 0 {
        let rest = sections.drop_first();
        law_first_section_gives_the_address(rest, i - 1, offset);
        assert(forall|k: int| 0 <= k < rest.len() ==> #[trigger] rest[k] == sections[k + 1]);
        assert(sections[0] == sections[0]);
    }
}

/// An address is out of range exactly where it is above the largest 32-bit number.
pub proof fn law_addresses_are_32_bit(sections: Seq<SectionInfo>, offset: int)
    ensures
        rva_fits(sections, offset) <==> (rva_of(sections, offset) is None || rva_of(
            sections,
            offset,
        )->0 <= 0xffff_ffff),
{
}

/// The code is in the first section that is named `.text`.
pub proof fn law_first_text_section_is_taken(sections: Seq<SectionInfo>, i: int)
    ensures
        0 <= i < sections.len() && sections[i].name == ".text"@ && (forall|k: int|
            0 <= k < i ==> (#[trigger] sections[k]).name != ".text"@) ==> text_index(sections)
            == Some(i),
        (forall|k: int| 0 <= k < sections.len() ==> (#[trigger] sections[k]).name != ".text"@)
            ==> text_index(sections) is None,
    decreases sections.len(),
{
    if sections.len() > 0 {
        let rest = sections.drop_first();
        law_first_text_section_is_taken(rest, i - 1);
        assert(forall|k: int| 0 <= k < rest.len() ==> #[trigger] rest[k] == sections[k + 1]);
        assert(sections[0] == sections[0]);
    }
}

/// The section table of an image is seen as it is.
pub proof fn law_sections_are_seen(pe: PeFile<'_>, i: int)
    requires
        0 <= i < pe.sections@.len(),
    ensures
        pe.table().len() == pe.sections@.len(),
        pe.table()[i].name == pe.sections@[i].name@,
        pe.table()[i].virtual_address == pe.sections@[i].virtual_address,
        pe.table()[i].size_of_raw_data == pe.sections@[i].size_of_raw_data,
        pe.table()[i].pointer_to_raw_data == pe.sections@[i].pointer_to_raw_data,
        pe.table()[i].end() == pe.sections@[i].pointer_to_raw_data
            + pe.sections@[i].size_of_raw_data,
{
}

} // verus!
