//! The scan of one DLL: from the bytes of the file to the lines of its pattern file.
use crate::digest::{hex_of, sha256_of};
use crate::digest::sha256_hex;
use crate::fnv::{fnv1a, fnv1a_hash};
use crate::pattern::{first_match, sig_pattern};
use crate::pattern::{parse_sig, scan_pattern};
use crate::pe::PeFile;
use crate::pe::{
    image_error, law_section_offsets_have_addresses, names_decoded, rva_of, sections_of, text_index,
    SectionInfo,
};
use crate::signatures::SignatureDefinition;
use crate::signatures::{get_steamclient_defs, get_steamui_defs};
use crate::signatures::{steamclient_table, steamui_table, table_of};
use crate::text::{hexadecimal, lemma_texts_push, occurs_in, texts, zero_padded};
use crate::text::{hexadecimal_text, join2, join3, text_occurs, zero_pad};
use vstd::prelude::*;

verus! {

// ---------------------------------------------------------------------------
// Components
// ---------------------------------------------------------------------------

/// The DLLs that can be scanned.
#[derive(Clone, Copy, Debug, PartialEq, Eq, Structural)]
pub enum Component {
    SteamClient,
    SteamUi,
}

/// The names and signatures that are looked for in a component.
pub open spec fn component_table(component: Component) -> Seq<(Seq<char>, Seq<Seq<char>>)> {
    match component {
        Component::SteamClient => steamclient_table(),
        Component::SteamUi => steamui_table(),
    }
}

impl Component {
    /// The name of the directory that the component's pattern files go to.
    pub fn dir_name(self) -> (r: &'static str)
        ensures
            r@ == (match self {
                Component::SteamClient => "steamclient"@,
                Component::SteamUi => "steamui"@,
            }),
    {
        match self {
            Component::SteamClient => "steamclient",
            Component::SteamUi => "steamui",
        }
    }

    /// The definitions that are looked for in the component.
    pub fn definitions(self) -> (defs: Vec<SignatureDefinition>)
        ensures
            table_of(defs@) == component_table(self),
    {
        match self {
            Component::SteamClient => get_steamclient_defs(),
            Component::SteamUi => get_steamui_defs(),
        }
    }
}

/// The component that a lower-case file name names: `steamui` anywhere in the name
/// decides before `steamclient` does.
pub open spec fn component_named(lower: Seq<char>) -> Option<Component> {
    if occurs_in("steamui"@, lower) {
        Some(Component::SteamUi)
    } else if occurs_in("steamclient"@, lower) {
        Some(Component::SteamClient)
    } else {
        None
    }
}

/// The component that a lower-case file name names.
pub fn component_of_lower(lower: &str) -> (r: Option<Component>)
    ensures
        r == component_named(lower@),
{
    if text_occurs("steamui", lower) {
        Some(Component::SteamUi)
    } else if text_occurs("steamclient", lower) {
        Some(Component::SteamClient)
    } else {
        None
    }
}

/// The text that `str::to_lowercase` makes of a string.
pub uninterp spec fn lower_case(s: Seq<char>) -> Seq<char>;

/// The lower-case form of an ASCII character.
pub open spec fn ascii_lower(c: char) -> char {
    if 'A' <= c <= 'Z' {
        (c as int + 32) as char
    } else {
        c
    }
}

/// `str::to_lowercase`. The result is a function of the text; of an ASCII text it is
/// the text with the letters `A` to `Z` in lower case. What becomes of other characters
/// is not stated.
#[verifier::external_body]
fn to_lower(s: &str) -> (r: String)
    ensures
        r@ == lower_case(s@),
        vstd::utf8::is_ascii_chars(s@) ==> r@ == s@.map_values(|c: char| ascii_lower(c)),
{
    s.to_lowercase()
}

/// The component that a file name names, whatever the case of its letters.
pub fn component_of_file(filename: &str) -> (r: Option<Component>)
    ensures
        r == component_named(lower_case(filename@)),
        vstd::utf8::is_ascii_chars(filename@) ==> r == component_named(
            filename@.map_values(|c: char| ascii_lower(c)),
        ),
{
    let lower: String = to_lower(filename);
    component_of_lower(lower.as_str())
}

/// The name of the pattern file of a DLL: the SHA-256 digest of its bytes, in
/// hexadecimal, with the extension `toml`.
pub fn pattern_file_name(data: &[u8]) -> (r: String)
    ensures
        r@ == hex_of(sha256_of(data@)) + ".toml"@,
{
    let hash: String = sha256_hex(data);
    join2(hash.as_str(), ".toml")
}

// ---------------------------------------------------------------------------
// Looking up one function
// ---------------------------------------------------------------------------

/// Where a function stands: the first of its signatures that occurs in the code at an
/// offset with an address, and the address of its lowest occurrence.
pub open spec fn located(
    sections: Seq<SectionInfo>,
    start: int,
    text: Seq<u8>,
    sigs: Seq<Seq<char>>,
) -> Option<(Seq<char>, int)>
    decreases sigs.len(),
{
    if sigs.len() == 0 {
        None
    } else {
        match first_match(text, sig_pattern(sigs[0])) {
            Some(offset) => match rva_of(sections, start + offset) {
                Some(rva) => Some((sigs[0], rva)),
                None => located(sections, start, text, sigs.drop_first()),
            },
            None => located(sections, start, text, sigs.drop_first()),
        }
    }
}

/// The address of the function does not fit in 32 bits.
pub open spec fn address_overflows(
    sections: Seq<SectionInfo>,
    start: int,
    text: Seq<u8>,
    sigs: Seq<Seq<char>>,
) -> bool {
    located(sections, start, text, sigs) matches Some((_, rva)) && rva > u32::MAX
}

/// The outcome of looking for one function.
pub enum Lookup {
    Found { sig: &'static str, rva: u32 },
    Missing,
    AddressOverflow,
}

/// Looks for a function in the code `text`, which stands at file offset `start`.
pub fn look_up(pe: &PeFile<'_>, start: usize, text: &[u8], def: &SignatureDefinition) -> (r: Lookup)
    requires
        start + text@.len() <= usize::MAX,
    ensures
        match r {
            Lookup::Found { sig, rva } => located(pe.table(), start as int, text@, def@.1) == Some(
                (sig@, rva as int),
            ),
            Lookup::Missing => located(pe.table(), start as int, text@, def@.1) is None,
            Lookup::AddressOverflow => address_overflows(pe.table(), start as int, text@, def@.1),
        },
{
    let ghost sigs = def@.1;
    let mut i: usize = 0;
    assert(sigs.skip(0) =~= sigs);
    while i < def.sigs.len()
        invariant
            i <= def.sigs@.len(),
            start + text@.len() <= usize::MAX,
            sigs == def@.1,
            located(pe.table(), start as int, text@, sigs) == located(
                pe.table(),
                start as int,
                text@,
                sigs.skip(i as int),
            ),
        decreases def.sigs@.len() - i,
    {
        let sig: &'static str = def.sigs[i];
        let ghost rest = sigs.skip(i as int);
        assert(rest[0] == sig@);
        assert(rest.drop_first() =~= sigs.skip(i + 1));
        let pattern: Vec<Option<u8>> = parse_sig(sig);
        if let Some(offset) = scan_pattern(text, pattern.as_slice()) {
            let file_offset: usize = start + offset;
            if !pe.has_rva_in_range(file_offset) {
                return Lookup::AddressOverflow;
            }
            if let Some(rva) = pe.file_offset_to_rva(file_offset) {
                return Lookup::Found { sig, rva };
            }
        }
        i += 1;
    }
    Lookup::Missing
}

// ---------------------------------------------------------------------------
// The pattern file
// ---------------------------------------------------------------------------

/// The line that opens the entry of a function: its hash in brackets, as eight
/// hexadecimal digits.
pub open spec fn header_line(name: Seq<char>) -> Seq<char> {
    "[0x"@ + zero_padded(hexadecimal(fnv1a(vstd::utf8::encode_utf8(name)) as nat), 8) + "]"@
}

/// The entry of a function in the pattern file.
pub open spec fn entry_lines(name: Seq<char>, sig: Seq<char>, rva: int) -> Seq<Seq<char>> {
    seq![
        header_line(name),
        "name = \""@ + name + "\""@,
        "rva = \"0x"@ + hexadecimal(rva as nat) + "\""@,
        "sig = \""@ + sig + "\""@,
        ""@,
    ]
}

/// The lines of the pattern file: the entries of the functions that were found, in the
/// order of the table.
pub open spec fn report_lines(
    sections: Seq<SectionInfo>,
    start: int,
    text: Seq<u8>,
    table: Seq<(Seq<char>, Seq<Seq<char>>)>,
) -> Seq<Seq<char>>
    decreases table.len(),
{
    if table.len() == 0 {
        Seq::empty()
    } else {
        let before = report_lines(sections, start, text, table.drop_last());
        match located(sections, start, text, table.last().1) {
            Some((sig, rva)) => before + entry_lines(table.last().0, sig, rva),
            None => before,
        }
    }
}

/// The names of the functions that were not found, in the order of the table.
pub open spec fn missing_names(
    sections: Seq<SectionInfo>,
    start: int,
    text: Seq<u8>,
    table: Seq<(Seq<char>, Seq<Seq<char>>)>,
) -> Seq<Seq<char>>
    decreases table.len(),
{
    if table.len() == 0 {
        Seq::empty()
    } else {
        let before = missing_names(sections, start, text, table.drop_last());
        match located(sections, start, text, table.last().1) {
            Some(_) => before,
            None => before.push(table.last().0),
        }
    }
}

/// What a scan brings: the lines of the pattern file, and the names of the functions
/// that were not found.
pub struct ScanReport {
    pub lines: Vec<String>,
    pub missing: Vec<String>,
}

/// The warning for a function that was not found.
pub fn missing_warning(name: &str) -> (r: String)
    ensures
        r@ == "[WARNING] Could not find pattern for function: "@ + name@,
{
    join2("[WARNING] Could not find pattern for function: ", name)
}

/// Why there is no report.
pub enum ScanError {
    /// The file cannot be read as an image; the text says why.
    NotAnImage(&'static str),
    /// No section is named `.text`.
    NoTextSection,
    /// The `.text` section reaches beyond the end of the file.
    TextBeyondFile,
    /// A function was found at an address that does not fit in 32 bits.
    AddressOverflow,
}

/// The text of a file with the given lines.
pub open spec fn lines_text(lines: Seq<Seq<char>>) -> Seq<char>
    decreases lines.len(),
{
    if lines.len() == 0 {
        Seq::empty()
    } else {
        lines_text(lines.drop_last()) + lines.last() + "\n"@
    }
}

/// The text of a file with the given lines, each of them ended by a line feed.
pub fn file_text(lines: &Vec<String>) -> (r: String)
    ensures
        r@ == lines_text(texts(lines@)),
{
    let ghost all = texts(lines@);
    let mut out: String = String::new();
    let mut i: usize = 0;
    assert(all.take(0) =~= Seq::<Seq<char>>::empty());
    while i < lines.len()
        invariant
            i <= lines@.len(),
            all == texts(lines@),
            out@ == lines_text(all.take(i as int)),
        decreases lines@.len() - i,
    {
        assert(all.take(i + 1).drop_last() =~= all.take(i as int));
        assert(all.take(i + 1).last() == lines@[i as int]@);
        out.append(lines[i].as_str());
        out.append("\n");
        i += 1;
    }
    assert(all.take(i as int) =~= all);
    out
}

/// Appends the entry of a function to the lines of the pattern file.
fn push_entry(lines: &mut Vec<String>, name: &'static str, sig: &'static str, rva: u32)
    ensures
        texts(final(lines)@) == texts(old(lines)@) + entry_lines(name@, sig@, rva as int),
{
    let hash: String = hexadecimal_text(fnv1a_hash(name));
    let hash: String = zero_pad(hash.as_str(), 8);
    let address: String = hexadecimal_text(rva);
    let header: String = join3("[0x", hash.as_str(), "]");
    let name_line: String = join3("name = \"", name, "\"");
    let rva_line: String = join3("rva = \"0x", address.as_str(), "\"");
    let sig_line: String = join3("sig = \"", sig, "\"");
    let blank: String = "".to_owned();
    lines.push(header);
    lines.push(name_line);
    lines.push(rva_line);
    lines.push(sig_line);
    lines.push(blank);
    assert(texts(lines@) =~= texts(old(lines)@) + entry_lines(name@, sig@, rva as int));
}

/// Looks for every function of `defs` in section `index` of an image.
pub fn scan_section(pe: &PeFile<'_>, index: usize, defs: &Vec<SignatureDefinition>) -> (r: Option<
    ScanReport,
>)
    requires
        index < pe.table().len(),
        pe.table()[index as int].end() <= pe.data@.len(),
    ensures
        ({
            let start = pe.table()[index as int].pointer_to_raw_data;
            let text = pe.data@.subrange(start, pe.table()[index as int].end());
            let table = table_of(defs@);
            match r {
                Some(report) => {
                    &&& texts(report.lines@) == report_lines(pe.table(), start, text, table)
                    &&& texts(report.missing@) == missing_names(pe.table(), start, text, table)
                    &&& forall|d: int|
                        0 <= d < table.len() ==> !address_overflows(
                            pe.table(),
                            start,
                            text,
                            (#[trigger] table[d]).1,
                        )
                },
                None => exists|d: int|
                    0 <= d < table.len() && address_overflows(
                        pe.table(),
                        start,
                        text,
                        (#[trigger] table[d]).1,
                    ),
            }
        }),
{
    let start: usize = pe.sections[index].pointer_to_raw_data as usize;
    let text: &[u8] = pe.section_data(index);
    let ghost table = table_of(defs@);
    assert(pe.data.len() == pe.data@.len());
    let mut lines: Vec<String> = Vec::new();
    let mut missing: Vec<String> = Vec::new();
    let mut i: usize = 0;
    proof {
        assert(table.take(0) =~= Seq::<(Seq<char>, Seq<Seq<char>>)>::empty());
        assert(texts(lines@) =~= Seq::<Seq<char>>::empty());
        assert(texts(missing@) =~= Seq::<Seq<char>>::empty());
    }
    while i < defs.len()
        invariant
            i <= defs@.len(),
            table == table_of(defs@),
            start == pe.table()[index as int].pointer_to_raw_data,
            text@ == pe.data@.subrange(start as int, pe.table()[index as int].end()),
            start + text@.len() <= usize::MAX,
            texts(lines@) == report_lines(pe.table(), start as int, text@, table.take(i as int)),
            texts(missing@) == missing_names(pe.table(), start as int, text@, table.take(i as int)),
            forall|d: int|
                0 <= d < i ==> !address_overflows(
                    pe.table(),
                    start as int,
                    text@,
                    (#[trigger] table[d]).1,
                ),
        decreases defs@.len() - i,
    {
        assert(table.take(i + 1).drop_last() =~= table.take(i as int));
        assert(table.take(i + 1).last() == table[i as int]);
        assert(table[i as int] == defs@[i as int]@);
        match look_up(pe, start, text, &defs[i]) {
            Lookup::Found { sig, rva } => {
                push_entry(&mut lines, defs[i].name, sig, rva);
            },
            Lookup::Missing => {
                let name: String = defs[i].name.to_owned();
                proof {
                    lemma_texts_push(missing@, name);
                }
                missing.push(name);
            },
            Lookup::AddressOverflow => {
                return None;
            },
        }
        i += 1;
    }
    assert(table.take(i as int) =~= table);
    Some(ScanReport { lines, missing })
}

/// The section of the bytes that holds the code, as `located` takes it.
pub open spec fn text_of(data: Seq<u8>) -> Seq<u8> {
    let section = sections_of(data)[text_index(sections_of(data))->0];
    data.subrange(section.pointer_to_raw_data, section.end())
}

/// The file offset of the code.
pub open spec fn text_start(data: Seq<u8>) -> int {
    sections_of(data)[text_index(sections_of(data))->0].pointer_to_raw_data
}

/// The end of the code lies within the file.
pub open spec fn text_in_file(data: Seq<u8>) -> bool {
    sections_of(data)[text_index(sections_of(data))->0].end() <= data.len()
}

/// Some function of the table was found at an address that does not fit in 32 bits.
pub open spec fn some_address_overflows(
    data: Seq<u8>,
    table: Seq<(Seq<char>, Seq<Seq<char>>)>,
) -> bool {
    exists|d: int|
        0 <= d < table.len() && address_overflows(
            sections_of(data),
            text_start(data),
            text_of(data),
            (#[trigger] table[d]).1,
        )
}

/// Scans the bytes of a DLL for the functions of a component.
pub fn scan_image(data: &[u8], component: Component) -> (r: Result<ScanReport, ScanError>)
    ensures
        image_error(data@) is None ==> names_decoded(data@),
        match r {
            Err(ScanError::NotAnImage(message)) => image_error(data@) == Some(message@),
            Err(ScanError::NoTextSection) => {
                &&& image_error(data@) is None
                &&& text_index(sections_of(data@)) is None
            },
            Err(ScanError::TextBeyondFile) => {
                &&& image_error(data@) is None
                &&& text_index(sections_of(data@)) is Some
                &&& !text_in_file(data@)
            },
            Err(ScanError::AddressOverflow) => {
                &&& image_error(data@) is None
                &&& text_index(sections_of(data@)) is Some
                &&& text_in_file(data@)
                &&& some_address_overflows(data@, component_table(component))
            },
            Ok(report) => {
                &&& image_error(data@) is None
                &&& text_index(sections_of(data@)) is Some
                &&& text_in_file(data@)
                &&& !some_address_overflows(data@, component_table(component))
                &&& texts(report.lines@) == report_lines(
                    sections_of(data@),
                    text_start(data@),
                    text_of(data@),
                    component_table(component),
                )
                &&& texts(report.missing@) == missing_names(
                    sections_of(data@),
                    text_start(data@),
                    text_of(data@),
                    component_table(component),
                )
            },
        },
{
    let pe: PeFile<'_> = match PeFile::parse(data) {
        Ok(pe) => pe,
        Err(message) => {
            return Err(ScanError::NotAnImage(message));
        },
    };
    let index: usize = match pe.text_section() {
        Some(index) => index,
        None => {
            return Err(ScanError::NoTextSection);
        },
    };
    if !pe.section_in_file(index) {
        return Err(ScanError::TextBeyondFile);
    }
    let defs: Vec<SignatureDefinition> = component.definitions();
    match scan_section(&pe, index, &defs) {
        Some(report) => Ok(report),
        None => Err(ScanError::AddressOverflow),
    }
}

// ---------------------------------------------------------------------------
// Laws
// ---------------------------------------------------------------------------

/// A function is found in the raw data of a section exactly where one of its signatures
/// occurs there.
pub proof fn law_found_where_a_signature_occurs(
    sections: Seq<SectionInfo>,
    i: int,
    data: Seq<u8>,
    sigs: Seq<Seq<char>>,
)
    requires
        0 <= i < sections.len(),
        0 <= sections[i].pointer_to_raw_data <= sections[i].end() <= data.len(),
    ensures
        ({
            let start = sections[i].pointer_to_raw_data;
            let text = data.subrange(start, sections[i].end());
            located(sections, start, text, sigs) is Some <==> exists|k: int|
                0 <= k < sigs.len() && first_match(text, sig_pattern(#[trigger] sigs[k])) is Some
        }),
    decreases sigs.len(),
{
    let start = sections[i].pointer_to_raw_data;
    let text = data.subrange(start, sections[i].end());
    if sigs.len() > 0 {
        let rest = sigs.drop_first();
        law_found_where_a_signature_occurs(sections, i, data, rest);
        match first_match(text, sig_pattern(sigs[0])) {
            Some(offset) => {
                let pattern = sig_pattern(sigs[0]);
                let f = choose|f: int| crate::pattern::is_first_match(text, pattern, f);
                assert(crate::pattern::is_first_match(text, pattern, f));
                law_section_offsets_have_addresses(sections, i, start + offset);
            },
            None => {
                if located(sections, start, text, sigs) is Some {
                    let k = choose|k: int|
                        0 <= k < rest.len() && first_match(text, sig_pattern(#[trigger] rest[k])) is Some;
                    assert(rest[k] == sigs[k + 1]);
                }
                if exists|k: int|
                    0 <= k < sigs.len() && first_match(text, sig_pattern(#[trigger] sigs[k])) is Some {
                    let k = choose|k: int|
                        0 <= k < sigs.len() && first_match(text, sig_pattern(#[trigger] sigs[k])) is Some;
                    assert(rest[k - 1] == sigs[k]);
                }
            },
        }
    }
}

/// Every function of the table is either reported, with five lines, or named as missing.
pub proof fn law_every_function_is_accounted_for(
    sections: Seq<SectionInfo>,
    start: int,
    text: Seq<u8>,
    table: Seq<(Seq<char>, Seq<Seq<char>>)>,
)
    ensures
        report_lines(sections, start, text, table).len() == 5 * (table.len() - missing_names(
            sections,
            start,
            text,
            table,
        ).len()),
    decreases table.len(),
{
    if table.len() > 0 {
        law_every_function_is_accounted_for(sections, start, text, table.drop_last());
    }
}

/// A lower-case name that holds `steamui` names that component; one that holds `steamclient`
/// and not `steamui` names the other; and a name that holds neither names none.
pub proof fn law_components_are_named_anywhere(a: Seq<char>, b: Seq<char>, name: Seq<char>)
    ensures
        component_named(a + "steamui"@ + b) == Some(Component::SteamUi),
        component_named(a + "steamclient"@ + b) is Some,
        component_named(name) == Some(Component::SteamUi) <==> occurs_in("steamui"@, name),
        component_named(name) == Some(Component::SteamClient) <==> occurs_in("steamclient"@, name)
            && !occurs_in("steamui"@, name),
        component_named(name) is None <==> !occurs_in("steamclient"@, name) && !occurs_in(
            "steamui"@,
            name,
        ),
{
    crate::text::law_occurrence_is_a_part(a, "steamui"@, b);
    crate::text::law_occurrence_is_a_part(a, "steamclient"@, b);
}

/// The capital letters become the small ones, and nothing else changes.
pub proof fn law_capitals_become_small(c: char)
    ensures
        'A' <= c <= 'Z' ==> ascii_lower(c) as int == c as int + ('a' as int - 'A' as int),
        !('A' <= c <= 'Z') ==> ascii_lower(c) == c,
{
}

/// Each component has its own table.
pub proof fn law_components_have_their_tables()
    ensures
        component_table(Component::SteamClient) == steamclient_table(),
        component_table(Component::SteamUi) == steamui_table(),
{
}

/// The first signature that occurs in the code at an offset with an address decides, with
/// the address of its lowest occurrence; a function none of whose signatures does is not
/// found.
pub proof fn law_first_signature_decides(
    sections: Seq<SectionInfo>,
    start: int,
    text: Seq<u8>,
    sigs: Seq<Seq<char>>,
    k: int,
)
    ensures
        0 <= k < sigs.len() && first_match(text, sig_pattern(sigs[k])) is Some && rva_of(
            sections,
            start + first_match(text, sig_pattern(sigs[k]))->0,
        ) is Some && (forall|j: int|
            0 <= j < k ==> first_match(text, sig_pattern(#[trigger] sigs[j])) is None || rva_of(
                sections,
                start + first_match(text, sig_pattern(sigs[j]))->0,
            ) is None) ==> located(sections, start, text, sigs) == Some(
            (sigs[k], rva_of(sections, start + first_match(text, sig_pattern(sigs[k]))->0)->0),
        ),
        (forall|j: int|
            0 <= j < sigs.len() ==> first_match(text, sig_pattern(#[trigger] sigs[j])) is None
                || rva_of(sections, start + first_match(text, sig_pattern(sigs[j]))->0) is None)
            ==> located(sections, start, text, sigs) is None,
    decreases sigs.len(),
{
    if sigs.len() > 0 {
        let rest = sigs.drop_first();
        law_first_signature_decides(sections, start, text, rest, k - 1);
        assert(forall|j: int| 0 <= j < rest.len() ==> #[trigger] rest[j] == sigs[j + 1]);
        assert(sigs[0] == sigs[0]);
    }
}

/// Each function adds its own entry to the pattern file, behind those of the functions
/// before it: its hash, its name, the address and the signature that were found for it, and
/// an empty line. A function that was not found adds its name to the missing ones instead.
pub proof fn law_each_function_adds_its_entry(
    sections: Seq<SectionInfo>,
    start: int,
    text: Seq<u8>,
    table: Seq<(Seq<char>, Seq<Seq<char>>)>,
    name: Seq<char>,
    sigs: Seq<Seq<char>>,
)
    ensures
        report_lines(sections, start, text, Seq::empty()) == Seq::<Seq<char>>::empty(),
        missing_names(sections, start, text, Seq::empty()) == Seq::<Seq<char>>::empty(),
        located(sections, start, text, sigs) matches Some((sig, rva)) ==> {
            &&& report_lines(sections, start, text, table.push((name, sigs))) == report_lines(
                sections,
                start,
                text,
                table,
            ) + seq![
                "[0x"@ + zero_padded(hexadecimal(fnv1a(vstd::utf8::encode_utf8(name)) as nat), 8)
                    + "]"@,
                "name = \""@ + name + "\""@,
                "rva = \"0x"@ + hexadecimal(rva as nat) + "\""@,
                "sig = \""@ + sig + "\""@,
                ""@,
            ]
            &&& missing_names(sections, start, text, table.push((name, sigs))) == missing_names(
                sections,
                start,
                text,
                table,
            )
        },
        located(sections, start, text, sigs) is None ==> {
            &&& report_lines(sections, start, text, table.push((name, sigs))) == report_lines(
                sections,
                start,
                text,
                table,
            )
            &&& missing_names(sections, start, text, table.push((name, sigs))) == missing_names(
                sections,
                start,
                text,
                table,
            ).push(name)
        },
{
    assert(table.push((name, sigs)).drop_last() =~= table);
    assert(table.push((name, sigs)).last() == (name, sigs));
}

/// A file is the sequence of its lines, each with a line feed behind it.
pub proof fn law_each_line_is_ended(lines: Seq<Seq<char>>, line: Seq<char>)
    ensures
        lines_text(Seq::empty()) == Seq::<char>::empty(),
        lines_text(lines.push(line)) == lines_text(lines) + line + "\n"@,
{
    assert(lines.push(line).drop_last() =~= lines);
}

/// The code that is searched is all of the raw data of the first `.text` section: from its
/// pointer on, as many bytes as its size says.
pub proof fn law_all_of_the_code_is_searched(data: Seq<u8>, i: int)
    requires
        text_index(sections_of(data)) == Some(i),
        0 <= i < sections_of(data).len(),
    ensures
        text_start(data) == sections_of(data)[i].pointer_to_raw_data,
        text_in_file(data) <==> sections_of(data)[i].pointer_to_raw_data
            + sections_of(data)[i].size_of_raw_data <= data.len(),
        0 <= sections_of(data)[i].pointer_to_raw_data && 0 <= sections_of(data)[i].size_of_raw_data
            && text_in_file(data) ==> {
            &&& text_of(data).len() == sections_of(data)[i].size_of_raw_data
            &&& forall|k: int|
                0 <= k < text_of(data).len() ==> #[trigger] text_of(data)[k]
                    == data[sections_of(data)[i].pointer_to_raw_data + k]
        },
{
}

/// An address is too large exactly where some function was found at an address above the
/// largest 32-bit number.
pub proof fn law_overflow_is_above_32_bits(data: Seq<u8>, table: Seq<(Seq<char>, Seq<Seq<char>>)>)
    ensures
        some_address_overflows(data, table) <==> exists|d: int|
            0 <= d < table.len() && (located(
                sections_of(data),
                text_start(data),
                text_of(data),
                (#[trigger] table[d]).1,
            ) matches Some((_, rva)) && rva > 0xffff_ffff),
{
    if exists|d: int|
        0 <= d < table.len() && (located(
            sections_of(data),
            text_start(data),
            text_of(data),
            (#[trigger] table[d]).1,
        ) matches Some((_, rva)) && rva > 0xffff_ffff) {
        let d = choose|d: int|
            0 <= d < table.len() && (located(
                sections_of(data),
                text_start(data),
                text_of(data),
                (#[trigger] table[d]).1,
            ) matches Some((_, rva)) && rva > 0xffff_ffff);
        assert(address_overflows(sections_of(data), text_start(data), text_of(data), table[d].1));
    }
}

} // verus!
