//! What the resolver reads of a PE32+ image: its headers, section table,
//! export table and thread-local-storage callbacks.
//!
//! The image is a run of bytes, a file as it lies on disk or a snapshot of a
//! module in memory. The PE reader parses the headers and tables; finding the
//! bytes behind a virtual address and walking the callback array is done here.

use vstd::prelude::*;
use vstd::bytes::spec_u64_from_le_bytes;
use vstd::slice::slice_subrange;
use byteorder::LittleEndian;
use byteorder::ReadBytesExt;
use object::pe::ImageTlsDirectory64;
use object::read::pe::ExportTarget;
use object::read::pe::ImageNtHeaders;
use object::read::pe::ImageOptionalHeader;
use object::read::pe::PeFile64;
use object::Object;
use object::ReadRef;

verus! {

/// `machine` of an image for 32-bit x86.
pub const MACHINE_I386: u16 = 0x014c;

/// `machine` of an image for 64-bit x86.
pub const MACHINE_AMD64: u16 = 0x8664;

/// Index of the thread-local-storage entry among the data directories.
pub const DIRECTORY_TLS: usize = 9;

/// Section characteristic: the section holds code.
pub const SECTION_CODE: u32 = 0x0000_0020;

/// Section characteristic: the section may be executed.
pub const SECTION_EXECUTE: u32 = 0x2000_0000;

/// Bytes of a thread-local-storage directory of a PE32+ image.
pub const TLS_DIRECTORY_SIZE: usize = 40;

/// Offset of the address of the callback array in that directory.
pub const TLS_CALLBACKS_OFFSET: usize = 24;

/// Why an image could not be resolved.
#[derive(Copy, Clone, Debug, PartialEq, Eq, Structural)]
pub enum ImageError {
    /// The bytes are not a PE32+ image, or one of its tables is broken.
    Malformed,
    /// The image is for a machine other than 32-bit or 64-bit x86.
    UnsupportedImage,
}

/// The header fields that the resolver reads.
#[derive(Copy, Clone, Debug, PartialEq, Eq, Structural)]
pub struct ImageHeaders {
    pub machine: u16,
    pub image_base: u64,
    pub entry_point: u32,
    pub size_of_image: u32,
}

/// One entry of the section table.
#[derive(Copy, Clone, Debug, PartialEq, Eq, Structural)]
pub struct SectionHeader {
    pub virtual_address: u32,
    pub virtual_size: u32,
    pub pointer_to_raw_data: u32,
    pub size_of_raw_data: u32,
    pub characteristics: u32,
}

/// One entry of the export table. `target` is the address of the export,
/// relative to the image base, or `None` for an export that is forwarded to
/// another module.
#[derive(Clone, Debug, PartialEq, Eq)]
pub struct ExportEntry {
    pub ordinal: u32,
    pub target: Option<u32>,
    pub name: Option<Vec<u8>>,
}

/// What an `ExportEntry` holds, with its name as a sequence.
pub ghost struct ExportSpec {
    pub ordinal: u32,
    pub target: Option<u32>,
    pub name: Option<Seq<u8>>,
}

impl View for ExportEntry {
    type V = ExportSpec;

    open spec fn view(&self) -> ExportSpec {
        ExportSpec {
            ordinal: self.ordinal,
            target: self.target,
            name: match self.name {
                Some(name) => Some(name@),
                None => None,
            },
        }
    }
}

/// The views of a run of export entries.
pub open spec fn export_views(entries: Seq<ExportEntry>) -> Seq<ExportSpec> {
    Seq::new(entries.len(), |i: int| entries[i]@)
}

/// The error of the PE reader, `object::read::Error`. Nothing is read of
/// it but that it is one.
#[verifier::external_type_specification]
#[verifier::external_body]
pub struct ExReadError(object::read::Error);

/// The headers that the PE reader finds in `data`, or `None` where it
/// rejects the bytes.
pub uninterp spec fn pe_headers_of(data: Seq<u8>) -> Option<ImageHeaders>;

/// The section table that the PE reader finds in `data`.
pub uninterp spec fn pe_sections_of(data: Seq<u8>) -> Option<Seq<SectionHeader>>;

/// Address and size of the data directory at `index`, where the image has
/// one with an address other than zero.
pub uninterp spec fn pe_directory_of(data: Seq<u8>, index: int) -> Option<(u32, u32)>;

/// The export table that the PE reader finds in `data`: `None` where it
/// rejects the image or the table, `Some(None)` for an image without an
/// export directory.
pub uninterp spec fn pe_exports_of(data: Seq<u8>) -> Option<Option<Seq<ExportSpec>>>;

/// Parses `data` with `object::read::pe::PeFile64::parse` and copies out the
/// machine of the file header, the image base, and the entry point and image
/// size of the optional header. The error is the reader's own.
#[verifier::external_body]
pub(crate) fn read_headers(data: &[u8]) -> (r: Result<ImageHeaders, object::read::Error>)
    ensures
        r is Ok <==> pe_headers_of(data@) is Some,
        r matches Ok(headers) ==> Some(headers) == pe_headers_of(data@),
{
    let file = PeFile64::parse(data)?;
    let optional = file.nt_headers().optional_header();
    Ok(ImageHeaders {
        machine: file.nt_headers().file_header().machine.get(object::LittleEndian).0,
        image_base: file.relative_address_base(),
        entry_point: optional.address_of_entry_point(),
        size_of_image: optional.size_of_image(),
    })
}

/// Parses `data` with `PeFile64::parse` and copies out each header of
/// `PeFile::section_table`, in table order. `None` where the image does not
/// parse.
#[verifier::external_body]
pub(crate) fn read_sections(data: &[u8]) -> (r: Option<Vec<SectionHeader>>)
    ensures
        r is Some <==> pe_sections_of(data@) is Some,
        r matches Some(sections) ==> Some(sections@) == pe_sections_of(data@),
{
    let file = PeFile64::parse(data).ok()?;
    Some(file.section_table().iter().map(|s| SectionHeader {
        virtual_address: s.virtual_address.get(object::LittleEndian),
        virtual_size: s.virtual_size.get(object::LittleEndian),
        pointer_to_raw_data: s.pointer_to_raw_data.get(object::LittleEndian),
        size_of_raw_data: s.size_of_raw_data.get(object::LittleEndian),
        characteristics: s.characteristics.get(object::LittleEndian).0,
    }).collect())
}

/// Parses `data` with `PeFile64::parse` and reads the entry at `index` with
/// `PeFile::data_directory`, which gives none for an index past the table and
/// for an entry whose address is zero. The pair is the entry's
/// `address_range`: its virtual address and its size.
#[verifier::external_body]
pub(crate) fn read_directory(data: &[u8], index: usize) -> (r: Option<(u32, u32)>)
    ensures
        r == pe_directory_of(data@, index as int),
{
    let file = PeFile64::parse(data).ok()?;
    file.data_directory(index).map(|d| d.address_range())
}

/// Parses `data` with `PeFile64::parse`, finds the export table with
/// `PeFile::export_table` and lists it with `ExportTable::exports`, in the
/// order of the address table: its ordinal, its address unless it is
/// forwarded, and the bytes of its name where it has one. The error is the
/// reader's own.
#[verifier::external_body]
pub(crate) fn read_exports(data: &[u8]) -> (r: Result<Option<Vec<ExportEntry>>, object::read::Error>)
    ensures
        r is Ok <==> pe_exports_of(data@) is Some,
        r matches Ok(Some(exports)) ==> pe_exports_of(data@) == Some(Some(export_views(exports@))),
        r matches Ok(None) ==> pe_exports_of(data@) == Some(None::<Seq<ExportSpec>>),
{
    let table = match PeFile64::parse(data)?.export_table()? {
        Some(table) => table,
        None => return Ok(None),
    };
    Ok(Some(table.exports()?.iter().map(|e| ExportEntry {
        ordinal: e.ordinal.0 as u32,
        target: match e.target {
            ExportTarget::Address(rva) => Some(rva),
            _ => None,
        },
        name: e.name.map(|n| n.to_vec()),
    }).collect()))
}

/// Reads the directory with `object::ReadRef::read_at` as an
/// `ImageTlsDirectory64` and gives its `address_of_call_backs`: the
/// little-endian number in the eight bytes at offset 24, where the directory
/// has its full forty bytes.
#[verifier::external_body]
pub(crate) fn read_callbacks_address(directory: &[u8]) -> (r: Option<u64>)
    ensures
        r == if directory@.len() >= TLS_DIRECTORY_SIZE {
            Some(spec_u64_from_le_bytes(directory@.subrange(TLS_CALLBACKS_OFFSET as int, TLS_CALLBACKS_OFFSET + 8)))
        } else {
            None
        },
{
    directory.read_at::<ImageTlsDirectory64>(0).ok().map(|d| d.address_of_call_backs.get(object::LittleEndian))
}

/// Reads one number with `byteorder::ReadBytesExt::read_u64::<LittleEndian>`
/// from the front of `bytes`: the little-endian number in the first eight
/// bytes, or nothing where there are fewer.
#[verifier::external_body]
pub(crate) fn read_u64_le(bytes: &[u8]) -> (r: Option<u64>)
    ensures
        r == if bytes@.len() >= 8 {
            Some(spec_u64_from_le_bytes(bytes@.subrange(0, 8)))
        } else {
            None
        },
{
    let mut cursor = bytes;
    cursor.read_u64::<LittleEndian>().ok()
}

impl SectionHeader {
    /// Bytes of the section that the file holds: the smaller of its size in
    /// memory and its size in the file.
    pub open spec fn file_size(self) -> u32 {
        if self.virtual_size < self.size_of_raw_data {
            self.virtual_size
        } else {
            self.size_of_raw_data
        }
    }

    /// Whether `va` lies in the section as it stands in memory.
    pub open spec fn contains(self, va: u32) -> bool {
        self.virtual_address <= va && va - self.virtual_address < self.virtual_size
    }

    /// File offset of `va` and the bytes from there to the end of the
    /// section, where the file holds the byte at `va`.
    pub open spec fn file_range_at(self, va: u32) -> Option<(u32, u32)> {
        if self.virtual_address <= va && va - self.virtual_address < self.file_size()
            && self.pointer_to_raw_data + (va - self.virtual_address) <= u32::MAX {
            Some(
                (
                    (self.pointer_to_raw_data + (va - self.virtual_address)) as u32,
                    (self.file_size() - (va - self.virtual_address)) as u32,
                ),
            )
        } else {
            None
        }
    }

    /// Whether the section holds code or may be executed.
    pub open spec fn is_executable(self) -> bool {
        self.characteristics & (SECTION_CODE | SECTION_EXECUTE) != 0
    }

    /// Whether `va` lies in the section as it stands in memory.
    pub fn contains_rva(&self, va: u32) -> (r: bool)
        ensures
            r == self.contains(va),
    {
        self.virtual_address <= va && va - self.virtual_address < self.virtual_size
    }

    /// File offset of `va` and the bytes from there to the end of the
    /// section, where the file holds the byte at `va`.
    pub fn range_at(&self, va: u32) -> (r: Option<(u32, u32)>)
        ensures
            r == self.file_range_at(va),
    {
        let size = if self.virtual_size < self.size_of_raw_data {
            self.virtual_size
        } else {
            self.size_of_raw_data
        };
        if va < self.virtual_address {
            return None;
        }
        let offset = va - self.virtual_address;
        if offset >= size {
            return None;
        }
        match self.pointer_to_raw_data.checked_add(offset) {
            Some(start) => Some((start, size - offset)),
            None => None,
        }
    }

    /// Whether the section holds code or may be executed.
    pub fn executable(&self) -> (r: bool)
        ensures
            r == self.is_executable(),
    {
        self.characteristics & (SECTION_CODE | SECTION_EXECUTE) != 0
    }
}

/// Index of the first section from `from` on that contains `va`, or the
/// number of sections if none does.
pub open spec fn section_index(sections: Seq<SectionHeader>, va: u32, from: int) -> int
    decreases sections.len() - from,
{
    if from < 0 || from >= sections.len() {
        sections.len() as int
    } else if sections[from].contains(va) {
        from
    } else {
        section_index(sections, va, from + 1)
    }
}

/// Offset and length of the bytes from `va` to the end of its section: the
/// range of the first section from `from` on that holds `va` in the file and
/// whose range lies within `length` bytes of data.
pub open spec fn data_range_at(sections: Seq<SectionHeader>, length: int, va: u32, from: int) -> Option<(int, int)>
    decreases sections.len() - from,
{
    if from < 0 || from >= sections.len() {
        None
    } else {
        match sections[from].file_range_at(va) {
            Some((offset, size)) if offset + size <= length => Some((offset as int, size as int)),
            _ => data_range_at(sections, length, va, from + 1),
        }
    }
}

/// The first section that contains `va`.
pub fn find_section(sections: &Vec<SectionHeader>, va: u32) -> (r: Option<usize>)
    ensures
        match r {
            Some(i) => i == section_index(sections@, va, 0) && i < sections@.len(),
            None => section_index(sections@, va, 0) == sections@.len(),
        },
{
    let mut i: usize = 0;
    while i < sections.len()
        invariant
            i <= sections@.len(),
            section_index(sections@, va, i as int) == section_index(sections@, va, 0),
        decreases sections@.len() - i,
    {
        if sections[i].contains_rva(va) {
            return Some(i);
        }
        i += 1;
    }
    None
}

/// Offset and length, in `length` bytes of data, of the bytes from `va` to
/// the end of its section.
pub fn find_data(sections: &Vec<SectionHeader>, length: usize, va: u32) -> (r: Option<(usize, usize)>)
    ensures
        match r {
            Some((offset, size)) => data_range_at(sections@, length as int, va, 0) == Some((offset as int, size as int))
                && offset + size <= length && size >= 1,
            None => data_range_at(sections@, length as int, va, 0) is None,
        },
{
    let mut i: usize = 0;
    while i < sections.len()
        invariant
            i <= sections@.len(),
            data_range_at(sections@, length as int, va, i as int) == data_range_at(sections@, length as int, va, 0),
        decreases sections@.len() - i,
    {
        match sections[i].range_at(va) {
            Some((offset, size)) => {
                if offset as u64 + size as u64 <= length as u64 {
                    return Some((offset as usize, size as usize));
                }
            },
            None => {},
        }
        i += 1;
    }
    None
}

/// What stands at `rva`: whether its section is executable, and
/// the range of the bytes from `rva` to the end of the section.
pub open spec fn located(sections: Seq<SectionHeader>, length: int, rva: u64) -> Option<(bool, int, int)> {
    if rva > u32::MAX {
        None
    } else {
        let index = section_index(sections, rva as u32, 0);
        if index >= sections.len() {
            None
        } else {
            match sections[index].file_range_at(rva as u32) {
                Some((offset, size)) if offset + size <= length => Some(
                    (sections[index].is_executable(), offset as int, offset + size),
                ),
                _ => None,
            }
        }
    }
}

/// `a - b` in 64-bit arithmetic that wraps around.
pub open spec fn wrapping_difference(a: u64, b: u64) -> u64 {
    if a >= b {
        (a - b) as u64
    } else {
        (a - b + 0x1_0000_0000_0000_0000) as u64
    }
}

/// The low 32 bits of `x`.
pub open spec fn low_half(x: u64) -> u32 {
    (x % 0x1_0000_0000) as u32
}

/// `a - b` in 64-bit arithmetic that wraps around.
pub fn difference(a: u64, b: u64) -> (r: u64)
    ensures
        r == wrapping_difference(a, b),
{
    if a >= b {
        a - b
    } else {
        (u64::MAX - b) + a + 1
    }
}

/// Offset and length, in `data`, of the array of thread-local-storage
/// callbacks: the bytes from the array's address to the end of its section.
/// `None` for an image without the directory, with a directory that does not
/// lie in the data in full, or with an array outside every section.
pub open spec fn callback_array(data: Seq<u8>, base: u64, sections: Seq<SectionHeader>, directory: Option<(u32, u32)>) -> Option<(int, int)> {
    match directory {
        None => None,
        Some((va, size)) => match data_range_at(sections, data.len() as int, va, 0) {
            None => None,
            Some((offset, available)) => {
                if size > available || size < TLS_DIRECTORY_SIZE {
                    None
                } else {
                    let address = spec_u64_from_le_bytes(
                        data.subrange(offset + TLS_CALLBACKS_OFFSET, offset + TLS_CALLBACKS_OFFSET + 8),
                    );
                    data_range_at(sections, data.len() as int, low_half(wrapping_difference(address, base)), 0)
                }
            },
        },
    }
}

/// The callbacks that `bytes` lists: the little-endian 64-bit numbers up to
/// the first zero. `None` where the bytes end before a zero.
pub open spec fn callbacks_in(bytes: Seq<u8>) -> Option<Seq<u64>>
    decreases bytes.len(),
{
    if bytes.len() < 8 {
        None
    } else {
        let value = spec_u64_from_le_bytes(bytes.subrange(0, 8));
        if value == 0 {
            Some(Seq::empty())
        } else {
            match callbacks_in(bytes.skip(8)) {
                Some(rest) => Some(seq![value] + rest),
                None => None,
            }
        }
    }
}

/// The callback with ordinal `n` that `bytes` lists, if the first `n + 1`
/// numbers are there and none of them is zero.
pub open spec fn callback_at(bytes: Seq<u8>, n: nat) -> Option<u64>
    decreases n,
{
    if bytes.len() < 8 {
        None
    } else {
        let value = spec_u64_from_le_bytes(bytes.subrange(0, 8));
        if value == 0 {
            None
        } else if n == 0 {
            Some(value)
        } else {
            callback_at(bytes.skip(8), (n - 1) as nat)
        }
    }
}

/// Walks the callback array in `bytes` up to its zero terminator.
pub fn read_callbacks(bytes: &[u8]) -> (r: Option<Vec<u64>>)
    ensures
        r is Some <==> callbacks_in(bytes@) is Some,
        r matches Some(callbacks) ==> Some(callbacks@) == callbacks_in(bytes@),
{
    let mut callbacks: Vec<u64> = Vec::new();
    let mut position: usize = 0;
    proof {
        assert(bytes@.skip(0) =~= bytes@);
        match callbacks_in(bytes@) {
            Some(all) => {
                assert(callbacks@ + all =~= all);
            },
            None => {},
        }
    }
    loop
        invariant
            position <= bytes@.len(),
            callbacks_in(bytes@) == match callbacks_in(bytes@.skip(position as int)) {
                Some(rest) => Some(callbacks@ + rest),
                None => None,
            },
        decreases bytes@.len() - position,
    {
        let rest = slice_subrange(bytes, position, bytes.len());
        proof {
            assert(rest@ =~= bytes@.skip(position as int));
        }
        match read_u64_le(rest) {
            None => {
                return None;
            },
            Some(value) => {
                if value == 0 {
                    proof {
                        assert(callbacks@ + Seq::<u64>::empty() =~= callbacks@);
                    }
                    return Some(callbacks);
                }
                proof {
                    assert(bytes@.skip(position as int).skip(8) =~= bytes@.skip(position + 8));
                    match callbacks_in(bytes@.skip(position + 8)) {
                        Some(tail) => {
                            assert(callbacks@ + (seq![value] + tail) =~= callbacks@.push(value) + tail);
                        },
                        None => {},
                    }
                }
                callbacks.push(value);
                position += 8;
            },
        }
    }
}

/// Walks the callback array in `bytes` up to the callback with ordinal `n`.
pub fn read_callback(bytes: &[u8], n: usize) -> (r: Option<u64>)
    ensures
        r == callback_at(bytes@, n as nat),
{
    let mut position: usize = 0;
    let mut left: usize = n;
    proof {
        assert(bytes@.skip(0) =~= bytes@);
    }
    loop
        invariant
            position <= bytes@.len(),
            callback_at(bytes@, n as nat) == callback_at(bytes@.skip(position as int), left as nat),
        decreases left,
    {
        let rest = slice_subrange(bytes, position, bytes.len());
        proof {
            assert(rest@ =~= bytes@.skip(position as int));
        }
        match read_u64_le(rest) {
            None => {
                return None;
            },
            Some(value) => {
                if value == 0 {
                    return None;
                }
                if left == 0 {
                    return Some(value);
                }
                proof {
                    assert(bytes@.skip(position as int).skip(8) =~= bytes@.skip(position + 8));
                }
                left -= 1;
                position += 8;
            },
        }
    }
}

/// An image whose headers and section table have been read.
pub struct Image {
    pub headers: ImageHeaders,
    pub sections: Vec<SectionHeader>,
}

/// Whether `data` resolves: the PE reader accepts it.
pub open spec fn image_parses(data: Seq<u8>) -> bool {
    pe_headers_of(data) is Some && pe_sections_of(data) is Some
}

/// Whether the machine is 32-bit or 64-bit x86.
pub open spec fn machine_supported(machine: u16) -> bool {
    machine == MACHINE_I386 || machine == MACHINE_AMD64
}

/// Bytes of the callback array of the image in `data`, if it has one.
pub open spec fn image_callback_bytes(data: Seq<u8>) -> Option<Seq<u8>> {
    match callback_array(
        data,
        pe_headers_of(data).unwrap().image_base,
        pe_sections_of(data).unwrap(),
        pe_directory_of(data, DIRECTORY_TLS as int),
    ) {
        Some((offset, length)) => Some(data.subrange(offset, offset + length)),
        None => None,
    }
}

impl Image {
    /// The image was read from `data`.
    pub open spec fn is_image_of(&self, data: Seq<u8>) -> bool {
        &&& pe_headers_of(data) == Some(self.headers)
        &&& pe_sections_of(data) == Some(self.sections@)
        &&& machine_supported(self.headers.machine)
    }

    /// Reads the headers and the section table of `data`. Fails with
    /// `Malformed` exactly when the PE reader rejects the bytes, and with
    /// `UnsupportedImage` exactly when it accepts them and the machine is
    /// neither 32-bit nor 64-bit x86.
    pub fn parse(data: &[u8]) -> (r: Result<Image, ImageError>)
        ensures
            match r {
                Ok(image) => image.is_image_of(data@),
                Err(ImageError::Malformed) => !image_parses(data@),
                Err(ImageError::UnsupportedImage) => image_parses(data@) && !machine_supported(
                    pe_headers_of(data@).unwrap().machine,
                ),
            },
    {
        let headers = match read_headers(data) {
            Ok(headers) => headers,
            Err(_) => {
                return Err(ImageError::Malformed);
            },
        };
        let sections = match read_sections(data) {
            Some(sections) => sections,
            None => {
                return Err(ImageError::Malformed);
            },
        };
        if headers.machine != MACHINE_I386 && headers.machine != MACHINE_AMD64 {
            return Err(ImageError::UnsupportedImage);
        }
        Ok(Image { headers, sections })
    }

    /// Width of the image's code in bits: 32 for 32-bit x86, else 64.
    pub fn bitness(&self) -> (r: u32)
        ensures
            r == if self.headers.machine == MACHINE_I386 { 32u32 } else { 64u32 },
    {
        if self.headers.machine == MACHINE_I386 {
            32
        } else {
            64
        }
    }

    /// Finds the section that contains `rva`, in an image of `length` bytes:
    /// whether it is executable, and where the bytes from `rva` to its end
    /// start and end.
    pub fn locate(&self, length: usize, rva: u64) -> (r: Option<(bool, usize, usize)>)
        ensures
            match located(self.sections@, length as int, rva) {
                Some((executable, start, end)) => r == Some((executable, start as usize, end as usize)) && start <= end
                    <= length,
                None => r is None,
            },
    {
        if rva > u32::MAX as u64 {
            return None;
        }
        let va = rva as u32;
        let index = match find_section(&self.sections, va) {
            Some(index) => index,
            None => {
                return None;
            },
        };
        let section = &self.sections[index];
        match section.range_at(va) {
            Some((offset, size)) => {
                if offset as u64 + size as u64 <= length as u64 {
                    Some((section.executable(), offset as usize, offset as usize + size as usize))
                } else {
                    None
                }
            },
            None => None,
        }
    }

    /// Offset and length, in `data`, of the array of thread-local-storage
    /// callbacks.
    pub fn callback_range(&self, data: &[u8]) -> (r: Option<(usize, usize)>)
        requires
            self.is_image_of(data@),
        ensures
            match r {
                Some((offset, length)) => callback_array(
                    data@,
                    self.headers.image_base,
                    self.sections@,
                    pe_directory_of(data@, DIRECTORY_TLS as int),
                ) == Some((offset as int, length as int)) && offset + length <= data@.len(),
                None => callback_array(
                    data@,
                    self.headers.image_base,
                    self.sections@,
                    pe_directory_of(data@, DIRECTORY_TLS as int),
                ) is None,
            },
    {
        let (va, size) = match read_directory(data, DIRECTORY_TLS) {
            Some(entry) => entry,
            None => {
                return None;
            },
        };
        let (offset, available) = match find_data(&self.sections, data.len(), va) {
            Some(range) => range,
            None => {
                return None;
            },
        };
        if size as u64 > available as u64 || (size as u64) < TLS_DIRECTORY_SIZE as u64 {
            return None;
        }
        let directory = slice_subrange(data, offset, offset + size as usize);
        proof {
            assert(directory@.subrange(TLS_CALLBACKS_OFFSET as int, TLS_CALLBACKS_OFFSET + 8) =~= data@.subrange(
                offset + TLS_CALLBACKS_OFFSET,
                offset + TLS_CALLBACKS_OFFSET + 8,
            ));
        }
        let address = match read_callbacks_address(directory) {
            Some(address) => address,
            None => {
                return None;
            },
        };
        let relative = (difference(address, self.headers.image_base) % 0x1_0000_0000) as u32;
        find_data(&self.sections, data.len(), relative)
    }

    /// The thread-local-storage callbacks of the image, in the order of
    /// their ordinals. An image without a callback array has none; an array
    /// that ends before its zero terminator is `Malformed`.
    pub fn callbacks(&self, data: &[u8]) -> (r: Result<Vec<u64>, ImageError>)
        requires
            self.is_image_of(data@),
        ensures
            match image_callback_bytes(data@) {
                None => r matches Ok(callbacks) && callbacks@.len() == 0,
                Some(bytes) => match callbacks_in(bytes) {
                    Some(list) => r matches Ok(callbacks) && callbacks@ == list,
                    None => r == Err::<Vec<u64>, ImageError>(ImageError::Malformed),
                },
            },
    {
        let total = data.len();
        match self.callback_range(data) {
            None => Ok(Vec::new()),
            Some((offset, length)) => {
                match read_callbacks(slice_subrange(data, offset, offset + length)) {
                    Some(callbacks) => Ok(callbacks),
                    None => Err(ImageError::Malformed),
                }
            },
        }
    }

    /// The thread-local-storage callback with ordinal `n`.
    pub fn callback(&self, data: &[u8], n: usize) -> (r: Option<u64>)
        requires
            self.is_image_of(data@),
        ensures
            r == match image_callback_bytes(data@) {
                None => None,
                Some(bytes) => callback_at(bytes, n as nat),
            },
    {
        let total = data.len();
        match self.callback_range(data) {
            None => None,
            Some((offset, length)) => read_callback(slice_subrange(data, offset, offset + length), n),
        }
    }
}

/// Walking the array up to one ordinal finds what walking all of it lists
/// there.
pub proof fn lemma_callback_of_list(bytes: Seq<u8>, n: nat)
    requires
        callbacks_in(bytes) is Some,
    ensures
        callback_at(bytes, n) == if n < callbacks_in(bytes).unwrap().len() {
            Some(callbacks_in(bytes).unwrap()[n as int])
        } else {
            None
        },
    decreases n,
{
    let value = spec_u64_from_le_bytes(bytes.subrange(0, 8));
    if value != 0 && n > 0 {
        lemma_callback_of_list(bytes.skip(8), (n - 1) as nat);
    }
}

/// A callback with an ordinal that no machine number holds is not listed:
/// the array would need more bytes than there can be.
pub proof fn lemma_callback_needs_bytes(bytes: Seq<u8>, n: nat)
    ensures
        callback_at(bytes, n) is Some ==> bytes.len() >= 8 * (n + 1),
    decreases n,
{
    if bytes.len() >= 8 && n > 0 {
        lemma_callback_needs_bytes(bytes.skip(8), (n - 1) as nat);
    }
}

} // verus!
