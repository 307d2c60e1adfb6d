//! PE32+ header parsing.
//!
//! Headers are read field by field from the little-endian file bytes; every
//! read is bounds-checked against the buffer first.

use vstd::prelude::*;

use crate::loader::LoadError;

verus! {

/// Standard PE DOS header.
#[derive(Debug, Clone, Copy)]
pub struct ImageDosHeader {
    /// Magic number "MZ"
    pub e_magic: u16,
    /// Bytes on last page of file
    pub e_cblp: u16,
    /// Pages in file
    pub e_cp: u16,
    /// Relocations
    pub e_crlc: u16,
    /// Size of header in paragraphs
    pub e_cparhdr: u16,
    /// Minimum extra paragraphs needed
    pub e_minalloc: u16,
    /// Maximum extra paragraphs needed
    pub e_maxalloc: u16,
    /// Initial (relative) SS value
    pub e_ss: u16,
    /// Initial SP value
    pub e_sp: u16,
    /// Checksum
    pub e_csum: u16,
    /// Initial IP value
    pub e_ip: u16,
    /// Initial (relative) CS value
    pub e_cs: u16,
    /// File address of relocation table
    pub e_lfarlc: u16,
    /// Overlay number
    pub e_ovno: u16,
    /// Reserved words
    pub e_res: [u16; 4],
    /// OEM identifier (for e_oeminfo)
    pub e_oemid: u16,
    /// OEM information; e_oemid specific
    pub e_oeminfo: u16,
    /// Reserved words
    pub e_res2: [u16; 10],
    /// File address of new exe header
    pub e_lfanew: i32,
}

/// "MZ"
pub const IMAGE_DOS_SIGNATURE: u16 = 0x5A4D;
/// "PE\0\0"
pub const IMAGE_NT_SIGNATURE: u32 = 0x00004550;

/// COFF file header.
#[derive(Debug, Clone, Copy)]
pub struct ImageFileHeader {
    pub machine: u16,
    pub number_of_sections: u16,
    pub time_date_stamp: u32,
    pub pointer_to_symbol_table: u32,
    pub number_of_symbols: u32,
    pub size_of_optional_header: u16,
    pub characteristics: u16,
}

/// An RVA and size pair of the optional header's data directory.
#[derive(Debug, Clone, Copy)]
pub struct ImageDataDirectory {
    pub virtual_address: u32,
    pub size: u32,
}

/// PE32+ optional header.
#[derive(Debug, Clone, Copy)]
pub struct ImageOptionalHeader64 {
    pub magic: u16,
    pub major_linker_version: u8,
    pub minor_linker_version: u8,
    pub size_of_code: u32,
    pub size_of_initialized_data: u32,
    pub size_of_uninitialized_data: u32,
    pub address_of_entry_point: u32,
    pub base_of_code: u32,
    pub image_base: u64,
    pub section_alignment: u32,
    pub file_alignment: u32,
    pub major_operating_system_version: u16,
    pub minor_operating_system_version: u16,
    pub major_image_version: u16,
    pub minor_image_version: u16,
    pub major_subsystem_version: u16,
    pub minor_subsystem_version: u16,
    pub win32_version_value: u32,
    pub size_of_image: u32,
    pub size_of_headers: u32,
    pub check_sum: u32,
    pub subsystem: u16,
    pub dll_characteristics: u16,
    pub size_of_stack_reserve: u64,
    pub size_of_stack_commit: u64,
    pub size_of_heap_reserve: u64,
    pub size_of_heap_commit: u64,
    pub loader_flags: u32,
    pub number_of_rva_and_sizes: u32,
    pub data_directory: [ImageDataDirectory; 16],
}

pub const IMAGE_OPTIONAL_HEADER64_MAGIC: u16 = 0x20B;

/// Section header.
#[derive(Debug, Clone, Copy)]
pub struct ImageSectionHeader {
    pub name: [u8; 8],
    pub virtual_size: u32,
    pub virtual_address: u32,
    pub size_of_raw_data: u32,
    pub pointer_to_raw_data: u32,
    pub pointer_to_relocations: u32,
    pub pointer_to_linenumbers: u32,
    pub number_of_relocations: u16,
    pub number_of_linenumbers: u16,
    pub characteristics: u32,
}

/// Import directory entry.
#[derive(Debug, Clone, Copy)]
pub struct ImageImportDescriptor {
    pub original_first_thunk: u32,
    pub time_date_stamp: u32,
    pub forwarder_chain: u32,
    pub name: u32,
    pub first_thunk: u32,
}

/// Import lookup table entry.
#[derive(Debug, Clone, Copy)]
pub struct ImageThunkData64 {
    /// Ordinal, or AddressOfData, etc.
    pub u1: u64,
}

/// Bytes of a DOS header.
pub const DOS_HEADER_SIZE: usize = 64;
/// Bytes of a COFF file header.
pub const FILE_HEADER_SIZE: usize = 20;
/// Bytes of a PE32+ optional header.
pub const OPTIONAL_HEADER64_SIZE: usize = 240;
/// Bytes of a section header.
pub const SECTION_HEADER_SIZE: usize = 40;
/// Bytes of an import descriptor.
pub const IMPORT_DESCRIPTOR_SIZE: usize = 20;
/// Bytes of a 64-bit thunk.
pub const THUNK64_SIZE: usize = 8;

/// Little-endian 16-bit value at `i`.
pub open spec fn le16(d: Seq<u8>, i: int) -> u16 {
    (d[i] + d[i + 1] * 0x100) as u16
}

/// Little-endian 32-bit value at `i`.
pub open spec fn le32(d: Seq<u8>, i: int) -> u32 {
    (le16(d, i) + le16(d, i + 2) * 0x1_0000) as u32
}

/// Little-endian 64-bit value at `i`.
pub open spec fn le64(d: Seq<u8>, i: int) -> u64 {
    (le32(d, i) + le32(d, i + 4) * 0x1_0000_0000) as u64
}

pub fn read_u16(d: &[u8], i: usize) -> (r: u16)
    requires
        i + 2 <= d.len(),
    ensures
        r == le16(d@, i as int),
{
    d[i] as u16 + (d[i + 1] as u16) * 0x100
}

pub fn read_u32(d: &[u8], i: usize) -> (r: u32)
    requires
        i + 4 <= d.len(),
    ensures
        r == le32(d@, i as int),
{
    read_u16(d, i) as u32 + (read_u16(d, i + 2) as u32) * 0x1_0000
}

pub fn read_u64(d: &[u8], i: usize) -> (r: u64)
    requires
        i + 8 <= d.len(),
    ensures
        r == le64(d@, i as int),
{
    read_u32(d, i) as u64 + (read_u32(d, i + 4) as u64) * 0x1_0000_0000
}

/// The DOS header stored little-endian at the start of `d`, field by field.
pub open spec fn dos_header_at(d: Seq<u8>, h: ImageDosHeader) -> bool {
    &&& h.e_magic == le16(d, 0)
    &&& h.e_cblp == le16(d, 2)
    &&& h.e_cp == le16(d, 4)
    &&& h.e_crlc == le16(d, 6)
    &&& h.e_cparhdr == le16(d, 8)
    &&& h.e_minalloc == le16(d, 10)
    &&& h.e_maxalloc == le16(d, 12)
    &&& h.e_ss == le16(d, 14)
    &&& h.e_sp == le16(d, 16)
    &&& h.e_csum == le16(d, 18)
    &&& h.e_ip == le16(d, 20)
    &&& h.e_cs == le16(d, 22)
    &&& h.e_lfarlc == le16(d, 24)
    &&& h.e_ovno == le16(d, 26)
    &&& forall|k: int| 0 <= k < 4 ==> #[trigger] h.e_res@[k] == le16(d, 28 + 2 * k)
    &&& h.e_oemid == le16(d, 36)
    &&& h.e_oeminfo == le16(d, 38)
    &&& forall|k: int| 0 <= k < 10 ==> #[trigger] h.e_res2@[k] == le16(d, 40 + 2 * k)
    &&& h.e_lfanew == le32(d, 60) as i32
}

/// The COFF file header stored little-endian at `o`, field by field.
pub open spec fn file_header_at(d: Seq<u8>, o: int, h: ImageFileHeader) -> bool {
    &&& h.machine == le16(d, o)
    &&& h.number_of_sections == le16(d, o + 2)
    &&& h.time_date_stamp == le32(d, o + 4)
    &&& h.pointer_to_symbol_table == le32(d, o + 8)
    &&& h.number_of_symbols == le32(d, o + 12)
    &&& h.size_of_optional_header == le16(d, o + 16)
    &&& h.characteristics == le16(d, o + 18)
}

fn parse_dos_header(d: &[u8]) -> (h: ImageDosHeader)
    requires
        d.len() >= DOS_HEADER_SIZE,
    ensures
        dos_header_at(d@, h),
{
    let mut e_res: [u16; 4] = [0; 4];
    let mut k: usize = 0;
    while k < 4
        invariant
            d.len() >= DOS_HEADER_SIZE,
            k <= 4,
            forall|j: int| 0 <= j < k ==> #[trigger] e_res@[j] == le16(d@, 28 + 2 * j),
        decreases 4 - k,
    {
        e_res.set(k, read_u16(d, 28 + 2 * k));
        proof {
            assert(e_res@[k as int] == le16(d@, 28 + 2 * k));
        }
        k = k + 1;
    }
    let mut e_res2: [u16; 10] = [0; 10];
    let mut k: usize = 0;
    while k < 10
        invariant
            d.len() >= DOS_HEADER_SIZE,
            k <= 10,
            forall|j: int| 0 <= j < k ==> #[trigger] e_res2@[j] == le16(d@, 40 + 2 * j),
            forall|j: int| 0 <= j < 4 ==> #[trigger] e_res@[j] == le16(d@, 28 + 2 * j),
        decreases 10 - k,
    {
        e_res2.set(k, read_u16(d, 40 + 2 * k));
        k = k + 1;
    }
    ImageDosHeader {
        e_magic: read_u16(d, 0),
        e_cblp: read_u16(d, 2),
        e_cp: read_u16(d, 4),
        e_crlc: read_u16(d, 6),
        e_cparhdr: read_u16(d, 8),
        e_minalloc: read_u16(d, 10),
        e_maxalloc: read_u16(d, 12),
        e_ss: read_u16(d, 14),
        e_sp: read_u16(d, 16),
        e_csum: read_u16(d, 18),
        e_ip: read_u16(d, 20),
        e_cs: read_u16(d, 22),
        e_lfarlc: read_u16(d, 24),
        e_ovno: read_u16(d, 26),
        e_res,
        e_oemid: read_u16(d, 36),
        e_oeminfo: read_u16(d, 38),
        e_res2,
        e_lfanew: read_u32(d, 60) as i32,
    }
}

fn parse_file_header(d: &[u8], o: usize) -> (h: ImageFileHeader)
    requires
        o + FILE_HEADER_SIZE <= d.len(),
    ensures
        file_header_at(d@, o as int, h),
{
    ImageFileHeader {
        machine: read_u16(d, o),
        number_of_sections: read_u16(d, o + 2),
        time_date_stamp: read_u32(d, o + 4),
        pointer_to_symbol_table: read_u32(d, o + 8),
        number_of_symbols: read_u32(d, o + 12),
        size_of_optional_header: read_u16(d, o + 16),
        characteristics: read_u16(d, o + 18),
    }
}

/// The optional header stored little-endian at `o`, field by field.
pub open spec fn optional_header_at(d: Seq<u8>, o: int, h: ImageOptionalHeader64) -> bool {
    &&& h.magic == le16(d, o)
    &&& h.major_linker_version == d[o + 2]
    &&& h.minor_linker_version == d[o + 3]
    &&& h.size_of_code == le32(d, o + 4)
    &&& h.size_of_initialized_data == le32(d, o + 8)
    &&& h.size_of_uninitialized_data == le32(d, o + 12)
    &&& h.address_of_entry_point == le32(d, o + 16)
    &&& h.base_of_code == le32(d, o + 20)
    &&& h.image_base == le64(d, o + 24)
    &&& h.section_alignment == le32(d, o + 32)
    &&& h.file_alignment == le32(d, o + 36)
    &&& h.major_operating_system_version == le16(d, o + 40)
    &&& h.minor_operating_system_version == le16(d, o + 42)
    &&& h.major_image_version == le16(d, o + 44)
    &&& h.minor_image_version == le16(d, o + 46)
    &&& h.major_subsystem_version == le16(d, o + 48)
    &&& h.minor_subsystem_version == le16(d, o + 50)
    &&& h.win32_version_value == le32(d, o + 52)
    &&& h.size_of_image == le32(d, o + 56)
    &&& h.size_of_headers == le32(d, o + 60)
    &&& h.check_sum == le32(d, o + 64)
    &&& h.subsystem == le16(d, o + 68)
    &&& h.dll_characteristics == le16(d, o + 70)
    &&& h.size_of_stack_reserve == le64(d, o + 72)
    &&& h.size_of_stack_commit == le64(d, o + 80)
    &&& h.size_of_heap_reserve == le64(d, o + 88)
    &&& h.size_of_heap_commit == le64(d, o + 96)
    &&& h.loader_flags == le32(d, o + 104)
    &&& h.number_of_rva_and_sizes == le32(d, o + 108)
    &&& forall|k: int| 0 <= k < 16 ==> {
        &&& (#[trigger] h.data_directory[k]).virtual_address == le32(d, o + 112 + 8 * k)
        &&& h.data_directory[k].size == le32(d, o + 116 + 8 * k)
    }
}

fn parse_optional_header(d: &[u8], o: usize) -> (h: ImageOptionalHeader64)
    requires
        o + OPTIONAL_HEADER64_SIZE <= d.len(),
    ensures
        optional_header_at(d@, o as int, h),
{
    let mut dirs: [ImageDataDirectory; 16] = [ImageDataDirectory { virtual_address: 0, size: 0 }; 16];
    let mut k: usize = 0;
    while k < 16
        invariant
            o + OPTIONAL_HEADER64_SIZE <= d.len(),
            k <= 16,
            forall|j: int| 0 <= j < k ==> {
                &&& (#[trigger] dirs@[j]).virtual_address == le32(d@, o + 112 + 8 * j)
                &&& dirs@[j].size == le32(d@, o + 116 + 8 * j)
            },
        decreases 16 - k,
    {
        dirs.set(k, ImageDataDirectory { virtual_address: read_u32(d, o + 112 + 8 * k), size: read_u32(d, o + 116 + 8 * k) });
        k = k + 1;
    }
    ImageOptionalHeader64 {
        magic: read_u16(d, o),
        major_linker_version: d[o + 2],
        minor_linker_version: d[o + 3],
        size_of_code: read_u32(d, o + 4),
        size_of_initialized_data: read_u32(d, o + 8),
        size_of_uninitialized_data: read_u32(d, o + 12),
        address_of_entry_point: read_u32(d, o + 16),
        base_of_code: read_u32(d, o + 20),
        image_base: read_u64(d, o + 24),
        section_alignment: read_u32(d, o + 32),
        file_alignment: read_u32(d, o + 36),
        major_operating_system_version: read_u16(d, o + 40),
        minor_operating_system_version: read_u16(d, o + 42),
        major_image_version: read_u16(d, o + 44),
        minor_image_version: read_u16(d, o + 46),
        major_subsystem_version: read_u16(d, o + 48),
        minor_subsystem_version: read_u16(d, o + 50),
        win32_version_value: read_u32(d, o + 52),
        size_of_image: read_u32(d, o + 56),
        size_of_headers: read_u32(d, o + 60),
        check_sum: read_u32(d, o + 64),
        subsystem: read_u16(d, o + 68),
        dll_characteristics: read_u16(d, o + 70),
        size_of_stack_reserve: read_u64(d, o + 72),
        size_of_stack_commit: read_u64(d, o + 80),
        size_of_heap_reserve: read_u64(d, o + 88),
        size_of_heap_commit: read_u64(d, o + 96),
        loader_flags: read_u32(d, o + 104),
        number_of_rva_and_sizes: read_u32(d, o + 108),
        data_directory: dirs,
    }
}

/// The section header stored little-endian at `o`, field by field.
pub open spec fn section_at(d: Seq<u8>, o: int, s: ImageSectionHeader) -> bool {
    &&& forall|k: int| 0 <= k < 8 ==> #[trigger] s.name[k] == d[o + k]
    &&& s.virtual_size == le32(d, o + 8)
    &&& s.virtual_address == le32(d, o + 12)
    &&& s.size_of_raw_data == le32(d, o + 16)
    &&& s.pointer_to_raw_data == le32(d, o + 20)
    &&& s.pointer_to_relocations == le32(d, o + 24)
    &&& s.pointer_to_linenumbers == le32(d, o + 28)
    &&& s.number_of_relocations == le16(d, o + 32)
    &&& s.number_of_linenumbers == le16(d, o + 34)
    &&& s.characteristics == le32(d, o + 36)
}

fn parse_section_header(d: &[u8], o: usize) -> (s: ImageSectionHeader)
    requires
        o + SECTION_HEADER_SIZE <= d.len(),
    ensures
        section_at(d@, o as int, s),
{
    let mut name: [u8; 8] = [0; 8];
    let mut k: usize = 0;
    while k < 8
        invariant
            o + SECTION_HEADER_SIZE <= d.len(),
            k <= 8,
            forall|j: int| 0 <= j < k ==> #[trigger] name@[j] == d@[o + j],
        decreases 8 - k,
    {
        name.set(k, d[o + k]);
        k = k + 1;
    }
    ImageSectionHeader {
        name,
        virtual_size: read_u32(d, o + 8),
        virtual_address: read_u32(d, o + 12),
        size_of_raw_data: read_u32(d, o + 16),
        pointer_to_raw_data: read_u32(d, o + 20),
        pointer_to_relocations: read_u32(d, o + 24),
        pointer_to_linenumbers: read_u32(d, o + 28),
        number_of_relocations: read_u16(d, o + 32),
        number_of_linenumbers: read_u16(d, o + 34),
        characteristics: read_u32(d, o + 36),
    }
}

/// The offset the DOS header's `e_lfanew` names (a negative value
/// sign-extends to a huge offset).
pub open spec fn lfanew_of(d: Seq<u8>) -> int {
    (le32(d, 60) as i32) as usize as int
}

/// The first check a file fails, in the order they are made, or `None`
/// when it is a well-formed PE32+ image.
pub open spec fn pe_check(d: Seq<u8>) -> Option<LoadError> {
    let lfanew = lfanew_of(d);
    let fh = lfanew + 4;
    let opt_size = le16(d, fh + 16) as int;
    let opt = fh + 20;
    let secs = opt + opt_size;
    let n = le16(d, fh + 2) as int;
    if d.len() < 64 {
        Some(LoadError::DosHeaderTruncated)
    } else if le16(d, 0) != IMAGE_DOS_SIGNATURE {
        Some(LoadError::InvalidDosSignature)
    } else if d.len() < lfanew + 24 {
        Some(LoadError::NtHeadersTruncated)
    } else if le32(d, lfanew) != IMAGE_NT_SIGNATURE {
        Some(LoadError::InvalidPeSignature)
    } else if d.len() < opt + opt_size {
        Some(LoadError::OptionalHeaderTruncated)
    } else if opt_size < 240 {
        Some(LoadError::OptionalHeaderTooSmall)
    } else if le16(d, opt) != IMAGE_OPTIONAL_HEADER64_MAGIC {
        Some(LoadError::NotPe32Plus)
    } else if d.len() < secs + 40 * n {
        Some(LoadError::SectionHeadersTruncated)
    } else {
        None
    }
}

/// A validated PE32+ image over the file bytes.
pub struct PeImage<'a> {
    data: &'a [u8],
    dos_header: ImageDosHeader,
    file_header: ImageFileHeader,
    optional_header: Option<ImageOptionalHeader64>,
    sections: Vec<ImageSectionHeader>,
}

impl<'a> PeImage<'a> {
    /// The file bytes.
    pub closed spec fn bytes(&self) -> Seq<u8> {
        self.data@
    }

    /// The section headers.
    pub closed spec fn section_headers(&self) -> Seq<ImageSectionHeader> {
        self.sections@
    }

    /// The optional header, when parsed.
    pub closed spec fn opt(&self) -> Option<ImageOptionalHeader64> {
        self.optional_header
    }

    /// The DOS header.
    pub closed spec fn dos(&self) -> ImageDosHeader {
        self.dos_header
    }

    /// The COFF file header.
    pub closed spec fn coff(&self) -> ImageFileHeader {
        self.file_header
    }

    /// Parse and validate `data` as a PE32+ image.
    pub fn new(data: &'a [u8]) -> (r: Result<Self, LoadError>)
        ensures
            match r {
                Ok(img) => {
                    &&& pe_check(data@) is None
                    &&& img.bytes() == data@
                    &&& valid_image(data@, img.opt(), img.section_headers())
                    &&& dos_header_at(data@, img.dos())
                    &&& file_header_at(data@, img.dos().e_lfanew as usize + 4, img.coff())
                },
                Err(e) => pe_check(data@) == Some(e),
            },
    {
        if data.len() < DOS_HEADER_SIZE {
            return Err(LoadError::DosHeaderTruncated);
        }
        let dos_header = parse_dos_header(data);
        if dos_header.e_magic != IMAGE_DOS_SIGNATURE {
            return Err(LoadError::InvalidDosSignature);
        }
        let lfanew = dos_header.e_lfanew as usize;
        let nt_headers_min_size: usize = 4 + FILE_HEADER_SIZE;
        if lfanew > data.len() || data.len() - lfanew < nt_headers_min_size {
            return Err(LoadError::NtHeadersTruncated);
        }
        let nt_signature = read_u32(data, lfanew);
        if nt_signature != IMAGE_NT_SIGNATURE {
            return Err(LoadError::InvalidPeSignature);
        }
        let file_header_offset = lfanew + 4;
        let file_header = parse_file_header(data, file_header_offset);
        let optional_header_size = file_header.size_of_optional_header as usize;
        let optional_header_offset = file_header_offset + FILE_HEADER_SIZE;
        if optional_header_offset > data.len() || data.len() - optional_header_offset < optional_header_size {
            return Err(LoadError::OptionalHeaderTruncated);
        }
        if optional_header_size < OPTIONAL_HEADER64_SIZE {
            return Err(LoadError::OptionalHeaderTooSmall);
        }
        let optional_header = parse_optional_header(data, optional_header_offset);
        if optional_header.magic != IMAGE_OPTIONAL_HEADER64_MAGIC {
            return Err(LoadError::NotPe32Plus);
        }
        let sections_offset = optional_header_offset + optional_header_size;
        let num_sections = file_header.number_of_sections as usize;
        let sections_size = num_sections * SECTION_HEADER_SIZE;
        if sections_offset > data.len() || data.len() - sections_offset < sections_size {
            return Err(LoadError::SectionHeadersTruncated);
        }
        let mut sections: Vec<ImageSectionHeader> = Vec::new();
        let mut i: usize = 0;
        while i < num_sections
            invariant
                i <= num_sections,
                sections_offset + num_sections * 40 <= data.len(),
                sections.len() == i,
                forall|j: int| 0 <= j < i ==> section_at(data@, sections_offset + 40 * j, #[trigger] sections@[j]),
            decreases num_sections - i,
        {
            proof {
                assert(sections_offset + 40 * i + 40 <= sections_offset + num_sections * 40) by (nonlinear_arith)
                    requires i < num_sections;
            }
            sections.push(parse_section_header(data, sections_offset + SECTION_HEADER_SIZE * i));
            i = i + 1;
        }
        let img = PeImage { data, dos_header, file_header, optional_header: Some(optional_header), sections };
        assert(valid_image(data@, img.opt(), img.section_headers()));
        Ok(img)
    }

    /// The file bytes.
    pub fn data(&self) -> (r: &'a [u8])
        ensures
            r@ == self.bytes(),
    {
        self.data
    }

    /// The section headers.
    pub fn sections(&self) -> (r: &[ImageSectionHeader])
        ensures
            r@ == self.section_headers(),
    {
        self.sections.as_slice()
    }

    /// The PE32+ optional header.
    pub fn optional_header(&self) -> (r: Option<&ImageOptionalHeader64>)
        ensures
            r == (match self.opt() {
                Some(h) => Some(&h),
                None => None::<&ImageOptionalHeader64>,
            }),
    {
        match &self.optional_header {
            Some(h) => Some(h),
            None => None,
        }
    }
}

/// The optional header and section headers a valid image `d` holds, read
/// from where its headers say they are.
pub open spec fn valid_image(d: Seq<u8>, opt: Option<ImageOptionalHeader64>, sections: Seq<ImageSectionHeader>) -> bool {
    let fh = lfanew_of(d) + 4;
    let o = fh + 20;
    let secs = o + le16(d, fh + 16) as int;
    &&& opt matches Some(h) && optional_header_at(d, o, h)
    &&& sections.len() == le16(d, fh + 2)
    &&& forall|j: int| 0 <= j < sections.len() ==> section_at(d, secs + 40 * j, #[trigger] sections[j])
}

} // verus!
