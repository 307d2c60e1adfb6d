//! Mapping a PE image into its virtual layout, and reading its imports.

use vstd::prelude::*;
use vstd::string::StringSliceAdditionalSpecFns;
use vstd::utf8::valid_utf8;

use crate::loader::pe::{le32, le64, ImageSectionHeader, ImageOptionalHeader64, PeImage, IMPORT_DESCRIPTOR_SIZE, THUNK64_SIZE};
use crate::loader::LoadError;

verus! {

/// The mapped memory of an executable and its preferred base address.
pub struct PeVirtualImage {
    /// The contiguous virtual memory representing the mapped executable.
    memory: Vec<u8>,
    image_base: u64,
}

/// An imported function: by ordinal or by name.
#[derive(Debug, PartialEq, Eq)]
pub enum ImportFunction<'a> {
    Ordinal(u16),
    Name(&'a str),
}

/// The functions imported from one DLL.
#[derive(Debug)]
pub struct DllImport<'a> {
    pub dll_name: &'a str,
    pub functions: Vec<ImportFunction<'a>>,
}

/// `mem` with `n` bytes of `src` from `so` copied to `dst`.
pub open spec fn copy_into(mem: Seq<u8>, dst: int, src: Seq<u8>, so: int, n: int) -> Seq<u8> {
    Seq::new(mem.len(), |i: int| if dst <= i < dst + n { src[so + (i - dst)] } else { mem[i] })
}

/// The smaller of two integers.
pub open spec fn min(a: int, b: int) -> int {
    if a <= b { a } else { b }
}

/// `mem` after the raw bytes of section `s` are copied to its virtual
/// address, clipped to the raw data, the file and the memory; sections that
/// start outside the memory or the file are skipped.
pub open spec fn section_copy(mem: Seq<u8>, raw: Seq<u8>, s: ImageSectionHeader) -> Seq<u8> {
    let v = s.virtual_address as int;
    let p = s.pointer_to_raw_data as int;
    if v >= mem.len() || p >= raw.len() {
        mem
    } else {
        let n = min(min(min(s.virtual_size as int, s.size_of_raw_data as int), raw.len() - p), mem.len() - v);
        copy_into(mem, v, raw, p, n)
    }
}

/// `mem` after every section of `sections` is copied in, in order.
pub open spec fn sections_copied(mem: Seq<u8>, raw: Seq<u8>, sections: Seq<ImageSectionHeader>) -> Seq<u8>
    decreases sections.len(),
{
    if sections.len() == 0 {
        mem
    } else {
        section_copy(sections_copied(mem, raw, sections.drop_last()), raw, sections.last())
    }
}

/// The mapped memory of an image: `size_of_image` zero bytes, the headers
/// copied to the start, then every section at its virtual address.
pub open spec fn mapped_memory(raw: Seq<u8>, opt: ImageOptionalHeader64, sections: Seq<ImageSectionHeader>) -> Seq<u8> {
    let size = opt.size_of_image as int;
    let zeros = Seq::new(size as nat, |i: int| 0u8);
    let hl = min(min(opt.size_of_headers as int, raw.len() as int), size);
    sections_copied(copy_into(zeros, 0, raw, 0, hl), raw, sections)
}

/// `src[so..so + n]` copied into `mem` at `dst`.
fn copy_bytes(mem: &mut Vec<u8>, dst: usize, src: &[u8], so: usize, n: usize)
    requires
        dst + n <= old(mem).len(),
        so + n <= src.len(),
    ensures
        final(mem)@ == copy_into(old(mem)@, dst as int, src@, so as int, n as int),
{
    let ghost m0 = mem@;
    let mut k: usize = 0;
    while k < n
        invariant
            k <= n,
            dst + n <= mem.len(),
            so + n <= src.len(),
            mem@ == copy_into(m0, dst as int, src@, so as int, k as int),
        decreases n - k,
    {
        mem.set(dst + k, src[so + k]);
        k = k + 1;
        assert(mem@ =~= copy_into(m0, dst as int, src@, so as int, k as int));
    }
}

/// The nul-free bytes `s` stand at `rva` of `mem`, followed by a nul.
pub open spec fn c_string_at(mem: Seq<u8>, rva: int, s: Seq<u8>) -> bool {
    &&& 0 <= rva
    &&& rva + s.len() < mem.len()
    &&& mem.subrange(rva, rva + s.len()) == s
    &&& mem[rva + s.len()] == 0
    &&& forall|i: int| 0 <= i < s.len() ==> s[i] != 0
}

/// Calls `std::str::from_utf8`: `Some` with the same bytes exactly when
/// they are valid UTF-8.
#[verifier::external_body]
fn str_from_utf8(b: &[u8]) -> (r: Option<&str>)
    ensures
        r matches Some(s) ==> s.spec_bytes() == b@ && valid_utf8(b@),
        r is None ==> !valid_utf8(b@),
{
    std::str::from_utf8(b).ok()
}

/// The index of the first nul byte of `mem` at or after `i`, or the length
/// of `mem` when there is none.
pub open spec fn first_nul(mem: Seq<u8>, i: int) -> int
    decreases mem.len() - i,
{
    if i < 0 || i >= mem.len() {
        mem.len() as int
    } else if mem[i] == 0 {
        i
    } else {
        first_nul(mem, i + 1)
    }
}

/// The bytes of the nul-terminated UTF-8 string at `rva` of `mem`, or the
/// error reading it gives.
pub open spec fn string_at(mem: Seq<u8>, rva: int) -> Result<Seq<u8>, LoadError> {
    if rva >= mem.len() {
        Err(LoadError::StringOutOfBounds)
    } else if first_nul(mem, rva) >= mem.len() {
        Err(LoadError::MissingNulTerminator)
    } else if !valid_utf8(mem.subrange(rva, first_nul(mem, rva))) {
        Err(LoadError::InvalidUtf8)
    } else {
        Ok(mem.subrange(rva, first_nul(mem, rva)))
    }
}

/// `prefix` in front of the entries `r` holds, or `r`'s error.
pub open spec fn prepend<T>(prefix: Seq<T>, r: Result<Seq<T>, LoadError>) -> Result<Seq<T>, LoadError> {
    match r {
        Ok(rest) => Ok(prefix + rest),
        Err(e) => Err(e),
    }
}

/// An imported function as plain values: whether it is imported by name,
/// its ordinal (zero for a name) and its name's bytes (empty for an
/// ordinal).
pub open spec fn function_view(f: ImportFunction) -> (bool, u16, Seq<u8>) {
    match f {
        ImportFunction::Ordinal(o) => (false, o, Seq::empty()),
        ImportFunction::Name(n) => (true, 0, n.spec_bytes()),
    }
}

/// A DLL's imports as plain values: its name's bytes and its functions.
pub open spec fn dll_view(d: DllImport) -> (Seq<u8>, Seq<(bool, u16, Seq<u8>)>) {
    (d.dll_name.spec_bytes(), functions_view(d.functions@))
}

/// The 64-bit thunks from `rva` of `mem` up to a zero one: an ordinal
/// import when the top bit is set, else a name read two bytes past the
/// RVA in the low 31 bits.
pub open spec fn thunk_walk(mem: Seq<u8>, rva: int) -> Result<Seq<(bool, u16, Seq<u8>)>, LoadError>
    decreases mem.len() + 1 - rva,
{
    if !(0 <= rva <= mem.len() && mem.len() - rva >= 8) {
        Err(LoadError::ThunkOutOfBounds)
    } else {
        let u1 = le64(mem, rva);
        if u1 == 0 {
            Ok(Seq::empty())
        } else {
            let entry = if u1 & 0x8000_0000_0000_0000 != 0 {
                Ok((false, (u1 & 0xFFFF) as u16, Seq::<u8>::empty()))
            } else {
                match string_at(mem, (u1 & 0x7FFF_FFFF) + 2) {
                    Ok(b) => Ok((true, 0u16, b)),
                    Err(e) => Err(e),
                }
            };
            match entry {
                Err(e) => Err(e),
                Ok(f) => prepend(seq![f], thunk_walk(mem, rva + 8)),
            }
        }
    }
}

/// The 20-byte import descriptors from `rva` of `mem` up to one with no
/// name and no first thunk: each DLL's name and the functions of its
/// lookup table (the original first thunk, or the first thunk when that is
/// zero).
pub open spec fn descriptor_walk(mem: Seq<u8>, rva: int) -> Result<Seq<(Seq<u8>, Seq<(bool, u16, Seq<u8>)>)>, LoadError>
    decreases mem.len() + 1 - rva,
{
    if !(0 <= rva <= mem.len() && mem.len() - rva >= 20) {
        Err(LoadError::ImportDescriptorOutOfBounds)
    } else {
        let name = le32(mem, rva + 12);
        let first_thunk = le32(mem, rva + 16);
        let original_first_thunk = le32(mem, rva);
        if name == 0 && first_thunk == 0 {
            Ok(Seq::empty())
        } else {
            match string_at(mem, name as int) {
                Err(e) => Err(e),
                Ok(dll) => match thunk_walk(mem, if original_first_thunk != 0 { original_first_thunk as int } else { first_thunk as int }) {
                    Err(e) => Err(e),
                    Ok(fs) => prepend(seq![(dll, fs)], descriptor_walk(mem, rva + 20)),
                },
            }
        }
    }
}

/// The functions of a DLL as plain values.
pub open spec fn functions_view(v: Seq<ImportFunction>) -> Seq<(bool, u16, Seq<u8>)> {
    v.map_values(|f: ImportFunction| function_view(f))
}

/// The DLL imports as plain values.
pub open spec fn dlls_view(v: Seq<DllImport>) -> Seq<(Seq<u8>, Seq<(bool, u16, Seq<u8>)>)> {
    v.map_values(|d: DllImport| dll_view(d))
}

proof fn lemma_prepend_assoc<T>(a: Seq<T>, b: Seq<T>, r: Result<Seq<T>, LoadError>)
    ensures
        prepend(a, prepend(b, r)) == prepend(a + b, r),
{
    if let Ok(rest) = r {
        assert(a + (b + rest) =~= (a + b) + rest);
    }
}

/// An import name is a nul-terminated string whose bytes name it.
pub open spec fn names_string(mem: Seq<u8>, s: &str) -> bool {
    exists|rva: int| c_string_at(mem, rva, s.spec_bytes())
}

impl PeVirtualImage {
    /// The mapped memory.
    pub closed spec fn memory_view(&self) -> Seq<u8> {
        self.memory@
    }

    /// The preferred base address.
    pub closed spec fn base(&self) -> u64 {
        self.image_base
    }

    /// Maps the given image into a flat virtual memory buffer according to
    /// its section headers.
    pub fn map(image: &PeImage) -> (r: Result<Self, LoadError>)
        ensures
            match image.opt() {
                None => r == Err::<Self, LoadError>(LoadError::MissingOptionalHeader),
                Some(h) => (r matches Ok(v) && v.memory_view() == mapped_memory(image.bytes(), h, image.section_headers())
                    && v.base() == h.image_base),
            },
    {
        let opt_hdr = match image.optional_header() {
            Some(h) => h,
            None => {
                return Err(LoadError::MissingOptionalHeader);
            },
        };
        let size_of_image = opt_hdr.size_of_image as usize;
        let mut memory: Vec<u8> = Vec::new();
        let mut z: usize = 0;
        while z < size_of_image
            invariant
                z <= size_of_image,
                memory@ == Seq::new(z as nat, |i: int| 0u8),
            decreases size_of_image - z,
        {
            memory.push(0);
            z = z + 1;
            assert(memory@ =~= Seq::new(z as nat, |i: int| 0u8));
        }
        // Copy PE headers (from start of file up to size_of_headers)
        let size_of_headers = opt_hdr.size_of_headers as usize;
        let raw_data = image.data();
        let header_copy_len = if size_of_headers < raw_data.len() { size_of_headers } else { raw_data.len() };
        let header_copy_len = if header_copy_len < memory.len() { header_copy_len } else { memory.len() };
        copy_bytes(&mut memory, 0, raw_data, 0, header_copy_len);
        let ghost m_headers = memory@;
        // Copy each section to its virtual address
        let sections = image.sections();
        let mut i: usize = 0;
        while i < sections.len()
            invariant
                i <= sections.len(),
                raw_data@ == image.bytes(),
                sections@ == image.section_headers(),
                memory@ == sections_copied(m_headers, raw_data@, sections@.take(i as int)),
            decreases sections.len() - i,
        {
            let section = &sections[i];
            proof {
                assert(sections@.take(i + 1).drop_last() =~= sections@.take(i as int));
            }
            let v_addr = section.virtual_address as usize;
            let v_size = section.virtual_size as usize;
            let p_raw = section.pointer_to_raw_data as usize;
            let s_raw = section.size_of_raw_data as usize;
            if v_addr < memory.len() && p_raw < raw_data.len() {
                let copy_size = if v_size < s_raw { v_size } else { s_raw };
                let available_raw = raw_data.len() - p_raw;
                let copy_size = if copy_size < available_raw { copy_size } else { available_raw };
                let available_mem = memory.len() - v_addr;
                let copy_size = if copy_size < available_mem { copy_size } else { available_mem };
                copy_bytes(&mut memory, v_addr, raw_data, p_raw, copy_size);
            }
            i = i + 1;
        }
        proof {
            assert(sections@.take(sections.len() as int) =~= sections@);
        }
        Ok(PeVirtualImage { memory, image_base: opt_hdr.image_base })
    }

    /// The little-endian 32-bit value at `i` of the memory.
    fn mem_u32(&self, i: usize) -> (r: u32)
        requires
            i + 4 <= self.memory.len(),
        ensures
            r == le32(self.memory@, i as int),
    {
        crate::loader::pe::read_u32(self.memory.as_slice(), i)
    }

    /// The little-endian 64-bit value at `i` of the memory.
    fn mem_u64(&self, i: usize) -> (r: u64)
        requires
            i + 8 <= self.memory.len(),
        ensures
            r == le64(self.memory@, i as int),
    {
        crate::loader::pe::read_u64(self.memory.as_slice(), i)
    }

    /// Safely gets a byte slice starting at `rva` of `size` bytes.
    fn get_slice(&self, rva: usize, size: usize) -> (r: Option<&[u8]>)
        ensures
            rva + size <= self.memory.len() ==> (r matches Some(s) && s@ == self.memory@.subrange(rva as int, rva + size)),
            rva + size > self.memory.len() ==> r is None,
    {
        if rva <= self.memory.len() && self.memory.len() - rva >= size {
            Some(vstd::slice::slice_subrange(self.memory.as_slice(), rva, rva + size))
        } else {
            None
        }
    }

    /// Reads a nul-terminated string at the given RVA.
    fn read_string(&self, rva: usize) -> (r: Result<&str, LoadError>)
        ensures
            r matches Ok(s) ==> c_string_at(self.memory@, rva as int, s.spec_bytes()),
            match string_at(self.memory@, rva as int) {
                Ok(b) => r is Ok && r->Ok_0.spec_bytes() == b,
                Err(e) => r == Err::<&str, LoadError>(e),
            },
    {
        let len = self.memory.len();
        if rva >= len {
            return Err(LoadError::StringOutOfBounds);
        }
        let mut end = rva;
        while end < len && self.memory[end] != 0
            invariant
                rva <= end <= len,
                len == self.memory.len(),
                forall|i: int| rva <= i < end ==> self.memory@[i] != 0,
                first_nul(self.memory@, rva as int) == first_nul(self.memory@, end as int),
            decreases len - end,
        {
            end = end + 1;
        }
        if end >= len {
            return Err(LoadError::MissingNulTerminator);
        }
        let bytes = vstd::slice::slice_subrange(self.memory.as_slice(), rva, end);
        match str_from_utf8(bytes) {
            Some(s) => {
                assert(self.memory@.subrange(rva as int, end as int) == bytes@);
                Ok(s)
            },
            None => Err(LoadError::InvalidUtf8),
        }
    }

    /// Parses the import directory and resolves all DLL dependencies and
    /// their imported functions.
    pub fn imports(&self, image: &PeImage) -> (r: Result<Vec<DllImport<'_>>, LoadError>)
        ensures
            image.opt() is None ==> r == Err::<Vec<DllImport<'_>>, LoadError>(LoadError::MissingOptionalHeader),
            (image.opt() matches Some(h) && (h.data_directory[1].virtual_address == 0 || h.data_directory[1].size == 0))
                ==> (r matches Ok(v) && v.len() == 0),
            r matches Ok(v) ==> forall|i: int| 0 <= i < v.len() ==> {
                &&& names_string(self.memory_view(), (#[trigger] v@[i]).dll_name)
                &&& forall|j: int| 0 <= j < v@[i].functions.len() ==>
                    (#[trigger] v@[i].functions@[j] matches ImportFunction::Name(n) ==> names_string(self.memory_view(), n))
            },
            (image.opt() matches Some(h) && h.data_directory[1].virtual_address != 0 && h.data_directory[1].size != 0) ==>
                match descriptor_walk(self.memory_view(), image.opt()->Some_0.data_directory[1].virtual_address as int) {
                    Ok(ds) => r is Ok && dlls_view(r->Ok_0@) == ds,
                    Err(e) => r == Err::<Vec<DllImport<'_>>, LoadError>(e),
                },
    {
        let opt_hdr = match image.optional_header() {
            Some(h) => h,
            None => {
                return Err(LoadError::MissingOptionalHeader);
            },
        };
        // DataDirectory[1] is the Import Directory
        let import_dir = &opt_hdr.data_directory[1];
        if import_dir.virtual_address == 0 || import_dir.size == 0 {
            return Ok(Vec::new());
        }
        let mut result: Vec<DllImport<'_>> = Vec::new();
        let mut descriptor_rva = import_dir.virtual_address as usize;
        let ghost mem = self.memory@;
        let ghost start = descriptor_rva as int;
        assert(result@ =~= Seq::<DllImport>::empty());
        assert(dlls_view(result@) =~= Seq::empty());
        assert(prepend(dlls_view(result@), descriptor_walk(mem, start)) == descriptor_walk(mem, start)) by {
            if let Ok(rest) = descriptor_walk(mem, start) {
                assert(Seq::<(Seq<u8>, Seq<(bool, u16, Seq<u8>)>)>::empty() + rest =~= rest);
            }
        }
        loop
            invariant
                image.opt() matches Some(h) && h.data_directory[1].virtual_address != 0 && h.data_directory[1].size != 0,
                mem == self.memory@,
                start == image.opt()->Some_0.data_directory[1].virtual_address as int,
                descriptor_walk(mem, start) == prepend(dlls_view(result@), descriptor_walk(mem, descriptor_rva as int)),
                forall|i: int| 0 <= i < result.len() ==> {
                    &&& names_string(self.memory_view(), (#[trigger] result@[i]).dll_name)
                    &&& forall|j: int| 0 <= j < result@[i].functions.len() ==>
                        (#[trigger] result@[i].functions@[j] matches ImportFunction::Name(n) ==> names_string(self.memory_view(), n))
                },
            ensures
                descriptor_walk(mem, start) == prepend(dlls_view(result@), descriptor_walk(mem, descriptor_rva as int)),
                descriptor_walk(mem, descriptor_rva as int) == Ok::<Seq<(Seq<u8>, Seq<(bool, u16, Seq<u8>)>)>, LoadError>(Seq::empty()),
            decreases self.memory.len() + 1 - descriptor_rva,
        {
            if !(descriptor_rva <= self.memory.len() && self.memory.len() - descriptor_rva >= IMPORT_DESCRIPTOR_SIZE) {
                return Err(LoadError::ImportDescriptorOutOfBounds);
            }
            let name = self.mem_u32(descriptor_rva + 12);
            let first_thunk = self.mem_u32(descriptor_rva + 16);
            let original_first_thunk = self.mem_u32(descriptor_rva);
            // Null descriptor terminates the array
            if name == 0 && first_thunk == 0 {
                break;
            }
            let dll_name = self.read_string(name as usize)?;
            let mut thunk_rva = if original_first_thunk != 0 {
                original_first_thunk as usize
            } else {
                first_thunk as usize
            };
            let ghost tstart = thunk_rva as int;
            let ghost d_rva = descriptor_rva as int;
            let mut functions: Vec<ImportFunction<'_>> = Vec::new();
            assert(functions_view(functions@) =~= Seq::empty());
            assert(prepend(functions_view(functions@), thunk_walk(mem, tstart)) == thunk_walk(mem, tstart)) by {
                if let Ok(rest) = thunk_walk(mem, tstart) {
                    assert(Seq::<(bool, u16, Seq<u8>)>::empty() + rest =~= rest);
                }
            }
            loop
                invariant
                    image.opt() matches Some(h) && h.data_directory[1].virtual_address != 0 && h.data_directory[1].size != 0,
                    mem == self.memory@,
                    start == image.opt()->Some_0.data_directory[1].virtual_address as int,
                    d_rva == descriptor_rva as int,
                    descriptor_walk(mem, start) == prepend(dlls_view(result@), descriptor_walk(mem, d_rva)),
                    descriptor_walk(mem, d_rva) == match thunk_walk(mem, tstart) {
                        Err(e) => Err(e),
                        Ok(fs) => prepend(seq![(dll_name.spec_bytes(), fs)], descriptor_walk(mem, d_rva + 20)),
                    },
                    thunk_walk(mem, tstart) == prepend(functions_view(functions@), thunk_walk(mem, thunk_rva as int)),
                    forall|j: int| 0 <= j < functions.len() ==>
                        (#[trigger] functions@[j] matches ImportFunction::Name(n) ==> names_string(self.memory_view(), n)),
                ensures
                    descriptor_walk(mem, start) == prepend(dlls_view(result@), descriptor_walk(mem, d_rva)),
                    descriptor_walk(mem, d_rva) == match thunk_walk(mem, tstart) {
                        Err(e) => Err(e),
                        Ok(fs) => prepend(seq![(dll_name.spec_bytes(), fs)], descriptor_walk(mem, d_rva + 20)),
                    },
                    thunk_walk(mem, tstart) == prepend(functions_view(functions@), thunk_walk(mem, thunk_rva as int)),
                    thunk_walk(mem, thunk_rva as int) == Ok::<Seq<(bool, u16, Seq<u8>)>, LoadError>(Seq::empty()),
                decreases self.memory.len() + 1 - thunk_rva,
            {
                if !(thunk_rva <= self.memory.len() && self.memory.len() - thunk_rva >= THUNK64_SIZE) {
                    assert(thunk_walk(mem, thunk_rva as int) == Err::<Seq<(bool, u16, Seq<u8>)>, LoadError>(LoadError::ThunkOutOfBounds));
                    return Err(LoadError::ThunkOutOfBounds);
                }
                let u1 = self.mem_u64(thunk_rva);
                if u1 == 0 {
                    break;
                }
                let ghost fv0 = functions@;
                if (u1 & 0x8000_0000_0000_0000) != 0 {
                    assert(u1 & 0xFFFF <= 0xFFFF) by (bit_vector);
                    let ordinal = (u1 & 0xFFFF) as u16;
                    functions.push(ImportFunction::Ordinal(ordinal));
                } else {
                    // A pointer to an IMAGE_IMPORT_BY_NAME struct (u16 hint + nul-terminated string).
                    let name_rva = (u1 & 0x7FFF_FFFF) as usize;
                    assert(u1 & 0x7FFF_FFFF <= 0x7FFF_FFFF) by (bit_vector);
                    let func_name = match self.read_string(name_rva + 2) {
                        Ok(n) => n,
                        Err(e) => {
                            assert(thunk_walk(mem, thunk_rva as int) == Err::<Seq<(bool, u16, Seq<u8>)>, LoadError>(e));
                            return Err(e);
                        },
                    };
                    functions.push(ImportFunction::Name(func_name));
                }
                proof {
                    let f = function_view(functions@.last());
                    assert(functions_view(functions@) =~= functions_view(fv0) + seq![f]);
                    lemma_prepend_assoc(functions_view(fv0), seq![f], thunk_walk(mem, thunk_rva + 8));
                }
                thunk_rva = thunk_rva + THUNK64_SIZE;
            }
            let ghost rv0 = result@;
            let ghost fv = functions_view(functions@);
            result.push(DllImport { dll_name, functions });
            proof {
                assert(fv + Seq::<(bool, u16, Seq<u8>)>::empty() =~= fv);
                assert(thunk_walk(mem, tstart) == Ok::<Seq<(bool, u16, Seq<u8>)>, LoadError>(fv));
                assert(dlls_view(result@) =~= dlls_view(rv0) + seq![(dll_name.spec_bytes(), fv)]);
                lemma_prepend_assoc(dlls_view(rv0), seq![(dll_name.spec_bytes(), fv)], descriptor_walk(mem, d_rva + 20));
            }
            descriptor_rva = descriptor_rva + IMPORT_DESCRIPTOR_SIZE;
        }
        proof {
            assert(dlls_view(result@) + Seq::<(Seq<u8>, Seq<(bool, u16, Seq<u8>)>)>::empty() =~= dlls_view(result@));
        }
        Ok(result)
    }
}

} // verus!
