use prisma::loader::mapper::{ImportFunction, PeVirtualImage};
use prisma::loader::pe::{ImageDosHeader, PeImage};
use prisma::loader::LoadError;

#[test]
fn test_invalid_image() {
    let dummy_data = [0u8; 10];
    assert!(PeImage::new(&dummy_data).is_err());
}

#[test]
fn test_invalid_magic() {
    let mut dummy_data = vec![0u8; std::mem::size_of::<ImageDosHeader>()];
    dummy_data[0] = 0x00;
    assert!(PeImage::new(&dummy_data).is_err());
}

#[test]
fn test_mapper_compiles() {
    assert!(true);
}

fn put16(b: &mut [u8], at: usize, v: u16) {
    b[at..at + 2].copy_from_slice(&v.to_le_bytes());
}

fn put32(b: &mut [u8], at: usize, v: u32) {
    b[at..at + 4].copy_from_slice(&v.to_le_bytes());
}

fn put64(b: &mut [u8], at: usize, v: u64) {
    b[at..at + 8].copy_from_slice(&v.to_le_bytes());
}

/// A PE32+ file: headers in the first 0x200 bytes, one section of 0x20 raw
/// bytes at file offset 0x200 mapped at RVA 0x1000, an import table at RVA
/// 0x1000 + 0x40 inside a second section.
fn minimal_pe(with_imports: bool) -> Vec<u8> {
    let mut b = vec![0u8; 0x400];
    put16(&mut b, 0, 0x5A4D);
    put32(&mut b, 60, 0x80);
    put32(&mut b, 0x80, 0x0000_4550);
    let fh = 0x84;
    put16(&mut b, fh, 0x8664);
    put16(&mut b, fh + 2, 1);
    put16(&mut b, fh + 16, 240);
    let opt = fh + 20;
    put16(&mut b, opt, 0x20B);
    put64(&mut b, opt + 24, 0x1_4000_0000);
    put32(&mut b, opt + 56, 0x2000);
    put32(&mut b, opt + 60, 0x200);
    if with_imports {
        // import directory at RVA 0x1100, 0x28 bytes
        put32(&mut b, opt + 112 + 8, 0x1100);
        put32(&mut b, opt + 116 + 8, 0x28);
    }
    let sec = opt + 240;
    b[sec..sec + 5].copy_from_slice(b".text");
    put32(&mut b, sec + 8, 0x200); // virtual size
    put32(&mut b, sec + 12, 0x1000); // virtual address
    put32(&mut b, sec + 16, 0x200); // raw size
    put32(&mut b, sec + 20, 0x200); // raw pointer
    for i in 0..0x20 {
        b[0x200 + i] = 0xA0 + i as u8;
    }
    if with_imports {
        // descriptor at file 0x300 (RVA 0x1100): name RVA 0x1140, thunks at 0x1160
        put32(&mut b, 0x300, 0x1160);
        put32(&mut b, 0x300 + 12, 0x1140);
        put32(&mut b, 0x300 + 16, 0x1160);
        b[0x340..0x34D].copy_from_slice(b"KERNEL32.dll\0");
        // thunks: by name (hint/name at RVA 0x1180), by ordinal 7, end
        put64(&mut b, 0x360, 0x1180);
        put64(&mut b, 0x368, 0x8000_0000_0000_0007);
        put64(&mut b, 0x370, 0);
        b[0x382..0x38F].copy_from_slice(b"ExitProcess\0\0");
    }
    b
}

#[test]
fn valid_image_parses_and_maps_sections() {
    let file = minimal_pe(false);
    let img = PeImage::new(&file).unwrap();
    assert_eq!(img.sections().len(), 1);
    let opt = img.optional_header().unwrap();
    assert_eq!({ opt.size_of_image }, 0x2000);
    let mapped = PeVirtualImage::map(&img).unwrap();
    let imports = mapped.imports(&img).unwrap();
    assert!(imports.is_empty());
}

#[test]
fn imports_are_read_by_name_and_ordinal() {
    let file = minimal_pe(true);
    let img = PeImage::new(&file).unwrap();
    let mapped = PeVirtualImage::map(&img).unwrap();
    let imports = mapped.imports(&img).unwrap();
    assert_eq!(imports.len(), 1);
    assert_eq!(imports[0].dll_name, "KERNEL32.dll");
    assert_eq!(imports[0].functions, vec![ImportFunction::Name("ExitProcess"), ImportFunction::Ordinal(7)]);
}

#[test]
fn each_header_check_reports_its_error() {
    assert_eq!(PeImage::new(&[0u8; 10]).err(), Some(LoadError::DosHeaderTruncated));
    let mut f = minimal_pe(false);
    f[0] = 0;
    assert_eq!(PeImage::new(&f).err(), Some(LoadError::InvalidDosSignature));
    let mut f = minimal_pe(false);
    put32(&mut f, 60, 0x3F0);
    assert_eq!(PeImage::new(&f).err(), Some(LoadError::NtHeadersTruncated));
    let mut f = minimal_pe(false);
    f[0x80] = b'X';
    assert_eq!(PeImage::new(&f).err(), Some(LoadError::InvalidPeSignature));
    let mut f = minimal_pe(false);
    put16(&mut f, 0x84 + 16, 100);
    assert_eq!(PeImage::new(&f).err(), Some(LoadError::OptionalHeaderTooSmall));
    let mut f = minimal_pe(false);
    put16(&mut f, 0x84 + 20, 0x10B);
    assert_eq!(PeImage::new(&f).err(), Some(LoadError::NotPe32Plus));
    let mut f = minimal_pe(false);
    put16(&mut f, 0x84 + 2, 100);
    assert_eq!(PeImage::new(&f).err(), Some(LoadError::SectionHeadersTruncated));
    let mut f = minimal_pe(false);
    put32(&mut f, 60, 0xFFFF_FFF0);
    assert_eq!(PeImage::new(&f).err(), Some(LoadError::NtHeadersTruncated));
}

fn imports_of(file: &[u8]) -> Result<usize, LoadError> {
    let img = PeImage::new(file).unwrap();
    let mapped = PeVirtualImage::map(&img).unwrap();
    mapped.imports(&img).map(|v| v.len())
}

#[test]
fn import_walk_reports_each_out_of_bounds_case() {
    let mut f = minimal_pe(true);
    put32(&mut f, 0x98 + 112 + 8, 0x1FF0); // descriptor straddles the end of memory
    assert_eq!(imports_of(&f), Err(LoadError::ImportDescriptorOutOfBounds));
    let mut f = minimal_pe(true);
    put32(&mut f, 0x300, 0x1FFC); // thunk table at the end of memory
    assert_eq!(imports_of(&f), Err(LoadError::ThunkOutOfBounds));
    let mut f = minimal_pe(true);
    put32(&mut f, 0x300 + 12, 0x3000); // name outside memory
    assert_eq!(imports_of(&f), Err(LoadError::StringOutOfBounds));
    let mut f = minimal_pe(true);
    f[0x340] = 0xFF; // not UTF-8
    assert_eq!(imports_of(&f), Err(LoadError::InvalidUtf8));
}

#[test]
fn string_without_nul_before_the_end_is_rejected() {
    let mut f = minimal_pe(true);
    // name at the last bytes of the mapped section, which are not nul
    put32(&mut f, 0x300 + 12, 0x11FE);
    f[0x3FE] = b'A';
    f[0x3FF] = b'B';
    // memory continues with zeros after the section, so a nul is found
    assert_eq!(imports_of(&f), Ok(1));
    let mut g = minimal_pe(true);
    put32(&mut g, 0x98 + 56, 0x1200); // shrink the image to end with the section
    put32(&mut g, 0x300 + 12, 0x11FE);
    g[0x3FE] = b'A';
    g[0x3FF] = b'B';
    assert_eq!(imports_of(&g), Err(LoadError::MissingNulTerminator));
}

#[test]
fn mapping_copies_headers_and_sections_to_their_addresses() {
    let file = minimal_pe(true);
    let img = PeImage::new(&file).unwrap();
    let mapped = PeVirtualImage::map(&img).unwrap();
    // the import name was copied from file offset 0x340 to RVA 0x1140
    let imports = mapped.imports(&img).unwrap();
    assert_eq!(imports[0].dll_name.as_bytes()[0], b'K');
}

#[test]
fn load_errors_describe_themselves() {
    assert_eq!(LoadError::InvalidPeSignature.message(), "Invalid PE signature");
    assert_eq!(LoadError::NotPe32Plus.message(), "Only PE32+ (64-bit) binaries are supported");
    assert_eq!(LoadError::InvalidUtf8.message(), "Invalid UTF-8 in string");
}
