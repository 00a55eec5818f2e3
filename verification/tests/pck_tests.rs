use rusty_spire::pck::IoError;
use rusty_spire::pck::PckArchive;
use rusty_spire::pck::PckArchiveFlags;
use rusty_spire::pck::PckError;
use rusty_spire::pck::PckFileFlags;
use rusty_spire::pck::PckHeader;
use rusty_spire::pck::PckMetadata;
use rusty_spire::pck::PckVersion;

struct Entry {
    path: Vec<u8>,
    offset: u64,
    size: u64,
    md5: [u8; 16],
    flags: u32,
}

fn entry(path: &str, offset: u64, size: u64, flags: u32) -> Entry {
    let mut md5 = [0u8; 16];
    for (i, b) in md5.iter_mut().enumerate() {
        *b = i as u8 + offset as u8;
    }
    Entry { path: path.as_bytes().to_vec(), offset, size, md5, flags }
}

fn directory(entries: &[Entry]) -> Vec<u8> {
    let mut d = Vec::new();
    d.extend_from_slice(&(entries.len() as u32).to_ne_bytes());
    for e in entries {
        d.extend_from_slice(&(e.path.len() as u32).to_ne_bytes());
        d.extend_from_slice(&e.path);
        d.extend_from_slice(&e.offset.to_ne_bytes());
        d.extend_from_slice(&e.size.to_ne_bytes());
        d.extend_from_slice(&e.md5);
        d.extend_from_slice(&e.flags.to_ne_bytes());
    }
    d
}

fn header_start(version: u32, flags: u32, file_base: u64) -> Vec<u8> {
    let mut d = Vec::new();
    d.extend_from_slice(&PckHeader::MAGIC.to_ne_bytes());
    d.extend_from_slice(&version.to_ne_bytes());
    d.extend_from_slice(&4u32.to_ne_bytes());
    d.extend_from_slice(&3u32.to_ne_bytes());
    d.extend_from_slice(&1u32.to_ne_bytes());
    d.extend_from_slice(&flags.to_ne_bytes());
    d.extend_from_slice(&file_base.to_ne_bytes());
    d
}

/// A version-2 pack: header, sixteen reserved words, directory, then `data`.
fn pack_v2(flags: u32, file_base: u64, entries: &[Entry], data: &[u8]) -> Vec<u8> {
    let mut d = header_start(2, flags, file_base);
    d.extend_from_slice(&[0u8; 64]);
    d.extend_from_slice(&directory(entries));
    d.extend_from_slice(data);
    d
}

/// A version-3 pack whose directory follows the header and whose files
/// follow the directory; file offsets are relative to the end of the directory.
fn pack_v3(entries: &[Entry], data: &[u8]) -> Vec<u8> {
    let dir = directory(entries);
    let dir_offset = 40u64;
    let file_base = dir_offset + dir.len() as u64;
    let mut d = header_start(3, 0, file_base);
    d.extend_from_slice(&dir_offset.to_ne_bytes());
    d.extend_from_slice(&dir);
    d.extend_from_slice(data);
    d
}

#[test]
fn v2_pack_reads_header_and_directory() {
    let data = b"helloworld";
    let entries = [entry("res://a.txt", 0, 5, 0), entry("res://dir/b.bin", 5, 5, 2)];
    let bytes = pack_v2(0, 0, &entries, data);
    let m = PckMetadata::load_from_start(&bytes).unwrap();
    assert_eq!(m.header_offset, 0);
    assert_eq!(m.header.version, PckVersion::V2);
    assert_eq!(m.header.godot_version.major, 4);
    assert_eq!(m.header.godot_version.minor, 3);
    assert_eq!(m.header.godot_version.patch, 1);
    assert_eq!(m.header.file_base, 0);
    assert_eq!(m.header.salt, None);
    assert_eq!(m.files.len(), 2);
    let (k0, f0) = m.files.get_index(0).unwrap();
    assert_eq!(k0.as_str(), "res://a.txt");
    assert_eq!(f0.path, "res://a.txt");
    assert_eq!(f0.offset, 0);
    assert_eq!(f0.size, 5);
    assert_eq!(f0.md5, entries[0].md5);
    let (k1, f1) = m.files.get_index(1).unwrap();
    assert_eq!(k1.as_str(), "res://dir/b.bin");
    assert!(f1.flags.contains(PckFileFlags::REMOVAL));
    assert!(!f1.flags.contains(PckFileFlags::ENCRYPTED));
    assert_eq!(f1.flags.bits(), 2);
}

#[test]
fn v2_pack_with_absolute_file_base_reads_files() {
    let data = b"helloworld";
    let entries = [entry("a", 0, 5, 0), entry("b", 5, 5, 0)];
    let base_len = pack_v2(0, 0, &entries, &[]).len() as u64;
    let bytes = pack_v2(0, base_len, &entries, data);
    let archive = PckArchive::new_from_start(bytes).unwrap();
    assert_eq!(archive.len(), 2);
    assert!(!archive.is_empty());
    assert_eq!(archive.metadata().absolute_file_base().unwrap(), base_len);
    let a = archive.by_index(0).unwrap();
    assert_eq!(a.data(), b"hello");
    assert_eq!(a.file_metadata().path, "a");
    let b = archive.by_path("b").unwrap();
    assert_eq!(b.data(), b"world");
}

#[test]
fn v3_pack_reads_files_relative_to_header() {
    let data = b"abcdefgh";
    let entries = [entry("x/one", 0, 3, 0), entry("x/two", 3, 5, 0)];
    let bytes = pack_v3(&entries, data);
    let archive = PckArchive::new_from_start(bytes).unwrap();
    assert_eq!(archive.metadata().header.version, PckVersion::V3);
    assert_eq!(archive.by_path("x/one").unwrap().data(), b"abc");
    assert_eq!(archive.by_path("x/two").unwrap().data(), b"defgh");
}

#[test]
fn file_past_the_end_is_cut_short() {
    let data = b"abc";
    let entries = [entry("short", 1, 100, 0), entry("beyond", 1000, 4, 0)];
    let bytes = pack_v3(&entries, data);
    let archive = PckArchive::new_from_start(bytes).unwrap();
    assert_eq!(archive.by_index(0).unwrap().data(), b"bc");
    assert_eq!(archive.by_index(1).unwrap().data(), b"");
}

#[test]
fn missing_file_is_file_not_found() {
    let bytes = pack_v3(&[entry("a", 0, 1, 0)], b"z");
    let archive = PckArchive::new_from_start(bytes).unwrap();
    assert!(matches!(archive.by_index(1), Err(PckError::FileNotFound)));
    assert!(matches!(archive.by_path("nope"), Err(PckError::FileNotFound)));
}

#[test]
fn empty_pack_is_empty() {
    let bytes = pack_v3(&[], b"");
    let archive = PckArchive::new_from_start(bytes).unwrap();
    assert_eq!(archive.len(), 0);
    assert!(archive.is_empty());
}

#[test]
fn repeated_path_keeps_its_place_and_takes_the_later_entry() {
    let entries = [entry("a", 0, 1, 0), entry("b", 1, 1, 0), entry("a", 2, 1, 0)];
    let bytes = pack_v3(&entries, b"xyz");
    let archive = PckArchive::new_from_start(bytes).unwrap();
    assert_eq!(archive.len(), 2);
    assert_eq!(archive.by_index(0).unwrap().file_metadata().offset, 2);
    assert_eq!(archive.by_path("a").unwrap().data(), b"z");
    assert_eq!(archive.by_index(1).unwrap().file_metadata().path, "b");
}

#[test]
fn path_stops_at_nul() {
    let mut e = entry("abc", 0, 0, 0);
    e.path = b"abc\0\0\0\0\0".to_vec();
    let bytes = pack_v3(&[e], b"");
    let m = PckMetadata::load_from_start(&bytes).unwrap();
    assert_eq!(m.files.get_index(0).unwrap().1.path, "abc");
    assert!(m.files.get("abc").is_some());
}

#[test]
fn invalid_utf8_path_is_an_error() {
    let mut e = entry("abc", 0, 0, 0);
    e.path = vec![0xff, 0xfe];
    let bytes = pack_v3(&[e], b"");
    assert!(matches!(PckMetadata::load_from_start(&bytes), Err(PckError::Utf8)));
}

#[test]
fn wrong_magic_is_invalid_magic() {
    let mut bytes = pack_v3(&[], b"");
    bytes[0] ^= 0xff;
    assert!(matches!(PckMetadata::load_from_start(&bytes), Err(PckError::InvalidMagic)));
}

#[test]
fn unknown_version_is_invalid_version() {
    let mut bytes = pack_v3(&[], b"");
    bytes[4..8].copy_from_slice(&5u32.to_ne_bytes());
    assert!(matches!(PckMetadata::load_from_start(&bytes), Err(PckError::InvalidVersion)));
    bytes[4..8].copy_from_slice(&1u32.to_ne_bytes());
    assert!(matches!(PckMetadata::load_from_start(&bytes), Err(PckError::InvalidVersion)));
}

#[test]
fn truncated_pack_is_unexpected_eof() {
    let bytes = pack_v3(&[entry("abc", 0, 1, 0)], b"");
    for cut in [0usize, 3, 10, 35, 45, bytes.len() - 1] {
        let r = PckMetadata::load_from_start(&bytes[..cut]);
        assert!(
            matches!(r, Err(PckError::Io(IoError::UnexpectedEof))),
            "cut at {cut}: {r:?}"
        );
    }
}

#[test]
fn encrypted_directory_is_not_implemented() {
    let mut bytes = pack_v2(PckArchiveFlags::DIR_ENCRYPTED, 0, &[], b"");
    match PckMetadata::load_from_start(&bytes) {
        Err(PckError::NotImplemented(msg)) => assert_eq!(msg, "encrypted pck"),
        other => panic!("{other:?}"),
    }
    // with no directory count at all, the data ends first
    bytes.truncate(96);
    assert!(matches!(
        PckMetadata::load_from_start(&bytes),
        Err(PckError::Io(IoError::UnexpectedEof))
    ));
}

#[test]
fn v4_sparse_encrypted_pack_reads_its_salt_first() {
    let flags = PckArchiveFlags::DIR_ENCRYPTED | PckArchiveFlags::SPARSE_BUNDLE;
    let mut bytes = header_start(4, flags, 0);
    bytes.extend_from_slice(&72u64.to_ne_bytes());
    bytes.extend_from_slice(&[7u8; 32]);
    bytes.extend_from_slice(&0u32.to_ne_bytes());
    match PckMetadata::load_from_start(&bytes) {
        Err(PckError::NotImplemented(msg)) => assert_eq!(msg, "encrypted pck"),
        other => panic!("{other:?}"),
    }
    bytes.truncate(50);
    assert!(matches!(
        PckMetadata::load_from_start(&bytes),
        Err(PckError::Io(IoError::UnexpectedEof))
    ));
}

#[test]
fn v4_pack_without_encryption_has_no_salt() {
    let dir = directory(&[entry("f", 0, 2, 0)]);
    let mut bytes = header_start(4, PckArchiveFlags::SPARSE_BUNDLE, 40 + dir.len() as u64);
    bytes.extend_from_slice(&40u64.to_ne_bytes());
    bytes.extend_from_slice(&dir);
    bytes.extend_from_slice(b"ok");
    let archive = PckArchive::new_from_start(bytes).unwrap();
    assert_eq!(archive.metadata().header.salt, None);
    assert_eq!(archive.metadata().header.version, PckVersion::V4);
    assert!(archive.metadata().header.flags.contains(PckArchiveFlags::SPARSE_BUNDLE));
    assert_eq!(archive.by_index(0).unwrap().data(), b"ok");
}

#[test]
fn directory_offset_past_u64_is_offset_out_of_bounds() {
    let mut bytes = header_start(3, 0, 0);
    bytes.extend_from_slice(&u64::MAX.to_ne_bytes());
    let mut shifted = vec![0u8; 8];
    shifted.extend_from_slice(&bytes);
    assert!(matches!(
        PckMetadata::load_from_offset(&shifted, 8),
        Err(PckError::OffsetOutOfBounds)
    ));
}

#[test]
fn pack_after_other_data_reads_the_same() {
    let data = b"0123456789";
    let entries = [entry("a", 0, 4, 0), entry("b", 4, 6, 0)];
    let pack = pack_v3(&entries, data);
    let mut embedded = b"an executable".to_vec();
    let h = embedded.len() as u64;
    embedded.extend_from_slice(&pack);
    let alone = PckMetadata::load_from_start(&pack).unwrap();
    let moved = PckMetadata::load_from_offset(&embedded, h).unwrap();
    assert_eq!(moved.header_offset, h);
    assert_eq!(moved.header, alone.header);
    assert_eq!(moved.files, alone.files);
    let archive = PckArchive::new_from_offset(embedded, h).unwrap();
    assert_eq!(archive.by_path("a").unwrap().data(), b"0123");
    assert_eq!(archive.by_path("b").unwrap().data(), b"456789");
}

#[test]
fn pack_is_found_from_the_end() {
    let data = b"payload";
    let pack = pack_v3(&[entry("p", 0, 7, 0)], data);
    let mut exe = b"MZ some program bytes".to_vec();
    let h = exe.len() as u64;
    exe.extend_from_slice(&pack);
    exe.extend_from_slice(&(pack.len() as u64).to_ne_bytes());
    exe.extend_from_slice(&PckHeader::MAGIC.to_ne_bytes());
    let m = PckMetadata::load_from_end(&exe).unwrap();
    assert_eq!(m.header_offset, h);
    let archive = PckArchive::new_from_end(exe).unwrap();
    assert_eq!(archive.by_path("p").unwrap().data(), b"payload");
}

#[test]
fn load_from_end_errors() {
    assert!(matches!(
        PckMetadata::load_from_end(&[1, 2]),
        Err(PckError::Io(IoError::InvalidSeek))
    ));
    assert!(matches!(
        PckMetadata::load_from_end(&[0, 0, 0, 0, 0, 0, 0, 0]),
        Err(PckError::InvalidMagic)
    ));
    let mut short = vec![0u8; 4];
    short.extend_from_slice(&PckHeader::MAGIC.to_ne_bytes());
    assert!(matches!(
        PckMetadata::load_from_end(&short),
        Err(PckError::Io(IoError::InvalidSeek))
    ));
    let mut far = 100u64.to_ne_bytes().to_vec();
    far.extend_from_slice(&PckHeader::MAGIC.to_ne_bytes());
    assert!(matches!(PckMetadata::load_from_end(&far), Err(PckError::OffsetOutOfBounds)));
}

#[test]
fn load_from_start_is_load_from_offset_zero() {
    let bytes = pack_v3(&[entry("a", 0, 1, 0)], b"q");
    let a = PckMetadata::load_from_start(&bytes).unwrap();
    let b = PckMetadata::load_from_offset(&bytes, 0).unwrap();
    assert_eq!(a.header, b.header);
    assert_eq!(a.files, b.files);
}

#[test]
fn relative_file_base_flag_in_v2() {
    let data = b"xy";
    let entries = [entry("f", 0, 2, 0)];
    let mut exe = b"prefix".to_vec();
    let h = exe.len() as u64;
    let dir_end = pack_v2(0, 0, &entries, &[]).len() as u64;
    exe.extend_from_slice(&pack_v2(PckArchiveFlags::REL_FILEBASE, dir_end, &entries, data));
    let archive = PckArchive::new_from_offset(exe, h).unwrap();
    assert_eq!(archive.metadata().absolute_file_base().unwrap(), dir_end + h);
    assert_eq!(archive.by_index(0).unwrap().data(), b"xy");
}

#[test]
fn file_base_overflow_is_offset_out_of_bounds() {
    let mut bytes = vec![0u8; 4];
    let dir = directory(&[entry("f", 0, 1, 0)]);
    let mut pack = header_start(3, 0, u64::MAX);
    pack.extend_from_slice(&40u64.to_ne_bytes());
    pack.extend_from_slice(&dir);
    bytes.extend_from_slice(&pack);
    let archive = PckArchive::new_from_offset(bytes, 4).unwrap();
    assert!(matches!(archive.metadata().absolute_file_base(), Err(PckError::OffsetOutOfBounds)));
    assert!(matches!(archive.by_index(0), Err(PckError::OffsetOutOfBounds)));
}

#[test]
fn versions_and_flags_convert() {
    assert_eq!(PckVersion::try_from_u32(3), Some(PckVersion::V3));
    assert_eq!(PckVersion::try_from_u32(7), None);
    assert_eq!(PckVersion::V4.to_u32(), 4);
    let f = PckArchiveFlags::from_bits_retain(0b101);
    assert!(f.contains(PckArchiveFlags::DIR_ENCRYPTED));
    assert!(!f.contains(PckArchiveFlags::REL_FILEBASE));
    assert!(f.contains(PckArchiveFlags::DIR_ENCRYPTED | PckArchiveFlags::SPARSE_BUNDLE));
    assert_eq!(f.bits(), 5);
    assert_eq!(PckHeader::MAGIC.to_le_bytes(), *b"GDPC");
}

#[test]
fn cloned_archive_reads_the_same() {
    let bytes = pack_v3(&[entry("a", 0, 2, 0), entry("b", 2, 1, 1)], b"xyz");
    let archive = PckArchive::new_from_start(bytes).unwrap();
    let copy = archive.clone();
    assert_eq!(copy.metadata().files, archive.metadata().files);
    assert_eq!(copy.metadata().header, archive.metadata().header);
    assert_eq!(copy.by_index(1).unwrap().data(), b"z");
    let m = archive.metadata().clone();
    assert_eq!(m.files.len(), 2);
    assert_eq!(m.header_offset, 0);
}
