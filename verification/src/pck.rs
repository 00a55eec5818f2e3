//! Godot resource pack (`.pck`) archives.
//!
//! A pack starts with a header (magic `GDPC`, format version, engine version,
//! flags, where the file data starts), followed by a directory: a count and,
//! for each file, its path, offset, size, MD5 sum and flags.

use crate::bytes::bytes_at;
use crate::bytes::clamped_bytes;
use crate::bytes::slice_clamped;
use crate::bytes::has_bytes;
use crate::bytes::read_bytes;
use crate::bytes::read_u32_ne;
use crate::bytes::read_u64_ne;
use crate::bytes::u32_ne_at;
use crate::bytes::u64_ne_at;
use crate::bytes::u32_le;
use indexmap::IndexMap;
use vstd::prelude::*;
use vstd::utf8::decode_utf8;
use vstd::utf8::valid_utf8;

verus! {

/// The ways in which reading past the data, or seeking outside it, fails.
#[derive(Debug, Clone, Copy, PartialEq, Eq, Structural)]
pub enum IoError {
    /// The data ended before all the bytes that were needed.
    UnexpectedEof,
    /// A position before the start of the data, or past `u64::MAX`, was asked for.
    InvalidSeek,
}

#[derive(Debug)]
pub enum PckError {
    InvalidMagic,
    InvalidVersion,
    InvalidValue(String),
    OffsetOutOfBounds,
    FileNotFound,
    Io(IoError),
    Utf8,
    Image(image::ImageError),
    DdsDecode(dds::DecodingError),
    NotImplemented(String),
    Unknown,
}

/// What an error says, with its message as characters.
pub enum PckErrorView {
    InvalidMagic,
    InvalidVersion,
    InvalidValue(Seq<char>),
    OffsetOutOfBounds,
    FileNotFound,
    Io(IoError),
    Utf8,
    Image,
    DdsDecode,
    NotImplemented(Seq<char>),
    Unknown,
}

impl View for PckError {
    type V = PckErrorView;

    open spec fn view(&self) -> PckErrorView {
        match self {
            PckError::InvalidMagic => PckErrorView::InvalidMagic,
            PckError::InvalidVersion => PckErrorView::InvalidVersion,
            PckError::InvalidValue(s) => PckErrorView::InvalidValue(s@),
            PckError::OffsetOutOfBounds => PckErrorView::OffsetOutOfBounds,
            PckError::FileNotFound => PckErrorView::FileNotFound,
            PckError::Io(e) => PckErrorView::Io(*e),
            PckError::Utf8 => PckErrorView::Utf8,
            PckError::Image(_) => PckErrorView::Image,
            PckError::DdsDecode(_) => PckErrorView::DdsDecode,
            PckError::NotImplemented(s) => PckErrorView::NotImplemented(s@),
            PckError::Unknown => PckErrorView::Unknown,
        }
    }
}

pub open spec fn eof() -> PckErrorView {
    PckErrorView::Io(IoError::UnexpectedEof)
}

fn eof_error() -> (e: PckError)
    ensures
        e@ == eof(),
{
    PckError::Io(IoError::UnexpectedEof)
}

/// The format versions of the pack header.
#[derive(Debug, Clone, Copy, PartialEq, Eq, Structural)]
pub enum PckVersion {
    V2,
    V3,
    V4,
}

/// The version that a header number stands for.
pub open spec fn version_of(v: u32) -> Option<PckVersion> {
    if v == 2 {
        Some(PckVersion::V2)
    } else if v == 3 {
        Some(PckVersion::V3)
    } else if v == 4 {
        Some(PckVersion::V4)
    } else {
        None
    }
}

impl PckVersion {
    /// The version with the number `v`, if there is one.
    pub fn try_from_u32(v: u32) -> (r: Option<PckVersion>)
        ensures
            r == version_of(v),
    {
        if v == 2 {
            Some(PckVersion::V2)
        } else if v == 3 {
            Some(PckVersion::V3)
        } else if v == 4 {
            Some(PckVersion::V4)
        } else {
            None
        }
    }

    /// The number of this version.
    pub fn to_u32(self) -> (r: u32)
        ensures
            version_of(r) == Some(self),
    {
        match self {
            PckVersion::V2 => 2,
            PckVersion::V3 => 3,
            PckVersion::V4 => 4,
        }
    }
}

/// The version of the engine that wrote a pack.
#[derive(Debug, Clone, Copy, PartialEq, Eq, Structural)]
pub struct GodotVersion {
    pub major: u32,
    pub minor: u32,
    pub patch: u32,
}

/// Whether every bit of `mask` is set in `bits`.
pub open spec fn has_bits(bits: u32, mask: u32) -> bool {
    bits & mask == mask
}

/// Flags of a whole pack.
#[derive(Debug, Clone, Copy, PartialEq, Eq, Structural)]
pub struct PckArchiveFlags {
    bits: u32,
}

impl PckArchiveFlags {
    pub const DIR_ENCRYPTED: u32 = 1;

    pub const REL_FILEBASE: u32 = 2;

    pub const SPARSE_BUNDLE: u32 = 4;

    pub closed spec fn spec_bits(self) -> u32 {
        self.bits
    }

    /// The flags with exactly these bits, known or not.
    pub fn from_bits_retain(bits: u32) -> (r: Self)
        ensures
            r.spec_bits() == bits,
    {
        PckArchiveFlags { bits }
    }

    pub fn bits(&self) -> (r: u32)
        ensures
            r == self.spec_bits(),
    {
        self.bits
    }

    /// Whether all bits of `mask` are set.
    pub fn contains(&self, mask: u32) -> (r: bool)
        ensures
            r == has_bits(self.spec_bits(), mask),
    {
        self.bits & mask == mask
    }
}

/// Flags of one file in a pack.
#[derive(Debug, Clone, Copy, PartialEq, Eq, Structural)]
pub struct PckFileFlags {
    bits: u32,
}

impl PckFileFlags {
    pub const ENCRYPTED: u32 = 1;

    pub const REMOVAL: u32 = 2;

    pub const DELTA: u32 = 4;

    pub closed spec fn spec_bits(self) -> u32 {
        self.bits
    }

    /// The flags with exactly these bits, known or not.
    pub fn from_bits_retain(bits: u32) -> (r: Self)
        ensures
            r.spec_bits() == bits,
    {
        PckFileFlags { bits }
    }

    pub fn bits(&self) -> (r: u32)
        ensures
            r == self.spec_bits(),
    {
        self.bits
    }

    /// Whether all bits of `mask` are set.
    pub fn contains(&self, mask: u32) -> (r: bool)
        ensures
            r == has_bits(self.spec_bits(), mask),
    {
        self.bits & mask == mask
    }
}

#[derive(Debug, Clone, Copy, PartialEq, Eq)]
pub struct PckHeader {
    pub version: PckVersion,
    pub godot_version: GodotVersion,
    pub flags: PckArchiveFlags,
    pub file_base: u64,
    /// reserved space, used as salt in V4
    pub salt: Option<[u8; 32]>,
}

/// The content of a header, with the salt as a sequence of bytes.
pub struct HeaderFields {
    pub version: PckVersion,
    pub godot_version: GodotVersion,
    pub flags: u32,
    pub file_base: u64,
    pub salt: Option<Seq<u8>>,
}

impl View for PckHeader {
    type V = HeaderFields;

    open spec fn view(&self) -> HeaderFields {
        HeaderFields {
            version: self.version,
            godot_version: self.godot_version,
            flags: self.flags.spec_bits(),
            file_base: self.file_base,
            salt: match self.salt {
                Some(s) => Some(s@),
                None => None,
            },
        }
    }
}

impl PckHeader {
    /// GDPC
    pub const MAGIC: u32 = 0x43504447;
}

#[derive(Debug, Clone, PartialEq, Eq)]
pub struct PckFileMetadata {
    pub path: String,
    pub offset: u64,
    pub size: u64,
    pub md5: [u8; 16],
    pub flags: PckFileFlags,
}

/// The content of a directory entry.
pub struct PckFileRecord {
    pub path: Seq<char>,
    pub offset: u64,
    pub size: u64,
    pub md5: Seq<u8>,
    pub flags: u32,
}

impl View for PckFileMetadata {
    type V = PckFileRecord;

    open spec fn view(&self) -> PckFileRecord {
        PckFileRecord {
            path: self.path@,
            offset: self.offset,
            size: self.size,
            md5: self.md5@,
            flags: self.flags.spec_bits(),
        }
    }
}

// ---------------------------------------------------------------------------
// The directory map.
#[verifier::external_type_specification]
#[verifier::external_body]
#[verifier::reject_recursive_types(K)]
#[verifier::reject_recursive_types(V)]
#[verifier::reject_recursive_types(S)]
pub struct ExIndexMap<K, V, S>(IndexMap<K, V, S>);

/// The entries of a directory map, in their order: each key and the content of
/// its metadata.
pub uninterp spec fn pck_entries(m: IndexMap<String, PckFileMetadata>) -> Seq<(Seq<char>, PckFileRecord)>;

/// The position of the entry with key `k`, if there is one.
pub open spec fn entry_index(es: Seq<(Seq<char>, PckFileRecord)>, k: Seq<char>) -> Option<int> {
    es.map_values(|e: (Seq<char>, PckFileRecord)| e.0).index_of_first(k)
}

/// The entries after inserting `v` under `k`: an entry with that key keeps its
/// place and takes the new value; otherwise the pair goes last.
pub open spec fn insert_entry(
    es: Seq<(Seq<char>, PckFileRecord)>,
    k: Seq<char>,
    v: PckFileRecord,
) -> Seq<(Seq<char>, PckFileRecord)> {
    match entry_index(es, k) {
        Some(i) => es.update(i, (k, v)),
        None => es.push((k, v)),
    }
}

/// `IndexMap::new`: a map with no entries.
#[verifier::external_body]
fn entries_new() -> (m: IndexMap<String, PckFileMetadata>)
    ensures
        pck_entries(m) == Seq::<(Seq<char>, PckFileRecord)>::empty(),
{
    IndexMap::new()
}

/// `IndexMap::insert`: an entry with an equal key keeps its place and gets the
/// new value, and the old value is returned; otherwise the pair is appended.
#[verifier::external_body]
fn entries_insert(
    m: &mut IndexMap<String, PckFileMetadata>,
    key: String,
    value: PckFileMetadata,
) -> (r: Option<PckFileMetadata>)
    ensures
        pck_entries(*final(m)) == insert_entry(pck_entries(*old(m)), key@, value@),
        match entry_index(pck_entries(*old(m)), key@) {
            Some(i) => r matches Some(v) && v@ == pck_entries(*old(m))[i].1,
            None => r is None,
        },
{
    m.insert(key, value)
}

/// `IndexMap::len`: the number of entries.
#[verifier::external_body]
fn entries_len(m: &IndexMap<String, PckFileMetadata>) -> (r: usize)
    ensures
        r == pck_entries(*m).len(),
{
    m.len()
}

/// `IndexMap::get_index_of`: the position of the entry whose key equals `key`.
#[verifier::external_body]
fn entries_index_of(m: &IndexMap<String, PckFileMetadata>, key: &str) -> (r: Option<usize>)
    ensures
        match entry_index(pck_entries(*m), key@) {
            Some(i) => r == Some(i as usize),
            None => r is None,
        },
{
    m.get_index_of(key)
}

/// `IndexMap::get_index`: the value of the entry at position `i`, if there is one.
#[verifier::external_body]
fn entries_get_index(m: &IndexMap<String, PckFileMetadata>, i: usize) -> (r: Option<&PckFileMetadata>)
    ensures
        r is Some == (i < pck_entries(*m).len()),
        r matches Some(v) ==> v@ == pck_entries(*m)[i as int].1,
{
    m.get_index(i).map(|(_, v)| v)
}

/// `IndexMap::clone`: a map with clones of the same entries in the same order
/// (the metadata's clone keeps its content).
#[verifier::external_body]
fn entries_clone(m: &IndexMap<String, PckFileMetadata>) -> (r: IndexMap<String, PckFileMetadata>)
    ensures
        pck_entries(r) == pck_entries(*m),
{
    m.clone()
}

/// `String::from_utf8`: the text that the bytes encode, if they are valid UTF-8.
#[verifier::external_body]
fn string_from_utf8(v: Vec<u8>) -> (r: Option<String>)
    ensures
        r is Some == valid_utf8(v@),
        r matches Some(s) ==> s@ == decode_utf8(v@),
{
    String::from_utf8(v).ok()
}

// ---------------------------------------------------------------------------
// The layout of a pack.

/// The bytes of a path field up to the first NUL byte.
pub open spec fn until_nul(raw: Seq<u8>) -> Seq<u8> {
    match raw.index_of_first(0u8) {
        Some(k) => raw.take(k),
        None => raw,
    }
}

/// The header at `h` and the position of the directory that it points to.
pub open spec fn spec_header(data: Seq<u8>, h: int) -> Result<(HeaderFields, int), PckErrorView> {
    if u32_ne_at(data, h) is None {
        Err(eof())
    } else if u32_ne_at(data, h).unwrap() != PckHeader::MAGIC {
        Err(PckErrorView::InvalidMagic)
    } else if u32_ne_at(data, h + 4) is None {
        Err(eof())
    } else if version_of(u32_ne_at(data, h + 4).unwrap()) is None {
        Err(PckErrorView::InvalidVersion)
    } else if bytes_at(data, h + 8, 24) is None {
        Err(eof())
    } else {
        let version = version_of(u32_ne_at(data, h + 4).unwrap()).unwrap();
        let godot_version = GodotVersion {
            major: u32_ne_at(data, h + 8).unwrap(),
            minor: u32_ne_at(data, h + 12).unwrap(),
            patch: u32_ne_at(data, h + 16).unwrap(),
        };
        let flags = u32_ne_at(data, h + 20).unwrap();
        let file_base = u64_ne_at(data, h + 24).unwrap();
        let fields = |salt: Option<Seq<u8>>|
            HeaderFields { version, godot_version, flags, file_base, salt };
        if version == PckVersion::V2 {
            // sixteen reserved words
            if h + 96 > u64::MAX {
                Err(PckErrorView::Io(IoError::InvalidSeek))
            } else {
                Ok((fields(None), h + 96))
            }
        } else if u64_ne_at(data, h + 32) is None {
            Err(eof())
        } else if u64_ne_at(data, h + 32).unwrap() + h > u64::MAX {
            Err(PckErrorView::OffsetOutOfBounds)
        } else {
            let dir = u64_ne_at(data, h + 32).unwrap() + h;
            if version == PckVersion::V4 && has_bits(flags, PckArchiveFlags::DIR_ENCRYPTED)
                && has_bits(flags, PckArchiveFlags::SPARSE_BUNDLE) {
                match bytes_at(data, h + 40, 32) {
                    Some(salt) => Ok((fields(Some(salt)), dir)),
                    None => Err(eof()),
                }
            } else {
                Ok((fields(None), dir))
            }
        }
    }
}

/// The directory entry at `p` and the position just after it.
pub open spec fn spec_record(data: Seq<u8>, p: int) -> Result<(PckFileRecord, int), PckErrorView> {
    match u32_ne_at(data, p) {
        None => Err(eof()),
        Some(n) => match bytes_at(data, p + 4, n as int) {
            None => Err(eof()),
            Some(raw) => {
                let name = until_nul(raw);
                let q = p + 4 + n;
                if !valid_utf8(name) {
                    Err(PckErrorView::Utf8)
                } else if bytes_at(data, q, 36) is None {
                    Err(eof())
                } else {
                    Ok(
                        (
                            PckFileRecord {
                                path: decode_utf8(name),
                                offset: u64_ne_at(data, q).unwrap(),
                                size: u64_ne_at(data, q + 8).unwrap(),
                                md5: data.subrange(q + 16, q + 32),
                                flags: u32_ne_at(data, q + 32).unwrap(),
                            },
                            q + 36,
                        ),
                    )
                }
            },
        },
    }
}

/// The entries `acc` after reading `n` more directory entries from `p`, each
/// inserted under its path.
pub open spec fn spec_records(
    data: Seq<u8>,
    p: int,
    n: nat,
    acc: Seq<(Seq<char>, PckFileRecord)>,
) -> Result<Seq<(Seq<char>, PckFileRecord)>, PckErrorView>
    decreases n,
{
    if n == 0 {
        Ok(acc)
    } else {
        match spec_record(data, p) {
            Err(e) => Err(e),
            Ok((rec, q)) => spec_records(data, q, (n - 1) as nat, insert_entry(acc, rec.path, rec)),
        }
    }
}

/// The directory at `dir` of a pack whose header has the flags `flags`.
pub open spec fn spec_directory(data: Seq<u8>, dir: int, flags: u32) -> Result<
    Seq<(Seq<char>, PckFileRecord)>,
    PckErrorView,
> {
    match u32_ne_at(data, dir) {
        None => Err(eof()),
        Some(count) => if has_bits(flags, PckArchiveFlags::DIR_ENCRYPTED) {
            Err(PckErrorView::NotImplemented("encrypted pck"@))
        } else {
            spec_records(data, dir + 4, count as nat, Seq::empty())
        },
    }
}

/// What a pack's metadata holds.
pub struct PckMetadataView {
    pub header_offset: u64,
    pub header: HeaderFields,
    pub files: Seq<(Seq<char>, PckFileRecord)>,
}

/// The metadata of the pack whose header is at `h`.
pub open spec fn spec_metadata(data: Seq<u8>, h: int) -> Result<PckMetadataView, PckErrorView> {
    match spec_header(data, h) {
        Err(e) => Err(e),
        Ok((header, dir)) => match spec_directory(data, dir, header.flags) {
            Err(e) => Err(e),
            Ok(files) => Ok(PckMetadataView { header_offset: h as u64, header, files }),
        },
    }
}

/// The position of the header of the pack that ends the data: the last word is
/// the magic, and the eight bytes before it say how far back the header is.
pub open spec fn spec_header_offset_from_end(data: Seq<u8>) -> Result<int, PckErrorView> {
    let len = data.len() as int;
    if len < 4 {
        Err(PckErrorView::Io(IoError::InvalidSeek))
    } else if u32_ne_at(data, len - 4).unwrap() != PckHeader::MAGIC {
        Err(PckErrorView::InvalidMagic)
    } else if len < 12 {
        Err(PckErrorView::Io(IoError::InvalidSeek))
    } else if u64_ne_at(data, len - 12).unwrap() > len - 12 {
        Err(PckErrorView::OffsetOutOfBounds)
    } else {
        Ok(len - 12 - u64_ne_at(data, len - 12).unwrap())
    }
}

/// The metadata of the pack that ends the data.
pub open spec fn spec_metadata_from_end(data: Seq<u8>) -> Result<PckMetadataView, PckErrorView> {
    match spec_header_offset_from_end(data) {
        Err(e) => Err(e),
        Ok(h) => spec_metadata(data, h),
    }
}

/// A result of the library against what the layout says it is.
pub open spec fn result_is<T: View>(r: Result<T, PckError>, s: Result<T::V, PckErrorView>) -> bool {
    match r {
        Ok(v) => s == Ok::<T::V, PckErrorView>(v@),
        Err(e) => s == Err::<T::V, PckErrorView>(e@),
    }
}

// ---------------------------------------------------------------------------
// Reading a pack.

#[derive(Debug)]
pub struct PckMetadata {
    pub header_offset: u64,
    pub header: PckHeader,
    pub files: IndexMap<String, PckFileMetadata>,
}

impl Clone for PckMetadata {
    fn clone(&self) -> (r: Self)
        ensures
            r@ == self@,
    {
        PckMetadata {
            header_offset: self.header_offset,
            header: self.header,
            files: entries_clone(&self.files),
        }
    }
}

impl View for PckMetadata {
    type V = PckMetadataView;

    open spec fn view(&self) -> PckMetadataView {
        PckMetadataView {
            header_offset: self.header_offset,
            header: self.header@,
            files: pck_entries(self.files),
        }
    }
}

/// The sixteen bytes at `pos`.
fn read_array16(data: &[u8], pos: u64) -> (r: [u8; 16])
    requires
        pos + 16 <= data@.len(),
    ensures
        r@ == data@.subrange(pos as int, pos + 16),
{
    let p = pos as usize;
    let r = [
        data[p],
        data[p + 1],
        data[p + 2],
        data[p + 3],
        data[p + 4],
        data[p + 5],
        data[p + 6],
        data[p + 7],
        data[p + 8],
        data[p + 9],
        data[p + 10],
        data[p + 11],
        data[p + 12],
        data[p + 13],
        data[p + 14],
        data[p + 15],
    ];
    assert(r@ =~= data@.subrange(pos as int, pos + 16));
    r
}

/// The thirty-two bytes at `pos`.
fn read_array32(data: &[u8], pos: u64) -> (r: [u8; 32])
    requires
        pos + 32 <= data@.len(),
    ensures
        r@ == data@.subrange(pos as int, pos + 32),
{
    let p = pos as usize;
    let r = [
        data[p],
        data[p + 1],
        data[p + 2],
        data[p + 3],
        data[p + 4],
        data[p + 5],
        data[p + 6],
        data[p + 7],
        data[p + 8],
        data[p + 9],
        data[p + 10],
        data[p + 11],
        data[p + 12],
        data[p + 13],
        data[p + 14],
        data[p + 15],
        data[p + 16],
        data[p + 17],
        data[p + 18],
        data[p + 19],
        data[p + 20],
        data[p + 21],
        data[p + 22],
        data[p + 23],
        data[p + 24],
        data[p + 25],
        data[p + 26],
        data[p + 27],
        data[p + 28],
        data[p + 29],
        data[p + 30],
        data[p + 31],
    ];
    assert(r@ =~= data@.subrange(pos as int, pos + 32));
    r
}

/// The bytes of `raw` up to its first NUL byte.
fn truncate_at_nul(raw: Vec<u8>) -> (r: Vec<u8>)
    ensures
        r@ == until_nul(raw@),
{
    let mut raw = raw;
    let ghost orig = raw@;
    let mut k: usize = 0;
    while k < raw.len() && raw[k] != 0
        invariant
            raw@ == orig,
            k <= raw.len(),
            forall|j: int| 0 <= j < k ==> raw@[j] != 0u8,
        decreases raw.len() - k,
    {
        k += 1;
    }
    proof {
        orig.index_of_first_ensures(0u8);
        if k < orig.len() {
            assert(orig[k as int] == 0u8);
            assert(orig.contains(0u8));
            let i = orig.index_of_first(0u8).unwrap();
            if i < k {
                assert(orig[i] != 0u8);
            }
            assert(i == k);
        } else {
            if orig.contains(0u8) {
                let j = choose|j: int| 0 <= j < orig.len() && orig[j] == 0u8;
                assert(orig[j] != 0u8);
            }
        }
    }
    raw.truncate(k);
    assert(raw@ =~= until_nul(orig));
    raw
}

/// Reads the header at `h`; gives it and the position of the directory.
fn parse_header(data: &[u8], h: u64) -> (r: Result<(PckHeader, u64), PckError>)
    ensures
        match r {
            Ok((header, dir)) => spec_header(data@, h as int) == Ok::<(HeaderFields, int), PckErrorView>((header@, dir as int)),
            Err(e) => spec_header(data@, h as int) == Err::<(HeaderFields, int), PckErrorView>(e@),
        },
{
    // the call bounds the length of the data by `usize::MAX`
    let _len = data.len();
    let magic = match read_u32_ne(data, h) {
        Some(m) => m,
        None => return Err(eof_error()),
    };
    if magic != PckHeader::MAGIC {
        return Err(PckError::InvalidMagic);
    }
    let raw_version = match read_u32_ne(data, h + 4) {
        Some(v) => v,
        None => return Err(eof_error()),
    };
    let version = match PckVersion::try_from_u32(raw_version) {
        Some(v) => v,
        None => return Err(PckError::InvalidVersion),
    };
    if !has_bytes(data, h + 8, 24) {
        return Err(eof_error());
    }
    let major = read_u32_ne(data, h + 8).unwrap();
    let minor = read_u32_ne(data, h + 12).unwrap();
    let patch = read_u32_ne(data, h + 16).unwrap();
    let flags = PckArchiveFlags::from_bits_retain(read_u32_ne(data, h + 20).unwrap());
    let file_base = read_u64_ne(data, h + 24).unwrap();
    let godot_version = GodotVersion { major, minor, patch };
    let mut salt: Option<[u8; 32]> = None;
    let dir: u64;
    if version == PckVersion::V2 {
        dir = match (h + 32).checked_add(64) {
            Some(d) => d,
            None => return Err(PckError::Io(IoError::InvalidSeek)),
        };
    } else {
        let raw_dir = match read_u64_ne(data, h + 32) {
            Some(d) => d,
            None => return Err(eof_error()),
        };
        dir = match raw_dir.checked_add(h) {
            Some(d) => d,
            None => return Err(PckError::OffsetOutOfBounds),
        };
        if version == PckVersion::V4 && flags.contains(PckArchiveFlags::DIR_ENCRYPTED)
            && flags.contains(PckArchiveFlags::SPARSE_BUNDLE) {
            if !has_bytes(data, h + 40, 32) {
                return Err(eof_error());
            }
            salt = Some(read_array32(data, h + 40));
        }
    }
    let header = PckHeader { version, godot_version, flags, file_base, salt };
    Ok((header, dir))
}

/// Reads the directory entry at `p`; gives it and the position after it.
fn parse_record(data: &[u8], p: u64) -> (r: Result<(PckFileMetadata, u64), PckError>)
    ensures
        match r {
            Ok((m, q)) => spec_record(data@, p as int) == Ok::<(PckFileRecord, int), PckErrorView>((m@, q as int)),
            Err(e) => spec_record(data@, p as int) == Err::<(PckFileRecord, int), PckErrorView>(e@),
        },
{
    // the call bounds the length of the data by `usize::MAX`
    let _len = data.len();
    let n = match read_u32_ne(data, p) {
        Some(n) => n,
        None => return Err(eof_error()),
    };
    let raw = match read_bytes(data, p + 4, n as u64) {
        Some(raw) => raw,
        None => return Err(eof_error()),
    };
    let name = truncate_at_nul(raw);
    let path = match string_from_utf8(name) {
        Some(s) => s,
        None => return Err(PckError::Utf8),
    };
    let q = p + 4 + n as u64;
    if !has_bytes(data, q, 36) {
        return Err(eof_error());
    }
    let offset = read_u64_ne(data, q).unwrap();
    let size = read_u64_ne(data, q + 8).unwrap();
    let md5 = read_array16(data, q + 16);
    let flags = PckFileFlags::from_bits_retain(read_u32_ne(data, q + 32).unwrap());
    Ok((PckFileMetadata { path, offset, size, md5, flags }, q + 36))
}

/// Reads `count` directory entries from `p` into a map keyed by path.
fn parse_records(data: &[u8], p: u64, count: u32) -> (r: Result<IndexMap<String, PckFileMetadata>, PckError>)
    ensures
        match r {
            Ok(m) => spec_records(data@, p as int, count as nat, Seq::empty()) == Ok::<Seq<(Seq<char>, PckFileRecord)>, PckErrorView>(pck_entries(m)),
            Err(e) => spec_records(data@, p as int, count as nat, Seq::empty()) == Err::<Seq<(Seq<char>, PckFileRecord)>, PckErrorView>(e@),
        },
{
    let mut files = entries_new();
    let mut pos = p;
    let mut i: u32 = 0;
    while i < count
        invariant
            i <= count,
            spec_records(data@, p as int, count as nat, Seq::empty()) == spec_records(
                data@,
                pos as int,
                (count - i) as nat,
                pck_entries(files),
            ),
        decreases count - i,
    {
        let (file, next) = match parse_record(data, pos) {
            Ok(x) => x,
            Err(e) => return Err(e),
        };
        let key = file.path.clone();
        entries_insert(&mut files, key, file);
        pos = next;
        i += 1;
    }
    Ok(files)
}

impl PckMetadata {
    /// Reads the metadata of the pack whose header starts the data.
    pub fn load_from_start(data: &[u8]) -> (r: Result<Self, PckError>)
        ensures
            result_is(r, spec_metadata(data@, 0)),
    {
        Self::load_from_offset(data, 0)
    }

    /// Reads the metadata of the pack that ends the data (a pack appended to
    /// an executable).
    pub fn load_from_end(data: &[u8]) -> (r: Result<Self, PckError>)
        ensures
            result_is(r, spec_metadata_from_end(data@)),
    {
        let len = data.len() as u64;
        if len < 4 {
            return Err(PckError::Io(IoError::InvalidSeek));
        }
        let magic = read_u32_ne(data, len - 4).unwrap();
        if magic != PckHeader::MAGIC {
            return Err(PckError::InvalidMagic);
        }
        if len < 12 {
            return Err(PckError::Io(IoError::InvalidSeek));
        }
        let base = len - 12;
        let offset = read_u64_ne(data, base).unwrap();
        if offset > base {
            return Err(PckError::OffsetOutOfBounds);
        }
        Self::load_from_offset(data, base - offset)
    }

    /// Reads the metadata of the pack whose header is at `header_offset`.
    pub fn load_from_offset(data: &[u8], header_offset: u64) -> (r: Result<Self, PckError>)
        ensures
            result_is(r, spec_metadata(data@, header_offset as int)),
    {
        // the call bounds the length of the data by `usize::MAX`
        let _len = data.len();
        let (header, dir) = match parse_header(data, header_offset) {
            Ok(x) => x,
            Err(e) => return Err(e),
        };
        let file_count = match read_u32_ne(data, dir) {
            Some(c) => c,
            None => return Err(eof_error()),
        };
        if header.flags.contains(PckArchiveFlags::DIR_ENCRYPTED) {
            let msg = "encrypted pck".to_owned();
            return Err(PckError::NotImplemented(msg));
        }
        let files = match parse_records(data, dir + 4, file_count) {
            Ok(f) => f,
            Err(e) => return Err(e),
        };
        Ok(PckMetadata { header_offset, header, files })
    }
}

// ---------------------------------------------------------------------------
// Archives and the files in them.

/// Where the data of the files begins: relative to the header in versions 3
/// and 4, and in version 2 with the relative-file-base flag; otherwise
/// absolute. `None` where the sum passes `u64::MAX`.
pub open spec fn spec_absolute_file_base(m: PckMetadataView) -> Option<int> {
    if m.header.version == PckVersion::V4 || m.header.version == PckVersion::V3 || (
    m.header.version == PckVersion::V2 && has_bits(m.header.flags, PckArchiveFlags::REL_FILEBASE)) {
        if m.header.file_base + m.header_offset > u64::MAX {
            None
        } else {
            Some(m.header.file_base + m.header_offset)
        }
    } else {
        Some(m.header.file_base as int)
    }
}

/// Where the data of directory entry `i` begins, or the error that reading it gives.
pub open spec fn spec_file_start(m: PckMetadataView, i: int) -> Result<int, PckErrorView> {
    if !(0 <= i < m.files.len()) {
        Err(PckErrorView::FileNotFound)
    } else {
        match spec_absolute_file_base(m) {
            None => Err(PckErrorView::OffsetOutOfBounds),
            Some(base) => if base + m.files[i].1.offset > u64::MAX {
                Err(PckErrorView::OffsetOutOfBounds)
            } else {
                Ok(base + m.files[i].1.offset)
            },
        }
    }
}

/// A pack read into memory: its bytes and its metadata.
#[derive(Debug)]
pub struct PckArchive {
    data: Vec<u8>,
    metadata: PckMetadata,
}

/// One file of a pack: its directory entry and its bytes.
pub struct PckFile<'a> {
    file_metadata: &'a PckFileMetadata,
    data: &'a [u8],
}

impl<'a> PckFile<'a> {
    pub closed spec fn spec_file_metadata(&self) -> PckFileRecord {
        self.file_metadata@
    }

    pub closed spec fn spec_data(&self) -> Seq<u8> {
        self.data@
    }

    pub fn file_metadata(&self) -> (r: &PckFileMetadata)
        ensures
            r@ == self.spec_file_metadata(),
    {
        self.file_metadata
    }

    /// The bytes of the file.
    pub fn data(&self) -> (r: &'a [u8])
        ensures
            r@ == self.spec_data(),
    {
        self.data
    }
}

impl PckMetadata {
    /// Where the data of the files begins; an error where the sum passes `u64::MAX`.
    pub fn absolute_file_base(&self) -> (r: Result<u64, PckError>)
        ensures
            match spec_absolute_file_base(self@) {
                Some(b) => r matches Ok(v) && v == b,
                None => r matches Err(e) && e@ == PckErrorView::OffsetOutOfBounds,
            },
    {
        if self.header.version == PckVersion::V4 || self.header.version == PckVersion::V3 || (
        self.header.version == PckVersion::V2 && self.header.flags.contains(
            PckArchiveFlags::REL_FILEBASE,
        )) {
            match self.header.file_base.checked_add(self.header_offset) {
                Some(b) => Ok(b),
                None => Err(PckError::OffsetOutOfBounds),
            }
        } else {
            Ok(self.header.file_base)
        }
    }
}

impl Clone for PckArchive {
    fn clone(&self) -> (r: Self)
        ensures
            r.spec_data() == self.spec_data(),
            r.spec_metadata() == self.spec_metadata(),
    {
        proof {
            use_type_invariant(self);
        }
        let mut data: Vec<u8> = Vec::new();
        let n = self.data.len();
        let mut i: usize = 0;
        while i < n
            invariant
                n == self.data@.len(),
                i <= n,
                data@ =~= self.data@.subrange(0, i as int),
            decreases n - i,
        {
            data.push(self.data[i]);
            i += 1;
        }
        PckArchive { data, metadata: self.metadata.clone() }
    }
}

impl PckArchive {
    /// The directory of an open archive lists each path once, under its own
    /// path.
    #[verifier::type_invariant]
    spec fn keyed_by_path(self) -> bool {
        entries_keyed_by_path(self.metadata@.files)
    }

    pub closed spec fn spec_data(&self) -> Seq<u8> {
        self.data@
    }

    pub closed spec fn spec_metadata(&self) -> PckMetadataView {
        self.metadata@
    }

    pub fn metadata(&self) -> (r: &PckMetadata)
        ensures
            r@ == self.spec_metadata(),
    {
        &self.metadata
    }

    /// The number of files in the directory.
    pub fn len(&self) -> (r: usize)
        ensures
            r == self.spec_metadata().files.len(),
    {
        entries_len(&self.metadata.files)
    }

    pub fn is_empty(&self) -> (r: bool)
        ensures
            r == (self.spec_metadata().files.len() == 0),
    {
        self.len() == 0
    }

    /// Opens the pack whose header starts the data.
    pub fn new_from_start(data: Vec<u8>) -> (r: Result<Self, PckError>)
        ensures
            archive_is(r, data@, spec_metadata(data@, 0)),
    {
        match PckMetadata::load_from_start(data.as_slice()) {
            Ok(metadata) => {
                proof {
                    law_directory_keyed_by_path(data@, 0int);
                }
                Ok(PckArchive { data, metadata })
            },
            Err(e) => Err(e),
        }
    }

    /// Opens the pack that ends the data.
    pub fn new_from_end(data: Vec<u8>) -> (r: Result<Self, PckError>)
        ensures
            archive_is(r, data@, spec_metadata_from_end(data@)),
    {
        match PckMetadata::load_from_end(data.as_slice()) {
            Ok(metadata) => {
                proof {
                    law_directory_keyed_by_path(data@, spec_header_offset_from_end(data@)->Ok_0);
                }
                Ok(PckArchive { data, metadata })
            },
            Err(e) => Err(e),
        }
    }

    /// Opens the pack whose header is at `header_offset`.
    pub fn new_from_offset(data: Vec<u8>, header_offset: u64) -> (r: Result<Self, PckError>)
        ensures
            archive_is(r, data@, spec_metadata(data@, header_offset as int)),
    {
        match PckMetadata::load_from_offset(data.as_slice(), header_offset) {
            Ok(metadata) => {
                proof {
                    law_directory_keyed_by_path(data@, header_offset as int);
                }
                Ok(PckArchive { data, metadata })
            },
            Err(e) => Err(e),
        }
    }

    /// The file at position `index` of the directory.
    pub fn by_index(&self, index: usize) -> (r: Result<PckFile<'_>, PckError>)
        ensures
            match spec_file_start(self.spec_metadata(), index as int) {
                Ok(start) => r matches Ok(f) && f.spec_file_metadata()
                    == self.spec_metadata().files[index as int].1 && f.spec_file_metadata().path
                    == self.spec_metadata().files[index as int].0 && f.spec_data()
                    == clamped_bytes(
                    self.spec_data(),
                    start,
                    self.spec_metadata().files[index as int].1.size as int,
                ),
                Err(e) => r matches Err(x) && x@ == e,
            },
    {
        proof {
            use_type_invariant(self);
        }
        let file_metadata = match entries_get_index(&self.metadata.files, index) {
            Some(m) => m,
            None => return Err(PckError::FileNotFound),
        };
        let base = match self.metadata.absolute_file_base() {
            Ok(b) => b,
            Err(e) => return Err(e),
        };
        let start = match base.checked_add(file_metadata.offset) {
            Some(s) => s,
            None => return Err(PckError::OffsetOutOfBounds),
        };
        let bytes = slice_clamped(self.data.as_slice(), start, file_metadata.size);
        Ok(PckFile { file_metadata, data: bytes })
    }

    /// The file whose path is `path`.
    pub fn by_path(&self, path: &str) -> (r: Result<PckFile<'_>, PckError>)
        ensures
            match entry_index(self.spec_metadata().files, path@) {
                None => r matches Err(x) && x@ == PckErrorView::FileNotFound,
                Some(i) => match spec_file_start(self.spec_metadata(), i) {
                    Ok(start) => r matches Ok(f) && f.spec_file_metadata()
                        == self.spec_metadata().files[i].1 && f.spec_file_metadata().path == path@
                        && f.spec_data() == clamped_bytes(
                        self.spec_data(),
                        start,
                        self.spec_metadata().files[i].1.size as int,
                    ),
                    Err(e) => r matches Err(x) && x@ == e,
                },
            },
    {
        // the call bounds the number of entries by `usize::MAX`
        let _n = entries_len(&self.metadata.files);
        proof {
            let es = pck_entries(self.metadata.files);
            es.map_values(|e: (Seq<char>, PckFileRecord)| e.0).index_of_first_ensures(path@);
        }
        let index = match entries_index_of(&self.metadata.files, path) {
            Some(i) => i,
            None => return Err(PckError::FileNotFound),
        };
        self.by_index(index)
    }
}

/// An opened archive against the data it was opened from and what the layout
/// says its metadata is.
pub open spec fn archive_is(
    r: Result<PckArchive, PckError>,
    data: Seq<u8>,
    s: Result<PckMetadataView, PckErrorView>,
) -> bool {
    match r {
        Ok(a) => a.spec_data() == data && s == Ok::<PckMetadataView, PckErrorView>(a.spec_metadata()),
        Err(e) => s == Err::<PckMetadataView, PckErrorView>(e@),
    }
}

// ---------------------------------------------------------------------------
// Packs embedded after other data.

proof fn lemma_bytes_at_shift(prefix: Seq<u8>, d: Seq<u8>, q: int, n: int)
    requires
        q >= 0,
    ensures
        bytes_at(prefix + d, q + prefix.len(), n) == bytes_at(d, q, n),
{
    if 0 <= n && q + n <= d.len() {
        assert((prefix + d).subrange(q + prefix.len(), q + prefix.len() + n) =~= d.subrange(q, q + n));
    }
}

proof fn lemma_record_shift(prefix: Seq<u8>, d: Seq<u8>, q: int)
    requires
        q >= 0,
    ensures
        spec_record(prefix + d, q + prefix.len()) == match spec_record(d, q) {
            Ok((rec, next)) => Ok::<(PckFileRecord, int), PckErrorView>(
                (rec, next + prefix.len()),
            ),
            Err(e) => Err(e),
        },
{
    let h = prefix.len() as int;
    let pd = prefix + d;
    lemma_bytes_at_shift(prefix, d, q, 4);
    if let Some(n) = u32_ne_at(d, q) {
        lemma_bytes_at_shift(prefix, d, q + 4, n as int);
        let r = q + 4 + n;
        lemma_bytes_at_shift(prefix, d, r, 36);
        lemma_bytes_at_shift(prefix, d, r, 8);
        lemma_bytes_at_shift(prefix, d, r + 8, 8);
        lemma_bytes_at_shift(prefix, d, r + 32, 4);
        if bytes_at(d, r, 36) is Some {
            assert(pd.subrange(r + h + 16, r + h + 32) =~= d.subrange(r + 16, r + 32));
        }
    }
}

proof fn lemma_records_shift(
    prefix: Seq<u8>,
    d: Seq<u8>,
    q: int,
    n: nat,
    acc: Seq<(Seq<char>, PckFileRecord)>,
)
    requires
        q >= 0,
    ensures
        spec_records(prefix + d, q + prefix.len(), n, acc) == spec_records(d, q, n, acc),
    decreases n,
{
    if n > 0 {
        lemma_record_shift(prefix, d, q);
        if let Ok((rec, next)) = spec_record(d, q) {
            lemma_records_shift(prefix, d, next, (n - 1) as nat, insert_entry(acc, rec.path, rec));
        }
    }
}

/// A pack whose header is at the start of `d` reads, when `d` follows other
/// data (a pack appended to an executable), as the same pack with its header
/// at the end of that data: the same header and the same directory. Where the
/// pack alone does not read, neither does it after the other data.
pub proof fn law_embedded_pack(prefix: Seq<u8>, d: Seq<u8>)
    requires
        prefix.len() + d.len() + 96 <= u64::MAX,
    ensures
        match spec_metadata(d, 0) {
            Ok(m) => spec_metadata(prefix + d, prefix.len() as int) == Ok::<
                PckMetadataView,
                PckErrorView,
            >(PckMetadataView { header_offset: prefix.len() as u64, ..m }),
            Err(_) => spec_metadata(prefix + d, prefix.len() as int) is Err,
        },
{
    let h = prefix.len() as int;
    let pd = prefix + d;
    lemma_bytes_at_shift(prefix, d, 0, 4);
    lemma_bytes_at_shift(prefix, d, 4, 4);
    lemma_bytes_at_shift(prefix, d, 8, 24);
    lemma_bytes_at_shift(prefix, d, 8, 4);
    lemma_bytes_at_shift(prefix, d, 12, 4);
    lemma_bytes_at_shift(prefix, d, 16, 4);
    lemma_bytes_at_shift(prefix, d, 20, 4);
    lemma_bytes_at_shift(prefix, d, 24, 8);
    lemma_bytes_at_shift(prefix, d, 32, 8);
    lemma_bytes_at_shift(prefix, d, 40, 32);
    assert(0 + h == h);
    match spec_header(d, 0) {
        Err(_) => {},
        Ok((header, dir)) => {
            lemma_bytes_at_shift(prefix, d, dir, 4);
            if let Some(count) = u32_ne_at(d, dir) {
                assert(dir + 4 <= d.len());
                assert(spec_header(pd, h) == Ok::<(HeaderFields, int), PckErrorView>(
                    (header, dir + h),
                ));
                if !has_bits(header.flags, PckArchiveFlags::DIR_ENCRYPTED) {
                    lemma_records_shift(prefix, d, dir + 4, count as nat, Seq::empty());
                    assert(dir + 4 + h == dir + h + 4);
                }
            } else if header.version == PckVersion::V2 {
                assert(spec_header(pd, h) == Ok::<(HeaderFields, int), PckErrorView>(
                    (header, dir + h),
                ));
            }
        },
    }
}

/// Where a pack places its files relative to its header, a file of the pack
/// after other data has the same bytes as the file of the pack alone, found
/// that much further on.
pub proof fn law_embedded_file(prefix: Seq<u8>, d: Seq<u8>, m: PckMetadataView, i: int, start: int)
    requires
        prefix.len() + d.len() + 96 <= u64::MAX,
        spec_metadata(d, 0) == Ok::<PckMetadataView, PckErrorView>(m),
        m.header.version != PckVersion::V2 || has_bits(m.header.flags, PckArchiveFlags::REL_FILEBASE),
        spec_file_start(m, i) == Ok::<int, PckErrorView>(start),
        start + prefix.len() <= u64::MAX,
    ensures
        ({
            let moved = PckMetadataView { header_offset: prefix.len() as u64, ..m };
            &&& spec_file_start(moved, i) == Ok::<int, PckErrorView>(start + prefix.len())
            &&& clamped_bytes(prefix + d, start + prefix.len(), m.files[i].1.size as int)
                == clamped_bytes(d, start, m.files[i].1.size as int)
        }),
{
    let h = prefix.len() as int;
    let size = m.files[i].1.size as int;
    let pd = prefix + d;
    assert(m.header_offset == 0);
    let lo = if start < d.len() { start } else { d.len() as int };
    let hi = if start + size < d.len() { start + size } else { d.len() as int };
    assert(pd.subrange(lo + h, hi + h) =~= d.subrange(lo, hi));
}

proof fn lemma_bytes_at_extend(x: Seq<u8>, suffix: Seq<u8>, q: int, n: int)
    requires
        bytes_at(x, q, n) is Some,
    ensures
        bytes_at(x + suffix, q, n) == bytes_at(x, q, n),
{
    assert((x + suffix).subrange(q, q + n) =~= x.subrange(q, q + n));
}

proof fn lemma_record_extend(x: Seq<u8>, suffix: Seq<u8>, q: int)
    requires
        spec_record(x, q) is Ok,
    ensures
        spec_record(x + suffix, q) == spec_record(x, q),
{
    let xs = x + suffix;
    lemma_bytes_at_extend(x, suffix, q, 4);
    let n = u32_ne_at(x, q).unwrap();
    lemma_bytes_at_extend(x, suffix, q + 4, n as int);
    let r = q + 4 + n;
    lemma_bytes_at_extend(x, suffix, r, 36);
    lemma_bytes_at_extend(x, suffix, r, 8);
    lemma_bytes_at_extend(x, suffix, r + 8, 8);
    lemma_bytes_at_extend(x, suffix, r + 32, 4);
    assert(xs.subrange(r + 16, r + 32) =~= x.subrange(r + 16, r + 32));
}

proof fn lemma_records_extend(
    x: Seq<u8>,
    suffix: Seq<u8>,
    q: int,
    n: nat,
    acc: Seq<(Seq<char>, PckFileRecord)>,
)
    requires
        spec_records(x, q, n, acc) is Ok,
    ensures
        spec_records(x + suffix, q, n, acc) == spec_records(x, q, n, acc),
    decreases n,
{
    if n > 0 {
        lemma_record_extend(x, suffix, q);
        let (rec, next) = spec_record(x, q)->Ok_0;
        lemma_records_extend(x, suffix, next, (n - 1) as nat, insert_entry(acc, rec.path, rec));
    }
}

/// Bytes after a pack that reads do not change what it reads as.
pub proof fn law_trailing_bytes(x: Seq<u8>, suffix: Seq<u8>, h: int)
    requires
        spec_metadata(x, h) is Ok,
    ensures
        spec_metadata(x + suffix, h) == spec_metadata(x, h),
{
    lemma_bytes_at_extend(x, suffix, h, 4);
    lemma_bytes_at_extend(x, suffix, h + 4, 4);
    lemma_bytes_at_extend(x, suffix, h + 8, 24);
    lemma_bytes_at_extend(x, suffix, h + 8, 4);
    lemma_bytes_at_extend(x, suffix, h + 12, 4);
    lemma_bytes_at_extend(x, suffix, h + 16, 4);
    lemma_bytes_at_extend(x, suffix, h + 20, 4);
    lemma_bytes_at_extend(x, suffix, h + 24, 8);
    let (header, dir) = spec_header(x, h)->Ok_0;
    if header.version != PckVersion::V2 {
        lemma_bytes_at_extend(x, suffix, h + 32, 8);
        if header.salt is Some {
            lemma_bytes_at_extend(x, suffix, h + 40, 32);
        }
    }
    assert(spec_header(x + suffix, h) == spec_header(x, h));
    lemma_bytes_at_extend(x, suffix, dir, 4);
    let count = u32_ne_at(x, dir).unwrap();
    lemma_records_extend(x, suffix, dir + 4, count as nat, Seq::empty());
}

/// A pack appended to other data, followed by the eight-byte length of the
/// pack and the magic (as Godot writes a pack into an executable), is found
/// from the end of the data and reads as the pack alone, with its header
/// where the other data ends.
pub proof fn law_pack_found_from_end(prefix: Seq<u8>, d: Seq<u8>, trailer: Seq<u8>)
    requires
        prefix.len() + d.len() + 96 <= u64::MAX,
        trailer.len() == 12,
        u64_ne_at(trailer, 0) == Some(d.len() as u64),
        u32_ne_at(trailer, 8) == Some(PckHeader::MAGIC),
        spec_metadata(d, 0) is Ok,
    ensures
        spec_metadata_from_end(prefix + d + trailer) == Ok::<PckMetadataView, PckErrorView>(
            PckMetadataView { header_offset: prefix.len() as u64, ..spec_metadata(d, 0)->Ok_0 },
        ),
{
    let all = prefix + d + trailer;
    let len = all.len() as int;
    assert(all.subrange(len - 4, len) =~= trailer.subrange(8, 12));
    assert(all.subrange(len - 12, len - 4) =~= trailer.subrange(0, 8));
    assert(spec_header_offset_from_end(all) == Ok::<int, PckErrorView>(prefix.len() as int));
    law_embedded_pack(prefix, d);
    law_trailing_bytes(prefix + d, trailer, prefix.len() as int);
}

/// No two entries share a key, and each entry is keyed by its own path.
pub open spec fn entries_keyed_by_path(es: Seq<(Seq<char>, PckFileRecord)>) -> bool {
    &&& forall|i: int, j: int| 0 <= i < j < es.len() ==> es[i].0 != es[j].0
    &&& forall|i: int| 0 <= i < es.len() ==> #[trigger] es[i].0 == es[i].1.path
}

proof fn lemma_insert_keeps_keyed_by_path(es: Seq<(Seq<char>, PckFileRecord)>, rec: PckFileRecord)
    requires
        entries_keyed_by_path(es),
    ensures
        entries_keyed_by_path(insert_entry(es, rec.path, rec)),
{
    let keys = es.map_values(|e: (Seq<char>, PckFileRecord)| e.0);
    keys.index_of_first_ensures(rec.path);
    let r = insert_entry(es, rec.path, rec);
    match keys.index_of_first(rec.path) {
        Some(k) => {
            assert forall|i: int, j: int| 0 <= i < j < r.len() implies r[i].0 != r[j].0 by {
                assert(keys[i] == es[i].0);
                assert(keys[j] == es[j].0);
            }
        },
        None => {
            assert forall|i: int, j: int| 0 <= i < j < r.len() implies r[i].0 != r[j].0 by {
                if j == es.len() {
                    assert(keys[i] == es[i].0);
                }
            }
        },
    }
}

proof fn lemma_records_keyed_by_path(
    data: Seq<u8>,
    p: int,
    n: nat,
    acc: Seq<(Seq<char>, PckFileRecord)>,
)
    requires
        entries_keyed_by_path(acc),
    ensures
        spec_records(data, p, n, acc) matches Ok(es) ==> entries_keyed_by_path(es),
    decreases n,
{
    if n > 0 {
        if let Ok((rec, q)) = spec_record(data, p) {
            lemma_insert_keeps_keyed_by_path(acc, rec);
            lemma_records_keyed_by_path(data, q, (n - 1) as nat, insert_entry(acc, rec.path, rec));
        }
    }
}

/// The directory of a pack that reads holds each path once, keyed by that path.
pub proof fn law_directory_keyed_by_path(data: Seq<u8>, h: int)
    ensures
        spec_metadata(data, h) matches Ok(m) ==> entries_keyed_by_path(m.files),
{
    if let Ok((header, dir)) = spec_header(data, h) {
        if let Some(count) = u32_ne_at(data, dir) {
            lemma_records_keyed_by_path(data, dir + 4, count as nat, Seq::empty());
        }
    }
}


/// Where the data of directory entry `i` begins: in a version-2 pack whose
/// flags lack the relative-file-base bit (2), the header's file base is a
/// position in the whole data, so the entry starts at file base plus offset
/// wherever the header sits; in any other pack the file base counts from the
/// header, so the entry starts at header offset plus file base plus offset.
/// Positions past `u64::MAX` give `OffsetOutOfBounds`.
pub proof fn law_file_start(m: PckMetadataView, i: int, other_offset: u64)
    requires
        0 <= i < m.files.len(),
    ensures
        ({
            let absolute = m.header.version == PckVersion::V2 && m.header.flags & 2u32 == 0u32;
            let start = if absolute {
                m.header.file_base + m.files[i].1.offset
            } else {
                m.header_offset + m.header.file_base + m.files[i].1.offset
            };
            &&& start <= u64::MAX ==> spec_file_start(m, i) == Ok::<int, PckErrorView>(start)
            &&& start > u64::MAX ==> spec_file_start(m, i) == Err::<int, PckErrorView>(
                PckErrorView::OffsetOutOfBounds,
            )
            &&& absolute ==> spec_file_start(PckMetadataView { header_offset: other_offset, ..m }, i)
                == spec_file_start(m, i)
        }),
{
    let f = m.header.flags;
    assert(PckArchiveFlags::REL_FILEBASE == 2);
    assert((f & 2u32 == 2u32) <==> !(f & 2u32 == 0u32)) by (bit_vector);
}


/// A pack's version number is 2, 3 or 4, each naming its own version, and a
/// pack header starts with the bytes `GDPC`, read as a little-endian word.
pub proof fn law_pack_numbers(v: u32)
    ensures
        version_of(2u32) == Some(PckVersion::V2),
        version_of(3u32) == Some(PckVersion::V3),
        version_of(4u32) == Some(PckVersion::V4),
        version_of(v) is Some <==> (v == 2 || v == 3 || v == 4),
        u32_le(seq![0x47u8, 0x44u8, 0x50u8, 0x43u8]) == PckHeader::MAGIC,
{
}

} // verus!
