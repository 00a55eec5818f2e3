//! What the extractor decides about the files of a pack: which files it
//! writes out, the statistics it reports, and the directory tree of a pack.

use crate::pck::PckFileFlags;
use crate::pck::PckFileMetadata;
use crate::pck::PckFileRecord;
use crate::pck::has_bits;
use itertools::Itertools;
use std::path::Component;
use std::path::Path;
use vstd::prelude::*;

verus! {

/// Whether a file is written out: files that are encrypted, that mark a
/// removal, or that hold a delta are skipped.
pub open spec fn spec_should_extract(flags: u32) -> bool {
    !has_bits(flags, PckFileFlags::ENCRYPTED) && !has_bits(flags, PckFileFlags::REMOVAL)
        && !has_bits(flags, PckFileFlags::DELTA)
}

pub fn should_extract(file: &PckFileMetadata) -> (r: bool)
    ensures
        r == spec_should_extract(file@.flags),
{
    !(file.flags.contains(PckFileFlags::ENCRYPTED) || file.flags.contains(PckFileFlags::REMOVAL)
        || file.flags.contains(PckFileFlags::DELTA))
}

/// Whether `std::path` splits the path the same way on every platform: it
/// holds no backslash (a separator on Windows only), does not start with two
/// slashes (a Windows network prefix) and has no colon as its second character
/// (a Windows drive prefix). Such a path is split at its slashes only.
pub open spec fn portable_path(p: Seq<char>) -> bool {
    &&& !p.contains('\\')
    &&& !(p.len() >= 2 && p[0] == '/' && p[1] == '/')
    &&& !(p.len() >= 2 && p[1] == ':')
}

/// The position of the last `c` in `s`, or -1.
pub open spec fn last_index_of(s: Seq<char>, c: char) -> int
    decreases s.len(),
{
    if s.len() == 0 {
        -1
    } else if s.last() == c {
        s.len() - 1
    } else {
        last_index_of(s.drop_last(), c)
    }
}

/// The extension of a file name: the text after its last dot, where that dot
/// is not the name's first character; otherwise none (empty).
pub open spec fn name_extension(f: Seq<char>) -> Seq<char> {
    let k = last_index_of(f, '.');
    if k <= 0 {
        Seq::empty()
    } else {
        f.skip(k + 1)
    }
}

/// The extension of a path split at its slashes: that of its last component
/// (empty pieces and `.` pieces do not count), or none (empty) where the path
/// has no component or ends in `..`.
pub open spec fn path_extension(p: Seq<char>) -> Seq<char> {
    let named = keep_named(split_slash(p));
    if named.len() == 0 || named.last() == seq!['.', '.'] {
        Seq::empty()
    } else {
        name_extension(named.last())
    }
}

/// A file is written out exactly when none of the encrypted (1), removal (2)
/// and delta (4) bits of its flags is set, whatever other bits are set with
/// them: a file with any of these bits is skipped.
pub proof fn law_should_extract_bits(flags: u32)
    ensures
        spec_should_extract(flags) <==> flags & 7u32 == 0u32,
        flags & 1u32 == 1u32 ==> !spec_should_extract(flags),
        flags & 2u32 == 2u32 ==> !spec_should_extract(flags),
        flags & 4u32 == 4u32 ==> !spec_should_extract(flags),
{
    assert(PckFileFlags::ENCRYPTED == 1 && PckFileFlags::REMOVAL == 2 && PckFileFlags::DELTA == 4);
    assert((flags & 1u32 == 1u32 || flags & 2u32 == 2u32 || flags & 4u32 == 4u32) <==> !(flags
        & 7u32 == 0u32)) by (bit_vector);
}

/// `Path::extension` of the path, as UTF-8 text, or empty where there is none.
/// The extension is what follows the last dot of the last component, where
/// that dot does not start it; how a path splits into components depends on
/// the platform, so the extension is stated for paths that split the same way
/// everywhere, and of every path that it holds no dot.
#[verifier::external_body]
fn file_extension(path: &str) -> (r: String)
    ensures
        !r@.contains('.'),
        portable_path(path@) ==> r@ == path_extension(path@),
{
    Path::new(path).extension().and_then(|e| e.to_str()).unwrap_or_default().to_string()
}

/// Whether each component `std::path` reads from a path split at its slashes
/// is a named one: a leading slash (the root) and a leading `.` piece (the
/// current directory) are components of another kind, and so is every `..`.
pub open spec fn component_kinds(p: Seq<char>) -> Seq<bool> {
    let lead: Seq<bool> = if p.len() > 0 && p[0] == '/' {
        seq![false]
    } else if p == seq!['.'] || (p.len() >= 2 && p[0] == '.' && p[1] == '/') {
        seq![false]
    } else {
        Seq::empty()
    };
    lead + keep_named(split_slash(p)).map_values(|c: Seq<char>| c != seq!['.', '.'])
}

/// `Path::components` of the path, each told apart as a named component
/// (`true`) or one of another kind: root, prefix, current or parent directory
/// (`false`). How a path splits depends on the platform, so the kinds are
/// stated for paths that split the same way everywhere.
#[verifier::external_body]
fn path_component_kinds(path: &str) -> (r: Vec<bool>)
    ensures
        portable_path(path@) ==> r@ == component_kinds(path@),
{
    Path::new(path).components().map(|c| match c {
        Component::Normal(_) => true,
        _ => false,
    }).collect()
}

/// Whether a path is not a plain relative path: one of its components is
/// not a name (a root, a prefix, `.` at its start or `..`).
pub fn is_malformed_path(path: &str) -> (r: bool)
    ensures
        portable_path(path@) ==> (r <==> component_kinds(path@).contains(false)),
{
    let kinds = path_component_kinds(path);
    let mut i: usize = 0;
    while i < kinds.len()
        invariant
            i <= kinds@.len(),
            forall|j: int| 0 <= j < i ==> kinds@[j],
            portable_path(path@) ==> kinds@ == component_kinds(path@),
        decreases kinds.len() - i,
    {
        if !kinds[i] {
            assert(kinds@[i as int] == false);
            assert(kinds@.contains(false));
            return true;
        }
        i += 1;
    }
    proof {
        if kinds@.contains(false) {
            let j = choose|j: int| 0 <= j < kinds@.len() && kinds@[j] == false;
            assert(kinds@[j]);
        }
    }
    false
}

/// Whether the extension of the path (as `Path::extension` gives it, empty
/// where there is none) is `ext`.
pub fn has_extension(path: &str, ext: &str) -> (r: bool)
    ensures
        portable_path(path@) ==> (r <==> path_extension(path@) == ext@),
{
    let found = file_extension(path);
    let wanted = String::from_str(ext);
    found == wanted
}

/// The counts after counting one more item under `key`: an existing entry for
/// the key goes up by one; otherwise the key is added last with count one.
pub open spec fn bump_count(es: Seq<(Seq<char>, usize)>, key: Seq<char>) -> Seq<(Seq<char>, usize)> {
    match es.map_values(|e: (Seq<char>, usize)| e.0).index_of_first(key) {
        Some(i) => es.update(i, (key, (es[i].1 + 1) as usize)),
        None => es.push((key, 1usize)),
    }
}

/// Counts of the files of a pack by flag, size and extension.
#[derive(Debug, Clone)]
pub struct Stats {
    pub total: usize,
    pub encrypted: usize,
    pub removals: usize,
    pub delta: usize,
    pub empty: usize,
    pub size_one_or_less: usize,
    /// Each extension with the number of files that have it, in the order in
    /// which the extensions were first met.
    pub extensions: Vec<(String, usize)>,
}

pub open spec fn counts_view(es: Seq<(String, usize)>) -> Seq<(Seq<char>, usize)> {
    es.map_values(|e: (String, usize)| (e.0@, e.1))
}

/// The sum of the counts.
pub open spec fn count_sum(es: Seq<(Seq<char>, usize)>) -> int
    decreases es.len(),
{
    if es.len() == 0 {
        0
    } else {
        count_sum(es.drop_last()) + es.last().1
    }
}

/// No key is listed twice.
pub open spec fn keys_distinct(es: Seq<(Seq<char>, usize)>) -> bool {
    forall|i: int, j: int| 0 <= i < j < es.len() ==> #[trigger] es[i].0 != #[trigger] es[j].0
}

proof fn lemma_count_sum_update(es: Seq<(Seq<char>, usize)>, i: int, e: (Seq<char>, usize))
    requires
        0 <= i < es.len(),
    ensures
        count_sum(es.update(i, e)) == count_sum(es) - es[i].1 + e.1,
    decreases es.len(),
{
    if i < es.len() - 1 {
        lemma_count_sum_update(es.drop_last(), i, e);
        assert(es.update(i, e).drop_last() =~= es.drop_last().update(i, e));
    } else {
        assert(es.update(i, e).drop_last() =~= es.drop_last());
    }
}

/// Counting one more item under a key raises the sum of the counts by one and
/// keeps every key listed once.
pub proof fn lemma_bump_count(es: Seq<(Seq<char>, usize)>, key: Seq<char>)
    requires
        keys_distinct(es),
        count_sum(es) < usize::MAX,
        forall|i: int| 0 <= i < es.len() ==> #[trigger] es[i].1 <= count_sum(es),
    ensures
        keys_distinct(bump_count(es, key)),
        count_sum(bump_count(es, key)) == count_sum(es) + 1,
{
    let keys = es.map_values(|e: (Seq<char>, usize)| e.0);
    keys.index_of_first_ensures(key);
    match keys.index_of_first(key) {
        Some(i) => {
            lemma_count_sum_update(es, i, (key, (es[i].1 + 1) as usize));
            assert(keys[i] == key);
        },
        None => {
            assert(bump_count(es, key).drop_last() =~= es);
            assert forall|i: int| 0 <= i < es.len() implies es[i].0 != key by {
                assert(keys[i] == es[i].0);
            }
        },
    }
}

impl Stats {
    /// No count exceeds the number of files counted.
    pub open spec fn wf(&self) -> bool {
        &&& self.encrypted <= self.total
        &&& self.removals <= self.total
        &&& self.delta <= self.total
        &&& self.empty <= self.total
        &&& self.size_one_or_less <= self.total
        &&& forall|i: int| 0 <= i < self.extensions@.len() ==> #[trigger] self.extensions@[i].1 <= self.total
        &&& self.empty <= self.size_one_or_less
        &&& forall|i: int| 0 <= i < self.extensions@.len() ==> #[trigger] self.extensions@[i].1 >= 1
        &&& keys_distinct(counts_view(self.extensions@))
        &&& count_sum(counts_view(self.extensions@)) == self.total
    }

    pub fn new() -> (r: Self)
        ensures
            r.wf(),
            r.total == 0 && r.encrypted == 0 && r.removals == 0 && r.delta == 0 && r.empty == 0
                && r.size_one_or_less == 0 && r.extensions@.len() == 0,
    {
        Stats {
            total: 0,
            encrypted: 0,
            removals: 0,
            delta: 0,
            empty: 0,
            size_one_or_less: 0,
            extensions: Vec::new(),
        }
    }

    /// Counts a file whose extension is `ext`.
    pub fn register_with_extension(&mut self, file: &PckFileMetadata, ext: &str)
        requires
            old(self).wf(),
            old(self).total < usize::MAX,
        ensures
            final(self).wf(),
            final(self).total == old(self).total + 1,
            final(self).encrypted == old(self).encrypted + if has_bits(file@.flags, PckFileFlags::ENCRYPTED) { 1int } else { 0int },
            final(self).removals == old(self).removals + if has_bits(file@.flags, PckFileFlags::REMOVAL) { 1int } else { 0int },
            final(self).delta == old(self).delta + if has_bits(file@.flags, PckFileFlags::DELTA) { 1int } else { 0int },
            final(self).empty == old(self).empty + if file.size == 0 { 1int } else { 0int },
            final(self).size_one_or_less == old(self).size_one_or_less + if file.size <= 1 { 1int } else { 0int },
            counts_view(final(self).extensions@) == bump_count(counts_view(old(self).extensions@), ext@),
    {
        self.total += 1;
        if file.flags.contains(PckFileFlags::ENCRYPTED) {
            self.encrypted += 1;
        }
        if file.flags.contains(PckFileFlags::REMOVAL) {
            self.removals += 1;
        }
        if file.flags.contains(PckFileFlags::DELTA) {
            self.delta += 1;
        }
        if file.size == 0 {
            self.empty += 1;
        }
        if file.size <= 1 {
            self.size_one_or_less += 1;
        }
        let key = String::from_str(ext);
        let ghost old_es = counts_view(self.extensions@);
        let ghost keys = old_es.map_values(|e: (Seq<char>, usize)| e.0);
        let n = self.extensions.len();
        let mut i: usize = 0;
        while i < n && !(self.extensions[i].0 == key)
            invariant
                n == self.extensions@.len(),
                i <= n,
                old_es == counts_view(self.extensions@),
                keys == old_es.map_values(|e: (Seq<char>, usize)| e.0),
                key@ == ext@,
                forall|j: int| 0 <= j < i ==> keys[j] != ext@,
            decreases n - i,
        {
            i += 1;
        }
        proof {
            keys.index_of_first_ensures(ext@);
        }
        if i < n {
            let count = self.extensions[i].1;
            let name = self.extensions[i].0.clone();
            proof {
                assert(keys[i as int] == ext@);
                let k = keys.index_of_first(ext@).unwrap();
                if k < i {
                    assert(keys[k] != ext@);
                }
                if k > i {
                    assert(keys[i as int] != ext@);
                }
            }
            self.extensions.set(i, (name, count + 1));
        } else {
            proof {
                if keys.contains(ext@) {
                    let k = choose|k: int| 0 <= k < keys.len() && keys[k] == ext@;
                    assert(keys[k] != ext@);
                }
            }
            self.extensions.push((key, 1));
        }
        assert(counts_view(self.extensions@) =~= bump_count(old_es, ext@));
        proof {
            assert forall|j: int| 0 <= j < old_es.len() implies #[trigger] old_es[j].1 <= count_sum(
                old_es,
            ) by {
                assert(old_es[j].1 == old(self).extensions@[j].1);
            }
            lemma_bump_count(old_es, ext@);
        }
        assert forall|j: int| 0 <= j < self.extensions@.len() implies #[trigger] self.extensions@[j].1
            <= self.total by {
            if j < old(self).extensions@.len() && j != i {
                assert(self.extensions@[j] == old(self).extensions@[j]);
            }
        }
    }

    /// Counts a file under the extension of its path.
    pub fn register(&mut self, file: &PckFileMetadata)
        requires
            old(self).wf(),
            old(self).total < usize::MAX,
        ensures
            final(self).wf(),
            final(self).total == old(self).total + 1,
            final(self).encrypted == old(self).encrypted + if has_bits(file@.flags, PckFileFlags::ENCRYPTED) { 1int } else { 0int },
            final(self).removals == old(self).removals + if has_bits(file@.flags, PckFileFlags::REMOVAL) { 1int } else { 0int },
            final(self).delta == old(self).delta + if has_bits(file@.flags, PckFileFlags::DELTA) { 1int } else { 0int },
            final(self).empty == old(self).empty + if file.size == 0 { 1int } else { 0int },
            final(self).size_one_or_less == old(self).size_one_or_less + if file.size <= 1 { 1int } else { 0int },
            portable_path(file@.path) ==> counts_view(final(self).extensions@) == bump_count(counts_view(old(self).extensions@), path_extension(file@.path)),
            exists|ext: Seq<char>| !ext.contains('.') && counts_view(final(self).extensions@) == bump_count(counts_view(old(self).extensions@), ext),
    {
        let ext = file_extension(file.path.as_str());
        self.register_with_extension(file, ext.as_str());
    }
}

// ---------------------------------------------------------------------------
// The order of the extension report.

/// `c` with an ASCII capital letter replaced by its small letter.
pub open spec fn ascii_lower_char(c: char) -> char {
    if 'A' <= c <= 'Z' {
        ((c as u32) + 32) as char
    } else {
        c
    }
}

/// `s` with every ASCII capital letter replaced by its small letter.
pub open spec fn ascii_lower(s: Seq<char>) -> Seq<char> {
    s.map_values(|c: char| ascii_lower_char(c))
}

/// Whether `a` comes before `b` or equals it, comparing character by
/// character by code point, a proper prefix first.
pub open spec fn chars_le(a: Seq<char>, b: Seq<char>) -> bool
    decreases a.len(),
{
    if a.len() == 0 {
        true
    } else if b.len() == 0 {
        false
    } else if a[0] != b[0] {
        (a[0] as u32) < (b[0] as u32)
    } else {
        chars_le(a.drop_first(), b.drop_first())
    }
}

/// The key by which report entries are sorted: the count subtracted from
/// `usize::MAX` (so that larger counts come first), then the extension in
/// small letters.
pub open spec fn spec_report_key(e: (String, usize)) -> (int, Seq<char>) {
    (usize::MAX - e.1, ascii_lower(e.0@))
}

/// The order of `(usize, String)` keys: by the number, then by the text.
pub open spec fn key_le(a: (int, Seq<char>), b: (int, Seq<char>)) -> bool {
    a.0 < b.0 || (a.0 == b.0 && chars_le(a.1, b.1))
}

/// Whether entry `a` may stand before entry `b` in the extension report:
/// more files first, and at equal counts by the extension in small letters.
pub open spec fn report_before(a: (String, usize), b: (String, usize)) -> bool {
    a.1 > b.1 || (a.1 == b.1 && chars_le(ascii_lower(a.0@), ascii_lower(b.0@)))
}

/// `str::to_ascii_lowercase`: the text with each ASCII capital letter
/// replaced by its small letter and every other character kept.
#[verifier::external_body]
fn ascii_lowercase(s: &str) -> (r: String)
    ensures
        r@ == ascii_lower(s@),
{
    s.to_ascii_lowercase()
}

fn report_key(e: &(String, usize)) -> (r: (usize, String))
    ensures
        r.0 == usize::MAX - e.1,
        r.1@ == ascii_lower(e.0@),
{
    (usize::MAX - e.1, ascii_lowercase(e.0.as_str()))
}

/// `Itertools::sorted_unstable_by_key` with `report_key` as the key: the same
/// entries, in an order in which the keys ascend. A `(usize, String)` key
/// compares its number first and then its text; `String`s compare by their
/// UTF-8 bytes, which orders them as their code points do. Entries with equal
/// keys may come in either order.
#[verifier::external_body]
fn sort_by_report_key(entries: Vec<(String, usize)>) -> (r: Vec<(String, usize)>)
    ensures
        r@.to_multiset() == entries@.to_multiset(),
        forall|i: int, j: int|
            0 <= i < j < r@.len() ==> key_le(
                #[trigger] spec_report_key(r@[i]),
                #[trigger] spec_report_key(r@[j]),
            ),
{
    entries.into_iter().sorted_unstable_by_key(|e| report_key(e)).collect()
}

impl Stats {
    /// The extensions with their counts, the most frequent first and, at
    /// equal counts, by the extension in small letters.
    pub fn into_extension_report(self) -> (r: Vec<(String, usize)>)
        ensures
            r@.to_multiset() == self.extensions@.to_multiset(),
            forall|i: int, j: int|
                0 <= i < j < r@.len() ==> report_before(#[trigger] r@[i], #[trigger] r@[j]),
    {
        let r = sort_by_report_key(self.extensions);
        assert forall|i: int, j: int| 0 <= i < j < r@.len() implies report_before(
            #[trigger] r@[i],
            #[trigger] r@[j],
        ) by {
            assert(key_le(spec_report_key(r@[i]), spec_report_key(r@[j])));
        }
        r
    }
}

// ---------------------------------------------------------------------------
// The directory tree of a pack.

/// The pieces of `s` between slashes (empty pieces included).
pub open spec fn split_slash(s: Seq<char>) -> Seq<Seq<char>>
    decreases s.len(),
{
    if s.len() == 0 {
        seq![Seq::<char>::empty()]
    } else {
        let p = split_slash(s.drop_last());
        if s.last() == '/' {
            p.push(Seq::<char>::empty())
        } else {
            p.update(p.len() - 1, p.last().push(s.last()))
        }
    }
}

/// Whether a path piece names a file or directory: it is not empty and not `.`.
pub open spec fn is_named(p: Seq<char>) -> bool {
    p.len() > 0 && p != seq!['.']
}

/// The pieces that name something, in order.
pub open spec fn keep_named(ps: Seq<Seq<char>>) -> Seq<Seq<char>>
    decreases ps.len(),
{
    if ps.len() == 0 {
        ps
    } else {
        let r = keep_named(ps.drop_last());
        if is_named(ps.last()) {
            r.push(ps.last())
        } else {
            r
        }
    }
}

/// The components of a pack path: the named pieces between slashes, without
/// a leading `res:`.
pub open spec fn path_components(path: Seq<char>) -> Seq<Seq<char>> {
    let k = keep_named(split_slash(path));
    if k.len() > 0 && k[0] == seq!['r', 'e', 's', ':'] {
        k.drop_first()
    } else {
        k
    }
}

/// The texts of a list of components.
pub open spec fn comp_names(comps: Seq<String>) -> Seq<Seq<char>> {
    comps.map_values(|c: String| c@)
}

/// The named components of a pack path, without a leading `res:`.
pub fn components(path: &str) -> (r: Vec<String>)
    ensures
        comp_names(r@) == path_components(path@),
{
    let n = path.unicode_len();
    let mut pieces: Vec<String> = Vec::new();
    let mut start: usize = 0;
    let mut i: usize = 0;
    assert(path@.take(0) =~= Seq::<char>::empty());
    assert(comp_names(pieces@).push(path@.subrange(0, 0)) =~= seq![Seq::<char>::empty()]);
    while i < n
        invariant
            n == path@.len(),
            start <= i <= n,
            comp_names(pieces@).push(path@.subrange(start as int, i as int))
                == split_slash(path@.take(i as int)),
        decreases n - i,
    {
        let c = path.get_char(i);
        let ghost before = comp_names(pieces@);
        let ghost old_start = start;
        assert(path@.take(i + 1).drop_last() =~= path@.take(i as int));
        assert(path@.take(i + 1).last() == c);
        if c == '/' {
            pieces.push(String::from_str(path.substring_char(start, i)));
            start = i + 1;
            assert(comp_names(pieces@) =~= before.push(
                path@.subrange(old_start as int, i as int),
            ));
            assert(path@.subrange(start as int, start as int) =~= Seq::<char>::empty());
            assert(comp_names(pieces@).push(path@.subrange(start as int, (i + 1) as int))
                =~= split_slash(path@.take(i + 1)));
        } else {
            assert(path@.subrange(start as int, i + 1) =~= path@.subrange(start as int, i as int).push(c));
            assert(comp_names(pieces@).push(path@.subrange(start as int, i + 1))
                =~= split_slash(path@.take(i + 1)));
        }
        i += 1;
    }
    pieces.push(String::from_str(path.substring_char(start, n)));
    assert(path@.take(n as int) =~= path@);
    let ghost all = comp_names(pieces@);
    assert(all == split_slash(path@));
    let mut kept: Vec<String> = Vec::new();
    let m = pieces.len();
    let mut j: usize = 0;
    while j < m
        invariant
            m == pieces@.len(),
            j <= m,
            all == comp_names(pieces@),
            comp_names(kept@) == keep_named(all.take(j as int)),
        decreases m - j,
    {
        let piece = &pieces[j];
        let len = piece.as_str().unicode_len();
        let named = len > 0 && !(len == 1 && piece.as_str().get_char(0) == '.');
        assert(all.take(j + 1).drop_last() =~= all.take(j as int));
        assert(all.take(j + 1).last() == piece@);
        if named {
            assert(is_named(piece@)) by {
                if piece@ == seq!['.'] {
                    assert(piece@[0] == '.');
                }
            }
            kept.push(piece.clone());
            assert(comp_names(kept@) =~= keep_named(all.take(j as int)).push(
                piece@,
            ));
        } else {
            assert(!is_named(piece@)) by {
                if len == 1 {
                    assert(piece@ =~= seq!['.']);
                }
            }
        }
        j += 1;
    }
    assert(all.take(m as int) =~= all);
    let ghost k = comp_names(kept@);
    if kept.len() > 0 {
        let first = kept[0].as_str();
        let is_res = first.unicode_len() == 4 && first.get_char(0) == 'r' && first.get_char(1) == 'e'
            && first.get_char(2) == 's' && first.get_char(3) == ':';
        assert(is_res == (k[0] == seq!['r', 'e', 's', ':'])) by {
            if k[0] == seq!['r', 'e', 's', ':'] {
                assert(k[0][0] == 'r');
            }
            if is_res {
                assert(k[0] =~= seq!['r', 'e', 's', ':']);
            }
        }
        if is_res {
            kept.remove(0);
            assert(comp_names(kept@) =~= k.drop_first());
        }
    }
    kept
}

/// A tree of the directories and files of a pack, with the total size of the
/// files added under each directory.
#[derive(Debug)]
pub struct DirTree {
    files: Vec<(String, PckFileMetadata)>,
    dirs: Vec<(String, DirTree)>,
    size: u64,
}

/// The position of the first entry named `name`.
pub open spec fn name_index<T>(entries: Seq<(String, T)>, name: Seq<char>) -> Option<int> {
    entries.map_values(|e: (String, T)| e.0@).index_of_first(name)
}

/// The file at `path` below `t`, if there is one.
pub open spec fn lookup(t: DirTree, path: Seq<Seq<char>>) -> Option<PckFileRecord>
    decreases path.len(),
{
    if path.len() == 0 {
        None
    } else if path.len() == 1 {
        match name_index(t.spec_files(), path[0]) {
            Some(i) => Some(t.spec_files()[i].1@),
            None => None,
        }
    } else {
        match name_index(t.spec_dirs(), path[0]) {
            Some(i) => lookup(t.spec_dirs()[i].1, path.drop_first()),
            None => None,
        }
    }
}

/// The directory at `path` below `t`: `t` itself for the empty path.
pub open spec fn dir_at(t: DirTree, path: Seq<Seq<char>>) -> Option<DirTree>
    decreases path.len(),
{
    if path.len() == 0 {
        Some(t)
    } else {
        match name_index(t.spec_dirs(), path[0]) {
            Some(i) => dir_at(t.spec_dirs()[i].1, path.drop_first()),
            None => None,
        }
    }
}

/// The size of a directory, 0 for none.
pub open spec fn dir_size(d: Option<DirTree>) -> u64 {
    match d {
        Some(t) => t.spec_size(),
        None => 0,
    }
}

/// Whether `q` names a directory on the way to the file at `path`: a proper
/// prefix of it.
pub open spec fn on_the_way(q: Seq<Seq<char>>, path: Seq<Seq<char>>) -> bool {
    q.len() < path.len() && q == path.take(q.len() as int)
}

/// The total size of a list of files.
pub open spec fn files_size(fs: Seq<(String, PckFileMetadata)>) -> int
    decreases fs.len(),
{
    if fs.len() == 0 {
        0
    } else {
        files_size(fs.drop_last()) + fs.last().1.size
    }
}

/// The total size of a list of directories.
pub open spec fn dirs_size(ds: Seq<(String, DirTree)>) -> int
    decreases ds.len(),
{
    if ds.len() == 0 {
        0
    } else {
        dirs_size(ds.drop_last()) + ds.last().1.spec_size()
    }
}

/// Whether the size of every directory of the tree is the sum of the sizes of
/// its files and its directories, and every directory below the root holds a
/// file or a directory.
pub open spec fn sizes_add_up(t: DirTree) -> bool
    decreases t,
{
    &&& t.spec_size() == files_size(t.spec_files()) + dirs_size(t.spec_dirs())
    &&& forall|i: int|
        #![trigger t.spec_dirs()[i]]
        0 <= i < t.spec_dirs().len() ==> {
            &&& t.spec_dirs()[i].1.spec_files().len() > 0 || t.spec_dirs()[i].1.spec_dirs().len() > 0
            &&& sizes_add_up(t.spec_dirs()[i].1)
        }
}

/// Whether no name is listed twice.
pub open spec fn unique_names<T>(es: Seq<(String, T)>) -> bool {
    forall|i: int, j: int| 0 <= i < j < es.len() ==> #[trigger] es[i].0@ != #[trigger] es[j].0@
}

/// Whether in every directory of the tree no file name and no directory name
/// is listed twice.
pub open spec fn names_distinct(t: DirTree) -> bool
    decreases t,
{
    &&& unique_names(t.spec_files())
    &&& unique_names(t.spec_dirs())
    &&& forall|i: int|
        #![trigger t.spec_dirs()[i]]
        0 <= i < t.spec_dirs().len() ==> names_distinct(t.spec_dirs()[i].1)
}

proof fn lemma_dirs_size_update(ds: Seq<(String, DirTree)>, k: int, e: (String, DirTree))
    requires
        0 <= k < ds.len(),
    ensures
        dirs_size(ds.update(k, e)) == dirs_size(ds) - ds[k].1.spec_size() + e.1.spec_size(),
    decreases ds.len(),
{
    if k < ds.len() - 1 {
        lemma_dirs_size_update(ds.drop_last(), k, e);
        assert(ds.update(k, e).drop_last() =~= ds.drop_last().update(k, e));
    } else {
        assert(ds.update(k, e).drop_last() =~= ds.drop_last());
    }
}

proof fn lemma_dirs_size_nonneg(ds: Seq<(String, DirTree)>)
    ensures
        dirs_size(ds) >= 0,
    decreases ds.len(),
{
    if ds.len() > 0 {
        lemma_dirs_size_nonneg(ds.drop_last());
    }
}

proof fn lemma_dirs_size_bound(ds: Seq<(String, DirTree)>, k: int)
    requires
        0 <= k < ds.len(),
    ensures
        dirs_size(ds) >= ds[k].1.spec_size(),
    decreases ds.len(),
{
    lemma_dirs_size_nonneg(ds.drop_last());
    if k < ds.len() - 1 {
        lemma_dirs_size_bound(ds.drop_last(), k);
        assert(ds.drop_last()[k] == ds[k]);
    }
}

proof fn lemma_files_size_nonneg(fs: Seq<(String, PckFileMetadata)>)
    ensures
        files_size(fs) >= 0,
    decreases fs.len(),
{
    if fs.len() > 0 {
        lemma_files_size_nonneg(fs.drop_last());
    }
}

proof fn lemma_index_of_first_push(s: Seq<Seq<char>>, x: Seq<char>, y: Seq<char>)
    requires
        x != y,
    ensures
        s.push(x).index_of_first(y) == s.index_of_first(y),
{
    let t = s.push(x);
    s.index_of_first_ensures(y);
    t.index_of_first_ensures(y);
    if s.contains(y) {
        let j = choose|j: int| 0 <= j < s.len() && s[j] == y;
        assert(t[j] == y);
        let a = s.index_of_first(y).unwrap();
        let b = t.index_of_first(y).unwrap();
        if a < b {
            assert(t[a] == y);
        }
        if b < a {
            assert(s[b] == t[b]);
        }
    } else if t.contains(y) {
        let j = choose|j: int| 0 <= j < t.len() && t[j] == y;
        if j < s.len() {
            assert(s[j] == y);
        }
    }
}

/// `a + b`, or `u64::MAX` where that is larger.
pub open spec fn saturating_sum(a: u64, b: u64) -> u64 {
    if a + b <= u64::MAX {
        (a + b) as u64
    } else {
        u64::MAX
    }
}

impl DirTree {
    pub closed spec fn spec_files(self) -> Seq<(String, PckFileMetadata)> {
        self.files@
    }

    pub closed spec fn spec_dirs(self) -> Seq<(String, DirTree)> {
        self.dirs@
    }

    pub closed spec fn spec_size(self) -> u64 {
        self.size
    }

    /// An empty tree.
    pub fn new() -> (r: Self)
        ensures
            r.spec_files().len() == 0,
            r.spec_dirs().len() == 0,
            r.spec_size() == 0,
            forall|p: Seq<Seq<char>>| lookup(r, p) is None,
            forall|p: Seq<Seq<char>>| p.len() > 0 ==> dir_at(r, p) is None,
            sizes_add_up(r),
            names_distinct(r),
    {
        let r = DirTree { files: Vec::new(), dirs: Vec::new(), size: 0 };
        assert forall|p: Seq<Seq<char>>| p.len() > 0 implies dir_at(r, p) is None by {
            r.spec_dirs().map_values(|e: (String, DirTree)| e.0@).index_of_first_ensures(p[0]);
        }
        assert forall|p: Seq<Seq<char>>| lookup(r, p) is None by {
            r.spec_files().map_values(|e: (String, PckFileMetadata)| e.0@).index_of_first_ensures(p[0]);
            r.spec_dirs().map_values(|e: (String, DirTree)| e.0@).index_of_first_ensures(p[0]);
        }
        r
    }

    /// The total size of the files added under this directory (saturating).
    pub fn size(&self) -> (r: u64)
        ensures
            r == self.spec_size(),
    {
        self.size
    }

    /// Adds a file under the path `comps[i..]`.
    fn add_from_components(&mut self, comps: &Vec<String>, i: usize, file: PckFileMetadata)
        requires
            i < comps@.len(),
        ensures
            final(self).spec_size() == saturating_sum(old(self).spec_size(), file.size),
            lookup(*final(self), comp_names(comps@).skip(i as int)) == Some(file@),
            forall|p: Seq<Seq<char>>|
                p != comp_names(comps@).skip(i as int) ==> #[trigger] lookup(
                    *final(self),
                    p,
                ) == lookup(*old(self), p),
            forall|j: int|
                0 <= j < comps@.len() - i ==> (#[trigger] dir_at(
                    *final(self),
                    comp_names(comps@).skip(i as int).take(j),
                ) matches Some(n) && n.spec_size() == saturating_sum(
                    dir_size(dir_at(*old(self), comp_names(comps@).skip(i as int).take(j))),
                    file.size,
                )),
            forall|q: Seq<Seq<char>>|
                !on_the_way(q, comp_names(comps@).skip(i as int)) ==> #[trigger] dir_at(
                    *final(self),
                    q,
                ) == dir_at(*old(self), q),
            sizes_add_up(*old(self)) && lookup(*old(self), comp_names(comps@).skip(i as int)) is None
                && old(self).spec_size() + file.size <= u64::MAX ==> sizes_add_up(*final(self)),
            names_distinct(*old(self)) ==> names_distinct(*final(self)),
        decreases comps@.len() - i,
    {
        let ghost path = comp_names(comps@).skip(i as int);
        let ghost gfile = file;
        self.size = self.size.saturating_add(file.size);
        let name = &comps[i];
        let count = comps.len();
        if i + 1 == count {
            let n = self.files.len();
            let mut k: usize = 0;
            let mut found = false;
            while k < n && !found
                invariant
                    n == self.files@.len(),
                    k <= n,
                    found ==> k < n && self.files@[k as int].0@ == name@,
                    forall|j: int| 0 <= j < k ==> self.files@[j].0@ != name@,
                decreases n - k + if found { 0int } else { 1int },
            {
                if self.files[k].0 == *name {
                    found = true;
                } else {
                    k += 1;
                }
            }
            let ghost keys = self.files@.map_values(|e: (String, PckFileMetadata)| e.0@);
            assert(k < n ==> found);
            assert(k < n ==> self.files@[k as int].0@ == name@);
            assert(k < n ==> keys[k as int] == name@);
            assert(k < n ==> keys.contains(name@));
            proof {
                keys.index_of_first_ensures(name@);
                if k == n && keys.contains(name@) {
                    let j = choose|j: int| 0 <= j < keys.len() && keys[j] == name@;
                    assert(keys[j] != name@);
                }
            }
            if k < n {
                proof {
                    let f = keys.index_of_first(name@).unwrap();
                    if f < k {
                        assert(keys[f] != name@);
                    }
                    if f > k {
                        assert(keys[k as int] == name@);
                    }
                }
                self.files.set(k, (name.clone(), file));
            } else {
                self.files.push((name.clone(), file));
            }
            proof {
                let keys2 = self.files@.map_values(|e: (String, PckFileMetadata)| e.0@);
                assert(keys2[k as int] == name@);
                keys2.index_of_first_ensures(name@);
                let f = keys2.index_of_first(name@).unwrap();
                if f < k {
                    assert(keys2[f] == keys[f]);
                }
                assert(path.len() == 1);
                assert(path[0] == name@);
                assert forall|p: Seq<Seq<char>>| p != path implies #[trigger] lookup(*self, p)
                    == lookup(*old(self), p) by {
                    if p.len() == 1 {
                        if p[0] == name@ {
                            assert(p =~= path);
                        } else {
                            if k < n {
                                assert(keys2 =~= keys);
                            } else {
                                assert(keys2 =~= keys.push(name@));
                                lemma_index_of_first_push(keys, name@, p[0]);
                            }
                            keys.index_of_first_ensures(p[0]);
                        }
                    }
                }
                assert(self.dirs@ == old(self).dirs@);
                assert forall|j: int| 0 <= j < path.len() implies (#[trigger] dir_at(*self, path.take(j))
                    matches Some(nn) && nn.spec_size() == saturating_sum(
                    dir_size(dir_at(*old(self), path.take(j))),
                    file.size,
                )) by {
                    assert(path.take(j).len() == 0);
                }
                assert forall|q: Seq<Seq<char>>| !on_the_way(q, path) implies #[trigger] dir_at(
                    *self,
                    q,
                ) == dir_at(*old(self), q) by {
                    if q.len() == 0 {
                        assert(q =~= path.take(0));
                    }
                }
                if names_distinct(*old(self)) {
                    let fs = self.files@;
                    let ofs = old(self).files@;
                    assert(fs[k as int].0@ == name@);
                    assert forall|a: int, b: int| 0 <= a < b < fs.len() implies #[trigger] fs[a].0@
                        != #[trigger] fs[b].0@ by {
                        if a != k && b != k {
                            assert(fs[a] == ofs[a] && fs[b] == ofs[b]);
                        } else if a == k {
                            assert(fs[b] == ofs[b]);
                            assert(keys[b] == ofs[b].0@);
                            if k < n {
                                assert(keys[k as int] == name@);
                            }
                        } else {
                            assert(fs[a] == ofs[a]);
                            assert(keys[a] == ofs[a].0@);
                            if k < n {
                                assert(keys[k as int] == name@);
                            } else {
                                assert(!keys.contains(name@));
                                assert(keys[a] != name@);
                            }
                        }
                    }
                    assert(names_distinct(*self));
                }
                if sizes_add_up(*old(self)) && lookup(*old(self), path) is None && old(self).spec_size()
                    + gfile.size <= u64::MAX {
                    if k < n {
                        assert(keys.index_of_first(name@) == Some(k as int));
                        assert(lookup(*old(self), path) is Some);
                    }
                    assert(self.files@.drop_last() =~= old(self).files@);
                    assert(sizes_add_up(*self));
                }
            }
        } else {
            let n = self.dirs.len();
            let mut k: usize = 0;
            let mut found = false;
            while k < n && !found
                invariant
                    n == self.dirs@.len(),
                    k <= n,
                    found ==> k < n && self.dirs@[k as int].0@ == name@,
                    forall|j: int| 0 <= j < k ==> self.dirs@[j].0@ != name@,
                decreases n - k + if found { 0int } else { 1int },
            {
                if self.dirs[k].0 == *name {
                    found = true;
                } else {
                    k += 1;
                }
            }
            let ghost keys = self.dirs@.map_values(|e: (String, DirTree)| e.0@);
            proof {
                keys.index_of_first_ensures(name@);
                if k == n && keys.contains(name@) {
                    let j = choose|j: int| 0 <= j < keys.len() && keys[j] == name@;
                    assert(keys[j] != name@);
                }
            }
            if k == n {
                self.dirs.push((name.clone(), DirTree::new()));
            }
            let ghost old_child = self.dirs@[k as int].1;
            let ghost pre = self.dirs@;
            proof {
                if sizes_add_up(*old(self)) && lookup(*old(self), path) is None && old(self).spec_size()
                    + gfile.size <= u64::MAX && k < n {
                    assert(old(self).spec_dirs()[k as int].1 == old_child);
                    lemma_dirs_size_bound(old(self).dirs@, k as int);
                    lemma_files_size_nonneg(old(self).files@);
                    keys.index_of_first_ensures(name@);
                    assert(keys[k as int] == name@);
                    let f = keys.index_of_first(name@).unwrap();
                    if f < k {
                        assert(keys[f] != name@);
                    }
                    assert(keys.index_of_first(name@) == Some(k as int));
                    assert(path.drop_first() =~= comp_names(comps@).skip(i + 1));
                    assert(lookup(old_child, comp_names(comps@).skip(i + 1)) is None);
                }
            }
            let mut entry = (String::new(), DirTree::new());
            self.dirs.set_and_swap(k, &mut entry);
            entry.1.add_from_components(comps, i + 1, file);
            let ghost new_child = entry.1;
            self.dirs.set_and_swap(k, &mut entry);
            proof {
                let keys2 = self.dirs@.map_values(|e: (String, DirTree)| e.0@);
                assert(keys2[k as int] == name@);
                keys2.index_of_first_ensures(name@);
                let f = keys2.index_of_first(name@).unwrap();
                if f < k {
                    assert(keys2[f] == keys[f]);
                }
                assert(path[0] == name@);
                assert(path.drop_first() =~= comp_names(comps@).skip(i + 1));
                if k < n {
                    assert(keys2 =~= keys);
                } else {
                    assert(keys2 =~= keys.push(name@));
                }
                assert forall|p: Seq<Seq<char>>| p != path implies #[trigger] lookup(*self, p)
                    == lookup(*old(self), p) by {
                    if p.len() > 1 {
                        if p[0] == name@ {
                            assert(p.drop_first() != path.drop_first()) by {
                                if p.drop_first() == path.drop_first() {
                                    assert forall|j: int| 0 <= j < p.len() implies p[j] == path[j] by {
                                        if j > 0 {
                                            assert(p[j] == p.drop_first()[j - 1]);
                                            assert(path[j] == path.drop_first()[j - 1]);
                                        }
                                    }
                                    assert(p =~= path);
                                }
                            }
                            keys.index_of_first_ensures(p[0]);
                            assert(name_index(self.dirs@, p[0]) == Some(k as int));
                            assert(self.dirs@[k as int].1 == new_child);
                            assert(lookup(new_child, p.drop_first()) == lookup(old_child, p.drop_first()));
                            if k == n {
                                assert(lookup(old_child, p.drop_first()) is None);
                                assert(name_index(old(self).dirs@, p[0]) is None);
                            } else {
                                assert(keys.index_of_first(name@) == Some(k as int));
                                assert(name_index(old(self).dirs@, p[0]) == Some(k as int));
                                assert(old(self).dirs@[k as int].1 == old_child);
                            }
                        } else {
                            if k == n {
                                lemma_index_of_first_push(keys, name@, p[0]);
                            }
                            keys.index_of_first_ensures(p[0]);
                        }
                    }
                }
                let path1 = path.drop_first();
                keys.index_of_first_ensures(name@);
                assert(name_index(self.dirs@, name@) == Some(k as int));
                if k < n {
                    assert(keys.index_of_first(name@) == Some(k as int));
                    assert(name_index(old(self).dirs@, name@) == Some(k as int));
                    assert(old(self).dirs@[k as int].1 == old_child);
                } else {
                    assert(name_index(old(self).dirs@, name@) is None);
                }
                assert forall|j: int| 0 <= j < path.len() implies (#[trigger] dir_at(*self, path.take(j))
                    matches Some(nn) && nn.spec_size() == saturating_sum(
                    dir_size(dir_at(*old(self), path.take(j))),
                    file.size,
                )) by {
                    if j > 0 {
                        let t = path.take(j);
                        assert(t[0] == name@);
                        assert(t.drop_first() =~= path1.take(j - 1));
                        assert(dir_at(*self, t) == dir_at(new_child, path1.take(j - 1)));
                        if k < n {
                            assert(dir_at(*old(self), t) == dir_at(old_child, path1.take(j - 1)));
                        } else {
                            assert(dir_at(*old(self), t) is None);
                            if j - 1 > 0 {
                                assert(dir_at(old_child, path1.take(j - 1)) is None);
                            } else {
                                assert(path1.take(j - 1).len() == 0);
                            }
                        }
                    } else {
                        assert(path.take(j).len() == 0);
                    }
                }
                assert forall|q: Seq<Seq<char>>| !on_the_way(q, path) implies #[trigger] dir_at(
                    *self,
                    q,
                ) == dir_at(*old(self), q) by {
                    if q.len() == 0 {
                        assert(q =~= path.take(0));
                    } else if q[0] == name@ {
                        let q1 = q.drop_first();
                        assert(!on_the_way(q1, path1)) by {
                            if on_the_way(q1, path1) {
                                assert forall|j: int| 0 <= j < q.len() implies q[j] == path.take(
                                    q.len() as int,
                                )[j] by {
                                    if j > 0 {
                                        assert(q[j] == q1[j - 1]);
                                        assert(q1[j - 1] == path1.take(q1.len() as int)[j - 1]);
                                    }
                                }
                                assert(q =~= path.take(q.len() as int));
                            }
                        }
                        assert(dir_at(*self, q) == dir_at(new_child, q1));
                        if k < n {
                            assert(dir_at(*old(self), q) == dir_at(old_child, q1));
                        } else {
                            assert(q1.len() > 0) by {
                                if q1.len() == 0 {
                                    assert(q =~= path.take(1));
                                }
                            }
                            assert(dir_at(old_child, q1) is None);
                            assert(dir_at(*old(self), q) is None);
                        }
                    } else {
                        if k == n {
                            lemma_index_of_first_push(keys, name@, q[0]);
                        }
                        keys.index_of_first_ensures(q[0]);
                        let keys2 = self.dirs@.map_values(|e: (String, DirTree)| e.0@);
                        keys2.index_of_first_ensures(q[0]);
                        if let Some(f) = name_index(old(self).dirs@, q[0]) {
                            assert(keys[f] == q[0]);
                            assert(f != k);
                            assert(self.dirs@[f] == old(self).dirs@[f]);
                        }
                    }
                }
                if sizes_add_up(*old(self)) && lookup(*old(self), path) is None && old(self).spec_size()
                    + gfile.size <= u64::MAX {
                    assert(self.dirs@ == pre.update(k as int, self.dirs@[k as int]));
                    assert(self.dirs@[k as int].1 == new_child);
                    lemma_dirs_size_update(pre, k as int, self.dirs@[k as int]);
                    if k == n {
                        assert(pre.drop_last() =~= old(self).dirs@);
                    } else {
                        assert(pre == old(self).dirs@);
                    }
                    let names1 = new_child.spec_files().map_values(|e: (String, PckFileMetadata)| e.0@);
                    let names2 = new_child.spec_dirs().map_values(|e: (String, DirTree)| e.0@);
                    names1.index_of_first_ensures(path1[0]);
                    names2.index_of_first_ensures(path1[0]);
                    assert(lookup(new_child, path1) == Some(gfile@));
                    assert(new_child.spec_files().len() > 0 || new_child.spec_dirs().len() > 0);
                    assert forall|f: int| 0 <= f < self.spec_dirs().len() implies {
                        &&& #[trigger] self.spec_dirs()[f].1.spec_files().len() > 0
                            || self.spec_dirs()[f].1.spec_dirs().len() > 0
                        &&& sizes_add_up(self.spec_dirs()[f].1)
                    } by {
                        if f != k {
                            assert(self.dirs@[f] == pre[f]);
                            if f < n {
                                assert(pre[f] == old(self).dirs@[f]);
                                assert(old(self).spec_dirs()[f] == old(self).dirs@[f]);
                            }
                        }
                    }
                    assert(sizes_add_up(*self));
                }
                if names_distinct(*old(self)) {
                    let ds = self.dirs@;
                    assert(ds == pre.update(k as int, ds[k as int]));
                    assert(ds[k as int].0@ == name@);
                    if k < n {
                        assert(pre == old(self).dirs@);
                        assert(old(self).spec_dirs()[k as int].1 == old_child);
                    } else {
                        assert(pre.drop_last() =~= old(self).dirs@);
                    }
                    assert(names_distinct(new_child));
                    assert forall|a: int, b: int| 0 <= a < b < ds.len() implies #[trigger] ds[a].0@
                        != #[trigger] ds[b].0@ by {
                        if a != k && b != k {
                            assert(ds[a] == pre[a] && ds[b] == pre[b]);
                            if b >= n {
                                assert(pre[b].0@ == name@);
                                assert(keys[a] == pre[a].0@);
                                assert(!keys.contains(name@));
                            } else {
                                assert(pre[a] == old(self).dirs@[a]);
                                assert(pre[b] == old(self).dirs@[b]);
                            }
                        } else if a == k {
                            assert(ds[b] == pre[b]);
                            assert(b < n);
                            assert(keys[b] == pre[b].0@);
                            assert(keys[k as int] == name@);
                        } else {
                            assert(ds[a] == pre[a]);
                            assert(keys[a] == pre[a].0@);
                            if k < n {
                                assert(keys[k as int] == name@);
                            } else {
                                assert(!keys.contains(name@));
                                assert(keys[a] != name@);
                            }
                        }
                    }
                    assert forall|f: int| 0 <= f < self.spec_dirs().len() implies names_distinct(
                        #[trigger] self.spec_dirs()[f].1,
                    ) by {
                        if f != k {
                            assert(ds[f] == pre[f]);
                            if f < n {
                                assert(pre[f] == old(self).dirs@[f]);
                                assert(old(self).spec_dirs()[f] == old(self).dirs@[f]);
                            }
                        }
                    }
                    assert(names_distinct(*self));
                }
            }
        }
    }

    /// Adds a file under the components of its path; a path without
    /// components adds nothing. Every directory on the way is created where
    /// missing and grows by the file's size; nothing else changes. Where no
    /// file is replaced and the total does not overflow, the sizes of every
    /// directory keep adding up.
    pub fn add_entry(&mut self, file: PckFileMetadata)
        ensures
            path_components(file@.path).len() == 0 ==> *final(self) == *old(self),
            path_components(file@.path).len() > 0 ==> final(self).spec_size() == saturating_sum(
                old(self).spec_size(),
                file.size,
            ) && lookup(*final(self), path_components(file@.path)) == Some(file@),
            forall|p: Seq<Seq<char>>|
                p != path_components(file@.path) ==> #[trigger] lookup(*final(self), p) == lookup(
                    *old(self),
                    p,
                ),
            forall|j: int|
                0 <= j < path_components(file@.path).len() ==> (#[trigger] dir_at(
                    *final(self),
                    path_components(file@.path).take(j),
                ) matches Some(n) && n.spec_size() == saturating_sum(
                    dir_size(dir_at(*old(self), path_components(file@.path).take(j))),
                    file.size,
                )),
            forall|q: Seq<Seq<char>>|
                !on_the_way(q, path_components(file@.path)) ==> #[trigger] dir_at(*final(self), q)
                    == dir_at(*old(self), q),
            sizes_add_up(*old(self)) && lookup(*old(self), path_components(file@.path)) is None
                && old(self).spec_size() + file.size <= u64::MAX ==> sizes_add_up(*final(self)),
            names_distinct(*old(self)) ==> names_distinct(*final(self)),
    {
        let comps = components(file.path.as_str());
        if comps.len() > 0 {
            proof {
                assert(comp_names(comps@).skip(0) =~= comp_names(comps@));
            }
            self.add_from_components(&comps, 0, file);
        }
    }
}

} // verus!
