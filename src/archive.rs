//! Backup archiver: which entries the archive holds, in which order and
//! under which names.
use vstd::prelude::*;
use crate::text::views;
use vstd::utf8::{encode_scalar, encode_utf8};

verus! {

#[verifier::external_type_specification]
#[verifier::external_body]
pub struct ExZipError(zip::result::ZipError);

#[verifier::external_type_specification]
#[verifier::external_body]
pub struct ExIoError(std::io::Error);

/// An archive being written in memory. Verus does not take `zip::ZipWriter`
/// with its `std::io` bounds, so the writer is held here, seen only through
/// `zip_entries`.
#[verifier::external_body]
pub struct ArchiveWriter {
    inner: zip::ZipWriter<std::io::Cursor<Vec<u8>>>,
}

/// The entries written so far: each name with its data.
pub uninterp spec fn zip_entries(w: ArchiveWriter) -> Seq<(Seq<char>, Seq<u8>)>;

/// Whether an entry is open for writing.
pub uninterp spec fn zip_open(w: ArchiveWriter) -> bool;

/// The bytes of a finished deflate archive with these entries, in order.
pub uninterp spec fn zip_archive_of(entries: Seq<(Seq<char>, Seq<u8>)>) -> Seq<u8>;

/// Relies on `zip::ZipWriter::new` over an empty `std::io::Cursor`: an
/// archive with no entries and none open.
#[verifier::external_body]
fn zip_new() -> (r: ArchiveWriter)
    ensures
        zip_entries(r) == Seq::<(Seq<char>, Seq<u8>)>::empty(),
        !zip_open(r),
{
    ArchiveWriter { inner: zip::ZipWriter::new(std::io::Cursor::new(Vec::new())) }
}

/// Names already taken in `entries`.
pub open spec fn name_taken(entries: Seq<(Seq<char>, Seq<u8>)>, name: Seq<char>) -> bool {
    exists|j: int| 0 <= j < entries.len() && (#[trigger] entries[j]).0 == name
}

/// Relies on `zip::ZipWriter::start_file`, with deflate compression, the
/// fixed default timestamp and the large-file option (so no size limit
/// refuses an entry): it closes the open entry, then opens one with this
/// name and no data, unless the name is already taken (`Duplicate
/// filename`). A name over 65535 bytes makes it panic.
#[verifier::external_body]
fn zip_start_file(w: &mut ArchiveWriter, name: &str) -> (r: Result<(), zip::result::ZipError>)
    requires
        encode_utf8(name@).len() <= 0xFFFF,
    ensures
        r is Ok <==> !name_taken(zip_entries(*old(w)), name@),
        r is Ok ==> zip_entries(*final(w)) == zip_entries(*old(w)).push((name@, Seq::<u8>::empty())),
        r is Ok ==> zip_open(*final(w)),
{
    let options = zip::write::SimpleFileOptions::default()
        .compression_method(zip::CompressionMethod::Deflated)
        .last_modified_time(zip::DateTime::default())
        .large_file(true);
    w.inner.start_file(name, options)
}

/// Relies on `std::io::Write::write_all` over `zip::ZipWriter::write` into
/// memory, with an entry open and the large-file option set: the bytes are
/// appended to the open entry's data.
#[verifier::external_body]
fn zip_write_all(w: &mut ArchiveWriter, bytes: &Vec<u8>) -> (r: Result<(), std::io::Error>)
    requires
        zip_open(*old(w)),
        zip_entries(*old(w)).len() > 0,
    ensures
        r is Ok,
        zip_open(*final(w)),
        zip_entries(*final(w)) == zip_entries(*old(w)).drop_last().push(
            (zip_entries(*old(w)).last().0, zip_entries(*old(w)).last().1 + bytes@),
        ),
{
    std::io::Write::write_all(&mut w.inner, bytes)
}

/// Relies on `zip::ZipWriter::finish` over an in-memory cursor, the entries
/// written with the large-file option: the archive's bytes.
#[verifier::external_body]
fn zip_finish(w: ArchiveWriter) -> (r: Result<Vec<u8>, zip::result::ZipError>)
    requires
        zip_entries(w).len() == 0 || zip_open(w),
    ensures
        r is Ok,
        r matches Ok(b) ==> b@ == zip_archive_of(zip_entries(w)),
{
    w.inner.finish().map(|c| c.into_inner())
}

/// One entry's name and data.
pub open spec fn named_data(e: (String, Vec<u8>)) -> (Seq<char>, Seq<u8>) {
    (e.0@, e.1@)
}

/// An entry could not be written: the archive as a whole is not valid.
pub enum ArchiveError {
    ArchiveWriteError,
}

/// Bytes that one character takes in UTF-8.
pub open spec fn utf8_width(c: char) -> nat {
    if (c as u32) <= 0x7F {
        1
    } else if (c as u32) <= 0x7FF {
        2
    } else if (c as u32) <= 0xFFFF {
        3
    } else {
        4
    }
}

proof fn lemma_scalar_width(c: char)
    ensures
        encode_scalar(c as u32).len() == utf8_width(c),
{
}

/// Whether the name's UTF-8 encoding fits the 65535 bytes an entry name may take.
pub fn name_fits(name: &str) -> (r: bool)
    ensures
        r == (encode_utf8(name@).len() <= 0xFFFF),
{
    let n = name.unicode_len();
    let mut i: usize = n;
    let mut acc: usize = 0;
    assert(name@.subrange(n as int, n as int).len() == 0);
    while i > 0
        invariant
            n == name@.len(),
            i <= n,
            acc <= 0xFFFF,
            acc == encode_utf8(name@.subrange(i as int, n as int)).len(),
        decreases i,
    {
        let c = name.get_char(i - 1);
        let v = c as u32;
        let w: usize = if v <= 0x7F { 1 } else if v <= 0x7FF { 2 } else if v <= 0xFFFF { 3 } else { 4 };
        proof {
            let t = name@.subrange(i - 1, n as int);
            assert(t.drop_first() =~= name@.subrange(i as int, n as int));
            assert(t[0] == c);
            lemma_scalar_width(c);
            assert(w == utf8_width(c));
        }
        if acc + w > 0xFFFF {
            proof {
                lemma_encode_suffix_grows(name@, (i - 1) as int, n as int);
            }
            return false;
        }
        acc = acc + w;
        i -= 1;
    }
    assert(name@.subrange(0, n as int) =~= name@);
    true
}

proof fn lemma_encode_suffix_grows(s: Seq<char>, i: int, n: int)
    requires
        0 <= i <= n == s.len(),
    ensures
        encode_utf8(s.subrange(i, n)).len() <= encode_utf8(s).len(),
    decreases i,
{
    if i > 0 {
        let t = s.subrange(i - 1, n);
        assert(t.drop_first() =~= s.subrange(i, n));
        lemma_encode_suffix_grows(s, i - 1, n);
    } else {
        assert(s.subrange(0, n) =~= s);
    }
}

/// Entry names are pairwise distinct.
pub open spec fn distinct_names(entries: Seq<(String, Vec<u8>)>) -> bool {
    forall|i: int, j: int| 0 <= i < j < entries.len() ==> (#[trigger] entries[i]).0@ != (#[trigger] entries[j]).0@
}

/// What the archive needs of its entries: each name fits in 65535 bytes
/// and no name repeats.
pub open spec fn archivable(entries: Seq<(String, Vec<u8>)>) -> bool {
    &&& forall|i: int| 0 <= i < entries.len() ==> encode_utf8((#[trigger] entries[i]).0@).len() <= 0xFFFF
    &&& distinct_names(entries)
}

/// Encodes the entries, in order, as a deflate archive; fails exactly when
/// they cannot all be stored.
pub fn build_archive(entries: &Vec<(String, Vec<u8>)>) -> (r: Result<Vec<u8>, ArchiveError>)
    ensures
        r is Ok <==> archivable(entries@),
        r matches Ok(b) ==> b@ == zip_archive_of(entries@.map_values(|e: (String, Vec<u8>)| named_data(e))),
{
    let mut k: usize = 0;
    while k < entries.len()
        invariant
            k <= entries@.len(),
            forall|i: int| 0 <= i < k ==> encode_utf8((#[trigger] entries@[i]).0@).len() <= 0xFFFF,
        decreases entries@.len() - k,
    {
        if !name_fits(entries[k].0.as_str()) {
            return Err(ArchiveError::ArchiveWriteError);
        }
        k += 1;
    }
    let mut w = zip_new();
    let mut i: usize = 0;
    while i < entries.len()
        invariant
            i <= entries@.len(),
            forall|m: int| 0 <= m < entries@.len() ==> encode_utf8((#[trigger] entries@[m]).0@).len() <= 0xFFFF,
            distinct_names(entries@.subrange(0, i as int)),
            i == 0 || zip_open(w),
            zip_entries(w) == entries@.subrange(0, i as int).map_values(|e: (String, Vec<u8>)| named_data(e)),
        decreases entries@.len() - i,
    {
        let ghost before = zip_entries(w);
        match zip_start_file(&mut w, entries[i].0.as_str()) {
            Ok(()) => {},
            Err(_) => {
                proof {
                    let j = choose|j: int| 0 <= j < before.len() && (#[trigger] before[j]).0 == entries@[i as int].0@;
                    assert(before[j] == named_data(entries@[j]));
                    assert(!distinct_names(entries@));
                }
                return Err(ArchiveError::ArchiveWriteError);
            },
        }
        assert(zip_entries(w).last().1.len() == 0);
        match zip_write_all(&mut w, &entries[i].1) {
            Ok(()) => {},
            Err(_) => {
                return Err(ArchiveError::ArchiveWriteError);
            },
        }
        proof {
            assert(entries@.subrange(0, i + 1).map_values(|e: (String, Vec<u8>)| named_data(e)) =~= before.push(
                named_data(entries@[i as int]),
            ));
            assert(Seq::<u8>::empty() + entries@[i as int].1@ =~= entries@[i as int].1@);
            assert(zip_entries(w) =~= before.push(named_data(entries@[i as int])));
            assert forall|a: int, b: int| 0 <= a < b < i + 1 implies (#[trigger] entries@.subrange(0, i + 1)[a]).0@
                != (#[trigger] entries@.subrange(0, i + 1)[b]).0@ by {
                if b == i {
                    assert(before[a] == named_data(entries@[a]));
                    assert(!name_taken(before, entries@[i as int].0@));
                    assert(!(before[a].0 == entries@[i as int].0@));
                } else {
                    assert(entries@.subrange(0, i as int)[a] == entries@[a]);
                    assert(entries@.subrange(0, i as int)[b] == entries@[b]);
                }
            }
        }
        i += 1;
    }
    assert(entries@.subrange(0, entries@.len() as int) =~= entries@);
    match zip_finish(w) {
        Ok(b) => Ok(b),
        Err(_) => Err(ArchiveError::ArchiveWriteError),
    }
}

} // verus!

verus! {

/// Where an archive entry's bytes come from.
#[derive(PartialEq, Eq, Structural, Clone, Copy, Debug)]
pub enum EntrySource {
    /// The replaced target library.
    Library,
    /// The companion client library.
    Companion,
    /// The metadata file with this index in the list given.
    Metadata(usize),
}

pub struct ArchiveEntry {
    pub name: String,
    pub source: EntrySource,
}

/// Logical prefix of metadata entries.
pub open spec fn metadata_prefix() -> Seq<char> {
    "steam_settings/"@
}

/// A relative path with each backslash turned into a forward slash.
pub open spec fn normalize_spec(p: Seq<char>) -> Seq<char> {
    p.map_values(|c: char| if c == '\\' { '/' } else { c })
}

pub fn normalize_separators(p: &str) -> (r: String)
    ensures
        r@ == normalize_spec(p@),
{
    let n = p.unicode_len();
    let mut out = String::new();
    let mut i: usize = 0;
    while i < n
        invariant
            n == p@.len(),
            i <= n,
            out@ == normalize_spec(p@.subrange(0, i as int)),
        decreases n - i,
    {
        let c = p.get_char(i);
        proof {
            reveal_strlit("/");
            assert(p@.subrange(i as int, i + 1) =~= seq![c]);
        }
        if c == '\\' {
            out.append("/");
        } else {
            out.append(p.substring_char(i, i + 1));
        }
        proof {
            assert(normalize_spec(p@.subrange(0, i + 1)) =~= normalize_spec(p@.subrange(0, i as int)).push(
                if c == '\\' { '/' } else { c },
            ));
            assert(out@ =~= normalize_spec(p@.subrange(0, i + 1)));
        }
        i += 1;
    }
    assert(p@.subrange(0, n as int) =~= p@);
    out
}

pub open spec fn entry_view(e: ArchiveEntry) -> (Seq<char>, EntrySource) {
    (e.name@, e.source)
}

/// Metadata entries for the first `n` relative paths.
pub open spec fn metadata_entries(rel: Seq<Seq<char>>, n: int) -> Seq<(Seq<char>, EntrySource)>
    decreases n,
{
    if n <= 0 {
        Seq::empty()
    } else {
        metadata_entries(rel, n - 1).push(
            (metadata_prefix() + normalize_spec(rel[n - 1]), EntrySource::Metadata((n - 1) as usize)),
        )
    }
}

/// The archive's entries: the library under its bare name if present, the
/// companion under its bare name if one was placed, then each metadata file
/// under the prefix.
pub open spec fn archive_plan_spec(
    library: Option<Seq<char>>,
    companion: Option<Seq<char>>,
    rel: Seq<Seq<char>>,
) -> Seq<(Seq<char>, EntrySource)> {
    let a: Seq<(Seq<char>, EntrySource)> = match library {
        Some(n) => seq![(n, EntrySource::Library)],
        None => Seq::empty(),
    };
    let b: Seq<(Seq<char>, EntrySource)> = match companion {
        Some(n) => seq![(n, EntrySource::Companion)],
        None => Seq::empty(),
    };
    a + b + metadata_entries(rel, rel.len() as int)
}

pub open spec fn opt_view(o: Option<&str>) -> Option<Seq<char>> {
    match o {
        Some(s) => Some(s@),
        None => None,
    }
}

/// Plans the archive. `library` is the library's bare name when the file is
/// present, `companion` the companion's when one was placed, and
/// `metadata_files` the paths of the metadata files relative to the
/// metadata directory.
pub fn archive_entries(
    library: Option<&str>,
    companion: Option<&str>,
    metadata_files: &Vec<String>,
) -> (r: Vec<ArchiveEntry>)
    ensures
        r@.map_values(|e: ArchiveEntry| entry_view(e)) == archive_plan_spec(
            opt_view(library),
            opt_view(companion),
            views(metadata_files@),
        ),
{
    let mut out: Vec<ArchiveEntry> = Vec::new();
    match library {
        Some(n) => out.push(ArchiveEntry { name: String::from_str(n), source: EntrySource::Library }),
        None => {},
    }
    match companion {
        Some(n) => out.push(ArchiveEntry { name: String::from_str(n), source: EntrySource::Companion }),
        None => {},
    }
    let ghost base = out@.map_values(|e: ArchiveEntry| entry_view(e));
    assert(base + metadata_entries(views(metadata_files@), 0) =~= base);
    let mut i: usize = 0;
    while i < metadata_files.len()
        invariant
            i <= metadata_files@.len(),
            out@.map_values(|e: ArchiveEntry| entry_view(e)) == base + metadata_entries(
                views(metadata_files@),
                i as int,
            ),
        decreases metadata_files@.len() - i,
    {
        let norm = normalize_separators(metadata_files[i].as_str());
        let mut name = String::from_str("steam_settings/");
        name.append(norm.as_str());
        let ghost prev = out@;
        out.push(ArchiveEntry { name, source: EntrySource::Metadata(i) });
        proof {
            let last = out@.last();
            assert(out@ =~= prev.push(last));
            assert(out@.map_values(|e: ArchiveEntry| entry_view(e)) =~= prev.map_values(
                |e: ArchiveEntry| entry_view(e),
            ).push(entry_view(last)));
            assert(out@.map_values(|e: ArchiveEntry| entry_view(e)) =~= base + metadata_entries(
                views(metadata_files@),
                i + 1,
            ));
        }
        i += 1;
    }
    proof {
        assert(base =~= archive_plan_spec(opt_view(library), opt_view(companion), views(metadata_files@)).subrange(0, base.len() as int));
    }
    out
}

proof fn lemma_metadata_entries(rel: Seq<Seq<char>>, n: int)
    requires
        0 <= n <= rel.len(),
    ensures
        metadata_entries(rel, n).len() == n,
        forall|i: int|
            0 <= i < n ==> #[trigger] metadata_entries(rel, n)[i] == (
                metadata_prefix() + normalize_spec(rel[i]),
                EntrySource::Metadata(i as usize),
            ),
    decreases n,
{
    if n > 0 {
        lemma_metadata_entries(rel, n - 1);
    }
}

/// Every metadata file appears in the archive exactly once, under the prefix
/// followed by its relative path with forward slashes, and the archive holds
/// nothing else besides the library and companion entries.
pub proof fn lemma_archive_complete(
    library: Option<Seq<char>>,
    companion: Option<Seq<char>>,
    rel: Seq<Seq<char>>,
)
    ensures
        ({
            let plan = archive_plan_spec(library, companion, rel);
            let base = (if library is Some { 1int } else { 0int }) + (if companion is Some { 1int } else { 0int });
            &&& plan.len() == base + rel.len()
            &&& forall|i: int|
                0 <= i < rel.len() ==> #[trigger] plan[base + i] == (
                    metadata_prefix() + normalize_spec(rel[i]),
                    EntrySource::Metadata(i as usize),
                )
            &&& forall|j: int|
                0 <= j < base ==> (#[trigger] plan[j]).1 == EntrySource::Library || plan[j].1
                    == EntrySource::Companion
        }),
{
    lemma_metadata_entries(rel, rel.len() as int);
}

} // verus!
