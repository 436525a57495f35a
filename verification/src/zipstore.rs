//! The zip container behind trusted wrappers: reading an archive's entry
//! table and entry bytes, writing a new archive, and the two archive
//! transformation entry points built on them.

use vstd::prelude::*;
use crate::archive::{
    ArchiveEntry, ArchivePackage, entries_view, has_manifest, is_manifest_name, spec_replace,
    name_is_manifest, replace_manifest_entry, build_from_files, build_view, files_view,
    all_paths_utf8, FileEntry,
};
use crate::errs::MigrateError;
use crate::manifest::{Manifest, manifest_json, serialize_manifest, apply_migration, extra_view};
use crate::mjson::{spec_parse_manifest, parse_manifest};

verus! {

/// The entry-name table that a zip blob parses to, in entry order, or
/// `None` when the blob is not a valid archive.  A pure function of the
/// bytes: `zip::ZipArchive::new` reads nothing but them.
pub uninterp spec fn zip_table(data: Seq<u8>) -> Option<Seq<Seq<char>>>;

/// The uncompressed bytes of entry `i` of a zip blob, or `None` when that
/// entry's stream cannot be read back.  A pure function of the bytes.
pub uninterp spec fn zip_entry_data(data: Seq<u8>, i: int) -> Option<Seq<u8>>;

/// A blob that parses as an archive whose every entry can be read.
pub open spec fn zip_ok(data: Seq<u8>) -> bool {
    &&& zip_table(data) is Some
    &&& forall|i: int|
        0 <= i < zip_table(data).unwrap().len() ==> (#[trigger] zip_entry_data(data, i)) is Some
}

/// The (name, bytes) entries of a readable zip blob.
pub open spec fn zip_entries(data: Seq<u8>) -> Seq<(Seq<char>, Seq<u8>)> {
    Seq::new(
        zip_table(data).unwrap().len(),
        |i: int| (zip_table(data).unwrap()[i], zip_entry_data(data, i).unwrap()),
    )
}

/// The names of a sequence of entries.
pub open spec fn names_of(es: Seq<(Seq<char>, Seq<u8>)>) -> Seq<Seq<char>> {
    es.map_values(|e: (Seq<char>, Seq<u8>)| e.0)
}

/// What one entry costs the container: its bytes, plus an allowance that
/// covers its name fields and headers several times over.
pub open spec fn entry_weight(e: (Seq<char>, Seq<u8>)) -> int {
    e.1.len() as int + 4 * (vstd::utf8::encode_utf8(e.0).len() as int) + 256
}

/// The total cost of an entry list.
pub open spec fn archive_weight(es: Seq<(Seq<char>, Seq<u8>)>) -> int
    decreases es.len(),
{
    if es.len() == 0 {
        0
    } else {
        archive_weight(es.drop_last()) + entry_weight(es.last())
    }
}

pub open spec fn names_distinct(es: Seq<(Seq<char>, Seq<u8>)>) -> bool {
    forall|i: int, j: int| 0 <= i < j < es.len() ==> es[i].0 != es[j].0
}

pub open spec fn names_short(es: Seq<(Seq<char>, Seq<u8>)>) -> bool {
    forall|i: int|
        0 <= i < es.len() ==> vstd::utf8::encode_utf8(#[trigger] es[i].0).len() <= 0xffff
}

/// Entries the zip writer is sure to accept: pairwise-distinct names, each
/// name within the format's 16-bit name-length field, and a total weight
/// safely under its 32-bit size fields.  (Anything larger needs the
/// writer's large-file option, which this engine does not use.)
pub open spec fn packable(es: Seq<(Seq<char>, Seq<u8>)>) -> bool {
    &&& names_distinct(es)
    &&& names_short(es)
    &&& archive_weight(es) < 0xf0000000
}

pub proof fn lemma_archive_weight_prefix(es: Seq<(Seq<char>, Seq<u8>)>, i: int)
    requires
        0 <= i <= es.len(),
    ensures
        0 <= archive_weight(es.take(i)) <= archive_weight(es),
    decreases es.len(),
{
    if es.len() == 0 {
        assert(es.take(i) =~= es);
    } else if i == es.len() {
        assert(es.take(i) =~= es);
        lemma_archive_weight_prefix(es.drop_last(), es.len() - 1);
    } else {
        assert(es.drop_last().take(i) =~= es.take(i));
        lemma_archive_weight_prefix(es.drop_last(), i);
    }
}

/// Relies on `zip::ZipArchive::new` over an in-memory cursor, and its
/// `len`: the blob parses to an entry table exactly when `new` succeeds.
#[verifier::external_body]
fn zip_entry_count(data: &Vec<u8>) -> (r: Option<usize>)
    ensures
        match r {
            Some(n) => zip_table(data@) matches Some(t) && t.len() == n,
            None => zip_table(data@) is None,
        },
{
    let cursor = std::io::Cursor::new(data.as_slice());
    match zip::ZipArchive::new(cursor) {
        Ok(a) => Some(a.len()),
        Err(_) => None,
    }
}

/// Relies on `zip::ZipArchive::by_index` with `ZipFile::name` and
/// `std::io::Read::read_to_end`: entry `i`'s name from the table and its
/// uncompressed bytes.  One wrapper re-opens the already-validated table
/// because a `ZipFile` borrows the archive it came from.
#[verifier::external_body]
fn zip_entry_at(data: &Vec<u8>, i: usize) -> (r: Option<(String, Vec<u8>)>)
    requires
        zip_table(data@) is Some,
        i < zip_table(data@).unwrap().len(),
    ensures
        match r {
            Some(p) => p.0@ == zip_table(data@).unwrap()[i as int] && zip_entry_data(
                data@,
                i as int,
            ) == Some(p.1@),
            None => zip_entry_data(data@, i as int) is None,
        },
{
    let cursor = std::io::Cursor::new(data.as_slice());
    let mut archive = match zip::ZipArchive::new(cursor) {
        Ok(a) => a,
        Err(_) => return None,
    };
    let mut f = match archive.by_index(i) {
        Ok(f) => f,
        Err(_) => return None,
    };
    let name = f.name().to_string();
    let mut buf = Vec::new();
    match std::io::Read::read_to_end(&mut f, &mut buf) {
        Ok(_) => Some((name, buf)),
        Err(_) => None,
    }
}

/// Holds the zip crate's in-memory archive writer.  Declaring the writer
/// type itself is refused (its generic carries the `std::io::Write + Seek`
/// bounds), so the writer is held opaquely in this one struct.
#[verifier::external_body]
pub struct ArchiveSink {
    writer: zip::ZipWriter<std::io::Cursor<Vec<u8>>>,
}

/// What an in-progress archive writer has been handed so far.
pub uninterp spec fn sink_entries(w: ArchiveSink) -> Seq<(Seq<char>, Seq<u8>)>;

/// Whether the writer carries only cleanly finished entries.  A writer
/// that refused an entry may keep the aborted entry's bytes behind it;
/// this engine discards such a writer, and claims the rendered blob only
/// of clean ones.
pub uninterp spec fn sink_clean(w: ArchiveSink) -> bool;

/// Relies on `zip::ZipWriter::new` over a fresh in-memory cursor: a writer
/// holding no entries yet.
#[verifier::external_body]
fn sink_new() -> (w: ArchiveSink)
    ensures
        sink_entries(w) == Seq::<(Seq<char>, Seq<u8>)>::empty(),
        sink_clean(w),
{
    ArchiveSink { writer: zip::ZipWriter::new(std::io::Cursor::new(Vec::new())) }
}

/// Relies on `zip::ZipWriter::start_file` with the deflate compression
/// method and `std::io::Write::write_all`.  On success the writer holds one
/// more entry, with this name and these bytes.  Over an in-memory cursor
/// the writer refuses an entry only for the entry list's own reasons: a
/// name already present, a name too long for the format's 16-bit length
/// field, or content beyond its 32-bit size fields — so acceptance is owed
/// whenever none of these holds.
#[verifier::external_body]
fn sink_add(w: &mut ArchiveSink, name: &str, data: &Vec<u8>) -> (r:
    bool)
    ensures
        r ==> sink_entries(*final(w)) == sink_entries(*old(w)).push((name@, data@)),
        r && sink_clean(*old(w)) ==> sink_clean(*final(w)),
        (!names_of(sink_entries(*old(w))).contains(name@) && vstd::utf8::encode_utf8(name@).len()
            <= 0xffff && archive_weight(sink_entries(*old(w)).push((name@, data@))) < 0xf0000000)
            ==> r,
{
    let options = zip::write::SimpleFileOptions::default().compression_method(
        zip::CompressionMethod::Deflated,
    );
    if w.writer.start_file(name, options).is_err() {
        return false;
    }
    std::io::Write::write_all(&mut w.writer, data.as_slice()).is_ok()
}

/// The archive blob the writer renders for an entry list.  With the fixed
/// options this engine uses — deflate, the format's fixed default
/// timestamp, no large-file support — the writer's output is a function of
/// the entries alone.
pub uninterp spec fn zip_blob_of(es: Seq<(Seq<char>, Seq<u8>)>) -> Seq<u8>;

/// Relies on `zip::ZipWriter::finish` and `Cursor::into_inner`, and on the
/// round trip the zip crate maintains between its writer and its reader:
/// the finished blob parses back to exactly the entries that were written,
/// names and uncompressed contents alike.  Finishing over an in-memory
/// cursor fails only when the last entry outgrew the 32-bit size fields,
/// and the rendered bytes are determined by the entries.
#[verifier::external_body]
fn sink_finish(w: ArchiveSink) -> (r: Option<Vec<u8>>)
    ensures
        match r {
            Some(bytes) => {
                &&& zip_table(bytes@) == Some(names_of(sink_entries(w)))
                &&& forall|i: int|
                    0 <= i < sink_entries(w).len() ==> zip_entry_data(bytes@, i) == Some(
                        #[trigger] sink_entries(w)[i].1,
                    )
                &&& sink_clean(w) ==> bytes@ == zip_blob_of(sink_entries(w))
            },
            None => true,
        },
        archive_weight(sink_entries(w)) < 0xf0000000 ==> r is Some,
{
    match w.writer.finish() {
        Ok(c) => Some(c.into_inner()),
        Err(_) => None,
    }
}

/// Reads every entry of a zip blob into the archive model.  Succeeds
/// exactly when the blob parses and every entry's bytes can be read.
pub fn read_all_entries(data: &Vec<u8>) -> (r: Result<ArchivePackage, MigrateError>)
    ensures
        match r {
            Ok(p) => zip_ok(data@) && entries_view(p.entries@) == zip_entries(data@),
            Err(e) => e == MigrateError::ArchiveFormat && !zip_ok(data@),
        },
{
    let n = match zip_entry_count(data) {
        None => {
            return Err(MigrateError::ArchiveFormat);
        },
        Some(n) => n,
    };
    let mut entries: Vec<ArchiveEntry> = Vec::new();
    let mut i: usize = 0;
    while i < n
        invariant
            i <= n,
            entries@.len() == i,
            zip_table(data@) matches Some(t) && t.len() == n,
            forall|k: int| 0 <= k < i ==> (#[trigger] zip_entry_data(data@, k)) is Some,
            entries_view(entries@) == zip_entries(data@).take(i as int),
        decreases n - i,
    {
        match zip_entry_at(data, i) {
            None => {
                return Err(MigrateError::ArchiveFormat);
            },
            Some((name, bytes)) => {
                let ghost prev = entries@;
                entries.push(ArchiveEntry { name, data: bytes });
                proof {
                    let zv = zip_entries(data@);
                    assert(entries@.len() == i + 1);
                    assert forall|j: int| 0 <= j < i + 1 implies entries_view(entries@)[j] == zv.take(
                        i + 1,
                    )[j] by {
                        if j < i {
                            assert(entries_view(prev)[j] == zv.take(i as int)[j]);
                            assert(entries@[j] == prev[j]);
                        } else {
                            assert(entries@[j].name@ == zip_table(data@).unwrap()[j]);
                            assert(entries@[j].data@ == zip_entry_data(data@, j).unwrap());
                        }
                    }
                    assert(entries_view(entries@) =~~= zv.take(i + 1));
                }
            },
        }
        i = i + 1;
    }
    proof {
        assert(entries_view(entries@) =~~= zip_entries(data@));
    }
    Ok(ArchivePackage { entries })
}

/// Writes the archive model out as a zip blob with deflate compression.
/// The blob reads back to exactly the model's entries and is determined by
/// them; packing is owed to succeed on every packable entry list, and can
/// refuse only one that is not packable.
pub fn pack_archive(pkg: &ArchivePackage) -> (r: Result<Vec<u8>, MigrateError>)
    ensures
        match r {
            Ok(bytes) => zip_ok(bytes@) && zip_entries(bytes@) == entries_view(pkg.entries@)
                && bytes@ == zip_blob_of(entries_view(pkg.entries@)),
            Err(e) => e == MigrateError::Io && !packable(entries_view(pkg.entries@)),
        },
        packable(entries_view(pkg.entries@)) ==> r is Ok,
{
    let ghost ev = entries_view(pkg.entries@);
    let mut w = sink_new();
    let mut i: usize = 0;
    while i < pkg.entries.len()
        invariant
            i <= pkg.entries@.len(),
            ev == entries_view(pkg.entries@),
            sink_clean(w),
            sink_entries(w) == ev.take(i as int),
            sink_entries(w).len() == i,
        decreases pkg.entries@.len() - i,
    {
        let ghost before = sink_entries(w);
        let ok = sink_add(&mut w, pkg.entries[i].name.as_str(), &pkg.entries[i].data);
        if !ok {
            proof {
                assert(ev[i as int] == (pkg.entries@[i as int].name@, pkg.entries@[i as int].data@));
                assert(before.push(ev[i as int]) =~~= ev.take(i + 1));
                if names_of(before).contains(ev[i as int].0) {
                    let j = choose|j: int|
                        0 <= j < before.len() && names_of(before)[j] == ev[i as int].0;
                    assert(ev[j].0 == ev[i as int].0);
                    assert(!names_distinct(ev));
                } else if vstd::utf8::encode_utf8(ev[i as int].0).len() > 0xffff {
                    assert(!names_short(ev));
                } else {
                    lemma_archive_weight_prefix(ev, i + 1);
                    assert(archive_weight(ev) >= 0xf0000000);
                }
                assert(!packable(ev));
            }
            return Err(MigrateError::Io);
        }
        proof {
            assert(sink_entries(w) =~~= ev.take(i + 1));
        }
        i = i + 1;
    }
    proof {
        assert(sink_entries(w) =~~= entries_view(pkg.entries@));
    }
    let ghost se = sink_entries(w);
    match sink_finish(w) {
        None => {
            proof {
                assert(archive_weight(se) >= 0xf0000000);
                assert(!packable(ev));
            }
            Err(MigrateError::Io)
        },
        Some(bytes) => {
            proof {
                assert(zip_table(bytes@) == Some(names_of(se)));
                assert(zip_table(bytes@).unwrap().len() == se.len());
                assert forall|j: int|
                    0 <= j < zip_table(bytes@).unwrap().len() implies (#[trigger] zip_entry_data(
                    bytes@,
                    j,
                )) is Some by {
                    assert(zip_entry_data(bytes@, j) == Some(se[j].1));
                }
                assert forall|j: int| 0 <= j < se.len() implies zip_entries(bytes@)[j] == se[j] by {
                    assert(names_of(se)[j] == se[j].0);
                    assert(zip_entry_data(bytes@, j) == Some(se[j].1));
                }
                assert(zip_entries(bytes@) =~~= se);
            }
            Ok(bytes)
        },
    }
}

/// The index of the first manifest entry.
pub open spec fn find_manifest_at(es: Seq<(Seq<char>, Seq<u8>)>, i: int) -> Option<int>
    decreases es.len() - i,
        when 0 <= i <= es.len()
{
    if i >= es.len() {
        None
    } else if is_manifest_name(es[i].0) {
        Some(i)
    } else {
        find_manifest_at(es, i + 1)
    }
}

pub proof fn lemma_find_manifest_at(es: Seq<(Seq<char>, Seq<u8>)>, i: int)
    requires
        0 <= i <= es.len(),
    ensures
        find_manifest_at(es, i) matches Some(j) ==> i <= j < es.len() && is_manifest_name(es[j].0),
        find_manifest_at(es, i) is None ==> forall|j: int|
            i <= j < es.len() ==> !is_manifest_name(#[trigger] es[j].0),
    decreases es.len() - i,
{
    if i < es.len() && !is_manifest_name(es[i].0) {
        lemma_find_manifest_at(es, i + 1);
    }
}

/// Finds the first manifest entry of the model.
pub fn find_manifest_entry(pkg: &ArchivePackage) -> (r: Option<usize>)
    ensures
        match r {
            Some(j) => find_manifest_at(entries_view(pkg.entries@), 0) == Some(j as int) && j
                < pkg.entries@.len(),
            None => find_manifest_at(entries_view(pkg.entries@), 0) is None,
        },
{
    let mut i: usize = 0;
    while i < pkg.entries.len()
        invariant
            i <= pkg.entries@.len(),
            find_manifest_at(entries_view(pkg.entries@), 0) == find_manifest_at(
                entries_view(pkg.entries@),
                i as int,
            ),
        decreases pkg.entries@.len() - i,
    {
        if name_is_manifest(&pkg.entries[i].name) {
            return Some(i);
        }
        i = i + 1;
    }
    None
}

/// A blob on which the archive transformation cannot fail for a reason of
/// the blob's own: it parses, every entry reads back, it holds a manifest
/// entry, and that entry parses as a manifest document.
pub open spec fn transformable(data: Seq<u8>) -> bool {
    &&& zip_ok(data)
    &&& find_manifest_at(zip_entries(data), 0) is Some
    &&& spec_parse_manifest(
        zip_entries(data)[find_manifest_at(zip_entries(data), 0).unwrap()].1,
    ) is Some
}

/// The entries the transformation of an existing archive denotes: the
/// input's entries with each manifest entry's bytes replaced by the
/// serialization of the parsed manifest migrated to the fresh identity and
/// name.  Meaningful on a transformable blob.
pub open spec fn transformed_entries(data: Seq<u8>, new_id: Seq<char>, new_name: Seq<char>) -> Seq<
    (Seq<char>, Seq<u8>),
> {
    spec_replace(
        zip_entries(data),
        crate::manifest::manifest_json_of(
            new_id,
            new_name,
            false,
            spec_parse_manifest(
                zip_entries(data)[find_manifest_at(zip_entries(data), 0).unwrap()].1,
            ).unwrap().3,
        ),
    )
}

/// What transforming an existing archive denotes, when it succeeds: the
/// manifest parsed from the first `package.json` entry, migrated to the
/// fresh identity and name, with the encryption flag off.
pub open spec fn transformed_manifest_ok(
    data: Seq<u8>,
    new_id: Seq<char>,
    new_name: Seq<char>,
    m: Manifest,
) -> bool {
    &&& zip_ok(data)
    &&& find_manifest_at(zip_entries(data), 0) matches Some(k)
    &&& spec_parse_manifest(zip_entries(data)[find_manifest_at(zip_entries(data), 0).unwrap()].1)
        matches Some(t)
    &&& m.identity@ == new_id
    &&& m.display_name@ == new_name
    &&& !m.encrypted
    &&& extra_view(m.extra@) == spec_parse_manifest(
        zip_entries(data)[find_manifest_at(zip_entries(data), 0).unwrap()].1,
    ).unwrap().3
}

/// Transforms an existing archive blob: locates the manifest entry, parses
/// it, applies the identity/name/flag mutation, and re-serializes the whole
/// archive with every other entry copied through unchanged.  The returned
/// blob reads back to the input's entries with only the manifest entry's
/// bytes replaced by the mutated manifest's serialization.  Success is owed
/// on every transformable blob whose transformed entries are packable; each
/// error comes exactly on its own ground.
pub fn from_existing_archive(data: &Vec<u8>, new_id: String, new_name: String) -> (r: Result<
    (Vec<u8>, Manifest),
    MigrateError,
>)
    ensures
        match r {
            Ok(p) => {
                &&& transformed_manifest_ok(data@, new_id@, new_name@, p.1)
                &&& zip_ok(p.0@)
                &&& zip_entries(p.0@) == spec_replace(zip_entries(data@), manifest_json(p.1))
                &&& p.0@ == zip_blob_of(spec_replace(zip_entries(data@), manifest_json(p.1)))
            },
            Err(e) => {
                &&& (e == MigrateError::ArchiveFormat || e == MigrateError::ManifestMissing || e
                    == MigrateError::Io)
                &&& e == MigrateError::ArchiveFormat ==> (!zip_ok(data@) || (
                find_manifest_at(zip_entries(data@), 0) matches Some(k) && spec_parse_manifest(
                    zip_entries(data@)[k].1,
                ) is None))
                &&& e == MigrateError::ManifestMissing ==> zip_ok(data@) && find_manifest_at(
                    zip_entries(data@),
                    0,
                ) is None
                &&& e == MigrateError::Io ==> transformable(data@) && !packable(
                    transformed_entries(data@, new_id@, new_name@),
                )
            },
        },
        !zip_ok(data@) ==> (r matches Err(x) && x == MigrateError::ArchiveFormat),
        zip_ok(data@) && find_manifest_at(zip_entries(data@), 0) is None ==> (r matches Err(x)
            && x == MigrateError::ManifestMissing),
        zip_ok(data@) && find_manifest_at(zip_entries(data@), 0) is Some && !transformable(data@)
            ==> (r matches Err(x) && x == MigrateError::ArchiveFormat),
        transformable(data@) && packable(transformed_entries(data@, new_id@, new_name@)) ==> r
            is Ok,
{
    let pkg = read_all_entries(data)?;
    let k = match find_manifest_entry(&pkg) {
        None => {
            return Err(MigrateError::ManifestMissing);
        },
        Some(k) => k,
    };
    let parsed = parse_manifest(&pkg.entries[k].data)?;
    let migrated = apply_migration(parsed, new_id, new_name);
    let mbytes = serialize_manifest(&migrated);
    proof {
        lemma_find_manifest_at(entries_view(pkg.entries@), 0);
    }
    let replaced = match replace_manifest_entry(pkg, &mbytes) {
        Err(_) => {
            proof {
                assert(false);
            }
            return Err(MigrateError::ManifestMissing);
        },
        Ok(q) => q,
    };
    proof {
        assert(mbytes@ == crate::manifest::manifest_json_of(
            new_id@,
            new_name@,
            false,
            spec_parse_manifest(
                zip_entries(data@)[find_manifest_at(zip_entries(data@), 0).unwrap()].1,
            ).unwrap().3,
        ));
        assert(entries_view(replaced.entries@) == transformed_entries(data@, new_id@, new_name@));
    }
    match pack_archive(&replaced) {
        Err(e) => Err(e),
        Ok(out) => Ok((out, migrated)),
    }
}

/// Builds a fresh archive blob from the files of a directory walk, with the
/// serialized `manifest` standing in for the walked `package.json` file and
/// every other file stored under its normalized relative path.  Success is
/// owed whenever every normalized path is valid UTF-8 and the resulting
/// entries are packable.
pub fn from_directory_tree(files: Vec<FileEntry>, manifest: &Manifest) -> (r: Result<
    Vec<u8>,
    MigrateError,
>)
    ensures
        match r {
            Ok(bytes) => {
                &&& all_paths_utf8(files_view(files@))
                &&& zip_ok(bytes@)
                &&& zip_entries(bytes@) == build_view(files_view(files@), manifest_json(*manifest))
                &&& bytes@ == zip_blob_of(build_view(files_view(files@), manifest_json(*manifest)))
            },
            Err(e) => e == MigrateError::Io && (!all_paths_utf8(files_view(files@)) || !packable(
                build_view(files_view(files@), manifest_json(*manifest)),
            )),
        },
        all_paths_utf8(files_view(files@)) && packable(
            build_view(files_view(files@), manifest_json(*manifest)),
        ) ==> r is Ok,
{
    let mbytes = serialize_manifest(manifest);
    let pkg = match build_from_files(files, &mbytes) {
        Err(e) => {
            return Err(e);
        },
        Ok(p) => p,
    };
    pack_archive(&pkg)
}

} // verus!
