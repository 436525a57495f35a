//! The archive model: an ordered sequence of (entry name, entry bytes)
//! pairs, one of which is the manifest under the fixed name `package.json`,
//! and the transformations that replace that entry while copying every
//! other entry through unchanged.

use vstd::prelude::*;
use vstd::utf8::encode_utf8;
use crate::errs::MigrateError;
use crate::manifest::{Manifest, manifest_json, spec_migrate};
use crate::scan::{bytes_eq, copy_range};

verus! {

/// One archive entry: its name (with `/` separators) and its full,
/// uncompressed bytes.
#[derive(Debug)]
pub struct ArchiveEntry {
    pub name: String,
    pub data: Vec<u8>,
}

/// An archive as the engine sees it: the ordered entries of the container.
#[derive(Debug)]
pub struct ArchivePackage {
    pub entries: Vec<ArchiveEntry>,
}

/// The entries as (name characters, data bytes) pairs.
pub open spec fn entries_view(es: Seq<ArchiveEntry>) -> Seq<(Seq<char>, Seq<u8>)> {
    es.map_values(|e: ArchiveEntry| (e.name@, e.data@))
}

/// The fixed manifest entry name, as UTF-8 bytes: `package.json`.
pub open spec fn manifest_name_bytes() -> Seq<u8> {
    seq![112u8, 97, 99, 107, 97, 103, 101, 46, 106, 115, 111, 110]
}

/// Whether an entry name is the manifest entry's name.
pub open spec fn is_manifest_name(name: Seq<char>) -> bool {
    encode_utf8(name) == manifest_name_bytes()
}

/// Whether some entry carries the manifest.
pub open spec fn has_manifest(es: Seq<(Seq<char>, Seq<u8>)>) -> bool {
    exists|i: int| 0 <= i < es.len() && is_manifest_name(es[i].0)
}

/// The entries after the manifest replacement: every entry keeps its name;
/// the manifest entry's bytes become `mbytes`; every other entry keeps its
/// bytes exactly.
pub open spec fn spec_replace(es: Seq<(Seq<char>, Seq<u8>)>, mbytes: Seq<u8>) -> Seq<
    (Seq<char>, Seq<u8>),
> {
    es.map_values(
        |e: (Seq<char>, Seq<u8>)|
            if is_manifest_name(e.0) {
                (e.0, mbytes)
            } else {
                e
            },
    )
}

/// Compares an entry name against the fixed manifest entry name.
pub fn name_is_manifest(name: &String) -> (r: bool)
    ensures
        r == is_manifest_name(name@),
{
    let fixed: [u8; 12] = [112, 97, 99, 107, 97, 103, 101, 46, 106, 115, 111, 110];
    proof {
        assert(fixed@ =~= manifest_name_bytes());
    }
    bytes_eq(name.as_str().as_bytes(), fixed.as_slice())
}

/// Replaces the manifest entry's bytes with `manifest_bytes`, copying every
/// other entry through byte for byte.  Fails exactly when no entry is named
/// `package.json`.
pub fn replace_manifest_entry(pkg: ArchivePackage, manifest_bytes: &Vec<u8>) -> (r: Result<
    ArchivePackage,
    MigrateError,
>)
    ensures
        match r {
            Ok(q) => has_manifest(entries_view(pkg.entries@)) && entries_view(q.entries@)
                == spec_replace(entries_view(pkg.entries@), manifest_bytes@),
            Err(e) => e == MigrateError::ManifestMissing && !has_manifest(
                entries_view(pkg.entries@),
            ),
        },
{
    let ghost ev = entries_view(pkg.entries@);
    let mut out: Vec<ArchiveEntry> = Vec::new();
    let mut found = false;
    let mut i: usize = 0;
    while i < pkg.entries.len()
        invariant
            i <= pkg.entries@.len(),
            ev == entries_view(pkg.entries@),
            entries_view(out@) == spec_replace(ev.take(i as int), manifest_bytes@),
            found == has_manifest(ev.take(i as int)),
        decreases pkg.entries@.len() - i,
    {
        let name = pkg.entries[i].name.clone();
        let hit = name_is_manifest(&name);
        let data = if hit {
            found = true;
            copy_range(manifest_bytes, 0, manifest_bytes.len())
        } else {
            copy_range(&pkg.entries[i].data, 0, pkg.entries[i].data.len())
        };
        proof {
            assert(data@ =~= if is_manifest_name(ev[i as int].0) {
                manifest_bytes@
            } else {
                ev[i as int].1
            });
        }
        out.push(ArchiveEntry { name, data });
        proof {
            assert(ev.take(i + 1).drop_last() =~= ev.take(i as int));
            assert(ev.take(i + 1).last() == ev[i as int]);
            assert(entries_view(out@) =~= spec_replace(ev.take(i as int), manifest_bytes@).push(
                if is_manifest_name(ev[i as int].0) {
                    (ev[i as int].0, manifest_bytes@)
                } else {
                    ev[i as int]
                },
            ));
            assert(entries_view(out@) =~= spec_replace(ev.take(i + 1), manifest_bytes@));
            if has_manifest(ev.take(i + 1)) {
                let j = choose|j: int|
                    0 <= j < ev.take(i + 1).len() && #[trigger] is_manifest_name(
                        ev.take(i + 1)[j].0,
                    );
                if j < i {
                    assert(has_manifest(ev.take(i as int)));
                }
            }
            if found || is_manifest_name(ev[i as int].0) {
                if is_manifest_name(ev[i as int].0) {
                    assert(is_manifest_name(ev.take(i + 1)[i as int].0));
                } else {
                    let j = choose|j: int|
                        0 <= j < ev.take(i as int).len() && #[trigger] is_manifest_name(
                            ev.take(i as int)[j].0,
                        );
                    assert(is_manifest_name(ev.take(i + 1)[j].0));
                }
            }
        }
        i = i + 1;
    }
    proof {
        assert(ev.take(ev.len() as int) =~= ev);
    }
    if found {
        Ok(ArchivePackage { entries: out })
    } else {
        Err(MigrateError::ManifestMissing)
    }
}

/// Archive fidelity.  For any archive entries among which one is the
/// manifest, the transformation keeps the number of entries and every
/// entry's name; copies every non-manifest entry's bytes through
/// identically; and replaces each manifest entry's bytes with the mutated
/// manifest's serialization.  The mutation itself gives the manifest the
/// fresh identity and display name — values that differ from the input's —
/// clears the encryption flag, and preserves every other manifest key and
/// value byte for byte.
pub proof fn lemma_archive_fidelity(
    es: Seq<(Seq<char>, Seq<u8>)>,
    m: Manifest,
    new_id: String,
    new_name: String,
)
    requires
        has_manifest(es),
        new_id@ != m.identity@,
        new_name@ != m.display_name@,
    ensures
        spec_replace(es, manifest_json(spec_migrate(m, new_id, new_name))).len() == es.len(),
        forall|i: int|
            0 <= i < es.len() ==> spec_replace(
                es,
                manifest_json(spec_migrate(m, new_id, new_name)),
            )[i].0 == es[i].0,
        forall|i: int|
            0 <= i < es.len() && !is_manifest_name(#[trigger] es[i].0) ==> spec_replace(
                es,
                manifest_json(spec_migrate(m, new_id, new_name)),
            )[i].1 == es[i].1,
        forall|i: int|
            0 <= i < es.len() && is_manifest_name(#[trigger] es[i].0) ==> spec_replace(
                es,
                manifest_json(spec_migrate(m, new_id, new_name)),
            )[i].1 == manifest_json(spec_migrate(m, new_id, new_name)),
        spec_migrate(m, new_id, new_name).identity@ != m.identity@,
        spec_migrate(m, new_id, new_name).display_name@ != m.display_name@,
        !spec_migrate(m, new_id, new_name).encrypted,
        spec_migrate(m, new_id, new_name).extra == m.extra,
{
}

/// One file handed in from a directory walk: its path relative to the walk
/// root, in the platform's own spelling, as UTF-8 bytes, and its contents.
#[derive(Debug)]
pub struct FileEntry {
    pub path: Vec<u8>,
    pub data: Vec<u8>,
}

/// Path separators normalized: every backslash becomes a forward slash.
pub open spec fn normalize_sep(s: Seq<u8>) -> Seq<u8> {
    s.map_values(
        |b: u8|
            if b == 92 {
                47u8
            } else {
                b
            },
    )
}

/// Normalizes a relative path's separators.
pub fn normalize_path(p: &Vec<u8>) -> (r: Vec<u8>)
    ensures
        r@ == normalize_sep(p@),
{
    let mut out: Vec<u8> = Vec::new();
    let mut i: usize = 0;
    while i < p.len()
        invariant
            i <= p@.len(),
            out@ == normalize_sep(p@.take(i as int)),
        decreases p@.len() - i,
    {
        let b = p[i];
        out.push(if b == 92 {
            47
        } else {
            b
        });
        proof {
            assert(out@ =~= normalize_sep(p@.take(i + 1)));
        }
        i = i + 1;
    }
    proof {
        assert(p@.take(p@.len() as int) =~= p@);
    }
    out
}

/// What building an archive from a file list denotes: each file keeps its
/// normalized relative path as its entry name; the file whose normalized
/// path is `package.json` contributes `mbytes` instead of its own contents.
pub open spec fn build_view(files: Seq<(Seq<u8>, Seq<u8>)>, mbytes: Seq<u8>) -> Seq<
    (Seq<char>, Seq<u8>),
> {
    files.map_values(
        |f: (Seq<u8>, Seq<u8>)|
            (
                vstd::utf8::decode_utf8(normalize_sep(f.0)),
                if normalize_sep(f.0) == manifest_name_bytes() {
                    mbytes
                } else {
                    f.1
                },
            ),
    )
}

/// The raw (path, data) pairs of a file list.
pub open spec fn files_view(files: Seq<FileEntry>) -> Seq<(Seq<u8>, Seq<u8>)> {
    files.map_values(|f: FileEntry| (f.path@, f.data@))
}

/// Whether every normalized path in the list is valid UTF-8.
pub open spec fn all_paths_utf8(files: Seq<(Seq<u8>, Seq<u8>)>) -> bool {
    forall|i: int|
        0 <= i < files.len() ==> vstd::utf8::valid_utf8(#[trigger] normalize_sep(files[i].0))
}

/// Builds archive entries from the files of a directory walk, substituting
/// `manifest_bytes` for the `package.json` file's contents.  Fails exactly
/// when some normalized path is not valid UTF-8.
pub fn build_from_files(files: Vec<FileEntry>, manifest_bytes: &Vec<u8>) -> (r: Result<
    ArchivePackage,
    MigrateError,
>)
    ensures
        match r {
            Ok(q) => all_paths_utf8(files_view(files@)) && entries_view(q.entries@) == build_view(
                files_view(files@),
                manifest_bytes@,
            ),
            Err(e) => e == MigrateError::Io && !all_paths_utf8(files_view(files@)),
        },
{
    let ghost fv = files_view(files@);
    let mut out: Vec<ArchiveEntry> = Vec::new();
    let mut i: usize = 0;
    while i < files.len()
        invariant
            i <= files@.len(),
            fv == files_view(files@),
            all_paths_utf8(fv.take(i as int)),
            entries_view(out@) == build_view(fv.take(i as int), manifest_bytes@),
        decreases files@.len() - i,
    {
        let norm = normalize_path(&files[i].path);
        let name = match crate::mjson::bytes_to_string(norm) {
            None => {
                proof {
                    assert(!vstd::utf8::valid_utf8(normalize_sep(fv[i as int].0)));
                }
                return Err(MigrateError::Io);
            },
            Some(s) => s,
        };
        let fixed: [u8; 12] = [112, 97, 99, 107, 97, 103, 101, 46, 106, 115, 111, 110];
        proof {
            assert(fixed@ =~= manifest_name_bytes());
        }
        let is_m = bytes_eq(name.as_str().as_bytes(), fixed.as_slice());
        proof {
            vstd::utf8::decode_utf8_encode_utf8(norm@);
        }
        let data = if is_m {
            copy_range(manifest_bytes, 0, manifest_bytes.len())
        } else {
            copy_range(&files[i].data, 0, files[i].data.len())
        };
        proof {
            assert(fv[i as int] == (files@[i as int].path@, files@[i as int].data@));
            assert(norm@ == normalize_sep(fv[i as int].0));
            assert(name@ == vstd::utf8::decode_utf8(normalize_sep(fv[i as int].0)));
            assert(is_m == (normalize_sep(fv[i as int].0) == manifest_name_bytes()));
            assert(data@ == if normalize_sep(fv[i as int].0) == manifest_name_bytes() {
                manifest_bytes@
            } else {
                fv[i as int].1
            });
        }
        out.push(ArchiveEntry { name, data });
        proof {
            assert(fv.take(i + 1).drop_last() =~= fv.take(i as int));
            assert(fv.take(i + 1).last() == fv[i as int]);
            assert(entries_view(out@) =~= build_view(fv.take(i as int), manifest_bytes@).push(
                (
                    vstd::utf8::decode_utf8(normalize_sep(fv[i as int].0)),
                    if normalize_sep(fv[i as int].0) == manifest_name_bytes() {
                        manifest_bytes@
                    } else {
                        fv[i as int].1
                    },
                ),
            ));
            assert(entries_view(out@) =~= build_view(fv.take(i + 1), manifest_bytes@));
        }
        i = i + 1;
    }
    proof {
        assert(fv.take(fv.len() as int) =~= fv);
    }
    Ok(ArchivePackage { entries: out })
}

} // verus!
