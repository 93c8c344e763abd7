//! Reading the bundled archive: only flat entries (no directory, no path separator) are
//! taken out, which keeps every extracted file directly inside the target folder.

use vstd::prelude::*;
use std::io::Cursor;
use zip::ZipArchive;
use zip::result::ZipError;
use crate::error::PackError;
use crate::text::{positions_where, views};

verus! {

#[verifier::external_type_specification]
#[verifier::external_body]
#[verifier::reject_recursive_types(R)]
pub struct ExZipArchive<R>(ZipArchive<R>);

#[verifier::external_type_specification]
#[verifier::external_body]
#[verifier::reject_recursive_types(T)]
pub struct ExCursor<T>(Cursor<T>);

#[verifier::external_type_specification]
#[verifier::external_body]
pub struct ExZipError(ZipError);

/// What an opened archive holds: for each entry of its central directory, in order, the
/// entry's name and its decompressed contents (`None` when they cannot be read).
pub uninterp spec fn zip_entries(a: ZipArchive<Cursor<Vec<u8>>>) -> Seq<(Seq<char>, Option<Seq<u8>>)>;

/// The entry names that the archive reader finds in `data`, or `None` when it rejects them.
pub uninterp spec fn zip_listing(data: Seq<u8>) -> Option<Seq<Seq<char>>>;

/// The entry names of an opened archive.
pub open spec fn entry_names(a: ZipArchive<Cursor<Vec<u8>>>) -> Seq<Seq<char>> {
    zip_entries(a).map_values(|e: (Seq<char>, Option<Seq<u8>>)| e.0)
}

/// Relies on `zip::ZipArchive::new`: it parses the central directory of the in-memory
/// bytes, a function of those bytes alone.
#[verifier::external_body]
fn open_zip(data: Vec<u8>) -> (r: Result<ZipArchive<Cursor<Vec<u8>>>, ZipError>)
    ensures
        r is Ok <==> zip_listing(data@) is Some,
        r is Ok ==> entry_names(r->Ok_0) == zip_listing(data@)->Some_0,
{
    ZipArchive::new(Cursor::new(data))
}

/// Relies on `zip::ZipArchive::len`: the number of entries.
#[verifier::external_body]
fn entry_count(a: &ZipArchive<Cursor<Vec<u8>>>) -> (r: usize)
    ensures
        r == zip_entries(*a).len(),
{
    a.len()
}

/// Relies on `zip::ZipArchive::name_for_index`: the name of entry `i`, present for every
/// index below the number of entries.
#[verifier::external_body]
fn entry_name(a: &ZipArchive<Cursor<Vec<u8>>>, i: usize) -> (r: Option<String>)
    requires
        i < zip_entries(*a).len(),
    ensures
        r is Some,
        r->Some_0@ == zip_entries(*a)[i as int].0,
{
    a.name_for_index(i).map(String::from)
}

/// Relies on `zip::ZipArchive::by_index` and the `Read` impl of the entry it returns:
/// the decompressed contents of entry `i`. The entry is located from the central
/// directory on every call, so what the archive holds does not change.
#[verifier::external_body]
fn read_entry(a: &mut ZipArchive<Cursor<Vec<u8>>>, i: usize) -> (r: Result<Vec<u8>, ZipError>)
    requires
        i < zip_entries(*old(a)).len(),
    ensures
        zip_entries(*final(a)) == zip_entries(*old(a)),
        r is Ok <==> zip_entries(*old(a))[i as int].1 is Some,
        r is Ok ==> r->Ok_0@ == zip_entries(*old(a))[i as int].1->Some_0,
{
    let mut entry = a.by_index(i)?;
    let mut bytes = Vec::new();
    std::io::Read::read_to_end(&mut entry, &mut bytes)?;
    Ok(bytes)
}

/// Whether an entry name is flat: no `/` (so no directory) and no `\`.
pub open spec fn is_flat_name(s: Seq<char>) -> bool {
    forall|i: int| 0 <= i < s.len() ==> s[i] != '/' && s[i] != '\\'
}

/// Positions of the flat names in `names`.
pub open spec fn flat_positions(names: Seq<Seq<char>>) -> Seq<int> {
    positions_where(names, |s: Seq<char>| is_flat_name(s))
}

/// A file taken out of the archive.
#[derive(Debug, Clone, PartialEq, Eq)]
pub struct ArchiveFile {
    pub name: String,
    pub contents: Vec<u8>,
}

/// Whether the entry name `name` is flat.
pub fn is_flat_entry_name(name: &str) -> (r: bool)
    ensures
        r == is_flat_name(name@),
{
    let n = name.unicode_len();
    let mut i: usize = 0;
    while i < n
        invariant
            n == name@.len(),
            i <= n,
            forall|j: int| 0 <= j < i ==> name@[j] != '/' && name@[j] != '\\',
        decreases n - i,
    {
        let c = name.get_char(i);
        if c == '/' || c == '\\' {
            return false;
        }
        i = i + 1;
    }
    true
}

/// Positions, in order, of the flat names among `names`.
pub fn select_flat_entries(names: &Vec<String>) -> (r: Vec<usize>)
    ensures
        r@.map_values(|i: usize| i as int) == flat_positions(views(names@)),
{
    let ghost all = views(names@);
    let mut r: Vec<usize> = Vec::new();
    let mut i: usize = 0;
    assert(all.take(0) =~= Seq::<Seq<char>>::empty());
    while i < names.len()
        invariant
            i <= names.len(),
            all == views(names@),
            r@.map_values(|i: usize| i as int) == flat_positions(all.take(i as int)),
        decreases names.len() - i,
    {
        let keep = is_flat_entry_name(names[i].as_str());
        proof {
            assert(all.take(i + 1).drop_last() =~= all.take(i as int));
            assert(all.take(i + 1).last() == names@[i as int]@);
        }
        if keep {
            r.push(i);
            assert(r@.map_values(|i: usize| i as int) =~= flat_positions(all.take(i as int)).push(i as int));
        }
        i = i + 1;
    }
    assert(all.take(i as int) =~= all);
    r
}

/// Opens the archive held in `data`.
pub fn open_archive(data: Vec<u8>) -> (r: Result<ZipArchive<Cursor<Vec<u8>>>, PackError>)
    ensures
        r is Ok <==> zip_listing(data@) is Some,
        r matches Ok(a) ==> entry_names(a) == zip_listing(data@)->Some_0,
        r matches Err(e) ==> e == PackError::CorruptArchive,
{
    match open_zip(data) {
        Ok(a) => Ok(a),
        Err(_) => Err(PackError::CorruptArchive),
    }
}

/// Every entry name of `archive`, in order.
pub fn archive_entry_names(archive: &ZipArchive<Cursor<Vec<u8>>>) -> (r: Vec<String>)
    ensures
        views(r@) == entry_names(*archive),
{
    let n = entry_count(archive);
    let mut r: Vec<String> = Vec::new();
    let mut i: usize = 0;
    while i < n
        invariant
            n == zip_entries(*archive).len(),
            i <= n,
            views(r@) == entry_names(*archive).take(i as int),
        decreases n - i,
    {
        let name = entry_name(archive, i).unwrap();
        let ghost nm = name@;
        assert(nm == entry_names(*archive)[i as int]);
        let ghost before = r@;
        r.push(name);
        assert(views(r@) =~= views(before).push(nm));
        assert(views(r@) =~= entry_names(*archive).take(i + 1));
        i = i + 1;
    }
    assert(entry_names(*archive).take(n as int) =~= entry_names(*archive));
    r
}

/// Takes the flat entries out of `archive`, in order, each with its decompressed
/// contents. Fails on the first flat entry whose contents cannot be read.
pub fn extract_flat_files(archive: &mut ZipArchive<Cursor<Vec<u8>>>) -> (r: Result<Vec<ArchiveFile>, PackError>)
    ensures
        zip_entries(*final(archive)) == zip_entries(*old(archive)),
        ({
            let es = zip_entries(*old(archive));
            let ps = flat_positions(entry_names(*old(archive)));
            &&& r is Ok <==> forall|k: int| 0 <= k < ps.len() ==> (#[trigger] es[ps[k]]).1 is Some
            &&& r matches Ok(files) ==> {
                &&& files.len() == ps.len()
                &&& forall|k: int|
                    0 <= k < ps.len() ==> (#[trigger] files@[k]).name@ == es[ps[k]].0 && files@[k].contents@
                        == es[ps[k]].1->Some_0
            }
            &&& r matches Err(e) ==> exists|k: int|
                0 <= k < ps.len() && (#[trigger] es[ps[k]]).1 is None && (forall|j: int|
                    0 <= j < k ==> (#[trigger] es[ps[j]]).1 is Some) && e == PackError::UnreadableEntry {
                    name: e->name,
                } && e->name@ == es[ps[k]].0
        }),
{
    let ghost es = zip_entries(*archive);
    let names = archive_entry_names(archive);
    let picked = select_flat_entries(&names);
    let ghost ps = flat_positions(entry_names(*archive));
    proof {
        crate::text::lemma_positions_where(views(names@), |s: Seq<char>| is_flat_name(s));
    }
    assert(ps == picked@.map_values(|i: usize| i as int));
    let mut files: Vec<ArchiveFile> = Vec::new();
    let mut k: usize = 0;
    while k < picked.len()
        invariant
            zip_entries(*archive) == es,
            es == zip_entries(*old(archive)),
            views(names@) == entry_names(*old(archive)),
            es.len() == names.len(),
            ps == picked@.map_values(|i: usize| i as int),
            ps == flat_positions(views(names@)),
            forall|j: int| 0 <= j < ps.len() ==> 0 <= #[trigger] ps[j] < names.len(),
            k <= picked.len(),
            files.len() == k,
            forall|j: int| 0 <= j < k ==> (#[trigger] es[ps[j]]).1 is Some,
            forall|j: int|
                0 <= j < k ==> (#[trigger] files@[j]).name@ == es[ps[j]].0 && files@[j].contents@ == es[ps[j]].1->Some_0,
        decreases picked.len() - k,
    {
        let i = picked[k];
        assert(ps[k as int] == i as int);
        assert(views(names@)[i as int] == names@[i as int]@);
        assert(entry_names(*old(archive))[i as int] == es[i as int].0);
        match read_entry(archive, i) {
            Ok(contents) => {
                files.push(ArchiveFile { name: names[i].clone(), contents });
            },
            Err(_) => {
                let e = PackError::UnreadableEntry { name: names[i].clone() };
                assert(es[ps[k as int]].1 is None);
                return Err(e);
            },
        }
        k = k + 1;
    }
    Ok(files)
}

} // verus!
