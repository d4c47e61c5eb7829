//! Reading native archives: the zip container is read through trusted
//! wrappers, and the extraction plan — which entries survive the
//! exclusion prefixes, under which names, with which contents — is
//! computed by verified code.

use vstd::prelude::*;

use crate::versions::{Error, ErrorV, spec_file_included, entry_included};

verus! {

#[verifier::external_type_specification]
#[verifier::external_body]
#[verifier::reject_recursive_types(R)]
pub struct ExZipArchive<R>(zip::read::ZipArchive<R>);

#[verifier::external_type_specification]
#[verifier::external_body]
#[verifier::reject_recursive_types(T)]
pub struct ExCursor<T>(std::io::Cursor<T>);

/// The stored entry names of the archive the bytes encode, in
/// directory order.
pub uninterp spec fn spec_archive_names(data: Seq<u8>) -> Seq<Seq<char>>;

/// The decompressed entry contents of the archive the bytes encode,
/// in directory order.
pub uninterp spec fn spec_archive_data(data: Seq<u8>) -> Seq<Seq<u8>>;

/// Whether the reader accepts the bytes as an archive.  The reader
/// works over the bytes alone, so its success is a function of them.
pub uninterp spec fn spec_archive_wellformed(data: Seq<u8>) -> bool;

/// Whether the entry at the index reads back successfully: its data
/// decompresses without error and needs no password.  Like the parse
/// itself, this is a function of the bytes and the index.
pub uninterp spec fn spec_entry_readable(data: Seq<u8>, i: int) -> bool;

/// A native archive opened for reading.
pub struct NativeArchive {
    inner: zip::read::ZipArchive<std::io::Cursor<Vec<u8>>>,
}

/// The bytes an opened archive was opened from.
pub uninterp spec fn archive_bytes(a: NativeArchive) -> Seq<u8>;

/// Relies on `zip::read::ZipArchive::new` over an in-memory reader:
/// parsing the directory is deterministic in the bytes and succeeds
/// exactly on well-formed archives.  An archive pairs one content
/// with each name.
#[verifier::external_body]
fn open_archive(data: &Vec<u8>) -> (r: Result<NativeArchive, String>)
    ensures
        r is Ok <==> spec_archive_wellformed(data@),
        ({
            match r {
                Result::Ok(a) => archive_bytes(a) == data@ && spec_archive_names(data@).len()
                    == spec_archive_data(data@).len(),
                Result::Err(_) => true,
            }
        }),
{
    match zip::read::ZipArchive::new(std::io::Cursor::new(data.clone())) {
        Result::Ok(z) => Result::Ok(NativeArchive { inner: z }),
        Result::Err(e) => Result::Err(format!("{}", e)),
    }
}

/// Relies on `zip::read::ZipArchive::len`: the number of entries in
/// the archive's directory.
#[verifier::external_body]
fn archive_len(a: &NativeArchive) -> (n: usize)
    ensures
        n == spec_archive_names(archive_bytes(*a)).len(),
{
    a.inner.len()
}

/// Relies on `zip::read::ZipArchive::by_index_decrypt` (with an empty
/// password, so an encrypted or cryptographically mislabeled entry
/// reports an error rather than panicking) and `Read::read_to_end`:
/// the entry at the index carries its stored name and decompresses to
/// its contents.  Over an in-memory reader, success is deterministic
/// in the bytes and the index.
#[verifier::external_body]
fn read_entry(a: &mut NativeArchive, i: usize) -> (r: Result<(String, Vec<u8>), String>)
    requires
        i < spec_archive_names(archive_bytes(*old(a))).len(),
    ensures
        archive_bytes(*final(a)) == archive_bytes(*old(a)),
        r is Ok <==> spec_entry_readable(archive_bytes(*old(a)), i as int),
        ({
            match r {
                Result::Ok(e) => e.0@ == spec_archive_names(archive_bytes(*old(a)))[i as int]
                    && e.1@ == spec_archive_data(archive_bytes(*old(a)))[i as int],
                Result::Err(_) => true,
            }
        }),
{
    match a.inner.by_index_decrypt(i, b"") {
        Result::Ok(Result::Ok(mut f)) => {
            let name = f.name().to_owned();
            let mut buf: Vec<u8> = Vec::new();
            match std::io::Read::read_to_end(&mut f, &mut buf) {
                Result::Ok(_) => Result::Ok((name, buf)),
                Result::Err(e) => Result::Err(format!("{}", e)),
            }
        },
        Result::Ok(Result::Err(e)) => Result::Err(format!("{}", e)),
        Result::Err(e) => Result::Err(format!("{}", e)),
    }
}

/// The entries surviving extraction from position `i` on: each entry
/// whose name matches no exclusion prefix, paired with its contents,
/// in archive order.
pub open spec fn spec_extract_plan_from(
    names: Seq<Seq<char>>,
    data: Seq<Seq<u8>>,
    excluded: Seq<Seq<char>>,
    i: int,
) -> Seq<(Seq<char>, Seq<u8>)>
    decreases names.len() - i when 0 <= i
{
    if i >= names.len() {
        Seq::empty()
    } else {
        let head: Seq<(Seq<char>, Seq<u8>)> = if spec_file_included(names[i], excluded) {
            seq![(names[i], data[i])]
        } else {
            Seq::empty()
        };
        head + spec_extract_plan_from(names, data, excluded, i + 1)
    }
}

/// The entries extraction of an archive yields under a set of
/// exclusion prefixes.
pub open spec fn spec_extract_plan(data: Seq<u8>, excluded: Seq<Seq<char>>) -> Seq<
    (Seq<char>, Seq<u8>),
> {
    spec_extract_plan_from(spec_archive_names(data), spec_archive_data(data), excluded, 0)
}

/// Every entry of the archive the bytes encode reads back
/// successfully.
pub open spec fn spec_all_entries_readable(data: Seq<u8>) -> bool {
    forall|i: int|
        0 <= i < spec_archive_names(data).len() ==> #[trigger] spec_entry_readable(data, i)
}

/// Compute one archive's extraction plan: every entry whose name
/// starts with none of the exclusion prefixes, with its contents, in
/// archive order.  Succeeds exactly when the bytes are a well-formed
/// archive and every entry reads back; otherwise fails with the
/// reader's report.
pub fn extract_archive_entries(data: &Vec<u8>, excluded: &Vec<String>) -> (r: Result<
    Vec<(String, Vec<u8>)>,
    Error,
>)
    ensures
        r is Ok <==> spec_archive_wellformed(data@) && spec_all_entries_readable(data@),
        ({
            match r {
                Result::Ok(entries) => entries.deep_view() == spec_extract_plan(
                    data@,
                    excluded.deep_view(),
                ),
                Result::Err(e) => e.deep_view() is ArchiveReadError,
            }
        }),
{
    let mut archive = match open_archive(data) {
        Result::Err(m) => {
            return Result::Err(Error::ArchiveReadError(m));
        },
        Result::Ok(a) => a,
    };
    let ghost names = spec_archive_names(data@);
    let ghost contents = spec_archive_data(data@);
    let ghost exv = excluded.deep_view();
    let n = archive_len(&archive);
    let mut out: Vec<(String, Vec<u8>)> = Vec::new();
    let mut i: usize = 0;
    proof {
        assert(out.deep_view() + spec_extract_plan_from(names, contents, exv, 0)
            =~= spec_extract_plan_from(names, contents, exv, 0));
    }
    while i < n
        invariant
            n == names.len(),
            i <= n,
            names == spec_archive_names(data@),
            contents == spec_archive_data(data@),
            names.len() == contents.len(),
            exv == excluded.deep_view(),
            archive_bytes(archive) == data@,
            spec_archive_wellformed(data@),
            forall|j: int| 0 <= j < i ==> #[trigger] spec_entry_readable(data@, j),
            spec_extract_plan_from(names, contents, exv, 0) == out.deep_view()
                + spec_extract_plan_from(names, contents, exv, i as int),
        decreases n - i,
    {
        let entry = match read_entry(&mut archive, i) {
            Result::Err(m) => {
                return Result::Err(Error::ArchiveReadError(m));
            },
            Result::Ok(e) => e,
        };
        proof {
            assert(entry.1.deep_view() =~= entry.1@);
        }
        if entry_included(excluded, entry.0.as_str()) {
            let ghost prev = out.deep_view();
            let ghost ev = (entry.0@, entry.1@);
            proof {
                assert(entry.deep_view() == ev);
            }
            out.push(entry);
            proof {
                assert(out.deep_view() =~= prev.push(ev));
            }
        }
        i = i + 1;
        proof {
            assert(spec_extract_plan_from(names, contents, exv, 0) =~= out.deep_view()
                + spec_extract_plan_from(names, contents, exv, i as int));
        }
    }
    proof {
        assert(spec_extract_plan_from(names, contents, exv, n as int) =~= Seq::<
            (Seq<char>, Seq<u8>),
        >::empty());
        assert(out.deep_view() =~= spec_extract_plan_from(names, contents, exv, 0));
    }
    Result::Ok(out)
}

/// Every name in an extraction plan escapes every exclusion prefix.
pub proof fn lemma_extract_plan_excludes(
    names: Seq<Seq<char>>,
    data: Seq<Seq<u8>>,
    excluded: Seq<Seq<char>>,
    i: int,
)
    requires
        0 <= i,
    ensures
        forall|k: int|
            0 <= k < spec_extract_plan_from(names, data, excluded, i).len() ==> spec_file_included(
                #[trigger] spec_extract_plan_from(names, data, excluded, i)[k].0,
                excluded,
            ),
    decreases names.len() - i,
{
    if i < names.len() {
        lemma_extract_plan_excludes(names, data, excluded, i + 1);
        let rest = spec_extract_plan_from(names, data, excluded, i + 1);
        let cur = spec_extract_plan_from(names, data, excluded, i);
        assert forall|k: int| 0 <= k < cur.len() implies spec_file_included(
            cur[k].0,
            excluded,
        ) by {
            if spec_file_included(names[i], excluded) {
                if k == 0 {
                    assert(cur[k] == (names[i], data[i]));
                } else {
                    assert(cur[k] == rest[k - 1]);
                }
            } else {
                assert(cur[k] == rest[k]);
            }
        }
    }
}

} // verus!
