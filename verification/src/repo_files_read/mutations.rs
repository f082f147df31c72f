//! Building the entries of a ZIP archive of repository files.
use vstd::prelude::*;
use vstd::string::*;

use chrono::{Datelike, Timelike};

use crate::remote::RemoteError;
use crate::repo_files::state::{RepoFile, RepoFileName, RepoFileSize, RepoFileType};
use crate::repo_files_list::errors::FilesListRecursiveItemError;
use crate::repo_files_list::state::RepoFilesListRecursiveItem;
use crate::strings::{concat, copy_str};

use super::errors::GetFilesReaderError;
use super::state::{spec_default_zip_date_time, RemoteZipEntry, ZipDateTime};

verus! {

/// The year, month and day, in the proleptic Gregorian calendar, of the day
/// `z` days after 1970-01-01 (for `z` at least 0): days are counted in eras of
/// 400 years from 0000-03-01, so that the leap day ends each counted year.
pub open spec fn spec_civil_from_days(z: int) -> (int, int, int) {
    let z2 = z + 719468;
    let era = z2 / 146097;
    let doe = z2 - era * 146097;
    let yoe = (doe - doe / 1460 + doe / 36524 - doe / 146096) / 365;
    let y = yoe + era * 400;
    let doy = doe - (365 * yoe + yoe / 4 - yoe / 100);
    let mp = (5 * doy + 2) / 153;
    let d = doy - (153 * mp + 2) / 5 + 1;
    let m = if mp < 10 {
        mp + 3
    } else {
        mp - 9
    };
    (if m <= 2 {
        y + 1
    } else {
        y
    }, m, d)
}

/// The UTC year, month, day, hour, minute and second of a time given in
/// milliseconds since the epoch (for times from the epoch on).
pub open spec fn utc_date_time(millis: i64) -> (i32, u32, u32, u32, u32, u32) {
    let days = millis / 86400000;
    let secs = (millis / 1000) % 86400;
    let c = spec_civil_from_days(days as int);
    (
        c.0 as i32,
        c.1 as u32,
        c.2 as u32,
        (secs / 3600) as u32,
        ((secs % 3600) / 60) as u32,
        (secs % 60) as u32,
    )
}

/// The latest time, in milliseconds since the epoch, that chrono holds: the
/// end of the last day of its last year.
pub open spec fn max_millis() -> i64 {
    8210266876799999
}

/// Calls chrono's `DateTime::from_timestamp_millis` and reads the UTC date
/// and time of the result. For times from the epoch to `max_millis` chrono
/// gives a time (its dates end with the year `(i32::MAX >> 13) - 1`), whose
/// date is in the proleptic Gregorian calendar and whose parts are as
/// `utc_date_time` computes them.
#[verifier::external_body]
fn utc_parts(millis: i64) -> (r: Option<(i32, u32, u32, u32, u32, u32)>)
    ensures
        0 <= millis <= max_millis() ==> r == Some(utc_date_time(millis)),
{
    chrono::DateTime::from_timestamp_millis(millis).map(
        |dt| (dt.year(), dt.month(), dt.day(), dt.hour(), dt.minute(), dt.second()),
    )
}

/// The time before which archives store the earliest time they hold:
/// 1980-01-01 00:00:00 UTC.
pub open spec fn zip_epoch_millis() -> i64 {
    315532800000
}

/// The archive time of a time given in milliseconds since the epoch: its UTC
/// date and time, or the earliest time for times before 1980.
pub open spec fn spec_zip_date_time(millis: i64) -> ZipDateTime {
    if millis < zip_epoch_millis() {
        spec_default_zip_date_time()
    } else {
        let p = utc_date_time(millis);
        ZipDateTime { year: p.0, month: p.1, day: p.2, hour: p.3, minute: p.4, second: p.5 }
    }
}

pub fn zip_date_time_from_millis(millis: i64) -> (r: ZipDateTime)
    requires
        millis <= max_millis(),
    ensures
        r == spec_zip_date_time(millis),
{
    if millis < 315532800000 {
        return ZipDateTime::default_time();
    }
    match utc_parts(millis) {
        Some(p) => ZipDateTime { year: p.0, month: p.1, day: p.2, hour: p.3, minute: p.4, second: p.5 },
        None => ZipDateTime::default_time(),
    }
}

/// The bytes that the entries take in an archive, with its footer.
pub open spec fn spec_zip_size(entries: Seq<RemoteZipEntry>) -> int
    decreases entries.len(),
{
    if entries.len() == 0 {
        98
    } else {
        let e = entries.last();
        let name_len = (vstd::utf8::encode_utf8(e.filename@).len() as usize) as int;
        spec_zip_size(entries.drop_last()) + match e.typ {
            RepoFileType::Dir => 30 + name_len + 46 + name_len,
            RepoFileType::File => 66 + name_len + e.size + 66 + name_len,
        }
    }
}

/// The name length that an entry counts with.
pub open spec fn spec_zip_name_len(e: RemoteZipEntry) -> int {
    (vstd::utf8::encode_utf8(e.filename@).len() as usize) as int
}

/// Counting the entry `e` on top of the running total `s` stays within `i64`:
/// the bytes of its file record, and the total after its file record and after
/// its directory record.
pub open spec fn spec_zip_step_fits(s: int, e: RemoteZipEntry) -> bool {
    let n = spec_zip_name_len(e);
    match e.typ {
        RepoFileType::Dir => {
            &&& 46 + n <= i64::MAX
            &&& s + (30 + n) <= i64::MAX
            &&& s + (30 + n) + (46 + n) <= i64::MAX
        },
        RepoFileType::File => {
            &&& 66 + n <= i64::MAX
            &&& i64::MIN <= 66 + n + e.size <= i64::MAX
            &&& i64::MIN <= s + (66 + n + e.size) <= i64::MAX
            &&& i64::MIN <= s + (66 + n + e.size) + (66 + n) <= i64::MAX
        },
    }
}

/// Every running total of the count stays within `i64`.
pub open spec fn spec_zip_size_fits(entries: Seq<RemoteZipEntry>) -> bool {
    forall|i: int|
        0 <= i < entries.len() ==> spec_zip_step_fits(
            spec_zip_size(entries.take(i)),
            #[trigger] entries[i],
        )
}

/// How many bytes an archive of `entries` takes, for progress estimates.
pub fn zip_size_estimate(entries: &Vec<RemoteZipEntry>) -> (r: i64)
    requires
        spec_zip_size_fits(entries@),
    ensures
        r == spec_zip_size(entries@),
{
    let mut size: i64 = 98;
    let n = entries.len();
    let mut i: usize = 0;
    assert(entries@.take(0) =~= Seq::<RemoteZipEntry>::empty());
    while i < n
        invariant
            n == entries@.len(),
            i <= n,
            size == spec_zip_size(entries@.take(i as int)),
            spec_zip_size_fits(entries@),
        decreases n - i,
    {
        let entry = &entries[i];
        proof {
            assert(entries@.take(i + 1).drop_last() =~= entries@.take(i as int));
            assert(entries@.take(i + 1).last() == entries@[i as int]);
            assert(spec_zip_step_fits(spec_zip_size(entries@.take(i as int)), entries@[i as int]));
        }
        let name_len = entry.filename.as_str().len() as i64;
        match entry.typ {
            RepoFileType::Dir => {
                size = size + (30 + name_len);
                size = size + (46 + name_len);
            },
            RepoFileType::File => {
                size = size + (66 + name_len + entry.size);
                size = size + (66 + name_len);
            },
        }
        i = i + 1;
    }
    assert(entries@.take(n as int) =~= entries@);
    size
}

/// The entry of a decrypted file of a recursive listing, or nothing for an
/// entry to skip: the root, and files whose path or size was not decrypted.
pub open spec fn spec_item_entry(
    relative_repo_path: Seq<char>,
    file: RepoFile,
) -> Option<(Seq<char>, i64)> {
    if relative_repo_path == crate::paths::root_path() {
        None
    } else {
        match file.size {
            Some(RepoFileSize::DecryptError { .. }) => None,
            _ => Some(
                (
                    match file.typ {
                        RepoFileType::Dir => relative_repo_path.subrange(1, relative_repo_path.len() as int) + seq!['/'],
                        RepoFileType::File => relative_repo_path.subrange(1, relative_repo_path.len() as int),
                    },
                    match file.size {
                        Some(RepoFileSize::Decrypted { size }) => size,
                        _ => 0,
                    },
                ),
            ),
        }
    }
}

/// `e` is the archive entry of `file` named `filename` and sized `size`.
pub open spec fn spec_entry_of(e: RemoteZipEntry, file: RepoFile, filename: Seq<char>, size: i64) -> bool {
    &&& e.mount_id == file.mount_id
    &&& e.remote_path == file.remote_path
    &&& e.repo_id == file.repo_id
    &&& e.filename@ == filename
    &&& e.modified == spec_zip_date_time(
        match file.modified {
            Some(m) => m,
            None => 0,
        },
    )
    &&& e.typ == file.typ
    &&& e.size == size
}

/// Whether an item is a remote error, which ends a listing.
pub open spec fn is_remote_error(item: RepoFilesListRecursiveItem) -> bool {
    item matches RepoFilesListRecursiveItem::Error { error: FilesListRecursiveItemError::RemoteError(_), .. }
}

/// `es` are the archive entries of `items`, none of which is a remote error:
/// files whose path or size was not decrypted, entries whose name was not
/// decrypted and the root are left out.
pub open spec fn spec_entries_of(items: Seq<RepoFilesListRecursiveItem>, es: Seq<RemoteZipEntry>) -> bool
    decreases items.len(),
{
    if items.len() == 0 {
        es.len() == 0
    } else {
        match items.last() {
            RepoFilesListRecursiveItem::File { relative_repo_path: Ok(p), file } => match spec_item_entry(p@, file) {
                Some((filename, size)) => es.len() > 0 && spec_entry_of(es.last(), file, filename, size)
                    && spec_entries_of(items.drop_last(), es.drop_last()),
                None => spec_entries_of(items.drop_last(), es),
            },
            _ => spec_entries_of(items.drop_last(), es),
        }
    }
}

/// Whether the archive entries of `items` can be built: decrypted paths
/// start with '/', and times are within what chrono holds.
pub open spec fn items_well_formed(items: Seq<RepoFilesListRecursiveItem>) -> bool {
    forall|i: int| 0 <= i < items.len() ==> match #[trigger] items[i] {
        RepoFilesListRecursiveItem::File { relative_repo_path: Ok(p), file } => p@.len() > 0 && p@[0] == '/'
            && match file.modified {
            Some(m) => m <= max_millis(),
            None => true,
        },
        _ => true,
    }
}

/// The archive entry of one listed item, or `None` to skip it, or the remote
/// error that ends the listing.
fn item_to_entry(item: RepoFilesListRecursiveItem) -> (r: Result<Option<RemoteZipEntry>, RemoteError>)
    requires
        items_well_formed(seq![item]),
    ensures
        match item {
            RepoFilesListRecursiveItem::File { relative_repo_path: Ok(p), file } => match spec_item_entry(p@, file) {
                Some((filename, size)) => r matches Ok(Some(e)) && spec_entry_of(e, file, filename, size),
                None => r matches Ok(None),
            },
            RepoFilesListRecursiveItem::File { relative_repo_path: Err(_), .. } => r matches Ok(None),
            RepoFilesListRecursiveItem::Error { error: FilesListRecursiveItemError::DecryptFilenameError(_), .. } => r matches Ok(None),
            RepoFilesListRecursiveItem::Error { error: FilesListRecursiveItemError::RemoteError(e), .. } => r == Err::<
                Option<RemoteZipEntry>,
                RemoteError,
            >(e),
        },
{
    assert(seq![item][0] == item);
    match item {
        RepoFilesListRecursiveItem::File { relative_repo_path, file } => {
            let p = match relative_repo_path {
                Ok(p) => p,
                Err(_) => {
                    return Ok(None);
                },
            };
            if crate::paths::is_root(p.as_str()) {
                return Ok(None);
            }
            let size = match &file.size {
                Some(RepoFileSize::Decrypted { size }) => *size,
                Some(RepoFileSize::DecryptError { .. }) => {
                    return Ok(None);
                },
                None => 0,
            };
            let n = p.unicode_len();
            let rest = copy_str(p.as_str().substring_char(1, n));
            assert(rest@ == p@.subrange(1, p@.len() as int));
            let filename = match file.typ {
                RepoFileType::Dir => {
                    let f = concat(rest.as_str(), "/");
                    proof {
                        reveal_strlit("/");
                        assert(f@ == p@.subrange(1, p@.len() as int) + seq!['/']);
                    }
                    f
                },
                RepoFileType::File => rest,
            };
            let modified = zip_date_time_from_millis(
                match file.modified {
                    Some(m) => m,
                    None => 0,
                },
            );
            Ok(
                Some(
                    RemoteZipEntry {
                        mount_id: file.mount_id,
                        remote_path: file.remote_path,
                        repo_id: file.repo_id,
                        filename,
                        modified,
                        typ: file.typ,
                        size,
                    },
                ),
            )
        },
        RepoFilesListRecursiveItem::Error { error, .. } => match error {
            FilesListRecursiveItemError::DecryptFilenameError(_) => Ok(None),
            FilesListRecursiveItemError::RemoteError(e) => Err(e),
        },
    }
}

/// The archive entries of the items of a recursive listing (see
/// `spec_entries_of`); the first remote error fails the whole.
pub fn list_recursive_items_to_remote_zip_entries(items: Vec<RepoFilesListRecursiveItem>) -> (r: Result<
    Vec<RemoteZipEntry>,
    RemoteError,
>)
    requires
        items_well_formed(items@),
    ensures
        match r {
            Ok(es) => (forall|i: int| 0 <= i < items@.len() ==> !is_remote_error(#[trigger] items@[i]))
                && spec_entries_of(items@, es@),
            Err(e) => exists|i: int|
                0 <= i < items@.len() && (forall|j: int| 0 <= j < i ==> !is_remote_error(#[trigger] items@[j]))
                    && (#[trigger] items@[i] matches RepoFilesListRecursiveItem::Error {
                    error: FilesListRecursiveItemError::RemoteError(x),
                    ..
                } && x == e),
        },
{
    let ghost all = items@;
    let mut entries: Vec<RemoteZipEntry> = Vec::new();
    let n = items.len();
    let mut rev = crate::seq_facts::reversed(items);
    let mut k: usize = 0;
    assert(all.take(0) =~= Seq::<RepoFilesListRecursiveItem>::empty());
    while k < n
        invariant
            n == all.len(),
            k <= n,
            all == items@,
            rev@ == all.skip(k as int).reverse(),
            items_well_formed(all),
            forall|j: int| 0 <= j < k ==> !is_remote_error(#[trigger] all[j]),
            spec_entries_of(all.take(k as int), entries@),
        decreases n - k,
    {
        proof {
            assert(all.skip(k as int).len() > 0);
            assert(rev@.len() > 0);
        }
        let item = rev.pop().unwrap();
        let ghost it = item;
        proof {
            assert(it == all[k as int]) by {
                assert(all.skip(k as int).reverse().last() == all.skip(k as int)[0]);
            }
            assert(rev@ =~= all.skip(k + 1).reverse());
            assert(seq![item][0] == item);
            assert(items_well_formed(seq![item]));
            assert(all.take(k + 1).drop_last() =~= all.take(k as int));
            assert(all.take(k + 1).last() == it);
        }
        match item_to_entry(item) {
            Ok(Some(e)) => {
                let ghost before = entries@;
                entries.push(e);
                proof {
                    assert(entries@.drop_last() =~= before);
                }
            },
            Ok(None) => {},
            Err(err) => {
                proof {
                    assert(all[k as int] matches RepoFilesListRecursiveItem::Error {
                        error: FilesListRecursiveItemError::RemoteError(x),
                        ..
                    } && x == err);
                    assert(forall|j: int| 0 <= j < k ==> !is_remote_error(#[trigger] all[j]));
                    assert(all == items@);
                    assert(exists|i: int|
                        0 <= i < items@.len() && (forall|j: int| 0 <= j < i ==> !is_remote_error(#[trigger] items@[j]))
                            && (#[trigger] items@[i] matches RepoFilesListRecursiveItem::Error {
                            error: FilesListRecursiveItemError::RemoteError(x),
                            ..
                        } && x == err));
                }
                return Err(err);
            },
        }
        k = k + 1;
    }
    proof {
        assert(all.take(n as int) =~= all);
    }
    Ok(entries)
}

/// The archive entry of one decrypted file: named by its decrypted name.
pub fn file_to_remote_zip_entry(file: &RepoFile) -> (r: Result<RemoteZipEntry, GetFilesReaderError>)
    requires
        match file.modified {
            Some(m) => m <= max_millis(),
            None => true,
        },
    ensures
        match (file.name, file.size) {
            (RepoFileName::DecryptError { error, .. }, _) => r == Err::<RemoteZipEntry, GetFilesReaderError>(
                GetFilesReaderError::DecryptFilenameError(error),
            ),
            (RepoFileName::Decrypted { .. }, Some(RepoFileSize::DecryptError { error, .. })) => r == Err::<
                RemoteZipEntry,
                GetFilesReaderError,
            >(GetFilesReaderError::DecryptSizeError(error)),
            (RepoFileName::Decrypted { name, .. }, size) => r matches Ok(e) && spec_entry_of(
                e,
                *file,
                name@,
                match size {
                    Some(RepoFileSize::Decrypted { size }) => size,
                    _ => 0,
                },
            ),
        },
{
    let filename = match file.decrypted_name() {
        Ok(n) => n.clone(),
        Err(e) => {
            return Err(GetFilesReaderError::DecryptFilenameError(e));
        },
    };
    let size = match file.decrypted_size() {
        Ok(Some(s)) => s,
        Ok(None) => 0,
        Err(e) => {
            return Err(GetFilesReaderError::DecryptSizeError(e));
        },
    };
    Ok(
        RemoteZipEntry {
            mount_id: file.mount_id.clone(),
            remote_path: file.remote_path.clone(),
            repo_id: file.repo_id.clone(),
            filename,
            modified: zip_date_time_from_millis(
                match file.modified {
                    Some(m) => m,
                    None => 0,
                },
            ),
            typ: file.typ,
            size,
        },
    )
}

} // verus!
