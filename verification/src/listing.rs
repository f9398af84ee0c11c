//! Directory listings: one normalized metadata record per immediate child.
//!
//! The host layer enumerates a directory and hands over, for each child,
//! the raw facts it read (name, size, directory flag, modification time);
//! everything from there to the finished [`DirectoryEntry`] is verified.

use vstd::prelude::*;
use crate::errors::FsError;
use crate::paths::joined;
use crate::paths::join_under;
use crate::paths::lemma_joined_stays_under;
use crate::timefmt::CivilTime;
use crate::timefmt::civil_text;
use crate::timefmt::format_civil;
use crate::timefmt::local_civil_time;

verus! {

/// The index of the last `.` in `name`, or -1 when there is none.
pub open spec fn last_dot_index(name: Seq<char>) -> int
    decreases name.len(),
{
    if name.len() == 0 {
        -1
    } else if name[name.len() - 1] == '.' {
        name.len() - 1
    } else {
        last_dot_index(name.drop_last())
    }
}

/// The extension of an entry name: the text after the final `.`. A
/// directory never has one, an extensionless name has none, and a `.` that
/// leads the name (the hidden-file convention) does not begin one.
pub open spec fn spec_extension(name: Seq<char>, is_directory: bool) -> Option<Seq<char>> {
    if is_directory || last_dot_index(name) < 1 {
        None
    } else {
        Some(name.subrange(last_dot_index(name) + 1, name.len() as int))
    }
}

/// `last_dot_index` points at a `.` with no later `.`, when there is one.
pub proof fn lemma_last_dot_is_final(name: Seq<char>)
    ensures
        -1 <= last_dot_index(name) < name.len(),
        last_dot_index(name) >= 0 ==> {
            &&& last_dot_index(name) < name.len()
            &&& name[last_dot_index(name)] == '.'
            &&& forall|j: int| last_dot_index(name) < j < name.len() ==> name[j] != '.'
        },
        last_dot_index(name) < 0 ==> forall|j: int| 0 <= j < name.len() ==> name[j] != '.',
    decreases name.len(),
{
    if name.len() > 0 && name[name.len() - 1] != '.' {
        let dl = name.drop_last();
        lemma_last_dot_is_final(dl);
        assert(dl.len() == name.len() - 1);
        assert(last_dot_index(name) == last_dot_index(dl));
        assert(forall|j: int| 0 <= j < dl.len() ==> #[trigger] dl[j] == name[j]);
        assert forall|j: int| last_dot_index(name) < j < name.len() implies name[j] != '.' by {
            if j < name.len() - 1 {
                assert(dl[j] != '.');
            }
        }
        if last_dot_index(name) < 0 {
            assert forall|j: int| 0 <= j < name.len() implies name[j] != '.' by {
                if j < name.len() - 1 {
                    assert(dl[j] != '.');
                }
            }
        }
    }
}

/// A `.` at position `k` with no later `.` is the last dot.
pub proof fn lemma_last_dot_from_witness(name: Seq<char>, k: int)
    requires
        0 <= k < name.len(),
        name[k] == '.',
        forall|j: int| k < j < name.len() ==> name[j] != '.',
    ensures
        last_dot_index(name) == k,
    decreases name.len(),
{
    if k < name.len() - 1 {
        let dl = name.drop_last();
        assert(dl.len() == name.len() - 1);
        assert(forall|j: int| 0 <= j < dl.len() ==> #[trigger] dl[j] == name[j]);
        lemma_last_dot_from_witness(dl, k);
        assert(last_dot_index(name) == last_dot_index(dl));
    }
}

/// A name without any `.` has no last dot.
pub proof fn lemma_no_dot_no_extension(name: Seq<char>)
    requires
        forall|j: int| 0 <= j < name.len() ==> name[j] != '.',
    ensures
        last_dot_index(name) < 0,
    decreases name.len(),
{
    if name.len() > 0 {
        let dl = name.drop_last();
        assert(dl.len() == name.len() - 1);
        assert(forall|j: int| 0 <= j < dl.len() ==> #[trigger] dl[j] == name[j]);
        lemma_no_dot_no_extension(dl);
        assert(last_dot_index(name) == last_dot_index(dl));
    }
}

/// Computes the extension of an entry name, as [`spec_extension`] gives it.
pub fn extension_of(name: &str, is_directory: bool) -> (r: Option<String>)
    ensures
        r is Some <==> spec_extension(name@, is_directory) is Some,
        r matches Some(e) ==> e@ == spec_extension(name@, is_directory)->0,
{
    if is_directory {
        return None;
    }
    let n = name.unicode_len();
    let mut i: usize = n;
    while i > 0
        invariant
            !is_directory,
            n == name@.len(),
            i <= n,
            forall|j: int| i <= j < n ==> name@[j] != '.',
        decreases i,
    {
        let c = name.get_char(i - 1);
        if c == '.' {
            proof {
                lemma_last_dot_from_witness(name@, i - 1);
                assert(last_dot_index(name@) == i - 1);
            }
            if i - 1 == 0 {
                return None;
            }
            let ext = name.substring_char(i, n).to_owned();
            proof {
                assert(spec_extension(name@, is_directory) is Some);
                assert(spec_extension(name@, is_directory)->0 =~= name@.subrange(
                    i as int,
                    n as int,
                ));
                assert(ext@ == name@.subrange(i as int, n as int));
            }
            return Some(ext);
        }
        i -= 1;
    }
    proof {
        lemma_no_dot_no_extension(name@);
    }
    None
}

/// A usable child name: non-empty and a single path component, free of the
/// `/` separator, so that it really is the final component of the entry's
/// absolute path. Directory enumeration never yields anything else.
pub open spec fn valid_child_name(name: Seq<char>) -> bool {
    &&& name.len() > 0
    &&& forall|j: int| 0 <= j < name.len() ==> name[j] != '/'
}

/// Whether `s` is the normalized `YYYY-MM-DD HH:MM:SS` text of some
/// wall-clock time.
pub open spec fn is_timestamp_text(s: Seq<char>) -> bool {
    exists|t: CivilTime| t.wf() && 0 <= t.year <= 9999 && s == civil_text(t)
}

/// One immediate child of a listed directory, as a normalized metadata
/// record. Values are built fresh on every listing and never cached.
#[derive(Clone, Debug)]
pub struct DirectoryEntry {
    /// The final path component; never empty.
    pub name: String,
    /// The extension of `name`, as [`spec_extension`] gives it.
    pub extension: Option<String>,
    /// Byte length of the file's content; implementation-defined for
    /// directories (whatever size the host layer read for the entry).
    pub size_bytes: u64,
    /// Modification time as `YYYY-MM-DD HH:MM:SS` in the host's local zone.
    pub modified: String,
    /// Whether the child is itself a directory.
    pub is_directory: bool,
    /// The listed directory joined with `name`.
    pub absolute_path: String,
}

impl DirectoryEntry {
    /// The invariant tying an entry to the directory it was listed from and
    /// to the raw metadata the host layer read for it.
    pub open spec fn matches(self, dir: Seq<char>, name: Seq<char>, size: u64, is_directory: bool) -> bool {
        &&& self.name@ == name
        &&& valid_child_name(name)
        &&& self.extension.deep_view() == spec_extension(name, is_directory)
        &&& self.size_bytes == size
        &&& self.is_directory == is_directory
        &&& self.absolute_path@ == joined(dir, name)
        &&& is_timestamp_text(self.modified@)
    }
}

/// Raw per-child metadata exactly as the host layer read it: the final path
/// component, the byte size, the directory flag, and the modification time
/// as Unix seconds.
#[derive(Clone, Debug)]
pub struct ChildMeta {
    pub name: String,
    pub size_bytes: u64,
    pub is_directory: bool,
    pub modified_secs: i64,
}

/// Decides, from the two facts the host layer can observe about a listing
/// target, whether the listing may proceed: a missing path is reported
/// before a non-directory, and only a directory passes.
pub fn check_dir_target(path_exists: bool, path_is_directory: bool) -> (r: Result<(), FsError>)
    ensures
        !path_exists ==> r == Err::<(), FsError>(FsError::PathNotFound),
        path_exists && !path_is_directory ==> r == Err::<(), FsError>(FsError::NotADirectory),
        path_exists && path_is_directory ==> r == Ok::<(), FsError>(()),
{
    if !path_exists {
        Err(FsError::PathNotFound)
    } else if !path_is_directory {
        Err(FsError::NotADirectory)
    } else {
        Ok(())
    }
}

/// Builds the normalized record for one child of `dir` from already-fetched
/// wall-clock fields.
///
/// Succeeds exactly when the fields are in calendar range with a four-digit
/// year, and then every field of the record is pinned down — including the
/// modification text, which is exactly the normalized rendering of `t`.
pub fn build_entry(dir: &str, child: &ChildMeta, t: &CivilTime) -> (r: Result<
    DirectoryEntry,
    FsError,
>)
    requires
        valid_child_name(child.name@),
    ensures
        r is Ok <==> t.wf() && 0 <= t.year <= 9999,
        r matches Ok(e) ==> e.matches(dir@, child.name@, child.size_bytes, child.is_directory)
            && e.modified@ == civil_text(*t),
        r matches Err(e) ==> e == FsError::MetadataReadError,
{
    let modified = match format_civil(t) {
        Some(m) => m,
        None => {
            return Err(FsError::MetadataReadError);
        },
    };
    proof {
        assert(t.wf() && 0 <= t.year <= 9999 && modified@ == civil_text(*t));
        assert(is_timestamp_text(modified@));
    }
    let extension = extension_of(child.name.as_str(), child.is_directory);
    let absolute_path = join_under(dir, child.name.as_str());
    Ok(DirectoryEntry {
        name: child.name.clone(),
        extension,
        size_bytes: child.size_bytes,
        modified,
        is_directory: child.is_directory,
        absolute_path,
    })
}

/// Builds the normalized record for one child of `dir`, reading the child's
/// modification time in the host's local time zone.
///
/// Fails only with `MetadataReadError`, when the modification time has no
/// single local rendering in the fixed four-digit-year format.
pub fn entry_for_child(dir: &str, child: &ChildMeta) -> (r: Result<DirectoryEntry, FsError>)
    requires
        valid_child_name(child.name@),
    ensures
        r matches Ok(e) ==> e.matches(dir@, child.name@, child.size_bytes, child.is_directory),
        r matches Err(e) ==> e == FsError::MetadataReadError,
{
    match local_civil_time(child.modified_secs) {
        Some(t) => build_entry(dir, child, &t),
        None => Err(FsError::MetadataReadError),
    }
}

/// Builds the complete listing of `dir` from the children the host layer
/// enumerated, in enumeration order.
///
/// Either every child yields its record — position by position, with the
/// same name, size and directory flag, the extension rule applied, and the
/// absolute path joined under `dir` — or the whole listing fails with
/// `MetadataReadError`; no partial result is returned. A listing with no
/// children always succeeds: only a child's clock conversion can fail.
pub fn build_listing(dir: &str, children: &Vec<ChildMeta>) -> (r: Result<Vec<DirectoryEntry>, FsError>)
    requires
        forall|i: int| 0 <= i < children@.len() ==> valid_child_name(#[trigger] children@[i].name@),
    ensures
        children@.len() == 0 ==> r is Ok,
        r matches Ok(v) ==> {
            &&& v@.len() == children@.len()
            &&& forall|i: int| 0 <= i < v@.len() ==> (#[trigger] v@[i]).matches(
                dir@,
                children@[i].name@,
                children@[i].size_bytes,
                children@[i].is_directory,
            )
        },
        r matches Err(e) ==> e == FsError::MetadataReadError,
{
    let mut out: Vec<DirectoryEntry> = Vec::new();
    let mut i: usize = 0;
    while i < children.len()
        invariant
            i <= children@.len(),
            out@.len() == i,
            forall|k: int| 0 <= k < children@.len() ==> valid_child_name(
                #[trigger] children@[k].name@,
            ),
            forall|k: int| 0 <= k < i ==> (#[trigger] out@[k]).matches(
                dir@,
                children@[k].name@,
                children@[k].size_bytes,
                children@[k].is_directory,
            ),
        decreases children@.len() - i,
    {
        match entry_for_child(dir, &children[i]) {
            Ok(e) => {
                out.push(e);
            },
            Err(e) => {
                return Err(e);
            },
        }
        i += 1;
    }
    Ok(out)
}

/// Law: an entry listed for a directory child never carries an extension.
pub proof fn lemma_directory_entry_has_no_extension(name: Seq<char>)
    ensures
        spec_extension(name, true) is None,
{
}

/// Law: no entry of a listing lies outside the listed directory — its
/// absolute path is the directory's own text, then the separator, then the
/// entry's name, and nothing else; and the name really is the final path
/// component, with no separator inside it.
pub proof fn lemma_listing_entry_stays_under(
    e: DirectoryEntry,
    dir: Seq<char>,
    name: Seq<char>,
    size: u64,
    is_directory: bool,
)
    requires
        e.matches(dir, name, size, is_directory),
    ensures
        e.absolute_path@.len() == dir.len() + 1 + name.len(),
        e.absolute_path@.subrange(0, dir.len() as int) == dir,
        e.absolute_path@[dir.len() as int] == '/',
        e.absolute_path@.subrange(dir.len() + 1 as int, e.absolute_path@.len() as int) == name,
        forall|j: int| dir.len() + 1 <= j < e.absolute_path@.len() ==> e.absolute_path@[j] != '/',
{
    lemma_joined_stays_under(dir, name);
    assert forall|j: int|
        dir.len() + 1 <= j < e.absolute_path@.len() implies e.absolute_path@[j] != '/' by {
        assert(e.absolute_path@[j] == name[j - dir.len() - 1]);
    }
}

/// Law: when an extension is present, it is exactly the text after the
/// final `.` of the name — a `.` with no `.` after it, never the one that
/// leads a hidden-file name; and a name whose only `.` is the leading one
/// has no extension.
pub proof fn lemma_extension_after_final_dot(name: Seq<char>, is_directory: bool)
    ensures
        spec_extension(name, is_directory) matches Some(e) ==> {
            let d = last_dot_index(name);
            &&& 1 <= d < name.len()
            &&& name[d] == '.'
            &&& forall|j: int| d < j < name.len() ==> name[j] != '.'
            &&& e == name.subrange(d + 1, name.len() as int)
        },
        name.len() > 0 && name[0] == '.' && (forall|j: int| 1 <= j < name.len() ==> name[j] != '.')
            ==> spec_extension(name, is_directory) is None,
{
    lemma_last_dot_is_final(name);
    if name.len() > 0 && name[0] == '.' && (forall|j: int| 1 <= j < name.len() ==> name[j] != '.') {
        lemma_last_dot_from_witness(name, 0);
    }
}

} // verus!
