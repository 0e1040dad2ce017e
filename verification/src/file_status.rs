//! Locating the data files of an analysis stage and reading their
//! modification metadata.
//!
//! Enumeration is tolerant below the scan root: entries deeper in the walk
//! that fail to match or to be read are skipped, and zero matches is a
//! valid (empty) outcome. Two conditions are fatal: a pattern that cannot
//! be interpreted at all, and a scan root that exists but cannot be walked
//! — the latter is kept distinct from the zero-match success.

use vstd::prelude::*;

use chrono::{Datelike, Timelike};

use crate::timestamp::{ctime_str, render_ctime, Timestamp};

verus! {

/// The fatal discovery failures.
#[derive(Debug, PartialEq, Eq)]
pub enum InventoryError {
    /// The combined directory-and-pattern expression could not be
    /// interpreted as a glob pattern.
    InvalidPattern,
    /// The stage's root directory could not be walked (e.g. permission
    /// denied); holds that root as the walk reported it.
    InaccessiblePath(String),
}

/// A single artifact: a path that named an existing regular file when the
/// record was constructed, and the file's last-modified instant.
#[derive(Debug)]
pub struct ExperimentFile {
    /// The path the file was discovered under.
    pub path: String,
    /// The file's last-modified instant.
    pub modified: Timestamp,
}

/// What `std::path::Path::parent` yields for a path: the path without its
/// final component, or nothing for an empty path or a bare root.
pub uninterp spec fn parent_path_of(path: Seq<char>) -> Option<Seq<char>>;

/// Whether a glob pattern text is valid: what decides between `Ok` and
/// `Err` in `glob::glob`, a function of the pattern text alone.
pub uninterp spec fn glob_ok(pattern: Seq<char>) -> bool;

/// Relies on `glob::glob`: errs exactly when the pattern text is invalid —
/// a function of the text alone, named [`glob_ok`]. On a valid pattern it
/// yields the matched paths the walk could read (in walk order) together
/// with the paths of the entries it could not read; paths that are not
/// valid UTF-8 are skipped.
#[verifier::external_body]
fn glob_candidates(pattern: &str) -> (r: Option<(Vec<String>, Vec<String>)>)
    ensures
        r is Some <==> glob_ok(pattern@),
{
    let paths = match glob::glob(pattern) {
        Ok(p) => p,
        Err(_) => return None,
    };
    let mut found: Vec<String> = Vec::new();
    let mut failed: Vec<String> = Vec::new();
    for entry in paths {
        match entry {
            Ok(p) => if let Some(s) = p.to_str() { found.push(s.to_owned()) },
            Err(e) => failed.push(e.path().display().to_string()),
        }
    }
    Some((found, failed))
}

/// Relies on `std::path::Path::metadata`, `Metadata::modified` and
/// `Duration`'s accessors: the last-modified time of the path when it
/// names a readable regular file, as a whole-second and nanosecond
/// distance from the unix epoch plus its direction (`true`: before the
/// epoch). A `Duration`'s nanosecond part is documented below one billion.
#[verifier::external_body]
fn system_mtime(path: &str) -> (r: Option<(bool, u64, u32)>)
    ensures
        r matches Some(t) ==> t.2 < 1_000_000_000,
{
    let md = std::path::Path::new(path).metadata().ok()?;
    if !md.is_file() {
        return None;
    }
    match md.modified().ok()?.duration_since(std::time::UNIX_EPOCH) {
        Ok(d) => Some((false, d.as_secs(), d.subsec_nanos())),
        Err(e) => Some((true, e.duration().as_secs(), e.duration().subsec_nanos())),
    }
}

/// The signed whole seconds of an epoch distance given as magnitude and
/// direction, with any nanosecond remainder borrowing one second in the
/// pre-epoch case (so that the nanosecond part counts forward).
pub open spec fn epoch_secs_of(pre: bool, secs: int, nanos: int) -> int {
    if !pre {
        secs
    } else if nanos == 0 {
        -secs
    } else {
        -secs - 1
    }
}

/// The forward-counting nanosecond part matching [`epoch_secs_of`].
pub open spec fn epoch_nanos_of(pre: bool, nanos: int) -> int {
    if pre && nanos != 0 {
        1_000_000_000 - nanos
    } else {
        nanos
    }
}

/// Turn an epoch distance (magnitude and direction) into a signed unix
/// timestamp, refusing instants more than eight trillion seconds from the
/// epoch — far beyond any real file time, and comfortably inside the range
/// the civil conversion below accepts.
fn epoch_parts(pre: bool, secs: u64, nanos: u32) -> (r: Option<(i64, u32)>)
    requires
        nanos < 1_000_000_000,
    ensures
        r matches Some(p) ==> {
            &&& p.0 == epoch_secs_of(pre, secs as int, nanos as int)
            &&& p.1 == epoch_nanos_of(pre, nanos as int)
            &&& -8_000_000_000_000 <= p.0 <= 8_000_000_000_000
            &&& p.1 < 1_000_000_000
        },
        r is None ==> !(-8_000_000_000_000 <= epoch_secs_of(pre, secs as int, nanos as int)
            <= 8_000_000_000_000),
{
    if !pre {
        if secs > 8_000_000_000_000 {
            None
        } else {
            Some((secs as i64, nanos))
        }
    } else if nanos == 0 {
        if secs > 8_000_000_000_000 {
            None
        } else {
            Some((-(secs as i64), 0))
        }
    } else {
        if secs >= 8_000_000_000_000 {
            None
        } else {
            Some((-(secs as i64) - 1, 1_000_000_000 - nanos))
        }
    }
}

/// Relies on chrono's checked `DateTime::from_timestamp` (yields nothing
/// out of range, never panics) and on `Local`'s zone lookup through
/// `with_timezone`: the civil clock reading of the instant in the local
/// zone, at the same point on the unix time line. The admitted range stays
/// far inside chrono's representable years, so the civil fields obey their
/// documented calendar ranges (month 1–12, day 1–31, hour below 24, minute
/// and second below 60, year magnitude below 262,143).
#[verifier::external_body]
fn local_civil_of(secs: i64, nanos: u32) -> (r: Option<Timestamp>)
    requires
        -8_000_000_000_000 <= secs <= 8_000_000_000_000,
        nanos < 1_000_000_000,
    ensures
        r matches Some(t) ==> t.valid() && t.secs == secs && t.nanos == nanos,
{
    let dt = chrono::DateTime::from_timestamp(secs, nanos)?;
    let local = dt.with_timezone(&chrono::Local);
    Some(Timestamp {
        secs: local.timestamp(), nanos: local.timestamp_subsec_nanos(),
        year: local.year(), month: local.month() as u8, day: local.day() as u8,
        hour: local.hour() as u8, minute: local.minute() as u8, second: local.second() as u8,
    })
}

/// The last-modified instant of the path, when it names a readable regular
/// file whose time the civil conversion accepts.
fn file_modified_instant(path: &str) -> (r: Option<Timestamp>)
    ensures
        r matches Some(t) ==> t.valid(),
{
    let raw = match system_mtime(path) {
        None => {
            return None;
        },
        Some(t) => t,
    };
    let parts = match epoch_parts(raw.0, raw.1, raw.2) {
        None => {
            return None;
        },
        Some(p) => p,
    };
    local_civil_of(parts.0, parts.1)
}

/// Relies on `std::path::Path::parent`, a function of the path alone:
/// the path without its final component.
#[verifier::external_body]
fn parent_dir(path: &str) -> (r: Option<String>)
    ensures
        r matches Some(p) ==> parent_path_of(path@) == Some(p@),
        r is None ==> parent_path_of(path@) is None,
{
    std::path::Path::new(path).parent().and_then(|p| p.to_str()).map(|s| s.to_owned())
}

/// A directory and a pattern joined into one match expression: separated by
/// `/` unless the directory is empty or already ends in one.
pub open spec fn joined_path(dir: Seq<char>, pattern: Seq<char>) -> Seq<char> {
    if dir.len() == 0 {
        pattern
    } else if dir.last() == '/' {
        dir + pattern
    } else {
        dir + "/"@ + pattern
    }
}

/// Join a stage directory and a glob pattern into one match expression.
pub fn join_path(dir: &str, pattern: &str) -> (r: String)
    ensures
        r@ == joined_path(dir@, pattern@),
{
    let n = dir.unicode_len();
    if n == 0 {
        return pattern.to_owned();
    }
    let mut s = dir.to_owned();
    if dir.get_char(n - 1) != '/' {
        s.append("/");
    }
    s.append(pattern);
    proof {
        reveal_strlit("/");
        assert(s@ =~= joined_path(dir@, pattern@));
    }
    s
}

impl ExperimentFile {
    /// Record the artifact at `path`: succeeds exactly when the path names a
    /// readable regular file, so a constructed record is always backed by a
    /// regular file observed at construction time.
    pub fn new(path: String) -> (r: Option<ExperimentFile>)
        ensures
            r matches Some(f) ==> f.path@ == path@ && f.modified.valid(),
    {
        match file_modified_instant(path.as_str()) {
            Some(modified) => Some(ExperimentFile { path, modified }),
            None => None,
        }
    }

    /// The last-modified instant, rendered in the fixed human-readable form.
    pub fn formatted_time(&self) -> (r: String)
        requires
            self.modified.valid(),
        ensures
            r@ == ctime_str(self.modified),
    {
        render_ctime(&self.modified)
    }
}

/// The scan root as the walk reports it: the directory argument with one
/// trailing separator removed.
pub open spec fn scan_root(dir: Seq<char>) -> Seq<char> {
    if dir.len() > 0 && dir.last() == '/' {
        dir.drop_last()
    } else {
        dir
    }
}

fn scan_root_exec(dir: &str) -> (r: String)
    ensures
        r@ == scan_root(dir@),
{
    let n = dir.unicode_len();
    if n > 0 && dir.get_char(n - 1) == '/' {
        let s = dir.substring_char(0, n - 1).to_owned();
        proof {
            assert(s@ =~= scan_root(dir@));
        }
        s
    } else {
        dir.to_owned()
    }
}

/// The paths of a sequence of records, in order.
pub open spec fn paths_of(files: Seq<ExperimentFile>) -> Seq<Seq<char>> {
    files.map_values(|f: ExperimentFile| f.path@)
}

/// `xs` is a subsequence of `ys`: its entries appear in `ys`, in the same
/// order.
pub open spec fn is_subsequence(xs: Seq<Seq<char>>, ys: Seq<Seq<char>>) -> bool
    decreases xs.len() + ys.len(),
{
    if xs.len() == 0 {
        true
    } else if ys.len() == 0 {
        false
    } else {
        (xs[0] == ys[0] && is_subsequence(xs.drop_first(), ys.drop_first())) || is_subsequence(
            xs,
            ys.drop_first(),
        )
    }
}

proof fn lemma_subsequence_push_right(a: Seq<Seq<char>>, b: Seq<Seq<char>>, x: Seq<char>)
    requires
        is_subsequence(a, b),
    ensures
        is_subsequence(a, b.push(x)),
    decreases a.len() + b.len(),
{
    if a.len() > 0 {
        if a[0] == b[0] && is_subsequence(a.drop_first(), b.drop_first()) {
            lemma_subsequence_push_right(a.drop_first(), b.drop_first(), x);
            assert(b.push(x).drop_first() =~= b.drop_first().push(x));
        } else {
            lemma_subsequence_push_right(a, b.drop_first(), x);
            assert(b.push(x).drop_first() =~= b.drop_first().push(x));
        }
    }
}

proof fn lemma_subsequence_single(x: Seq<char>, b: Seq<Seq<char>>)
    ensures
        is_subsequence(seq![x], b.push(x)),
    decreases b.len(),
{
    if b.len() == 0 {
        assert(b.push(x)[0] == x);
        assert(is_subsequence(seq![x].drop_first(), b.push(x).drop_first()));
    } else {
        lemma_subsequence_single(x, b.drop_first());
        assert(b.push(x).drop_first() =~= b.drop_first().push(x));
    }
}

proof fn lemma_subsequence_push_both(a: Seq<Seq<char>>, b: Seq<Seq<char>>, x: Seq<char>)
    requires
        is_subsequence(a, b),
    ensures
        is_subsequence(a.push(x), b.push(x)),
    decreases a.len() + b.len(),
{
    if a.len() == 0 {
        lemma_subsequence_single(x, b);
        assert(a.push(x) =~= seq![x]);
    } else if a[0] == b[0] && is_subsequence(a.drop_first(), b.drop_first()) {
        lemma_subsequence_push_both(a.drop_first(), b.drop_first(), x);
        assert(a.push(x).drop_first() =~= a.drop_first().push(x));
        assert(b.push(x).drop_first() =~= b.drop_first().push(x));
        assert(a.push(x)[0] == b.push(x)[0]);
    } else {
        lemma_subsequence_push_both(a, b.drop_first(), x);
        assert(b.push(x).drop_first() =~= b.drop_first().push(x));
    }
}

/// Build one record per candidate path that names a readable regular file,
/// keeping the candidates' order: the records' paths are a subsequence of
/// the candidate list.
pub fn records_from_candidates(candidates: Vec<String>) -> (r: Vec<ExperimentFile>)
    ensures
        forall|i: int| 0 <= i < r@.len() ==> (#[trigger] r@[i]).modified.valid(),
        is_subsequence(paths_of(r@), string_views(candidates@)),
{
    let mut files: Vec<ExperimentFile> = Vec::new();
    let mut i: usize = 0;
    proof {
        assert(candidates@.take(0) =~= Seq::<String>::empty());
        assert(string_views(Seq::<String>::empty()) =~= Seq::<Seq<char>>::empty());
        assert(paths_of(files@) =~= Seq::<Seq<char>>::empty());
    }
    while i < candidates.len()
        invariant
            i <= candidates@.len(),
            forall|k: int| 0 <= k < files@.len() ==> (#[trigger] files@[k]).modified.valid(),
            is_subsequence(paths_of(files@), string_views(candidates@.take(i as int))),
        decreases candidates@.len() - i,
    {
        let ghost pre_paths = paths_of(files@);
        let ghost pre_cands = string_views(candidates@.take(i as int));
        match ExperimentFile::new(candidates[i].clone()) {
            Some(f) => {
                files.push(f);
                proof {
                    assert(paths_of(files@) =~= pre_paths.push(candidates@[i as int]@));
                    lemma_subsequence_push_both(pre_paths, pre_cands, candidates@[i as int]@);
                }
            },
            None => {
                proof {
                    lemma_subsequence_push_right(pre_paths, pre_cands, candidates@[i as int]@);
                }
            },
        }
        proof {
            assert(string_views(candidates@.take(i as int + 1)) =~= pre_cands.push(
                candidates@[i as int]@,
            ));
        }
        i += 1;
    }
    proof {
        assert(candidates@.take(candidates@.len() as int) =~= candidates@);
    }
    files
}

/// Enumerate the regular files under `dir_path` that match `glob_pattern`,
/// in the order the walk yields them (not yet sorted by age). Zero matches
/// is a valid, empty outcome. Two failures are fatal: an uninterpretable
/// pattern, and a scan root the walk could not read — reported as
/// `InaccessiblePath`, never conflated with the empty inventory.
pub fn list_files_in_dir(dir_path: &str, glob_pattern: &str) -> (r: Result<
    Vec<ExperimentFile>,
    InventoryError,
>)
    ensures
        (r matches Err(e) && e == InventoryError::InvalidPattern) <==> !glob_ok(
            joined_path(dir_path@, glob_pattern@),
        ),
        r matches Err(e) ==> e == InventoryError::InvalidPattern || (e matches
            InventoryError::InaccessiblePath(p) && p@ == scan_root(dir_path@)),
        r matches Ok(files) ==> forall|i: int|
            0 <= i < files@.len() ==> (#[trigger] files@[i]).modified.valid(),
{
    let pattern = join_path(dir_path, glob_pattern);
    let (candidates, unreadable) = match glob_candidates(pattern.as_str()) {
        None => {
            return Err(InventoryError::InvalidPattern);
        },
        Some(c) => c,
    };
    let root = scan_root_exec(dir_path);
    if contains_string(&unreadable, &root) {
        return Err(InventoryError::InaccessiblePath(root));
    }
    Ok(records_from_candidates(candidates))
}

/// The views of a sequence of strings.
pub open spec fn string_views(v: Seq<String>) -> Seq<Seq<char>> {
    v.map_values(|s: String| s@)
}

/// The parent directory of every file in a sequence, assuming each has one.
pub open spec fn parents_of(files: Seq<ExperimentFile>) -> Seq<Seq<char>> {
    files.map_values(|f: ExperimentFile| parent_path_of(f.path@).unwrap())
}

/// First-occurrence de-duplication of `s`, appended to the already-kept
/// prefix `acc`.
pub open spec fn dedup_from(s: Seq<Seq<char>>, acc: Seq<Seq<char>>) -> Seq<Seq<char>>
    decreases s.len(),
{
    if s.len() == 0 {
        acc
    } else {
        dedup_from(
            s.drop_first(),
            if acc.contains(s[0]) {
                acc
            } else {
                acc.push(s[0])
            },
        )
    }
}

fn contains_string(haystack: &Vec<String>, needle: &String) -> (r: bool)
    ensures
        r == string_views(haystack@).contains(needle@),
{
    let mut i: usize = 0;
    while i < haystack.len()
        invariant
            i <= haystack@.len(),
            forall|k: int| 0 <= k < i ==> #[trigger] haystack@[k]@ != needle@,
        decreases haystack@.len() - i,
    {
        if haystack[i] == *needle {
            proof {
                assert(string_views(haystack@)[i as int] == needle@);
            }
            return true;
        }
        i += 1;
    }
    proof {
        assert forall|k: int| 0 <= k < string_views(haystack@).len() implies #[trigger] string_views(
            haystack@,
        )[k] != needle@ by {
            assert(string_views(haystack@)[k] == haystack@[k]@);
        }
    }
    false
}

/// The distinct parent directories of the given files, each kept at its
/// first occurrence. Yields nothing when the list is empty or some file
/// has no parent.
pub fn get_unique_experiment_dirs(file_list: Vec<ExperimentFile>) -> (r: Option<Vec<String>>)
    ensures
        r matches Some(dirs) ==> {
            &&& file_list@.len() > 0
            &&& forall|i: int|
                0 <= i < file_list@.len() ==> (#[trigger] parent_path_of(
                    file_list@[i].path@,
                )) is Some
            &&& string_views(dirs@) == dedup_from(parents_of(file_list@), Seq::empty())
        },
        r is None ==> file_list@.len() == 0 || exists|i: int|
            0 <= i < file_list@.len() && (#[trigger] parent_path_of(file_list@[i].path@)) is None,
{
    if file_list.len() == 0 {
        return None;
    }
    let ghost all_parents = parents_of(file_list@);
    let mut parent_dirs: Vec<String> = Vec::new();
    let mut i: usize = 0;
    proof {
        assert(all_parents.skip(0) =~= all_parents);
        assert(string_views(parent_dirs@) =~= Seq::<Seq<char>>::empty());
    }
    while i < file_list.len()
        invariant
            i <= file_list@.len(),
            all_parents == parents_of(file_list@),
            all_parents.len() == file_list@.len(),
            forall|k: int|
                0 <= k < i ==> (#[trigger] parent_path_of(file_list@[k].path@)) is Some,
            dedup_from(all_parents, Seq::empty()) == dedup_from(
                all_parents.skip(i as int),
                string_views(parent_dirs@),
            ),
        decreases file_list@.len() - i,
    {
        let p = match parent_dir(file_list[i].path.as_str()) {
            None => {
                return None;
            },
            Some(p) => p,
        };
        let ghost acc0 = string_views(parent_dirs@);
        proof {
            assert(all_parents.skip(i as int)[0] == all_parents[i as int]);
            assert(all_parents[i as int] == parent_path_of(file_list@[i as int].path@).unwrap());
            assert(all_parents.skip(i as int).drop_first() =~= all_parents.skip(i as int + 1));
        }
        if !contains_string(&parent_dirs, &p) {
            parent_dirs.push(p);
            proof {
                assert(string_views(parent_dirs@) =~= acc0.push(all_parents[i as int]));
            }
        }
        i += 1;
    }
    proof {
        assert(all_parents.skip(file_list@.len() as int) =~= Seq::<Seq<char>>::empty());
    }
    Some(parent_dirs)
}

/// Law: first-occurrence de-duplication yields pairwise-distinct entries, so
/// the directories returned by [`get_unique_experiment_dirs`] hold no
/// duplicates.
pub proof fn lemma_dedup_distinct(s: Seq<Seq<char>>, acc: Seq<Seq<char>>)
    requires
        acc.no_duplicates(),
    ensures
        dedup_from(s, acc).no_duplicates(),
    decreases s.len(),
{
    if s.len() > 0 {
        if acc.contains(s[0]) {
            lemma_dedup_distinct(s.drop_first(), acc);
        } else {
            assert(acc.push(s[0]).no_duplicates()) by {
                assert forall|i: int, j: int|
                    0 <= i < j < acc.push(s[0]).len() implies acc.push(s[0])[i] != acc.push(
                    s[0],
                )[j] by {
                    if j == acc.len() {
                        assert(!acc.contains(s[0]));
                        assert(acc[i] != s[0]);
                    }
                }
            }
            lemma_dedup_distinct(s.drop_first(), acc.push(s[0]));
        }
    }
}

} // verus!
