//! Grouping the output files of one pipeline stage and summarising their
//! freshness.
//!
//! An [`ExperimentPart`] is the inventory of one analysis stage: the files
//! under the stage's directory that match its glob pattern, held newest
//! first. The inventory is built once and never mutated; an empty inventory
//! is a valid state (the stage simply has no outputs yet), not a failure.

use vstd::prelude::*;

use vstd::multiset::Multiset;
use vstd::seq_lib::group_to_multiset_ensures;

use crate::decimal::dec_str;
use crate::file_status::{
    glob_ok, joined_path, list_files_in_dir, scan_root, ExperimentFile, InventoryError,
};
use crate::timestamp::{ctime_str, Timestamp};

verus! {

/// The files are ordered newest first: later records were modified at or
/// before earlier ones.
pub open spec fn sorted_newest_first(files: Seq<ExperimentFile>) -> bool {
    forall|i: int, j: int|
        #![trigger files[i], files[j]]
        0 <= i <= j < files.len() ==> files[j].modified.le(files[i].modified)
}

/// The modification instants of a sequence of records, in order.
pub open spec fn mods_of(files: Seq<ExperimentFile>) -> Seq<Timestamp> {
    files.map_values(|f: ExperimentFile| f.modified)
}

/// One step of the analysis pipeline: a display name and the stage's output
/// files, ordered newest first.
pub struct ExperimentPart {
    /// Display label of the stage.
    pub name: String,
    /// The stage's output files, newest first.
    pub file_list: Vec<ExperimentFile>,
    /// Number of files in `file_list`.
    pub n_files: usize,
}

/// Reorder records by modification instant, newest first. The result is a
/// permutation of the input.
pub fn sort_files_newest_first(files: Vec<ExperimentFile>) -> (r: Vec<ExperimentFile>)
    ensures
        sorted_newest_first(r@),
        r@.to_multiset() == files@.to_multiset(),
        r@.len() == files@.len(),
{
    broadcast use group_to_multiset_ensures;

    let mut input = files;
    let mut out: Vec<ExperimentFile> = Vec::new();
    while input.len() > 0
        invariant
            sorted_newest_first(out@),
            out@.to_multiset().add(input@.to_multiset()) == files@.to_multiset(),
            out@.len() + input@.len() == files@.len(),
            forall|a: int, b: int|
                #![trigger out@[a], input@[b]]
                0 <= a < out@.len() && 0 <= b < input@.len() ==> input@[b].modified.le(
                    out@[a].modified,
                ),
        decreases input@.len(),
    {
        let mut best: usize = 0;
        let mut k: usize = 1;
        while k < input.len()
            invariant
                best < input@.len(),
                1 <= k <= input@.len(),
                forall|t: int|
                    0 <= t < k ==> (#[trigger] input@[t]).modified.le(input@[best as int].modified),
            decreases input@.len() - k,
        {
            if !input[k].modified.is_at_or_before(&input[best].modified) {
                best = k;
            }
            k += 1;
        }
        let ghost input0 = input@;
        let f = input.remove(best);
        let ghost out0 = out@;
        out.push(f);
        proof {
            broadcast use group_to_multiset_ensures;

            assert(input0.remove(best as int).to_multiset() =~= input0.to_multiset().remove(f));
            assert(input0.to_multiset().count(f) > 0) by {
                assert(input0.contains(f));
            }
            assert(out0.push(f).to_multiset().add(input0.remove(best as int).to_multiset())
                =~= out0.to_multiset().add(input0.to_multiset()));
        }
    }
    proof {
        broadcast use group_to_multiset_ensures;

        assert(input@.to_multiset() =~= Multiset::empty());
        assert(out@.to_multiset().add(Multiset::empty()) =~= out@.to_multiset());
    }
    out
}

impl ExperimentPart {
    /// The stored count matches the record list, the records are ordered
    /// newest first, and every record carries a calendar-valid instant.
    pub open spec fn well_formed(self) -> bool {
        &&& self.n_files == self.file_list@.len()
        &&& sorted_newest_first(self.file_list@)
        &&& forall|i: int|
            0 <= i < self.file_list@.len() ==> (#[trigger] self.file_list@[i]).modified.valid()
    }

    /// Build the inventory of one stage: discover the files under `dir`
    /// matching `glob_pattern` and order them newest first. Zero matches
    /// yields a valid empty inventory. Construction fails exactly when the
    /// combined pattern is uninterpretable, or when the stage's root
    /// directory itself cannot be walked — the latter surfaces as
    /// `InaccessiblePath`, kept distinct from the zero-match success.
    pub fn new(name: String, dir: String, glob_pattern: String) -> (r: Result<
        ExperimentPart,
        InventoryError,
    >)
        ensures
            (r matches Err(e) && e == InventoryError::InvalidPattern) <==> !glob_ok(
                joined_path(dir@, glob_pattern@),
            ),
            r matches Err(e) ==> e == InventoryError::InvalidPattern || (e matches
                InventoryError::InaccessiblePath(p) && p@ == scan_root(dir@)),
            r matches Ok(part) ==> part.well_formed() && part.name@ == name@,
    {
        broadcast use group_to_multiset_ensures;

        let discovered = match list_files_in_dir(dir.as_str(), glob_pattern.as_str()) {
            Ok(files) => files,
            Err(e) => {
                return Err(e);
            },
        };
        let ghost discovered0 = discovered@;
        let file_list = sort_files_newest_first(discovered);
        let n_files = file_list.len();
        proof {
            assert forall|i: int| 0 <= i < file_list@.len() implies (#[trigger] file_list@[i]).modified.valid() by {
                assert(file_list@.to_multiset().count(file_list@[i]) > 0) by {
                    assert(file_list@.contains(file_list@[i]));
                }
                assert(discovered0.to_multiset().count(file_list@[i]) > 0);
                assert(discovered0.contains(file_list@[i]));
                let w = choose|w: int| 0 <= w < discovered0.len() && discovered0[w] == file_list@[i];
                assert(discovered0[w].modified.valid());
            }
        }
        Ok(ExperimentPart { name, file_list, n_files })
    }

    /// The freshness summary of an inventory with the given name and record
    /// instants (newest first): a four-way state machine over the file count.
    /// The historical singular `file` label is kept verbatim for any count.
    pub open spec fn summary_str(name: Seq<char>, mods: Seq<Timestamp>) -> Seq<char> {
        if mods.len() == 0 {
            "No files found in "@ + name + "."@
        } else {
            let head = name + " contains "@ + dec_str(mods.len() as int) + " file"@;
            let newest = "\n    Newest file modified at "@ + ctime_str(mods[0]);
            if mods.len() == 1 {
                head + newest
            } else {
                head + newest + "\n    Oldest file modified at "@ + ctime_str(
                    mods[mods.len() - 1],
                )
            }
        }
    }

    /// Render the freshness summary for this stage.
    pub fn create_summary(&self) -> (r: String)
        requires
            self.well_formed(),
        ensures
            r@ == Self::summary_str(self.name@, mods_of(self.file_list@)),
    {
        proof {
            reveal_strlit("No files found in ");
            reveal_strlit(".");
            reveal_strlit(" contains ");
            reveal_strlit(" file");
            reveal_strlit("\n    Newest file modified at ");
            reveal_strlit("\n    Oldest file modified at ");
        }
        if self.n_files == 0 {
            let mut s = "No files found in ".to_owned();
            s.append(self.name.as_str());
            s.append(".");
            proof {
                assert(mods_of(self.file_list@).len() == 0);
                assert(s@ =~= Self::summary_str(self.name@, mods_of(self.file_list@)));
            }
            return s;
        }
        let mut s = self.name.clone();
        s.append(" contains ");
        let count = crate::decimal::format_u64(self.n_files as u64);
        s.append(count.as_str());
        s.append(" file");
        s.append("\n    Newest file modified at ");
        let newest_time = self.get_newest_file().formatted_time();
        s.append(newest_time.as_str());
        if self.n_files > 1 {
            s.append("\n    Oldest file modified at ");
            let oldest_time = self.get_oldest_file().formatted_time();
            s.append(oldest_time.as_str());
        }
        proof {
            assert(mods_of(self.file_list@)[0] == self.file_list@[0].modified);
            assert(mods_of(self.file_list@)[self.file_list@.len() - 1] == self.file_list@[self.file_list@.len()
                - 1].modified);
            assert(s@ =~= Self::summary_str(self.name@, mods_of(self.file_list@)));
        }
        s
    }

    /// The most recently modified file: the first record, which no other
    /// record postdates.
    pub fn get_newest_file(&self) -> (r: &ExperimentFile)
        requires
            self.well_formed(),
            self.n_files > 0,
        ensures
            *r == self.file_list@[0],
            forall|k: int|
                0 <= k < self.file_list@.len() ==> (#[trigger] self.file_list@[k]).modified.le(
                    r.modified,
                ),
    {
        &self.file_list[0]
    }

    /// The least recently modified file: the last record, which postdates no
    /// other record.
    pub fn get_oldest_file(&self) -> (r: &ExperimentFile)
        requires
            self.well_formed(),
            self.n_files > 0,
        ensures
            *r == self.file_list@[self.file_list@.len() - 1],
            forall|k: int|
                0 <= k < self.file_list@.len() ==> r.modified.le(
                    (#[trigger] self.file_list@[k]).modified,
                ),
    {
        &self.file_list[self.n_files - 1]
    }
}

/// Law: in a well-formed inventory the records stand newest first — each
/// record's modification instant is at or after its successor's.
pub proof fn lemma_records_sorted(part: ExperimentPart, i: int)
    requires
        part.well_formed(),
        0 <= i,
        i + 1 < part.file_list@.len(),
    ensures
        part.file_list@[i + 1].modified.le(part.file_list@[i].modified),
{
}

/// Law: the freshness summary is a function of the inventory's name and
/// record instants alone, so inventories built over unchanged contents
/// render byte-identical summaries.
pub proof fn lemma_summary_deterministic(a: ExperimentPart, b: ExperimentPart)
    requires
        a.name@ == b.name@,
        mods_of(a.file_list@) == mods_of(b.file_list@),
    ensures
        ExperimentPart::summary_str(a.name@, mods_of(a.file_list@))
            == ExperimentPart::summary_str(b.name@, mods_of(b.file_list@)),
{
}

} // verus!
