//! Interpreting the output of the external version-control queries.
//!
//! The queries themselves (running the version-control process) happen
//! outside this library; callers hand the captured output text in. Two
//! queries exist: one for the most recent revision at or before an instant —
//! answered as three newline-terminated fields, identifier, RFC 3339
//! timestamp and subject line — and one listing the identifiers of all
//! revisions strictly after an instant, one per line.

use vstd::prelude::*;

use chrono::{Datelike, Timelike};

verus! {

/// Index of the first newline in `s`, or `s.len()` when there is none.
pub open spec fn line_break(s: Seq<char>) -> nat
    decreases s.len(),
{
    if s.len() == 0 {
        0
    } else if s[0] == '\n' {
        0
    } else {
        1 + line_break(s.drop_first())
    }
}

proof fn lemma_line_break(s: Seq<char>)
    ensures
        line_break(s) <= s.len(),
        forall|j: int| 0 <= j < line_break(s) ==> s[j] != '\n',
        line_break(s) < s.len() ==> s[line_break(s) as int] == '\n',
    decreases s.len(),
{
    if s.len() > 0 && s[0] != '\n' {
        lemma_line_break(s.drop_first());
        assert forall|j: int| 0 <= j < line_break(s) implies s[j] != '\n' by {
            if j > 0 {
                assert(s.drop_first()[j - 1] == s[j]);
            }
        }
        if line_break(s) < s.len() {
            assert(s.drop_first()[line_break(s) as int - 1] == s[line_break(s) as int]);
        }
    }
}

/// The newline-terminated fields of `s`: the text split on `'\n'`, a
/// trailing newline not opening an extra empty field.
pub open spec fn split_lines_spec(s: Seq<char>) -> Seq<Seq<char>>
    decreases s.len(),
    via split_lines_spec_decreases
{
    if s.len() == 0 {
        Seq::empty()
    } else {
        let i = line_break(s);
        if i == s.len() {
            seq![s]
        } else {
            seq![s.subrange(0, i as int)] + split_lines_spec(
                s.subrange(i as int + 1, s.len() as int),
            )
        }
    }
}

#[via_fn]
proof fn split_lines_spec_decreases(s: Seq<char>) {
    lemma_line_break(s);
}

/// The views of a sequence of string slices.
pub open spec fn slice_views(v: Seq<&str>) -> Seq<Seq<char>> {
    v.map_values(|t: &str| t@)
}

/// Split query output into its newline-terminated fields. The revision
/// query answers with three such fields: identifier, timestamp, subject.
pub fn split_git_info_string<'a>(git_string: &'a str) -> (r: Vec<&'a str>)
    ensures
        slice_views(r@) == split_lines_spec(git_string@),
    decreases git_string@.len(),
{
    let n = git_string.unicode_len();
    if n == 0 {
        let r: Vec<&str> = Vec::new();
        proof {
            assert(slice_views(r@) =~= split_lines_spec(git_string@));
        }
        return r;
    }
    let mut i: usize = 0;
    while i < n && git_string.get_char(i) != '\n'
        invariant
            i <= n,
            n == git_string@.len(),
            forall|j: int| 0 <= j < i ==> git_string@[j] != '\n',
        decreases n - i,
    {
        i += 1;
    }
    proof {
        lemma_line_break(git_string@);
        assert(i == line_break(git_string@));
    }
    let head = git_string.substring_char(0, i);
    if i == n {
        let mut r: Vec<&str> = Vec::new();
        r.push(head);
        proof {
            assert(head@ =~= git_string@);
            assert(slice_views(r@) =~= split_lines_spec(git_string@));
        }
        r
    } else {
        let rest = git_string.substring_char(i + 1, n);
        let mut r = split_git_info_string(rest);
        r.insert(0, head);
        proof {
            assert(slice_views(r@) =~= seq![git_string@.subrange(0, i as int)]
                + split_lines_spec(git_string@.subrange(i as int + 1, n as int)));
        }
        r
    }
}

/// What a finished command handed back on its standard streams, classified:
/// standard output when there was any, otherwise standard error when there
/// was any, otherwise nothing.
#[derive(Debug, PartialEq, Eq)]
pub enum CommandReturn {
    /// The command produced standard output.
    Stdout(String),
    /// No standard output; the command produced standard error.
    Stderr(String),
    /// The command produced no output on either stream.
    Empty,
}

/// Classify the captured streams of a finished command: standard output
/// wins when non-empty, else non-empty standard error, else nothing.
pub fn capture_output_as_string(stdout: String, stderr: String) -> (r: CommandReturn)
    ensures
        stdout@.len() > 0 ==> r == CommandReturn::Stdout(stdout),
        stdout@.len() == 0 && stderr@.len() > 0 ==> r == CommandReturn::Stderr(stderr),
        stdout@.len() == 0 && stderr@.len() == 0 ==> r == CommandReturn::Empty,
{
    if !stdout.as_str().is_empty() {
        CommandReturn::Stdout(stdout)
    } else if !stderr.as_str().is_empty() {
        CommandReturn::Stderr(stderr)
    } else {
        CommandReturn::Empty
    }
}

impl CommandReturn {
    /// The captured standard output, for a command known to have produced
    /// some.
    pub fn unwrap_stdout(&self) -> (r: String)
        requires
            self is Stdout,
        ensures
            r@ == self->Stdout_0@,
    {
        match self {
            CommandReturn::Stdout(message) => message.clone(),
            _ => {
                proof {
                    assert(false);
                }
                String::new()
            },
        }
    }

    /// The captured standard output, for a command known to have produced
    /// some. The message names the query that was being made; it is not
    /// consulted on this success path.
    pub fn expect_stdout(&self, err_message: &str) -> (r: String)
        requires
            self is Stdout,
        ensures
            r@ == self->Stdout_0@,
    {
        let _ = err_message;
        match self {
            CommandReturn::Stdout(message) => message.clone(),
            _ => {
                proof {
                    assert(false);
                }
                String::new()
            },
        }
    }
}

/// What chrono's RFC 3339 parser yields for a string: the civil fields
/// year, month, day, hour, minute, second read in the written offset, and
/// the offset itself in seconds east of UTC — or nothing when the string is
/// not a valid RFC 3339 date-time.
pub uninterp spec fn rfc3339_of(s: Seq<char>) -> Option<(int, int, int, int, int, int, int)>;

/// Relies on chrono's `DateTime::parse_from_rfc3339`, a function of the
/// string alone. The fields come back in chrono's documented ranges: month
/// 1–12, day 1–31, hour below 24, minute and second below 60, year within
/// chrono's ±262,143-year range, offset strictly within a day of UTC.
#[verifier::external_body]
fn parse_rfc3339(s: &str) -> (r: Option<(i32, u8, u8, u8, u8, u8, i32)>)
    ensures
        r matches Some(t) ==> {
            &&& rfc3339_of(s@) == Some(
                (
                    t.0 as int,
                    t.1 as int,
                    t.2 as int,
                    t.3 as int,
                    t.4 as int,
                    t.5 as int,
                    t.6 as int,
                ),
            )
            &&& -262_143 <= t.0 <= 262_142
            &&& 1 <= t.1 <= 12
            &&& 1 <= t.2 <= 31
            &&& t.3 <= 23
            &&& t.4 <= 59
            &&& t.5 <= 59
            &&& -86_400 < t.6 < 86_400
        },
        r is None ==> rfc3339_of(s@) is None,
{
    let dt = chrono::DateTime::parse_from_rfc3339(s).ok()?;
    Some((
        dt.year(), dt.month() as u8, dt.day() as u8,
        dt.hour() as u8, dt.minute() as u8, dt.second() as u8,
        dt.offset().local_minus_utc(),
    ))
}

/// A resolved revision's instant: the RFC 3339 text exactly as the query
/// emitted it (offset preserved, not normalized), and the fields it parses
/// to.
#[derive(Debug)]
pub struct RevisionInstant {
    /// The timestamp field exactly as received.
    pub text: String,
    /// Calendar year, in the written offset.
    pub year: i32,
    /// Month, `1 ..= 12`.
    pub month: u8,
    /// Day of month, `1 ..= 31`.
    pub day: u8,
    /// Hour, `0 ..= 23`.
    pub hour: u8,
    /// Minute, `0 ..= 59`.
    pub minute: u8,
    /// Second, `0 ..= 59`.
    pub second: u8,
    /// Seconds east of UTC of the written offset.
    pub offset_seconds: i32,
}

impl RevisionInstant {
    /// The stored fields are exactly what the stored text parses to.
    pub open spec fn valid(self) -> bool {
        &&& rfc3339_of(self.text@) == Some(
            (
                self.year as int,
                self.month as int,
                self.day as int,
                self.hour as int,
                self.minute as int,
                self.second as int,
                self.offset_seconds as int,
            ),
        )
        &&& 1 <= self.month <= 12
        &&& 1 <= self.day <= 31
        &&& self.hour <= 23
        &&& self.minute <= 59
        &&& self.second <= 59
    }
}

/// Why a revision query failed.
#[derive(Debug, PartialEq, Eq)]
pub enum RevisionError {
    /// The version-control process could not be run or report at all;
    /// raised by the caller that performs the invocation, with its account
    /// of the failure.
    ProcessInvocationFailure(String),
    /// The query produced output, but not three newline-terminated fields
    /// with a parseable timestamp; holds the output as received.
    MalformedProcessOutput(String),
    /// The query produced no output: no revision stands at or before the
    /// reference instant. Holds whatever the process said on standard
    /// error.
    NoRevisionResolved(String),
}

/// A resolved revision: identifier, commit instant, subject line, and how
/// many revisions landed strictly after it across all refs.
#[derive(Debug)]
pub struct CommitInformation {
    /// Revision identifier, opaque beyond display.
    pub hash: String,
    /// The revision's commit instant, offset preserved.
    pub date: RevisionInstant,
    /// First line of the revision's message.
    pub subject: String,
    /// Number of revisions strictly after `date`, across all refs, at query
    /// time.
    pub commits_after: usize,
}

/// The revision query's output resolves a revision: it is non-empty, splits
/// into at least the three expected fields, and its second field parses as
/// an RFC 3339 timestamp.
pub open spec fn resolves_revision(out: Seq<char>) -> bool {
    &&& out.len() > 0
    &&& split_lines_spec(out).len() >= 3
    &&& rfc3339_of(split_lines_spec(out)[1]) is Some
}

/// Count the revisions named by an all-revisions-after query: one per
/// newline-terminated entry. No output means zero later revisions, which is
/// not an error.
pub fn count_after_from_output(output: &str) -> (n: usize)
    ensures
        n == split_lines_spec(output@).len(),
{
    let entries = split_git_info_string(output);
    proof {
        assert(slice_views(entries@).len() == entries@.len());
    }
    entries.len()
}

/// Law: a later-revisions query that returns no output reports zero later
/// revisions — the expected terminal case when the reference instant is the
/// latest revision's own commit instant.
pub proof fn lemma_no_output_zero_revisions(out: Seq<char>)
    requires
        out.len() == 0,
    ensures
        split_lines_spec(out).len() == 0,
{
}

impl CommitInformation {
    /// Interpret the captured outputs of the two revision queries: the
    /// revision-at-or-before query's standard output and standard error,
    /// and the standard output of the revisions-after query made for the
    /// resolved instant. Succeeds exactly when the first output resolves a
    /// revision; no output means no revision stood at or before the
    /// instant, and anything else unparseable is malformed output.
    pub fn from_outputs(revision_out: &str, revision_err: &str, count_out: &str) -> (r: Result<
        CommitInformation,
        RevisionError,
    >)
        ensures
            r is Ok <==> resolves_revision(revision_out@),
            r matches Ok(c) ==> {
                let lines = split_lines_spec(revision_out@);
                &&& c.hash@ == lines[0]
                &&& c.date.text@ == lines[1]
                &&& c.date.valid()
                &&& c.subject@ == lines[2]
                &&& c.commits_after == split_lines_spec(count_out@).len()
            },
            revision_out@.len() == 0 ==> (r matches Err(e) && e matches
                RevisionError::NoRevisionResolved(msg) && msg@ == revision_err@),
            revision_out@.len() > 0 && !resolves_revision(revision_out@) ==> (r matches Err(e)
                && e matches RevisionError::MalformedProcessOutput(raw) && raw@
                == revision_out@),
    {
        if revision_out.is_empty() {
            return Err(RevisionError::NoRevisionResolved(revision_err.to_owned()));
        }
        let parts = split_git_info_string(revision_out);
        proof {
            assert(parts@.len() == slice_views(parts@).len());
        }
        if parts.len() < 3 {
            return Err(RevisionError::MalformedProcessOutput(revision_out.to_owned()));
        }
        proof {
            assert(parts@[1]@ == split_lines_spec(revision_out@)[1]);
            assert(parts@[0]@ == split_lines_spec(revision_out@)[0]);
            assert(parts@[2]@ == split_lines_spec(revision_out@)[2]);
        }
        match parse_rfc3339(parts[1]) {
            None => Err(RevisionError::MalformedProcessOutput(revision_out.to_owned())),
            Some(t) => {
                let date = RevisionInstant {
                    text: parts[1].to_owned(),
                    year: t.0,
                    month: t.1,
                    day: t.2,
                    hour: t.3,
                    minute: t.4,
                    second: t.5,
                    offset_seconds: t.6,
                };
                let commits_after = count_after_from_output(count_out);
                Ok(
                    CommitInformation {
                        hash: parts[0].to_owned(),
                        date,
                        subject: parts[2].to_owned(),
                        commits_after,
                    },
                )
            },
        }
    }
}

/// The argument list of the query for the single most recent revision at or
/// before an instant, across all refs: identifier, timestamp and subject
/// emitted as newline-terminated fields.
pub fn rev_list_before_args(instant: &str) -> (r: Vec<String>)
    ensures
        r@.len() == 6,
        r@[0]@ == "rev-list"@,
        r@[1]@ == "-1"@,
        r@[2]@ == "--pretty=format:%cI%n%s"@,
        r@[3]@ == "--before='"@ + instant@ + "'"@,
        r@[4]@ == "--all"@,
        r@[5]@ == "--abbrev-commit"@,
{
    let mut args: Vec<String> = Vec::new();
    args.push("rev-list".to_owned());
    args.push("-1".to_owned());
    args.push("--pretty=format:%cI%n%s".to_owned());
    let mut before = "--before='".to_owned();
    before.append(instant);
    before.append("'");
    args.push(before);
    args.push("--all".to_owned());
    args.push("--abbrev-commit".to_owned());
    args
}

/// The argument list of the query for all revisions strictly after an
/// instant, across all refs: bare identifiers, one per line.
pub fn rev_list_after_args(instant: &str) -> (r: Vec<String>)
    ensures
        r@.len() == 3,
        r@[0]@ == "rev-list"@,
        r@[1]@ == "--after='"@ + instant@ + "'"@,
        r@[2]@ == "--all"@,
{
    let mut args: Vec<String> = Vec::new();
    args.push("rev-list".to_owned());
    let mut after = "--after='".to_owned();
    after.append(instant);
    after.append("'");
    args.push(after);
    args.push("--all".to_owned());
    args
}

} // verus!
