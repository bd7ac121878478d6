//! The texts of the run logs: folder and file names, the header and the
//! summary footer.

use vstd::prelude::*;
use crate::text::{decimal, join_texts, joined, strs, usize_text};

verus! {

/// A UNIX time written by chrono in UTC with one of the log formats; none
/// when the time is outside chrono's range.
pub uninterp spec fn utc_text(secs: i64, fmt: Seq<char>) -> Option<Seq<char>>;

/// The formats the logs write times with.
pub open spec fn log_format(fmt: Seq<char>) -> bool {
    ||| fmt == "%Y-%m-%d"@
    ||| fmt == "%H-%M-%S"@
    ||| fmt == "%Y-%m-%d %H:%M:%S UTC"@
}

/// Calls `chrono::DateTime::from_timestamp` (seconds, no nanoseconds) and
/// writes the time with `format(fmt).to_string()`. For the log formats,
/// which are valid strftime formats, the result depends on the time and the
/// format alone and is named `utc_text`; nothing more is claimed of it.
#[verifier::external_body]
fn format_utc(secs: i64, fmt: &str) -> (r: Option<String>)
    requires
        log_format(fmt@),
    ensures
        match r {
            Some(s) => utc_text(secs, fmt@) == Some(s@),
            None => utc_text(secs, fmt@) is None,
        },
{
    chrono::DateTime::from_timestamp(secs, 0).map(|t| t.format(fmt).to_string())
}

/// The name of the day's log folder: the date `%Y-%m-%d`.
pub fn log_day_folder(now_secs: i64) -> (r: Option<String>)
    ensures
        match r {
            Some(s) => utc_text(now_secs, "%Y-%m-%d"@) == Some(s@),
            None => utc_text(now_secs, "%Y-%m-%d"@) is None,
        },
{
    proof {
        reveal_strlit("%Y-%m-%d");
    }
    format_utc(now_secs, "%Y-%m-%d")
}

/// The name of a run's log file: `{command}_{HH-MM-SS}.log`.
pub open spec fn run_log_name(command: Seq<char>, time: Seq<char>) -> Seq<char> {
    command + "_"@ + time + ".log"@
}

/// The name of the log file of a run of `command` started at `now_secs`.
pub fn run_log_file(command: &str, now_secs: i64) -> (r: Option<String>)
    ensures
        match r {
            Some(s) => utc_text(now_secs, "%H-%M-%S"@) is Some && s@ == run_log_name(
                command@,
                utc_text(now_secs, "%H-%M-%S"@).unwrap(),
            ),
            None => utc_text(now_secs, "%H-%M-%S"@) is None,
        },
{
    proof {
        reveal_strlit("%H-%M-%S");
    }
    match format_utc(now_secs, "%H-%M-%S") {
        None => None,
        Some(t) => Some(run_log_file_at(command, t.as_str())),
    }
}

/// The name of the log file of a run of `command` started at the written
/// time `time`.
pub fn run_log_file_at(command: &str, time: &str) -> (r: String)
    ensures
        r@ == run_log_name(command@, time@),
{
    proof {
        reveal_strlit("_");
        reveal_strlit(".log");
    }
    let mut s = String::from_str(command);
    s.append("_");
    s.append(time);
    s.append(".log");
    s
}

/// The first line of a run's log: `=== {command} started at {time} ===`.
pub open spec fn run_header_text(command: Seq<char>, time: Seq<char>) -> Seq<char> {
    "=== "@ + command + " started at "@ + time + " ===\n"@
}

/// The header of the log of a run of `command` started at `now_secs`.
pub fn run_header(command: &str, now_secs: i64) -> (r: Option<String>)
    ensures
        match r {
            Some(s) => utc_text(now_secs, "%Y-%m-%d %H:%M:%S UTC"@) is Some && s@ == run_header_text(
                command@,
                utc_text(now_secs, "%Y-%m-%d %H:%M:%S UTC"@).unwrap(),
            ),
            None => utc_text(now_secs, "%Y-%m-%d %H:%M:%S UTC"@) is None,
        },
{
    proof {
        reveal_strlit("%Y-%m-%d %H:%M:%S UTC");
    }
    match format_utc(now_secs, "%Y-%m-%d %H:%M:%S UTC") {
        None => None,
        Some(t) => Some(run_header_at(command, t.as_str())),
    }
}

/// The header of the log of a run of `command` started at the written time
/// `time`.
pub fn run_header_at(command: &str, time: &str) -> (r: String)
    ensures
        r@ == run_header_text(command@, time@),
{
    proof {
        reveal_strlit("=== ");
        reveal_strlit(" started at ");
        reveal_strlit(" ===\n");
    }
    let mut s = String::from_str("=== ");
    s.append(command);
    s.append(" started at ");
    s.append(time);
    s.append(" ===\n");
    s
}

/// Summary of a workflow run for logging.
pub struct RunSummary {
    pub expressions_simulated: Option<usize>,
    pub alphas_submitable: Option<Vec<String>>,
    pub alphas_submitted: Option<Vec<String>>,
}

impl Default for RunSummary {
    fn default() -> (r: Self)
        ensures
            r.expressions_simulated is None,
            r.alphas_submitable is None,
            r.alphas_submitted is None,
    {
        RunSummary { expressions_simulated: None, alphas_submitable: None, alphas_submitted: None }
    }
}

/// A summary line listing ids, present only when there are some.
pub open spec fn ids_line(label: Seq<char>, ids: Option<Vec<String>>) -> Seq<char> {
    match ids {
        Some(v) => if v@.len() > 0 {
            label + joined(strs(v@), ", "@) + "\n"@
        } else {
            Seq::empty()
        },
        None => Seq::empty(),
    }
}

/// The footer of a run's log: the command, the execution time (`elapsed`
/// seconds, already written), and the counts and ids the summary holds,
/// between `---` lines after an empty line.
pub open spec fn footer_text(command: Seq<char>, elapsed: Seq<char>, summary: RunSummary) -> Seq<char> {
    "\n---\ncommand: "@ + command + "\nexecution_time: "@ + elapsed + "s\n"@ + match summary.expressions_simulated {
        Some(n) => "expressions_simulated: "@ + decimal(n as nat) + "\n"@,
        None => Seq::empty(),
    } + ids_line("alphas_submitable: "@, summary.alphas_submitable) + ids_line(
        "alphas_submitted: "@,
        summary.alphas_submitted,
    ) + "---\n"@
}

fn append_ids_line(out: &mut String, label: &str, ids: &Option<Vec<String>>)
    ensures
        final(out)@ == old(out)@ + ids_line(label@, *ids),
{
    proof {
        reveal_strlit(", ");
        reveal_strlit("\n");
    }
    match ids {
        Some(v) => {
            if v.len() > 0 {
                out.append(label);
                let j = join_texts(v, ", ");
                out.append(j.as_str());
                out.append("\n");
            } else {
                assert(old(out)@ + ids_line(label@, *ids) =~= old(out)@);
            }
        },
        None => {
            assert(old(out)@ + ids_line(label@, *ids) =~= old(out)@);
        },
    }
}

/// The footer of a run's log.
pub fn summary_footer(command: &str, elapsed: &str, summary: &RunSummary) -> (r: String)
    ensures
        r@ == footer_text(command@, elapsed@, *summary),
{
    proof {
        reveal_strlit("\n---\ncommand: ");
        reveal_strlit("\nexecution_time: ");
        reveal_strlit("s\n");
        reveal_strlit("expressions_simulated: ");
        reveal_strlit("\n");
        reveal_strlit("---\n");
    }
    let mut s = String::from_str("\n---\ncommand: ");
    s.append(command);
    s.append("\nexecution_time: ");
    s.append(elapsed);
    s.append("s\n");
    let ghost head = s@;
    match summary.expressions_simulated {
        Some(n) => {
            s.append("expressions_simulated: ");
            let t = usize_text(n);
            s.append(t.as_str());
            s.append("\n");
        },
        None => {
            assert(head + Seq::<char>::empty() =~= head);
        },
    }
    append_ids_line(&mut s, "alphas_submitable: ", &summary.alphas_submitable);
    append_ids_line(&mut s, "alphas_submitted: ", &summary.alphas_submitted);
    s.append("---\n");
    assert(s@ =~= footer_text(command@, elapsed@, *summary));
    s
}

} // verus!
