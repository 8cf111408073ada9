//! Settings of the log file, and the wording of panics in it.

use vstd::prelude::*;
use vstd::string::*;

use crate::number;
use crate::number::parse_usize;
use crate::text;
use crate::text::{trimmed, CharClass};

verus! {

/// Number of daily log files to retain, one above a week.
pub const DEFAULT_MAX_LOG_FILES: usize = 8;

/// Environment variable overriding [`DEFAULT_MAX_LOG_FILES`].
pub const MAX_LOG_FILES_ENV: &'static str = "HYPER_MCP_REMOTE_LOG_MAX_FILES";

/// Environment variable that sets the log directory.
pub const LOG_PATH_ENV: &'static str = "HYPER_MCP_REMOTE_LOG_PATH";

/// The beginning of the names of log files.
pub const LOG_FILE_PREFIX: &'static str = "hyper-mcp-remote.log";

/// The number of log files to retain: that of the environment, else the
/// default.
pub open spec fn max_log_files(value: Option<Seq<char>>) -> usize {
    match value {
        None => DEFAULT_MAX_LOG_FILES,
        Some(s) => match number::parse(text::trim(s, CharClass::WhiteSpace)) {
            Some(n) => n,
            None => DEFAULT_MAX_LOG_FILES,
        },
    }
}

/// The number of log files to retain, from an optional environment value.
/// The default counts where it is unset or no `usize`. Zero retains all.
pub fn parse_max_log_files(value: Option<String>) -> (r: usize)
    ensures
        r == max_log_files(text::opt_text(value)),
{
    match value {
        None => DEFAULT_MAX_LOG_FILES,
        Some(s) => match parse_usize(trimmed(s.as_str(), CharClass::WhiteSpace)) {
            Some(n) => n,
            None => DEFAULT_MAX_LOG_FILES,
        },
    }
}

/// A log directory: a path, and the names of the directories below it that
/// lead there. `P` is a path.
#[derive(Debug, PartialEq, Eq)]
pub struct LogDirectory<P> {
    pub base: P,
    pub below: Vec<String>,
}

/// The log directory: what the environment says, else a directory under the
/// configuration directory of the user; `None` where there is neither.
pub fn log_directory<P>(env: Option<P>, config_dir: Option<P>) -> (r: Option<LogDirectory<P>>)
    ensures
        match (env, config_dir) {
            (Some(path), _) => r matches Some(dir) && dir.base == path && text::texts(
                dir.below@,
            ) == Seq::<Seq<char>>::empty(),
            (None, Some(config)) => r matches Some(dir) && dir.base == config && text::texts(
                dir.below@,
            ) == seq!["hyper-mcp-remote"@, "logs"@],
            (None, None) => r is None,
        },
{
    let mut below: Vec<String> = Vec::new();
    match (env, config_dir) {
        (Some(base), _) => {
            assert(text::texts(below@) =~= seq![]);
            Some(LogDirectory { base, below })
        },
        (None, Some(base)) => {
            below.push("hyper-mcp-remote".to_string());
            below.push("logs".to_string());
            assert(text::texts(below@) =~= seq!["hyper-mcp-remote"@, "logs"@]);
            Some(LogDirectory { base, below })
        },
        (None, None) => None,
    }
}

/// The payload of a panic as text. It is known only where the panic carried
/// a string, borrowed or owned.
pub fn panic_payload(borrowed: Option<&str>, owned: Option<&String>) -> (r: String)
    ensures
        r@ == (match (borrowed, owned) {
            (Some(s), _) => s@,
            (None, Some(s)) => s@,
            (None, None) => "unknown panic payload"@,
        }),
{
    match (borrowed, owned) {
        (Some(s), _) => s.to_string(),
        (None, Some(s)) => s.clone(),
        (None, None) => "unknown panic payload".to_string(),
    }
}

/// The place of a panic: the file, the line and the column.
pub fn panic_location(place: Option<(&str, u32, u32)>) -> (r: String)
    ensures
        r@ == (match place {
            Some((file, line, column)) => file@ + ":"@ + number::decimal(line as nat) + ":"@
                + number::decimal(column as nat),
            None => "unknown location"@,
        }),
{
    match place {
        Some((file, line, column)) => {
            let mut out: String = file.to_string();
            out.append(":");
            out.append(number::print(line as u64).as_str());
            out.append(":");
            out.append(number::print(column as u64).as_str());
            out
        },
        None => "unknown location".to_string(),
    }
}

// ---------------------------------------------------------------------------
// Laws
// ---------------------------------------------------------------------------

/// A number that was written out is the number of files, also with white
/// space around it.
pub proof fn law_a_written_number_counts(n: usize, before: Seq<char>, after: Seq<char>)
    requires
        forall|i: int| 0 <= i < before.len() ==> text::is_white_space(#[trigger] before[i]),
        forall|i: int| 0 <= i < after.len() ==> text::is_white_space(#[trigger] after[i]),
    ensures
        max_log_files(Some(before + number::decimal(n as nat) + after)) == n,
{
    let digits = number::decimal(n as nat);
    number::lemma_decimal(n as nat);
    text::lemma_trim_around(before, digits, after, CharClass::WhiteSpace);
    number::law_print_then_parse(n);
}

/// The default of eight counts where nothing is set, where the value is blank,
/// and where it holds a character that no number with white space around it
/// could hold.
pub proof fn law_other_values_give_the_default(s: Seq<char>, i: int)
    requires
        0 <= i < s.len(),
        !(48 <= s[i] as u32 <= 57),
        s[i] != '+',
        !text::is_white_space(s[i]),
    ensures
        max_log_files(None) == 8,
        max_log_files(Some(Seq::empty())) == 8,
        max_log_files(Some(s)) == 8,
{
    let none = Seq::<char>::empty();
    text::law_trimming_all(none, CharClass::WhiteSpace);
    let t = text::trim(s, CharClass::WhiteSpace);
    text::law_trim_keeps(s, CharClass::WhiteSpace, i);
    let j = choose|j: int| 0 <= j < t.len() && t[j] == s[i];
    number::law_other_texts_are_no_numbers(t, j);
}

/// A number that no machine-sized one can hold gives the default too.
pub proof fn law_numbers_that_do_not_fit_give_the_default(n: nat)
    requires
        n > usize::MAX,
    ensures
        max_log_files(Some(number::decimal(n))) == 8,
{
    let digits = number::decimal(n);
    let none = Seq::<char>::empty();
    number::lemma_decimal(n);
    text::lemma_trim_around(none, digits, none, CharClass::WhiteSpace);
    assert(none + digits + none =~= digits);
    number::law_numbers_are_read(n, none);
    assert(none + digits =~= digits);
}

/// What counts is the text without the white space around it: the number that
/// it reads as, whatever its size, or else the default of eight.
pub proof fn law_only_the_trimmed_text_counts(before: Seq<char>, s: Seq<char>, after: Seq<char>)
    requires
        text::is_blank(before),
        text::is_blank(after),
        text::is_trimmed(s),
    ensures
        number::parse(s) matches Some(n) ==> max_log_files(Some(before + s + after)) == n,
        number::parse(s) is None ==> max_log_files(Some(before + s + after)) == 8,
{
    text::lemma_trim_blank(before, s, after);
}

} // verus!
