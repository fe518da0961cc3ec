//! Command-line arguments: `[PATH] [--fail-on none|low|medium|high|critical]
//! [--format json|sarif] [--report-path FILE]`, plus the three positional
//! arguments the GitHub Action passes (PATH FAIL_ON FORMAT), where an empty
//! string means "use the default".

use vstd::prelude::*;
use crate::severity::{Severity, parse_severity_spec};
use crate::text::{ascii_lowercase_is, chars_of, lowercase_matches, str_eq};

verus! {

broadcast use vstd::string::group_string_axioms;

/// The report formats.
#[derive(Debug, Clone, Copy, PartialEq, Eq, Structural)]
pub enum Format {
    Json,
    Sarif,
}

/// What a scan was asked to do.
#[derive(Debug)]
pub struct Args {
    pub path: String,
    pub fail_on: Severity,
    pub format: Format,
    pub report_path: String,
}

/// `Args` with its paths as characters.
pub struct ArgsView {
    pub path: Seq<char>,
    pub fail_on: Severity,
    pub format: Format,
    pub report_path: Seq<char>,
}

impl View for Args {
    type V = ArgsView;

    open spec fn view(&self) -> ArgsView {
        ArgsView {
            path: self.path@,
            fail_on: self.fail_on,
            format: self.format,
            report_path: self.report_path@,
        }
    }
}

/// What the command line asks for: the usage text, or a scan.
#[derive(Debug)]
pub enum Invocation {
    Help,
    Scan(Args),
}

/// `Invocation` with its paths as characters.
pub enum InvocationView {
    Help,
    Scan(ArgsView),
}

impl View for Invocation {
    type V = InvocationView;

    open spec fn view(&self) -> InvocationView {
        match self {
            Invocation::Help => InvocationView::Help,
            Invocation::Scan(a) => InvocationView::Scan(a@),
        }
    }
}

/// Why a command line is refused; each names the position of the argument
/// at fault where there is one.
#[derive(Debug, Clone, Copy, PartialEq, Eq, Structural)]
pub enum ArgsError {
    /// `--fail-on` is the last argument.
    MissingFailOnValue,
    /// The value after `--fail-on` names no severity.
    InvalidFailOnValue(usize),
    /// `--format` is the last argument.
    MissingFormatValue,
    /// The value after `--format` is neither json nor sarif.
    InvalidFormatValue(usize),
    /// `--report-path` is the last argument.
    MissingReportPathValue,
    /// The second positional argument names no severity.
    InvalidPositionalFailOn(usize),
    /// The third positional argument is neither json nor sarif.
    InvalidPositionalFormat(usize),
    /// A fourth positional argument.
    UnexpectedArgument(usize),
}

/// What a format name means, without regard to ASCII case.
pub open spec fn parse_format_spec(s: Seq<char>) -> Option<Format> {
    if ascii_lowercase_is(s, "json"@) {
        Some(Format::Json)
    } else if ascii_lowercase_is(s, "sarif"@) {
        Some(Format::Sarif)
    } else {
        None
    }
}

/// Reads a format name, without regard to ASCII case.
pub fn parse_format(s: &str) -> (r: Option<Format>)
    ensures
        r == parse_format_spec(s@),
{
    let c = chars_of(s);
    if lowercase_matches(&c, "json") {
        Some(Format::Json)
    } else if lowercase_matches(&c, "sarif") {
        Some(Format::Sarif)
    } else {
        None
    }
}

/// The report file written when none is named.
pub open spec fn default_report_path(format: Format) -> Seq<char> {
    match format {
        Format::Json => "amber-shield-report.json"@,
        Format::Sarif => "amber-shield-report.sarif"@,
    }
}

/// What the arguments read so far have set, and how many positional
/// arguments were seen.
pub struct ParseState {
    pub path: Seq<char>,
    pub fail_on: Severity,
    pub format: Format,
    pub report_path: Option<Seq<char>>,
    pub positional: nat,
}

/// Before any argument: scan ".", fail on critical findings, write JSON.
pub open spec fn initial_state() -> ParseState {
    ParseState {
        path: "."@,
        fail_on: Severity::Critical,
        format: Format::Json,
        report_path: None,
        positional: 0,
    }
}

/// Reads `raw` from position `i` on, starting from `st`.
pub open spec fn parse_from(raw: Seq<Seq<char>>, i: nat, st: ParseState) -> Result<
    ParseState,
    ArgsError,
>
    decreases raw.len() - i,
{
    if i >= raw.len() {
        Ok(st)
    } else {
        let arg = raw[i as int];
        if arg == "--fail-on"@ {
            if i + 1 >= raw.len() {
                Err(ArgsError::MissingFailOnValue)
            } else {
                match parse_severity_spec(raw[(i + 1) as int]) {
                    Some(s) => parse_from(raw, i + 2, ParseState { fail_on: s, ..st }),
                    None => Err(ArgsError::InvalidFailOnValue((i + 1) as usize)),
                }
            }
        } else if arg == "--format"@ {
            if i + 1 >= raw.len() {
                Err(ArgsError::MissingFormatValue)
            } else {
                match parse_format_spec(raw[(i + 1) as int]) {
                    Some(f) => parse_from(raw, i + 2, ParseState { format: f, ..st }),
                    None => Err(ArgsError::InvalidFormatValue((i + 1) as usize)),
                }
            }
        } else if arg == "--report-path"@ {
            if i + 1 >= raw.len() {
                Err(ArgsError::MissingReportPathValue)
            } else if raw[(i + 1) as int].len() == 0 {
                parse_from(raw, i + 2, st)
            } else {
                parse_from(raw, i + 2, ParseState { report_path: Some(raw[(i + 1) as int]), ..st })
            }
        } else {
            let next = ParseState { positional: st.positional + 1, ..st };
            if st.positional == 0 {
                if arg.len() == 0 {
                    parse_from(raw, i + 1, next)
                } else {
                    parse_from(raw, i + 1, ParseState { path: arg, ..next })
                }
            } else if st.positional == 1 {
                if arg.len() == 0 {
                    parse_from(raw, i + 1, next)
                } else {
                    match parse_severity_spec(arg) {
                        Some(s) => parse_from(raw, i + 1, ParseState { fail_on: s, ..next }),
                        None => Err(ArgsError::InvalidPositionalFailOn(i as usize)),
                    }
                }
            } else if st.positional == 2 {
                if arg.len() == 0 {
                    parse_from(raw, i + 1, next)
                } else {
                    match parse_format_spec(arg) {
                        Some(f) => parse_from(raw, i + 1, ParseState { format: f, ..next }),
                        None => Err(ArgsError::InvalidPositionalFormat(i as usize)),
                    }
                }
            } else {
                Err(ArgsError::UnexpectedArgument(i as usize))
            }
        }
    }
}

/// Whether any argument asks for the usage text.
pub open spec fn wants_help(raw: Seq<Seq<char>>) -> bool {
    exists|i: int| 0 <= i < raw.len() && (raw[i] == "-h"@ || raw[i] == "--help"@)
}

/// What the command line `raw` (program name left out) asks for.
pub open spec fn parse_args_spec(raw: Seq<Seq<char>>) -> Result<InvocationView, ArgsError> {
    if wants_help(raw) {
        Ok(InvocationView::Help)
    } else {
        match parse_from(raw, 0, initial_state()) {
            Ok(st) => Ok(
                InvocationView::Scan(
                    ArgsView {
                        path: st.path,
                        fail_on: st.fail_on,
                        format: st.format,
                        report_path: match st.report_path {
                            Some(p) => p,
                            None => default_report_path(st.format),
                        },
                    },
                ),
            ),
            Err(e) => Err(e),
        }
    }
}

/// The characters of each argument.
pub open spec fn raw_view(raw: Seq<String>) -> Seq<Seq<char>> {
    raw.map_values(|s: String| s@)
}

spec fn state_view(
    path: String,
    fail_on: Severity,
    format: Format,
    report_path: Option<String>,
    positional: usize,
) -> ParseState {
    ParseState {
        path: path@,
        fail_on,
        format,
        report_path: match report_path {
            Some(p) => Some(p@),
            None => None,
        },
        positional: positional as nat,
    }
}

/// Reads the command line `raw` (program name left out).
pub fn parse_args(raw: &Vec<String>) -> (r: Result<Invocation, ArgsError>)
    ensures
        match r {
            Ok(inv) => parse_args_spec(raw_view(raw@)) == Ok::<InvocationView, ArgsError>(inv@),
            Err(e) => parse_args_spec(raw_view(raw@)) == Err::<InvocationView, ArgsError>(e),
        },
{
    let ghost rv = raw_view(raw@);
    let mut k: usize = 0;
    while k < raw.len()
        invariant
            rv == raw_view(raw@),
            0 <= k <= raw@.len(),
            forall|j: int| 0 <= j < k ==> !(rv[j] == "-h"@ || rv[j] == "--help"@),
        decreases raw@.len() - k,
    {
        assert(rv[k as int] == raw@[k as int]@);
        if str_eq(raw[k].as_str(), "-h") || str_eq(raw[k].as_str(), "--help") {
            return Ok(Invocation::Help);
        }
        k = k + 1;
    }
    assert(!wants_help(rv));
    let mut path: String = ".".to_owned();
    let mut fail_on = Severity::Critical;
    let mut format = Format::Json;
    let mut report_path: Option<String> = None;
    let mut positional: usize = 0;
    let mut i: usize = 0;
    assert(state_view(path, fail_on, format, report_path, positional) == initial_state());
    while i < raw.len()
        invariant
            rv == raw_view(raw@),
            !wants_help(rv),
            0 <= i <= raw@.len(),
            positional <= 3,
            parse_from(rv, i as nat, state_view(path, fail_on, format, report_path, positional))
                == parse_from(rv, 0, initial_state()),
        decreases raw@.len() - i,
    {
        let ghost st = state_view(path, fail_on, format, report_path, positional);
        let arg = raw[i].as_str();
        assert(rv[i as int] == arg@);
        if str_eq(arg, "--fail-on") {
            if i + 1 >= raw.len() {
                return Err(ArgsError::MissingFailOnValue);
            }
            assert(rv[i + 1] == raw@[i + 1]@);
            match Severity::parse(raw[i + 1].as_str()) {
                Some(s) => {
                    fail_on = s;
                },
                None => {
                    return Err(ArgsError::InvalidFailOnValue(i + 1));
                },
            }
            i = i + 2;
        } else if str_eq(arg, "--format") {
            if i + 1 >= raw.len() {
                return Err(ArgsError::MissingFormatValue);
            }
            assert(rv[i + 1] == raw@[i + 1]@);
            match parse_format(raw[i + 1].as_str()) {
                Some(f) => {
                    format = f;
                },
                None => {
                    return Err(ArgsError::InvalidFormatValue(i + 1));
                },
            }
            i = i + 2;
        } else if str_eq(arg, "--report-path") {
            if i + 1 >= raw.len() {
                return Err(ArgsError::MissingReportPathValue);
            }
            assert(rv[i + 1] == raw@[i + 1]@);
            let value = &raw[i + 1];
            if !value.as_str().is_empty() {
                report_path = Some(value.clone());
            }
            i = i + 2;
        } else {
            let empty = arg.is_empty();
            if positional == 0 {
                if !empty {
                    path = raw[i].clone();
                }
            } else if positional == 1 {
                if !empty {
                    match Severity::parse(arg) {
                        Some(s) => {
                            fail_on = s;
                        },
                        None => {
                            return Err(ArgsError::InvalidPositionalFailOn(i));
                        },
                    }
                }
            } else if positional == 2 {
                if !empty {
                    match parse_format(arg) {
                        Some(f) => {
                            format = f;
                        },
                        None => {
                            return Err(ArgsError::InvalidPositionalFormat(i));
                        },
                    }
                }
            } else {
                return Err(ArgsError::UnexpectedArgument(i));
            }
            positional = positional + 1;
            i = i + 1;
        }
    }
    let report = match report_path {
        Some(p) => p,
        None => match format {
            Format::Json => "amber-shield-report.json".to_owned(),
            Format::Sarif => "amber-shield-report.sarif".to_owned(),
        },
    };
    Ok(Invocation::Scan(Args { path, fail_on, format, report_path: report }))
}

/// Whether an argument is one of the flags that take a value.
pub open spec fn is_value_flag(arg: Seq<char>) -> bool {
    arg == "--fail-on"@ || arg == "--format"@ || arg == "--report-path"@
}

proof fn lemma_same_help(a: Seq<Seq<char>>, b: Seq<Seq<char>>)
    requires
        a.len() == b.len(),
        forall|x: Seq<char>| a.contains(x) <==> b.contains(x),
    ensures
        wants_help(a) == wants_help(b),
{
    if wants_help(a) {
        let i = choose|i: int| 0 <= i < a.len() && (a[i] == "-h"@ || a[i] == "--help"@);
        assert(a.contains(a[i]));
        let j = choose|j: int| 0 <= j < b.len() && b[j] == a[i];
        assert(0 <= j < b.len() && (b[j] == "-h"@ || b[j] == "--help"@));
    }
    if wants_help(b) {
        let i = choose|i: int| 0 <= i < b.len() && (b[i] == "-h"@ || b[i] == "--help"@);
        assert(b.contains(b[i]));
        let j = choose|j: int| 0 <= j < a.len() && a[j] == b[i];
        assert(0 <= j < a.len() && (a[j] == "-h"@ || a[j] == "--help"@));
    }
}

/// A flag and its value do not count as a positional argument: putting
/// `--fail-on v` before the path reads the same as putting it after, and
/// `--fail-on v p` (without a help flag, `p` non-empty) scans path `p` with
/// threshold `v`, the JSON format and the default report path.
pub proof fn lemma_fail_on_flag_position(v: Seq<char>, p: Seq<char>)
    requires
        parse_severity_spec(v) is Some,
        !is_value_flag(p),
    ensures
        parse_args_spec(seq!["--fail-on"@, v, p]) == parse_args_spec(seq![p, "--fail-on"@, v]),
        p.len() > 0 && !wants_help(seq!["--fail-on"@, v, p]) ==> parse_args_spec(
            seq!["--fail-on"@, v, p],
        ) == Ok::<InvocationView, ArgsError>(
            InvocationView::Scan(
                ArgsView {
                    path: p,
                    fail_on: parse_severity_spec(v)->0,
                    format: Format::Json,
                    report_path: default_report_path(Format::Json),
                },
            ),
        ),
{
    let a = seq!["--fail-on"@, v, p];
    let b = seq![p, "--fail-on"@, v];
    assert forall|x: Seq<char>| a.contains(x) <==> b.contains(x) by {
        if a.contains(x) {
            let i = choose|i: int| 0 <= i < a.len() && a[i] == x;
            if i == 0 {
                assert(b[1] == x);
            } else if i == 1 {
                assert(b[2] == x);
            } else {
                assert(b[0] == x);
            }
        }
        if b.contains(x) {
            let i = choose|i: int| 0 <= i < b.len() && b[i] == x;
            if i == 0 {
                assert(a[2] == x);
            } else if i == 1 {
                assert(a[0] == x);
            } else {
                assert(a[1] == x);
            }
        }
    }
    lemma_same_help(a, b);
    reveal_with_fuel(parse_from, 4);
}

/// A flag and its value do not count as a positional argument: putting
/// `--format f` before the path reads the same as putting it after, and
/// `--format f p` (without a help flag, `p` non-empty) scans path `p` in
/// format `f`, failing on critical findings, with that format's default
/// report path.
pub proof fn lemma_format_flag_position(f: Seq<char>, p: Seq<char>)
    requires
        parse_format_spec(f) is Some,
        !is_value_flag(p),
    ensures
        parse_args_spec(seq!["--format"@, f, p]) == parse_args_spec(seq![p, "--format"@, f]),
        p.len() > 0 && !wants_help(seq!["--format"@, f, p]) ==> parse_args_spec(
            seq!["--format"@, f, p],
        ) == Ok::<InvocationView, ArgsError>(
            InvocationView::Scan(
                ArgsView {
                    path: p,
                    fail_on: Severity::Critical,
                    format: parse_format_spec(f)->0,
                    report_path: default_report_path(parse_format_spec(f)->0),
                },
            ),
        ),
{
    let a = seq!["--format"@, f, p];
    let b = seq![p, "--format"@, f];
    assert forall|x: Seq<char>| a.contains(x) <==> b.contains(x) by {
        if a.contains(x) {
            let i = choose|i: int| 0 <= i < a.len() && a[i] == x;
            if i == 0 {
                assert(b[1] == x);
            } else if i == 1 {
                assert(b[2] == x);
            } else {
                assert(b[0] == x);
            }
        }
        if b.contains(x) {
            let i = choose|i: int| 0 <= i < b.len() && b[i] == x;
            if i == 0 {
                assert(a[2] == x);
            } else if i == 1 {
                assert(a[0] == x);
            } else {
                assert(a[1] == x);
            }
        }
    }
    lemma_same_help(a, b);
    reveal_strlit("--fail-on");
    reveal_strlit("--format");
    assert("--format"@ != "--fail-on"@) by {
        assert("--format"@.len() != "--fail-on"@.len());
    }
    reveal_with_fuel(parse_from, 4);
}

} // verus!
