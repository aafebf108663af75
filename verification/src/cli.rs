//! Command-line flags and the parts of the one-shot text report that do not
//! depend on floating-point values.
use vstd::prelude::*;
use crate::gauge::push_all;
use crate::text::{chars_of, decimal, push_decimal, string_of_range};
use crate::updater::str_eq;

verus! {

broadcast use vstd::string::group_string_axioms;

/// Processes shown in the plain-text snapshot; the JSON snapshot always
/// includes the full list.
pub const TEXT_PROCESS_LIMIT: usize = 15;

/// What `main` should do after the arguments have been handled.
#[derive(Debug, Clone, Copy, PartialEq, Eq, Structural)]
pub enum Action {
    /// No CLI flag was given: run the interactive TUI.
    RunTui,
    /// A CLI action already ran (or failed); exit with this code without
    /// touching the terminal.
    Exit(i32),
}

/// What the command line asks for.
#[derive(Debug, Clone, PartialEq, Eq)]
pub enum CliRequest {
    /// Launch the interactive TUI.
    Tui,
    /// Print the usage text (`-h` / `--help`).
    Usage,
    /// An argument that is not understood.
    Unrecognized(String),
    /// Print one snapshot and exit: JSON when `json`, plain text otherwise.
    Snapshot { json: bool },
}

/// The abstract value of a [`CliRequest`].
pub enum RequestModel {
    Tui,
    Usage,
    Unrecognized(Seq<char>),
    Snapshot { json: bool },
}

impl CliRequest {
    pub open spec fn model(&self) -> RequestModel {
        match self {
            CliRequest::Tui => RequestModel::Tui,
            CliRequest::Usage => RequestModel::Usage,
            CliRequest::Unrecognized(s) => RequestModel::Unrecognized(s@),
            CliRequest::Snapshot { json } => RequestModel::Snapshot { json: *json },
        }
    }
}

/// Scans `args` from position `i` with the flags seen so far: `--once` and
/// `--json` are collected, `-h`/`--help` and any other argument end the
/// scan.
pub open spec fn scan_args(args: Seq<Seq<char>>, i: int, once: bool, json: bool) -> RequestModel
    decreases args.len() - i,
{
    if i >= args.len() || i < 0 {
        if once || json {
            RequestModel::Snapshot { json }
        } else {
            RequestModel::Tui
        }
    } else {
        let a = args[i];
        if a == "--once"@ {
            scan_args(args, i + 1, true, json)
        } else if a == "--json"@ {
            scan_args(args, i + 1, once, true)
        } else if a == "-h"@ || a == "--help"@ {
            RequestModel::Usage
        } else {
            RequestModel::Unrecognized(a)
        }
    }
}

/// The request made by the argument list (without the program name).
pub open spec fn request_of(args: Seq<Seq<char>>) -> RequestModel {
    scan_args(args, 0, false, false)
}

/// Reads the arguments (already stripped of the program name): `--once`
/// and `--json` ask for a one-shot snapshot (JSON wins), `-h`/`--help` for
/// the usage text, anything else is refused; with no flag the TUI runs.
pub fn parse_args(args: &Vec<String>) -> (r: CliRequest)
    ensures
        r.model() == request_of(args@.map_values(|a: String| a@)),
{
    let ghost views = args@.map_values(|a: String| a@);
    let mut once = false;
    let mut json = false;
    let mut i: usize = 0;
    while i < args.len()
        invariant
            i <= args@.len(),
            views == args@.map_values(|a: String| a@),
            request_of(views) == scan_args(views, i as int, once, json),
        decreases args@.len() - i,
    {
        let a = args[i].as_str();
        assert(views[i as int] == a@);
        if str_eq(a, "--once") {
            once = true;
        } else if str_eq(a, "--json") {
            json = true;
        } else if str_eq(a, "-h") || str_eq(a, "--help") {
            return CliRequest::Usage;
        } else {
            return CliRequest::Unrecognized(a.to_string());
        }
        i = i + 1;
    }
    if once || json {
        CliRequest::Snapshot { json }
    } else {
        CliRequest::Tui
    }
}

/// What `main` does right away for a request: the usage text exits with
/// code 0, an unrecognized argument with code 1, no flag runs the TUI; a
/// snapshot has to be taken first (`None`).
pub fn immediate_action(request: &CliRequest) -> (r: Option<Action>)
    ensures
        r == match request.model() {
            RequestModel::Usage => Some(Action::Exit(0)),
            RequestModel::Unrecognized(_) => Some(Action::Exit(1)),
            RequestModel::Tui => Some(Action::RunTui),
            RequestModel::Snapshot { .. } => None,
        },
{
    match request {
        CliRequest::Usage => Some(Action::Exit(0)),
        CliRequest::Unrecognized(_) => Some(Action::Exit(1)),
        CliRequest::Tui => Some(Action::RunTui),
        CliRequest::Snapshot { .. } => None,
    }
}

/// The number of processes the text report lists out of `total`.
pub open spec fn shown_processes(total: nat) -> nat {
    if total < TEXT_PROCESS_LIMIT {
        total
    } else {
        TEXT_PROCESS_LIMIT as nat
    }
}

/// The heading of the text report's process list.
pub open spec fn process_heading_text(total: nat) -> Seq<char> {
    if total > shown_processes(total) {
        seq!['P', 'R', 'O', 'C', 'E', 'S', 'S', 'E', 'S', ' ', '(', 's', 'h', 'o', 'w', 'i', 'n', 'g', ' ']
            + decimal(shown_processes(total)) + seq![' ', 'o', 'f', ' '] + decimal(total) + seq![
            ')',
            ':',
        ]
    } else {
        seq!['P', 'R', 'O', 'C', 'E', 'S', 'S', 'E', 'S', ' ', '('] + decimal(total) + seq![')', ':']
    }
}

/// How many of `total` processes the text report lists.
pub fn shown_process_count(total: usize) -> (r: usize)
    ensures
        r == shown_processes(total as nat),
{
    if total < TEXT_PROCESS_LIMIT {
        total
    } else {
        TEXT_PROCESS_LIMIT
    }
}

/// The heading of the text report's process list, e.g.
/// "PROCESSES (showing 15 of 20):" or "PROCESSES (3):".
pub fn process_heading(total: usize) -> (r: String)
    ensures
        r@ == process_heading_text(total as nat),
{
    let shown = shown_process_count(total);
    let mut out = String::new();
    if total > shown {
        push_all(
            &mut out,
            &['P', 'R', 'O', 'C', 'E', 'S', 'S', 'E', 'S', ' ', '(', 's', 'h', 'o', 'w', 'i', 'n', 'g', ' '],
        );
        push_decimal(&mut out, shown as u64);
        push_all(&mut out, &[' ', 'o', 'f', ' ']);
        push_decimal(&mut out, total as u64);
        push_all(&mut out, &[')', ':']);
    } else {
        push_all(&mut out, &['P', 'R', 'O', 'C', 'E', 'S', 'S', 'E', 'S', ' ', '(']);
        push_decimal(&mut out, total as u64);
        push_all(&mut out, &[')', ':']);
    }
    assert(out@ =~= process_heading_text(total as nat));
    out
}

/// `s`, or `fallback` when `s` is empty.
pub fn non_empty<'a>(s: &'a str, fallback: &'a str) -> (r: &'a str)
    ensures
        r@ == if s@.len() == 0 {
            fallback@
        } else {
            s@
        },
{
    if s.unicode_len() == 0 {
        fallback
    } else {
        s
    }
}

/// `s` without its trailing path separators (`\\` and `/`).
pub open spec fn without_trailing_separators(s: Seq<char>) -> Seq<char>
    decreases s.len(),
{
    if s.len() > 0 && (s.last() == '\\' || s.last() == '/') {
        without_trailing_separators(s.drop_last())
    } else {
        s
    }
}

/// The label of a drive in the text report: its root path without the
/// trailing separators ("C:\\" gives "C:").
pub fn drive_label(mount: &str) -> (r: String)
    ensures
        r@ == without_trailing_separators(mount@),
{
    let v = chars_of(mount);
    let mut end: usize = v.len();
    assert(v@.subrange(0, end as int) =~= v@);
    while end > 0 && (v[end - 1] == '\\' || v[end - 1] == '/')
        invariant
            end <= v@.len(),
            without_trailing_separators(v@.subrange(0, end as int)) == without_trailing_separators(
                v@,
            ),
        decreases end,
    {
        assert(v@.subrange(0, end as int).drop_last() =~= v@.subrange(0, end - 1));
        end = end - 1;
    }
    string_of_range(&v, 0, end)
}


/// Every argument is `--once` or `--json`.
pub open spec fn only_snapshot_flags(args: Seq<Seq<char>>) -> bool {
    forall|i: int| 0 <= i < args.len() ==> #[trigger] args[i] == "--once"@ || args[i] == "--json"@
}

proof fn lemma_scan_snapshot_flags(args: Seq<Seq<char>>, i: int, once: bool, json: bool)
    requires
        0 <= i <= args.len(),
        only_snapshot_flags(args),
    ensures
        scan_args(args, i, once, json) == (if once || json || i < args.len() {
            RequestModel::Snapshot {
                json: json || args.subrange(i, args.len() as int).contains("--json"@),
            }
        } else {
            RequestModel::Tui
        }),
    decreases args.len() - i,
{
    reveal_strlit("--once");
    reveal_strlit("--json");
    let rest = args.subrange(i, args.len() as int);
    if i < args.len() {
        let a = args[i];
        assert(a == "--once"@ || a == "--json"@);
        assert("--once"@ != "--json"@) by {
            assert("--once"@[2] != "--json"@[2]);
        }
        let next = args.subrange(i + 1, args.len() as int);
        assert(rest == seq![a] + next);
        assert(rest.contains("--json"@) <==> (a == "--json"@ || next.contains("--json"@))) by {
            if rest.contains("--json"@) {
                let k = choose|k: int| 0 <= k < rest.len() && rest[k] == "--json"@;
                if k > 0 {
                    assert(next[k - 1] == rest[k]);
                }
            }
            if next.contains("--json"@) {
                let k = choose|k: int| 0 <= k < next.len() && next[k] == "--json"@;
                assert(rest[k + 1] == next[k]);
            }
            if a == "--json"@ {
                assert(rest[0] == a);
            }
        }
        if a == "--once"@ {
            lemma_scan_snapshot_flags(args, i + 1, true, json);
        } else {
            lemma_scan_snapshot_flags(args, i + 1, once, true);
        }
    } else {
        assert(rest.len() == 0);
    }
}

/// Arguments made only of `--once` and `--json` flags, at least one, ask
/// for a one-shot snapshot, printed as JSON exactly when `--json` is among
/// them; with no argument at all the TUI runs.
pub proof fn law_snapshot_flags(args: Seq<Seq<char>>)
    requires
        only_snapshot_flags(args),
    ensures
        args.len() > 0 ==> request_of(args) == (RequestModel::Snapshot {
            json: args.contains("--json"@),
        }),
        args.len() == 0 ==> request_of(args) == RequestModel::Tui,
{
    lemma_scan_snapshot_flags(args, 0, false, false);
    assert(args.subrange(0, args.len() as int) =~= args);
}


/// The scan stops at the first argument that is not `--once` or `--json`:
/// `-h` or `--help` there asks for the usage text, anything else is refused
/// by name, whatever follows.
pub proof fn law_first_other_argument_decides(args: Seq<Seq<char>>, k: int)
    requires
        0 <= k < args.len(),
        only_snapshot_flags(args.take(k)),
        args[k] != "--once"@,
        args[k] != "--json"@,
    ensures
        (args[k] == "-h"@ || args[k] == "--help"@) ==> request_of(args) == RequestModel::Usage,
        !(args[k] == "-h"@ || args[k] == "--help"@) ==> request_of(args)
            == RequestModel::Unrecognized(args[k]),
{
    lemma_scan_until(args, k, 0, false, false);
}

proof fn lemma_scan_until(args: Seq<Seq<char>>, k: int, i: int, once: bool, json: bool)
    requires
        0 <= i <= k < args.len(),
        only_snapshot_flags(args.take(k)),
        args[k] != "--once"@,
        args[k] != "--json"@,
    ensures
        (args[k] == "-h"@ || args[k] == "--help"@) ==> scan_args(args, i, once, json)
            == RequestModel::Usage,
        !(args[k] == "-h"@ || args[k] == "--help"@) ==> scan_args(args, i, once, json)
            == RequestModel::Unrecognized(args[k]),
    decreases k - i,
{
    if i < k {
        assert(args.take(k)[i] == args[i]);
        lemma_scan_until(args, k, i + 1, true, json);
        lemma_scan_until(args, k, i + 1, once, true);
    }
}


/// The text report lists at most 15 processes, all of them when there are
/// no more, and its heading says "showing 15 of N" exactly when some are
/// left out.
pub proof fn law_text_report_cap(total: nat)
    ensures
        shown_processes(total) == (if total <= 15 {
            total
        } else {
            15
        }),
        total > 15 ==> process_heading_text(total) == seq![
            'P', 'R', 'O', 'C', 'E', 'S', 'S', 'E', 'S', ' ', '(', 's', 'h', 'o', 'w', 'i', 'n', 'g', ' ',
            '1', '5', ' ', 'o', 'f', ' '
        ] + decimal(total) + seq![')', ':'],
        total <= 15 ==> process_heading_text(total) == seq![
            'P', 'R', 'O', 'C', 'E', 'S', 'S', 'E', 'S', ' ', '('
        ] + decimal(total) + seq![')', ':'],
{
    if total > 15 {
        reveal_with_fuel(decimal, 3);
        assert(decimal(15) =~= seq!['1', '5']);
        assert(seq![
            'P', 'R', 'O', 'C', 'E', 'S', 'S', 'E', 'S', ' ', '(', 's', 'h', 'o', 'w', 'i', 'n', 'g', ' '
        ] + decimal(15) + seq![' ', 'o', 'f', ' '] =~= seq![
            'P', 'R', 'O', 'C', 'E', 'S', 'S', 'E', 'S', ' ', '(', 's', 'h', 'o', 'w', 'i', 'n', 'g', ' ',
            '1', '5', ' ', 'o', 'f', ' '
        ]);
    }
}

/// A drive's label is its root path with the trailing separators removed,
/// and only those: it does not end with a separator, and the path is the
/// label followed by separators.
pub proof fn law_drive_label(mount: Seq<char>)
    ensures
        ({
            let l = without_trailing_separators(mount);
            &&& l.len() <= mount.len()
            &&& l == mount.subrange(0, l.len() as int)
            &&& forall|k: int| l.len() <= k < mount.len() ==> (#[trigger] mount[k] == '\\' || mount[k] == '/')
            &&& l.len() > 0 ==> !(l.last() == '\\' || l.last() == '/')
        }),
    decreases mount.len(),
{
    if mount.len() > 0 && (mount.last() == '\\' || mount.last() == '/') {
        law_drive_label(mount.drop_last());
        let l = without_trailing_separators(mount);
        assert(mount.drop_last().subrange(0, l.len() as int) =~= mount.subrange(0, l.len() as int));
        assert forall|k: int| l.len() <= k < mount.len() implies (#[trigger] mount[k] == '\\' || mount[k] == '/') by {
            if k < mount.len() - 1 {
                assert(mount[k] == mount.drop_last()[k]);
            }
        }
    } else {
        assert(mount.subrange(0, mount.len() as int) =~= mount);
    }
}

} // verus!
