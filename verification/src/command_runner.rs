use vstd::prelude::*;

use crate::text::{
    first_line, lemma_line_len_unique, split_whitespace_tokens, split_ws, trim, trimmed,
};

verus! {

/// Errors that abort a whole run of commands.
pub enum CommandRunnerError {
    TerminalError(String),
    ExecutionError(String),
}

impl CommandRunnerError {
    /// The detail string carried by either variant.
    pub open spec fn payload(&self) -> String {
        match self {
            CommandRunnerError::TerminalError(s) => *s,
            CommandRunnerError::ExecutionError(s) => *s,
        }
    }

    /// The user-visible description of the error.
    pub fn message(&self) -> (r: String)
        ensures
            r@ == "Error executing commands:\n"@ + self.payload()@,
    {
        let s = match self {
            CommandRunnerError::TerminalError(s) => s,
            CommandRunnerError::ExecutionError(s) => s,
        };
        String::from_str("Error executing commands:\n").concat(s.as_str())
    }
}

/// Final classification of one command's execution, produced exactly once
/// per command.
#[derive(Debug, PartialEq, Eq)]
pub enum ExecutionOutcome {
    /// The process exited with a success status.
    Success,
    /// The process exited with a failure status; the payload is the first
    /// line of its standard-error stream, trimmed of white space.
    Failure(String),
    /// The process could not be started at all.
    LaunchFailure,
}

/// What one command's process did, as observed by the surrounding runner.
pub enum ProcessEvent {
    /// The process could not be started.
    LaunchFailed,
    /// The process ran to completion: whether it exited successfully, and
    /// the bytes it wrote to standard error.
    Exited(bool, Vec<u8>),
}

/// The first line of a standard-error stream: its UTF-8 decoding up to the
/// first line feed, trimmed of white space, or empty when the bytes are not
/// valid UTF-8.
pub open spec fn stderr_first_line_spec(bytes: Seq<u8>) -> Seq<char> {
    if vstd::utf8::valid_utf8(bytes) {
        trimmed(first_line(vstd::utf8::decode_utf8(bytes)))
    } else {
        Seq::empty()
    }
}

/// Relies on `String::from_utf8`: `Ok` holds the UTF-8 decoding of the
/// bytes, and decoding fails exactly when the bytes are not valid UTF-8.
#[verifier::external_body]
fn decode_utf8_vec(bytes: Vec<u8>) -> (r: Option<String>)
    ensures
        (match r {
            Some(s) => vstd::utf8::valid_utf8(bytes@) && s@ == vstd::utf8::decode_utf8(bytes@),
            None => !vstd::utf8::valid_utf8(bytes@),
        }),
{
    String::from_utf8(bytes).ok()
}

/// Extracts the first line of a captured standard-error stream, trimmed of
/// leading and trailing white space; a stream that is empty or not valid
/// UTF-8 gives the empty string.
pub fn stderr_first_line(stderr: Vec<u8>) -> (r: String)
    ensures
        r@ == stderr_first_line_spec(stderr@),
{
    match decode_utf8_vec(stderr) {
        None => String::new(),
        Some(text) => {
            let s = text.as_str();
            let n = s.unicode_len();
            let mut k: usize = 0;
            while k < n && s.get_char(k) != '\n'
                invariant
                    0 <= k <= n,
                    n == s@.len(),
                    forall|j: int| 0 <= j < k ==> s@[j] != '\n',
                decreases n - k,
            {
                k = k + 1;
            }
            proof {
                lemma_line_len_unique(s@, k as int);
                assert(s@.take(k as int) =~= s@.subrange(0, k as int));
            }
            let line = s.substring_char(0, k);
            let t = trim(line);
            String::from_str(t)
        },
    }
}

/// Classifies what a command's process did. A process that could not be
/// started is a launch failure and never anything else; one that exited
/// successfully is a success; one that exited with a failure status carries
/// the first line of its standard error.
pub fn classify(event: ProcessEvent) -> (o: ExecutionOutcome)
    ensures
        event is LaunchFailed <==> o is LaunchFailure,
        event matches ProcessEvent::Exited(ok, stderr) ==> (if ok {
            o is Success
        } else {
            o matches ExecutionOutcome::Failure(line) && line@ == stderr_first_line_spec(stderr@)
        }),
{
    match event {
        ProcessEvent::LaunchFailed => ExecutionOutcome::LaunchFailure,
        ProcessEvent::Exited(ok, stderr) => {
            if ok {
                ExecutionOutcome::Success
            } else {
                ExecutionOutcome::Failure(stderr_first_line(stderr))
            }
        },
    }
}

/// Length of the label of `p`, in characters.
pub open spec fn label_len(p: (String, String)) -> nat {
    p.0@.len()
}

/// Greatest label length across the commands; 0 when there are none.
pub open spec fn max_label_len(cmds: Seq<(String, String)>) -> nat
    decreases cmds.len(),
{
    if cmds.len() == 0 {
        0
    } else {
        let rest = max_label_len(cmds.drop_last());
        if label_len(cmds.last()) > rest {
            label_len(cmds.last())
        } else {
            rest
        }
    }
}

pub proof fn lemma_max_label_len_bound(cmds: Seq<(String, String)>, i: int)
    requires
        0 <= i < cmds.len(),
    ensures
        label_len(cmds[i]) <= max_label_len(cmds),
    decreases cmds.len(),
{
    if i < cmds.len() - 1 {
        lemma_max_label_len_bound(cmds.drop_last(), i);
    }
}

/// Law: when every label is empty — in particular when the command list
/// itself is empty — the greatest label length is 0, so the status column
/// is 1.
pub proof fn lemma_max_label_len_all_empty(cmds: Seq<(String, String)>)
    requires
        forall|i: int| 0 <= i < cmds.len() ==> label_len(cmds[i]) == 0,
    ensures
        max_label_len(cmds) == 0,
    decreases cmds.len(),
{
    if cmds.len() > 0 {
        lemma_max_label_len_all_empty(cmds.drop_last());
    }
}

/// The greatest label length across the commands, as the widest column the
/// labels need.
pub fn get_max_command_length(commands: &[(String, String)]) -> (r: u16)
    requires
        max_label_len(commands@) <= u16::MAX,
    ensures
        r == max_label_len(commands@),
{
    let mut m: u16 = 0;
    let mut i: usize = 0;
    proof {
        assert(commands@.take(0) =~= Seq::<(String, String)>::empty());
    }
    while i < commands.len()
        invariant
            0 <= i <= commands@.len(),
            max_label_len(commands@) <= u16::MAX,
            m == max_label_len(commands@.take(i as int)),
        decreases commands@.len() - i,
    {
        let l = commands[i].0.as_str().unicode_len();
        proof {
            lemma_max_label_len_bound(commands@, i as int);
            assert(commands@.take(i + 1).drop_last() =~= commands@.take(i as int));
            assert(commands@.take(i + 1).last() == commands@[i as int]);
        }
        if l > m as usize {
            m = l as u16;
        }
        i = i + 1;
    }
    proof {
        assert(commands@.take(commands@.len() as int) =~= commands@);
    }
    m
}

/// Fixed screen layout of one run, computed once before any command starts
/// and never recomputed.
#[verifier::ext_equal]
pub struct Layout {
    /// Terminal row of the first command: the cursor row when the run began.
    pub base_row: usize,
    /// Column where every command's status text starts: one past the widest
    /// label.
    pub status_column: usize,
}

/// What the layout of a run over `cmds` starting at `base_row` must be.
pub open spec fn is_layout_for(l: Layout, cmds: Seq<(String, String)>, base_row: nat) -> bool {
    l.base_row == base_row && l.status_column == max_label_len(cmds) + 1
}

/// The terminal row assigned to command `i`.
pub open spec fn row_of(l: Layout, i: int) -> int {
    l.base_row + i
}

/// Computes the layout of a run: the commands keep the starting cursor row
/// as their base row, and the status column sits one past the widest label.
pub fn compute_layout(commands: &[(String, String)], base_row: usize) -> (l: Layout)
    requires
        max_label_len(commands@) < usize::MAX,
    ensures
        is_layout_for(l, commands@, base_row as nat),
        l.base_row == base_row,
        l.status_column == max_label_len(commands@) + 1,
{
    let mut m: usize = 0;
    let mut i: usize = 0;
    proof {
        assert(commands@.take(0) =~= Seq::<(String, String)>::empty());
    }
    while i < commands.len()
        invariant
            0 <= i <= commands@.len(),
            max_label_len(commands@) < usize::MAX,
            m == max_label_len(commands@.take(i as int)),
        decreases commands@.len() - i,
    {
        let l = commands[i].0.as_str().unicode_len();
        proof {
            lemma_max_label_len_bound(commands@, i as int);
            assert(commands@.take(i + 1).drop_last() =~= commands@.take(i as int));
            assert(commands@.take(i + 1).last() == commands@[i as int]);
        }
        if l > m {
            m = l;
        }
        i = i + 1;
    }
    proof {
        assert(commands@.take(commands@.len() as int) =~= commands@);
    }
    Layout { base_row, status_column: m + 1 }
}

/// One position-addressed terminal write: the text and the cell where it
/// starts. Every write of a run is preceded by a cursor move to this
/// explicit cell, so concurrent writers never corrupt each other's region.
pub struct WriteOp {
    pub col: usize,
    pub row: usize,
    pub text: String,
}

/// The write that puts command `i`'s label at the left edge of its own row.
pub fn label_write(l: &Layout, i: usize, label: &String) -> (op: WriteOp)
    requires
        l.base_row + i <= usize::MAX,
    ensures
        op.col == 0,
        op.row == row_of(*l, i as int),
        op.text@ == label@,
{
    WriteOp { col: 0, row: l.base_row + i, text: label.clone() }
}

/// The status text rendered for an outcome.
pub open spec fn status_text_spec(o: ExecutionOutcome) -> Seq<char> {
    match o {
        ExecutionOutcome::Success => "OK ✔️"@,
        ExecutionOutcome::Failure(line) => "KO ❌ "@ + line@,
        ExecutionOutcome::LaunchFailure => "Failed to execute command"@,
    }
}

/// Renders an outcome as its status text.
pub fn status_text(o: &ExecutionOutcome) -> (r: String)
    ensures
        r@ == status_text_spec(*o),
{
    match o {
        ExecutionOutcome::Success => String::from_str("OK ✔️"),
        ExecutionOutcome::Failure(line) => String::from_str("KO ❌ ").concat(line.as_str()),
        ExecutionOutcome::LaunchFailure => String::from_str("Failed to execute command"),
    }
}

/// The write that puts command `i`'s status text at the status column of its
/// own row.
pub fn status_write(l: &Layout, i: usize, outcome: &ExecutionOutcome) -> (op: WriteOp)
    requires
        l.base_row + i <= usize::MAX,
    ensures
        op.col == l.status_column,
        op.row == row_of(*l, i as int),
        op.text@ == status_text_spec(*outcome),
{
    WriteOp { col: l.status_column, row: l.base_row + i, text: status_text(outcome) }
}

/// Where the cursor rests after a run over `command_count` commands:
/// column 0, one row below the last command.
pub fn rest_position(l: &Layout, command_count: usize) -> (r: (usize, usize))
    requires
        l.base_row + command_count <= usize::MAX,
    ensures
        r.0 == 0,
        r.1 == l.base_row + command_count,
{
    (0, l.base_row + command_count)
}

/// How a command line is launched: the first white-space-separated token is
/// the executable, the remaining tokens its arguments. A command line with
/// no tokens cannot be launched at all.
pub fn launch_plan(command: &str) -> (r: Option<(String, Vec<String>)>)
    ensures
        r is None <==> split_ws(command@).len() == 0,
        r matches Some(p) ==> p.0@ == split_ws(command@)[0] && p.1.deep_view() == split_ws(
            command@,
        ).skip(1),
{
    let mut toks = split_whitespace_tokens(command);
    if toks.len() == 0 {
        None
    } else {
        let ghost all = toks.deep_view();
        let prog = toks.remove(0);
        proof {
            assert(toks.deep_view() =~= all.skip(1));
        }
        Some((prog, toks))
    }
}

/// The statuses a run renders, as (column, row, text) triples: one per
/// command, each at its own row.
pub open spec fn status_ops_of(l: Layout, outcomes: Seq<ExecutionOutcome>) -> Seq<
    (int, int, Seq<char>),
> {
    Seq::new(
        outcomes.len(),
        |i: int| (l.status_column as int, row_of(l, i), status_text_spec(outcomes[i])),
    )
}

/// Law: a run renders exactly one status per command — none for an empty
/// command list — the one for command `i` at row `base_row + i`, and no two
/// commands share a row.
pub proof fn lemma_one_status_per_command(l: Layout, outcomes: Seq<ExecutionOutcome>)
    ensures
        status_ops_of(l, outcomes).len() == outcomes.len(),
        forall|i: int|
            0 <= i < outcomes.len() ==> (#[trigger] status_ops_of(l, outcomes)[i]).1 == l.base_row
                + i,
        forall|i: int, j: int|
            0 <= i < outcomes.len() && 0 <= j < outcomes.len() && i != j ==> (#[trigger] status_ops_of(
                l,
                outcomes,
            )[i]).1 != (#[trigger] status_ops_of(l, outcomes)[j]).1,
{
}

/// Law: the layout is a function of the command list and the starting
/// cursor row alone — two runs over the same input from the same row get
/// the same status column and the same row for every command.
pub proof fn lemma_layout_idempotent(
    l1: Layout,
    l2: Layout,
    cmds: Seq<(String, String)>,
    base_row: nat,
)
    requires
        is_layout_for(l1, cmds, base_row),
        is_layout_for(l2, cmds, base_row),
    ensures
        l1 == l2,
        forall|i: int| row_of(l1, i) == row_of(l2, i),
{
    assert(l1 =~= l2);
}

/// Where the cursor rests after a run over `n` commands.
pub open spec fn rest_of(l: Layout, n: nat) -> (int, int) {
    (0, l.base_row + n)
}

/// Law: after a run over N commands starting at base row R the cursor rests
/// at (0, R + N), independent of the outcomes — two runs of equal length
/// rest at the same place however many commands failed.
pub proof fn lemma_rest_position_independent(
    l: Layout,
    outcomes1: Seq<ExecutionOutcome>,
    outcomes2: Seq<ExecutionOutcome>,
)
    requires
        outcomes1.len() == outcomes2.len(),
    ensures
        rest_of(l, outcomes1.len()) == rest_of(l, outcomes2.len()),
        rest_of(l, outcomes1.len()).0 == 0,
        rest_of(l, outcomes1.len()).1 == l.base_row + outcomes1.len(),
{
}

} // verus!
