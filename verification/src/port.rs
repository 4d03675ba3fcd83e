//! Freeing a port: the process that listens on it is found and ended, first
//! politely and then by force.

use vstd::prelude::*;
use vstd::string::*;

use crate::command::decode;
#[allow(unused_imports)]
use crate::command::decoded;
use crate::number::{decimal_text, parse_i32, signed_decimal_text};
#[allow(unused_imports)]
use crate::number::{decimal, i32_of, signed_decimal};
use crate::text::{chars_of, trimmed, white_space};
#[allow(unused_imports)]
use crate::text::{after_last, is_white_space, texts, trim, trim_start};
#[allow(unused_imports)]
use crate::text_laws::{trim_drops_what_is_round_a_text, trim_start_cuts_the_front};

verus! {

/// How long a process is given to end when it is asked to, in milliseconds.
pub const TERM_WAIT_MILLIS: u64 = 500;

/// How long a process is given to end when it is made to, in milliseconds.
pub const KILL_WAIT_MILLIS: u64 = 100;

/// What is being done to free a port.
#[derive(Debug, Clone, Copy, PartialEq, Eq, Structural)]
pub enum PortStage {
    /// Ask `fuser` who listens.
    AskFuser,
    /// Ask `lsof` who listens, where `fuser` has no answer or is not there.
    AskLsof,
    /// Ask the process to end.
    Terminate { pid: i32 },
    /// Give it time to end.
    AwaitTermination { pid: i32 },
    /// See whether it has ended.
    CheckTermination { pid: i32 },
    /// Make it end.
    Kill { pid: i32 },
    /// Give it time to end.
    AwaitKill { pid: i32 },
    /// See whether it has ended, for the last time.
    CheckEnd { pid: i32 },
    /// Nothing more; the port is free or it is not.
    Over { free: bool },
}

/// A program with its arguments.
#[derive(Debug)]
pub struct ProcessCall {
    pub program: String,
    pub args: Vec<String>,
}

/// A program with its arguments, as a mathematical value.
pub struct CallView {
    pub program: Seq<char>,
    pub args: Seq<Seq<char>>,
}

impl View for ProcessCall {
    type V = CallView;

    open spec fn view(&self) -> CallView {
        CallView { program: self.program@, args: texts(self.args@) }
    }
}

/// What is to be done outside.
#[derive(Debug)]
pub enum PortAction {
    /// Run a program and hand back what it writes.
    Capture { call: ProcessCall },
    /// Run a program and hand back how it ends.
    Run { call: ProcessCall },
    /// Wait.
    Sleep { millis: u64 },
    /// Nothing more.
    Finish { free: bool },
}

/// What is to be done outside, as a mathematical value.
pub enum PortActionView {
    Capture { call: CallView },
    Run { call: CallView },
    Sleep { millis: u64 },
    Finish { free: bool },
}

impl View for PortAction {
    type V = PortActionView;

    open spec fn view(&self) -> PortActionView {
        match *self {
            PortAction::Capture { call } => PortActionView::Capture { call: call@ },
            PortAction::Run { call } => PortActionView::Run { call: call@ },
            PortAction::Sleep { millis } => PortActionView::Sleep { millis },
            PortAction::Finish { free } => PortActionView::Finish { free },
        }
    }
}

/// How a program ended, and what it wrote where that was asked for.
#[derive(Debug)]
pub struct ProcessOutput {
    pub success: bool,
    pub stdout: Vec<u8>,
}

/// How a program ended, as a mathematical value.
pub struct OutputView {
    pub success: bool,
    pub stdout: Seq<u8>,
}

/// The result of an action: nothing for a wait and for a program that could
/// not be run.
pub open spec fn output(result: Option<ProcessOutput>) -> Option<OutputView> {
    match result {
        Some(out) => Some(OutputView { success: out.success, stdout: out.stdout@ }),
        None => None,
    }
}

pub open spec fn kill_call(args: Seq<Seq<char>>) -> PortActionView {
    PortActionView::Run { call: CallView { program: "kill"@, args } }
}

/// What is done at each stage.
pub open spec fn action_at(port: u16, stage: PortStage) -> PortActionView {
    match stage {
        PortStage::AskFuser => PortActionView::Capture {
            call: CallView {
                program: "fuser"@,
                args: seq![decimal(port as nat) + "/tcp"@],
            },
        },
        PortStage::AskLsof => PortActionView::Capture {
            call: CallView {
                program: "sh"@,
                args: seq![
                    "-c"@,
                    "lsof -ti tcp:"@ + decimal(port as nat) + " -sTCP:LISTEN 2>/dev/null"@,
                ],
            },
        },
        PortStage::Terminate { pid } => kill_call(seq![signed_decimal(pid as int)]),
        PortStage::AwaitTermination { pid } => PortActionView::Sleep { millis: TERM_WAIT_MILLIS },
        PortStage::CheckTermination { pid } => kill_call(
            seq!["-0"@, signed_decimal(pid as int)],
        ),
        PortStage::Kill { pid } => kill_call(seq!["-9"@, signed_decimal(pid as int)]),
        PortStage::AwaitKill { pid } => PortActionView::Sleep { millis: KILL_WAIT_MILLIS },
        PortStage::CheckEnd { pid } => kill_call(seq!["-0"@, signed_decimal(pid as int)]),
        PortStage::Over { free } => PortActionView::Finish { free },
    }
}

/// The process that `fuser` names last.
pub open spec fn fuser_pid(text: Seq<char>) -> Option<int> {
    i32_of(after_last(trim(text), |c: char| is_white_space(c)))
}

/// The process on the last line of `lsof`.
pub open spec fn lsof_pid(text: Seq<char>) -> Option<int> {
    i32_of(after_last(trim(text), |c: char| c == '\n'))
}

/// Where a process is found it is asked to end; else the port is free.
pub open spec fn after_finding(pid: Option<int>) -> PortStage {
    match pid {
        Some(pid) => PortStage::Terminate { pid: pid as i32 },
        None => PortStage::Over { free: true },
    }
}

/// A process is alive if it can be signalled.
pub open spec fn is_alive(result: Option<OutputView>) -> bool {
    result matches Some(out) && out.success
}

/// The stage that follows, given the result of the action at this one.
pub open spec fn next_stage(stage: PortStage, result: Option<OutputView>) -> PortStage {
    match stage {
        PortStage::AskFuser => match result {
            Some(out) => if out.success {
                after_finding(fuser_pid(decoded(out.stdout)))
            } else {
                PortStage::AskLsof
            },
            None => PortStage::AskLsof,
        },
        PortStage::AskLsof => match result {
            Some(out) => if out.success {
                after_finding(lsof_pid(decoded(out.stdout)))
            } else {
                PortStage::Over { free: true }
            },
            None => PortStage::Over { free: true },
        },
        PortStage::Terminate { pid } => PortStage::AwaitTermination { pid },
        PortStage::AwaitTermination { pid } => PortStage::CheckTermination { pid },
        PortStage::CheckTermination { pid } => if is_alive(result) {
            PortStage::Kill { pid }
        } else {
            PortStage::CheckEnd { pid }
        },
        PortStage::Kill { pid } => PortStage::AwaitKill { pid },
        PortStage::AwaitKill { pid } => PortStage::CheckEnd { pid },
        PortStage::CheckEnd { pid } => PortStage::Over { free: !is_alive(result) },
        PortStage::Over { free } => PortStage::Over { free },
    }
}

/// Where no stop follows `lo` and one stands before it, what follows the last
/// stop begins at `lo`.
proof fn after_last_at(s: Seq<char>, stop: spec_fn(char) -> bool, lo: int)
    requires
        0 <= lo <= s.len(),
        forall|i: int| lo <= i < s.len() ==> !stop(#[trigger] s[i]),
        lo > 0 ==> stop(s[lo - 1]),
    ensures
        after_last(s, stop) == s.skip(lo),
    decreases s.len(),
{
    if lo == s.len() {
        assert(s.skip(lo) =~= Seq::<char>::empty());
    } else {
        let shorter = s.drop_last();
        assert forall|i: int| lo <= i < shorter.len() implies !stop(#[trigger] shorter[i]) by {
            assert(shorter[i] == s[i]);
        }
        if lo > 0 {
            assert(shorter[lo - 1] == s[lo - 1]);
        }
        after_last_at(shorter, stop, lo);
        assert(!stop(s[s.len() - 1]));
        assert(shorter.skip(lo).push(s.last()) =~= s.skip(lo));
    }
}

/// Reads the process that `fuser` names last.
pub fn read_fuser(text: &str) -> (r: Option<i32>)
    ensures
        match r {
            Some(pid) => fuser_pid(text@) == Some(pid as int),
            None => fuser_pid(text@) is None,
        },
{
    let tight: &str = trimmed(text);
    let chars: Vec<char> = chars_of(tight);
    let n: usize = chars.len();
    let mut lo: usize = n;
    while lo > 0 && !white_space(chars[lo - 1])
        invariant
            lo <= n,
            n == tight@.len(),
            chars@ == tight@,
            forall|i: int| lo <= i < n ==> !is_white_space(#[trigger] tight@[i]),
        decreases lo,
    {
        lo = lo - 1;
    }
    proof {
        let stop = |c: char| is_white_space(c);
        assert forall|i: int| lo <= i < n implies !stop(#[trigger] tight@[i]) by {
            assert(!is_white_space(tight@[i]));
        }
        after_last_at(tight@, stop, lo as int);
        assert(tight@.skip(lo as int) =~= tight@.subrange(lo as int, n as int));
    }
    parse_i32(tight.substring_char(lo, n))
}

/// Reads the process on the last line of `lsof`.
pub fn read_lsof(text: &str) -> (r: Option<i32>)
    ensures
        match r {
            Some(pid) => lsof_pid(text@) == Some(pid as int),
            None => lsof_pid(text@) is None,
        },
{
    let tight: &str = trimmed(text);
    let chars: Vec<char> = chars_of(tight);
    let n: usize = chars.len();
    let mut lo: usize = n;
    while lo > 0 && chars[lo - 1] != '\n'
        invariant
            lo <= n,
            n == tight@.len(),
            chars@ == tight@,
            forall|i: int| lo <= i < n ==> #[trigger] tight@[i] != '\n',
        decreases lo,
    {
        lo = lo - 1;
    }
    proof {
        let stop = |c: char| c == '\n';
        assert forall|i: int| lo <= i < n implies !stop(#[trigger] tight@[i]) by {
            assert(tight@[i] != '\n');
        }
        after_last_at(tight@, stop, lo as int);
        assert(tight@.skip(lo as int) =~= tight@.subrange(lo as int, n as int));
    }
    parse_i32(tight.substring_char(lo, n))
}

/// A call of `program` with one argument.
fn call_with(program: &str, arg: String) -> (r: ProcessCall)
    ensures
        r@ == (CallView { program: program@, args: seq![arg@] }),
{
    let mut args: Vec<String> = Vec::new();
    args.push(arg);
    proof {
        assert(texts(args@) =~= seq![arg@]);
    }
    ProcessCall { program: program.to_owned(), args }
}

/// A call of `program` with an option and one argument.
fn call_with_option(program: &str, option: &str, arg: String) -> (r: ProcessCall)
    ensures
        r@ == (CallView { program: program@, args: seq![option@, arg@] }),
{
    let mut args: Vec<String> = Vec::new();
    args.push(option.to_owned());
    args.push(arg);
    proof {
        assert(texts(args@) =~= seq![option@, arg@]);
    }
    ProcessCall { program: program.to_owned(), args }
}

/// The freeing of one port.
#[derive(Debug)]
pub struct PortRelease {
    port: u16,
    stage: PortStage,
}

impl PortRelease {
    pub closed spec fn target(&self) -> u16 {
        self.port
    }

    pub closed spec fn stage(&self) -> PortStage {
        self.stage
    }

    /// Begins to free `port`.
    pub fn new(port: u16) -> (r: Self)
        ensures
            r.target() == port,
            r.stage() == PortStage::AskFuser,
    {
        PortRelease { port, stage: PortStage::AskFuser }
    }

    /// What is being done.
    pub fn current_stage(&self) -> (r: PortStage)
        ensures
            r == self.stage(),
    {
        self.stage
    }

    /// What is to be done now.
    pub fn action(&self) -> (r: PortAction)
        ensures
            r@ == action_at(self.target(), self.stage()),
    {
        match self.stage {
            PortStage::AskFuser => {
                let mut arg: String = decimal_text(self.port as u64);
                arg.append("/tcp");
                PortAction::Capture { call: call_with("fuser", arg) }
            },
            PortStage::AskLsof => {
                let mut script: String = "lsof -ti tcp:".to_owned();
                script.append(decimal_text(self.port as u64).as_str());
                script.append(" -sTCP:LISTEN 2>/dev/null");
                PortAction::Capture { call: call_with_option("sh", "-c", script) }
            },
            PortStage::Terminate { pid } => PortAction::Run {
                call: call_with("kill", signed_decimal_text(pid)),
            },
            PortStage::AwaitTermination { pid } => PortAction::Sleep { millis: TERM_WAIT_MILLIS },
            PortStage::CheckTermination { pid } => PortAction::Run {
                call: call_with_option("kill", "-0", signed_decimal_text(pid)),
            },
            PortStage::Kill { pid } => PortAction::Run {
                call: call_with_option("kill", "-9", signed_decimal_text(pid)),
            },
            PortStage::AwaitKill { pid } => PortAction::Sleep { millis: KILL_WAIT_MILLIS },
            PortStage::CheckEnd { pid } => PortAction::Run {
                call: call_with_option("kill", "-0", signed_decimal_text(pid)),
            },
            PortStage::Over { free } => PortAction::Finish { free },
        }
    }

    /// Goes on with the result of the action.
    pub fn advance(&mut self, result: &Option<ProcessOutput>)
        ensures
            final(self).target() == old(self).target(),
            final(self).stage() == next_stage(old(self).stage(), output(*result)),
    {
        let alive: bool = match result {
            Some(out) => out.success,
            None => false,
        };
        self.stage = match self.stage {
            PortStage::AskFuser => match result {
                Some(out) => if out.success {
                    found_stage(read_fuser(decode(out.stdout.as_slice()).as_str()))
                } else {
                    PortStage::AskLsof
                },
                None => PortStage::AskLsof,
            },
            PortStage::AskLsof => match result {
                Some(out) => if out.success {
                    found_stage(read_lsof(decode(out.stdout.as_slice()).as_str()))
                } else {
                    PortStage::Over { free: true }
                },
                None => PortStage::Over { free: true },
            },
            PortStage::Terminate { pid } => PortStage::AwaitTermination { pid },
            PortStage::AwaitTermination { pid } => PortStage::CheckTermination { pid },
            PortStage::CheckTermination { pid } => if alive {
                PortStage::Kill { pid }
            } else {
                PortStage::CheckEnd { pid }
            },
            PortStage::Kill { pid } => PortStage::AwaitKill { pid },
            PortStage::AwaitKill { pid } => PortStage::CheckEnd { pid },
            PortStage::CheckEnd { pid } => PortStage::Over { free: !alive },
            PortStage::Over { free } => PortStage::Over { free },
        };
    }
}

fn found_stage(pid: Option<i32>) -> (r: PortStage)
    ensures
        r == after_finding(
            match pid {
                Some(pid) => Some(pid as int),
                None => None,
            },
        ),
{
    match pid {
        Some(pid) => PortStage::Terminate { pid },
        None => PortStage::Over { free: true },
    }
}

/// `lsof` is asked wherever `fuser` fails or cannot be run, and a process is
/// asked to end only where one of the two has named it.
pub proof fn only_named_processes_are_ended(stage: PortStage, result: Option<OutputView>)
    ensures
        stage is AskFuser && (result is None || !result->0.success) ==> next_stage(stage, result)
            is AskLsof,
        next_stage(stage, result) matches PortStage::Terminate { pid } ==> {
            &&& result is Some
            &&& {
                ||| stage is AskFuser && fuser_pid(decoded(result->0.stdout)) == Some(pid as int)
                ||| stage is AskLsof && lsof_pid(decoded(result->0.stdout)) == Some(pid as int)
            }
        },
{
}

/// How many actions a stage can be away from the end.
pub open spec fn distance(stage: PortStage) -> nat {
    match stage {
        PortStage::AskFuser => 8,
        PortStage::AskLsof => 7,
        PortStage::Terminate { .. } => 6,
        PortStage::AwaitTermination { .. } => 5,
        PortStage::CheckTermination { .. } => 4,
        PortStage::Kill { .. } => 3,
        PortStage::AwaitKill { .. } => 2,
        PortStage::CheckEnd { .. } => 1,
        PortStage::Over { .. } => 0,
    }
}

/// The stage after a number of results.
pub open spec fn stage_after(stage: PortStage, results: Seq<Option<OutputView>>) -> PortStage
    decreases results.len(),
{
    if results.len() == 0 {
        stage
    } else {
        next_stage(stage_after(stage, results.drop_last()), results.last())
    }
}

/// Whatever the actions result in, freeing a port takes no more than eight of
/// them.
pub proof fn freeing_a_port_ends(results: Seq<Option<OutputView>>)
    ensures
        results.len() >= 8 ==> stage_after(PortStage::AskFuser, results) is Over,
{
    distance_shrinks(PortStage::AskFuser, results);
}

proof fn distance_shrinks(stage: PortStage, results: Seq<Option<OutputView>>)
    ensures
        distance(stage_after(stage, results)) == 0 || distance(stage_after(stage, results))
            + results.len() <= distance(stage),
    decreases results.len(),
{
    if results.len() > 0 {
        distance_shrinks(stage, results.drop_last());
    }
}

/// The process that a stage deals with.
pub open spec fn pid_at(stage: PortStage) -> Option<i32> {
    match stage {
        PortStage::Terminate { pid } => Some(pid),
        PortStage::AwaitTermination { pid } => Some(pid),
        PortStage::CheckTermination { pid } => Some(pid),
        PortStage::Kill { pid } => Some(pid),
        PortStage::AwaitKill { pid } => Some(pid),
        PortStage::CheckEnd { pid } => Some(pid),
        _ => None,
    }
}

/// Only the process that was found is dealt with, to the end; it is made to
/// end only where it is alive after it was asked to; and the port counts as
/// taken only where the process is alive at the last look.
pub proof fn force_is_the_last_resort(stage: PortStage, result: Option<OutputView>)
    ensures
        ({
            let next = next_stage(stage, result);
            &&& pid_at(stage) is Some && !(next is Over) ==> pid_at(next) == pid_at(stage)
            &&& next is Kill ==> stage is CheckTermination && is_alive(result)
            &&& next == (PortStage::Over { free: false }) && !(stage is Over) ==> stage is CheckEnd
                && is_alive(result)
        }),
{
}

/// A text that ends in a tight piece and white space is trimmed to something
/// that ends in the piece: `kept` is what is left before it.
proof fn trimmed_before_a_piece(before: Seq<char>, piece: Seq<char>, after: Seq<char>) -> (kept: Seq<
    char,
>)
    requires
        piece.len() > 0,
        !is_white_space(piece.first()),
        !is_white_space(piece.last()),
        forall|i: int| 0 <= i < after.len() ==> is_white_space(#[trigger] after[i]),
    ensures
        trim(before + piece + after) == kept + piece,
        kept.len() > 0 ==> kept.last() == before.last() && before.len() > 0,
{
    let kept = trim_start(before);
    let front = before.take(before.len() - kept.len());
    let tight = kept + piece;
    trim_start_cuts_the_front(before);
    assert(before =~= front + kept);
    assert forall|i: int| 0 <= i < front.len() implies is_white_space(#[trigger] front[i]) by {
        assert(front[i] == before[i]);
    }
    assert(tight.last() == piece.last());
    if kept.len() > 0 {
        assert(tight.first() == kept.first());
        assert(kept.last() == before.last());
    } else {
        assert(tight =~= piece);
    }
    trim_drops_what_is_round_a_text(front, tight, after);
    assert(before + piece + after =~= front + tight + after);
    kept
}

/// The process that `fuser` names is its last word, whole, whatever stands
/// before it and whatever white space follows it.
pub proof fn the_last_word_is_the_process(before: Seq<char>, word: Seq<char>, after: Seq<char>)
    requires
        before.len() > 0 ==> is_white_space(before.last()),
        word.len() > 0,
        forall|i: int| 0 <= i < word.len() ==> !is_white_space(#[trigger] word[i]),
        forall|i: int| 0 <= i < after.len() ==> is_white_space(#[trigger] after[i]),
    ensures
        fuser_pid(before + word + after) == i32_of(word),
{
    let stop = |c: char| is_white_space(c);
    assert(!is_white_space(word[0]) && !is_white_space(word[word.len() - 1]));
    let kept = trimmed_before_a_piece(before, word, after);
    let tight = kept + word;
    let lo = kept.len() as int;
    assert forall|i: int| lo <= i < tight.len() implies !stop(#[trigger] tight[i]) by {
        assert(tight[i] == word[i - lo]);
    }
    if lo > 0 {
        assert(tight[lo - 1] == kept.last());
    }
    after_last_at(tight, stop, lo);
    assert(tight.skip(lo) =~= word);
}

/// The process that `lsof` names is its last line, whole, whatever stands before
/// it and whatever white space follows it.
pub proof fn the_last_line_is_the_process(before: Seq<char>, line: Seq<char>, after: Seq<char>)
    requires
        before.len() > 0 ==> before.last() == '\n',
        line.len() > 0,
        !line.contains('\n'),
        !is_white_space(line.first()),
        !is_white_space(line.last()),
        forall|i: int| 0 <= i < after.len() ==> is_white_space(#[trigger] after[i]),
    ensures
        lsof_pid(before + line + after) == i32_of(line),
{
    let stop = |c: char| c == '\n';
    let kept = trimmed_before_a_piece(before, line, after);
    let tight = kept + line;
    let lo = kept.len() as int;
    assert forall|i: int| lo <= i < tight.len() implies !stop(#[trigger] tight[i]) by {
        assert(tight[i] == line[i - lo]);
        assert(line.contains(line[i - lo]));
    }
    if lo > 0 {
        assert(tight[lo - 1] == kept.last());
    }
    after_last_at(tight, stop, lo);
    assert(tight.skip(lo) =~= line);
}

/// A text of white space alone names no process.
pub proof fn white_space_names_nobody(text: Seq<char>)
    requires
        forall|i: int| 0 <= i < text.len() ==> is_white_space(#[trigger] text[i]),
    ensures
        fuser_pid(text) is None,
        lsof_pid(text) is None,
{
    let empty = Seq::<char>::empty();
    trim_drops_what_is_round_a_text(text, empty, empty);
    assert(text + empty + empty =~= text);
}

/// A process that is named is asked to end, and no other; where nobody is named
/// the port is free.
pub proof fn the_named_process_is_asked_to_end(out: OutputView)
    ensures
        out.success ==> (fuser_pid(decoded(out.stdout)) matches Some(pid) ==> next_stage(
            PortStage::AskFuser,
            Some(out),
        ) == (PortStage::Terminate { pid: pid as i32 }) && i32::MIN <= pid <= i32::MAX),
        out.success && fuser_pid(decoded(out.stdout)) is None ==> next_stage(
            PortStage::AskFuser,
            Some(out),
        ) == (PortStage::Over { free: true }),
        !out.success ==> next_stage(PortStage::AskFuser, Some(out)) is AskLsof,
        next_stage(PortStage::AskFuser, None) is AskLsof,
        out.success ==> (lsof_pid(decoded(out.stdout)) matches Some(pid) ==> next_stage(
            PortStage::AskLsof,
            Some(out),
        ) == (PortStage::Terminate { pid: pid as i32 }) && i32::MIN <= pid <= i32::MAX),
        out.success && lsof_pid(decoded(out.stdout)) is None ==> next_stage(
            PortStage::AskLsof,
            Some(out),
        ) == (PortStage::Over { free: true }),
        !out.success ==> next_stage(PortStage::AskLsof, Some(out)) == (PortStage::Over {
            free: true,
        }),
        next_stage(PortStage::AskLsof, None) == (PortStage::Over { free: true }),
{
}

/// A process that was asked to end is looked at after a while. Where it is
/// alive it is made to end and looked at again after a while; the port is free
/// if and only if the process is not alive at the last look.
pub proof fn a_process_is_ended_step_by_step(
    pid: i32,
    asked: Option<OutputView>,
    waited: Option<OutputView>,
    look: Option<OutputView>,
    made: Option<OutputView>,
    rested: Option<OutputView>,
    last: Option<OutputView>,
)
    ensures
        ({
            let looked_at = next_stage(next_stage(PortStage::Terminate { pid }, asked), waited);
            let then = next_stage(looked_at, look);
            let alive = look is Some && look->0.success;
            let free = !(last is Some && last->0.success);
            &&& next_stage(PortStage::Terminate { pid }, asked) == (PortStage::AwaitTermination {
                pid,
            })
            &&& looked_at == (PortStage::CheckTermination { pid })
            &&& alive ==> then == (PortStage::Kill { pid }) && next_stage(then, made) == (
            PortStage::AwaitKill { pid }) && next_stage(next_stage(then, made), rested) == (
            PortStage::CheckEnd { pid })
            &&& !alive ==> then == (PortStage::CheckEnd { pid })
            &&& next_stage(PortStage::CheckEnd { pid }, last) == (PortStage::Over { free })
        }),
{
}

/// What is run at each stage: the port and the process that it is about stand in
/// the call, whole.
pub proof fn calls_name_the_port_and_the_process(port: u16, pid: i32, free: bool)
    ensures
        action_at(port, PortStage::AskFuser) == (PortActionView::Capture {
            call: CallView { program: "fuser"@, args: seq![decimal(port as nat) + "/tcp"@] },
        }),
        action_at(port, PortStage::AskLsof) == (PortActionView::Capture {
            call: CallView {
                program: "sh"@,
                args: seq![
                    "-c"@,
                    "lsof -ti tcp:"@ + decimal(port as nat) + " -sTCP:LISTEN 2>/dev/null"@,
                ],
            },
        }),
        action_at(port, PortStage::Terminate { pid }) == (PortActionView::Run {
            call: CallView { program: "kill"@, args: seq![signed_decimal(pid as int)] },
        }),
        action_at(port, PortStage::CheckTermination { pid }) == (PortActionView::Run {
            call: CallView { program: "kill"@, args: seq!["-0"@, signed_decimal(pid as int)] },
        }),
        action_at(port, PortStage::CheckEnd { pid }) == action_at(
            port,
            PortStage::CheckTermination { pid },
        ),
        action_at(port, PortStage::Kill { pid }) == (PortActionView::Run {
            call: CallView { program: "kill"@, args: seq!["-9"@, signed_decimal(pid as int)] },
        }),
        action_at(port, PortStage::AwaitTermination { pid }) == (PortActionView::Sleep {
            millis: 500,
        }),
        action_at(port, PortStage::AwaitKill { pid }) == (PortActionView::Sleep { millis: 100 }),
        action_at(port, PortStage::Over { free }) == (PortActionView::Finish { free }),
{
}

/// The result of a call is taken whole.
pub proof fn results_are_whole(result: Option<ProcessOutput>)
    ensures
        result matches Some(out) ==> output(result) == Some(
            OutputView { success: out.success, stdout: out.stdout@ },
        ),
        result is None ==> output(result) is None,
{
}

} // verus!
