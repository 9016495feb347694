//! The conversation between the library and the `adb` binary.
//!
//! Every operation is a small state machine: given the outcomes of the
//! commands run so far (its history), it answers either with the next
//! command line to run or with its final result. The program that owns the
//! processes runs each requested command and calls the operation again with
//! the outcome appended to the history.
use vstd::prelude::*;
use crate::text::{concat, copy_str, trim, trim_str};

verus! {

/// What became of one command that was asked for.
#[derive(Debug, PartialEq, Eq)]
pub enum Outcome {
    /// The process ran and exited; `success` is its exit status.
    Exited { success: bool, stdout: Vec<u8>, stderr: Vec<u8> },
    /// The process could not be started; the text says why.
    NotStarted(String),
}

/// The mathematical model of an [`Outcome`].
pub enum OutcomeView {
    Exited { success: bool, stdout: Seq<u8>, stderr: Seq<u8> },
    NotStarted(Seq<char>),
}

impl View for Outcome {
    type V = OutcomeView;

    open spec fn view(&self) -> OutcomeView {
        match self {
            Outcome::Exited { success, stdout, stderr } => OutcomeView::Exited {
                success: *success,
                stdout: stdout@,
                stderr: stderr@,
            },
            Outcome::NotStarted(e) => OutcomeView::NotStarted(e@),
        }
    }
}

/// The models of a history of outcomes.
pub open spec fn history_of(h: Seq<Outcome>) -> Seq<OutcomeView> {
    h.map_values(|o: Outcome| o@)
}

/// The answer of an operation: run a command next, or finish.
#[derive(Debug, PartialEq, Eq)]
pub enum AdbStep<T> {
    /// Run `adb` with these arguments and report the outcome.
    Run(Vec<String>),
    /// The operation is over, with this result.
    Done(Result<T, String>),
}

/// The mathematical model of an [`AdbStep`].
pub enum StepView<V> {
    Run(Seq<Seq<char>>),
    Done(Result<V, Seq<char>>),
}

impl<T: DeepView> DeepView for AdbStep<T> {
    type V = StepView<T::V>;

    open spec fn deep_view(&self) -> StepView<T::V> {
        match self {
            AdbStep::Run(args) => StepView::Run(args.deep_view()),
            AdbStep::Done(Ok(t)) => StepView::Done(Ok(t.deep_view())),
            AdbStep::Done(Err(e)) => StepView::Done(Err(e@)),
        }
    }
}

/// The model of a result whose both sides are strings.
pub open spec fn text_result(r: Result<String, String>) -> Result<Seq<char>, Seq<char>> {
    match r {
        Ok(s) => Ok(s@),
        Err(e) => Err(e@),
    }
}

/// An operation that runs one command: first ask for `args`, then finish
/// with `result` of the first outcome.
pub open spec fn one_command<V>(
    args: Seq<Seq<char>>,
    hist: Seq<OutcomeView>,
    result: spec_fn(OutcomeView) -> Result<V, Seq<char>>,
) -> StepView<V> {
    if hist.len() == 0 {
        StepView::Run(args)
    } else {
        StepView::Done(result(hist[0]))
    }
}

/// The text that `String::from_utf8_lossy` makes of raw output bytes.
pub uninterp spec fn utf8_lossy(bytes: Seq<u8>) -> Seq<char>;

/// Raw output as text, without surrounding whitespace.
pub open spec fn text_of(bytes: Seq<u8>) -> Seq<char> {
    trim(utf8_lossy(bytes))
}

/// `with_device(d, rest)`: the arguments `rest`, addressed to device `d`
/// with `-s d` when one is chosen.
pub open spec fn with_device(device: Option<Seq<char>>, rest: Seq<Seq<char>>) -> Seq<Seq<char>> {
    match device {
        Some(d) => seq!["-s"@, d] + rest,
        None => rest,
    }
}

/// The error of a command that could not be started.
pub open spec fn run_failed(e: Seq<char>) -> Seq<char> {
    "无法执行 adb："@ + e
}

/// The result of a short command whose output is its answer: the first
/// non-empty of stdout and stderr on success (stdout first), of stderr and
/// stdout on failure (stderr first), both trimmed.
pub open spec fn capture(o: OutcomeView) -> Result<Seq<char>, Seq<char>> {
    match o {
        OutcomeView::NotStarted(e) => Err(run_failed(e)),
        OutcomeView::Exited { success, stdout, stderr } => {
            let out = text_of(stdout);
            let err = text_of(stderr);
            if success {
                Ok(
                    if out.len() == 0 {
                        err
                    } else {
                        out
                    },
                )
            } else {
                Err(
                    if err.len() == 0 {
                        out
                    } else {
                        err
                    },
                )
            }
        },
    }
}

/// The trimmed stdout of a shell query, whatever its exit status.
pub open spec fn shell_text(o: OutcomeView) -> Result<Seq<char>, Seq<char>> {
    match o {
        OutcomeView::NotStarted(e) => Err(run_failed(e)),
        OutcomeView::Exited { stdout, .. } => Ok(text_of(stdout)),
    }
}

/// The outcome of a command that answers only with its exit status: a
/// failure carries the trimmed stderr.
pub open spec fn status_only(o: OutcomeView) -> Result<(), Seq<char>> {
    match o {
        OutcomeView::NotStarted(e) => Err(run_failed(e)),
        OutcomeView::Exited { success, stderr, .. } => if success {
            Ok(())
        } else {
            Err(text_of(stderr))
        },
    }
}

// ---------------------------------------------------------------------
// Code
// ---------------------------------------------------------------------

/// Decodes raw process output with `String::from_utf8_lossy`: valid UTF-8
/// is decoded as is, and each invalid sequence becomes U+FFFD. The
/// contract names the result, and states the valid case.
#[verifier::external_body]
pub(crate) fn decode_lossy(bytes: &Vec<u8>) -> (res: String)
    ensures
        res@ == utf8_lossy(bytes@),
        vstd::utf8::valid_utf8(bytes@) ==> res@ == vstd::utf8::decode_utf8(bytes@),
{
    String::from_utf8_lossy(bytes.as_slice()).into_owned()
}

/// Raw output as text, without surrounding whitespace.
pub fn output_text(bytes: &Vec<u8>) -> (res: String)
    ensures
        res@ == text_of(bytes@),
{
    let s = decode_lossy(bytes);
    trim_str(s.as_str())
}

/// The strings of `parts`, in order.
pub fn strings(parts: &Vec<&str>) -> (res: Vec<String>)
    ensures
        res.deep_view() == parts.deep_view(),
{
    let mut res: Vec<String> = Vec::new();
    let mut i: usize = 0;
    while i < parts.len()
        invariant
            i <= parts.len(),
            res@.len() == i,
            res.deep_view() == parts.deep_view().take(i as int),
        decreases parts.len() - i,
    {
        let s = copy_str(parts[i]);
        let ghost before = res.deep_view();
        res.push(s);
        assert forall|k: int| 0 <= k < i + 1 implies #[trigger] res.deep_view()[k] == parts.deep_view()[k] by {
            if k < i {
                assert(before[k] == parts.deep_view().take(i as int)[k]);
            }
        }
        assert(res.deep_view() =~= parts.deep_view().take(i + 1));
        i = i + 1;
    }
    assert(parts.deep_view().take(parts.len() as int) =~= parts.deep_view());
    res
}

/// Appends one argument.
pub fn push_arg(v: &mut Vec<String>, s: String)
    ensures
        final(v).deep_view() == old(v).deep_view().push(s@),
{
    let ghost before = old(v)@;
    v.push(s);
    assert forall|k: int| 0 <= k < before.len() + 1 implies #[trigger] v.deep_view()[k]
        == old(v).deep_view().push(s@)[k] by {
        if k < before.len() {
            assert(v@[k] == before[k]);
        }
    }
    assert(v.deep_view() =~= old(v).deep_view().push(s@));
}

/// The arguments `rest`, addressed to `device` with `-s <device>` when one
/// is chosen.
pub fn device_args(device: Option<&str>, rest: Vec<String>) -> (res: Vec<String>)
    ensures
        res.deep_view() == with_device(device.deep_view(), rest.deep_view()),
{
    match device {
        Some(d) => {
            let mut res: Vec<String> = Vec::new();
            res.push(copy_str("-s"));
            res.push(copy_str(d));
            let mut i: usize = 0;
            while i < rest.len()
                invariant
                    i <= rest.len(),
                    res@.len() == i + 2,
                    res.deep_view() == seq!["-s"@, d@] + rest.deep_view().take(i as int),
                decreases rest.len() - i,
            {
                let s = rest[i].clone();
                let ghost before = res.deep_view();
                res.push(s);
                let ghost want = seq!["-s"@, d@] + rest.deep_view().take(i + 1);
                assert forall|k: int| 0 <= k < i + 3 implies #[trigger] res.deep_view()[k] == want[k] by {
                    if k < i + 2 {
                        assert(before[k] == (seq!["-s"@, d@] + rest.deep_view().take(i as int))[k]);
                    }
                }
                assert(res.deep_view() =~= want);
                i = i + 1;
            }
            assert(rest.deep_view().take(rest.len() as int) =~= rest.deep_view());
            res
        },
        None => rest,
    }
}

/// The error of a command that could not be started.
pub fn run_failed_message(e: &String) -> (res: String)
    ensures
        res@ == run_failed(e@),
{
    concat("无法执行 adb：", e.as_str())
}

/// The result of a short command whose output is its answer (see
/// [`capture`]).
pub fn capture_output(o: &Outcome) -> (res: Result<String, String>)
    ensures
        text_result(res) == capture(o@),
{
    match o {
        Outcome::NotStarted(e) => Err(run_failed_message(e)),
        Outcome::Exited { success, stdout, stderr } => {
            let out = output_text(stdout);
            let err = output_text(stderr);
            if *success {
                Ok(
                    if out.as_str().is_empty() {
                        err
                    } else {
                        out
                    },
                )
            } else {
                Err(
                    if err.as_str().is_empty() {
                        out
                    } else {
                        err
                    },
                )
            }
        },
    }
}

/// The trimmed stdout of a shell query (see [`shell_text`]).
pub fn shell_output(o: &Outcome) -> (res: Result<String, String>)
    ensures
        text_result(res) == shell_text(o@),
{
    match o {
        Outcome::NotStarted(e) => Err(run_failed_message(e)),
        Outcome::Exited { stdout, .. } => Ok(output_text(stdout)),
    }
}

/// The outcome of a command that answers with its status only (see
/// [`status_only`]).
pub fn status_result(o: &Outcome) -> (res: Result<(), String>)
    ensures
        match (res, status_only(o@)) {
            (Ok(()), Ok(())) => true,
            (Err(e), Err(f)) => e@ == f,
            _ => false,
        },
{
    match o {
        Outcome::NotStarted(e) => Err(run_failed_message(e)),
        Outcome::Exited { success, stderr, .. } => if *success {
            Ok(())
        } else {
            Err(output_text(stderr))
        },
    }
}

} // verus!
