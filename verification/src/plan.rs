//! Plans: what a procedure asks the host to do, as data. A plan is a list of steps; each step is
//! one operation on the host and what a failure of it means.
use vstd::prelude::*;
use vstd::string::StringExecFns;

use crate::text::{strs, texts, Text};

verus! {

/// A program and its arguments.
pub struct Command {
    pub bin: String,
    pub args: Vec<String>,
}

/// The model of a [`Command`].
#[verifier::ext_equal]
pub struct CommandView {
    pub bin: Text,
    pub args: Seq<Text>,
}

impl View for Command {
    type V = CommandView;

    open spec fn view(&self) -> CommandView {
        CommandView { bin: self.bin@, args: texts(self.args@) }
    }
}

/// The command of program `bin` with `args`.
pub open spec fn cmd(bin: Text, args: Seq<Text>) -> CommandView {
    CommandView { bin, args }
}

/// The commands of a list.
pub open spec fn commands(v: Seq<Command>) -> Seq<CommandView> {
    v.map_values(|c: Command| c@)
}

/// What a failure of a step means.
pub enum Need {
    /// The plan goes on.
    Optional,
    /// The plan ends, and the cause is reported as it is.
    Required,
    /// The plan ends, and the cause is reported under this context.
    Under(String),
}

/// The model of a [`Need`].
pub enum NeedView {
    Optional,
    Required,
    Under(Text),
}

impl View for Need {
    type V = NeedView;

    open spec fn view(&self) -> NeedView {
        match self {
            Need::Optional => NeedView::Optional,
            Need::Required => NeedView::Required,
            Need::Under(c) => NeedView::Under(c@),
        }
    }
}

/// A command that reads a text on its standard input, and how its failures are reported.
pub struct Feed {
    pub command: Command,
    pub input: String,
    /// The context of a failure to start the command.
    pub on_spawn: String,
    /// What a failure to wait for the command means.
    pub on_wait: Need,
    /// The error where the command exits without success.
    pub rejected: String,
}

/// The model of a [`Feed`].
#[verifier::ext_equal]
pub struct FeedView {
    pub command: CommandView,
    pub input: Text,
    pub on_spawn: Text,
    pub on_wait: NeedView,
    pub rejected: Text,
}

impl View for Feed {
    type V = FeedView;

    open spec fn view(&self) -> FeedView {
        FeedView {
            command: self.command@,
            input: self.input@,
            on_spawn: self.on_spawn@,
            on_wait: self.on_wait@,
            rejected: self.rejected@,
        }
    }
}

/// How far feeding a command got.
pub enum Fed {
    NotStarted(String),
    NoInput,
    NotWritten(String),
    NotAwaited(String),
    Exited(bool),
}

/// One operation on the host.
pub enum Op {
    /// Run the command; it succeeds where it exits with status zero.
    Run(Command),
    /// Run the command with its output discarded.
    Quiet(Command),
    /// Run a command with a text on its standard input.
    Feed(Feed),
    /// Write the file at a path, replacing what it held.
    Write(String, String),
    /// Remove the file at a path.
    Remove(String),
    /// Create the directory at a path, and those above it.
    MakeDirs(String),
    /// Wait for a number of milliseconds.
    Pause(u64),
    /// Report a line to the user on the error stream.
    Warn(String),
}

/// The model of an [`Op`].
#[verifier::ext_equal]
pub enum OpView {
    Run(CommandView),
    Quiet(CommandView),
    Feed(FeedView),
    Write(Text, Text),
    Remove(Text),
    MakeDirs(Text),
    Pause(u64),
    Warn(Text),
}

impl View for Op {
    type V = OpView;

    open spec fn view(&self) -> OpView {
        match self {
            Op::Run(c) => OpView::Run(c@),
            Op::Quiet(c) => OpView::Quiet(c@),
            Op::Feed(f) => OpView::Feed(f@),
            Op::Write(p, s) => OpView::Write(p@, s@),
            Op::Remove(p) => OpView::Remove(p@),
            Op::MakeDirs(p) => OpView::MakeDirs(p@),
            Op::Pause(n) => OpView::Pause(*n),
            Op::Warn(s) => OpView::Warn(s@),
        }
    }
}

/// An operation and what its failure means.
pub struct Step {
    pub op: Op,
    pub need: Need,
}

/// The model of a [`Step`].
#[verifier::ext_equal]
pub struct StepView {
    pub op: OpView,
    pub need: NeedView,
}

impl View for Step {
    type V = StepView;

    open spec fn view(&self) -> StepView {
        StepView { op: self.op@, need: self.need@ }
    }
}

/// A step whose failure is passed over.
pub open spec fn attempt(op: OpView) -> StepView {
    StepView { op, need: NeedView::Optional }
}

/// A step whose failure ends the plan.
pub open spec fn must(op: OpView) -> StepView {
    StepView { op, need: NeedView::Required }
}

/// A step whose failure ends the plan and is reported under a context.
pub open spec fn must_under(op: OpView, context: Text) -> StepView {
    StepView { op, need: NeedView::Under(context) }
}

/// The steps of a plan.
pub open spec fn steps(v: Seq<Step>) -> Seq<StepView> {
    v.map_values(|s: Step| s@)
}

/// The text of an error.
pub open spec fn result_text(r: Result<(), String>) -> Result<(), Text> {
    match r {
        Ok(()) => Ok(()),
        Err(e) => Err(e@),
    }
}

/// An error under a context, as it is reported: the context, a colon and the cause.
pub open spec fn under(context: Text, cause: Text) -> Text {
    context + ": "@ + cause
}

/// Puts an error under a context.
pub fn with_context(context: &str, cause: &str) -> (r: String)
    ensures
        r@ == under(context@, cause@),
{
    context.to_owned().concat(": ").concat(cause)
}

/// Copies a list of borrowed strings.
pub fn owned(args: &[&str]) -> (v: Vec<String>)
    ensures
        texts(v@) == strs(args@),
{
    let mut v: Vec<String> = Vec::new();
    let mut i: usize = 0;
    while i < args.len()
        invariant
            i <= args@.len(),
            texts(v@) == strs(args@.take(i as int)),
        decreases args@.len() - i,
    {
        let s: String = args[i].to_owned();
        let ghost old_v = v@;
        v.push(s);
        assert(texts(v@) =~= texts(old_v).push(s@));
        assert(strs(args@.take(i + 1)) =~= strs(args@.take(i as int)).push(s@));
        i += 1;
    }
    assert(args@.take(args@.len() as int) =~= args@);
    v
}

/// The command of program `bin` with `args`.
pub fn command(bin: &str, args: &[&str]) -> (c: Command)
    ensures
        c@ == cmd(bin@, strs(args@)),
{
    Command { bin: bin.to_owned(), args: owned(args) }
}

/// A step whose failure is passed over.
pub fn try_op(op: Op) -> (s: Step)
    ensures
        s@ == attempt(op@),
{
    Step { op, need: Need::Optional }
}

/// A step whose failure ends the plan.
pub fn need_op(op: Op) -> (s: Step)
    ensures
        s@ == must(op@),
{
    Step { op, need: Need::Required }
}

/// A step whose failure ends the plan and is reported under a context.
pub fn need_op_under(op: Op, context: &str) -> (s: Step)
    ensures
        s@ == must_under(op@, context@),
{
    Step { op, need: Need::Under(context.to_owned()) }
}

/// The operation that runs a command.
pub fn run_op(bin: &str, args: &[&str]) -> (op: Op)
    ensures
        op@ == OpView::Run(cmd(bin@, strs(args@))),
{
    Op::Run(command(bin, args))
}

/// The operation that runs a command without its output.
pub fn quiet_op(bin: &str, args: &[&str]) -> (op: Op)
    ensures
        op@ == OpView::Quiet(cmd(bin@, strs(args@))),
{
    Op::Quiet(command(bin, args))
}

/// What the failure of a step is reported as, where it ends the plan.
pub open spec fn reported(need: NeedView, cause: Text) -> Option<Text> {
    match need {
        NeedView::Optional => None,
        NeedView::Required => Some(cause),
        NeedView::Under(context) => Some(under(context, cause)),
    }
}

/// The error that feeding a command came to, if any. A command that could not be waited for has
/// failed, whatever `on_wait` says of it.
pub open spec fn fed_error(f: FeedView, fed: Fed) -> Option<Text> {
    match fed {
        Fed::NotStarted(cause) => Some(under(f.on_spawn, cause@)),
        Fed::NoInput => Some("nft stdin"@),
        Fed::NotWritten(cause) => Some(cause@),
        Fed::NotAwaited(cause) => match f.on_wait {
            NeedView::Under(context) => Some(under(context, cause@)),
            _ => Some(cause@),
        },
        Fed::Exited(success) => if success {
            None
        } else {
            Some(f.rejected)
        },
    }
}

/// What feeding a command came to.
pub fn fed(f: &Feed, outcome: Fed) -> (r: Result<(), String>)
    ensures
        match fed_error(f@, outcome) {
            None => r is Ok,
            Some(text) => r matches Err(e) && e@ == text,
        },
{
    match outcome {
        Fed::NotStarted(cause) => Err(with_context(f.on_spawn.as_str(), cause.as_str())),
        Fed::NoInput => Err("nft stdin".to_owned()),
        Fed::NotWritten(cause) => Err(cause),
        Fed::NotAwaited(cause) => match &f.on_wait {
            Need::Under(context) => Err(with_context(context.as_str(), cause.as_str())),
            _ => Err(cause),
        },
        Fed::Exited(success) => if success {
            Ok(())
        } else {
            Err(f.rejected.clone())
        },
    }
}

/// What a plan makes of the outcome of a step.
pub fn settle(step: &Step, outcome: Result<(), String>) -> (r: Result<(), String>)
    ensures
        match outcome {
            Ok(()) => r is Ok,
            Err(cause) => match reported(step@.need, cause@) {
                None => r is Ok,
                Some(text) => r matches Err(e) && e@ == text,
            },
        },
{
    match outcome {
        Ok(()) => Ok(()),
        Err(cause) => match &step.need {
            Need::Optional => Ok(()),
            Need::Required => Err(cause),
            Need::Under(context) => Err(with_context(context.as_str(), cause.as_str())),
        },
    }
}

/// A failure is passed over exactly where the step is an attempt; otherwise it is reported, under
/// the context where there is one.
pub proof fn law_which_failures_end_a_plan(need: NeedView, cause: Text)
    ensures
        reported(need, cause) is None <==> need is Optional,
        need is Required ==> reported(need, cause) == Some(cause),
        need matches NeedView::Under(c) ==> reported(need, cause) == Some(c + ": "@ + cause),
{
}

/// Feeding a command has failed unless the command ran to its end and exited with success.
pub proof fn law_feeding_fails_unless_it_succeeds(f: FeedView, fed: Fed)
    ensures
        fed_error(f, fed) is None <==> fed == Fed::Exited(true),
        fed matches Fed::Exited(false) ==> fed_error(f, fed) == Some(f.rejected),
        fed matches Fed::NotStarted(cause) ==> fed_error(f, fed) == Some(
            f.on_spawn + ": "@ + cause@,
        ),
        fed matches Fed::NotWritten(cause) ==> fed_error(f, fed) == Some(cause@),
        fed matches Fed::NoInput ==> fed_error(f, fed) == Some("nft stdin"@),
        fed matches Fed::NotAwaited(cause) ==> fed_error(f, fed) == Some(
            match f.on_wait {
                NeedView::Under(c) => c + ": "@ + cause@,
                _ => cause@,
            },
        ),
{
}

} // verus!
