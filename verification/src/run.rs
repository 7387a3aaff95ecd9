//! The order of a run: which step comes next, given what the last one gave.
//!
//! The caller does the work that touches the outside (it compiles a
//! template, writes a file, runs a program) and reports each outcome to
//! [`advance`], which answers with the next step. The targets are taken in the
//! order in which the configuration holds them, one after the other, and the
//! first failure ends the run.

use vstd::prelude::*;
use crate::config::{
    comes_before, expands_to, first_undefined, part_expansion, Config, HookError, HookOutcome,
    HookPlan, Target,
};
use crate::expand::{expand_path, shell_expansion, Environment, ExpansionError};

verus! {

/// Where a run stands.
#[derive(Clone, Debug)]
pub enum Progress {
    /// Nothing has been done yet.
    Fresh,
    /// The template of the target at this index is being compiled.
    Compiling(usize),
    /// The output of the target at this index is being written.
    Writing(usize),
    /// The hook of the target at this index is running.
    Hooking(usize),
    /// Every target has been processed.
    Finished,
    /// A step failed: the run is over.
    Aborted,
}

/// Why writing a target's output failed.
#[derive(Clone, Debug)]
pub enum WriteFailure {
    /// The output path has no parent directory.
    NoParent,
    /// The parent directory could not be created.
    CreateDirectory(String),
    /// The output file could not be created.
    CreateFile(String),
    /// The template could not be rendered with the values.
    Render(String),
    /// The written file could not be flushed to stable storage.
    Flush(String),
}

/// What the caller reports.
#[derive(Clone, Debug)]
pub enum Event {
    /// The run begins.
    Start,
    /// The template was compiled.
    Compiled,
    /// The template is missing or not valid.
    CompileFailed(String),
    /// The output was rendered, written and flushed.
    Written,
    /// The output could not be written.
    WriteFailed(WriteFailure),
    /// The attempt to run the hook ended.
    HookEnded(HookOutcome),
}

/// Why a run failed.
#[derive(Clone, Debug)]
pub enum Cause {
    /// The template path could not be expanded.
    TemplatePath(ExpansionError),
    /// The template could not be compiled.
    Compile(String),
    /// The output path could not be expanded.
    OutPath(ExpansionError),
    /// The output could not be written.
    Write(WriteFailure),
    /// The hook is not valid or did not succeed.
    Hook(HookError),
    /// The event does not answer the step that was last asked for.
    OutOfTurn,
    /// The configuration does not hold its targets in the order of their
    /// names.
    NotInOrder,
}

/// The failure of a run, with the target at which it came.
#[derive(Clone, Debug)]
pub struct RunError {
    /// The index of the target in the configuration.
    pub target: usize,
    /// The name of the target; empty where the failure is not a target's.
    pub name: String,
    /// What went wrong.
    pub cause: Cause,
}

/// What the caller is to do next.
#[derive(Clone, Debug)]
pub enum Step {
    /// Compile the template at this path, for the target at this index.
    Compile { target: usize, template: String },
    /// Create this directory with all its ancestors where it is missing,
    /// render the compiled template with the values into the file at the path
    /// `out`, and flush the file.
    Write { target: usize, out: String, directory: String },
    /// Run this command and wait for it to end.
    Spawn { target: usize, argv: Vec<String> },
    /// Every target has been processed: the run succeeded.
    Done,
    /// The run failed: do nothing more.
    Fail(RunError),
}

/// The run is over at `next`, and `step` is a failure that names the target
/// at index `i`.
pub open spec fn aborts(config: Config, next: Progress, step: Step, i: int) -> bool {
    next is Aborted && (step matches Step::Fail(e) && e.target == i && e.name@
        == config.targets@[i].0@)
}

/// `next` and `step` begin the target at index `i`: with none left the run
/// is finished; else the template path is expanded, and the template is to be
/// compiled, or the expansion's failure ends the run.
pub open spec fn begins(config: Config, env: Environment, i: int, next: Progress, step: Step) -> bool {
    if i >= config.targets@.len() {
        next is Finished && step is Done
    } else {
        match shell_expansion(config.targets@[i].1.template@, env.home_view(), env.vars_view()) {
            Ok(path) => next == Progress::Compiling(i as usize) && (step matches Step::Compile {
                target,
                template,
            } && target == i && template@ == path),
            Err(name) => aborts(config, next, step, i) && (step matches Step::Fail(
                RunError { cause: Cause::TemplatePath(e), .. },
            ) && e.variable@ == name),
        }
    }
}

/// The parent directory of a path, where it has one.
pub uninterp spec fn path_parent(path: Seq<char>) -> Option<Seq<char>>;

/// `std::path::Path::parent` on a path that is given and handed back as
/// text. The result depends on the path's text alone: the contract gives it
/// its name.
#[verifier::external_body]
fn parent_of(path: &str) -> (r: Option<String>)
    ensures
        r.is_some() == path_parent(path@).is_some(),
        r.is_some() ==> r.unwrap()@ == path_parent(path@).unwrap(),
{
    std::path::Path::new(path).parent().map(|p| p.to_string_lossy().into_owned())
}

/// `next` and `step` follow the compiling of target `i`: the output path is
/// expanded, and the output is to be written under its parent directory; the
/// expansion's failure ends the run, and so does a path without a parent.
pub open spec fn writes(config: Config, env: Environment, i: int, next: Progress, step: Step) -> bool {
    match shell_expansion(config.targets@[i].1.out@, env.home_view(), env.vars_view()) {
        Ok(path) => match path_parent(path) {
            Some(parent) => next == Progress::Writing(i as usize) && (step matches Step::Write {
                target,
                out,
                directory,
            } && target == i && out@ == path && directory@ == parent),
            None => aborts(config, next, step, i) && step matches Step::Fail(
                RunError { cause: Cause::Write(WriteFailure::NoParent), .. },
            ),
        },
        Err(name) => aborts(config, next, step, i) && (step matches Step::Fail(
            RunError { cause: Cause::OutPath(e), .. },
        ) && e.variable@ == name),
    }
}

/// `next` and `step` follow the writing of target `i`: without a hook the
/// next target begins; a hook without parts ends the run, and so does a part
/// whose expansion fails; else the expanded hook is to be run.
pub open spec fn hooks(config: Config, env: Environment, i: int, next: Progress, step: Step) -> bool {
    match config.targets@[i].1.hook {
        None => begins(config, env, i + 1, next, step),
        Some(parts) => if parts@.len() == 0 {
            aborts(config, next, step, i) && step matches Step::Fail(
                RunError { cause: Cause::Hook(HookError::Empty), .. },
            )
        } else {
            match step {
                Step::Spawn { target, argv } => next == Progress::Hooking(i as usize) && target == i
                    && expands_to(parts@, env, argv@),
                Step::Fail(
                    RunError { cause: Cause::Hook(HookError::Expansion { part, variable }), .. },
                ) => aborts(config, next, step, i) && first_undefined(
                    parts@,
                    env,
                    part as int,
                    variable@,
                ),
                _ => false,
            }
        },
    }
}

/// `next` and `step` follow the end of the hook of target `i`: after exit
/// code 0 the next target begins, and anything else ends the run.
pub open spec fn hook_ends(
    config: Config,
    env: Environment,
    i: int,
    outcome: HookOutcome,
    next: Progress,
    step: Step,
) -> bool {
    match outcome {
        HookOutcome::Exited(code) => if code == 0 {
            begins(config, env, i + 1, next, step)
        } else {
            aborts(config, next, step, i) && (step matches Step::Fail(
                RunError { cause: Cause::Hook(HookError::Exit { code: c }), .. },
            ) && c == code)
        },
        HookOutcome::Signaled => aborts(config, next, step, i) && step matches Step::Fail(
            RunError { cause: Cause::Hook(HookError::Signal), .. },
        ),
        HookOutcome::NotStarted(reason) => aborts(config, next, step, i) && (step matches Step::Fail(
            RunError { cause: Cause::Hook(HookError::NotStarted { reason: t }), .. },
        ) && t == reason),
    }
}

/// The index of the target that `progress` is at, where it is at one.
pub open spec fn current(progress: Progress) -> Option<int> {
    match progress {
        Progress::Compiling(i) => Some(i as int),
        Progress::Writing(i) => Some(i as int),
        Progress::Hooking(i) => Some(i as int),
        _ => None,
    }
}

/// Whether `event` answers the step that led to `progress`.
pub open spec fn in_turn(config: Config, progress: Progress, event: Event) -> bool {
    match (progress, event) {
        (Progress::Fresh, Event::Start) => true,
        (Progress::Compiling(i), Event::Compiled) => i < config.targets@.len(),
        (Progress::Compiling(i), Event::CompileFailed(_)) => i < config.targets@.len(),
        (Progress::Writing(i), Event::Written) => i < config.targets@.len(),
        (Progress::Writing(i), Event::WriteFailed(_)) => i < config.targets@.len(),
        (Progress::Hooking(i), Event::HookEnded(_)) => i < config.targets@.len(),
        _ => false,
    }
}

/// `next` and `step` are what follows `event` at `progress`.
pub open spec fn advanced(
    config: Config,
    env: Environment,
    progress: Progress,
    event: Event,
    next: Progress,
    step: Step,
) -> bool {
    if !config.wf() {
        next is Aborted && step matches Step::Fail(RunError { cause: Cause::NotInOrder, .. })
    } else if !in_turn(config, progress, event) {
        next is Aborted && step matches Step::Fail(RunError { cause: Cause::OutOfTurn, .. })
    } else {
        match (progress, event) {
            (Progress::Fresh, Event::Start) => begins(config, env, 0, next, step),
            (Progress::Compiling(i), Event::Compiled) => writes(config, env, i as int, next, step),
            (Progress::Compiling(i), Event::CompileFailed(reason)) => aborts(config, next, step, i as int)
                && (step matches Step::Fail(RunError { cause: Cause::Compile(t), .. }) && t
                == reason),
            (Progress::Writing(i), Event::Written) => hooks(config, env, i as int, next, step),
            (Progress::Writing(i), Event::WriteFailed(failure)) => aborts(config, next, step, i as int)
                && (step matches Step::Fail(RunError { cause: Cause::Write(f), .. }) && f
                == failure),
            (Progress::Hooking(i), Event::HookEnded(outcome)) => hook_ends(
                config,
                env,
                i as int,
                outcome,
                next,
                step,
            ),
            _ => false,
        }
    }
}

fn fail(config: &Config, i: usize, cause: Cause) -> (r: (Progress, Step))
    requires
        i < config.targets@.len(),
    ensures
        aborts(*config, r.0, r.1, i as int),
        r.1 matches Step::Fail(e) && e.cause == cause,
{
    let name = config.targets[i].0.clone();
    (Progress::Aborted, Step::Fail(RunError { target: i, name, cause }))
}

fn begin(config: &Config, env: &Environment, i: usize) -> (r: (Progress, Step))
    requires
        i <= config.targets@.len(),
    ensures
        begins(*config, *env, i as int, r.0, r.1),
{
    if i >= config.targets.len() {
        return (Progress::Finished, Step::Done);
    }
    match expand_path(config.targets[i].1.template.as_str(), env) {
        Ok(template) => (Progress::Compiling(i), Step::Compile { target: i, template }),
        Err(e) => fail(config, i, Cause::TemplatePath(e)),
    }
}

fn write(config: &Config, env: &Environment, i: usize) -> (r: (Progress, Step))
    requires
        i < config.targets@.len(),
    ensures
        writes(*config, *env, i as int, r.0, r.1),
{
    match expand_path(config.targets[i].1.out.as_str(), env) {
        Ok(out) => match parent_of(out.as_str()) {
            Some(directory) => (Progress::Writing(i), Step::Write { target: i, out, directory }),
            None => fail(config, i, Cause::Write(WriteFailure::NoParent)),
        },
        Err(e) => fail(config, i, Cause::OutPath(e)),
    }
}

fn hook(config: &Config, env: &Environment, i: usize) -> (r: (Progress, Step))
    requires
        i < config.targets@.len(),
    ensures
        hooks(*config, *env, i as int, r.0, r.1),
{
    let n = config.len();
    match config.targets[i].1.run_hook(env) {
        Ok(HookPlan::Nothing) => begin(config, env, i + 1),
        Ok(HookPlan::Spawn(argv)) => (Progress::Hooking(i), Step::Spawn { target: i, argv }),
        Err(e) => fail(config, i, Cause::Hook(e)),
    }
}

fn hook_end(config: &Config, env: &Environment, i: usize, outcome: HookOutcome) -> (r: (
    Progress,
    Step,
))
    requires
        i < config.targets@.len(),
    ensures
        hook_ends(*config, *env, i as int, outcome, r.0, r.1),
{
    let n = config.len();
    match Target::hook_finished(outcome) {
        Ok(()) => begin(config, env, i + 1),
        Err(e) => fail(config, i, Cause::Hook(e)),
    }
}

fn out_of_turn(i: usize) -> (r: (Progress, Step))
    ensures
        r.0 is Aborted,
        r.1 matches Step::Fail(RunError { cause: Cause::OutOfTurn, .. }),
{
    (Progress::Aborted, Step::Fail(RunError { target: i, name: String::new(), cause: Cause::OutOfTurn }))
}

/// Says what follows `event` at `progress`: the next step and where the run
/// then stands. A configuration that does not hold its targets in the order
/// of their names ends the run, and so does an event that does not answer the
/// last step.
pub fn advance(config: &Config, env: &Environment, progress: Progress, event: Event) -> (r: (
    Progress,
    Step,
))
    ensures
        advanced(*config, *env, progress, event, r.0, r.1),
{
    if !config.in_order() {
        return (
            Progress::Aborted,
            Step::Fail(RunError { target: 0, name: String::new(), cause: Cause::NotInOrder }),
        );
    }
    let n = config.len();
    match (progress, event) {
        (Progress::Fresh, Event::Start) => begin(config, env, 0),
        (Progress::Compiling(i), Event::Compiled) => if i < n {
            write(config, env, i)
        } else {
            out_of_turn(i)
        },
        (Progress::Compiling(i), Event::CompileFailed(reason)) => if i < n {
            fail(config, i, Cause::Compile(reason))
        } else {
            out_of_turn(i)
        },
        (Progress::Writing(i), Event::Written) => if i < n {
            hook(config, env, i)
        } else {
            out_of_turn(i)
        },
        (Progress::Writing(i), Event::WriteFailed(failure)) => if i < n {
            fail(config, i, Cause::Write(failure))
        } else {
            out_of_turn(i)
        },
        (Progress::Hooking(i), Event::HookEnded(outcome)) => if i < n {
            hook_end(config, env, i, outcome)
        } else {
            out_of_turn(i)
        },
        _ => out_of_turn(0),
    }
}

/// Whether `event` reports a failure.
pub open spec fn is_failure(event: Event) -> bool {
    match event {
        Event::CompileFailed(_) => true,
        Event::WriteFailed(_) => true,
        Event::HookEnded(outcome) => !(outcome matches HookOutcome::Exited(code) && code == 0),
        _ => false,
    }
}

/// Whether `step` asks the caller for work.
pub open spec fn asks_for_work(step: Step) -> bool {
    step is Compile || step is Write || step is Spawn
}

/// The first failure ends the run: after an event that reports a failure, and
/// after any event once the run is over, the run is aborted and no work is
/// asked for.
pub proof fn failure_ends_run(
    config: Config,
    env: Environment,
    progress: Progress,
    event: Event,
    next: Progress,
    step: Step,
)
    requires
        advanced(config, env, progress, event, next, step),
        is_failure(event) || progress is Aborted || progress is Finished,
    ensures
        next is Aborted,
        step is Fail,
        !asks_for_work(step),
{
}

/// A hook without parts ends the run when its target has been written, and
/// nothing is spawned: in a configuration that is in order the failure is
/// that of the empty hook.
pub proof fn empty_hook_fails(
    config: Config,
    env: Environment,
    i: usize,
    next: Progress,
    step: Step,
)
    requires
        i < config.targets@.len(),
        config.targets@[i as int].1.hook matches Some(parts) && parts@.len() == 0,
        advanced(config, env, Progress::Writing(i), Event::Written, next, step),
    ensures
        next is Aborted,
        step is Fail,
        config.wf() ==> (step matches Step::Fail(
            RunError { target, name, cause: Cause::Hook(HookError::Empty) },
        ) && target == i && name@ == config.targets@[i as int].0@),
{
}

/// The targets are taken in the order of their names, each one fully before
/// the next: work is asked for the target that the run then stands at; the
/// run never goes back; it goes on to another target only from the hook of
/// the one before, or from its writing where that one has no hook; and the
/// name of the target it leaves stands before the name of the one it goes to.
pub proof fn targets_in_order(
    config: Config,
    env: Environment,
    progress: Progress,
    event: Event,
    next: Progress,
    step: Step,
)
    requires
        advanced(config, env, progress, event, next, step),
    ensures
        match step {
            Step::Compile { target, .. } => next == Progress::Compiling(target),
            Step::Write { target, .. } => next == Progress::Writing(target),
            Step::Spawn { target, .. } => next == Progress::Hooking(target),
            Step::Done => next is Finished,
            Step::Fail(_) => next is Aborted,
        },
        current(next) matches Some(j) ==> j < config.targets@.len(),
        progress is Fresh && current(next) is Some ==> current(next) == Some(0int),
        (current(progress), current(next)) matches (Some(i), Some(j)) ==> {
            ||| j == i
            ||| {
                &&& j == i + 1
                &&& next is Compiling
                &&& progress is Hooking || (progress is Writing
                    && config.targets@[i].1.hook is None)
                &&& comes_before(config.targets@[i].0@, config.targets@[j].0@)
            }
        },
{
}

/// Two causes say the same: they are of one kind and name the same variable,
/// part, reason or exit code.
pub open spec fn same_cause(a: Cause, b: Cause) -> bool {
    match (a, b) {
        (Cause::TemplatePath(x), Cause::TemplatePath(y)) => x.variable@ == y.variable@,
        (Cause::Compile(x), Cause::Compile(y)) => x@ == y@,
        (Cause::OutPath(x), Cause::OutPath(y)) => x.variable@ == y.variable@,
        (Cause::Write(x), Cause::Write(y)) => x == y,
        (Cause::Hook(HookError::Empty), Cause::Hook(HookError::Empty)) => true,
        (
            Cause::Hook(HookError::Expansion { part: p, variable: v }),
            Cause::Hook(HookError::Expansion { part: q, variable: w }),
        ) => p == q && v@ == w@,
        (
            Cause::Hook(HookError::NotStarted { reason: x }),
            Cause::Hook(HookError::NotStarted { reason: y }),
        ) => x@ == y@,
        (Cause::Hook(HookError::Exit { code: x }), Cause::Hook(HookError::Exit { code: y })) => x
            == y,
        (Cause::Hook(HookError::Signal), Cause::Hook(HookError::Signal)) => true,
        (Cause::OutOfTurn, Cause::OutOfTurn) => true,
        (Cause::NotInOrder, Cause::NotInOrder) => true,
        _ => false,
    }
}

/// Two steps ask for the same: the same work on the same target with the same
/// paths or command, or the same end of the run. Of a failure that is no
/// target's only the cause is compared.
pub open spec fn same_step(a: Step, b: Step) -> bool {
    match (a, b) {
        (Step::Compile { target: t, template: x }, Step::Compile { target: u, template: y }) => t
            == u && x@ == y@,
        (
            Step::Write { target: t, out: x, directory: d },
            Step::Write { target: u, out: y, directory: e },
        ) => t == u && x@ == y@ && d@ == e@,
        (Step::Spawn { target: t, argv: x }, Step::Spawn { target: u, argv: y }) => t == u
            && x@.len() == y@.len() && forall|k: int|
            0 <= k < x@.len() ==> (#[trigger] x@[k])@ == y@[k]@,
        (Step::Done, Step::Done) => true,
        (Step::Fail(x), Step::Fail(y)) => same_cause(x.cause, y.cause) && (x.cause is OutOfTurn
            || x.cause is NotInOrder || (x.target == y.target && x.name@ == y.name@)),
        _ => false,
    }
}

/// A run can be repeated: with the same configuration and environment, the
/// same event at the same place is followed by the same step, and the run then
/// stands at the same place.
pub proof fn run_is_repeatable(
    config: Config,
    env: Environment,
    progress: Progress,
    event: Event,
    first: (Progress, Step),
    second: (Progress, Step),
)
    requires
        advanced(config, env, progress, event, first.0, first.1),
        advanced(config, env, progress, event, second.0, second.1),
    ensures
        first.0 == second.0,
        same_step(first.1, second.1),
{
    if config.wf() && in_turn(config, progress, event) {
        match (progress, event) {
            (Progress::Writing(i), Event::Written) => {
                match config.targets@[i as int].1.hook {
                    Some(parts) => {
                        if parts@.len() > 0 {
                            hook_step_is_one(parts@, env, first.1, second.1);
                        }
                    },
                    None => {},
                }
            },
            _ => {},
        }
    }
}

/// Two steps that both follow the expansion of one hook agree on the command
/// or on the part that failed.
proof fn hook_step_is_one(parts: Seq<String>, env: Environment, a: Step, b: Step)
    requires
        a matches Step::Spawn { argv, .. } ==> expands_to(parts, env, argv@),
        b matches Step::Spawn { argv, .. } ==> expands_to(parts, env, argv@),
        a matches Step::Fail(RunError { cause: Cause::Hook(HookError::Expansion { part, variable }), .. })
            ==> first_undefined(parts, env, part as int, variable@),
        b matches Step::Fail(RunError { cause: Cause::Hook(HookError::Expansion { part, variable }), .. })
            ==> first_undefined(parts, env, part as int, variable@),
    ensures
        match (a, b) {
            (Step::Spawn { argv: x, .. }, Step::Spawn { argv: y, .. }) => x@.len() == y@.len()
                && forall|k: int| 0 <= k < x@.len() ==> (#[trigger] x@[k])@ == y@[k]@,
            (
                Step::Spawn { .. },
                Step::Fail(RunError { cause: Cause::Hook(HookError::Expansion { .. }), .. }),
            ) => false,
            (
                Step::Fail(RunError { cause: Cause::Hook(HookError::Expansion { .. }), .. }),
                Step::Spawn { .. },
            ) => false,
            (
                Step::Fail(
                    RunError { cause: Cause::Hook(HookError::Expansion { part: p, variable: v }), .. },
                ),
                Step::Fail(
                    RunError { cause: Cause::Hook(HookError::Expansion { part: q, variable: w }), .. },
                ),
            ) => p == q && v@ == w@,
            _ => true,
        },
{
    match (a, b) {
        (Step::Spawn { argv: x, .. }, Step::Spawn { argv: y, .. }) => {
            assert forall|k: int| 0 <= k < x@.len() implies (#[trigger] x@[k])@ == y@[k]@ by {
                assert(part_expansion(parts, k, env) == Ok::<Seq<char>, Seq<char>>(x@[k]@));
                assert(part_expansion(parts, k, env) == Ok::<Seq<char>, Seq<char>>(y@[k]@));
            }
        },
        (
            Step::Spawn { argv, .. },
            Step::Fail(RunError { cause: Cause::Hook(HookError::Expansion { part, .. }), .. }),
        ) => {
            assert(part_expansion(parts, part as int, env) == Ok::<Seq<char>, Seq<char>>(
                argv@[part as int]@,
            ));
        },
        (
            Step::Fail(RunError { cause: Cause::Hook(HookError::Expansion { part, .. }), .. }),
            Step::Spawn { argv, .. },
        ) => {
            assert(part_expansion(parts, part as int, env) == Ok::<Seq<char>, Seq<char>>(
                argv@[part as int]@,
            ));
        },
        (
            Step::Fail(RunError { cause: Cause::Hook(HookError::Expansion { part: p, .. }), .. }),
            Step::Fail(RunError { cause: Cause::Hook(HookError::Expansion { part: q, .. }), .. }),
        ) => {
            if p < q {
                assert(part_expansion(parts, p as int, env).is_ok());
            } else if q < p {
                assert(part_expansion(parts, q as int, env).is_ok());
            }
        },
        _ => {},
    }
}

} // verus!
