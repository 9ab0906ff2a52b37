//! Whole runs of the executor, and what holds of them.
//!
//! A run is what the executor hands out while a sequence of events is fed to
//! it one by one. The theorems of this module speak of every run that a line
//! of a given shape can have.

use vstd::prelude::*;
use crate::builtin::{spec_classify, Kind};
use crate::executor::{
    accepts, dispatch, initial, settle, spec_step, Action, ActionView, Event, EventView, Executor,
    ExecutorView, Pending, StdinSource, StdoutSink, EXIT_STATUS,
};
use crate::parser::{
    blank, lemma_blank_line_is_empty_command, lemma_segments_hold_no_pipe, spec_command,
    spec_parse, CommandView, PIPE,
};
use crate::status::spec_status_report;

verus! {

/// The actions handed out from `state` on when `events` are fed to the
/// executor in order. The run stops short at the first event that is not
/// accepted.
pub open spec fn run(state: ExecutorView, events: Seq<EventView>) -> Seq<ActionView>
    decreases events.len(),
{
    if events.len() == 0 {
        Seq::empty()
    } else {
        match spec_step(state, events[0]) {
            (next, Some(action)) => seq![action] + run(next, events.drop_first()),
            (_, None) => Seq::empty(),
        }
    }
}

/// The state in which the run from `state` on `events` ends.
pub open spec fn end_state(state: ExecutorView, events: Seq<EventView>) -> ExecutorView
    decreases events.len(),
{
    if events.len() == 0 {
        state
    } else {
        match spec_step(state, events[0]) {
            (next, Some(_)) => end_state(next, events.drop_first()),
            (_, None) => state,
        }
    }
}

/// Feeds `events` to `executor` in order, as far as they are accepted, and
/// collects the actions that it hands out: the run that these outcomes give,
/// with nothing performed.
pub fn replay(executor: &mut Executor, events: Vec<Event>) -> (actions: Vec<Action>)
    ensures
        actions.deep_view() == run(old(executor)@, events.deep_view()),
        final(executor)@ == end_state(old(executor)@, events.deep_view()),
{
    let ghost all = events.deep_view();
    let ghost start = executor@;
    let mut actions: Vec<Action> = Vec::new();
    assert(all.skip(0) =~= all);
    for event in it: events
        invariant
            start == old(executor)@,
            all == events.deep_view(),
            it.seq().len() == all.len(),
            forall|k: int| 0 <= k < all.len() ==> (#[trigger] it.seq()[k])@ == all[k],
            run(start, all) == actions.deep_view() + run(executor@, all.skip(it.index() as int)),
            end_state(start, all) == end_state(executor@, all.skip(it.index() as int)),
    {
        let ghost rest = all.skip(it.index() as int);
        let ghost before = actions.deep_view();
        assert(rest[0] == event@);
        assert(rest.drop_first() =~= all.skip(it.index() + 1));
        match executor.step(event) {
            Some(action) => {
                actions.push(action);
                assert(actions.deep_view() =~= before.push(action@));
                assert(before.push(action@) + run(executor@, rest.drop_first()) =~= before + (
                seq![action@] + run(executor@, rest.drop_first())));
            },
            None => {
                assert(actions.deep_view() + run(executor@, rest) =~= actions.deep_view());
                return actions;
            },
        }
    }
    assert(all.skip(all.len() as int) =~= Seq::<EventView>::empty());
    assert(actions.deep_view() + Seq::<ActionView>::empty() =~= actions.deep_view());
    actions
}

/// Once the line is over, nothing more is handed out.
pub proof fn lemma_finished_is_final(state: ExecutorView, events: Seq<EventView>)
    requires
        state.pending == Pending::Finished,
    ensures
        run(state, events).len() == 0,
        end_state(state, events) == state,
{
}

/// A run hands out at most one action for each event.
pub proof fn lemma_run_len(state: ExecutorView, events: Seq<EventView>)
    ensures
        run(state, events).len() <= events.len(),
    decreases events.len(),
{
    if events.len() > 0 {
        lemma_run_len(spec_step(state, events[0]).0, events.drop_first());
    }
}

/// A blank line does nothing: whatever events are fed to its executor, no
/// program is spawned and nothing is written. The one action that is ever
/// handed out is [`ActionView::Done`], in answer to [`EventView::Begin`].
pub proof fn lemma_blank_line_does_nothing(
    line: Seq<char>,
    version: Seq<char>,
    home: Option<Seq<char>>,
    events: Seq<EventView>,
)
    requires
        blank(line),
    ensures
        spec_step(initial(spec_parse(line), version, home), EventView::Begin).1 == Some(
            ActionView::Done,
        ),
        run(initial(spec_parse(line), version, home), events).len() <= 1,
        forall|i: int|
            0 <= i < run(initial(spec_parse(line), version, home), events).len() ==> (
            #[trigger] run(initial(spec_parse(line), version, home), events)[i])
                == ActionView::Done,
{
    lemma_blank_line_is_empty_command(line);
    let start = initial(spec_parse(line), version, home);
    if events.len() > 0 && accepts(start.pending, events[0]) {
        lemma_finished_is_final(spec_step(start, events[0]).0, events.drop_first());
    }
}

/// How a stage is wired, in every state: whenever a program is spawned, it is
/// the program of the segment that was next, with that segment's arguments;
/// it reads from the previous stage exactly if one is held; and it writes to
/// the interpreter's output exactly if it stands in the last segment.
pub proof fn lemma_stage_wiring(state: ExecutorView, event: EventView)
    ensures
        (spec_step(state, event).1 matches Some(
            ActionView::Spawn { program, arguments, stdin, stdout },
        ) ==> {
            let held = settle(state, event).0.previous;
            let i: int = state.cursor as int;
            &&& 0 <= i < state.pipeline.len()
            &&& spec_step(state, event).0.cursor == i + 1
            &&& program == state.pipeline[i].program
            &&& arguments == state.pipeline[i].arguments
            &&& stdin == StdinSource::PreviousStage <==> held is Some
            &&& stdout == StdoutSink::Inherit <==> i + 1 == state.pipeline.len()
        }),
{
}

/// Whether every command of `pipeline` names a program to spawn.
pub open spec fn all_external(pipeline: Seq<CommandView>) -> bool {
    forall|i: int|
        0 <= i < pipeline.len() ==> spec_classify((#[trigger] pipeline[i]).program)
            == Kind::External
}

/// How stage `i` of a pipeline of programs is spawned when every stage
/// before it has started: the first stage reads the interpreter's input,
/// every other stage reads what the stage before it writes; the last stage
/// writes to the interpreter's output, every other stage to a new pipe.
pub open spec fn stage(pipeline: Seq<CommandView>, i: int) -> ActionView {
    ActionView::Spawn {
        program: pipeline[i].program,
        arguments: pipeline[i].arguments,
        stdin: if i == 0 {
            StdinSource::Inherit
        } else {
            StdinSource::PreviousStage
        },
        stdout: if i + 1 < pipeline.len() {
            StdoutSink::Pipe
        } else {
            StdoutSink::Inherit
        },
    }
}

/// `n` times the news that a program has started.
pub open spec fn started(n: nat) -> Seq<EventView> {
    Seq::new(n, |i: int| EventView::Completed)
}

/// The state in which the outcome of spawning stage `k - 1` is awaited.
spec fn spawning(
    pipeline: Seq<CommandView>,
    version: Seq<char>,
    home: Option<Seq<char>>,
    k: int,
) -> ExecutorView {
    ExecutorView {
        pipeline,
        version,
        home,
        cursor: k as nat,
        previous: None,
        pending: Pending::Spawn {
            stdout: if k < pipeline.len() {
                StdoutSink::Pipe
            } else {
                StdoutSink::Inherit
            },
        },
    }
}

proof fn lemma_wiring_from(
    pipeline: Seq<CommandView>,
    version: Seq<char>,
    home: Option<Seq<char>>,
    k: int,
)
    requires
        all_external(pipeline),
        1 <= k <= pipeline.len(),
    ensures
        run(spawning(pipeline, version, home, k), started((pipeline.len() - k + 1) as nat))
            == Seq::new((pipeline.len() - k) as nat, |i: int| stage(pipeline, k + i)).push(
            ActionView::Wait,
        ),
    decreases pipeline.len() - k,
{
    let state = spawning(pipeline, version, home, k);
    let events = started((pipeline.len() - k + 1) as nat);
    let expected = Seq::new((pipeline.len() - k) as nat, |i: int| stage(pipeline, k + i)).push(
        ActionView::Wait,
    );
    let (next, action) = spec_step(state, events[0]);
    if k < pipeline.len() {
        assert(spec_classify(pipeline[k].program) == Kind::External);
        assert(next == spawning(pipeline, version, home, k + 1));
        assert(action == Some(stage(pipeline, k)));
        lemma_wiring_from(pipeline, version, home, k + 1);
        assert(events.drop_first() =~= started((pipeline.len() - k) as nat));
        let tail = Seq::new((pipeline.len() - k - 1) as nat, |i: int| stage(pipeline, k + 1 + i)).push(
            ActionView::Wait,
        );
        assert(run(next, events.drop_first()) == tail);
        assert(run(state, events) == seq![stage(pipeline, k)] + tail);
        assert forall|j: int| 0 <= j < expected.len() implies (seq![stage(pipeline, k)] + tail)[j]
            == expected[j] by {
            if 0 < j < expected.len() - 1 {
                assert(tail[j - 1] == stage(pipeline, k + 1 + (j - 1)));
            }
        }
        assert(seq![stage(pipeline, k)] + tail =~= expected);
    } else {
        assert(action == Some(ActionView::Wait));
        assert(run(next, events.drop_first()) =~= Seq::<ActionView>::empty());
        assert(run(state, events) =~= expected);
    }
}

/// In a pipeline of programs that all start, each stage reads exactly what
/// the stage before it writes, only the last stage writes to the
/// interpreter's output, and when all are spawned the interpreter waits for
/// the last.
pub proof fn lemma_pipeline_wiring(
    pipeline: Seq<CommandView>,
    version: Seq<char>,
    home: Option<Seq<char>>,
)
    requires
        pipeline.len() >= 1,
        all_external(pipeline),
    ensures
        run(initial(pipeline, version, home), seq![EventView::Begin] + started(pipeline.len()))
            == Seq::new(pipeline.len(), |i: int| stage(pipeline, i)).push(ActionView::Wait),
{
    let state = initial(pipeline, version, home);
    let events = seq![EventView::Begin] + started(pipeline.len());
    let (next, action) = spec_step(state, events[0]);
    assert(spec_classify(pipeline[0].program) == Kind::External);
    assert(next == spawning(pipeline, version, home, 1));
    assert(action == Some(stage(pipeline, 0)));
    lemma_wiring_from(pipeline, version, home, 1);
    assert(events.drop_first() =~= started(pipeline.len()));
    let tail = Seq::new((pipeline.len() - 1) as nat, |i: int| stage(pipeline, 1 + i)).push(
        ActionView::Wait,
    );
    assert(seq![stage(pipeline, 0)] + tail =~= Seq::new(
        pipeline.len(),
        |i: int| stage(pipeline, i),
    ).push(ActionView::Wait));
}

/// How a program that stands alone on its line is spawned: with both of the
/// interpreter's own streams, nothing in between.
pub open spec fn alone(command: CommandView) -> ActionView {
    ActionView::Spawn {
        program: command.program,
        arguments: command.arguments,
        stdin: StdinSource::Inherit,
        stdout: StdoutSink::Inherit,
    }
}

/// The news that the process that was waited for has ended with `code`.
pub open spec fn exited(code: Option<i32>) -> EventView {
    EventView::Exited { code }
}

/// What follows the wait for a process that ended with `code`: the report of
/// its status, or, where the status is zero, the end of the line.
pub open spec fn after_wait(code: Option<i32>) -> ActionView {
    match spec_status_report(code) {
        Some(text) => ActionView::Report { text },
        None => ActionView::Done,
    }
}

/// A single program without a pipe inherits both of the interpreter's
/// streams, and the interpreter waits for it: the line is not done before the
/// program has ended. A status other than zero is then reported.
pub proof fn lemma_single_command(
    line: Seq<char>,
    version: Seq<char>,
    home: Option<Seq<char>>,
    code: Option<i32>,
)
    requires
        !line.contains(PIPE),
        spec_classify(spec_command(line).program) == Kind::External,
    ensures
        run(
            initial(spec_parse(line), version, home),
            seq![EventView::Begin, EventView::Completed, exited(code)],
        ) == seq![alone(spec_command(line)), ActionView::Wait, after_wait(code)],
{
    lemma_segments_hold_no_pipe(line);
    let pipeline = spec_parse(line);
    assert(pipeline =~= seq![spec_command(line)]);
    let events = seq![EventView::Begin, EventView::Completed, exited(code)];
    let s0 = initial(pipeline, version, home);
    let (s1, a1) = spec_step(s0, events[0]);
    let e1 = events.drop_first();
    let (s2, a2) = spec_step(s1, e1[0]);
    let e2 = e1.drop_first();
    let (s3, a3) = spec_step(s2, e2[0]);
    assert(e2.drop_first() =~= Seq::<EventView>::empty());
    assert(run(s3, e2.drop_first()) =~= Seq::<ActionView>::empty());
    assert(run(s2, e2) =~= seq![a3->0]);
    assert(run(s1, e1) =~= seq![a2->0, a3->0]);
    assert(run(s0, events) =~= seq![a1->0, a2->0, a3->0]);
}

/// Whether segment `k` of `pipeline` is `exit` and is reached: no segment
/// before it is empty, which would end the line, or is itself `exit`.
pub open spec fn exit_is_reached(pipeline: Seq<CommandView>, k: int) -> bool {
    &&& 0 <= k < pipeline.len()
    &&& spec_classify(pipeline[k].program) == Kind::Exit
    &&& forall|j: int|
        0 <= j < k ==> {
            &&& spec_classify((#[trigger] pipeline[j]).program) != Kind::Empty
            &&& spec_classify(pipeline[j].program) != Kind::Exit
        }
}

/// The action that ends the interpreter with status zero.
pub open spec fn exit_action() -> ActionView {
    ActionView::Exit { status: EXIT_STATUS }
}

/// Whether `action` is one that a line with a reachable `exit` can hand out:
/// anything but the final wait and the end of the line, and no exit with
/// another status than zero.
pub open spec fn before_exit(action: ActionView) -> bool {
    &&& action != ActionView::Wait
    &&& action != ActionView::Done
    &&& action is Exit ==> action == exit_action()
}

/// The states that a line with `exit` at segment `k` passes through before
/// the exit.
spec fn heading_for_exit(state: ExecutorView, k: int) -> bool {
    &&& exit_is_reached(state.pipeline, k)
    &&& state.cursor <= k
    &&& state.pending != Pending::Wait
    &&& state.pending != Pending::Finished
}

/// The most actions that are handed out from such a state on.
spec fn actions_left(state: ExecutorView, k: int) -> int {
    2 * (k - state.cursor) + 1 + if state.pending is Spawn || state.pending is ChangeDir {
        1int
    } else {
        0int
    }
}

proof fn lemma_heading_for_exit(state: ExecutorView, k: int, events: Seq<EventView>)
    requires
        heading_for_exit(state, k),
    ensures
        run(state, events).len() <= actions_left(state, k),
        forall|i: int|
            0 <= i < run(state, events).len() ==> before_exit(#[trigger] run(state, events)[i]),
        end_state(state, events).pending == Pending::Finished <==> run(state, events).len() > 0
            && run(state, events).last() == exit_action(),
    decreases events.len(),
{
    if events.len() > 0 && accepts(state.pending, events[0]) {
        let (next, answer) = spec_step(state, events[0]);
        let action = answer->0;
        let rest = events.drop_first();
        let tail = run(next, rest);
        assert(run(state, events) == seq![action] + tail);
        let (settled, report) = settle(state, events[0]);
        if report is None && settled.cursor == k {
            assert(action == exit_action());
            lemma_finished_is_final(next, rest);
        } else {
            if report is None {
                let command = state.pipeline[settled.cursor as int];
                assert(spec_classify(command.program) != Kind::Empty);
                assert(spec_classify(command.program) != Kind::Exit);
            }
            assert(heading_for_exit(next, k));
            assert(actions_left(next, k) < actions_left(state, k));
            lemma_heading_for_exit(next, k, rest);
            assert forall|i: int| 0 <= i < run(state, events).len() implies before_exit(
                #[trigger] run(state, events)[i],
            ) by {
                if i > 0 {
                    assert(run(state, events)[i] == tail[i - 1]);
                }
            }
            if tail.len() > 0 {
                assert(run(state, events).last() == tail.last());
            }
        }
    }
}

/// `exit` ends the interpreter with status zero wherever it stands in the
/// pipeline and whatever became of the stages before it: whether they
/// started or not, and whether a previous stage is held.
///
/// For a line whose segment `k` is a reachable `exit`, every run hands out
/// at most `2 * k + 1` actions, none of them waits or ends the line, and the
/// only way in which the run is over is that its last action was the exit
/// with status zero.
pub proof fn lemma_exit_ends_the_interpreter(
    pipeline: Seq<CommandView>,
    version: Seq<char>,
    home: Option<Seq<char>>,
    k: int,
    events: Seq<EventView>,
)
    requires
        exit_is_reached(pipeline, k),
    ensures
        run(initial(pipeline, version, home), events).len() <= 2 * k + 1,
        forall|i: int|
            0 <= i < run(initial(pipeline, version, home), events).len() ==> before_exit(
                #[trigger] run(initial(pipeline, version, home), events)[i],
            ),
        end_state(initial(pipeline, version, home), events).pending == Pending::Finished <==> run(
            initial(pipeline, version, home),
            events,
        ).len() > 0 && run(initial(pipeline, version, home), events).last() == exit_action(),
{
    lemma_heading_for_exit(initial(pipeline, version, home), k, events);
}

/// At a segment that is `exit`, the next action is the exit with status
/// zero, in every state.
pub proof fn lemma_exit_in_every_state(state: ExecutorView)
    requires
        state.cursor < state.pipeline.len(),
        spec_classify(state.pipeline[state.cursor as int].program) == Kind::Exit,
    ensures
        dispatch(state).1 == exit_action(),
        dispatch(state).0.pending == Pending::Finished,
{
}

/// Whether every stage that may still be read from writes to a pipe: while
/// segments are left, neither the previous stage nor a stage that is being
/// spawned writes to the interpreter's output.
pub open spec fn captured(state: ExecutorView) -> bool {
    state.cursor < state.pipeline.len() ==> {
        &&& state.previous != Some(StdoutSink::Inherit)
        &&& state.pending != Pending::Spawn { stdout: StdoutSink::Inherit }
    }
}

/// The execution of a line starts in a state that is [`captured`].
pub proof fn lemma_initial_is_captured(
    pipeline: Seq<CommandView>,
    version: Seq<char>,
    home: Option<Seq<char>>,
)
    ensures
        captured(initial(pipeline, version, home)),
{
}

/// Every step keeps a state [`captured`]. And a stage that is handed the
/// output of the previous stage is handed a pipe: the previous stage was
/// spawned with one.
pub proof fn lemma_step_keeps_captured(state: ExecutorView, event: EventView)
    requires
        captured(state),
    ensures
        captured(spec_step(state, event).0),
        (spec_step(state, event).1 matches Some(ActionView::Spawn { stdin, .. }) && stdin
            == StdinSource::PreviousStage) ==> settle(state, event).0.previous == Some(
            StdoutSink::Pipe,
        ),
{
}

/// Every run from a [`captured`] state ends in one.
pub proof fn lemma_run_keeps_captured(state: ExecutorView, events: Seq<EventView>)
    requires
        captured(state),
    ensures
        captured(end_state(state, events)),
    decreases events.len(),
{
    if events.len() > 0 {
        lemma_step_keeps_captured(state, events[0]);
        if spec_step(state, events[0]).1 is Some {
            lemma_run_keeps_captured(spec_step(state, events[0]).0, events.drop_first());
        }
    }
}

/// Whether `action` only closes a line: a report or the end of the line.
pub open spec fn closing(action: ActionView) -> bool {
    action is Report || action == ActionView::Done
}

/// The interpreter waits only when the whole pipeline has been launched, and
/// after the wait it does no more than report how the wait ended: no segment
/// is left when the wait is handed out, and what follows it is at most one
/// report and the end of the line.
pub proof fn lemma_wait_comes_last(state: ExecutorView, event: EventView, events: Seq<EventView>)
    requires
        spec_step(state, event).1 == Some(ActionView::Wait),
    ensures
        state.cursor >= state.pipeline.len(),
        run(spec_step(state, event).0, events).len() <= 2,
        forall|i: int|
            0 <= i < run(spec_step(state, event).0, events).len() ==> closing(
                #[trigger] run(spec_step(state, event).0, events)[i],
            ),
{
    let waiting = spec_step(state, event).0;
    if events.len() > 0 && accepts(waiting.pending, events[0]) {
        let (second, first_action) = spec_step(waiting, events[0]);
        let rest = events.drop_first();
        assert(run(waiting, events) == seq![first_action->0] + run(second, rest));
        if second.pending == Pending::Finished {
            lemma_finished_is_final(second, rest);
        } else if rest.len() > 0 && accepts(second.pending, rest[0]) {
            let (third, second_action) = spec_step(second, rest[0]);
            assert(run(second, rest) == seq![second_action->0] + run(third, rest.drop_first()));
            lemma_finished_is_final(third, rest.drop_first());
        }
    }
}

/// The most actions that are handed out from a state on in which the next
/// segment is about to decide.
spec fn left_to_dispatch(state: ExecutorView, held: bool) -> int {
    if state.cursor < state.pipeline.len() {
        2 * (state.pipeline.len() - state.cursor) + 3
    } else if held {
        3
    } else {
        1
    }
}

/// The most actions that are handed out from a state on.
spec fn left(state: ExecutorView) -> int {
    match state.pending {
        Pending::Finished => 0,
        Pending::Start | Pending::Output => left_to_dispatch(state, state.previous is Some),
        Pending::Spawn { .. } => if state.cursor < state.pipeline.len() {
            1 + left_to_dispatch(state, true)
        } else {
            3
        },
        Pending::ChangeDir | Pending::Wait => 1 + left_to_dispatch(state, state.previous is Some),
    }
}

proof fn lemma_run_is_bounded(state: ExecutorView, events: Seq<EventView>)
    ensures
        run(state, events).len() <= left(state),
    decreases events.len(),
{
    if events.len() > 0 && accepts(state.pending, events[0]) {
        let next = spec_step(state, events[0]).0;
        assert(left(next) < left(state));
        lemma_run_is_bounded(next, events.drop_first());
    }
}

/// Every line comes to an end: whatever the outcomes are, a pipeline of `n`
/// segments is over after at most `2 * n + 3` actions.
pub proof fn lemma_every_line_ends(
    pipeline: Seq<CommandView>,
    version: Seq<char>,
    home: Option<Seq<char>>,
    events: Seq<EventView>,
)
    ensures
        run(initial(pipeline, version, home), events).len() <= 2 * pipeline.len() + 3,
{
    lemma_run_is_bounded(initial(pipeline, version, home), events);
}

} // verus!
