//! Applying a charge limit to every battery that has an end threshold.
//!
//! A run starts only where some battery can be written. It then tries the others with a threshold
//! too, and reports those that refuse.
//!
//! A run alternates questions to the system and decisions: it asks for a probe of one battery,
//! then for the writes that set the limit there, battery by battery, and at the end for a look
//! at all batteries. `apply_limit` starts a run, `apply_step` takes each answer.
use vstd::prelude::*;
use vstd::string::*;

use crate::battery;
use crate::battery::Battery;
use crate::battery::BatteryView;
use crate::battery::Readings;
use crate::battery::ReadingsView;
use crate::battery::ThresholdSupport;
use crate::keeper;
use crate::keeper::AppView;
use crate::keeper::BatteryHealthKeeperApp;
use crate::language;
use crate::language::LanguageView;
use crate::text;
use crate::threshold;
use crate::threshold::FailureView;
use crate::threshold::LimitWrites;
use crate::threshold::LimitWritesView;
use crate::threshold::ProbeView;
use crate::threshold::ThresholdProbe;
use crate::threshold::WriteFailure;

verus! {

/// What a run waits for.
#[derive(Debug, Clone, Copy, PartialEq, Eq, Structural)]
pub enum Pending {
    Probe,
    Write,
    Poll,
    Nothing,
}

/// How far a run has come.
pub struct LimitRun {
    pub limit: u8,
    /// The places of the batteries with a threshold.
    pub targets: Vec<usize>,
    /// The target whose turn it is.
    pub position: usize,
    /// What went wrong so far, one line for each battery.
    pub errors: Vec<String>,
    pub pending: Pending,
}

/// What a `LimitRun` stands for.
pub struct RunView {
    pub limit: nat,
    pub targets: Seq<int>,
    pub position: int,
    pub errors: Seq<Seq<char>>,
    pub pending: Pending,
}

impl View for LimitRun {
    type V = RunView;

    open spec fn view(&self) -> RunView {
        RunView {
            limit: self.limit as nat,
            targets: self.targets@.map_values(|t: usize| t as int),
            position: self.position as int,
            errors: self.errors@.map_values(|e: String| e@),
            pending: self.pending,
        }
    }
}

/// What a run asks for.
pub enum LimitAction {
    /// Probe the threshold files of this battery.
    Probe(usize),
    /// Make these writes for this battery.
    Write(usize, LimitWrites),
    /// Read all batteries anew.
    Poll,
    /// Nothing more: the status line says how it went.
    Done,
}

/// What a `LimitAction` stands for.
pub enum ActionView {
    Probe(int),
    Write(int, LimitWritesView),
    Poll,
    Done,
}

impl View for LimitAction {
    type V = ActionView;

    open spec fn view(&self) -> ActionView {
        match self {
            LimitAction::Probe(t) => ActionView::Probe(*t as int),
            LimitAction::Write(t, w) => ActionView::Write(*t as int, w@),
            LimitAction::Poll => ActionView::Poll,
            LimitAction::Done => ActionView::Done,
        }
    }
}

/// The answer to an action.
pub enum LimitEvent {
    Probed(ThresholdProbe),
    /// How the end-threshold write went.
    Written(Result<(), WriteFailure>),
    /// The readings of every battery, in order.
    Polled(Vec<Readings>),
}

/// What a `LimitEvent` stands for.
pub enum EventView {
    Probed(ProbeView),
    Written(Result<(), FailureView>),
    Polled(Seq<ReadingsView>),
}

impl View for LimitEvent {
    type V = EventView;

    open spec fn view(&self) -> EventView {
        match self {
            LimitEvent::Probed(p) => EventView::Probed(p@),
            LimitEvent::Written(Ok(_)) => EventView::Written(Ok(())),
            LimitEvent::Written(Err(e)) => EventView::Written(Err(e@)),
            LimitEvent::Polled(r) => EventView::Polled(keeper::readings_views(r@)),
        }
    }
}

/// The places of the batteries that have a threshold, writable or not, in ascending order.
pub open spec fn threshold_places(batteries: Seq<BatteryView>) -> Seq<int>
    decreases batteries.len(),
{
    if batteries.len() == 0 {
        Seq::empty()
    } else if batteries.last().threshold_support != ThresholdSupport::Unsupported {
        threshold_places(batteries.drop_last()).push(batteries.len() - 1)
    } else {
        threshold_places(batteries.drop_last())
    }
}

/// Some battery can be written.
pub open spec fn some_writable(batteries: Seq<BatteryView>) -> bool {
    exists|i: int|
        0 <= i < batteries.len() && (#[trigger] batteries[i]).threshold_support
            == ThresholdSupport::Writable
}

/// The action of a run whose turn is at `position`.
pub open spec fn next_action(run: RunView) -> ActionView {
    if run.position < run.targets.len() {
        ActionView::Probe(run.targets[run.position])
    } else {
        ActionView::Poll
    }
}

/// The line that says what went wrong with one battery.
pub open spec fn battery_error(b: BatteryView, error: Seq<char>) -> Seq<char> {
    b.name + ": "@ + error
}

/// The run after the battery at hand is done with, with the error it met, if any.
pub open spec fn advanced(run: RunView, error: Option<Seq<char>>) -> RunView {
    RunView {
        position: run.position + 1,
        errors: match error {
            Some(e) => run.errors.push(e),
            None => run.errors,
        },
        pending: if run.position + 1 < run.targets.len() {
            Pending::Probe
        } else {
            Pending::Poll
        },
        ..run
    }
}

/// The lines one after the other, with `; ` between them.
pub open spec fn joined_lines(lines: Seq<Seq<char>>) -> Seq<char>
    decreases lines.len(),
{
    if lines.len() == 0 {
        Seq::empty()
    } else if lines.len() == 1 {
        lines[0]
    } else {
        joined_lines(lines.drop_last()) + "; "@ + lines.last()
    }
}

/// The status line at the end of a run.
pub open spec fn run_message(
    limit: nat,
    errors: Seq<Seq<char>>,
    language: LanguageView,
) -> Seq<char> {
    if errors.len() > 0 {
        language.text("status.threshold_error"@, "Could not set thresholds"@) + ": "@
            + joined_lines(errors)
    } else if limit >= 100 {
        language.text("status.reset_applied"@, "Charge limit reset to 100%"@)
    } else {
        language.text("status.limit_applied"@, "Charge limit applied"@) + ": "@ + text::decimal(
            limit,
        ) + "%"@
    }
}

/// A state, a run and what the run asks for.
pub struct Step {
    pub app: AppView,
    pub run: RunView,
    pub action: ActionView,
}

/// The start of a run. Without a battery that has a threshold, or without one that can be
/// written, the run ends at once and the status line says why. Otherwise it goes to every battery
/// that has a threshold.
pub open spec fn started(app: AppView, limit: nat) -> Step {
    let idle = RunView {
        limit,
        targets: Seq::empty(),
        position: 0,
        errors: Seq::empty(),
        pending: Pending::Nothing,
    };
    if keeper::all_have(app.batteries, ThresholdSupport::Unsupported) {
        Step {
            app: AppView { message: threshold::unsupported_text(app.language), ..app },
            run: idle,
            action: ActionView::Done,
        }
    } else if !some_writable(app.batteries) {
        Step {
            app: AppView { message: keeper::denied_text(app.language), ..app },
            run: idle,
            action: ActionView::Done,
        }
    } else {
        let run = RunView {
            targets: threshold_places(app.batteries),
            pending: Pending::Probe,
            ..idle
        };
        Step { app, run, action: next_action(run) }
    }
}

/// The step that an answer leads to.
pub open spec fn stepped(app: AppView, run: RunView, event: EventView) -> Step {
    let place = run.targets[run.position];
    let b = app.batteries[place];
    match event {
        EventView::Probed(probe) => match threshold::limit_writes(
            b,
            run.limit,
            probe,
            app.language,
        ) {
            Ok(writes) => Step {
                app,
                run: RunView { pending: Pending::Write, ..run },
                action: ActionView::Write(place, writes),
            },
            Err(e) => {
                let run = advanced(run, Some(battery_error(b, e)));
                Step { app, run, action: next_action(run) }
            },
        },
        EventView::Written(result) => {
            let run = advanced(
                run,
                match result {
                    Ok(_) => None,
                    Err(e) => Some(battery_error(b, threshold::failure_text(e, app.language))),
                },
            );
            Step { app, run, action: next_action(run) }
        },
        EventView::Polled(readings) => Step {
            app: AppView {
                batteries: keeper::all_updated(app.batteries, readings),
                message: run_message(run.limit, run.errors, app.language),
                ..app
            },
            run: RunView { pending: Pending::Nothing, ..run },
            action: ActionView::Done,
        },
    }
}

/// The run belongs to this state: its targets are batteries with a threshold, and a battery is at hand
/// while one is probed or written.
pub open spec fn fits(app: AppView, run: RunView) -> bool {
    &&& forall|k: int|
        0 <= k < run.targets.len() ==> 0 <= #[trigger] run.targets[k] < app.batteries.len()
            && app.batteries[run.targets[k]].threshold_support != ThresholdSupport::Unsupported
    &&& 0 <= run.position <= run.targets.len()
    &&& run.pending == Pending::Probe || run.pending == Pending::Write ==> run.position
        < run.targets.len()
}

/// The event answers what the run waits for.
pub open spec fn is_answer(app: AppView, run: RunView, event: EventView) -> bool {
    match event {
        EventView::Probed(_) => run.pending == Pending::Probe,
        EventView::Written(_) => run.pending == Pending::Write,
        EventView::Polled(readings) => run.pending == Pending::Poll && readings.len()
            == app.batteries.len(),
    }
}

proof fn lemma_threshold_places(batteries: Seq<BatteryView>)
    ensures
        forall|k: int|
            0 <= k < threshold_places(batteries).len() ==> 0 <= #[trigger] threshold_places(
                batteries,
            )[k] < batteries.len() && batteries[threshold_places(batteries)[k]].threshold_support
                != ThresholdSupport::Unsupported,
    decreases batteries.len(),
{
    if batteries.len() > 0 {
        let short = batteries.drop_last();
        lemma_threshold_places(short);
        assert forall|k: int| 0 <= k < threshold_places(batteries).len() implies 0
            <= #[trigger] threshold_places(batteries)[k] < batteries.len()
            && batteries[threshold_places(batteries)[k]].threshold_support
            != ThresholdSupport::Unsupported by {
            if k < threshold_places(short).len() {
                let t = threshold_places(short)[k];
                assert(batteries[t] == short[t]);
            }
        }
    }
}

/// Where some battery can be written, there is a battery with a threshold.
proof fn lemma_writable_has_threshold(batteries: Seq<BatteryView>)
    requires
        some_writable(batteries),
    ensures
        !keeper::all_have(batteries, ThresholdSupport::Unsupported),
        0 < threshold_places(batteries).len(),
{
    let i = choose|i: int|
        0 <= i < batteries.len() && (#[trigger] batteries[i]).threshold_support
            == ThresholdSupport::Writable;
    threshold_places_are_complete(batteries, i);
    assert(threshold_places(batteries).contains(i));
}

/// Tells whether some battery can be written.
fn some_battery_writable(batteries: &Vec<Battery>) -> (r: bool)
    ensures
        r == some_writable(battery::battery_views(batteries@)),
{
    let ghost views = battery::battery_views(batteries@);
    let mut i: usize = 0;
    while i < batteries.len()
        invariant
            i <= batteries.len(),
            views == battery::battery_views(batteries@),
            forall|j: int|
                0 <= j < i ==> (#[trigger] views[j]).threshold_support
                    != ThresholdSupport::Writable,
        decreases batteries.len() - i,
    {
        if batteries[i].threshold_support == ThresholdSupport::Writable {
            assert(views[i as int].threshold_support == ThresholdSupport::Writable);
            return true;
        }
        i = i + 1;
    }
    false
}

/// Lists the places of the batteries that have a threshold.
fn batteries_with_threshold(batteries: &Vec<Battery>) -> (r: Vec<usize>)
    ensures
        r@.map_values(|t: usize| t as int) == threshold_places(
            battery::battery_views(batteries@),
        ),
{
    let ghost views = battery::battery_views(batteries@);
    let mut r: Vec<usize> = Vec::new();
    let mut i: usize = 0;
    assert(views.take(0) =~= Seq::<BatteryView>::empty());
    assert(r@.map_values(|t: usize| t as int) =~= Seq::<int>::empty());
    while i < batteries.len()
        invariant
            i <= batteries.len(),
            views == battery::battery_views(batteries@),
            r@.map_values(|t: usize| t as int) == threshold_places(views.take(i as int)),
        decreases batteries.len() - i,
    {
        let ghost before = r@;
        assert(views.take(i + 1).drop_last() =~= views.take(i as int));
        assert(views.take(i + 1).last() == batteries@[i as int]@);
        if batteries[i].threshold_support != ThresholdSupport::Unsupported {
            r.push(i);
            assert(r@.map_values(|t: usize| t as int) =~= before.map_values(
                |t: usize| t as int,
            ).push(i as int));
        }
        i = i + 1;
    }
    assert(views.take(batteries@.len() as int) =~= views);
    r
}

/// Joins lines with `; ` between them.
fn join_lines(lines: &Vec<String>) -> (r: String)
    ensures
        r@ == joined_lines(lines@.map_values(|e: String| e@)),
{
    let ghost all = lines@.map_values(|e: String| e@);
    let mut r = String::new();
    let mut i: usize = 0;
    assert(all.take(0) =~= Seq::<Seq<char>>::empty());
    while i < lines.len()
        invariant
            i <= lines.len(),
            all == lines@.map_values(|e: String| e@),
            r@ == joined_lines(all.take(i as int)),
        decreases lines.len() - i,
    {
        assert(all.take(i + 1).drop_last() =~= all.take(i as int));
        assert(all.take(i + 1).last() == lines@[i as int]@);
        if i > 0 {
            r.append("; ");
        } else {
            assert(r@ =~= Seq::<char>::empty());
            assert(r@ + lines@[0]@ =~= lines@[0]@);
        }
        r.append(lines[i].as_str());
        i = i + 1;
    }
    assert(all.take(lines@.len() as int) =~= all);
    r
}

impl LimitRun {
    /// Goes on to the next battery, and keeps the error that the last one met.
    fn advance(&mut self, error: Option<String>)
        requires
            old(self).position < old(self).targets.len(),
        ensures
            final(self)@ == advanced(old(self)@, battery::maybe_text(error)),
            final(self).targets == old(self).targets,
    {
        let ghost before = self.errors@;
        match error {
            Some(e) => {
                self.errors.push(e);
                assert(self.errors@.map_values(|e: String| e@) =~= before.map_values(
                    |e: String| e@,
                ).push(e@));
            },
            None => {},
        }
        self.position = self.position + 1;
        self.pending = if self.position < self.targets.len() {
            Pending::Probe
        } else {
            Pending::Poll
        };
    }

    /// What the run asks for when a new battery is at hand.
    fn next(&self) -> (r: LimitAction)
        ensures
            r@ == next_action(self@),
    {
        if self.position < self.targets.len() {
            LimitAction::Probe(self.targets[self.position])
        } else {
            LimitAction::Poll
        }
    }
}

impl BatteryHealthKeeperApp {
    /// Starts to apply `limit` to every battery that has an end threshold.
    pub fn apply_limit(&mut self, limit: u8) -> (r: (LimitRun, LimitAction))
        ensures
            started(old(self)@, limit as nat) == (Step {
                app: final(self)@,
                run: r.0@,
                action: r.1@,
            }),
            fits(final(self)@, r.0@),
            final(self)@.charge_limit == old(self)@.charge_limit,
            r.0.limit == limit,
    {
        let mut run = LimitRun {
            limit,
            targets: Vec::new(),
            position: 0,
            errors: Vec::new(),
            pending: Pending::Nothing,
        };
        assert(run@.targets =~= Seq::<int>::empty());
        assert(run@.errors =~= Seq::<Seq<char>>::empty());
        if keeper::all_batteries_have(&self.batteries, ThresholdSupport::Unsupported) {
            self.message = threshold::unsupported_message(&self.language);
            return (run, LimitAction::Done);
        }
        if !some_battery_writable(&self.batteries) {
            self.message = keeper::denied_message(&self.language);
            return (run, LimitAction::Done);
        }
        proof {
            lemma_threshold_places(self@.batteries);
            lemma_writable_has_threshold(self@.batteries);
        }
        run.targets = batteries_with_threshold(&self.batteries);
        run.pending = Pending::Probe;
        let action = run.next();
        (run, action)
    }

    /// Chooses one hundred percent and starts to apply it.
    pub fn reset_limit(&mut self) -> (r: (LimitRun, LimitAction))
        ensures
            started(AppView { charge_limit: 100, ..old(self)@ }, 100) == (Step {
                app: final(self)@,
                run: r.0@,
                action: r.1@,
            }),
            fits(final(self)@, r.0@),
            final(self)@.is_well_formed(),
            final(self).charge_limit == 100,
            r.0.limit == 100,
    {
        self.charge_limit = 100;
        self.apply_limit(100)
    }

    /// Takes the answer to the last action and decides on the next.
    pub fn apply_step(&mut self, run: &mut LimitRun, event: LimitEvent) -> (r: LimitAction)
        requires
            fits(old(self)@, old(run)@),
            is_answer(old(self)@, old(run)@, event@),
        ensures
            stepped(old(self)@, old(run)@, event@) == (Step {
                app: final(self)@,
                run: final(run)@,
                action: r@,
            }),
            fits(final(self)@, final(run)@) || final(run)@.pending == Pending::Nothing,
            final(self)@.charge_limit == old(self)@.charge_limit,
    {
        match event {
            LimitEvent::Probed(probe) => {
                let place: usize = run.targets[run.position];
                assert(run@.targets[run.position as int] == place);
                let writes = threshold::apply_charge_limit(
                    &self.batteries[place],
                    run.limit,
                    &probe,
                    &self.language,
                );
                match writes {
                    Ok(writes) => {
                        run.pending = Pending::Write;
                        LimitAction::Write(place, writes)
                    },
                    Err(error) => {
                        let line = keeper::joined_text(
                            self.batteries[place].name.as_str(),
                            ": ",
                            error.as_str(),
                        );
                        run.advance(Some(line));
                        run.next()
                    },
                }
            },
            LimitEvent::Written(result) => {
                let place: usize = run.targets[run.position];
                assert(run@.targets[run.position as int] == place);
                let error = match result {
                    Ok(_) => None,
                    Err(e) => {
                        let said = threshold::format_threshold_error(&e, &self.language);
                        Some(
                            keeper::joined_text(
                                self.batteries[place].name.as_str(),
                                ": ",
                                said.as_str(),
                            ),
                        )
                    },
                };
                run.advance(error);
                run.next()
            },
            LimitEvent::Polled(readings) => {
                self.poll_batteries(&readings);
                run.pending = Pending::Nothing;
                self.message =
                if run.errors.len() > 0 {
                    let said = join_lines(&run.errors);
                    keeper::joined_text(
                        self.language.text("status.threshold_error", "Could not set thresholds"),
                        ": ",
                        said.as_str(),
                    )
                } else if run.limit >= 100 {
                    self.language.text(
                        "status.reset_applied",
                        "Charge limit reset to 100%",
                    ).to_owned()
                } else {
                    let mut said = keeper::joined_text(
                        self.language.text("status.limit_applied", "Charge limit applied"),
                        ": ",
                        text::decimal_text(run.limit as u64).as_str(),
                    );
                    said.append("%");
                    said
                };
                LimitAction::Done
            },
        }
    }
}

/// What one battery answers: what the probe found, and how the end-threshold write goes.
pub struct Answer {
    pub probe: ProbeView,
    pub written: Result<(), FailureView>,
}

/// The error that setting `limit` on one battery meets, if any.
pub open spec fn battery_outcome(
    b: BatteryView,
    limit: nat,
    answer: Answer,
    language: LanguageView,
) -> Option<Seq<char>> {
    match threshold::limit_writes(b, limit, answer.probe, language) {
        Err(e) => Some(battery_error(b, e)),
        Ok(_) => match answer.written {
            Ok(_) => None,
            Err(e) => Some(battery_error(b, threshold::failure_text(e, language))),
        },
    }
}

/// The errors that the first `n` batteries with a threshold meet, in order.
pub open spec fn outcomes(app: AppView, limit: nat, answers: Seq<Answer>, n: int) -> Seq<Seq<char>>
    decreases n,
{
    if n <= 0 {
        Seq::empty()
    } else {
        let before = outcomes(app, limit, answers, n - 1);
        let b = app.batteries[threshold_places(app.batteries)[n - 1]];
        match battery_outcome(b, limit, answers[n - 1], app.language) {
            Some(e) => before.push(e),
            None => before,
        }
    }
}

/// The step after the battery at hand has answered: the probe, and the write where the probe
/// led to one.
pub open spec fn battery_turn(step: Step, answer: Answer) -> Step {
    let probed = stepped(step.app, step.run, EventView::Probed(answer.probe));
    if probed.action is Write {
        stepped(probed.app, probed.run, EventView::Written(answer.written))
    } else {
        probed
    }
}

/// The step after the first `n` batteries have answered.
pub open spec fn after_turns(app: AppView, limit: nat, answers: Seq<Answer>, n: int) -> Step
    decreases n,
{
    if n <= 0 {
        started(app, limit)
    } else {
        battery_turn(after_turns(app, limit, answers, n - 1), answers[n - 1])
    }
}

/// A run serves every battery with a threshold once, in order: after `n` turns it holds the
/// errors of the first `n`, asks for a probe of the next, and for a look at all once none is left.
pub proof fn run_serves_every_battery_with_a_threshold(
    app: AppView,
    limit: nat,
    answers: Seq<Answer>,
    n: int,
)
    requires
        some_writable(app.batteries),
        0 <= n <= threshold_places(app.batteries).len(),
    ensures
        after_turns(app, limit, answers, n).app == app,
        after_turns(app, limit, answers, n).run == (RunView {
            limit,
            targets: threshold_places(app.batteries),
            position: n,
            errors: outcomes(app, limit, answers, n),
            pending: if n < threshold_places(app.batteries).len() {
                Pending::Probe
            } else {
                Pending::Poll
            },
        }),
        after_turns(app, limit, answers, n).action == (if n < threshold_places(
            app.batteries,
        ).len() {
            ActionView::Probe(threshold_places(app.batteries)[n])
        } else {
            ActionView::Poll
        }),
        fits(app, after_turns(app, limit, answers, n).run),
    decreases n,
{
    lemma_threshold_places(app.batteries);
    lemma_writable_has_threshold(app.batteries);
    if n > 0 {
        run_serves_every_battery_with_a_threshold(app, limit, answers, n - 1);
    }
}

/// A finished run shows the new readings of every battery, and its status line reports the
/// errors of all batteries with a threshold, or success where there was none.
pub proof fn run_reports_every_error(
    app: AppView,
    limit: nat,
    answers: Seq<Answer>,
    readings: Seq<ReadingsView>,
)
    requires
        some_writable(app.batteries),
        readings.len() == app.batteries.len(),
    ensures
        ({
            let last = after_turns(
                app,
                limit,
                answers,
                threshold_places(app.batteries).len() as int,
            );
            let end = stepped(last.app, last.run, EventView::Polled(readings));
            &&& is_answer(last.app, last.run, EventView::Polled(readings))
            &&& end.action == ActionView::Done
            &&& end.app.batteries == keeper::all_updated(app.batteries, readings)
            &&& end.app.message == run_message(
                limit,
                outcomes(
                    app,
                    limit,
                    answers,
                    threshold_places(app.batteries).len() as int,
                ),
                app.language,
            )
            &&& end.app.charge_limit == app.charge_limit
            &&& end.app.language == app.language
        }),
{
    run_serves_every_battery_with_a_threshold(
        app,
        limit,
        answers,
        threshold_places(app.batteries).len() as int,
    );
}

/// How many answers a run still waits for, at most.
pub open spec fn answers_left(run: RunView) -> int {
    match run.pending {
        Pending::Probe => 2 * (run.targets.len() - run.position) + 1,
        Pending::Write => 2 * (run.targets.len() - run.position),
        Pending::Poll => 1,
        Pending::Nothing => 0,
    }
}

/// Every answer brings a run closer to its end, and it ends when nothing is left to answer.
pub proof fn every_answer_brings_the_end_closer(app: AppView, run: RunView, event: EventView)
    requires
        fits(app, run),
        is_answer(app, run, event),
    ensures
        0 <= answers_left(stepped(app, run, event).run) < answers_left(run),
        stepped(app, run, event).action == ActionView::Done <==> answers_left(
            stepped(app, run, event).run,
        ) == 0,
{
}

/// A run writes nothing but the limit, and only to the end-threshold file of a battery that has
/// one; the start threshold that may go before it is that of the same battery.
pub proof fn run_writes_only_to_thresholds(app: AppView, run: RunView, event: EventView)
    requires
        fits(app, run),
        is_answer(app, run, event),
        stepped(app, run, event).action is Write,
    ensures
        ({
            let place = stepped(app, run, event).action->Write_0;
            let writes = stepped(app, run, event).action->Write_1;
            &&& 0 <= place < app.batteries.len()
            &&& app.batteries[place].threshold_support != ThresholdSupport::Unsupported
            &&& app.batteries[place].end_threshold_path == Some(writes.end.path)
            &&& writes.end.contents == text::decimal(run.limit)
            &&& writes.start matches Some(w) ==> app.batteries[place].start_threshold_path == Some(
                w.path,
            )
        }),
{
}

/// The batteries with a threshold are all found: a place is listed exactly where the battery
/// there has one, whether it can be written or not.
pub proof fn threshold_places_are_complete(batteries: Seq<BatteryView>, place: int)
    requires
        0 <= place < batteries.len(),
    ensures
        threshold_places(batteries).contains(place) <==> batteries[place].threshold_support
            != ThresholdSupport::Unsupported,
    decreases batteries.len(),
{
    let short = batteries.drop_last();
    let before = threshold_places(short);
    let all = threshold_places(batteries);
    lemma_threshold_places(batteries);
    lemma_threshold_places(short);
    if place < short.len() {
        threshold_places_are_complete(short, place);
        if before.contains(place) {
            let k = choose|k: int| 0 <= k < before.len() && before[k] == place;
            assert(all[k] == place);
        }
        if all.contains(place) {
            let k = choose|k: int| 0 <= k < all.len() && all[k] == place;
            assert(before[k] == place);
        }
    } else if batteries.last().threshold_support != ThresholdSupport::Unsupported {
        assert(all[all.len() - 1] == place);
    }
}

/// Once some battery can be written, a run writes the limit to the end-threshold file of every
/// battery that has one, a read-only battery among them, where a probe finds the file in place.
pub proof fn limit_goes_to_every_end_threshold(
    app: AppView,
    limit: nat,
    answers: Seq<Answer>,
    place: int,
) -> (n: int)
    requires
        some_writable(app.batteries),
        0 <= place < app.batteries.len(),
        app.batteries[place].threshold_support != ThresholdSupport::Unsupported,
        app.batteries[place].end_threshold_path is Some,
    ensures
        0 <= n < threshold_places(app.batteries).len(),
        ({
            let turn = after_turns(app, limit, answers, n);
            let probed = stepped(app, turn.run, EventView::Probed(answers[n].probe));
            &&& turn.app == app
            &&& turn.action == ActionView::Probe(place)
            &&& answers[n].probe.end_exists ==> probed.action == ActionView::Write(
                place,
                LimitWritesView {
                    start: threshold::start_write(app.batteries[place], limit, answers[n].probe),
                    end: threshold::threshold_write(
                        app.batteries[place].end_threshold_path->0,
                        limit,
                    ),
                },
            )
        }),
{
    let places = threshold_places(app.batteries);
    threshold_places_are_complete(app.batteries, place);
    let n = choose|n: int| 0 <= n < places.len() && places[n] == place;
    run_serves_every_battery_with_a_threshold(app, limit, answers, n);
    n
}

/// A battery that refuses the write for want of permission is named in the status line at the
/// end of the run, with the reason, and the run does not report success.
pub proof fn refusing_battery_is_named(
    app: AppView,
    limit: nat,
    answers: Seq<Answer>,
    k: int,
)
    requires
        some_writable(app.batteries),
        0 <= k < threshold_places(app.batteries).len(),
        threshold::limit_writes(
            app.batteries[threshold_places(app.batteries)[k]],
            limit,
            answers[k].probe,
            app.language,
        ) is Ok,
        answers[k].written matches Err(e) && e.permission_denied,
    ensures
        ({
            let errors = outcomes(
                app,
                limit,
                answers,
                threshold_places(app.batteries).len() as int,
            );
            &&& errors.contains(
                app.batteries[threshold_places(app.batteries)[k]].name + ": "@ + app.language.text(
                    "status.permission_denied"@,
                    "Permission denied. Grant access to the battery threshold files or run the app with the required permissions."@,
                ),
            )
            &&& run_message(limit, errors, app.language) == app.language.text(
                "status.threshold_error"@,
                "Could not set thresholds"@,
            ) + ": "@ + joined_lines(errors)
        }),
{
    let n = threshold_places(app.batteries).len() as int;
    let b = app.batteries[threshold_places(app.batteries)[k]];
    errors_are_complete(app, limit, answers, n, k);
    refused_permission_is_reported(b, limit, answers[k], app.language);
}

/// No step of a run changes the chosen limit, so that it stays in the range on offer.
pub proof fn run_keeps_the_chosen_limit(app: AppView, limit: nat, run: RunView, event: EventView)
    requires
        app.is_well_formed(),
    ensures
        started(app, limit).app.charge_limit == app.charge_limit,
        stepped(app, run, event).app.charge_limit == app.charge_limit,
        started(app, limit).app.is_well_formed(),
        stepped(app, run, event).app.is_well_formed(),
{
}

/// The error of every battery served is kept, and there is none only if every battery served
/// took the limit.
pub proof fn errors_are_complete(app: AppView, limit: nat, answers: Seq<Answer>, n: int, k: int)
    requires
        0 <= k < n,
    ensures
        ({
            let b = app.batteries[threshold_places(app.batteries)[k]];
            battery_outcome(b, limit, answers[k], app.language) matches Some(e) ==> outcomes(
                app,
                limit,
                answers,
                n,
            ).contains(e)
        }),
        outcomes(app, limit, answers, n).len() == 0 ==> battery_outcome(
            app.batteries[threshold_places(app.batteries)[k]],
            limit,
            answers[k],
            app.language,
        ) is None,
    decreases n,
{
    let before = outcomes(app, limit, answers, n - 1);
    let after = outcomes(app, limit, answers, n);
    let b = app.batteries[threshold_places(app.batteries)[k]];
    if k < n - 1 {
        errors_are_complete(app, limit, answers, n - 1, k);
    }
    match battery_outcome(b, limit, answers[k], app.language) {
        Some(e) => {
            if k < n - 1 {
                let i = choose|i: int| 0 <= i < before.len() && before[i] == e;
                assert(after[i] == e);
            } else {
                assert(after[after.len() - 1] == e);
            }
        },
        None => {},
    }
}

/// Where every battery with a threshold takes the limit, there is no error.
pub proof fn no_error_without_a_failure(app: AppView, limit: nat, answers: Seq<Answer>, n: int)
    requires
        forall|k: int|
            0 <= k < n ==> battery_outcome(
                app.batteries[threshold_places(app.batteries)[k]],
                limit,
                #[trigger] answers[k],
                app.language,
            ) is None,
    ensures
        outcomes(app, limit, answers, n).len() == 0,
    decreases n,
{
    if n > 0 {
        let last = answers[n - 1];
        no_error_without_a_failure(app, limit, answers, n - 1);
    }
}

/// A write that the system refuses for want of permission is reported as such, under the name
/// of the battery.
pub proof fn refused_permission_is_reported(
    b: BatteryView,
    limit: nat,
    answer: Answer,
    language: LanguageView,
)
    requires
        threshold::limit_writes(b, limit, answer.probe, language) is Ok,
        answer.written matches Err(e) && e.permission_denied,
    ensures
        battery_outcome(b, limit, answer, language) == Some(
            b.name + ": "@ + language.text(
                "status.permission_denied"@,
                "Permission denied. Grant access to the battery threshold files or run the app with the required permissions."@,
            ),
        ),
{
}

/// A run starts exactly where some battery can be written; it then changes nothing yet and turns
/// to the first battery with a threshold. Else it ends at once, nothing but the status line
/// changes, and that says whether a threshold is missing or the permission.
pub proof fn run_starts_or_says_why_not(app: AppView, limit: nat)
    ensures
        ({
            let step = started(app, limit);
            let no_threshold = forall|i: int|
                0 <= i < app.batteries.len() ==> (#[trigger] app.batteries[i]).threshold_support
                    == ThresholdSupport::Unsupported;
            let writable = exists|i: int|
                0 <= i < app.batteries.len() && (#[trigger] app.batteries[i]).threshold_support
                    == ThresholdSupport::Writable;
            &&& step.app == (AppView { message: step.app.message, ..app })
            &&& step.run.limit == limit
            &&& step.run.errors.len() == 0
            &&& step.run.position == 0
            &&& step.action == ActionView::Done <==> !writable
            &&& no_threshold ==> language::is_wording(
                step.app.message,
                app.language,
                "status.thresholds_unsupported"@,
                "Battery found, but charge thresholds are not supported by this hardware or kernel driver."@,
            )
            &&& !no_threshold && !writable ==> language::is_wording(
                step.app.message,
                app.language,
                "status.thresholds_permission_denied"@,
                "Battery found, but write permission is denied. Run with sudo or configure a udev rule."@,
            )
            &&& writable ==> step.app == app && step.action == ActionView::Probe(
                threshold_places(app.batteries)[0],
            )
        }),
{
    if some_writable(app.batteries) {
        lemma_writable_has_threshold(app.batteries);
    }
}

/// The batteries are served in the order in which they are listed, each at most once.
pub proof fn batteries_are_served_in_order(batteries: Seq<BatteryView>, i: int, j: int)
    requires
        0 <= i < j < threshold_places(batteries).len(),
    ensures
        threshold_places(batteries)[i] < threshold_places(batteries)[j],
    decreases batteries.len(),
{
    let short = batteries.drop_last();
    lemma_threshold_places(short);
    if j < threshold_places(short).len() {
        batteries_are_served_in_order(short, i, j);
    }
}

/// The status line at the end of a run reports success only where there was no error: with the
/// limit that was set, or as a reset where that is one hundred percent. Else it gives the errors.
pub proof fn end_of_run_is_reported(
    limit: nat,
    errors: Seq<Seq<char>>,
    language: LanguageView,
    applied: Seq<char>,
    failed: Seq<char>,
)
    requires
        language::is_wording(applied, language, "status.limit_applied"@, "Charge limit applied"@),
        language::is_wording(
            failed,
            language,
            "status.threshold_error"@,
            "Could not set thresholds"@,
        ),
    ensures
        errors.len() == 0 && limit < 100 ==> run_message(limit, errors, language) == applied + ": "@
            + text::decimal(limit) + "%"@,
        errors.len() == 0 && limit >= 100 ==> language::is_wording(
            run_message(limit, errors, language),
            language,
            "status.reset_applied"@,
            "Charge limit reset to 100%"@,
        ),
        errors.len() > 0 ==> run_message(limit, errors, language) == failed + ": "@ + joined_lines(
            errors,
        ),
{
}

/// Lines are joined whole and in order, with `; ` between them and nowhere else.
pub proof fn lines_are_joined_in_order(a: Seq<Seq<char>>, b: Seq<Seq<char>>, line: Seq<char>)
    ensures
        joined_lines(seq![line]) == line,
        a.len() > 0 && b.len() > 0 ==> joined_lines(a + b) == joined_lines(a) + "; "@
            + joined_lines(b),
    decreases b.len(),
{
    if a.len() > 0 && b.len() > 0 {
        let short = b.drop_last();
        assert((a + b).drop_last() =~= a + short);
        assert((a + b).last() == b.last());
        if short.len() == 0 {
            assert(a + short =~= a);
        } else {
            lines_are_joined_in_order(a, short, line);
        }
        assert(joined_lines(a + b) =~= joined_lines(a) + "; "@ + joined_lines(b));
    }
}

/// What goes wrong with a battery is reported under its name: that its threshold file is gone, or
/// the failure of the write as it is told. A battery that takes the limit is not reported.
pub proof fn failure_is_reported_under_the_name(
    b: BatteryView,
    limit: nat,
    answer: Answer,
    language: LanguageView,
    missing: Seq<char>,
)
    requires
        language::is_wording(
            missing,
            language,
            "status.thresholds_unsupported"@,
            "Battery found, but charge thresholds are not supported by this hardware or kernel driver."@,
        ),
    ensures
        ({
            let there = b.end_threshold_path is Some && answer.probe.end_exists;
            let outcome = battery_outcome(b, limit, answer, language);
            &&& !there ==> outcome == Some(b.name + ": "@ + missing)
            &&& there ==> (answer.written matches Err(e) ==> !e.permission_denied ==> outcome
                == Some(b.name + ": "@ + e.message))
            &&& there && answer.written is Ok ==> outcome is None
        }),
{
    threshold::limit_needs_an_end_threshold(b, limit, answer.probe, language);
}

} // verus!
