//! What a terminal tells the rest of the application, and when.

use vstd::prelude::*;

use crate::text::chars;

verus! {

/// What a terminal tells the rest of the application. `S` is what is known of
/// a detected service.
#[derive(Clone, Debug, PartialEq, Eq)]
pub enum TerminalEvent<S> {
    /// The shell is gone.
    ChildExited,
    TitleChanged,
    /// The shell's working directory.
    CwdChanged(String),
    /// The shell shows a prompt, so nothing runs in the foreground.
    ShellPromptReady,
    /// The user came to this terminal.
    FocusGained,
    /// There is output.
    ActivityBurst,
    /// A server was seen in the output.
    ServiceDetected(S),
    /// Escape was pressed while a pane swap was armed.
    CancelSwapMode,
    /// A selection went to the clipboard.
    SelectionCopied,
    /// A Markdown file is to be opened.
    OpenMarkdownPath(String),
    /// A source file is to be opened.
    OpenCodePath { path: String, line: Option<u32>, col: Option<u32> },
    /// The font size of this pane changed.
    FontZoomChanged,
    /// The search is to be taken to all panes.
    FleetSearchRequested { query: String, regex: bool },
    /// The program became busy or idle.
    AgentProgressChanged { busy: bool },
    /// The program asks for the user.
    AgentAttention { title: String, body: String },
}

/// The part of a [`TerminalEvent`] that a batch of engine events can cause, as
/// a mathematical value.
pub enum Told<S> {
    AgentAttention { title: Seq<char>, body: Seq<char> },
    AgentProgressChanged { busy: bool },
    ChildExited,
    TitleChanged,
    CwdChanged(Seq<char>),
    ShellPromptReady,
    ServiceDetected(S),
    ActivityBurst,
    Other,
}

impl<S> TerminalEvent<S> {
    /// The event as a mathematical value.
    pub open spec fn told(self) -> Told<S> {
        match self {
            TerminalEvent::AgentAttention { title, body } => Told::AgentAttention {
                title: title@,
                body: body@,
            },
            TerminalEvent::AgentProgressChanged { busy } => Told::AgentProgressChanged { busy },
            TerminalEvent::ChildExited => Told::ChildExited,
            TerminalEvent::TitleChanged => Told::TitleChanged,
            TerminalEvent::CwdChanged(cwd) => Told::CwdChanged(cwd@),
            TerminalEvent::ShellPromptReady => Told::ShellPromptReady,
            TerminalEvent::ServiceDetected(s) => Told::ServiceDetected(s),
            TerminalEvent::ActivityBurst => Told::ActivityBurst,
            _ => Told::Other,
        }
    }
}

/// The events as mathematical values.
pub open spec fn all_told<S>(events: Seq<TerminalEvent<S>>) -> Seq<Told<S>> {
    events.map_values(|e: TerminalEvent<S>| e.told())
}

/// How many engine events one batch takes.
pub const MAX_BATCH_EVENTS: usize = 100;

/// Nanoseconds that a batch stays open.
pub const BATCH_WINDOW: u64 = 4000000;

/// A batch as a mathematical value.
pub struct Batch<T> {
    pub events: Seq<T>,
    pub dequeued: nat,
    pub had_wakeup: bool,
}

impl<T> Batch<T> {
    /// A batch of nothing.
    pub open spec fn none() -> Batch<T> {
        Batch { events: seq![], dequeued: 0, had_wakeup: false }
    }

    /// The batch with one more event: a wakeup is only remembered.
    pub open spec fn taken(self, event: T, wakeup: bool) -> Batch<T> {
        Batch {
            events: if wakeup {
                self.events
            } else {
                self.events.push(event)
            },
            dequeued: self.dequeued + 1,
            had_wakeup: self.had_wakeup || wakeup,
        }
    }
}

/// Engine events that are dealt with at once. All wakeups of a batch count as
/// one.
pub struct EventBatch<T> {
    events: Vec<T>,
    dequeued: usize,
    had_wakeup: bool,
}

impl<T> View for EventBatch<T> {
    type V = Batch<T>;

    closed spec fn view(&self) -> Batch<T> {
        Batch {
            events: self.events@,
            dequeued: self.dequeued as nat,
            had_wakeup: self.had_wakeup,
        }
    }
}

impl<T> EventBatch<T> {
    /// A batch that begins with `first`.
    pub fn start(first: T, is_wakeup: bool) -> (r: EventBatch<T>)
        ensures
            r@ == Batch::none().taken(first, is_wakeup),
    {
        let mut events: Vec<T> = Vec::new();
        if !is_wakeup {
            events.push(first);
        }
        let r = EventBatch { events, dequeued: 1, had_wakeup: is_wakeup };
        assert(r@.events =~= Batch::none().taken(first, is_wakeup).events);
        r
    }

    /// Takes one more event; `true` when the batch is full.
    pub fn offer(&mut self, event: T, is_wakeup: bool) -> (r: bool)
        requires
            old(self)@.dequeued < MAX_BATCH_EVENTS,
        ensures
            final(self)@ == old(self)@.taken(event, is_wakeup),
            r == (final(self)@.dequeued >= MAX_BATCH_EVENTS),
    {
        if is_wakeup {
            self.had_wakeup = true;
        } else {
            self.events.push(event);
        }
        self.dequeued = self.dequeued + 1;
        self.dequeued >= MAX_BATCH_EVENTS
    }

    /// The events in the order that they came, and whether a wakeup was among
    /// them.
    pub fn close(self) -> (r: (Vec<T>, bool))
        ensures
            r.0@ == self@.events,
            r.1 == self@.had_wakeup,
    {
        (self.events, self.had_wakeup)
    }
}

/// The batch that a sequence of arrivals makes.
pub open spec fn collected<T>(arrivals: Seq<(T, bool)>) -> Batch<T>
    decreases arrivals.len(),
{
    if arrivals.len() == 0 {
        Batch::none()
    } else {
        collected(arrivals.drop_last()).taken(arrivals.last().0, arrivals.last().1)
    }
}

/// A batch holds every arrival but the wakeups, in their order, and knows of a
/// wakeup if and only if there was one.
pub proof fn batches_lose_nothing<T>(arrivals: Seq<(T, bool)>)
    ensures
        collected(arrivals).dequeued == arrivals.len(),
        collected(arrivals).had_wakeup <==> exists|i: int|
            0 <= i < arrivals.len() && (#[trigger] arrivals[i]).1,
        collected(arrivals).events == arrivals.filter(|a: (T, bool)| !a.1).map_values(
            |a: (T, bool)| a.0,
        ),
    decreases arrivals.len(),
{
    reveal(Seq::filter);
    let kept = |a: (T, bool)| !a.1;
    let plain = |a: (T, bool)| a.0;
    if arrivals.len() == 0 {
        assert(collected(arrivals).events =~= arrivals.filter(kept).map_values(plain));
    } else {
        let init = arrivals.drop_last();
        let last = arrivals.last();
        batches_lose_nothing(init);
        assert(arrivals[arrivals.len() - 1] == last);
        if collected(init).had_wakeup {
            let i = choose|i: int| 0 <= i < init.len() && (#[trigger] init[i]).1;
            assert(arrivals[i].1);
        }
        assert forall|i: int| 0 <= i < arrivals.len() && (#[trigger] arrivals[i]).1 implies
            collected(arrivals).had_wakeup by {
            if i < init.len() {
                assert(init[i].1);
            }
        }
        assert(collected(arrivals).events =~= arrivals.filter(kept).map_values(plain));
    }
}

/// What is compared before and after a batch.
pub struct SessionState {
    pub title: String,
    pub cwd: Option<String>,
    /// Whether the program reports progress.
    pub busy: bool,
}

/// What a batch left behind.
pub struct BatchOutcome {
    pub state: SessionState,
    /// Whether the shell is gone.
    pub exited: bool,
    /// Whether the pane closes with it.
    pub close_on_exit: bool,
    pub prompt_ready: bool,
}

/// A notification that the program asked for.
#[derive(Clone, Debug, PartialEq, Eq)]
pub struct ProgramNotification {
    pub title: String,
    pub body: String,
}

/// One event if `when`, else none.
pub open spec fn told_if<S>(when: bool, event: Told<S>) -> Seq<Told<S>> {
    if when {
        seq![event]
    } else {
        seq![]
    }
}

/// The events for notifications.
pub open spec fn attention<S>(notifications: Seq<ProgramNotification>) -> Seq<Told<S>> {
    notifications.map_values(
        |n: ProgramNotification| Told::<S>::AgentAttention { title: n.title@, body: n.body@ },
    )
}

/// Whether two optional texts are the same.
pub open spec fn same_text(a: Option<String>, b: Option<String>) -> bool {
    match (a, b) {
        (Some(x), Some(y)) => x@ == y@,
        (None, None) => true,
        _ => false,
    }
}

/// What is told after a batch: the notifications, then a change between busy
/// and idle while the shell lives, the exit of a shell that takes its pane
/// along, the title, the directory, the prompt.
pub open spec fn told_after<S>(
    before: SessionState,
    after: BatchOutcome,
    notifications: Seq<ProgramNotification>,
) -> Seq<Told<S>> {
    attention::<S>(notifications) + told_if(
        after.state.busy != before.busy && !after.exited,
        Told::AgentProgressChanged { busy: after.state.busy },
    ) + told_if(after.exited && after.close_on_exit, Told::ChildExited) + told_if(
        after.state.title@ != before.title@,
        Told::TitleChanged,
    ) + told_if(
        !same_text(after.state.cwd, before.cwd) && after.state.cwd is Some,
        Told::CwdChanged(after.state.cwd->Some_0@),
    ) + told_if(after.prompt_ready, Told::ShellPromptReady)
}

fn push_event<S>(events: &mut Vec<TerminalEvent<S>>, event: TerminalEvent<S>)
    ensures
        final(events)@ == old(events)@.push(event),
        all_told(final(events)@) == all_told(old(events)@).push(event.told()),
{
    events.push(event);
    assert(all_told(events@) =~= all_told(old(events)@).push(event.told()));
}

/// What is told after a batch.
pub fn events_after_batch<S>(
    before: &SessionState,
    after: &BatchOutcome,
    notifications: Vec<ProgramNotification>,
) -> (r: Vec<TerminalEvent<S>>)
    ensures
        all_told(r@) == told_after::<S>(*before, *after, notifications@),
{
    let mut events: Vec<TerminalEvent<S>> = Vec::new();
    let ghost notes = notifications@;
    let mut i: usize = 0;
    assert(all_told(events@) =~= attention::<S>(notes.take(0)));
    while i < notifications.len()
        invariant
            notes == notifications@,
            i <= notifications@.len(),
            all_told(events@) == attention::<S>(notes.take(i as int)),
        decreases notifications@.len() - i,
    {
        let event = TerminalEvent::AgentAttention {
            title: notifications[i].title.clone(),
            body: notifications[i].body.clone(),
        };
        push_event(&mut events, event);
        assert(all_told(events@) =~= attention::<S>(notes.take(i + 1)));
        i = i + 1;
    }
    assert(notes.take(i as int) =~= notes);
    let ghost t0 = all_told(events@);
    if after.state.busy != before.busy && !after.exited {
        push_event(&mut events, TerminalEvent::AgentProgressChanged { busy: after.state.busy });
    }
    let ghost t1 = all_told(events@);
    assert(t1 =~= t0 + told_if(
        after.state.busy != before.busy && !after.exited,
        Told::AgentProgressChanged { busy: after.state.busy },
    ));
    if after.exited && after.close_on_exit {
        push_event(&mut events, TerminalEvent::ChildExited);
    }
    let ghost t2 = all_told(events@);
    assert(t2 =~= t1 + told_if(after.exited && after.close_on_exit, Told::ChildExited));
    if !chars::same(after.state.title.as_str(), before.title.as_str()) {
        push_event(&mut events, TerminalEvent::TitleChanged);
    }
    let ghost t3 = all_told(events@);
    assert(t3 =~= t2 + told_if(after.state.title@ != before.title@, Told::TitleChanged));
    match (&after.state.cwd, &before.cwd) {
        (Some(new), Some(old_cwd)) => {
            if !chars::same(new.as_str(), old_cwd.as_str()) {
                push_event(&mut events, TerminalEvent::CwdChanged(new.clone()));
            }
        },
        (Some(new), None) => {
            push_event(&mut events, TerminalEvent::CwdChanged(new.clone()));
        },
        _ => {},
    }
    let ghost t4 = all_told(events@);
    assert(t4 =~= t3 + told_if(
        !same_text(after.state.cwd, before.cwd) && after.state.cwd is Some,
        Told::CwdChanged(after.state.cwd->Some_0@),
    ));
    if after.prompt_ready {
        push_event(&mut events, TerminalEvent::ShellPromptReady);
    }
    assert(all_told(events@) =~= t4 + told_if(after.prompt_ready, Told::ShellPromptReady));
    events
}

/// A shell that is gone is not reported as busy or idle any more, and one that
/// lives is not reported as gone.
pub proof fn exits_and_progress_exclude_each_other<S>(
    before: SessionState,
    after: BatchOutcome,
    notifications: Seq<ProgramNotification>,
    i: int,
    j: int,
)
    requires
        0 <= i < told_after::<S>(before, after, notifications).len(),
        0 <= j < told_after::<S>(before, after, notifications).len(),
    ensures
        !(told_after::<S>(before, after, notifications)[i] is AgentProgressChanged && told_after::<
            S,
        >(before, after, notifications)[j] is ChildExited),
{
    lemma_no_progress_after_exit::<S>(before, after, notifications, i);
    lemma_no_exit_while_alive::<S>(before, after, notifications, j);
}

proof fn lemma_no_progress_after_exit<S>(
    before: SessionState,
    after: BatchOutcome,
    notifications: Seq<ProgramNotification>,
    i: int,
)
    requires
        0 <= i < told_after::<S>(before, after, notifications).len(),
    ensures
        after.exited ==> !(told_after::<S>(before, after, notifications)[i] is AgentProgressChanged),
{
    let notes = attention::<S>(notifications);
    if i < notes.len() {
        assert(told_after::<S>(before, after, notifications)[i] == notes[i]);
        assert(notes[i] is AgentAttention);
    }
}

proof fn lemma_no_exit_while_alive<S>(
    before: SessionState,
    after: BatchOutcome,
    notifications: Seq<ProgramNotification>,
    i: int,
)
    requires
        0 <= i < told_after::<S>(before, after, notifications).len(),
    ensures
        !after.exited ==> !(told_after::<S>(before, after, notifications)[i] is ChildExited),
{
    let notes = attention::<S>(notifications);
    if i < notes.len() {
        assert(told_after::<S>(before, after, notifications)[i] == notes[i]);
        assert(notes[i] is AgentAttention);
    }
}

/// Nanoseconds between two bursts of activity at least.
pub const BURST_THROTTLE: u64 = 300000000;

/// Output that has not been looked at, and when activity was last told.
#[derive(Clone, Copy, Debug, PartialEq, Eq, Structural)]
pub struct ActivityGate {
    pub dirty: bool,
    pub last_activity_burst: Option<u64>,
}

/// What a look at new output comes to.
#[derive(Clone, Copy, Debug, PartialEq, Eq, Structural)]
pub struct DirtyOutcome {
    /// The output is scanned and activity told.
    pub burst: bool,
    /// The viewport goes back to this offset.
    pub restore_offset: Option<usize>,
    /// The view is drawn again.
    pub notify: bool,
}

impl ActivityGate {
    /// Whether activity is told now: at once after a quiet spell, and at most
    /// once per [`BURST_THROTTLE`] while output goes on.
    pub open spec fn bursts(self, now_ns: u64) -> bool {
        self.dirty && match self.last_activity_burst {
            Some(t) => now_ns - t >= BURST_THROTTLE,
            None => true,
        }
    }

    /// Looks at new output, if there is any. While copy mode holds the
    /// viewport at `frozen_offset`, it goes back there.
    pub fn process_dirty_terminal(&mut self, now_ns: u64, frozen_offset: Option<usize>) -> (r:
        DirtyOutcome)
        ensures
            *final(self) == (ActivityGate {
                dirty: false,
                last_activity_burst: if old(self).bursts(now_ns) {
                    Some(now_ns)
                } else {
                    old(self).last_activity_burst
                },
            }),
            r == (DirtyOutcome {
                burst: old(self).bursts(now_ns),
                restore_offset: if old(self).dirty {
                    frozen_offset
                } else {
                    None
                },
                notify: old(self).dirty,
            }),
    {
        if !self.dirty {
            return DirtyOutcome { burst: false, restore_offset: None, notify: false };
        }
        self.dirty = false;
        let burst = match self.last_activity_burst {
            Some(t) => now_ns >= t && now_ns - t >= BURST_THROTTLE,
            None => true,
        };
        if burst {
            self.last_activity_burst = Some(now_ns);
        }
        DirtyOutcome { burst, restore_offset: frozen_offset, notify: true }
    }
}

/// Whether these are the states of one gate before each of a row of looks, with
/// the last one after them all. Output may come at any time in between.
pub open spec fn is_gate_run(states: Seq<ActivityGate>, times: Seq<u64>) -> bool {
    &&& states.len() == times.len() + 1
    &&& forall|i: int|
        0 <= i < times.len() ==> states[i + 1].last_activity_burst == (if (
        #[trigger] states[i]).bursts(times[i]) {
            Some(times[i])
        } else {
            states[i].last_activity_burst
        })
}

/// However often output is looked at, two bursts of activity lie at least
/// [`BURST_THROTTLE`] apart.
pub proof fn bursts_are_spaced(states: Seq<ActivityGate>, times: Seq<u64>, i: int, j: int)
    requires
        is_gate_run(states, times),
        0 <= i < j < times.len(),
        states[i].bursts(times[i]),
        states[j].bursts(times[j]),
    ensures
        times[j] - times[i] >= BURST_THROTTLE,
{
    assert(states[i + 1].last_activity_burst == Some(times[i]));
    lemma_last_burst_grows(states, times, i + 1, j);
}

proof fn lemma_last_burst_grows(states: Seq<ActivityGate>, times: Seq<u64>, i: int, j: int)
    requires
        is_gate_run(states, times),
        0 <= i <= j < states.len(),
        states[i].last_activity_burst is Some,
    ensures
        states[j].last_activity_burst is Some,
        states[j].last_activity_burst->Some_0 >= states[i].last_activity_burst->Some_0,
    decreases j - i,
{
    if i < j {
        lemma_last_burst_grows(states, times, i, j - 1);
        let k = j - 1;
        assert(states[k + 1].last_activity_burst == (if states[k].bursts(times[k]) {
            Some(times[k])
        } else {
            states[k].last_activity_burst
        }));
    }
}

/// What is told when activity is: each service that was found, then the
/// activity itself.
pub fn burst_events<S>(services: Vec<S>) -> (r: Vec<TerminalEvent<S>>)
    ensures
        all_told(r@) == services@.map_values(|s: S| Told::ServiceDetected(s)).push(
            Told::ActivityBurst,
        ),
{
    let mut events: Vec<TerminalEvent<S>> = Vec::new();
    let ghost all = services@;
    let ghost expected = all.map_values(|s: S| Told::ServiceDetected(s));
    assert(all_told(events@) =~= expected.take(0));
    for service in it: services
        invariant
            it.seq() == all,
            expected == all.map_values(|s: S| Told::ServiceDetected(s)),
            all_told(events@) == expected.take(it.index()),
    {
        push_event(&mut events, TerminalEvent::ServiceDetected(service));
        assert(expected.take(it.index() + 1) =~= expected.take(it.index()).push(
            Told::ServiceDetected(service),
        ));
    }
    assert(expected.take(all.len() as int) =~= expected);
    push_event(&mut events, TerminalEvent::ActivityBurst);
    events
}

proof fn lemma_told_parts<S>(
    before: SessionState,
    after: BatchOutcome,
    notifications: Seq<ProgramNotification>,
    e: Told<S>,
)
    ensures
        told_after::<S>(before, after, notifications).contains(e) <==> {
            ||| attention::<S>(notifications).contains(e)
            ||| after.state.busy != before.busy && !after.exited && e
                == (Told::<S>::AgentProgressChanged { busy: after.state.busy })
            ||| after.exited && after.close_on_exit && e == Told::<S>::ChildExited
            ||| after.state.title@ != before.title@ && e == Told::<S>::TitleChanged
            ||| !same_text(after.state.cwd, before.cwd) && after.state.cwd is Some && e == Told::<
                S,
            >::CwdChanged(after.state.cwd->Some_0@)
            ||| after.prompt_ready && e == Told::<S>::ShellPromptReady
        },
{
    let a = attention::<S>(notifications);
    let b = told_if(
        after.state.busy != before.busy && !after.exited,
        Told::<S>::AgentProgressChanged { busy: after.state.busy },
    );
    let c = told_if(after.exited && after.close_on_exit, Told::<S>::ChildExited);
    let d = told_if(after.state.title@ != before.title@, Told::<S>::TitleChanged);
    let f = told_if(
        !same_text(after.state.cwd, before.cwd) && after.state.cwd is Some,
        Told::<S>::CwdChanged(after.state.cwd->Some_0@),
    );
    let g = told_if(after.prompt_ready, Told::<S>::ShellPromptReady);
    vstd::seq_lib::lemma_seq_concat_contains_all_elements(a + b + c + d + f, g, e);
    vstd::seq_lib::lemma_seq_concat_contains_all_elements(a + b + c + d, f, e);
    vstd::seq_lib::lemma_seq_concat_contains_all_elements(a + b + c, d, e);
    vstd::seq_lib::lemma_seq_concat_contains_all_elements(a + b, c, e);
    vstd::seq_lib::lemma_seq_concat_contains_all_elements(a, b, e);
    lemma_told_if_holds(
        after.state.busy != before.busy && !after.exited,
        Told::<S>::AgentProgressChanged { busy: after.state.busy },
        e,
    );
    lemma_told_if_holds(after.exited && after.close_on_exit, Told::<S>::ChildExited, e);
    lemma_told_if_holds(after.state.title@ != before.title@, Told::<S>::TitleChanged, e);
    lemma_told_if_holds(
        !same_text(after.state.cwd, before.cwd) && after.state.cwd is Some,
        Told::<S>::CwdChanged(after.state.cwd->Some_0@),
        e,
    );
    lemma_told_if_holds(after.prompt_ready, Told::<S>::ShellPromptReady, e);
}

proof fn lemma_told_if_holds<S>(when: bool, event: Told<S>, e: Told<S>)
    ensures
        told_if(when, event).contains(e) <==> when && e == event,
{
    if when {
        assert(told_if(when, event)[0] == event);
    }
}

/// What is told after a batch is what changed, all of it and nothing else. While
/// the shell lives, it is told that the program became busy or idle if and only
/// if it did, and which of the two. That the shell is gone is told if and only if
/// it is and takes its pane along. The title, the directory and the prompt are
/// told if and only if there is something new. Nothing is told twice.
pub proof fn what_changed_is_told<S>(
    before: SessionState,
    after: BatchOutcome,
    notifications: Seq<ProgramNotification>,
)
    ensures
        ({
            let told = told_after::<S>(before, after, notifications);
            &&& forall|b: bool| #[trigger]
                told.contains(Told::<S>::AgentProgressChanged { busy: b }) <==> !after.exited
                    && before.busy != after.state.busy && b == after.state.busy
            &&& told.contains(Told::<S>::ChildExited) <==> after.exited && after.close_on_exit
            &&& told.contains(Told::<S>::TitleChanged) <==> before.title@ != after.state.title@
            &&& forall|c: Seq<char>| #[trigger]
                told.contains(Told::<S>::CwdChanged(c)) <==> {
                    &&& after.state.cwd matches Some(d) && d@ == c
                    &&& before.cwd matches Some(d) ==> d@ != c
                }
            &&& told.contains(Told::<S>::ShellPromptReady) <==> after.prompt_ready
            &&& forall|title: Seq<char>, body: Seq<char>| #[trigger]
                told.contains(Told::<S>::AgentAttention { title, body }) <==> exists|i: int|
                    0 <= i < notifications.len() && (#[trigger] notifications[i]).title@ == title
                        && notifications[i].body@ == body
            &&& !told.contains(Told::<S>::ActivityBurst)
            &&& !told.contains(Told::<S>::Other)
            &&& told.len() == notifications.len() + (if !after.exited && before.busy
                != after.state.busy {
                1int
            } else {
                0
            }) + (if after.exited && after.close_on_exit {
                1int
            } else {
                0
            }) + (if before.title@ != after.state.title@ {
                1int
            } else {
                0
            }) + (if after.state.cwd is Some && (before.cwd matches Some(d) ==> d@
                != after.state.cwd->Some_0@) {
                1int
            } else {
                0
            }) + (if after.prompt_ready {
                1int
            } else {
                0
            })
        }),
{
    let told = told_after::<S>(before, after, notifications);
    let notes = attention::<S>(notifications);
    assert forall|b: bool| #[trigger]
        told.contains(Told::<S>::AgentProgressChanged { busy: b }) <==> !after.exited && before.busy
            != after.state.busy && b == after.state.busy by {
        lemma_told_parts(before, after, notifications, Told::<S>::AgentProgressChanged { busy: b });
    }
    lemma_told_parts(before, after, notifications, Told::<S>::ChildExited);
    lemma_told_parts(before, after, notifications, Told::<S>::TitleChanged);
    lemma_told_parts(before, after, notifications, Told::<S>::ShellPromptReady);
    lemma_told_parts(before, after, notifications, Told::<S>::ActivityBurst);
    lemma_told_parts(before, after, notifications, Told::<S>::Other);
    assert forall|c: Seq<char>| #[trigger] told.contains(Told::<S>::CwdChanged(c)) <==> {
        &&& after.state.cwd matches Some(d) && d@ == c
        &&& before.cwd matches Some(d) ==> d@ != c
    } by {
        lemma_told_parts(before, after, notifications, Told::<S>::CwdChanged(c));
    }
    assert forall|title: Seq<char>, body: Seq<char>| #[trigger]
        told.contains(Told::<S>::AgentAttention { title, body }) <==> exists|i: int|
            0 <= i < notifications.len() && (#[trigger] notifications[i]).title@ == title
                && notifications[i].body@ == body by {
        let e = Told::<S>::AgentAttention { title, body };
        lemma_told_parts(before, after, notifications, e);
        if notes.contains(e) {
            let i = choose|i: int| 0 <= i < notes.len() && notes[i] == e;
            assert(notifications[i].title@ == title && notifications[i].body@ == body);
        }
        if exists|i: int|
            0 <= i < notifications.len() && (#[trigger] notifications[i]).title@ == title
                && notifications[i].body@ == body {
            let i = choose|i: int|
                0 <= i < notifications.len() && (#[trigger] notifications[i]).title@ == title
                    && notifications[i].body@ == body;
            assert(notes[i] == e);
        }
    }
}

/// Where an event stands among those of one batch.
pub open spec fn rank<S>(e: Told<S>) -> int {
    match e {
        Told::AgentAttention { .. } => 0,
        Told::AgentProgressChanged { .. } => 1,
        Told::ChildExited => 2,
        Told::TitleChanged => 3,
        Told::CwdChanged(_) => 4,
        _ => 5,
    }
}

/// The events of a batch come in one order: the notifications as they came, then
/// busy or idle, the exit, the title, the directory and the prompt.
pub proof fn told_in_order<S>(
    before: SessionState,
    after: BatchOutcome,
    notifications: Seq<ProgramNotification>,
    i: int,
    j: int,
)
    requires
        0 <= i < j < told_after::<S>(before, after, notifications).len(),
    ensures
        ({
            let told = told_after::<S>(before, after, notifications);
            &&& rank(told[i]) <= rank(told[j])
            &&& rank(told[j]) > 0 ==> rank(told[i]) < rank(told[j])
            &&& i < notifications.len() ==> told[i] == (Told::<S>::AgentAttention {
                title: notifications[i].title@,
                body: notifications[i].body@,
            })
        }),
{
    let told = told_after::<S>(before, after, notifications);
    let notes = attention::<S>(notifications);
    if i < notes.len() {
        assert(told[i] == notes[i]);
    }
    if j < notes.len() {
        assert(told[j] == notes[j]);
    }
}

/// Events are told apart: what is told of an event says which one it is.
pub proof fn events_are_told_apart<S>(e: TerminalEvent<S>)
    ensures
        e is ChildExited <==> e.told() is ChildExited,
        e is TitleChanged <==> e.told() is TitleChanged,
        e is ShellPromptReady <==> e.told() is ShellPromptReady,
        e is ActivityBurst <==> e.told() is ActivityBurst,
        e matches TerminalEvent::CwdChanged(c) ==> e.told() == Told::<S>::CwdChanged(c@),
        e.told() is CwdChanged ==> e is CwdChanged,
        e matches TerminalEvent::ServiceDetected(s) ==> e.told() == Told::<S>::ServiceDetected(s),
        e.told() is ServiceDetected ==> e is ServiceDetected,
        e matches TerminalEvent::AgentProgressChanged { busy } ==> e.told()
            == (Told::<S>::AgentProgressChanged { busy }),
        e.told() is AgentProgressChanged ==> e is AgentProgressChanged,
        e matches TerminalEvent::AgentAttention { title, body } ==> e.told()
            == (Told::<S>::AgentAttention { title: title@, body: body@ }),
        e.told() is AgentAttention ==> e is AgentAttention,
{
}

/// Activity is told at once after a quiet spell, and again as soon as three tenths
/// of a second have gone by since it was last told, but not before; without new
/// output it is not told at all.
pub proof fn activity_is_told_in_time(gate: ActivityGate, now_ns: u64)
    ensures
        !gate.dirty ==> !gate.bursts(now_ns),
        gate.dirty && gate.last_activity_burst is None ==> gate.bursts(now_ns),
        gate.dirty && gate.last_activity_burst is Some ==> (gate.bursts(now_ns)
            <==> gate.last_activity_burst->Some_0 + 300_000_000 <= now_ns),
{
}

/// A batch takes a hundred events.
pub proof fn a_batch_takes_a_hundred()
    ensures
        MAX_BATCH_EVENTS == 100,
        BATCH_WINDOW == 4_000_000,
{
}

} // verus!
