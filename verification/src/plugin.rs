use vstd::prelude::*;
use crate::command::{chars_of, command_of, parse_usize, parsed_usize, text_is, words_of, PipeCommand};
use crate::timer::{Countdown, Phase};

verus! {

/// Work length, in seconds, when the configuration gives none.
pub const DEFAULT_WORK_SECS: usize = 1500;

/// Break length, in seconds, when the configuration gives none.
pub const DEFAULT_BREAK_SECS: usize = 300;

/// Number of frames in the break spinner.
pub const SPINNER_FRAMES: usize = 10;

/// Something the plugin asks its host to do.
#[derive(Debug, PartialEq, Eq, Structural, Clone, Copy)]
pub enum Effect {
    /// Subscribe to timer, key and permission-result events.
    Subscribe,
    /// Ask to read and change the application state and to read CLI pipes.
    RequestPermission,
    /// Deliver one timer event a second from now.
    SetTimeout,
    /// Hide the plugin's pane.
    HideSelf,
    /// Show the plugin's pane.
    ShowSelf { should_float_if_hidden: bool },
}

/// An event from the host, reduced to what the plugin decides on.
#[derive(Debug, PartialEq, Eq, Structural, Clone, Copy)]
pub enum PluginEvent {
    /// The permissions the plugin asked for were granted.
    PermissionGranted,
    /// A timer armed with [`Effect::SetTimeout`] went off at `now` (milliseconds since the epoch).
    Timer { now: u64 },
    /// A key was pressed at `now`; `key` is its character, if it is a plain character key.
    Key { key: Option<char>, now: u64 },
    /// Any other event.
    Other,
}

/// The plugin's state.
pub struct Pomo {
    pub countdown: Countdown,
    pub work_duration: usize,
    pub break_duration: usize,
    pub phase: Phase,
    pub spin_idx: usize,
    pub timer_pending: bool,
}

/// A configured length: the value read as a number, or `default` when it is
/// missing or not a number.
pub open spec fn configured(value: Option<&str>, default: usize) -> usize {
    match value {
        Some(text) => match parsed_usize(text@) {
            Some(n) => n,
            None => default,
        },
        None => default,
    }
}

/// The pipe's name, `pomo`.
pub open spec fn pipe_name() -> Seq<char> {
    seq!['p', 'o', 'm', 'o']
}

impl Pomo {
    /// After arming the timer: a timer is asked for only when none is pending,
    /// so timer chains never stack up.
    pub open spec fn armed(self) -> (Pomo, Seq<Effect>) {
        if self.timer_pending {
            (self, seq![])
        } else {
            (Pomo { timer_pending: true, ..self }, seq![Effect::SetTimeout])
        }
    }

    /// After starting the countdown on `secs` seconds at `now`.
    pub open spec fn begun(self, secs: usize, now: u64) -> (Pomo, Seq<Effect>) {
        Pomo { countdown: self.countdown.begun(secs, now), ..self }.armed()
    }

    /// After the work period ends: the break overlay shows and the break countdown starts.
    pub open spec fn break_started(self, now: u64) -> (Pomo, Seq<Effect>) {
        let (p, e) = Pomo { phase: Phase::Break, spin_idx: 0, ..self }.begun(
            self.break_duration,
            now,
        );
        (p, seq![Effect::ShowSelf { should_float_if_hidden: true }] + e)
    }

    /// After the break ends: the pane hides and the work countdown starts.
    pub open spec fn work_started(self, now: u64) -> (Pomo, Seq<Effect>) {
        let (p, e) = Pomo { phase: Phase::Work, ..self }.begun(self.work_duration, now);
        (p, seq![Effect::HideSelf] + e)
    }

    /// The countdown stopped and set back to a full work period.
    pub open spec fn reset(self) -> Pomo {
        Pomo {
            countdown: Countdown {
                seconds_remaining: self.work_duration,
                ..self.countdown.paused()
            },
            ..self
        }
    }

    /// After a timer event at `now`.
    pub open spec fn on_timer(self, now: u64) -> (Pomo, Seq<Effect>) {
        let p = Pomo { timer_pending: false, ..self };
        if !p.countdown.running {
            (p, seq![])
        } else {
            let q = Pomo {
                spin_idx: ((p.spin_idx + 1) % (SPINNER_FRAMES as int)) as usize,
                countdown: p.countdown.ticked(now),
                ..p
            };
            if p.countdown.fires(now) {
                match q.phase {
                    Phase::Work => q.break_started(now),
                    Phase::Break => q.work_started(now),
                    Phase::Finished => (q, seq![]),
                }
            } else {
                q.armed()
            }
        }
    }

    /// After a key press at `now`, and whether to redraw.
    pub open spec fn on_key(self, key: Option<char>, now: u64) -> (Pomo, Seq<Effect>, bool) {
        match self.phase {
            Phase::Work => if key == Some(' ') {
                if self.countdown.running {
                    (Pomo { countdown: self.countdown.paused(), ..self }, seq![], true)
                } else {
                    let (p, e) = self.begun(self.countdown.seconds_remaining, now);
                    (p, e, true)
                }
            } else if key == Some('r') {
                (self.reset(), seq![], true)
            } else if key == Some('h') {
                (self, seq![Effect::HideSelf], true)
            } else {
                (self, seq![], false)
            },
            Phase::Break => (self, seq![], false),
            Phase::Finished => if key == Some('r') {
                (Pomo { phase: Phase::Work, ..self.reset() }, seq![], true)
            } else {
                (self, seq![], false)
            },
        }
    }

    /// After `event`: the new state, the effects asked for, and whether to redraw.
    pub open spec fn step(self, event: PluginEvent) -> (Pomo, Seq<Effect>, bool) {
        match event {
            PluginEvent::PermissionGranted => (
                self,
                if self.phase == Phase::Work {
                    seq![Effect::HideSelf]
                } else {
                    seq![]
                },
                true,
            ),
            PluginEvent::Timer { now } => {
                let (p, e) = self.on_timer(now);
                (p, e, true)
            },
            PluginEvent::Key { key, now } => self.on_key(key, now),
            PluginEvent::Other => (self, seq![], false),
        }
    }

    /// After the command `cmd` arrived over the pipe at `now`.
    pub open spec fn commanded(self, cmd: Option<PipeCommand>, now: u64) -> (Pomo, Seq<Effect>) {
        match cmd {
            Some(PipeCommand::Start { work, brk }) => {
                let p = Pomo {
                    work_duration: match work {
                        Some(w) => w,
                        None => self.work_duration,
                    },
                    break_duration: match brk {
                        Some(b) => b,
                        None => self.break_duration,
                    },
                    phase: Phase::Work,
                    ..self
                };
                p.begun(p.work_duration, now)
            },
            Some(PipeCommand::Stop) => (
                Pomo { countdown: self.countdown.paused(), phase: Phase::Finished, ..self },
                seq![],
            ),
            Some(PipeCommand::Hide) => (self, seq![Effect::HideSelf]),
            Some(PipeCommand::Show) => (self, seq![Effect::ShowSelf { should_float_if_hidden: false }]),
            None => (self, seq![]),
        }
    }

    /// After a pipe message named `name` with `payload` at `now`, and whether
    /// to redraw: only messages to the `pomo` pipe are taken, and one without
    /// a payload does nothing.
    pub open spec fn piped(self, name: &str, payload: Option<&str>, now: u64) -> (
        Pomo,
        Seq<Effect>,
        bool,
    ) {
        if name@ != pipe_name() {
            (self, seq![], false)
        } else {
            match payload {
                Some(text) => {
                    let (p, e) = self.commanded(command_of(words_of(text@)), now);
                    (p, e, true)
                },
                None => (self, seq![], true),
            }
        }
    }

    /// After loading with the configured work and break lengths at `now`:
    /// the plugin subscribes, asks for its permissions, and starts working.
    /// It does not hide yet: hiding only works once permissions are granted.
    pub open spec fn loaded(self, work: Option<&str>, brk: Option<&str>, now: u64) -> (
        Pomo,
        Seq<Effect>,
    ) {
        let p = Pomo {
            work_duration: configured(work, DEFAULT_WORK_SECS),
            break_duration: configured(brk, DEFAULT_BREAK_SECS),
            ..self
        };
        let (q, e) = p.begun(p.work_duration, now);
        (q, seq![Effect::Subscribe, Effect::RequestPermission] + e)
    }

    /// Asks for a timer unless one is already pending.
    fn arm_timer(&mut self, effects: &mut Vec<Effect>)
        ensures
            *final(self) == old(self).armed().0,
            final(effects)@ == old(effects)@ + old(self).armed().1,
    {
        if !self.timer_pending {
            self.timer_pending = true;
            effects.push(Effect::SetTimeout);
        }
    }

    /// Starts the countdown on `secs` seconds at `now` and makes sure a timer is coming.
    fn begin(&mut self, secs: usize, now: u64, effects: &mut Vec<Effect>)
        ensures
            *final(self) == old(self).begun(secs, now).0,
            final(effects)@ == old(effects)@ + old(self).begun(secs, now).1,
    {
        self.countdown.begin(secs, now);
        self.arm_timer(effects);
    }

    fn start_break(&mut self, now: u64, effects: &mut Vec<Effect>)
        ensures
            *final(self) == old(self).break_started(now).0,
            final(effects)@ == old(effects)@ + old(self).break_started(now).1,
    {
        self.phase = Phase::Break;
        self.spin_idx = 0;
        effects.push(Effect::ShowSelf { should_float_if_hidden: true });
        let secs = self.break_duration;
        self.begin(secs, now, effects);
    }

    fn start_work(&mut self, now: u64, effects: &mut Vec<Effect>)
        ensures
            *final(self) == old(self).work_started(now).0,
            final(effects)@ == old(effects)@ + old(self).work_started(now).1,
    {
        self.phase = Phase::Work;
        effects.push(Effect::HideSelf);
        let secs = self.work_duration;
        self.begin(secs, now, effects);
    }

    /// Reads the configured lengths, subscribes, asks for permissions and
    /// starts the work countdown at `now`.
    pub fn load(
        &mut self,
        work_seconds: Option<&str>,
        break_seconds: Option<&str>,
        now: u64,
        effects: &mut Vec<Effect>,
    )
        ensures
            *final(self) == old(self).loaded(work_seconds, break_seconds, now).0,
            final(effects)@ == old(effects)@ + old(self).loaded(
                work_seconds,
                break_seconds,
                now,
            ).1,
    {
        self.work_duration = configured_length(work_seconds, DEFAULT_WORK_SECS);
        self.break_duration = configured_length(break_seconds, DEFAULT_BREAK_SECS);
        effects.push(Effect::Subscribe);
        effects.push(Effect::RequestPermission);
        let secs = self.work_duration;
        self.begin(secs, now, effects);
    }

    /// Handles a host event; returns whether to redraw.
    pub fn update(&mut self, event: PluginEvent, effects: &mut Vec<Effect>) -> (render: bool)
        requires
            event is Timer ==> old(self).spin_idx < usize::MAX,
        ensures
            *final(self) == old(self).step(event).0,
            final(effects)@ == old(effects)@ + old(self).step(event).1,
            render == old(self).step(event).2,
    {
        match event {
            PluginEvent::PermissionGranted => {
                if self.phase == Phase::Work {
                    effects.push(Effect::HideSelf);
                }
                true
            },
            PluginEvent::Timer { now } => {
                self.timer_pending = false;
                if self.countdown.running {
                    self.spin_idx = (self.spin_idx + 1) % SPINNER_FRAMES;
                    if self.countdown.tick(now) {
                        match self.phase {
                            Phase::Work => self.start_break(now, effects),
                            Phase::Break => self.start_work(now, effects),
                            Phase::Finished => {},
                        }
                    } else {
                        self.arm_timer(effects);
                    }
                }
                true
            },
            PluginEvent::Key { key, now } => {
                match self.phase {
                    Phase::Work => match key {
                        Some(' ') => {
                            if self.countdown.running {
                                self.countdown.pause();
                            } else {
                                let secs = self.countdown.seconds_remaining;
                                self.begin(secs, now, effects);
                            }
                        },
                        Some('r') => {
                            self.countdown.pause();
                            self.countdown.seconds_remaining = self.work_duration;
                        },
                        Some('h') => {
                            effects.push(Effect::HideSelf);
                        },
                        _ => {
                            return false;
                        },
                    },
                    Phase::Break => {
                        return false;
                    },
                    Phase::Finished => match key {
                        Some('r') => {
                            self.phase = Phase::Work;
                            self.countdown.pause();
                            self.countdown.seconds_remaining = self.work_duration;
                        },
                        _ => {
                            return false;
                        },
                    },
                }
                true
            },
            PluginEvent::Other => false,
        }
    }

    /// Handles a message on pipe `name` at `now`; returns whether to redraw.
    pub fn pipe(
        &mut self,
        name: &str,
        payload: Option<&str>,
        now: u64,
        effects: &mut Vec<Effect>,
    ) -> (render: bool)
        ensures
            *final(self) == old(self).piped(name, payload, now).0,
            final(effects)@ == old(effects)@ + old(self).piped(name, payload, now).1,
            render == old(self).piped(name, payload, now).2,
    {
        if !text_is(name, &['p', 'o', 'm', 'o']) {
            return false;
        }
        if let Some(text) = payload {
            match PipeCommand::parse(text) {
                Some(PipeCommand::Start { work, brk }) => {
                    if let Some(work) = work {
                        self.work_duration = work;
                    }
                    if let Some(brk) = brk {
                        self.break_duration = brk;
                    }
                    self.phase = Phase::Work;
                    let secs = self.work_duration;
                    self.begin(secs, now, effects);
                },
                Some(PipeCommand::Stop) => {
                    self.countdown.pause();
                    self.phase = Phase::Finished;
                },
                Some(PipeCommand::Hide) => {
                    effects.push(Effect::HideSelf);
                },
                Some(PipeCommand::Show) => {
                    effects.push(Effect::ShowSelf { should_float_if_hidden: false });
                },
                None => {},
            }
        }
        true
    }
}

/// A length from the configuration: `value` read as a number, else `default`.
pub fn configured_length(value: Option<&str>, default: usize) -> (n: usize)
    ensures
        n == configured(value, default),
{
    match value {
        Some(text) => {
            let chars = chars_of(text);
            match parse_usize(&chars) {
                Some(n) => n,
                None => default,
            }
        },
        None => default,
    }
}

impl Default for Pomo {
    /// A fresh plugin: nothing configured, nothing running, in the work phase.
    fn default() -> (p: Self)
        ensures
            p == (Pomo {
                countdown: Countdown { seconds_remaining: 0, running: false, deadline: 0 },
                work_duration: 0,
                break_duration: 0,
                phase: Phase::Work,
                spin_idx: 0,
                timer_pending: false,
            }),
    {
        Pomo {
            countdown: Countdown::default(),
            work_duration: 0,
            break_duration: 0,
            phase: Phase::Work,
            spin_idx: 0,
            timer_pending: false,
        }
    }
}

/// `effects` asks for at most one timer.
pub open spec fn at_most_one_timer(effects: Seq<Effect>) -> bool {
    forall|i: int, j: int|
        0 <= i < effects.len() && 0 <= j < effects.len() && effects[i] == Effect::SetTimeout
            && effects[j] == Effect::SetTimeout ==> i == j
}

/// Timer chains never stack: an event asks for at most one timer, asks for
/// one only when none is pending (or the pending one has just gone off), and
/// whenever it asks for one the new state records it as pending.
pub proof fn lemma_timers_never_stack(p: Pomo, event: PluginEvent)
    ensures
        at_most_one_timer(p.step(event).1),
        p.step(event).1.contains(Effect::SetTimeout) ==> (!p.timer_pending || event is Timer),
        p.step(event).1.contains(Effect::SetTimeout) ==> p.step(event).0.timer_pending,
{
}

/// The same holds of pipe messages, which may start a countdown too.
pub proof fn lemma_piped_timers_never_stack(p: Pomo, name: &str, payload: Option<&str>, now: u64)
    ensures
        at_most_one_timer(p.piped(name, payload, now).1),
        p.piped(name, payload, now).1.contains(Effect::SetTimeout) ==> !p.timer_pending,
        p.piped(name, payload, now).1.contains(Effect::SetTimeout) ==> p.piped(
            name,
            payload,
            now,
        ).0.timer_pending,
{
}

/// Loading starts the work countdown with one timer, and does not try to
/// hide the pane: hiding fails silently before permissions are granted.
pub proof fn lemma_load_starts_work_without_hiding(
    p: Pomo,
    work: Option<&str>,
    brk: Option<&str>,
    now: u64,
)
    requires
        !p.timer_pending,
    ensures
        p.loaded(work, brk, now).1 == seq![
            Effect::Subscribe,
            Effect::RequestPermission,
            Effect::SetTimeout,
        ],
        !p.loaded(work, brk, now).1.contains(Effect::HideSelf),
        p.loaded(work, brk, now).0.countdown == p.countdown.begun(
            configured(work, DEFAULT_WORK_SECS),
            now,
        ),
{
    let e = p.loaded(work, brk, now).1;
    assert(e =~= seq![Effect::Subscribe, Effect::RequestPermission, Effect::SetTimeout]);
    if e.contains(Effect::HideSelf) {
        let k = choose|k: int| 0 <= k < e.len() && e[k] == Effect::HideSelf;
    }
}

/// When the work countdown runs out, the break begins: the overlay is shown,
/// the spinner restarts, and the break countdown starts at that instant.
pub proof fn lemma_work_ends_in_break(p: Pomo, now: u64)
    requires
        p.phase == Phase::Work,
        p.countdown.fires(now),
    ensures
        p.step(PluginEvent::Timer { now }).0.phase == Phase::Break,
        p.step(PluginEvent::Timer { now }).0.spin_idx == 0,
        p.step(PluginEvent::Timer { now }).0.countdown == p.countdown.begun(
            p.break_duration,
            now,
        ),
        p.step(PluginEvent::Timer { now }).1 == seq![
            Effect::ShowSelf { should_float_if_hidden: true },
            Effect::SetTimeout,
        ],
{
    assert(p.step(PluginEvent::Timer { now }).1 =~= seq![
        Effect::ShowSelf { should_float_if_hidden: true },
        Effect::SetTimeout,
    ]);
}

/// When the break countdown runs out, work begins again: the pane hides and
/// the work countdown starts at that instant.
pub proof fn lemma_break_ends_in_work(p: Pomo, now: u64)
    requires
        p.phase == Phase::Break,
        p.countdown.fires(now),
    ensures
        p.step(PluginEvent::Timer { now }).0.phase == Phase::Work,
        p.step(PluginEvent::Timer { now }).0.countdown == p.countdown.begun(
            p.work_duration,
            now,
        ),
        p.step(PluginEvent::Timer { now }).1 == seq![Effect::HideSelf, Effect::SetTimeout],
{
    assert(p.step(PluginEvent::Timer { now }).1 =~= seq![Effect::HideSelf, Effect::SetTimeout]);
}

/// A timer event delivered twice at the same instant moves the countdown once.
pub proof fn lemma_duplicate_timer_event_keeps_pace(p: Pomo, now: u64)
    requires
        !p.countdown.fires(now),
    ensures
        p.step(PluginEvent::Timer { now }).0.step(PluginEvent::Timer { now }).0.countdown
            == p.step(PluginEvent::Timer { now }).0.countdown,
        p.step(PluginEvent::Timer { now }).0.countdown == p.countdown.ticked(now),
{
    crate::timer::lemma_repeated_tick_changes_nothing(p.countdown, now);
}

/// Space pauses a running work countdown where it stands, and a second space
/// resumes it with the same seconds, anchored afresh at the moment of resuming.
pub proof fn lemma_space_pauses_then_resumes(p: Pomo, t1: u64, t2: u64)
    requires
        p.phase == Phase::Work,
        p.countdown.running,
    ensures
        p.on_key(Some(' '), t1).0.countdown == p.countdown.paused(),
        p.on_key(Some(' '), t1).0.on_key(Some(' '), t2).0.countdown == p.countdown.begun(
            p.countdown.seconds_remaining,
            t2,
        ),
{
}

/// The spinner index stays among the spinner's frames, so from a fresh
/// plugin the timer event's increment never overflows.
pub proof fn lemma_spinner_stays_in_frames(p: Pomo, event: PluginEvent, name: &str, payload: Option<&str>, now: u64)
    requires
        p.spin_idx < SPINNER_FRAMES,
    ensures
        p.step(event).0.spin_idx < SPINNER_FRAMES,
        p.piped(name, payload, now).0.spin_idx < SPINNER_FRAMES,
{
}

/// The end screen never has a running countdown: only a stop command leads
/// there, and it pauses the countdown; nothing starts it again without
/// leaving the end screen.
pub proof fn lemma_finished_means_stopped(
    p: Pomo,
    event: PluginEvent,
    name: &str,
    payload: Option<&str>,
    now: u64,
)
    requires
        p.phase == Phase::Finished ==> !p.countdown.running,
    ensures
        p.step(event).0.phase == Phase::Finished ==> !p.step(event).0.countdown.running,
        p.piped(name, payload, now).0.phase == Phase::Finished ==> !p.piped(
            name,
            payload,
            now,
        ).0.countdown.running,
{
}

/// A timer event that does not bring a running countdown to zero keeps it
/// counting in every phase: the phase stays, the countdown shows the seconds
/// left until its unchanged deadline, exactly one new timer is asked for and
/// recorded as pending, and the screen is redrawn.
pub proof fn lemma_timer_rearms_while_counting(p: Pomo, now: u64)
    requires
        p.countdown.running,
        !p.countdown.fires(now),
    ensures
        p.step(PluginEvent::Timer { now }).1 == seq![Effect::SetTimeout],
        p.step(PluginEvent::Timer { now }).0.timer_pending,
        p.step(PluginEvent::Timer { now }).0.phase == p.phase,
        p.step(PluginEvent::Timer { now }).0.countdown.running,
        p.step(PluginEvent::Timer { now }).0.countdown.deadline == p.countdown.deadline,
        p.step(PluginEvent::Timer { now }).0.countdown.seconds_remaining == crate::timer::seconds_left(
            p.countdown.deadline as int,
            now as int,
        ),
        p.step(PluginEvent::Timer { now }).0.spin_idx == (p.spin_idx + 1) % 10,
        p.step(PluginEvent::Timer { now }).0.work_duration == p.work_duration,
        p.step(PluginEvent::Timer { now }).0.break_duration == p.break_duration,
        p.step(PluginEvent::Timer { now }).2,
{
    assert(p.step(PluginEvent::Timer { now }).1 =~= seq![Effect::SetTimeout]);
}

/// `r` during work resets the work period without leaving it: the phase
/// stays Work, the countdown stops showing the full work length (its
/// deadline untouched), nothing else changes, no effect is asked for, and the
/// screen is redrawn. From the end screen, `r` does the same and returns to Work.
pub proof fn lemma_reset_key_restores_full_work_period(p: Pomo, now: u64)
    requires
        p.phase == Phase::Work || p.phase == Phase::Finished,
    ensures
        p.step(PluginEvent::Key { key: Some('r'), now }).0.phase == Phase::Work,
        p.step(PluginEvent::Key { key: Some('r'), now }).0.countdown.seconds_remaining
            == p.work_duration,
        !p.step(PluginEvent::Key { key: Some('r'), now }).0.countdown.running,
        p.step(PluginEvent::Key { key: Some('r'), now }).0.countdown.deadline
            == p.countdown.deadline,
        p.step(PluginEvent::Key { key: Some('r'), now }).0.work_duration == p.work_duration,
        p.step(PluginEvent::Key { key: Some('r'), now }).0.break_duration == p.break_duration,
        p.step(PluginEvent::Key { key: Some('r'), now }).0.spin_idx == p.spin_idx,
        p.step(PluginEvent::Key { key: Some('r'), now }).0.timer_pending == p.timer_pending,
        p.step(PluginEvent::Key { key: Some('r'), now }).1 == Seq::<Effect>::empty(),
        p.step(PluginEvent::Key { key: Some('r'), now }).2,
{
    assert(p.step(PluginEvent::Key { key: Some('r'), now }).1 =~= Seq::<Effect>::empty());
}

/// `h` during work only asks to hide the pane; during the break no key does anything.
pub proof fn lemma_hide_key_and_break_keys(p: Pomo, key: Option<char>, now: u64)
    ensures
        p.phase == Phase::Work ==> p.step(PluginEvent::Key { key: Some('h'), now }).0 == p
            && p.step(PluginEvent::Key { key: Some('h'), now }).1 == seq![Effect::HideSelf],
        p.phase == Phase::Break ==> p.step(PluginEvent::Key { key, now }).0 == p
            && p.step(PluginEvent::Key { key, now }).1 == Seq::<Effect>::empty()
            && !p.step(PluginEvent::Key { key, now }).2,
{
    assert(p.step(PluginEvent::Key { key, now }).1 =~= Seq::<Effect>::empty() || p.phase
        != Phase::Break);
}

/// A `start` command on the `pomo` pipe replaces exactly the lengths it gives
/// and keeps the others, returns to work, and starts the countdown on the
/// (new) work length at `now`.
pub proof fn lemma_start_replaces_only_given_lengths(
    p: Pomo,
    name: &str,
    text: &str,
    now: u64,
    work: Option<usize>,
    brk: Option<usize>,
)
    requires
        name@ == seq!['p', 'o', 'm', 'o'],
        command_of(words_of(text@)) == Some(PipeCommand::Start { work, brk }),
    ensures
        p.piped(name, Some(text), now).0.work_duration == (match work {
            Some(w) => w,
            None => p.work_duration,
        }),
        p.piped(name, Some(text), now).0.break_duration == (match brk {
            Some(b) => b,
            None => p.break_duration,
        }),
        p.piped(name, Some(text), now).0.phase == Phase::Work,
        p.piped(name, Some(text), now).0.countdown.running,
        p.piped(name, Some(text), now).0.countdown.seconds_remaining == p.piped(
            name,
            Some(text),
            now,
        ).0.work_duration,
        p.piped(name, Some(text), now).0.countdown.deadline == now + p.piped(
            name,
            Some(text),
            now,
        ).0.work_duration * 1000,
        p.piped(name, Some(text), now).2,
{
}

/// A configured length that reads as a number is used as it is; one that is
/// missing or does not read as a number leaves the default. Loading then
/// starts the work countdown on the configured work length.
pub proof fn lemma_configured_number_is_used(
    p: Pomo,
    text: &str,
    brk: Option<&str>,
    default: usize,
    now: u64,
)
    ensures
        parsed_usize(text@) is Some ==> configured(Some(text), default) == parsed_usize(
            text@,
        )->0,
        parsed_usize(text@) is None ==> configured(Some(text), default) == default,
        configured(None, default) == default,
        parsed_usize(text@) is Some ==> p.loaded(Some(text), brk, now).0.work_duration
            == parsed_usize(text@)->0,
        parsed_usize(text@) is Some ==> p.loaded(Some(text), brk, now).0.countdown.seconds_remaining
            == parsed_usize(text@)->0,
        parsed_usize(text@) is Some ==> p.loaded(brk, Some(text), now).0.break_duration
            == parsed_usize(text@)->0,
{
}

/// Granted permissions hide the pane during work and nowhere else, and
/// change nothing else; events the plugin does not handle change nothing,
/// ask for nothing and need no redraw.
pub proof fn lemma_permission_and_other_events(p: Pomo)
    ensures
        p.step(PluginEvent::PermissionGranted).0 == p,
        p.step(PluginEvent::PermissionGranted).2,
        p.phase == Phase::Work ==> p.step(PluginEvent::PermissionGranted).1 == seq![
            Effect::HideSelf,
        ],
        p.phase != Phase::Work ==> p.step(PluginEvent::PermissionGranted).1 == Seq::<
            Effect,
        >::empty(),
        p.step(PluginEvent::Other).0 == p,
        p.step(PluginEvent::Other).1 == Seq::<Effect>::empty(),
        !p.step(PluginEvent::Other).2,
{
    assert(p.phase != Phase::Work ==> p.step(PluginEvent::PermissionGranted).1 =~= Seq::<
        Effect,
    >::empty());
    assert(p.step(PluginEvent::Other).1 =~= Seq::<Effect>::empty());
}

/// A timer event with the countdown stopped only notes that no timer is
/// pending any more: nothing else changes, nothing is asked for, and no new
/// timer chain starts.
pub proof fn lemma_timer_while_stopped(p: Pomo, now: u64)
    requires
        !p.countdown.running,
    ensures
        p.step(PluginEvent::Timer { now }).0 == (Pomo { timer_pending: false, ..p }),
        p.step(PluginEvent::Timer { now }).1 == Seq::<Effect>::empty(),
        p.step(PluginEvent::Timer { now }).2,
{
    assert(p.step(PluginEvent::Timer { now }).1 =~= Seq::<Effect>::empty());
}

/// Space during work with the countdown stopped resumes it on the seconds it
/// shows, anchored at `now`, asking for a timer only when none is pending.
pub proof fn lemma_space_resumes_stopped_work(p: Pomo, now: u64)
    requires
        p.phase == Phase::Work,
        !p.countdown.running,
    ensures
        p.step(PluginEvent::Key { key: Some(' '), now }).0.countdown.running,
        p.step(PluginEvent::Key { key: Some(' '), now }).0.countdown.seconds_remaining
            == p.countdown.seconds_remaining,
        p.step(PluginEvent::Key { key: Some(' '), now }).0.countdown.deadline == now
            + p.countdown.seconds_remaining * 1000,
        p.step(PluginEvent::Key { key: Some(' '), now }).0.phase == Phase::Work,
        p.step(PluginEvent::Key { key: Some(' '), now }).0.timer_pending,
        p.step(PluginEvent::Key { key: Some(' '), now }).1 == (if p.timer_pending {
            Seq::<Effect>::empty()
        } else {
            seq![Effect::SetTimeout]
        }),
        p.step(PluginEvent::Key { key: Some(' '), now }).2,
{
    assert(p.step(PluginEvent::Key { key: Some(' '), now }).1 =~= (if p.timer_pending {
        Seq::<Effect>::empty()
    } else {
        seq![Effect::SetTimeout]
    }));
}

/// On the `pomo` pipe: `stop` pauses the countdown where it stands and shows
/// the end screen; `hide` and `show` only ask to hide or show the pane (show
/// without floating); a payload that is no command, or no payload at all,
/// changes nothing. Every message on that pipe asks for a redraw.
pub proof fn lemma_pipe_commands(p: Pomo, name: &str, text: &str, now: u64)
    requires
        name@ == seq!['p', 'o', 'm', 'o'],
    ensures
        command_of(words_of(text@)) == Some(PipeCommand::Stop) ==> {
            &&& p.piped(name, Some(text), now).0.phase == Phase::Finished
            &&& !p.piped(name, Some(text), now).0.countdown.running
            &&& p.piped(name, Some(text), now).0.countdown.seconds_remaining
                == p.countdown.seconds_remaining
            &&& p.piped(name, Some(text), now).0.work_duration == p.work_duration
            &&& p.piped(name, Some(text), now).0.break_duration == p.break_duration
            &&& p.piped(name, Some(text), now).1 == Seq::<Effect>::empty()
        },
        command_of(words_of(text@)) == Some(PipeCommand::Hide) ==> p.piped(name, Some(text), now).0
            == p && p.piped(name, Some(text), now).1 == seq![Effect::HideSelf],
        command_of(words_of(text@)) == Some(PipeCommand::Show) ==> p.piped(name, Some(text), now).0
            == p && p.piped(name, Some(text), now).1 == seq![
            Effect::ShowSelf { should_float_if_hidden: false },
        ],
        command_of(words_of(text@)) is None ==> p.piped(name, Some(text), now).0 == p && p.piped(
            name,
            Some(text),
            now,
        ).1 == Seq::<Effect>::empty(),
        p.piped(name, None, now).0 == p,
        p.piped(name, None, now).1 == Seq::<Effect>::empty(),
        p.piped(name, Some(text), now).2,
        p.piped(name, None, now).2,
{
    assert(p.piped(name, None, now).1 =~= Seq::<Effect>::empty());
    assert(command_of(words_of(text@)) is None ==> p.piped(name, Some(text), now).1 =~= Seq::<
        Effect,
    >::empty());
    assert(command_of(words_of(text@)) == Some(PipeCommand::Stop) ==> p.piped(
        name,
        Some(text),
        now,
    ).1 =~= Seq::<Effect>::empty());
}

/// Messages on any other pipe are ignored: nothing changes, nothing is asked
/// for, and no redraw is needed.
pub proof fn lemma_other_pipes_ignored(p: Pomo, name: &str, payload: Option<&str>, now: u64)
    requires
        name@ != seq!['p', 'o', 'm', 'o'],
    ensures
        p.piped(name, payload, now).0 == p,
        p.piped(name, payload, now).1 == Seq::<Effect>::empty(),
        !p.piped(name, payload, now).2,
{
    assert(p.piped(name, payload, now).1 =~= Seq::<Effect>::empty());
}

} // verus!
