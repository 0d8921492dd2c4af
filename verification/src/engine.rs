use vstd::prelude::*;

use crate::hardware::{
    blink_byte, off_byte, on_byte, HW_BUZZER_OFF, HW_BUZZER_ON, HW_GREEN_OFF, HW_GREEN_ON,
    HW_ORANGE_OFF, HW_ORANGE_ON, HW_RED_OFF, HW_RED_ON,
};
use crate::state::{ChannelState, LightState, LightUpdate, PhysicalChannel, RouteChannel};

verus! {

// ── Task slots ────────────────────────────────────────────────────────────────

/// Slot of the virtual yellow task, after the four physical channels.
pub const YELLOW_TASK_IDX: usize = 4;

/// The task slot of a physical channel.
pub open spec fn slot_of(ch: PhysicalChannel) -> int {
    match ch {
        PhysicalChannel::Red => 0,
        PhysicalChannel::Orange => 1,
        PhysicalChannel::Green => 2,
        PhysicalChannel::Buzzer => 3,
    }
}

/// The task slot of an effect target.
pub open spec fn target_slot(t: RouteChannel) -> int {
    match t {
        RouteChannel::Physical(ch) => slot_of(ch),
        RouteChannel::Yellow => YELLOW_TASK_IDX as int,
    }
}

pub fn channel_index(ch: PhysicalChannel) -> (r: usize)
    ensures
        r == slot_of(ch),
{
    match ch {
        PhysicalChannel::Red => 0,
        PhysicalChannel::Orange => 1,
        PhysicalChannel::Green => 2,
        PhysicalChannel::Buzzer => 3,
    }
}

pub fn hw_on_off(ch: PhysicalChannel) -> (r: (u8, u8))
    ensures
        r == (on_byte(ch), off_byte(ch)),
{
    match ch {
        PhysicalChannel::Red => (HW_RED_ON, HW_RED_OFF),
        PhysicalChannel::Orange => (HW_ORANGE_ON, HW_ORANGE_OFF),
        PhysicalChannel::Green => (HW_GREEN_ON, HW_GREEN_OFF),
        PhysicalChannel::Buzzer => (HW_BUZZER_ON, HW_BUZZER_OFF),
    }
}

/// The running effect tasks: one slot per physical channel and one for the
/// virtual yellow. Dropping a task stops it, so emptying a slot cancels it.
#[derive(Debug)]
pub struct TaskSlots<T> {
    slots: [Option<T>; 5],
}

impl<T> View for TaskSlots<T> {
    type V = Seq<Option<T>>;

    closed spec fn view(&self) -> Seq<Option<T>> {
        self.slots@
    }
}

impl<T> TaskSlots<T> {
    /// There are always five slots: red, orange, green, buzzer, yellow.
    pub proof fn lemma_len(&self)
        ensures
            self@.len() == 5,
    {
    }

    pub fn new() -> (r: Self)
        ensures
            r@ == Seq::new(5, |i: int| None::<T>),
            r@.len() == 5,
    {
        let r = TaskSlots { slots: [None, None, None, None, None] };
        assert(r@ =~= Seq::new(5, |i: int| None::<T>));
        r
    }

    fn clear_slot(&mut self, i: usize)
        requires
            i < 5,
        ensures
            final(self)@ == old(self)@.update(i as int, None),
    {
        self.slots[i] = None;
    }

    /// Is a task running in `slot`?
    pub fn is_running(&self, slot: usize) -> (r: bool)
        ensures
            r == (slot < 5 && self@[slot as int] is Some),
    {
        if slot < 5 {
            self.slots[slot].is_some()
        } else {
            false
        }
    }

    /// Cancel any running task of a physical channel.
    pub fn cancel(&mut self, ch: PhysicalChannel)
        ensures
            final(self)@ == old(self)@.update(slot_of(ch), None),
            final(self)@.len() == 5,
    {
        self.clear_slot(channel_index(ch));
    }

    /// Cancel the virtual yellow task.
    pub fn cancel_yellow(&mut self)
        ensures
            final(self)@ == old(self)@.update(YELLOW_TASK_IDX as int, None),
            final(self)@.len() == 5,
    {
        self.clear_slot(YELLOW_TASK_IDX);
    }

    /// Cancel all tasks (physical + yellow).
    pub fn cancel_all(&mut self)
        ensures
            final(self)@ == Seq::new(5, |i: int| None::<T>),
            final(self)@.len() == 5,
    {
        let mut i: usize = 0;
        while i < 5
            invariant
                0 <= i <= 5,
                self@.len() == 5,
                forall|j: int| 0 <= j < i ==> self@[j] is None,
            decreases 5 - i,
        {
            self.clear_slot(i);
            i = i + 1;
        }
        assert(self@ =~= Seq::new(5, |i: int| None::<T>));
    }

    /// Cancel the tasks in the listed slots; indexes past the last slot are ignored.
    pub fn cancel_slots(&mut self, slots: &Vec<usize>)
        ensures
            final(self)@.len() == 5,
            forall|i: int|
                0 <= i < 5 ==> #[trigger] final(self)@[i] == (if slots@.contains(i as usize) {
                    None
                } else {
                    old(self)@[i]
                }),
    {
        let n = slots.len();
        for k in 0..n
            invariant
                n == slots@.len(),
                self@.len() == 5,
                forall|i: int|
                    0 <= i < 5 ==> #[trigger] self@[i] == (if exists|j: int|
                        0 <= j < k && #[trigger] slots@[j] == i as usize {
                        None
                    } else {
                        old(self)@[i]
                    }),
        {
            let s = slots[k];
            if s < 5 {
                self.clear_slot(s);
            }
            assert forall|i: int| 0 <= i < 5 implies #[trigger] self@[i] == (if exists|j: int|
                0 <= j < k + 1 && #[trigger] slots@[j] == i as usize {
                None
            } else {
                old(self)@[i]
            }) by {
                if s == i as usize {
                    assert(slots@[k as int] == i as usize);
                }
            }
        }
    }

    /// Put `task` in the slot of `target`, stopping whatever ran there.
    pub fn install(&mut self, target: RouteChannel, task: T)
        ensures
            final(self)@ == old(self)@.update(target_slot(target), Some(task)),
            final(self)@.len() == 5,
    {
        let slot = match target {
            RouteChannel::Physical(ch) => channel_index(ch),
            RouteChannel::Yellow => YELLOW_TASK_IDX,
        };
        self.slots[slot] = Some(task);
    }
}

// ── Effects ───────────────────────────────────────────────────────────────────

/// A software-driven light effect.
#[derive(Debug, PartialEq, Eq)]
pub enum Effect {
    /// Blink forever: on for `on_ms`, off for `off_ms`.
    SwBlink { on_ms: u64, off_ms: u64 },
    /// Blink `count` times, then off; no pause after the last blink.
    Pulse { on_ms: u64, off_ms: u64, count: u32 },
    /// On for `duration_ms`, then off.
    Timed { duration_ms: u64 },
    /// Each step once: on for its first time, off for its second (skipped when 0).
    Sequence { steps: Vec<(u64, u64)> },
}

/// An effect as a mathematical value.
pub enum EffectView {
    SwBlink { on_ms: u64, off_ms: u64 },
    Pulse { on_ms: u64, off_ms: u64, count: u32 },
    Timed { duration_ms: u64 },
    Sequence { steps: Seq<(u64, u64)> },
}

impl View for Effect {
    type V = EffectView;

    open spec fn view(&self) -> EffectView {
        match self {
            Effect::SwBlink { on_ms, off_ms } => EffectView::SwBlink { on_ms: *on_ms, off_ms: *off_ms },
            Effect::Pulse { on_ms, off_ms, count } => EffectView::Pulse {
                on_ms: *on_ms,
                off_ms: *off_ms,
                count: *count,
            },
            Effect::Timed { duration_ms } => EffectView::Timed { duration_ms: *duration_ms },
            Effect::Sequence { steps } => EffectView::Sequence { steps: steps@ },
        }
    }
}

/// An effect run on a physical channel or on the virtual yellow
/// (red + orange + green in sync).
#[derive(Debug, PartialEq, Eq)]
pub struct Job {
    pub target: RouteChannel,
    pub effect: Effect,
}

/// One step of a running effect.
#[derive(Debug, PartialEq, Eq, Structural)]
pub enum EffectAction {
    /// Write this command byte to the device.
    Send(u8),
    /// Wait this many milliseconds.
    Sleep(u64),
    /// The effect is over: apply this change to the light state.
    Finish(LightUpdate),
}

/// How many on/off cycles an effect runs; `None` when it runs until cancelled.
pub open spec fn cycle_count(e: Effect) -> Option<nat> {
    match e {
        Effect::SwBlink { .. } => None,
        Effect::Pulse { count, .. } => Some(count as nat),
        Effect::Timed { .. } => Some(1),
        Effect::Sequence { steps } => Some(steps@.len()),
    }
}

/// The on time of cycle `c`.
pub open spec fn on_ms_of(e: Effect, c: nat) -> u64 {
    match e {
        Effect::SwBlink { on_ms, .. } => on_ms,
        Effect::Pulse { on_ms, .. } => on_ms,
        Effect::Timed { duration_ms } => duration_ms,
        Effect::Sequence { steps } => steps@[c as int].0,
    }
}

/// The pause after cycle `c`, if there is one.
pub open spec fn off_ms_of(e: Effect, c: nat) -> Option<u64> {
    match e {
        Effect::SwBlink { off_ms, .. } => Some(off_ms),
        Effect::Pulse { off_ms, count, .. } => if c + 1 < count {
            Some(off_ms)
        } else {
            None
        },
        Effect::Timed { .. } => None,
        Effect::Sequence { steps } => if steps@[c as int].1 > 0 {
            Some(steps@[c as int].1)
        } else {
            None
        },
    }
}

/// The bytes that turn a target on: one channel, or red, orange and green.
pub open spec fn on_bytes(t: RouteChannel) -> Seq<u8> {
    match t {
        RouteChannel::Physical(ch) => seq![on_byte(ch)],
        RouteChannel::Yellow => seq![HW_RED_ON, HW_ORANGE_ON, HW_GREEN_ON],
    }
}

/// The bytes that turn a target off.
pub open spec fn off_bytes(t: RouteChannel) -> Seq<u8> {
    match t {
        RouteChannel::Physical(ch) => seq![off_byte(ch)],
        RouteChannel::Yellow => seq![HW_RED_OFF, HW_ORANGE_OFF, HW_GREEN_OFF],
    }
}

/// The physical channels that a target drives.
pub open spec fn drives(t: RouteChannel, ch: PhysicalChannel) -> bool {
    match t {
        RouteChannel::Physical(p) => p == ch,
        RouteChannel::Yellow => ch != PhysicalChannel::Buzzer,
    }
}

pub open spec fn sends(bs: Seq<u8>) -> Seq<EffectAction> {
    bs.map_values(|b: u8| EffectAction::Send(b))
}

pub open spec fn pause(o: Option<u64>) -> Seq<EffectAction> {
    match o {
        Some(ms) => seq![EffectAction::Sleep(ms)],
        None => seq![],
    }
}

/// Cycle `c` of a job: the target's on bytes, the on time, the target's off
/// bytes, and the pause if there is one.
pub open spec fn cycle_actions(job: Job, c: nat) -> Seq<EffectAction> {
    sends(on_bytes(job.target)) + seq![EffectAction::Sleep(on_ms_of(job.effect, c))] + sends(
        off_bytes(job.target),
    ) + pause(off_ms_of(job.effect, c))
}

/// The channel state that the light shows while an effect runs.
pub open spec fn running_state(e: Effect) -> ChannelState {
    match e {
        Effect::SwBlink { on_ms, off_ms } => ChannelState::SwBlink { on_ms, off_ms },
        Effect::Pulse { on_ms, off_ms, count } => ChannelState::Pulse {
            on_ms,
            off_ms,
            remaining: count,
        },
        Effect::Timed { .. } => ChannelState::On,
        Effect::Sequence { .. } => ChannelState::On,
    }
}

/// The light change made when a job starts.
pub open spec fn begin_update(job: Job) -> LightUpdate {
    match job.target {
        RouteChannel::Physical(ch) => LightUpdate::Channel(ch, running_state(job.effect)),
        RouteChannel::Yellow => LightUpdate::Yellow(running_state(job.effect), true),
    }
}

/// The light change made when a finite job ends: its channels off.
pub open spec fn end_update(t: RouteChannel) -> LightUpdate {
    match t {
        RouteChannel::Physical(ch) => LightUpdate::Channel(ch, ChannelState::Off),
        RouteChannel::Yellow => LightUpdate::Yellow(ChannelState::Off, false),
    }
}

/// The runner is past the last cycle of a finite job.
pub open spec fn at_end(job: Job, c: nat) -> bool {
    cycle_count(job.effect) matches Some(n) && c >= n
}

/// The whole run of a finite job from cycle `c` on, ending with `Finish`.
pub open spec fn trace_from(job: Job, c: nat) -> Seq<EffectAction>
    decreases (match cycle_count(job.effect) {
        Some(n) => n - c,
        None => 0,
    }),
{
    match cycle_count(job.effect) {
        Some(n) => if c >= n {
            seq![EffectAction::Finish(end_update(job.target))]
        } else {
            cycle_actions(job, c) + trace_from(job, c + 1)
        },
        None => seq![],
    }
}

/// The whole run of a finite job.
pub open spec fn trace(job: Job) -> Seq<EffectAction> {
    trace_from(job, 0)
}

/// A runner position: cycle `c`, step `p` within it, and whether the job is over.
pub open spec fn valid_position(job: Job, c: nat, p: nat, done: bool) -> bool {
    !done ==> match cycle_count(job.effect) {
        None => c == 0 && p < cycle_actions(job, 0).len(),
        Some(n) => c <= n && (c < n ==> p < cycle_actions(job, c).len()) && (c == n ==> p == 0),
    }
}

/// The action a runner at a position emits next.
pub open spec fn runner_action(job: Job, c: nat, p: nat, done: bool) -> EffectAction {
    if done || at_end(job, c) {
        EffectAction::Finish(end_update(job.target))
    } else {
        cycle_actions(job, c)[p as int]
    }
}

/// The position after that action. An endless job starts over at cycle 0.
pub open spec fn runner_next(job: Job, c: nat, p: nat, done: bool) -> (nat, nat, bool) {
    if done || at_end(job, c) {
        (c, p, true)
    } else if p + 1 < cycle_actions(job, c).len() {
        (c, p + 1, false)
    } else if cycle_count(job.effect) is None {
        (0, 0, false)
    } else {
        (c + 1, 0, false)
    }
}

/// What a runner of a finite job still emits from a position.
pub open spec fn remaining(job: Job, c: nat, p: nat, done: bool) -> Seq<EffectAction> {
    if done {
        seq![]
    } else if at_end(job, c) {
        seq![EffectAction::Finish(end_update(job.target))]
    } else {
        cycle_actions(job, c).skip(p as int) + trace_from(job, c + 1)
    }
}

/// The slots of the tasks a job on `t` stops before it starts.
pub open spec fn preempted(t: RouteChannel) -> Seq<usize> {
    match t {
        RouteChannel::Physical(_) => seq![YELLOW_TASK_IDX],
        RouteChannel::Yellow => seq![0usize, 1, 2],
    }
}

/// The slots cancelled when a job starts: those it takes over and its own.
pub open spec fn start_slots(job: Job) -> Seq<usize> {
    preempted(job.target) + seq![target_slot(job.target) as usize]
}

impl Job {
    /// The task slot the job runs in.
    pub fn slot(&self) -> (r: usize)
        ensures
            r == target_slot(self.target),
    {
        match self.target {
            RouteChannel::Physical(ch) => channel_index(ch),
            RouteChannel::Yellow => YELLOW_TASK_IDX,
        }
    }

    /// The slots whose tasks the job stops before it starts: a yellow job
    /// takes over red, orange and green; a physical job leaves yellow mode,
    /// so it stops the yellow task.
    pub fn preempted_slots(&self) -> (r: Vec<usize>)
        ensures
            r@ == preempted(self.target),
    {
        match self.target {
            RouteChannel::Physical(_) => {
                let r = vec![YELLOW_TASK_IDX];
                assert(r@ =~= seq![YELLOW_TASK_IDX]);
                r
            },
            RouteChannel::Yellow => {
                let r = vec![0usize, 1, 2];
                assert(r@ =~= seq![0usize, 1, 2]);
                r
            },
        }
    }

    /// The light change made when the job starts.
    pub fn begin_update(&self) -> (r: LightUpdate)
        ensures
            r == begin_update(*self),
    {
        let st = match &self.effect {
            Effect::SwBlink { on_ms, off_ms } => ChannelState::SwBlink {
                on_ms: *on_ms,
                off_ms: *off_ms,
            },
            Effect::Pulse { on_ms, off_ms, count } => ChannelState::Pulse {
                on_ms: *on_ms,
                off_ms: *off_ms,
                remaining: *count,
            },
            Effect::Timed { .. } => ChannelState::On,
            Effect::Sequence { .. } => ChannelState::On,
        };
        match self.target {
            RouteChannel::Physical(ch) => LightUpdate::Channel(ch, st),
            RouteChannel::Yellow => LightUpdate::Yellow(st, true),
        }
    }
}

fn end_update_of(t: RouteChannel) -> (r: LightUpdate)
    ensures
        r == end_update(t),
{
    match t {
        RouteChannel::Physical(ch) => LightUpdate::Channel(ch, ChannelState::Off),
        RouteChannel::Yellow => LightUpdate::Yellow(ChannelState::Off, false),
    }
}

fn cycle_count_of(e: &Effect) -> (r: Option<u64>)
    ensures
        match r {
            None => cycle_count(*e) is None,
            Some(k) => cycle_count(*e) == Some(k as nat),
        },
{
    match e {
        Effect::SwBlink { .. } => None,
        Effect::Pulse { count, .. } => Some(*count as u64),
        Effect::Timed { .. } => Some(1),
        Effect::Sequence { steps } => Some(steps.len() as u64),
    }
}

/// The (on time, pause) of cycle `c`.
fn cycle_timing(e: &Effect, c: u64) -> (r: (u64, Option<u64>))
    requires
        cycle_count(*e) matches Some(n) ==> c < n,
    ensures
        r == (on_ms_of(*e, c as nat), off_ms_of(*e, c as nat)),
{
    match e {
        Effect::SwBlink { on_ms, off_ms } => (*on_ms, Some(*off_ms)),
        Effect::Pulse { on_ms, off_ms, count } => {
            if c + 1 < *count as u64 {
                (*on_ms, Some(*off_ms))
            } else {
                (*on_ms, None)
            }
        },
        Effect::Timed { duration_ms } => (*duration_ms, None),
        Effect::Sequence { steps } => {
            let n = steps.len();
            assert(c < n);
            let i = c as usize;
            assert(i as nat == c as nat);
            let (on, off) = steps[i];
            if off > 0 {
                (on, Some(off))
            } else {
                (on, None)
            }
        },
    }
}

/// The `i`-th byte that turns a target on or off.
fn target_byte(t: RouteChannel, on: bool, i: usize) -> (r: u8)
    requires
        i < on_bytes(t).len(),
    ensures
        r == (if on {
            on_bytes(t)[i as int]
        } else {
            off_bytes(t)[i as int]
        }),
{
    match t {
        RouteChannel::Physical(ch) => {
            let (on_b, off_b) = hw_on_off(ch);
            if on {
                on_b
            } else {
                off_b
            }
        },
        RouteChannel::Yellow => {
            if i == 0 {
                if on {
                    HW_RED_ON
                } else {
                    HW_RED_OFF
                }
            } else if i == 1 {
                if on {
                    HW_ORANGE_ON
                } else {
                    HW_ORANGE_OFF
                }
            } else {
                if on {
                    HW_GREEN_ON
                } else {
                    HW_GREEN_OFF
                }
            }
        },
    }
}

fn target_width(t: RouteChannel) -> (r: usize)
    ensures
        r == on_bytes(t).len(),
        r == off_bytes(t).len(),
        1 <= r <= 3,
{
    match t {
        RouteChannel::Physical(_) => 1,
        RouteChannel::Yellow => 3,
    }
}

proof fn lemma_cycle_shape(job: Job, c: nat)
    ensures
        ({
            let m = on_bytes(job.target).len() as int;
            let ca = cycle_actions(job, c);
            &&& ca.len() == 2 * m + 1 + pause(off_ms_of(job.effect, c)).len()
            &&& forall|i: int| 0 <= i < m ==> ca[i] == EffectAction::Send(on_bytes(job.target)[i])
            &&& ca[m] == EffectAction::Sleep(on_ms_of(job.effect, c))
            &&& forall|i: int|
                m < i <= 2 * m ==> ca[i] == EffectAction::Send(off_bytes(job.target)[i - m - 1])
            &&& off_ms_of(job.effect, c) matches Some(o) ==> ca[2 * m + 1] == EffectAction::Sleep(o)
        }),
{
    let m = on_bytes(job.target).len() as int;
    assert(off_bytes(job.target).len() == m);
    let a = sends(on_bytes(job.target));
    let b = seq![EffectAction::Sleep(on_ms_of(job.effect, c))];
    let d = sends(off_bytes(job.target));
    let e = pause(off_ms_of(job.effect, c));
    assert(cycle_actions(job, c) == a + b + d + e);
    assert forall|i: int| 0 <= i < m implies cycle_actions(job, c)[i] == EffectAction::Send(
        on_bytes(job.target)[i],
    ) by {
        assert((a + b + d + e)[i] == a[i]);
    }
    assert forall|i: int| m < i <= 2 * m implies cycle_actions(job, c)[i] == EffectAction::Send(
        off_bytes(job.target)[i - m - 1],
    ) by {
        assert((a + b + d + e)[i] == d[i - m - 1]);
    }
}

/// Runs an effect one action at a time; the caller performs each action.
#[derive(Debug)]
pub struct EffectRunner {
    job: Job,
    cycle: u64,
    pos: usize,
    done: bool,
}

impl EffectRunner {
    #[verifier::type_invariant]
    spec fn inv(self) -> bool {
        valid_position(self.job, self.cycle as nat, self.pos as nat, self.done)
    }

    pub closed spec fn job(self) -> Job {
        self.job
    }

    pub closed spec fn cycle(self) -> nat {
        self.cycle as nat
    }

    pub closed spec fn pos(self) -> nat {
        self.pos as nat
    }

    pub closed spec fn is_done(self) -> bool {
        self.done
    }

    /// A runner at the start of `job`.
    pub fn new(job: Job) -> (r: Self)
        ensures
            r.job() == job,
            r.cycle() == 0,
            r.pos() == 0,
            !r.is_done(),
    {
        proof {
            lemma_cycle_shape(job, 0);
        }
        EffectRunner { job, cycle: 0, pos: 0, done: false }
    }

    /// Has the runner emitted its `Finish`?
    pub fn finished(&self) -> (r: bool)
        ensures
            r == self.is_done(),
    {
        self.done
    }

    /// The next action of the effect, advancing the runner past it.
    pub fn next_action(&mut self) -> (a: EffectAction)
        ensures
            a == runner_action(old(self).job(), old(self).cycle(), old(self).pos(), old(self).is_done()),
            (final(self).cycle(), final(self).pos(), final(self).is_done()) == runner_next(
                old(self).job(),
                old(self).cycle(),
                old(self).pos(),
                old(self).is_done(),
            ),
            final(self).job() == old(self).job(),
            valid_position(old(self).job(), old(self).cycle(), old(self).pos(), old(self).is_done()),
            valid_position(final(self).job(), final(self).cycle(), final(self).pos(), final(self).is_done()),
    {
        proof {
            use_type_invariant(&*self);
        }
        let ghost job = self.job;
        let ghost c = self.cycle as nat;
        if self.done {
            return EffectAction::Finish(end_update_of(self.job.target));
        }
        let count = cycle_count_of(&self.job.effect);
        match count {
            Some(n) => {
                if self.cycle >= n {
                    self.done = true;
                    return EffectAction::Finish(end_update_of(self.job.target));
                }
            },
            None => {},
        }
        proof {
            lemma_cycle_shape(job, c);
        }
        let m = target_width(self.job.target);
        let (on_ms, off) = cycle_timing(&self.job.effect, self.cycle);
        let len: usize = match off {
            Some(_) => 2 * m + 2,
            None => 2 * m + 1,
        };
        let p = self.pos;
        let a = if p < m {
            EffectAction::Send(target_byte(self.job.target, true, p))
        } else if p == m {
            EffectAction::Sleep(on_ms)
        } else if p <= 2 * m {
            EffectAction::Send(target_byte(self.job.target, false, p - m - 1))
        } else {
            match off {
                Some(o) => EffectAction::Sleep(o),
                None => EffectAction::Sleep(0),
            }
        };
        if p + 1 < len {
            self.pos = p + 1;
        } else {
            self.pos = 0;
            match count {
                Some(_) => {
                    self.cycle = self.cycle + 1;
                },
                None => {},
            }
        }
        a
    }
}

// ── Starting a job ────────────────────────────────────────────────────────────

/// What the program does next to start a job.
#[derive(Debug)]
pub enum StartAction {
    /// Cancel the tasks in these slots.
    Cancel(Vec<usize>),
    /// Record this change in the light state.
    Record(LightUpdate),
    /// Spawn a task that carries out this runner's actions, and put it in
    /// the task slot of the target.
    Launch(RouteChannel, EffectRunner),
    /// The job has started.
    Idle,
}

/// Starts a job in three steps: cancel the tasks it replaces, record its
/// running state, and only then launch its task, so that the job's own
/// `Finish` always comes after its running state was recorded.
pub struct JobStarter {
    job: Option<Job>,
    stage: usize,
    plan: Ghost<Job>,
}

impl JobStarter {
    #[verifier::type_invariant]
    spec fn inv(self) -> bool {
        &&& self.stage <= 3
        &&& self.stage < 3 ==> self.job == Some(self.plan@)
    }

    pub closed spec fn job(self) -> Job {
        self.plan@
    }

    pub closed spec fn stage(self) -> nat {
        self.stage as nat
    }

    /// A starter for `job`, before its first step.
    pub fn new(job: Job) -> (r: Self)
        ensures
            r.job() == job,
            r.stage() == 0,
    {
        let ghost plan = job;
        JobStarter { job: Some(job), stage: 0, plan: Ghost(plan) }
    }

    /// The next step of starting the job.
    pub fn step(self) -> (r: (Self, StartAction))
        ensures
            r.0.job() == self.job(),
            self.stage() == 0 ==> (r.1 matches StartAction::Cancel(c) && c@ == start_slots(
                self.job(),
            ) && r.0.stage() == 1),
            self.stage() == 1 ==> (r.1 matches StartAction::Record(u) && u == begin_update(
                self.job(),
            ) && r.0.stage() == 2),
            self.stage() == 2 ==> (r.1 matches StartAction::Launch(t, runner) && t
                == self.job().target && runner.job() == self.job() && runner.cycle() == 0
                && runner.pos() == 0 && !runner.is_done() && r.0.stage() == 3),
            self.stage() >= 3 ==> r.1 is Idle && r.0.stage() == self.stage(),
    {
        proof {
            use_type_invariant(&self);
        }
        let JobStarter { job, stage, plan } = self;
        if stage >= 3 {
            return (JobStarter { job: None, stage, plan }, StartAction::Idle);
        }
        let job = match job {
            Some(j) => j,
            None => {
                return (JobStarter { job: None, stage: 3, plan }, StartAction::Idle);
            },
        };
        if stage == 0 {
            let mut slots = job.preempted_slots();
            slots.push(job.slot());
            assert(slots@ =~= start_slots(job));
            (JobStarter { job: Some(job), stage: 1, plan }, StartAction::Cancel(slots))
        } else if stage == 1 {
            let u = job.begin_update();
            (JobStarter { job: Some(job), stage: 2, plan }, StartAction::Record(u))
        } else {
            let t = job.target;
            (JobStarter { job: None, stage: 3, plan }, StartAction::Launch(t, EffectRunner::new(job)))
        }
    }
}

// ── Laws of the effect runner ─────────────────────────────────────────────────

/// The position after `k` actions from the start of `job`.
pub open spec fn position_after(job: Job, k: nat) -> (nat, nat, bool)
    decreases k,
{
    if k == 0 {
        (0, 0, false)
    } else {
        let (c, p, d) = position_after(job, (k - 1) as nat);
        runner_next(job, c, p, d)
    }
}

/// The first `k` actions a runner of `job` emits.
pub open spec fn emitted(job: Job, k: nat) -> Seq<EffectAction>
    decreases k,
{
    if k == 0 {
        seq![]
    } else {
        let (c, p, d) = position_after(job, (k - 1) as nat);
        emitted(job, (k - 1) as nat).push(runner_action(job, c, p, d))
    }
}

/// One step keeps the runner at a valid position.
pub proof fn lemma_step_valid(job: Job, c: nat, p: nat, done: bool)
    requires
        valid_position(job, c, p, done),
    ensures
        ({
            let (c2, p2, d2) = runner_next(job, c, p, done);
            valid_position(job, c2, p2, d2)
        }),
{
    lemma_cycle_shape(job, 0);
    if !done && !at_end(job, c) {
        lemma_cycle_shape(job, c + 1);
    }
}

/// Of a finite job, what is still to come from a position is the next action
/// followed by what is still to come after it.
pub proof fn lemma_step_remaining(job: Job, c: nat, p: nat, done: bool)
    requires
        cycle_count(job.effect) is Some,
        valid_position(job, c, p, done),
        !done,
    ensures
        ({
            let (c2, p2, d2) = runner_next(job, c, p, done);
            remaining(job, c, p, done) == seq![runner_action(job, c, p, done)] + remaining(
                job,
                c2,
                p2,
                d2,
            )
        }),
{
    if !at_end(job, c) {
        let ca = cycle_actions(job, c);
        assert(ca.skip(p as int) =~= seq![ca[p as int]] + ca.skip(p + 1 as int));
        if p + 1 >= ca.len() {
            assert(ca.skip(p + 1 as int) =~= Seq::<EffectAction>::empty());
            let n = cycle_count(job.effect)->0;
            if c + 1 < n {
                lemma_cycle_shape(job, c + 1);
                assert(cycle_actions(job, c + 1).skip(0) =~= cycle_actions(job, c + 1));
            }
        }
    }
}

proof fn lemma_remaining_nonempty(job: Job, c: nat, p: nat, d: bool)
    requires
        valid_position(job, c, p, d),
        !d,
    ensures
        remaining(job, c, p, d).len() > 0,
{
    if !at_end(job, c) {
        assert(cycle_actions(job, c).skip(p as int).len() > 0);
    }
}

proof fn lemma_prefix(job: Job, k: nat)
    requires
        cycle_count(job.effect) is Some,
        k <= trace(job).len(),
    ensures
        ({
            let (c, p, d) = position_after(job, k);
            &&& valid_position(job, c, p, d)
            &&& emitted(job, k) + remaining(job, c, p, d) == trace(job)
        }),
    decreases k,
{
    let t = trace(job);
    if k == 0 {
        lemma_cycle_shape(job, 0);
        let n = cycle_count(job.effect)->0;
        if n > 0 {
            assert(cycle_actions(job, 0).skip(0) =~= cycle_actions(job, 0));
        }
        assert(emitted(job, 0) + remaining(job, 0, 0, false) =~= t);
    } else {
        let k0 = (k - 1) as nat;
        lemma_prefix(job, k0);
        lemma_emitted_len(job, k0);
        let (c, p, d) = position_after(job, k0);
        if d {
            // A finished runner has nothing left, so the prefix would already
            // be the whole trace, which is longer than `k0`.
            assert(emitted(job, k0) + remaining(job, c, p, d) =~= emitted(job, k0));
            assert(false);
        }
        lemma_step_remaining(job, c, p, d);
        lemma_step_valid(job, c, p, d);
        let (c2, p2, d2) = runner_next(job, c, p, d);
        assert(emitted(job, k) + remaining(job, c2, p2, d2) =~= emitted(job, k0) + remaining(
            job,
            c,
            p,
            d,
        ));
    }
}

/// A runner of a finite job emits exactly `trace(job)` and is then done: its
/// last action is the `Finish` that turns the job's channels off.
pub proof fn lemma_runner_emits_trace(job: Job)
    requires
        cycle_count(job.effect) is Some,
    ensures
        emitted(job, trace(job).len()) == trace(job),
        position_after(job, trace(job).len()).2,
{
    let k = trace(job).len();
    lemma_prefix(job, k);
    lemma_emitted_len(job, k);
    let (c, p, d) = position_after(job, k);
    assert((emitted(job, k) + remaining(job, c, p, d)).len() == k);
    if !d {
        lemma_remaining_nonempty(job, c, p, d);
    }
    assert(emitted(job, k) + remaining(job, c, p, d) =~= emitted(job, k));
}

proof fn lemma_emitted_len(job: Job, k: nat)
    ensures
        emitted(job, k).len() == k,
    decreases k,
{
    if k > 0 {
        lemma_emitted_len(job, (k - 1) as nat);
    }
}

/// An endless blink never finishes, however many actions it emits.
pub proof fn lemma_blink_never_finishes(job: Job, k: nat)
    requires
        job.effect is SwBlink,
    ensures
        !position_after(job, k).2,
        runner_action(job, position_after(job, k).0, position_after(job, k).1, false) !is Finish,
        valid_position(job, position_after(job, k).0, position_after(job, k).1, false),
    decreases k,
{
    lemma_cycle_shape(job, 0);
    if k > 0 {
        lemma_blink_never_finishes(job, (k - 1) as nat);
        let (c, p, d) = position_after(job, (k - 1) as nat);
        lemma_step_valid(job, c, p, d);
    }
}

/// How often `a` occurs in `s`.
pub open spec fn occurrences(s: Seq<EffectAction>, a: EffectAction) -> nat
    decreases s.len(),
{
    if s.len() == 0 {
        0
    } else {
        (if s[0] == a {
            1nat
        } else {
            0nat
        }) + occurrences(s.drop_first(), a)
    }
}

proof fn lemma_occurrences_add(s: Seq<EffectAction>, t: Seq<EffectAction>, a: EffectAction)
    ensures
        occurrences(s + t, a) == occurrences(s, a) + occurrences(t, a),
    decreases s.len(),
{
    if s.len() == 0 {
        assert(s + t =~= t);
    } else {
        assert((s + t).drop_first() =~= s.drop_first() + t);
        lemma_occurrences_add(s.drop_first(), t, a);
    }
}

proof fn lemma_occurrences_small(x: EffectAction, y: EffectAction, z: EffectAction, a: EffectAction)
    ensures
        occurrences(Seq::<EffectAction>::empty(), a) == 0,
        occurrences(seq![x], a) == (if x == a {
            1nat
        } else {
            0nat
        }),
        occurrences(seq![x, y, z], a) == (if x == a {
            1nat
        } else {
            0nat
        }) + (if y == a {
            1nat
        } else {
            0nat
        }) + (if z == a {
            1nat
        } else {
            0nat
        }),
{
    assert(seq![x].drop_first() =~= Seq::<EffectAction>::empty());
    assert(seq![x, y, z].drop_first() =~= seq![y, z]);
    assert(seq![y, z].drop_first() =~= seq![z]);
    assert(seq![z].drop_first() =~= Seq::<EffectAction>::empty());
    assert(occurrences(Seq::<EffectAction>::empty(), a) == 0);
    assert(seq![z].len() == 1 && seq![z][0] == z);
    assert(seq![y, z].len() == 2 && seq![y, z][0] == y);
    assert(seq![x, y, z].len() == 3 && seq![x, y, z][0] == x);
    assert(seq![x].len() == 1 && seq![x][0] == x);
    assert(occurrences(seq![z], a) == (if z == a {
        1nat
    } else {
        0nat
    }));
    assert(occurrences(seq![y, z], a) == (if y == a {
        1nat
    } else {
        0nat
    }) + occurrences(seq![z], a));
}

proof fn lemma_cycle_occurrences(job: Job, c: nat, ch: PhysicalChannel)
    requires
        drives(job.target, ch),
    ensures
        occurrences(cycle_actions(job, c), EffectAction::Send(on_byte(ch))) == 1,
        occurrences(cycle_actions(job, c), EffectAction::Send(off_byte(ch))) == 1,
{
    let t = job.target;
    let a = sends(on_bytes(t));
    let b = seq![EffectAction::Sleep(on_ms_of(job.effect, c))];
    let d = sends(off_bytes(t));
    let e = pause(off_ms_of(job.effect, c));
    let on = EffectAction::Send(on_byte(ch));
    let off = EffectAction::Send(off_byte(ch));
    lemma_occurrences_add(a + b + d, e, on);
    lemma_occurrences_add(a + b, d, on);
    lemma_occurrences_add(a, b, on);
    lemma_occurrences_add(a + b + d, e, off);
    lemma_occurrences_add(a + b, d, off);
    lemma_occurrences_add(a, b, off);
    let sl = EffectAction::Sleep(on_ms_of(job.effect, c));
    lemma_occurrences_small(sl, sl, sl, on);
    lemma_occurrences_small(sl, sl, sl, off);
    match off_ms_of(job.effect, c) {
        Some(o) => {
            lemma_occurrences_small(EffectAction::Sleep(o), sl, sl, on);
            lemma_occurrences_small(EffectAction::Sleep(o), sl, sl, off);
        },
        None => {
            lemma_occurrences_small(sl, sl, sl, on);
        },
    }
    match t {
        RouteChannel::Physical(p) => {
            assert(a =~= seq![EffectAction::Send(on_byte(p))]);
            assert(d =~= seq![EffectAction::Send(off_byte(p))]);
            crate::hardware::lemma_command_bytes_distinct(p, ch);
            lemma_occurrences_small(EffectAction::Send(on_byte(p)), sl, sl, on);
            lemma_occurrences_small(EffectAction::Send(on_byte(p)), sl, sl, off);
            lemma_occurrences_small(EffectAction::Send(off_byte(p)), sl, sl, on);
            lemma_occurrences_small(EffectAction::Send(off_byte(p)), sl, sl, off);
        },
        RouteChannel::Yellow => {
            let sr = EffectAction::Send(HW_RED_ON);
            let so = EffectAction::Send(HW_ORANGE_ON);
            let sg = EffectAction::Send(HW_GREEN_ON);
            let fr = EffectAction::Send(HW_RED_OFF);
            let fo = EffectAction::Send(HW_ORANGE_OFF);
            let fg = EffectAction::Send(HW_GREEN_OFF);
            assert(a =~= seq![sr, so, sg]);
            assert(d =~= seq![fr, fo, fg]);
            lemma_occurrences_small(sr, so, sg, on);
            lemma_occurrences_small(sr, so, sg, off);
            lemma_occurrences_small(fr, fo, fg, on);
            lemma_occurrences_small(fr, fo, fg, off);
        },
    }
}

proof fn lemma_trace_from_occurrences(job: Job, c: nat, ch: PhysicalChannel)
    requires
        cycle_count(job.effect) is Some,
        c <= cycle_count(job.effect)->0,
        drives(job.target, ch),
    ensures
        occurrences(trace_from(job, c), EffectAction::Send(on_byte(ch))) == cycle_count(
            job.effect,
        )->0 - c,
        occurrences(trace_from(job, c), EffectAction::Send(off_byte(ch))) == cycle_count(
            job.effect,
        )->0 - c,
        trace_from(job, c).len() > 0,
        trace_from(job, c).last() == EffectAction::Finish(end_update(job.target)),
    decreases cycle_count(job.effect)->0 - c,
{
    let n = cycle_count(job.effect)->0;
    let on = EffectAction::Send(on_byte(ch));
    let off = EffectAction::Send(off_byte(ch));
    let fin = EffectAction::Finish(end_update(job.target));
    if c >= n {
        lemma_occurrences_small(fin, fin, fin, on);
        lemma_occurrences_small(fin, fin, fin, off);
    } else {
        lemma_trace_from_occurrences(job, c + 1, ch);
        lemma_cycle_occurrences(job, c, ch);
        lemma_occurrences_add(cycle_actions(job, c), trace_from(job, c + 1), on);
        lemma_occurrences_add(cycle_actions(job, c), trace_from(job, c + 1), off);
    }
}

/// A finite job — a pulse of N blinks, a timed on, a sequence of N steps —
/// turns each of its channels on exactly once per cycle and off exactly once
/// per cycle, and ends by setting its channels off in the light state.
pub proof fn lemma_finite_job_cycles(job: Job, ch: PhysicalChannel)
    requires
        cycle_count(job.effect) is Some,
        drives(job.target, ch),
    ensures
        occurrences(trace(job), EffectAction::Send(on_byte(ch))) == cycle_count(job.effect)->0,
        occurrences(trace(job), EffectAction::Send(off_byte(ch))) == cycle_count(job.effect)->0,
        trace(job).last() == EffectAction::Finish(end_update(job.target)),
{
    lemma_trace_from_occurrences(job, 0, ch);
}

/// While a job runs, the light shows its running state on the channels it
/// drives (with yellow mode on exactly for a yellow job); when a finite job
/// ends, those channels are off and yellow mode is off. Other channels are
/// left as they were either way.
pub proof fn lemma_job_light_updates(light: LightState, job: Job, ch: PhysicalChannel)
    ensures
        drives(job.target, ch) ==> light.updated(begin_update(job)).channel(ch) == running_state(
            job.effect,
        ),
        light.updated(begin_update(job)).yellow == (job.target == RouteChannel::Yellow),
        drives(job.target, ch) ==> light.updated(end_update(job.target)).channel(ch)
            == ChannelState::Off,
        !light.updated(end_update(job.target)).yellow,
        !drives(job.target, ch) ==> light.updated(begin_update(job)).channel(ch) == light.channel(
            ch,
        ),
        !drives(job.target, ch) ==> light.updated(end_update(job.target)).channel(ch)
            == light.channel(ch),
{
}

/// A finite job started by a `JobStarter` ends with its channels off: its
/// running state is recorded before its task runs, its run ends with the
/// `Finish` of `end_update`, and applying that after the running state
/// leaves the channels it drives off and yellow mode off; other channels
/// keep their state.
pub proof fn lemma_started_job_ends_off(light: LightState, job: Job, ch: PhysicalChannel)
    requires
        cycle_count(job.effect) is Some,
    ensures
        emitted(job, trace(job).len()).last() == EffectAction::Finish(end_update(job.target)),
        drives(job.target, ch) ==> light.updated(begin_update(job)).updated(
            end_update(job.target),
        ).channel(ch) == ChannelState::Off,
        !light.updated(begin_update(job)).updated(end_update(job.target)).yellow,
        !drives(job.target, ch) ==> light.updated(begin_update(job)).updated(
            end_update(job.target),
        ).channel(ch) == light.channel(ch),
{
    lemma_runner_emits_trace(job);
    lemma_trace_from_occurrences_last(job);
    lemma_job_light_updates(light, job, ch);
    lemma_job_light_updates(light.updated(begin_update(job)), job, ch);
}

proof fn lemma_trace_from_occurrences_last(job: Job)
    requires
        cycle_count(job.effect) is Some,
    ensures
        trace(job).last() == EffectAction::Finish(end_update(job.target)),
{
    let ch = match job.target {
        RouteChannel::Physical(p) => p,
        RouteChannel::Yellow => PhysicalChannel::Red,
    };
    lemma_finite_job_cycles(job, ch);
}

// ── Laws of pulses and running states ─────────────────────────────────────────

/// The pulse job on `target` with these times and count.
pub open spec fn pulse_job(target: RouteChannel, on_ms: u64, off_ms: u64, count: u32) -> Job {
    Job { target, effect: Effect::Pulse { on_ms, off_ms, count } }
}

proof fn lemma_pulse_cycle_len(job: Job, c: nat)
    requires
        job.effect is Pulse,
    ensures
        cycle_actions(job, c).len() == 2 * on_bytes(job.target).len() + 1 + (if c + 1 < cycle_count(
            job.effect,
        )->0 {
            1int
        } else {
            0int
        }),
{
    lemma_cycle_shape(job, c);
}

proof fn lemma_pulse_trace_len(job: Job, c: nat)
    requires
        job.effect is Pulse,
        c <= cycle_count(job.effect)->0,
    ensures
        trace_from(job, c).len() == (if c == cycle_count(job.effect)->0 {
            1int
        } else {
            (cycle_count(job.effect)->0 - c) * (2 * on_bytes(job.target).len() + 2)
        }),
    decreases cycle_count(job.effect)->0 - c,
{
    let n = cycle_count(job.effect)->0;
    let k = 2 * on_bytes(job.target).len() + 2;
    if c < n {
        assert(trace_from(job, c) == cycle_actions(job, c) + trace_from(job, c + 1));
        lemma_pulse_trace_len(job, c + 1);
        lemma_pulse_cycle_len(job, c);
        if c + 1 < n {
            assert((n - c) * k == (n - c - 1) * k + k) by (nonlinear_arith);
        } else {
            assert((n - c) * k == k) by (nonlinear_arith)
                requires
                    c + 1 == n,
            ;
        }
    }
}

proof fn lemma_pulse_trace_index(job: Job, c: nat, i: nat, j: int)
    requires
        job.effect is Pulse,
        c <= i < cycle_count(job.effect)->0,
        0 <= j < cycle_actions(job, i).len(),
    ensures
        trace_from(job, c)[(i - c) * (2 * on_bytes(job.target).len() + 2) + j] == cycle_actions(
            job,
            i,
        )[j],
    decreases i - c,
{
    let k = 2 * on_bytes(job.target).len() + 2;
    let ca = cycle_actions(job, c);
    let rest = trace_from(job, c + 1);
    assert(trace_from(job, c) == ca + rest);
    if i == c {
        assert((i - c) * k + j == j) by (nonlinear_arith)
            requires
                i == c,
        ;
    } else {
        lemma_pulse_trace_index(job, c + 1, i, j);
        lemma_pulse_cycle_len(job, c);
        assert(ca.len() == k);
        assert((i - c) * k + j == k + ((i - (c + 1)) * k + j)) by (nonlinear_arith);
        lemma_pulse_trace_len(job, c + 1);
        lemma_pulse_cycle_len(job, i);
        let n = cycle_count(job.effect)->0;
        assert(cycle_actions(job, i).len() <= k);
        assert(0 <= (i - (c + 1)) * k + j < (n - (c + 1)) * k) by (nonlinear_arith)
            requires
                c < i < n,
                k >= 0,
                0 <= j < k,
        ;
        assert((ca + rest)[k + ((i - (c + 1)) * k + j)] == rest[(i - (c + 1)) * k + j]);
    }
}

/// The run of a pulse of `count` blinks: blink `i` (counted from 0) sends
/// the target's on bytes, sleeps `on_ms`, sends its off bytes, and then
/// sleeps `off_ms` when another blink follows, or finishes with the target's
/// channels off after the last one. A pulse of no blinks only finishes.
pub proof fn lemma_pulse_timing(target: RouteChannel, on_ms: u64, off_ms: u64, count: u32, i: nat)
    ensures
        ({
            let t = trace(pulse_job(target, on_ms, off_ms, count));
            let m = on_bytes(target).len() as int;
            let b = i * (2 * m + 2);
            &&& count == 0 ==> t == seq![EffectAction::Finish(end_update(target))]
            &&& count > 0 ==> t.len() == count * (2 * m + 2)
            &&& i < count ==> {
                &&& forall|j: int| 0 <= j < m ==> t[b + j] == EffectAction::Send(on_bytes(target)[j])
                &&& t[b + m] == EffectAction::Sleep(on_ms)
                &&& forall|j: int|
                    0 <= j < m ==> t[b + m + 1 + j] == EffectAction::Send(off_bytes(target)[j])
                &&& i + 1 < count ==> t[b + 2 * m + 1] == EffectAction::Sleep(off_ms)
                &&& i + 1 == count ==> t[b + 2 * m + 1] == EffectAction::Finish(
                    end_update(target),
                )
            }
        }),
{
    let job = pulse_job(target, on_ms, off_ms, count);
    let m = on_bytes(target).len() as int;
    let k = 2 * m + 2;
    let b = i * k;
    let n = count as nat;
    assert(off_bytes(target).len() == m);
    lemma_pulse_trace_len(job, 0);
    if i < n {
        lemma_cycle_shape(job, i);
        lemma_pulse_cycle_len(job, i);
        let ca = cycle_actions(job, i);
        assert forall|j: int| 0 <= j < m implies trace(job)[b + j] == EffectAction::Send(
            on_bytes(target)[j],
        ) by {
            lemma_pulse_trace_index(job, 0, i, j);
        }
        lemma_pulse_trace_index(job, 0, i, m);
        assert forall|j: int| 0 <= j < m implies trace(job)[b + m + 1 + j] == EffectAction::Send(
            off_bytes(target)[j],
        ) by {
            lemma_pulse_trace_index(job, 0, i, m + 1 + j);
        }
        if i + 1 < n {
            lemma_pulse_trace_index(job, 0, i, 2 * m + 1);
        } else {
            lemma_trace_from_occurrences_last(job);
            assert(b + 2 * m + 1 == n * k - 1) by (nonlinear_arith)
                requires
                    i + 1 == n,
                    b == i * k,
                    k == 2 * m + 2,
            ;
        }
    }
}

/// When a job starts, each channel it drives shows that job: a blink or a
/// pulse with the job's own times (and all its blinks still to come), a
/// timed run or a sequence as `On`, as its run begins by sending the on
/// bytes; yellow mode is on exactly for a yellow job.
pub proof fn lemma_start_shows_job(light: LightState, job: Job, ch: PhysicalChannel)
    requires
        drives(job.target, ch),
    ensures
        ({
            let st = light.updated(begin_update(job)).channel(ch);
            &&& job.effect matches Effect::SwBlink { on_ms, off_ms } ==> st == (ChannelState::SwBlink {
                on_ms,
                off_ms,
            })
            &&& job.effect matches Effect::Pulse { on_ms, off_ms, count } ==> st
                == (ChannelState::Pulse { on_ms, off_ms, remaining: count })
            &&& job.effect is Timed ==> st == ChannelState::On
            &&& job.effect is Sequence ==> st == ChannelState::On
        }),
        light.updated(begin_update(job)).yellow == (job.target == RouteChannel::Yellow),
        (job.effect is Timed || (job.effect matches Effect::Sequence { steps } && steps@.len()
            > 0)) ==> trace(job)[0] == EffectAction::Send(on_bytes(job.target)[0]),
{
    if job.effect is Timed || (job.effect matches Effect::Sequence { steps } && steps@.len() > 0) {
        lemma_cycle_shape(job, 0);
        assert(trace(job) == cycle_actions(job, 0) + trace_from(job, 1));
    }
}

/// The action a runner emits after `k` earlier actions.
pub open spec fn nth_action(job: Job, k: nat) -> EffectAction {
    let (c, p, d) = position_after(job, k);
    runner_action(job, c, p, d)
}

proof fn lemma_blink_position(job: Job, k: nat)
    requires
        job.effect is SwBlink,
    ensures
        position_after(job, k) == (0nat, k % (2 * on_bytes(job.target).len() + 2) as nat, false),
    decreases k,
{
    let l = 2 * on_bytes(job.target).len() + 2;
    lemma_cycle_shape(job, 0);
    assert(cycle_actions(job, 0).len() == l);
    if k == 0 {
        assert(0nat % l as nat == 0) by (nonlinear_arith)
            requires
                l > 0,
        ;
    } else {
        lemma_blink_position(job, (k - 1) as nat);
        let p = ((k - 1) as nat) % (l as nat);
        assert(p < l) by (nonlinear_arith)
            requires
                l > 0,
                p == ((k - 1) as nat) % (l as nat),
        ;
        if p + 1 < l {
            assert(k % (l as nat) == p + 1) by (nonlinear_arith)
                requires
                    l > 0,
                    k > 0,
                    p == ((k - 1) as nat) % (l as nat),
                    p + 1 < l,
            ;
        } else {
            assert(k % (l as nat) == 0) by (nonlinear_arith)
                requires
                    l > 0,
                    k > 0,
                    p == ((k - 1) as nat) % (l as nat),
                    p + 1 == l,
            ;
        }
    }
}

/// A software blink repeats forever, every `2m + 2` actions for a target of
/// `m` on bytes: its on bytes, a sleep of `on_ms`, its off bytes, a sleep of
/// `off_ms`.
pub proof fn lemma_blink_timing(target: RouteChannel, on_ms: u64, off_ms: u64, k: nat)
    ensures
        ({
            let job = Job { target, effect: Effect::SwBlink { on_ms, off_ms } };
            let m = on_bytes(target).len() as int;
            let q = (k % (2 * m + 2) as nat) as int;
            &&& 0 <= q < m ==> nth_action(job, k) == EffectAction::Send(on_bytes(target)[q])
            &&& q == m ==> nth_action(job, k) == EffectAction::Sleep(on_ms)
            &&& m < q <= 2 * m ==> nth_action(job, k) == EffectAction::Send(
                off_bytes(target)[q - m - 1],
            )
            &&& q == 2 * m + 1 ==> nth_action(job, k) == EffectAction::Sleep(off_ms)
        }),
{
    let job = Job { target, effect: Effect::SwBlink { on_ms, off_ms } };
    lemma_blink_position(job, k);
    lemma_cycle_shape(job, 0);
}

/// A timed run sends the target's on bytes, sleeps `duration_ms`, sends its
/// off bytes and finishes with its channels off.
pub proof fn lemma_timed_run(target: RouteChannel, duration_ms: u64)
    ensures
        trace(Job { target, effect: Effect::Timed { duration_ms } }) == sends(on_bytes(target))
            + seq![EffectAction::Sleep(duration_ms)] + sends(off_bytes(target)) + seq![
            EffectAction::Finish(end_update(target)),
        ],
{
    let job = Job { target, effect: Effect::Timed { duration_ms } };
    assert(trace(job) == cycle_actions(job, 0) + trace_from(job, 1));
}

/// Step `c` of a sequence sends the target's on bytes, sleeps the step's on
/// time, sends the off bytes, sleeps the step's off time only when it is not
/// zero, and goes on with the next step; after the last step the run
/// finishes with the target's channels off.
pub proof fn lemma_sequence_run(job: Job, c: nat)
    requires
        job.effect is Sequence,
    ensures
        job.effect matches Effect::Sequence { steps } ==> {
            &&& c < steps@.len() ==> trace_from(job, c) == sends(on_bytes(job.target)) + seq![
                EffectAction::Sleep(steps@[c as int].0),
            ] + sends(off_bytes(job.target)) + (if steps@[c as int].1 > 0 {
                seq![EffectAction::Sleep(steps@[c as int].1)]
            } else {
                seq![]
            }) + trace_from(job, c + 1)
            &&& c == steps@.len() ==> trace_from(job, c) == seq![
                EffectAction::Finish(end_update(job.target)),
            ]
        },
{
}

} // verus!
