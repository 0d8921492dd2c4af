use vstd::prelude::*;

use crate::hardware::{blink_byte, lemma_command_bytes_distinct, off_byte, on_byte};
use crate::state::{restamped, ChannelState, LightState, PhysicalChannel};

verus! {

/// How often the monitor probes for a reappeared device while disconnected.
pub const POLL_INTERVAL_MS: u64 = 2000;

// ── State restore after reconnect ─────────────────────────────────────────────

/// The byte that re-asserts a static channel state on a fresh device; the
/// software effects are driven by their own tasks and get none.
pub open spec fn restore_byte(ch: PhysicalChannel, st: ChannelState) -> Option<u8> {
    match st {
        ChannelState::Off => Some(off_byte(ch)),
        ChannelState::On => Some(on_byte(ch)),
        ChannelState::HwBlink => Some(blink_byte(ch)),
        ChannelState::SwBlink { .. } => None,
        ChannelState::Pulse { .. } => None,
    }
}

pub open spec fn opt_bytes(b: Option<u8>) -> Seq<u8> {
    match b {
        Some(x) => seq![x],
        None => seq![],
    }
}

/// The bytes that bring a freshly opened device in line with `light`, in
/// hardware channel order.
pub open spec fn restore_bytes(light: LightState) -> Seq<u8> {
    opt_bytes(restore_byte(PhysicalChannel::Red, light.red))
        + opt_bytes(restore_byte(PhysicalChannel::Orange, light.orange))
        + opt_bytes(restore_byte(PhysicalChannel::Green, light.green))
        + opt_bytes(restore_byte(PhysicalChannel::Buzzer, light.buzzer))
}

fn push_restore(out: &mut Vec<u8>, ch: PhysicalChannel, st: &ChannelState)
    ensures
        final(out)@ == old(out)@ + opt_bytes(restore_byte(ch, *st)),
{
    let (on, off, blink) = ch.hw_commands();
    match st {
        ChannelState::Off => out.push(off),
        ChannelState::On => out.push(on),
        ChannelState::HwBlink => out.push(blink),
        ChannelState::SwBlink { .. } => {},
        ChannelState::Pulse { .. } => {},
    }
    assert(final(out)@ =~= old(out)@ + opt_bytes(restore_byte(ch, *st)));
}

/// The commands that push the logical light state onto a freshly opened
/// device: static states (`Off`, `On`, `HwBlink`) are re-sent, channels
/// driven by a live effect task are left to it.
pub fn restore_commands(light: &LightState) -> (r: Vec<u8>)
    ensures
        r@ == restore_bytes(*light),
{
    let mut out: Vec<u8> = Vec::new();
    push_restore(&mut out, PhysicalChannel::Red, &light.red);
    push_restore(&mut out, PhysicalChannel::Orange, &light.orange);
    push_restore(&mut out, PhysicalChannel::Green, &light.green);
    push_restore(&mut out, PhysicalChannel::Buzzer, &light.buzzer);
    assert(out@ =~= restore_bytes(*light));
    out
}

/// After a reconnect, every channel whose state is `Off`, `On` or
/// `HwBlink` gets its own off, on or blink byte re-sent, while a channel
/// driven by a live effect gets no byte of its own; what is sent does not
/// depend on the yellow flag.
pub proof fn lemma_restore_resends_static_states(light: LightState, ch: PhysicalChannel)
    ensures
        light.channel(ch) == ChannelState::Off ==> restore_bytes(light).contains(off_byte(ch)),
        light.channel(ch) == ChannelState::On ==> restore_bytes(light).contains(on_byte(ch)),
        light.channel(ch) == ChannelState::HwBlink ==> restore_bytes(light).contains(
            blink_byte(ch),
        ),
        (light.channel(ch) is SwBlink || light.channel(ch) is Pulse) ==> {
            &&& !restore_bytes(light).contains(off_byte(ch))
            &&& !restore_bytes(light).contains(on_byte(ch))
            &&& !restore_bytes(light).contains(blink_byte(ch))
        },
        restore_bytes(light) == restore_bytes(LightState { yellow: !light.yellow, ..light }),
{
    let r = opt_bytes(restore_byte(PhysicalChannel::Red, light.red));
    let o = opt_bytes(restore_byte(PhysicalChannel::Orange, light.orange));
    let g = opt_bytes(restore_byte(PhysicalChannel::Green, light.green));
    let z = opt_bytes(restore_byte(PhysicalChannel::Buzzer, light.buzzer));
    let all = restore_bytes(light);
    assert(all == r + o + g + z);
    let mine = opt_bytes(restore_byte(ch, light.channel(ch)));
    if mine.len() > 0 {
        let idx: int = match ch {
            PhysicalChannel::Red => 0,
            PhysicalChannel::Orange => r.len() as int,
            PhysicalChannel::Green => (r.len() + o.len()) as int,
            PhysicalChannel::Buzzer => (r.len() + o.len() + g.len()) as int,
        };
        assert(all[idx] == mine[0]);
    }
    if light.channel(ch) is SwBlink || light.channel(ch) is Pulse {
        assert forall|b: u8| #[trigger] all.contains(b) implies b != off_byte(ch) && b != on_byte(
            ch,
        ) && b != blink_byte(ch) by {
            let k = choose|k: int| 0 <= k < all.len() && all[k] == b;
            lemma_command_bytes_distinct(ch, PhysicalChannel::Red);
            lemma_command_bytes_distinct(ch, PhysicalChannel::Orange);
            lemma_command_bytes_distinct(ch, PhysicalChannel::Green);
            lemma_command_bytes_distinct(ch, PhysicalChannel::Buzzer);
            if k < r.len() {
                assert(b == r[k]);
            } else if k < r.len() + o.len() {
                assert(b == o[k - r.len()]);
            } else if k < r.len() + o.len() + g.len() {
                assert(b == g[k - r.len() - o.len()]);
            } else {
                assert(b == z[k - r.len() - o.len() - g.len()]);
            }
        }
    }
}

// ── Reconnect monitor ─────────────────────────────────────────────────────────

/// Where the reconnect monitor is in one probe.
#[derive(Debug, Clone, Copy, PartialEq, Eq, Structural)]
pub enum MonitorPhase {
    /// Sleeping until the next poll.
    Idle,
    /// Opening the device at the resolved port.
    Opening,
    /// A fresh device is open and no other handle appeared: replaying the
    /// logical state onto it.
    Restoring,
}

/// What the monitor learned since its last action.
#[derive(Debug, Clone, Copy, PartialEq, Eq, Structural)]
pub enum MonitorEvent {
    /// The poll interval passed; `connected` tells whether a handle is held.
    Tick { connected: bool },
    /// The port could not be opened.
    OpenFailed,
    /// The port was opened; under the handle's lock, `connected` tells
    /// whether someone else published a handle meanwhile.
    Opened { connected: bool },
    /// The restore commands were sent to the fresh device.
    Restored,
}

/// What the monitor does next.
#[derive(Debug, Clone, Copy, PartialEq, Eq, Structural)]
pub enum MonitorAction {
    /// Sleep until the next poll.
    Wait,
    /// Resolve the port and open it.
    Open,
    /// Drop the freshly opened device: a handle is already held.
    Discard,
    /// Send `restore_commands` of the current light state to the fresh device.
    Restore,
    /// Make the fresh device the shared handle.
    Publish,
}

/// The monitor's decision table.
pub open spec fn monitor_transition(phase: MonitorPhase, event: MonitorEvent) -> (MonitorPhase, MonitorAction) {
    match (phase, event) {
        (MonitorPhase::Idle, MonitorEvent::Tick { connected }) => if connected {
            (MonitorPhase::Idle, MonitorAction::Wait)
        } else {
            (MonitorPhase::Opening, MonitorAction::Open)
        },
        (MonitorPhase::Opening, MonitorEvent::OpenFailed) => (MonitorPhase::Idle, MonitorAction::Wait),
        (MonitorPhase::Opening, MonitorEvent::Opened { connected }) => if connected {
            (MonitorPhase::Idle, MonitorAction::Discard)
        } else {
            (MonitorPhase::Restoring, MonitorAction::Restore)
        },
        (MonitorPhase::Restoring, MonitorEvent::Restored) => (MonitorPhase::Idle, MonitorAction::Publish),
        _ => (MonitorPhase::Idle, MonitorAction::Wait),
    }
}

/// One step of the reconnect monitor: while a handle is held it only waits;
/// once disconnected it opens the device and, on the first successful reopen
/// with no other handle published, replays the logical state before it
/// publishes the handle.
pub fn monitor_step(phase: MonitorPhase, event: MonitorEvent) -> (r: (MonitorPhase, MonitorAction))
    ensures
        r == monitor_transition(phase, event),
{
    match (phase, event) {
        (MonitorPhase::Idle, MonitorEvent::Tick { connected }) => if connected {
            (MonitorPhase::Idle, MonitorAction::Wait)
        } else {
            (MonitorPhase::Opening, MonitorAction::Open)
        },
        (MonitorPhase::Opening, MonitorEvent::OpenFailed) => (MonitorPhase::Idle, MonitorAction::Wait),
        (MonitorPhase::Opening, MonitorEvent::Opened { connected }) => if connected {
            (MonitorPhase::Idle, MonitorAction::Discard)
        } else {
            (MonitorPhase::Restoring, MonitorAction::Restore)
        },
        (MonitorPhase::Restoring, MonitorEvent::Restored) => (MonitorPhase::Idle, MonitorAction::Publish),
        _ => (MonitorPhase::Idle, MonitorAction::Wait),
    }
}

/// The phases and actions of a run of the monitor over `events`, from `phase`.
pub open spec fn monitor_run(phase: MonitorPhase, events: Seq<MonitorEvent>) -> Seq<(MonitorPhase, MonitorAction)>
    decreases events.len(),
{
    if events.len() == 0 {
        seq![]
    } else {
        let step = monitor_transition(phase, events[0]);
        seq![step] + monitor_run(step.0, events.drop_first())
    }
}

proof fn lemma_run_index(phase: MonitorPhase, events: Seq<MonitorEvent>, i: int)
    requires
        0 <= i < events.len(),
    ensures
        monitor_run(phase, events).len() == events.len(),
        monitor_run(phase, events)[i] == monitor_transition(
            if i == 0 { phase } else { monitor_run(phase, events)[i - 1].0 },
            events[i],
        ),
    decreases events.len(),
{
    let step = monitor_transition(phase, events[0]);
    let rest = monitor_run(step.0, events.drop_first());
    if i > 0 {
        lemma_run_index(step.0, events.drop_first(), i - 1);
        assert(events.drop_first()[i - 1] == events[i]);
    } else if events.len() > 1 {
        lemma_run_index(step.0, events.drop_first(), 0);
    }
    if events.len() == 1 {
        assert(rest =~= Seq::<(MonitorPhase, MonitorAction)>::empty());
    }
}

/// In any run of the monitor, a device is published only right after its
/// restore: every `Publish` follows a `Restore` one step earlier, and the
/// restore was decided with no handle held.
pub proof fn lemma_publish_after_restore(phase: MonitorPhase, events: Seq<MonitorEvent>, i: int)
    requires
        phase == MonitorPhase::Idle,
        0 <= i < events.len(),
        monitor_run(phase, events)[i].1 == MonitorAction::Publish,
    ensures
        i >= 1,
        monitor_run(phase, events)[i - 1].1 == MonitorAction::Restore,
        events[i - 1] == (MonitorEvent::Opened { connected: false }),
{
    lemma_run_index(phase, events, i);
    if i >= 1 {
        lemma_run_index(phase, events, i - 1);
        if i >= 2 {
            lemma_run_index(phase, events, i - 2);
        }
    }
}

// ── Boot ──────────────────────────────────────────────────────────────────────

impl LightState {
    /// The boot state: everything off but green, which signals ready.
    pub fn boot_ready(&mut self)
        ensures
            final(self).red == ChannelState::Off,
            final(self).orange == ChannelState::Off,
            final(self).green == ChannelState::On,
            final(self).buzzer == ChannelState::Off,
            !final(self).yellow,
            restamped(old(self).last_updated, final(self).last_updated),
    {
        self.clear();
        self.green = ChannelState::On;
    }
}

} // verus!
