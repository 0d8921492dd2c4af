use vstd::prelude::*;

use crate::engine::{channel_index, slot_of, Effect, EffectView, Job, YELLOW_TASK_IDX};
use crate::hardware::{
    all_off_bytes, all_off_commands, blink_byte, off_byte, on_byte, HW_GREEN_OFF, HW_GREEN_ON,
    HW_ORANGE_OFF, HW_ORANGE_ON, HW_RED_OFF, HW_RED_ON,
};
use crate::state::{
    restamped,
    parse_route_channel, route_channel_of, route_name, lowercase_of, ChannelState, LightState,
    LightUpdate, PhysicalChannel, RouteChannel,
};

verus! {

// ── Response / request schemas ────────────────────────────────────────────────

pub const STATUS_OK: u16 = 200;
pub const STATUS_BAD_REQUEST: u16 = 400;
pub const STATUS_NOT_FOUND: u16 = 404;
pub const STATUS_INTERNAL_ERROR: u16 = 500;
pub const STATUS_UNAVAILABLE: u16 = 503;

/// Body of every control response.
#[derive(Debug)]
pub struct ApiOk {
    pub ok: bool,
    pub message: Option<String>,
}

/// Answer to `GET /status`.
#[derive(Debug)]
pub struct StatusResponse {
    pub connected: bool,
    pub light: LightState,
}

/// Body of `POST /set`: a channel left out is left unchanged.
#[derive(Debug)]
pub struct SetAllBody {
    pub red: Option<bool>,
    pub orange: Option<bool>,
    pub green: Option<bool>,
    pub buzzer: Option<bool>,
}

/// Body of `POST /:channel/blink`.
#[derive(Debug)]
pub struct BlinkBody {
    pub on_ms: u64,
    pub off_ms: u64,
}

/// Body of `POST /:channel/pulse`.
#[derive(Debug)]
pub struct PulseBody {
    pub count: u32,
    pub on_ms: u64,
    pub off_ms: u64,
}

/// Body of `POST /:channel/timed`.
#[derive(Debug)]
pub struct TimedBody {
    pub duration_ms: u64,
}

/// One step of a sequence.
#[derive(Debug)]
pub struct SequenceStep {
    pub on_ms: u64,
    pub off_ms: u64,
}

/// Body of `POST /:channel/sequence`.
#[derive(Debug)]
pub struct SequenceBody {
    pub steps: Vec<SequenceStep>,
}

/// Default on/off time of a software blink.
pub fn default_500() -> (r: u64)
    ensures
        r == 500,
{
    500
}

/// Default on/off time of a pulse.
pub fn default_200() -> (r: u64)
    ensures
        r == 200,
{
    200
}

/// A channel's (on, off, blink) command bytes.
pub fn hw_on_off_blink(ch: PhysicalChannel) -> (r: (u8, u8, u8))
    ensures
        r == (on_byte(ch), off_byte(ch), blink_byte(ch)),
{
    ch.hw_commands()
}

// ── Replies ───────────────────────────────────────────────────────────────────

/// An HTTP status with its JSON body.
#[derive(Debug)]
pub struct Reply {
    pub status: u16,
    pub body: ApiOk,
}

pub struct ReplyView {
    pub status: u16,
    pub ok: bool,
    pub message: Option<Seq<char>>,
}

impl View for Reply {
    type V = ReplyView;

    open spec fn view(&self) -> ReplyView {
        ReplyView {
            status: self.status,
            ok: self.body.ok,
            message: match self.body.message {
                Some(m) => Some(m@),
                None => None,
            },
        }
    }
}

pub open spec fn success(msg: Seq<char>) -> ReplyView {
    ReplyView { status: STATUS_OK, ok: true, message: Some(msg) }
}

pub open spec fn failure(status: u16, msg: Seq<char>) -> ReplyView {
    ReplyView { status, ok: false, message: Some(msg) }
}

/// A successful reply with a message.
pub fn ok(msg: String) -> (r: Reply)
    ensures
        r@ == success(msg@),
{
    Reply { status: STATUS_OK, body: ApiOk { ok: true, message: Some(msg) } }
}

/// A failed reply with a status and a message.
pub fn err(status: u16, msg: String) -> (r: Reply)
    ensures
        r@ == failure(status, msg@),
{
    Reply { status, body: ApiOk { ok: false, message: Some(msg) } }
}

pub open spec fn no_hw_message() -> Seq<char> {
    "Tower light not connected — device not found on USB"@
}

/// The reply when the tower light cannot be reached.
pub fn no_hw() -> (r: Reply)
    ensures
        r@ == failure(STATUS_UNAVAILABLE, no_hw_message()),
{
    err(STATUS_UNAVAILABLE, "Tower light not connected — device not found on USB".to_owned())
}

/// The reply when writing to the device failed with `error`.
pub fn hardware_error(error: String) -> (r: Reply)
    ensures
        r@ == failure(STATUS_INTERNAL_ERROR, error@),
{
    err(STATUS_INTERNAL_ERROR, error)
}

// ── Decimal numbers in messages ───────────────────────────────────────────────

pub open spec fn digit_char(d: nat) -> char {
    ((48 + d) as u8) as char
}

/// The decimal digits of `n`, most significant first.
pub open spec fn decimal(n: nat) -> Seq<char>
    decreases n,
{
    if n < 10 {
        seq![digit_char(n)]
    } else {
        decimal(n / 10) + seq![digit_char(n % 10)]
    }
}

fn digit_text(d: u64) -> (r: &'static str)
    requires
        d < 10,
    ensures
        r@ == seq![digit_char(d as nat)],
{
    proof {
        reveal_strlit("0");
        reveal_strlit("1");
        reveal_strlit("2");
        reveal_strlit("3");
        reveal_strlit("4");
        reveal_strlit("5");
        reveal_strlit("6");
        reveal_strlit("7");
        reveal_strlit("8");
        reveal_strlit("9");
    }
    if d == 0 {
        "0"
    } else if d == 1 {
        "1"
    } else if d == 2 {
        "2"
    } else if d == 3 {
        "3"
    } else if d == 4 {
        "4"
    } else if d == 5 {
        "5"
    } else if d == 6 {
        "6"
    } else if d == 7 {
        "7"
    } else if d == 8 {
        "8"
    } else {
        "9"
    }
}

/// Append the decimal digits of `n`.
pub fn push_decimal(s: &mut String, n: u64)
    ensures
        final(s)@ == old(s)@ + decimal(n as nat),
    decreases n,
{
    if n >= 10 {
        push_decimal(s, n / 10);
    }
    s.append(digit_text(n % 10));
    assert(final(s)@ =~= old(s)@ + decimal(n as nat));
}

// ── Request plans ─────────────────────────────────────────────────────────────

/// What a request does once the tower light is connected.
#[derive(Debug)]
pub enum Operation {
    /// Cancel the tasks in `cancel` and write `commands` in order; only
    /// when every write succeeded, apply `updates` in order and answer
    /// `message`. A failed write ends the request with a hardware error and
    /// leaves the light state as it was.
    Apply { cancel: Vec<usize>, commands: Vec<u8>, updates: Vec<LightUpdate>, message: String },
    /// Cancel the tasks in `cancel`, start `job`, answer `message`.
    Start { cancel: Vec<usize>, job: Job, message: String },
    /// Answer without touching the hardware.
    Refuse(Reply),
}

pub enum OperationView {
    Apply { cancel: Seq<usize>, commands: Seq<u8>, updates: Seq<LightUpdate>, message: Seq<char> },
    Start { cancel: Seq<usize>, target: RouteChannel, effect: EffectView, message: Seq<char> },
    Refuse(ReplyView),
}

impl View for Operation {
    type V = OperationView;

    open spec fn view(&self) -> OperationView {
        match self {
            Operation::Apply { cancel, commands, updates, message } => OperationView::Apply {
                cancel: cancel@,
                commands: commands@,
                updates: updates@,
                message: message@,
            },
            Operation::Start { cancel, job, message } => OperationView::Start {
                cancel: cancel@,
                target: job.target,
                effect: job.effect@,
                message: message@,
            },
            Operation::Refuse(r) => OperationView::Refuse(r@),
        }
    }
}

/// A request is either answered at once, or needs the tower light connected
/// before its operation runs (and is answered with `no_hw` when it cannot be).
#[derive(Debug)]
pub enum Gate {
    Answer(Reply),
    Connect(Operation),
}

pub enum GateView {
    Answer(ReplyView),
    Connect(OperationView),
}

impl View for Gate {
    type V = GateView;

    open spec fn view(&self) -> GateView {
        match self {
            Gate::Answer(r) => GateView::Answer(r@),
            Gate::Connect(op) => GateView::Connect(op@),
        }
    }
}

/// What a per-channel route asks for.
#[derive(Debug)]
pub enum ChannelCommand {
    On,
    Off,
    HwBlink,
    Blink(BlinkBody),
    Pulse(PulseBody),
    Timed(TimedBody),
    Sequence(SequenceBody),
}

pub enum CommandView {
    On,
    Off,
    HwBlink,
    Blink { on_ms: u64, off_ms: u64 },
    Pulse { count: u32, on_ms: u64, off_ms: u64 },
    Timed { duration_ms: u64 },
    Sequence { steps: Seq<(u64, u64)> },
}

pub open spec fn step_pairs(steps: Seq<SequenceStep>) -> Seq<(u64, u64)> {
    steps.map_values(|s: SequenceStep| (s.on_ms, s.off_ms))
}

impl View for ChannelCommand {
    type V = CommandView;

    open spec fn view(&self) -> CommandView {
        match self {
            ChannelCommand::On => CommandView::On,
            ChannelCommand::Off => CommandView::Off,
            ChannelCommand::HwBlink => CommandView::HwBlink,
            ChannelCommand::Blink(b) => CommandView::Blink { on_ms: b.on_ms, off_ms: b.off_ms },
            ChannelCommand::Pulse(b) => CommandView::Pulse {
                count: b.count,
                on_ms: b.on_ms,
                off_ms: b.off_ms,
            },
            ChannelCommand::Timed(b) => CommandView::Timed { duration_ms: b.duration_ms },
            ChannelCommand::Sequence(b) => CommandView::Sequence { steps: step_pairs(b.steps@) },
        }
    }
}

pub open spec fn one_step(
    cancel: Seq<usize>,
    commands: Seq<u8>,
    update: LightUpdate,
    message: Seq<char>,
) -> OperationView {
    OperationView::Apply { cancel, commands, updates: seq![update], message }
}

/// A manual change of a physical channel stops that channel's task and,
/// since it leaves yellow mode, the yellow task.
pub open spec fn manual_cancel(ch: PhysicalChannel) -> Seq<usize> {
    seq![slot_of(ch) as usize, YELLOW_TASK_IDX]
}

/// Starting an effect on a physical channel first cancels that channel's
/// task and the yellow task; a yellow effect stops red, orange and green
/// itself when it starts.
pub open spec fn start_cancel(t: RouteChannel) -> Seq<usize> {
    match t {
        RouteChannel::Physical(ch) => manual_cancel(ch),
        RouteChannel::Yellow => seq![],
    }
}

pub open spec fn start(t: RouteChannel, e: EffectView, message: Seq<char>) -> OperationView {
    OperationView::Start { cancel: start_cancel(t), target: t, effect: e, message }
}

pub open spec fn unknown_channel_message(channel: Seq<char>) -> Seq<char> {
    "Unknown channel: "@ + channel
}

/// How a per-channel request is handled, given the channel its path names
/// (if any), the raw path segment, the command and whether yellow mode is on.
pub open spec fn channel_plan(
    route: Option<RouteChannel>,
    channel: Seq<char>,
    cmd: CommandView,
    yellow_active: bool,
) -> GateView {
    match route {
        None => GateView::Answer(failure(STATUS_NOT_FOUND, unknown_channel_message(channel))),
        Some(t) => match cmd {
            CommandView::On => match t {
                RouteChannel::Yellow => GateView::Connect(
                    one_step(
                        seq![0usize, 1, 2, YELLOW_TASK_IDX],
                        seq![HW_RED_ON, HW_ORANGE_ON, HW_GREEN_ON],
                        LightUpdate::Yellow(ChannelState::On, true),
                        "yellow on"@,
                    ),
                ),
                RouteChannel::Physical(ch) => GateView::Connect(
                    one_step(
                        manual_cancel(ch),
                        seq![on_byte(ch)],
                        LightUpdate::Channel(ch, ChannelState::On),
                        route_name(t) + " on"@,
                    ),
                ),
            },
            CommandView::Off => match t {
                RouteChannel::Yellow => if !yellow_active {
                    GateView::Answer(success("yellow was not active, nothing changed"@))
                } else {
                    GateView::Connect(
                        one_step(
                            seq![YELLOW_TASK_IDX],
                            seq![HW_RED_OFF, HW_ORANGE_OFF, HW_GREEN_OFF],
                            LightUpdate::Yellow(ChannelState::Off, false),
                            "yellow off"@,
                        ),
                    )
                },
                RouteChannel::Physical(ch) => GateView::Connect(
                    one_step(
                        manual_cancel(ch),
                        seq![off_byte(ch)],
                        LightUpdate::Channel(ch, ChannelState::Off),
                        route_name(t) + " off"@,
                    ),
                ),
            },
            CommandView::HwBlink => match t {
                RouteChannel::Yellow => GateView::Answer(
                    failure(
                        STATUS_BAD_REQUEST,
                        "hardware blink not supported for yellow — use /yellow/blink"@,
                    ),
                ),
                RouteChannel::Physical(ch) => GateView::Connect(
                    one_step(
                        manual_cancel(ch),
                        seq![blink_byte(ch)],
                        LightUpdate::Channel(ch, ChannelState::HwBlink),
                        route_name(t) + " hardware blink"@,
                    ),
                ),
            },
            CommandView::Blink { on_ms, off_ms } => GateView::Connect(
                start(
                    t,
                    EffectView::SwBlink { on_ms, off_ms },
                    route_name(t) + " blinking ("@ + decimal(on_ms as nat) + "ms on / "@ + decimal(
                        off_ms as nat,
                    ) + "ms off)"@,
                ),
            ),
            CommandView::Pulse { count, on_ms, off_ms } => GateView::Connect(
                start(
                    t,
                    EffectView::Pulse { on_ms, off_ms, count },
                    route_name(t) + " pulse "@ + decimal(count as nat) + "x"@,
                ),
            ),
            CommandView::Timed { duration_ms } => GateView::Connect(
                start(
                    t,
                    EffectView::Timed { duration_ms },
                    route_name(t) + " on for "@ + decimal(duration_ms as nat) + "ms"@,
                ),
            ),
            CommandView::Sequence { steps } => if steps.len() == 0 {
                GateView::Connect(
                    OperationView::Refuse(failure(STATUS_BAD_REQUEST, "steps cannot be empty"@)),
                )
            } else {
                GateView::Connect(
                    start(
                        t,
                        EffectView::Sequence { steps },
                        route_name(t) + " sequence ("@ + decimal(steps.len()) + " steps)"@,
                    ),
                )
            },
        },
    }
}

fn single_step(cancel: Vec<usize>, commands: Vec<u8>, update: LightUpdate, message: String) -> (r:
    Operation)
    ensures
        r@ == one_step(cancel@, commands@, update, message@),
{
    let ghost u = update;
    let mut updates: Vec<LightUpdate> = Vec::new();
    updates.push(update);
    assert(updates@ =~= seq![u]);
    Operation::Apply { cancel, commands, updates, message }
}

fn manual_cancel_slots(ch: PhysicalChannel) -> (r: Vec<usize>)
    ensures
        r@ == manual_cancel(ch),
{
    let r = vec![channel_index(ch), YELLOW_TASK_IDX];
    assert(r@ =~= manual_cancel(ch));
    r
}

fn start_op(t: RouteChannel, effect: Effect, message: String) -> (r: Operation)
    ensures
        r@ == start(t, effect@, message@),
{
    let cancel = match t {
        RouteChannel::Physical(ch) => manual_cancel_slots(ch),
        RouteChannel::Yellow => {
            let v: Vec<usize> = Vec::new();
            assert(v@ =~= start_cancel(t));
            v
        },
    };
    Operation::Start { cancel, job: Job { target: t, effect }, message }
}

/// The message prefix naming a channel.
fn name_text(t: RouteChannel) -> (r: String)
    ensures
        r@ == route_name(t),
{
    t.name().to_owned()
}

fn sequence_pairs(steps: &Vec<SequenceStep>) -> (r: Vec<(u64, u64)>)
    ensures
        r@ == step_pairs(steps@),
{
    let mut out: Vec<(u64, u64)> = Vec::new();
    let n = steps.len();
    for k in 0..n
        invariant
            n == steps@.len(),
            out@ =~= step_pairs(steps@.take(k as int)),
    {
        out.push((steps[k].on_ms, steps[k].off_ms));
        assert(steps@.take(k + 1) =~= steps@.take(k as int).push(steps@[k as int]));
    }
    assert(steps@.take(n as int) =~= steps@);
    out
}

/// How a per-channel request is handled once its path segment is parsed.
pub fn plan_for_route(
    route: Option<RouteChannel>,
    channel: &str,
    cmd: ChannelCommand,
    yellow_active: bool,
) -> (r: Gate)
    ensures
        r@ == channel_plan(route, channel@, cmd@, yellow_active),
{
    let t = match route {
        None => {
            let mut m = "Unknown channel: ".to_owned();
            m.append(channel);
            return Gate::Answer(err(STATUS_NOT_FOUND, m));
        },
        Some(t) => t,
    };
    match cmd {
        ChannelCommand::On => match t {
            RouteChannel::Yellow => {
                let cancel = vec![0usize, 1, 2, YELLOW_TASK_IDX];
                let commands = vec![HW_RED_ON, HW_ORANGE_ON, HW_GREEN_ON];
                assert(cancel@ =~= seq![0usize, 1, 2, YELLOW_TASK_IDX]);
                assert(commands@ =~= seq![HW_RED_ON, HW_ORANGE_ON, HW_GREEN_ON]);
                Gate::Connect(
                    single_step(
                        cancel,
                        commands,
                        LightUpdate::Yellow(ChannelState::On, true),
                        "yellow on".to_owned(),
                    ),
                )
            },
            RouteChannel::Physical(ch) => {
                let (on_b, _, _) = hw_on_off_blink(ch);
                let cancel = manual_cancel_slots(ch);
                let commands = vec![on_b];
                assert(commands@ =~= seq![on_byte(ch)]);
                let mut m = name_text(t);
                m.append(" on");
                Gate::Connect(
                    single_step(cancel, commands, LightUpdate::Channel(ch, ChannelState::On), m),
                )
            },
        },
        ChannelCommand::Off => match t {
            RouteChannel::Yellow => {
                if !yellow_active {
                    Gate::Answer(ok("yellow was not active, nothing changed".to_owned()))
                } else {
                    let cancel = vec![YELLOW_TASK_IDX];
                    let commands = vec![HW_RED_OFF, HW_ORANGE_OFF, HW_GREEN_OFF];
                    assert(cancel@ =~= seq![YELLOW_TASK_IDX]);
                    assert(commands@ =~= seq![HW_RED_OFF, HW_ORANGE_OFF, HW_GREEN_OFF]);
                    Gate::Connect(
                        single_step(
                            cancel,
                            commands,
                            LightUpdate::Yellow(ChannelState::Off, false),
                            "yellow off".to_owned(),
                        ),
                    )
                }
            },
            RouteChannel::Physical(ch) => {
                let (_, off_b, _) = hw_on_off_blink(ch);
                let cancel = manual_cancel_slots(ch);
                let commands = vec![off_b];
                assert(commands@ =~= seq![off_byte(ch)]);
                let mut m = name_text(t);
                m.append(" off");
                Gate::Connect(
                    single_step(cancel, commands, LightUpdate::Channel(ch, ChannelState::Off), m),
                )
            },
        },
        ChannelCommand::HwBlink => match t {
            RouteChannel::Yellow => Gate::Answer(
                err(
                    STATUS_BAD_REQUEST,
                    "hardware blink not supported for yellow — use /yellow/blink".to_owned(),
                ),
            ),
            RouteChannel::Physical(ch) => {
                let (_, _, blink_b) = hw_on_off_blink(ch);
                let cancel = manual_cancel_slots(ch);
                let commands = vec![blink_b];
                assert(commands@ =~= seq![blink_byte(ch)]);
                let mut m = name_text(t);
                m.append(" hardware blink");
                Gate::Connect(
                    single_step(
                        cancel,
                        commands,
                        LightUpdate::Channel(ch, ChannelState::HwBlink),
                        m,
                    ),
                )
            },
        },
        ChannelCommand::Blink(b) => {
            let mut m = name_text(t);
            m.append(" blinking (");
            push_decimal(&mut m, b.on_ms);
            m.append("ms on / ");
            push_decimal(&mut m, b.off_ms);
            m.append("ms off)");
            Gate::Connect(start_op(t, Effect::SwBlink { on_ms: b.on_ms, off_ms: b.off_ms }, m))
        },
        ChannelCommand::Pulse(b) => {
            let mut m = name_text(t);
            m.append(" pulse ");
            push_decimal(&mut m, b.count as u64);
            m.append("x");
            Gate::Connect(
                start_op(t, Effect::Pulse { on_ms: b.on_ms, off_ms: b.off_ms, count: b.count }, m),
            )
        },
        ChannelCommand::Timed(b) => {
            let mut m = name_text(t);
            m.append(" on for ");
            push_decimal(&mut m, b.duration_ms);
            m.append("ms");
            Gate::Connect(start_op(t, Effect::Timed { duration_ms: b.duration_ms }, m))
        },
        ChannelCommand::Sequence(b) => {
            let n = b.steps.len();
            if n == 0 {
                Gate::Connect(
                    Operation::Refuse(err(STATUS_BAD_REQUEST, "steps cannot be empty".to_owned())),
                )
            } else {
                let pairs = sequence_pairs(&b.steps);
                let mut m = name_text(t);
                m.append(" sequence (");
                push_decimal(&mut m, n as u64);
                m.append(" steps)");
                Gate::Connect(start_op(t, Effect::Sequence { steps: pairs }, m))
            }
        },
    }
}

/// How a per-channel request is handled: its path segment is parsed
/// ignoring case (see `parse_route_channel`), then as in `plan_for_route`.
pub fn plan_channel_request(channel: &str, cmd: ChannelCommand, yellow_active: bool) -> (r: Gate)
    ensures
        r@ == channel_plan(route_channel_of(lowercase_of(channel@)), channel@, cmd@, yellow_active),
{
    let route = parse_route_channel(channel);
    plan_for_route(route, channel, cmd, yellow_active)
}

// ── Global requests ───────────────────────────────────────────────────────────

/// `POST /clear`: cancel every task, turn every channel off, clear the light state.
pub open spec fn clear_operation() -> OperationView {
    one_step(seq![0usize, 1, 2, 3, 4], all_off_bytes(), LightUpdate::Clear, "All channels cleared"@)
}

pub fn plan_clear() -> (r: Operation)
    ensures
        r@ == clear_operation(),
{
    let cancel = vec![0usize, 1, 2, 3, 4];
    assert(cancel@ =~= seq![0usize, 1, 2, 3, 4]);
    single_step(cancel, all_off_commands(), LightUpdate::Clear, "All channels cleared".to_owned())
}

pub open spec fn wanted(body: SetAllBody, ch: PhysicalChannel) -> Option<bool> {
    match ch {
        PhysicalChannel::Red => body.red,
        PhysicalChannel::Orange => body.orange,
        PhysicalChannel::Green => body.green,
        PhysicalChannel::Buzzer => body.buzzer,
    }
}

pub open spec fn named_slot(ch: PhysicalChannel, w: Option<bool>) -> Seq<usize> {
    if w is Some {
        seq![slot_of(ch) as usize]
    } else {
        seq![]
    }
}

pub open spec fn named_byte(ch: PhysicalChannel, w: Option<bool>) -> Seq<u8> {
    match w {
        Some(on) => seq![if on { on_byte(ch) } else { off_byte(ch) }],
        None => seq![],
    }
}

pub open spec fn named_update(ch: PhysicalChannel, w: Option<bool>) -> Seq<LightUpdate> {
    match w {
        Some(on) => seq![LightUpdate::Channel(ch, if on { ChannelState::On } else { ChannelState::Off })],
        None => seq![],
    }
}

/// The slots of the channels that `POST /set` names, in hardware order.
pub open spec fn set_all_named_slots(body: SetAllBody) -> Seq<usize> {
    named_slot(PhysicalChannel::Red, body.red) + named_slot(PhysicalChannel::Orange, body.orange)
        + named_slot(PhysicalChannel::Green, body.green) + named_slot(PhysicalChannel::Buzzer, body.buzzer)
}

/// `POST /set` cancels the tasks of the named channels and, when it names
/// any, the yellow task.
pub open spec fn set_all_cancel(body: SetAllBody) -> Seq<usize> {
    set_all_named_slots(body) + if set_all_named_slots(body).len() > 0 {
        seq![YELLOW_TASK_IDX]
    } else {
        seq![]
    }
}

/// The bytes `POST /set` writes: each named channel on or off, in hardware order.
pub open spec fn set_all_commands(body: SetAllBody) -> Seq<u8> {
    named_byte(PhysicalChannel::Red, body.red) + named_byte(PhysicalChannel::Orange, body.orange)
        + named_byte(PhysicalChannel::Green, body.green) + named_byte(PhysicalChannel::Buzzer, body.buzzer)
}

/// The light changes `POST /set` makes once all its writes succeeded.
pub open spec fn set_all_updates(body: SetAllBody) -> Seq<LightUpdate> {
    named_update(PhysicalChannel::Red, body.red) + named_update(PhysicalChannel::Orange, body.orange)
        + named_update(PhysicalChannel::Green, body.green) + named_update(
        PhysicalChannel::Buzzer,
        body.buzzer,
    )
}

pub open spec fn set_all_operation(body: SetAllBody) -> OperationView {
    OperationView::Apply {
        cancel: set_all_cancel(body),
        commands: set_all_commands(body),
        updates: set_all_updates(body),
        message: "Channels set"@,
    }
}

fn push_named(
    cancel: &mut Vec<usize>,
    commands: &mut Vec<u8>,
    updates: &mut Vec<LightUpdate>,
    ch: PhysicalChannel,
    w: Option<bool>,
)
    ensures
        final(cancel)@ == old(cancel)@ + named_slot(ch, w),
        final(commands)@ == old(commands)@ + named_byte(ch, w),
        final(updates)@ == old(updates)@ + named_update(ch, w),
{
    match w {
        None => {},
        Some(on) => {
            let (on_b, off_b, _) = hw_on_off_blink(ch);
            cancel.push(channel_index(ch));
            commands.push(if on { on_b } else { off_b });
            let st = if on {
                ChannelState::On
            } else {
                ChannelState::Off
            };
            updates.push(LightUpdate::Channel(ch, st));
        },
    }
    assert(final(cancel)@ =~= old(cancel)@ + named_slot(ch, w));
    assert(final(commands)@ =~= old(commands)@ + named_byte(ch, w));
    assert(final(updates)@ =~= old(updates)@ + named_update(ch, w));
}

pub fn plan_set_all(body: &SetAllBody) -> (r: Operation)
    ensures
        r@ == set_all_operation(*body),
{
    let mut cancel: Vec<usize> = Vec::new();
    let mut commands: Vec<u8> = Vec::new();
    let mut updates: Vec<LightUpdate> = Vec::new();
    push_named(&mut cancel, &mut commands, &mut updates, PhysicalChannel::Red, body.red);
    push_named(&mut cancel, &mut commands, &mut updates, PhysicalChannel::Orange, body.orange);
    push_named(&mut cancel, &mut commands, &mut updates, PhysicalChannel::Green, body.green);
    push_named(&mut cancel, &mut commands, &mut updates, PhysicalChannel::Buzzer, body.buzzer);
    assert(cancel@ =~= set_all_named_slots(*body));
    assert(commands@ =~= set_all_commands(*body));
    assert(updates@ =~= set_all_updates(*body));
    if cancel.len() > 0 {
        cancel.push(YELLOW_TASK_IDX);
    }
    assert(cancel@ =~= set_all_cancel(*body));
    Operation::Apply { cancel, commands, updates, message: "Channels set".to_owned() }
}

// ── Carrying out a plan ───────────────────────────────────────────────────────

impl LightState {
    /// Apply `updates` in order, each stamped with the clock.
    pub fn apply_all(&mut self, updates: Vec<LightUpdate>)
        ensures
            final(self).same_lights(&apply_updates(*old(self), updates@)),
            restamped(old(self).last_updated, final(self).last_updated),
    {
        let n = updates.len();
        let ghost start = *self;
        assert(updates@.take(0) =~= Seq::<LightUpdate>::empty());
        for i in 0..n
            invariant
                n == updates@.len(),
                self.same_lights(&apply_updates(start, updates@.take(i as int))),
                restamped(start.last_updated, self.last_updated),
        {
            let u = updates[i].clone();
            let ghost before = *self;
            self.apply(u);
            proof {
                let t = updates@.take(i as int);
                assert(updates@.take(i + 1) =~= t + seq![updates@[i as int]]);
                lemma_apply_split(start, t, seq![updates@[i as int]]);
                lemma_apply_one(apply_updates(start, t), seq![updates@[i as int]]);
            }
        }
        assert(updates@.take(n as int) =~= updates@);
    }
}

/// What the program reports after carrying out an action of a request.
#[derive(Debug)]
pub enum RequestEvent {
    /// The action was carried out.
    Done,
    /// Writing the byte failed with this error.
    WriteFailed(String),
}

pub enum EventView {
    Done,
    WriteFailed(Seq<char>),
}

impl View for RequestEvent {
    type V = EventView;

    open spec fn view(&self) -> EventView {
        match self {
            RequestEvent::Done => EventView::Done,
            RequestEvent::WriteFailed(e) => EventView::WriteFailed(e@),
        }
    }
}

/// What the program does next for a request.
#[derive(Debug)]
pub enum RequestAction {
    /// Cancel the tasks in these slots.
    Cancel(Vec<usize>),
    /// Write this byte to the device.
    Write(u8),
    /// Apply these light changes, then answer.
    Commit(Vec<LightUpdate>, Reply),
    /// Start this job, then answer.
    StartJob(Job, Reply),
    /// Answer.
    Respond(Reply),
    /// Drop the device handle, then answer.
    Abort(Reply),
    /// The request is over.
    Idle,
}

pub enum ActionView {
    Cancel(Seq<usize>),
    Write(u8),
    Commit(Seq<LightUpdate>, ReplyView),
    StartJob(RouteChannel, EffectView, ReplyView),
    Respond(ReplyView),
    Abort(ReplyView),
    Idle,
}

impl View for RequestAction {
    type V = ActionView;

    open spec fn view(&self) -> ActionView {
        match self {
            RequestAction::Cancel(c) => ActionView::Cancel(c@),
            RequestAction::Write(b) => ActionView::Write(*b),
            RequestAction::Commit(u, r) => ActionView::Commit(u@, r@),
            RequestAction::StartJob(j, r) => ActionView::StartJob(j.target, j.effect@, r@),
            RequestAction::Respond(r) => ActionView::Respond(r@),
            RequestAction::Abort(r) => ActionView::Abort(r@),
            RequestAction::Idle => ActionView::Idle,
        }
    }
}

/// How a request runs: from `stage` (with `finished` once it answered), on
/// the report `ev` of the last action, the next action and the next stage.
/// An `Apply` cancels its tasks, writes its bytes one by one, and commits
/// its light changes only after the last write was reported done; a write
/// reported failed ends it with a hardware error and nothing committed.
pub open spec fn request_step(op: OperationView, stage: nat, finished: bool, ev: EventView) -> (
    ActionView,
    nat,
    bool,
) {
    if finished {
        (ActionView::Idle, stage, true)
    } else {
        match op {
            OperationView::Apply { cancel, commands, updates, message } => if stage == 0 {
                (ActionView::Cancel(cancel), 1, false)
            } else if stage >= 2 && ev is WriteFailed {
                (
                    ActionView::Abort(failure(STATUS_INTERNAL_ERROR, ev->WriteFailed_0)),
                    stage,
                    true,
                )
            } else if stage <= commands.len() {
                (ActionView::Write(commands[stage - 1]), stage + 1, false)
            } else {
                (ActionView::Commit(updates, success(message)), stage, true)
            },
            OperationView::Start { cancel, target, effect, message } => if stage == 0 {
                (ActionView::Cancel(cancel), 1, false)
            } else {
                (ActionView::StartJob(target, effect, success(message)), stage, true)
            },
            OperationView::Refuse(r) => (ActionView::Respond(r), stage, true),
        }
    }
}

/// Runs a planned operation one action at a time.
pub struct RequestRunner {
    op: Option<Operation>,
    started: bool,
    written: usize,
    finished: bool,
    plan: Ghost<OperationView>,
}

impl RequestRunner {
    #[verifier::type_invariant]
    spec fn inv(self) -> bool {
        &&& !self.started ==> self.written == 0
        &&& !self.finished ==> match (self.plan@, self.op) {
            (
                OperationView::Apply { cancel, commands, updates, message },
                Some(Operation::Apply { cancel: c, commands: cm, updates: u, message: m }),
            ) => {
                &&& self.written <= commands.len()
                &&& !self.started ==> c@ == cancel
                &&& cm@ == commands
                &&& u@ == updates
                &&& m@ == message
            },
            (
                OperationView::Start { cancel, target, effect, message },
                Some(Operation::Start { cancel: c, job, message: m }),
            ) => {
                &&& self.written == 0
                &&& !self.started ==> c@ == cancel
                &&& job.target == target
                &&& job.effect@ == effect
                &&& m@ == message
            },
            (OperationView::Refuse(r), Some(Operation::Refuse(rr))) => !self.started && rr@ == r,
            _ => false,
        }
    }

    pub closed spec fn plan(self) -> OperationView {
        self.plan@
    }

    /// 0 before the first action; then 1 plus the number of bytes written.
    pub closed spec fn stage(self) -> nat {
        if self.started {
            self.written as nat + 1
        } else {
            0
        }
    }

    pub closed spec fn finished(self) -> bool {
        self.finished
    }

    /// A runner at the start of `op`.
    pub fn new(op: Operation) -> (r: Self)
        ensures
            r.plan() == op@,
            r.stage() == 0,
            !r.finished(),
    {
        let ghost plan = op@;
        RequestRunner { op: Some(op), started: false, written: 0, finished: false, plan: Ghost(plan) }
    }

    /// Has the request been answered?
    pub fn is_finished(&self) -> (r: bool)
        ensures
            r == self.finished(),
    {
        self.finished
    }

    /// The next action, given the report of the last one.
    pub fn step(self, ev: RequestEvent) -> (r: (Self, RequestAction))
        ensures
            r.1@ == request_step(self.plan(), self.stage(), self.finished(), ev@).0,
            r.0.stage() == request_step(self.plan(), self.stage(), self.finished(), ev@).1,
            r.0.finished() == request_step(self.plan(), self.stage(), self.finished(), ev@).2,
            r.0.plan() == self.plan(),
    {
        proof {
            use_type_invariant(&self);
        }
        let RequestRunner { op, started, written, finished, plan } = self;
        if finished {
            return (
                RequestRunner { op: None, started, written, finished: true, plan },
                RequestAction::Idle,
            );
        }
        let op = match op {
            Some(op) => op,
            None => {
                return (
                    RequestRunner { op: None, started, written, finished: true, plan },
                    RequestAction::Idle,
                );
            },
        };
        match op {
            Operation::Apply { cancel, commands, updates, message } => {
                if !started {
                    let rest = Operation::Apply { cancel: Vec::new(), commands, updates, message };
                    (
                        RequestRunner { op: Some(rest), started: true, written: 0, finished: false, plan },
                        RequestAction::Cancel(cancel),
                    )
                } else {
                    let failed = match ev {
                        RequestEvent::WriteFailed(e) => if written >= 1 {
                            Some(e)
                        } else {
                            None
                        },
                        RequestEvent::Done => None,
                    };
                    match failed {
                        Some(e) => (
                            RequestRunner { op: None, started, written, finished: true, plan },
                            RequestAction::Abort(hardware_error(e)),
                        ),
                        None => {
                            if written < commands.len() {
                                let b = commands[written];
                                let rest = Operation::Apply { cancel, commands, updates, message };
                                (
                                    RequestRunner {
                                        op: Some(rest),
                                        started,
                                        written: written + 1,
                                        finished: false,
                                        plan,
                                    },
                                    RequestAction::Write(b),
                                )
                            } else {
                                (
                                    RequestRunner { op: None, started, written, finished: true, plan },
                                    RequestAction::Commit(updates, ok(message)),
                                )
                            }
                        },
                    }
                }
            },
            Operation::Start { cancel, job, message } => {
                if !started {
                    let rest = Operation::Start { cancel: Vec::new(), job, message };
                    (
                        RequestRunner { op: Some(rest), started: true, written: 0, finished: false, plan },
                        RequestAction::Cancel(cancel),
                    )
                } else {
                    (
                        RequestRunner { op: None, started, written, finished: true, plan },
                        RequestAction::StartJob(job, ok(message)),
                    )
                }
            },
            Operation::Refuse(reply) => (
                RequestRunner { op: None, started, written, finished: true, plan },
                RequestAction::Respond(reply),
            ),
        }
    }
}

/// The stage and finished flag of a request after `k` actions on `events`.
pub open spec fn request_state(op: OperationView, events: Seq<EventView>, k: nat) -> (nat, bool)
    decreases k,
{
    if k == 0 {
        (0, false)
    } else {
        let (s, f) = request_state(op, events, (k - 1) as nat);
        let r = request_step(op, s, f, events[k - 1]);
        (r.1, r.2)
    }
}

/// The `k`-th action of a request on `events` (event `k` reports on action `k - 1`).
pub open spec fn request_action(op: OperationView, events: Seq<EventView>, k: nat) -> ActionView {
    let (s, f) = request_state(op, events, k);
    request_step(op, s, f, events[k as int]).0
}

proof fn lemma_unfinished_prefix(op: OperationView, events: Seq<EventView>, k: nat, j: nat)
    requires
        j <= k,
        !request_state(op, events, k).1,
    ensures
        !request_state(op, events, j).1,
    decreases k,
{
    if j < k {
        lemma_unfinished_prefix(op, events, (k - 1) as nat, j);
    }
}

proof fn lemma_apply_progress(op: OperationView, events: Seq<EventView>, k: nat)
    requires
        op is Apply,
        !request_state(op, events, k).1,
    ensures
        request_state(op, events, k).0 == k,
        k <= op->Apply_commands.len() + 1,
        forall|j: int| 2 <= j < k ==> #[trigger] events[j] is Done,
    decreases k,
{
    if k > 0 {
        lemma_unfinished_prefix(op, events, k, (k - 1) as nat);
        lemma_apply_progress(op, events, (k - 1) as nat);
    }
}

/// `POST /set`, `/clear` and the direct per-channel requests are atomic in
/// the light state: a request commits its light changes only once, right
/// after every one of its bytes was written in order and reported done; if
/// a write fails, nothing is committed.
pub proof fn lemma_commit_only_after_all_writes(op: OperationView, events: Seq<EventView>, i: nat)
    requires
        op is Apply,
        i < events.len(),
        request_action(op, events, i) is Commit,
    ensures
        i == op->Apply_commands.len() + 1,
        forall|j: nat|
            1 <= j <= op->Apply_commands.len() ==> #[trigger] request_action(op, events, j)
                == ActionView::Write(op->Apply_commands[j - 1]),
        forall|j: int| 2 <= j <= i ==> #[trigger] events[j] is Done,
{
    let n = op->Apply_commands.len();
    let (s, f) = request_state(op, events, i);
    lemma_apply_progress(op, events, i);
    assert forall|j: nat| 1 <= j <= n implies #[trigger] request_action(op, events, j)
        == ActionView::Write(op->Apply_commands[j - 1]) by {
        lemma_unfinished_prefix(op, events, i, j);
        lemma_apply_progress(op, events, j);
        if j >= 2 {
            lemma_unfinished_prefix(op, events, i, (j + 1) as nat);
            lemma_apply_progress(op, events, (j + 1) as nat);
        }
    }
}

// ── Laws of the request plans ─────────────────────────────────────────────────

/// The light state after `updates`, in order.
pub open spec fn apply_updates(light: LightState, updates: Seq<LightUpdate>) -> LightState
    decreases updates.len(),
{
    if updates.len() == 0 {
        light
    } else {
        apply_updates(light.updated(updates[0]), updates.drop_first())
    }
}

/// Does an update change channel `ch`?
pub open spec fn touches(u: LightUpdate, ch: PhysicalChannel) -> bool {
    match u {
        LightUpdate::Channel(c, _) => c == ch,
        LightUpdate::Yellow(_, _) => ch != PhysicalChannel::Buzzer,
        LightUpdate::Clear => true,
    }
}

proof fn lemma_apply_untouched(light: LightState, updates: Seq<LightUpdate>, ch: PhysicalChannel)
    requires
        forall|i: int| 0 <= i < updates.len() ==> !touches(#[trigger] updates[i], ch),
    ensures
        apply_updates(light, updates).channel(ch) == light.channel(ch),
    decreases updates.len(),
{
    if updates.len() > 0 {
        assert(!touches(updates[0], ch));
        assert forall|i: int| 0 <= i < updates.drop_first().len() implies !touches(
            #[trigger] updates.drop_first()[i],
            ch,
        ) by {
            assert(updates.drop_first()[i] == updates[i + 1]);
        }
        lemma_apply_untouched(light.updated(updates[0]), updates.drop_first(), ch);
    }
}

proof fn lemma_apply_split(light: LightState, a: Seq<LightUpdate>, b: Seq<LightUpdate>)
    ensures
        apply_updates(light, a + b) == apply_updates(apply_updates(light, a), b),
    decreases a.len(),
{
    if a.len() == 0 {
        assert(a + b =~= b);
    } else {
        assert((a + b).drop_first() =~= a.drop_first() + b);
        assert((a + b)[0] == a[0]);
        lemma_apply_split(light.updated(a[0]), a.drop_first(), b);
    }
}

proof fn lemma_apply_one(light: LightState, s: Seq<LightUpdate>)
    requires
        s.len() <= 1,
    ensures
        s.len() == 1 ==> apply_updates(light, s) == light.updated(s[0]),
        s.len() == 0 ==> apply_updates(light, s) == light,
{
    if s.len() == 1 {
        assert(s.drop_first() =~= Seq::<LightUpdate>::empty());
        assert(apply_updates(light.updated(s[0]), s.drop_first()) == light.updated(s[0]));
    }
}

/// `POST /set` leaves a channel that the body leaves out unchanged, and a
/// channel that the body names ends on or off as asked.
pub proof fn lemma_set_all_effect(light: LightState, body: SetAllBody, ch: PhysicalChannel)
    ensures
        wanted(body, ch) is None ==> apply_updates(light, set_all_updates(body)).channel(ch)
            == light.channel(ch),
        wanted(body, ch) matches Some(on) ==> apply_updates(light, set_all_updates(body)).channel(ch)
            == (if on {
            ChannelState::On
        } else {
            ChannelState::Off
        }),
{
    let s = set_all_updates(body);
    let r = named_update(PhysicalChannel::Red, body.red);
    let o = named_update(PhysicalChannel::Orange, body.orange);
    let g = named_update(PhysicalChannel::Green, body.green);
    let b = named_update(PhysicalChannel::Buzzer, body.buzzer);
    if wanted(body, ch) is None {
        assert forall|i: int| 0 <= i < s.len() implies !touches(#[trigger] s[i], ch) by {
            if i < r.len() {
                assert(s[i] == r[i]);
            } else if i < r.len() + o.len() {
                assert(s[i] == o[i - r.len()]);
            } else if i < r.len() + o.len() + g.len() {
                assert(s[i] == g[i - r.len() - o.len()]);
            } else {
                assert(s[i] == b[i - r.len() - o.len() - g.len()]);
            }
        }
        lemma_apply_untouched(light, s, ch);
    } else {
        lemma_apply_split(light, r, o);
        lemma_apply_split(light, r + o, g);
        lemma_apply_split(light, r + o + g, b);
        let l1 = apply_updates(light, r);
        let l2 = apply_updates(l1, o);
        let l3 = apply_updates(l2, g);
        lemma_apply_one(light, r);
        lemma_apply_one(l1, o);
        lemma_apply_one(l2, g);
        lemma_apply_one(l3, b);
    }
}

/// `POST /clear` leaves every channel off and yellow mode off, whatever the
/// light showed before.
pub proof fn lemma_clear_effect(light: LightState, ch: PhysicalChannel)
    ensures
        clear_operation() matches OperationView::Apply { updates, .. } && apply_updates(
            light,
            updates,
        ).channel(ch) == ChannelState::Off && !apply_updates(light, updates).yellow,
{
    lemma_apply_one(light, seq![LightUpdate::Clear]);
}

/// A request that changes a physical channel by hand also stops the yellow
/// task, since it leaves yellow mode: every plan whose light change is a
/// single-channel change, and every effect started on a physical channel,
/// cancels the yellow slot. `POST /set` does so whenever it names a channel.
pub proof fn lemma_manual_change_stops_yellow(
    route: Option<RouteChannel>,
    channel: Seq<char>,
    cmd: CommandView,
    yellow_active: bool,
    body: SetAllBody,
)
    ensures
        channel_plan(route, channel, cmd, yellow_active) matches GateView::Connect(
            OperationView::Apply { cancel, updates, .. },
        ) ==> ((exists|i: int| 0 <= i < updates.len() && #[trigger] updates[i] is Channel)
            ==> cancel.contains(YELLOW_TASK_IDX)),
        channel_plan(route, channel, cmd, yellow_active) matches GateView::Connect(
            OperationView::Start { cancel, target: RouteChannel::Physical(_), .. },
        ) ==> cancel.contains(YELLOW_TASK_IDX),
        set_all_updates(body).len() > 0 ==> set_all_cancel(body).contains(YELLOW_TASK_IDX),
{
    if let Some(RouteChannel::Physical(ch)) = route {
        assert(manual_cancel(ch)[1] == YELLOW_TASK_IDX);
    }
    if let Some(RouteChannel::Yellow) = route {
        assert(seq![0usize, 1, 2, YELLOW_TASK_IDX][3] == YELLOW_TASK_IDX);
        assert(seq![YELLOW_TASK_IDX][0] == YELLOW_TASK_IDX);
    }
    let n = set_all_named_slots(body);
    if set_all_updates(body).len() > 0 {
        assert(n.len() == set_all_updates(body).len());
        assert(set_all_cancel(body)[n.len() as int] == YELLOW_TASK_IDX);
    }
}

/// A software-blink request on a known channel starts a blink job on that
/// channel whose on time is the body's `on_ms` and whose off time is the
/// body's `off_ms`, whatever the yellow mode.
pub proof fn lemma_blink_request_keeps_times(
    t: RouteChannel,
    channel: Seq<char>,
    on_ms: u64,
    off_ms: u64,
    yellow_active: bool,
)
    ensures
        channel_plan(Some(t), channel, CommandView::Blink { on_ms, off_ms }, yellow_active) matches GateView::Connect(
            OperationView::Start { target, effect, .. },
        ) && target == t && effect == (EffectView::SwBlink { on_ms, off_ms }),
{
}

/// A pulse request on a known channel starts a pulse job on that channel
/// with the body's on time, off time and count, whatever the yellow mode.
pub proof fn lemma_pulse_request_keeps_body(
    t: RouteChannel,
    channel: Seq<char>,
    count: u32,
    on_ms: u64,
    off_ms: u64,
    yellow_active: bool,
)
    ensures
        channel_plan(Some(t), channel, CommandView::Pulse { count, on_ms, off_ms }, yellow_active) matches GateView::Connect(
            OperationView::Start { target, effect, .. },
        ) && target == t && effect == (EffectView::Pulse { on_ms, off_ms, count }),
{
}

/// A timed request on a known channel starts a timed job on that channel for
/// the body's duration; a sequence request with steps starts a sequence job
/// with exactly those steps, in order.
pub proof fn lemma_timed_and_sequence_requests_keep_body(
    t: RouteChannel,
    channel: Seq<char>,
    duration_ms: u64,
    steps: Seq<(u64, u64)>,
    yellow_active: bool,
)
    ensures
        channel_plan(Some(t), channel, CommandView::Timed { duration_ms }, yellow_active) matches GateView::Connect(
            OperationView::Start { target, effect, .. },
        ) && target == t && effect == (EffectView::Timed { duration_ms }),
        steps.len() > 0 ==> (channel_plan(
            Some(t),
            channel,
            CommandView::Sequence { steps },
            yellow_active,
        ) matches GateView::Connect(OperationView::Start { target, effect, .. }) && target == t
            && effect == (EffectView::Sequence { steps })),
{
}

/// A manual request on a physical channel sends that channel's own byte
/// once and records the matching state: on sends the on byte and records
/// `On`, off the off byte and `Off`, hardware blink the blink byte and
/// `HwBlink`. Yellow on sends the on bytes of red, orange and green and turns
/// yellow mode on; yellow off sends their off bytes and turns it off, or
/// changes nothing when yellow mode is not on; a hardware blink of yellow is
/// refused.
pub proof fn lemma_manual_requests_send_own_bytes(
    ch: PhysicalChannel,
    channel: Seq<char>,
    yellow_active: bool,
)
    ensures
        channel_plan(Some(RouteChannel::Physical(ch)), channel, CommandView::On, yellow_active) matches GateView::Connect(
            OperationView::Apply { commands, updates, .. },
        ) && commands == seq![on_byte(ch)] && updates == seq![
            LightUpdate::Channel(ch, ChannelState::On),
        ],
        channel_plan(Some(RouteChannel::Physical(ch)), channel, CommandView::Off, yellow_active) matches GateView::Connect(
            OperationView::Apply { commands, updates, .. },
        ) && commands == seq![off_byte(ch)] && updates == seq![
            LightUpdate::Channel(ch, ChannelState::Off),
        ],
        channel_plan(
            Some(RouteChannel::Physical(ch)),
            channel,
            CommandView::HwBlink,
            yellow_active,
        ) matches GateView::Connect(OperationView::Apply { commands, updates, .. }) && commands
            == seq![blink_byte(ch)] && updates == seq![
            LightUpdate::Channel(ch, ChannelState::HwBlink),
        ],
        channel_plan(Some(RouteChannel::Yellow), channel, CommandView::On, yellow_active) matches GateView::Connect(
            OperationView::Apply { commands, updates, .. },
        ) && commands == seq![
            on_byte(PhysicalChannel::Red),
            on_byte(PhysicalChannel::Orange),
            on_byte(PhysicalChannel::Green),
        ] && updates == seq![LightUpdate::Yellow(ChannelState::On, true)],
        yellow_active ==> (channel_plan(
            Some(RouteChannel::Yellow),
            channel,
            CommandView::Off,
            yellow_active,
        ) matches GateView::Connect(OperationView::Apply { commands, updates, .. }) && commands
            == seq![
            off_byte(PhysicalChannel::Red),
            off_byte(PhysicalChannel::Orange),
            off_byte(PhysicalChannel::Green),
        ] && updates == seq![LightUpdate::Yellow(ChannelState::Off, false)]),
        !yellow_active ==> (channel_plan(
            Some(RouteChannel::Yellow),
            channel,
            CommandView::Off,
            yellow_active,
        ) matches GateView::Answer(r) && r.ok),
        channel_plan(Some(RouteChannel::Yellow), channel, CommandView::HwBlink, yellow_active) matches GateView::Answer(
            r,
        ) && !r.ok && r.status == STATUS_BAD_REQUEST,
{
}

} // verus!
