use tower_api::api::{
    hw_on_off_blink, default_200, default_500, hardware_error, no_hw, ok, plan_channel_request, plan_clear,
    plan_for_route, plan_set_all, push_decimal, BlinkBody, ChannelCommand, Gate, Operation,
    PulseBody, Reply, SequenceBody, SequenceStep, SetAllBody, TimedBody, RequestAction, RequestEvent, RequestRunner,
};
use tower_api::engine::Effect;
use tower_api::state::{ChannelState, LightState, LightUpdate, PhysicalChannel, RouteChannel};

fn message(r: &Reply) -> String {
    r.body.message.clone().unwrap()
}

fn answer(g: Gate) -> Reply {
    match g {
        Gate::Answer(r) => r,
        other => panic!("expected an immediate answer, got {:?}", other),
    }
}

struct Applied {
    cancel: Vec<usize>,
    commands: Vec<u8>,
    updates: Vec<LightUpdate>,
}

fn apply(g: Gate) -> (Applied, String) {
    match g {
        Gate::Connect(Operation::Apply { cancel, commands, updates, message }) => {
            (Applied { cancel, commands, updates }, message)
        }
        other => panic!("expected writes, got {:?}", other),
    }
}

fn start(g: Gate) -> (Vec<usize>, tower_api::engine::Job, String) {
    match g {
        Gate::Connect(Operation::Start { cancel, job, message }) => (cancel, job, message),
        other => panic!("expected a start, got {:?}", other),
    }
}

#[test]
fn defaults() {
    assert_eq!(default_500(), 500);
    assert_eq!(default_200(), 200);
}

#[test]
fn decimal_text() {
    for n in [0u64, 7, 10, 305, 2000, u64::MAX] {
        let mut s = String::from("x");
        push_decimal(&mut s, n);
        assert_eq!(s, format!("x{}", n));
    }
}

#[test]
fn reply_helpers() {
    let r = ok("fine".to_string());
    assert_eq!(r.status, 200);
    assert!(r.body.ok);
    assert_eq!(message(&r), "fine");
    let r = no_hw();
    assert_eq!(r.status, 503);
    assert!(!r.body.ok);
    assert_eq!(message(&r), "Tower light not connected — device not found on USB");
    let r = hardware_error("Serial write failed on /dev/x".to_string());
    assert_eq!(r.status, 500);
    assert_eq!(message(&r), "Serial write failed on /dev/x");
}

#[test]
fn unknown_channel_is_404() {
    let r = answer(plan_channel_request("Purple", ChannelCommand::On, false));
    assert_eq!(r.status, 404);
    assert!(!r.body.ok);
    assert_eq!(message(&r), "Unknown channel: Purple");
}

#[test]
fn physical_on() {
    let (a, msg) = apply(plan_channel_request("Red", ChannelCommand::On, false));
    assert_eq!(msg, "red on");
    assert_eq!(a.updates.len(), 1);
    assert_eq!(a.cancel, vec![0, 4]);
    assert_eq!(a.commands, vec![0x11]);
    assert_eq!(a.updates, vec![LightUpdate::Channel(PhysicalChannel::Red, ChannelState::On)]);
}

#[test]
fn yellow_on_drives_three_channels() {
    let (a, msg) = apply(plan_channel_request("yellow", ChannelCommand::On, false));
    assert_eq!(msg, "yellow on");
    assert_eq!(a.cancel, vec![0, 1, 2, 4]);
    assert_eq!(a.commands, vec![0x11, 0x12, 0x14]);
    assert_eq!(a.updates, vec![LightUpdate::Yellow(ChannelState::On, true)]);
}

#[test]
fn physical_off() {
    let (a, msg) = apply(plan_channel_request("buzzer", ChannelCommand::Off, true));
    assert_eq!(msg, "buzzer off");
    assert_eq!(a.cancel, vec![3, 4]);
    assert_eq!(a.commands, vec![0x28]);
    assert_eq!(a.updates, vec![LightUpdate::Channel(PhysicalChannel::Buzzer, ChannelState::Off)]);
}

#[test]
fn yellow_off_only_when_active() {
    let r = answer(plan_channel_request("yellow", ChannelCommand::Off, false));
    assert_eq!(r.status, 200);
    assert!(r.body.ok);
    assert_eq!(message(&r), "yellow was not active, nothing changed");
    let (a, msg) = apply(plan_channel_request("yellow", ChannelCommand::Off, true));
    assert_eq!(msg, "yellow off");
    assert_eq!(a.cancel, vec![4]);
    assert_eq!(a.commands, vec![0x21, 0x22, 0x24]);
    assert_eq!(a.updates, vec![LightUpdate::Yellow(ChannelState::Off, false)]);
}

#[test]
fn hardware_blink() {
    let (a, msg) = apply(plan_channel_request("orange", ChannelCommand::HwBlink, false));
    assert_eq!(msg, "orange hardware blink");
    assert_eq!(a.cancel, vec![1, 4]);
    assert_eq!(a.commands, vec![0x42]);
    assert_eq!(a.updates, vec![LightUpdate::Channel(PhysicalChannel::Orange, ChannelState::HwBlink)]);
    let r = answer(plan_channel_request("yellow", ChannelCommand::HwBlink, false));
    assert_eq!(r.status, 400);
    assert_eq!(message(&r), "hardware blink not supported for yellow — use /yellow/blink");
}

#[test]
fn software_blink() {
    let (cancel, job, msg) = start(plan_channel_request(
        "red",
        ChannelCommand::Blink(BlinkBody { on_ms: 100, off_ms: 100 }),
        false,
    ));
    assert_eq!(msg, "red blinking (100ms on / 100ms off)");
    assert_eq!(cancel, vec![0, 4]);
    assert_eq!(job.target, RouteChannel::Physical(PhysicalChannel::Red));
    assert_eq!(job.effect, Effect::SwBlink { on_ms: 100, off_ms: 100 });
    let (cancel, job, msg) = start(plan_channel_request(
        "yellow",
        ChannelCommand::Blink(BlinkBody { on_ms: 300, off_ms: 300 }),
        false,
    ));
    assert_eq!(msg, "yellow blinking (300ms on / 300ms off)");
    assert!(cancel.is_empty());
    assert_eq!(job.target, RouteChannel::Yellow);
}

#[test]
fn pulse() {
    let (cancel, job, msg) = start(plan_channel_request(
        "red",
        ChannelCommand::Pulse(PulseBody { count: 3, on_ms: 150, off_ms: 150 }),
        false,
    ));
    assert_eq!(msg, "red pulse 3x");
    assert_eq!(cancel, vec![0, 4]);
    assert_eq!(job.effect, Effect::Pulse { on_ms: 150, off_ms: 150, count: 3 });
    let (_, _, msg) = start(plan_channel_request(
        "YELLOW",
        ChannelCommand::Pulse(PulseBody { count: 1, on_ms: 500, off_ms: 0 }),
        false,
    ));
    assert_eq!(msg, "yellow pulse 1x");
}

#[test]
fn timed() {
    let (cancel, job, msg) = start(plan_channel_request(
        "green",
        ChannelCommand::Timed(TimedBody { duration_ms: 2000 }),
        false,
    ));
    assert_eq!(msg, "green on for 2000ms");
    assert_eq!(cancel, vec![2, 4]);
    assert_eq!(job.effect, Effect::Timed { duration_ms: 2000 });
}

#[test]
fn sequence() {
    let body = SequenceBody {
        steps: vec![
            SequenceStep { on_ms: 200, off_ms: 100 },
            SequenceStep { on_ms: 200, off_ms: 100 },
            SequenceStep { on_ms: 600, off_ms: 0 },
        ],
    };
    let (cancel, job, msg) = start(plan_channel_request("buzzer", ChannelCommand::Sequence(body), false));
    assert_eq!(msg, "buzzer sequence (3 steps)");
    assert_eq!(cancel, vec![3, 4]);
    assert_eq!(job.effect, Effect::Sequence { steps: vec![(200, 100), (200, 100), (600, 0)] });
}

#[test]
fn empty_sequence_is_refused_after_connecting() {
    let g = plan_channel_request("red", ChannelCommand::Sequence(SequenceBody { steps: vec![] }), false);
    match g {
        Gate::Connect(Operation::Refuse(r)) => {
            assert_eq!(r.status, 400);
            assert_eq!(message(&r), "steps cannot be empty");
        },
        other => panic!("unexpected {:?}", other),
    }
}

#[test]
fn unknown_channel_checked_before_body() {
    let r = answer(plan_for_route(None, "blue", ChannelCommand::Sequence(SequenceBody { steps: vec![] }), false));
    assert_eq!(r.status, 404);
    assert_eq!(message(&r), "Unknown channel: blue");
}

#[test]
fn clear_plan() {
    match plan_clear() {
        Operation::Apply { cancel, commands, updates, message } => {
            assert_eq!(message, "All channels cleared");
            assert_eq!(cancel, vec![0, 1, 2, 3, 4]);
            assert_eq!(commands, vec![0x21, 0x22, 0x24, 0x28]);
            assert_eq!(updates, vec![LightUpdate::Clear]);
        },
        other => panic!("unexpected {:?}", other),
    }
}

#[test]
fn set_all_touches_only_named_channels() {
    let body = SetAllBody { red: Some(true), orange: None, green: Some(false), buzzer: Some(false) };
    match plan_set_all(&body) {
        Operation::Apply { cancel, commands, updates, message } => {
            assert_eq!(message, "Channels set");
            assert_eq!(cancel, vec![0, 2, 3, 4]);
            assert_eq!(commands, vec![0x11, 0x24, 0x28]);
            assert_eq!(updates.len(), 3);
            assert_eq!(updates[0], LightUpdate::Channel(PhysicalChannel::Red, ChannelState::On));
            let mut light = LightState::new();
            light.set_channel(PhysicalChannel::Orange, ChannelState::HwBlink);
            light.apply_all(updates);
            assert_eq!(light.orange, ChannelState::HwBlink);
            assert_eq!(light.red, ChannelState::On);
            assert_eq!(light.green, ChannelState::Off);
            assert_eq!(light.buzzer, ChannelState::Off);
        },
        other => panic!("unexpected {:?}", other),
    }
}

#[test]
fn set_all_with_empty_body_does_nothing() {
    let body = SetAllBody { red: None, orange: None, green: None, buzzer: None };
    match plan_set_all(&body) {
        Operation::Apply { cancel, commands, updates, message } => {
            assert!(cancel.is_empty());
            assert!(commands.is_empty());
            assert!(updates.is_empty());
            assert_eq!(message, "Channels set");
        },
        other => panic!("unexpected {:?}", other),
    }
}

fn run_request(op: Operation, fail_write: Option<usize>) -> Vec<RequestAction> {
    let mut runner = RequestRunner::new(op);
    let mut out = Vec::new();
    let mut event = RequestEvent::Done;
    let mut writes = 0;
    loop {
        let (next, action) = runner.step(event);
        runner = next;
        event = RequestEvent::Done;
        if let RequestAction::Write(_) = action {
            if fail_write == Some(writes) {
                event = RequestEvent::WriteFailed("Serial write failed on /dev/x".to_string());
            }
            writes += 1;
        }
        let end = matches!(
            action,
            RequestAction::Commit(..) | RequestAction::StartJob(..) | RequestAction::Respond(_) | RequestAction::Abort(_)
        );
        out.push(action);
        if end {
            assert!(runner.is_finished());
            break;
        }
    }
    let (_, idle) = runner.step(RequestEvent::Done);
    assert!(matches!(idle, RequestAction::Idle));
    out
}

#[test]
fn set_all_commits_after_every_write() {
    let body = SetAllBody { red: Some(true), orange: Some(false), green: None, buzzer: None };
    let actions = run_request(plan_set_all(&body), None);
    assert_eq!(actions.len(), 4);
    assert!(matches!(&actions[0], RequestAction::Cancel(c) if *c == vec![0, 1, 4]));
    assert!(matches!(actions[1], RequestAction::Write(0x11)));
    assert!(matches!(actions[2], RequestAction::Write(0x22)));
    match &actions[3] {
        RequestAction::Commit(updates, reply) => {
            assert_eq!(updates.len(), 2);
            assert_eq!(reply.status, 200);
            assert_eq!(message(reply), "Channels set");
        },
        other => panic!("unexpected {:?}", other),
    }
}

#[test]
fn set_all_failed_write_commits_nothing() {
    let body = SetAllBody { red: Some(true), orange: Some(false), green: Some(true), buzzer: None };
    let actions = run_request(plan_set_all(&body), Some(1));
    assert_eq!(actions.len(), 4);
    assert!(matches!(actions[1], RequestAction::Write(0x11)));
    assert!(matches!(actions[2], RequestAction::Write(0x22)));
    match &actions[3] {
        RequestAction::Abort(reply) => {
            assert_eq!(reply.status, 500);
            assert!(!reply.body.ok);
            assert_eq!(message(reply), "Serial write failed on /dev/x");
        },
        other => panic!("unexpected {:?}", other),
    }
    assert!(!actions.iter().any(|a| matches!(a, RequestAction::Commit(..))));
}

#[test]
fn start_request_cancels_then_starts() {
    let g = plan_channel_request("green", ChannelCommand::Timed(TimedBody { duration_ms: 5 }), false);
    let op = match g {
        Gate::Connect(op) => op,
        other => panic!("unexpected {:?}", other),
    };
    let actions = run_request(op, None);
    assert_eq!(actions.len(), 2);
    assert!(matches!(&actions[0], RequestAction::Cancel(c) if *c == vec![2, 4]));
    match &actions[1] {
        RequestAction::StartJob(job, reply) => {
            assert_eq!(job.effect, Effect::Timed { duration_ms: 5 });
            assert_eq!(message(reply), "green on for 5ms");
        },
        other => panic!("unexpected {:?}", other),
    }
}

#[test]
fn refused_request_only_answers() {
    let g = plan_channel_request("red", ChannelCommand::Sequence(SequenceBody { steps: vec![] }), false);
    let op = match g {
        Gate::Connect(op) => op,
        other => panic!("unexpected {:?}", other),
    };
    let actions = run_request(op, None);
    assert_eq!(actions.len(), 1);
    assert!(matches!(&actions[0], RequestAction::Respond(r) if r.status == 400));
}
#[test]
fn on_off_blink_bytes() {
    assert_eq!(hw_on_off_blink(PhysicalChannel::Red), (0x11, 0x21, 0x41));
    assert_eq!(hw_on_off_blink(PhysicalChannel::Buzzer), (0x18, 0x28, 0x48));
}
