use tower_api::engine::{
    channel_index, hw_on_off, Effect, EffectAction, EffectRunner, Job, JobStarter, StartAction, TaskSlots,
    YELLOW_TASK_IDX,
};
use tower_api::state::{ChannelState, LightUpdate, PhysicalChannel, RouteChannel};

use EffectAction::{Finish, Send, Sleep};

fn run(job: Job, limit: usize) -> Vec<EffectAction> {
    let mut r = EffectRunner::new(job);
    let mut out = Vec::new();
    while out.len() < limit {
        let a = r.next_action();
        let end = matches!(a, Finish(_));
        out.push(a);
        if end {
            assert!(r.finished());
            break;
        }
    }
    out
}

fn red(effect: Effect) -> Job {
    Job { target: RouteChannel::Physical(PhysicalChannel::Red), effect }
}

#[test]
fn slot_and_byte_lookup() {
    assert_eq!(channel_index(PhysicalChannel::Red), 0);
    assert_eq!(channel_index(PhysicalChannel::Orange), 1);
    assert_eq!(channel_index(PhysicalChannel::Green), 2);
    assert_eq!(channel_index(PhysicalChannel::Buzzer), 3);
    assert_eq!(YELLOW_TASK_IDX, 4);
    assert_eq!(hw_on_off(PhysicalChannel::Buzzer), (0x18, 0x28));
}

#[test]
fn task_slots_cancel_and_install() {
    let mut t: TaskSlots<u32> = TaskSlots::new();
    for i in 0..6 {
        assert!(!t.is_running(i));
    }
    t.install(RouteChannel::Physical(PhysicalChannel::Green), 7);
    t.install(RouteChannel::Yellow, 9);
    assert!(t.is_running(2));
    assert!(t.is_running(4));
    t.cancel(PhysicalChannel::Green);
    assert!(!t.is_running(2));
    assert!(t.is_running(4));
    t.cancel_yellow();
    assert!(!t.is_running(4));
    t.install(RouteChannel::Physical(PhysicalChannel::Red), 1);
    t.install(RouteChannel::Physical(PhysicalChannel::Buzzer), 1);
    t.cancel_slots(&vec![3, 17]);
    assert!(t.is_running(0));
    assert!(!t.is_running(3));
    t.cancel_all();
    assert!(!t.is_running(0));
}

#[test]
fn pulse_blinks_n_times_then_off() {
    let trace = run(red(Effect::Pulse { on_ms: 150, off_ms: 150, count: 3 }), 100);
    assert_eq!(
        trace,
        vec![
            Send(0x11), Sleep(150), Send(0x21), Sleep(150),
            Send(0x11), Sleep(150), Send(0x21), Sleep(150),
            Send(0x11), Sleep(150), Send(0x21),
            Finish(LightUpdate::Channel(PhysicalChannel::Red, ChannelState::Off)),
        ]
    );
}

#[test]
fn pulse_of_zero_finishes_at_once() {
    let trace = run(red(Effect::Pulse { on_ms: 1, off_ms: 1, count: 0 }), 10);
    assert_eq!(trace, vec![Finish(LightUpdate::Channel(PhysicalChannel::Red, ChannelState::Off))]);
}

#[test]
fn timed_on_then_off() {
    let job = Job { target: RouteChannel::Physical(PhysicalChannel::Green), effect: Effect::Timed { duration_ms: 2000 } };
    assert_eq!(
        run(job, 10),
        vec![Send(0x14), Sleep(2000), Send(0x24), Finish(LightUpdate::Channel(PhysicalChannel::Green, ChannelState::Off))]
    );
}

#[test]
fn yellow_timed_drives_three_channels() {
    let job = Job { target: RouteChannel::Yellow, effect: Effect::Timed { duration_ms: 5 } };
    assert_eq!(
        run(job, 20),
        vec![
            Send(0x11), Send(0x12), Send(0x14), Sleep(5), Send(0x21), Send(0x22), Send(0x24),
            Finish(LightUpdate::Yellow(ChannelState::Off, false)),
        ]
    );
}

#[test]
fn sequence_skips_zero_pauses() {
    let job = Job {
        target: RouteChannel::Physical(PhysicalChannel::Buzzer),
        effect: Effect::Sequence { steps: vec![(200, 100), (600, 0), (50, 25)] },
    };
    assert_eq!(
        run(job, 50),
        vec![
            Send(0x18), Sleep(200), Send(0x28), Sleep(100),
            Send(0x18), Sleep(600), Send(0x28),
            Send(0x18), Sleep(50), Send(0x28), Sleep(25),
            Finish(LightUpdate::Channel(PhysicalChannel::Buzzer, ChannelState::Off)),
        ]
    );
}

#[test]
fn empty_sequence_finishes_at_once() {
    let job = Job { target: RouteChannel::Yellow, effect: Effect::Sequence { steps: vec![] } };
    assert_eq!(run(job, 10), vec![Finish(LightUpdate::Yellow(ChannelState::Off, false))]);
}

#[test]
fn sw_blink_repeats_forever() {
    let trace = run(red(Effect::SwBlink { on_ms: 100, off_ms: 0 }), 40);
    assert_eq!(trace.len(), 40);
    for (i, a) in trace.iter().enumerate() {
        let expected = match i % 4 {
            0 => Send(0x11),
            1 => Sleep(100),
            2 => Send(0x21),
            _ => Sleep(0),
        };
        assert_eq!(*a, expected);
    }
}

#[test]
fn yellow_blink_cycle() {
    let job = Job { target: RouteChannel::Yellow, effect: Effect::SwBlink { on_ms: 500, off_ms: 500 } };
    let trace = run(job, 16);
    assert_eq!(
        trace,
        vec![
            Send(0x11), Send(0x12), Send(0x14), Sleep(500), Send(0x21), Send(0x22), Send(0x24), Sleep(500),
            Send(0x11), Send(0x12), Send(0x14), Sleep(500), Send(0x21), Send(0x22), Send(0x24), Sleep(500),
        ]
    );
}

#[test]
fn finished_runner_keeps_finishing() {
    let mut r = EffectRunner::new(red(Effect::Pulse { on_ms: 1, off_ms: 1, count: 0 }));
    assert!(!r.finished());
    let a = r.next_action();
    let b = r.next_action();
    assert_eq!(a, b);
    assert!(r.finished());
}

#[test]
fn job_start_bookkeeping() {
    let yellow = Job { target: RouteChannel::Yellow, effect: Effect::Pulse { on_ms: 3, off_ms: 4, count: 5 } };
    assert_eq!(yellow.slot(), 4);
    assert_eq!(yellow.preempted_slots(), vec![0, 1, 2]);
    assert_eq!(
        yellow.begin_update(),
        LightUpdate::Yellow(ChannelState::Pulse { on_ms: 3, off_ms: 4, remaining: 5 }, true)
    );
    let green = Job { target: RouteChannel::Physical(PhysicalChannel::Green), effect: Effect::SwBlink { on_ms: 200, off_ms: 1800 } };
    assert_eq!(green.slot(), 2);
    assert_eq!(green.preempted_slots(), vec![4]);
    assert_eq!(
        green.begin_update(),
        LightUpdate::Channel(PhysicalChannel::Green, ChannelState::SwBlink { on_ms: 200, off_ms: 1800 })
    );
    let seq = red(Effect::Sequence { steps: vec![(1, 1)] });
    assert_eq!(seq.begin_update(), LightUpdate::Channel(PhysicalChannel::Red, ChannelState::On));
}

#[test]
fn starter_records_before_launch() {
    let job = red(Effect::Pulse { on_ms: 10, off_ms: 20, count: 0 });
    let s = JobStarter::new(job);
    let (s, a) = s.step();
    match a {
        StartAction::Cancel(slots) => assert_eq!(slots, vec![4, 0]),
        other => panic!("expected Cancel, got {:?}", other),
    }
    let (s, a) = s.step();
    match a {
        StartAction::Record(u) => assert_eq!(
            u,
            LightUpdate::Channel(PhysicalChannel::Red, ChannelState::Pulse { on_ms: 10, off_ms: 20, remaining: 0 })
        ),
        other => panic!("expected Record, got {:?}", other),
    }
    let (s, a) = s.step();
    match a {
        StartAction::Launch(t, mut runner) => {
            assert_eq!(t, RouteChannel::Physical(PhysicalChannel::Red));
            // a pulse of zero blinks finishes at once, turning the channel off
            assert_eq!(runner.next_action(), Finish(LightUpdate::Channel(PhysicalChannel::Red, ChannelState::Off)));
        }
        other => panic!("expected Launch, got {:?}", other),
    }
    let (s, a) = s.step();
    assert!(matches!(a, StartAction::Idle));
    let (_, a) = s.step();
    assert!(matches!(a, StartAction::Idle));
}

#[test]
fn yellow_starter_cancels_its_channels() {
    let job = Job { target: RouteChannel::Yellow, effect: Effect::SwBlink { on_ms: 500, off_ms: 500 } };
    let (s, a) = JobStarter::new(job).step();
    match a {
        StartAction::Cancel(slots) => assert_eq!(slots, vec![0, 1, 2, 4]),
        other => panic!("expected Cancel, got {:?}", other),
    }
    let (s, a) = s.step();
    match a {
        StartAction::Record(u) => assert_eq!(
            u,
            LightUpdate::Yellow(ChannelState::SwBlink { on_ms: 500, off_ms: 500 }, true)
        ),
        other => panic!("expected Record, got {:?}", other),
    }
    let (_, a) = s.step();
    match a {
        StartAction::Launch(t, mut runner) => {
            assert_eq!(t, RouteChannel::Yellow);
            assert_eq!(runner.next_action(), Send(0x11));
        }
        other => panic!("expected Launch, got {:?}", other),
    }
}
