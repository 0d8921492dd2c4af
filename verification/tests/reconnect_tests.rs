use tower_api::reconnect::{monitor_step, restore_commands, MonitorAction, MonitorEvent, MonitorPhase};
use tower_api::state::{ChannelState, LightState, PhysicalChannel};

#[test]
fn restore_resends_static_states_only() {
    let mut l = LightState::new();
    l.set_channel(PhysicalChannel::Red, ChannelState::On);
    l.set_channel(PhysicalChannel::Orange, ChannelState::SwBlink { on_ms: 100, off_ms: 100 });
    l.set_channel(PhysicalChannel::Green, ChannelState::HwBlink);
    l.set_channel(PhysicalChannel::Buzzer, ChannelState::Pulse { on_ms: 1, off_ms: 1, remaining: 2 });
    assert_eq!(restore_commands(&l), vec![0x11, 0x44]);
}

#[test]
fn restore_of_all_off_resends_off() {
    let l = LightState::new();
    assert_eq!(restore_commands(&l), vec![0x21, 0x22, 0x24, 0x28]);
}

#[test]
fn monitor_waits_while_connected() {
    assert_eq!(
        monitor_step(MonitorPhase::Idle, MonitorEvent::Tick { connected: true }),
        (MonitorPhase::Idle, MonitorAction::Wait)
    );
}

#[test]
fn monitor_reconnects_restores_then_publishes() {
    let (p, a) = monitor_step(MonitorPhase::Idle, MonitorEvent::Tick { connected: false });
    assert_eq!((p, a), (MonitorPhase::Opening, MonitorAction::Open));
    let (p, a) = monitor_step(p, MonitorEvent::Opened { connected: false });
    assert_eq!((p, a), (MonitorPhase::Restoring, MonitorAction::Restore));
    let (p, a) = monitor_step(p, MonitorEvent::Restored);
    assert_eq!((p, a), (MonitorPhase::Idle, MonitorAction::Publish));
}

#[test]
fn monitor_gives_up_on_failed_open_or_race() {
    assert_eq!(
        monitor_step(MonitorPhase::Opening, MonitorEvent::OpenFailed),
        (MonitorPhase::Idle, MonitorAction::Wait)
    );
    assert_eq!(
        monitor_step(MonitorPhase::Opening, MonitorEvent::Opened { connected: true }),
        (MonitorPhase::Idle, MonitorAction::Discard)
    );
    assert_eq!(
        monitor_step(MonitorPhase::Idle, MonitorEvent::Restored),
        (MonitorPhase::Idle, MonitorAction::Wait)
    );
}

#[test]
fn boot_state_is_green() {
    let mut l = LightState::new();
    l.set_yellow(ChannelState::On, true);
    l.boot_ready();
    assert_eq!(l.green, ChannelState::On);
    assert_eq!(l.red, ChannelState::Off);
    assert_eq!(l.orange, ChannelState::Off);
    assert_eq!(l.buzzer, ChannelState::Off);
    assert!(!l.yellow);
}
