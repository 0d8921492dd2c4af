use tower_api::state::{
    parse_route_channel, route_channel_from_lowercase, ChannelState, LightState, LightUpdate,
    PhysicalChannel, RouteChannel, current_time, timestamp_from_reading, Timestamp, MAX_UTC_SECS,
    MIN_UTC_SECS,
};

#[test]
fn channel_state_off_and_active() {
    assert!(ChannelState::Off.is_off());
    assert!(!ChannelState::Off.is_active());
    assert!(ChannelState::On.is_active());
    assert!(ChannelState::HwBlink.is_active());
    assert!(ChannelState::SwBlink { on_ms: 1, off_ms: 2 }.is_active());
    assert!(!ChannelState::Pulse { on_ms: 1, off_ms: 2, remaining: 3 }.is_off());
    assert_eq!(ChannelState::default(), ChannelState::Off);
}

#[test]
fn all_channels_in_hardware_order() {
    assert_eq!(
        PhysicalChannel::all(),
        [PhysicalChannel::Red, PhysicalChannel::Orange, PhysicalChannel::Green, PhysicalChannel::Buzzer]
    );
}

#[test]
fn channel_names() {
    assert_eq!(PhysicalChannel::Red.name(), "red");
    assert_eq!(PhysicalChannel::Orange.name(), "orange");
    assert_eq!(PhysicalChannel::Green.name(), "green");
    assert_eq!(PhysicalChannel::Buzzer.name(), "buzzer");
    assert_eq!(RouteChannel::Yellow.name(), "yellow");
    assert_eq!(RouteChannel::Physical(PhysicalChannel::Green).name(), "green");
}

#[test]
fn parse_known_channels() {
    assert_eq!(parse_route_channel("red"), Some(RouteChannel::Physical(PhysicalChannel::Red)));
    assert_eq!(parse_route_channel("orange"), Some(RouteChannel::Physical(PhysicalChannel::Orange)));
    assert_eq!(parse_route_channel("green"), Some(RouteChannel::Physical(PhysicalChannel::Green)));
    assert_eq!(parse_route_channel("buzzer"), Some(RouteChannel::Physical(PhysicalChannel::Buzzer)));
    assert_eq!(parse_route_channel("yellow"), Some(RouteChannel::Yellow));
}

#[test]
fn parse_ignores_case() {
    assert_eq!(parse_route_channel("RED"), Some(RouteChannel::Physical(PhysicalChannel::Red)));
    assert_eq!(parse_route_channel("Yellow"), Some(RouteChannel::Yellow));
    assert_eq!(parse_route_channel("BuZzEr"), Some(RouteChannel::Physical(PhysicalChannel::Buzzer)));
}

#[test]
fn parse_unknown_channels() {
    assert_eq!(parse_route_channel("purple"), None);
    assert_eq!(parse_route_channel(""), None);
    assert_eq!(parse_route_channel("red "), None);
    assert_eq!(parse_route_channel("reds"), None);
}

#[test]
fn lowercase_lookup_is_exact() {
    assert_eq!(route_channel_from_lowercase("green"), Some(RouteChannel::Physical(PhysicalChannel::Green)));
    assert_eq!(route_channel_from_lowercase("Green"), None);
}

#[test]
fn new_light_state_is_all_off() {
    let l = LightState::new();
    assert_eq!(l.red, ChannelState::Off);
    assert_eq!(l.orange, ChannelState::Off);
    assert_eq!(l.green, ChannelState::Off);
    assert_eq!(l.buzzer, ChannelState::Off);
    assert!(!l.yellow);
    assert!(l.last_updated.is_none());
    let d = LightState::default();
    assert!(d.last_updated.is_none());
}

#[test]
fn set_channel_leaves_yellow_mode() {
    let mut l = LightState::new();
    l.set_yellow(ChannelState::On, true);
    assert!(l.yellow);
    l.set_channel(PhysicalChannel::Buzzer, ChannelState::HwBlink);
    assert!(!l.yellow);
    assert_eq!(l.buzzer, ChannelState::HwBlink);
    assert_eq!(l.red, ChannelState::On);
    assert_eq!(l.orange, ChannelState::On);
    assert_eq!(l.green, ChannelState::On);
    assert!(l.last_updated.is_some());
}

#[test]
fn set_yellow_sets_three_channels() {
    let mut l = LightState::new();
    l.set_channel(PhysicalChannel::Buzzer, ChannelState::On);
    l.set_yellow(ChannelState::SwBlink { on_ms: 300, off_ms: 300 }, true);
    assert_eq!(l.red, ChannelState::SwBlink { on_ms: 300, off_ms: 300 });
    assert_eq!(l.orange, ChannelState::SwBlink { on_ms: 300, off_ms: 300 });
    assert_eq!(l.green, ChannelState::SwBlink { on_ms: 300, off_ms: 300 });
    assert_eq!(l.buzzer, ChannelState::On);
    assert!(l.yellow);
}

#[test]
fn clear_turns_everything_off() {
    let mut l = LightState::new();
    l.set_yellow(ChannelState::On, true);
    l.set_channel(PhysicalChannel::Buzzer, ChannelState::On);
    l.clear();
    for ch in PhysicalChannel::all() {
        assert_eq!(*l.get_channel(ch), ChannelState::Off);
    }
    assert!(!l.yellow);
    assert!(l.last_updated.is_some());
}

#[test]
fn apply_dispatches_updates() {
    let mut l = LightState::new();
    l.apply(LightUpdate::Channel(PhysicalChannel::Orange, ChannelState::On));
    assert_eq!(*l.get_channel(PhysicalChannel::Orange), ChannelState::On);
    l.apply(LightUpdate::Yellow(ChannelState::HwBlink, false));
    assert_eq!(l.red, ChannelState::HwBlink);
    assert!(!l.yellow);
    l.apply(LightUpdate::Clear);
    assert_eq!(l.red, ChannelState::Off);
}

#[test]
fn time_stamp_is_recent() {
    let mut l = LightState::new();
    l.set_channel(PhysicalChannel::Red, ChannelState::On);
    let t = l.last_updated.unwrap();
    // 2020-01-01T00:00:00Z
    assert!(t.secs > 1_577_836_800);
    let now = current_time().unwrap();
    assert!(now.secs >= t.secs);
    assert!(now.nanos < 1_000_000_000);
}

#[test]
fn unix_time_stamps() {
    assert_eq!(Timestamp::from_unix(1_431_648_000, 5), Some(Timestamp { secs: 1_431_648_000, nanos: 5 }));
    assert_eq!(Timestamp::from_unix(i64::MAX, 0), None);
    assert_eq!(Timestamp::from_unix(0, 2_000_000_000), None);
}

#[test]
fn changes_at_a_given_time() {
    let at = Timestamp { secs: 1_700_000_000, nanos: 42 };
    let mut l = LightState::new();
    l.set_yellow_at(ChannelState::On, true, at);
    assert_eq!(l.last_updated, Some(at));
    assert!(l.yellow);
    let later = Timestamp { secs: 1_700_000_001, nanos: 0 };
    l.set_channel_at(PhysicalChannel::Buzzer, ChannelState::On, later);
    assert_eq!(l.last_updated, Some(later));
    assert!(!l.yellow);
    assert_eq!(l.red, ChannelState::On);
    l.clear_at(at);
    assert_eq!(l.last_updated, Some(at));
    assert_eq!(l.buzzer, ChannelState::Off);
    l.apply_at(LightUpdate::Channel(PhysicalChannel::Green, ChannelState::HwBlink), later);
    assert_eq!(l.green, ChannelState::HwBlink);
    assert_eq!(l.last_updated, Some(later));
}

#[test]
fn clone_keeps_state() {
    let mut l = LightState::new();
    l.set_channel(PhysicalChannel::Green, ChannelState::Pulse { on_ms: 1, off_ms: 2, remaining: 3 });
    let c = l.clone();
    assert_eq!(c.green, l.green);
    assert_eq!(c.last_updated, l.last_updated);
}

#[test]
fn unix_time_range_edges() {
    assert!(Timestamp::from_unix(MAX_UTC_SECS, 999_999_999).is_some());
    assert_eq!(Timestamp::from_unix(MAX_UTC_SECS + 1, 0), None);
    assert!(Timestamp::from_unix(MIN_UTC_SECS, 0).is_some());
    assert_eq!(Timestamp::from_unix(MIN_UTC_SECS - 1, 0), None);
    // a leap second is written as nanoseconds past one billion, at second 59
    assert_eq!(
        Timestamp::from_unix(59, 1_500_000_000),
        Some(Timestamp { secs: 59, nanos: 1_500_000_000 })
    );
    assert_eq!(Timestamp::from_unix(58, 1_500_000_000), None);
    assert!(Timestamp::from_unix(-1, 1_500_000_000).is_some());
    assert_eq!(Timestamp::from_unix(59, 2_000_000_000), None);
}

#[test]
fn clock_readings_to_time_stamps() {
    assert_eq!(timestamp_from_reading(None), None);
    assert_eq!(timestamp_from_reading(Some((u64::MAX, 0))), None);
    assert_eq!(
        timestamp_from_reading(Some((1_431_648_000, 5))),
        Some(Timestamp { secs: 1_431_648_000, nanos: 5 })
    );
    assert_eq!(timestamp_from_reading(Some((MAX_UTC_SECS as u64 + 1, 0))), None);
    assert_eq!(timestamp_from_reading(Some((0, 1_000_000_000))), None);
}
