use vstd::prelude::*;

verus! {

/// A point in time as seconds and nanoseconds since the Unix epoch (UTC).
#[derive(Debug, Clone, Copy, PartialEq, Eq, Structural)]
pub struct Timestamp {
    pub secs: i64,
    pub nanos: u32,
}

#[verifier::external_type_specification]
#[verifier::external_body]
pub struct ExSystemTime(std::time::SystemTime);

/// `std::time::SystemTime::now`. Nothing is stated of the result: it is
/// the system clock's reading.
#[verifier::external_body]
fn system_now() -> (t: std::time::SystemTime) {
    std::time::SystemTime::now()
}

/// `SystemTime::duration_since(UNIX_EPOCH)`, as whole seconds and the
/// nanoseconds past them; `None` when `t` is earlier than the epoch. Of a
/// reading, std's `Duration::subsec_nanos` documents only that the
/// nanoseconds are below one billion.
#[verifier::external_body]
fn since_epoch(t: &std::time::SystemTime) -> (r: Option<(u64, u32)>)
    ensures
        r matches Some((_, nanos)) ==> nanos < 1_000_000_000,
{
    match t.duration_since(std::time::UNIX_EPOCH) {
        Ok(d) => Some((d.as_secs(), d.subsec_nanos())),
        Err(_) => None,
    }
}

/// The first second of a UTC time stamp: -262143-01-01T00:00:00Z.
pub const MIN_UTC_SECS: i64 = -8_334_601_228_800;

/// The last second of a UTC time stamp: +262142-12-31T23:59:59Z.
pub const MAX_UTC_SECS: i64 = 8_210_266_876_799;

/// Whether a Unix time is a UTC instant: its day lies in the years
/// -262143..=262142, and the nanoseconds are below one second, or below two
/// seconds in the last second of a minute (a leap second).
pub open spec fn utc_representable(secs: i64, nanos: u32) -> bool {
    &&& MIN_UTC_SECS <= secs <= MAX_UTC_SECS
    &&& (nanos < 1_000_000_000 || (nanos < 2_000_000_000 && secs % 60 == 59))
}

/// `chrono::DateTime::<Utc>::from_timestamp`, read back with `timestamp`
/// and `timestamp_subsec_nanos`. chrono's source returns `None` exactly when
/// the day falls outside its years -262143..=262142 or the nanoseconds are
/// invalid (`NaiveTime::from_num_seconds_from_midnight_opt`: at least two
/// billion, or at least one billion outside a minute's last second), and
/// documents that it round-trips with those two readers, so a result holds
/// the arguments.
#[verifier::external_body]
fn utc_from_timestamp(secs: i64, nanos: u32) -> (r: Option<Timestamp>)
    ensures
        r is Some <==> utc_representable(secs, nanos),
        r matches Some(t) ==> t.secs == secs && t.nanos == nanos,
{
    match chrono::DateTime::from_timestamp(secs, nanos) {
        Some(dt) => Some(Timestamp { secs: dt.timestamp(), nanos: dt.timestamp_subsec_nanos() }),
        None => None,
    }
}

impl Timestamp {
    /// The time stamp for a Unix time, if it is a valid UTC instant.
    pub fn from_unix(secs: i64, nanos: u32) -> (r: Option<Timestamp>)
        ensures
            r is Some <==> utc_representable(secs, nanos),
            r matches Some(t) ==> t.secs == secs && t.nanos == nanos,
    {
        utc_from_timestamp(secs, nanos)
    }
}

/// The time stamp of a clock reading (seconds and nanoseconds since the
/// epoch, `None` before it): `None` when it is not a UTC instant.
pub open spec fn reading_timestamp(reading: Option<(u64, u32)>) -> Option<Timestamp> {
    match reading {
        None => None,
        Some((secs, nanos)) => if secs <= MAX_UTC_SECS && utc_representable(secs as i64, nanos) {
            Some(Timestamp { secs: secs as i64, nanos })
        } else {
            None
        },
    }
}

/// Turn a clock reading into a time stamp (see `reading_timestamp`).
pub fn timestamp_from_reading(reading: Option<(u64, u32)>) -> (r: Option<Timestamp>)
    ensures
        r == reading_timestamp(reading),
{
    match reading {
        None => None,
        Some((secs, nanos)) => {
            if secs <= MAX_UTC_SECS as u64 {
                Timestamp::from_unix(secs as i64, nanos)
            } else {
                None
            }
        },
    }
}

/// A reading of the wall clock as a time stamp after the Unix epoch, or
/// `None` when the clock reads earlier than the epoch or later than a UTC
/// time stamp can hold.
pub fn current_time() -> (r: Option<Timestamp>)
    ensures
        r matches Some(t) ==> t.secs >= 0 && t.nanos < 1_000_000_000,
{
    let now = system_now();
    timestamp_from_reading(since_epoch(&now))
}

/// The time of the last change after a change stamped from the clock:
/// unchanged when the clock could not be read, else a reading after the epoch.
pub open spec fn restamped(previous: Option<Timestamp>, next: Option<Timestamp>) -> bool {
    next == previous || (next matches Some(t) && t.secs >= 0 && t.nanos < 1_000_000_000)
}

/// State of one physical channel.
#[derive(Debug, PartialEq, Eq, Structural)]
pub enum ChannelState {
    Off,
    On,
    /// Hardware native blink (fixed ~1 Hz)
    HwBlink,
    /// Software-driven blink: period tracked by the blink engine
    SwBlink { on_ms: u64, off_ms: u64 },
    /// Blink N times then go off
    Pulse { on_ms: u64, off_ms: u64, remaining: u32 },
}

impl Clone for ChannelState {
    fn clone(&self) -> (r: Self)
        ensures
            r == *self,
    {
        match self {
            ChannelState::Off => ChannelState::Off,
            ChannelState::On => ChannelState::On,
            ChannelState::HwBlink => ChannelState::HwBlink,
            ChannelState::SwBlink { on_ms, off_ms } => ChannelState::SwBlink {
                on_ms: *on_ms,
                off_ms: *off_ms,
            },
            ChannelState::Pulse { on_ms, off_ms, remaining } => ChannelState::Pulse {
                on_ms: *on_ms,
                off_ms: *off_ms,
                remaining: *remaining,
            },
        }
    }
}

impl Default for ChannelState {
    fn default() -> (r: Self)
        ensures
            r == ChannelState::Off,
    {
        ChannelState::Off
    }
}

impl ChannelState {
    pub fn is_off(&self) -> (r: bool)
        ensures
            r == (*self is Off),
    {
        matches!(self, ChannelState::Off)
    }

    pub fn is_active(&self) -> (r: bool)
        ensures
            r == !(*self is Off),
    {
        !self.is_off()
    }
}

/// The four physical hardware channels.
#[derive(Debug, Clone, Copy, PartialEq, Eq, Structural)]
pub enum PhysicalChannel {
    Red,
    /// The physical orange LED segment (the middle one on the tower).
    Orange,
    Green,
    Buzzer,
}

/// The name under which a physical channel is shown and addressed.
pub open spec fn channel_name(ch: PhysicalChannel) -> Seq<char> {
    match ch {
        PhysicalChannel::Red => "red"@,
        PhysicalChannel::Orange => "orange"@,
        PhysicalChannel::Green => "green"@,
        PhysicalChannel::Buzzer => "buzzer"@,
    }
}

/// All physical channels, in hardware order.
pub open spec fn all_channels() -> Seq<PhysicalChannel> {
    seq![PhysicalChannel::Red, PhysicalChannel::Orange, PhysicalChannel::Green, PhysicalChannel::Buzzer]
}

impl PhysicalChannel {
    pub fn all() -> (r: [PhysicalChannel; 4])
        ensures
            r@ == all_channels(),
    {
        let r = [PhysicalChannel::Red, PhysicalChannel::Orange, PhysicalChannel::Green, PhysicalChannel::Buzzer];
        assert(r@ =~= all_channels());
        r
    }

    /// The channel's display name (`red`, `orange`, `green`, `buzzer`).
    pub fn name(&self) -> (r: &'static str)
        ensures
            r@ == channel_name(*self),
    {
        match self {
            PhysicalChannel::Red => "red",
            PhysicalChannel::Orange => "orange",
            PhysicalChannel::Green => "green",
            PhysicalChannel::Buzzer => "buzzer",
        }
    }
}

/// A parsed channel from a route: either a physical channel or the virtual yellow.
#[derive(Debug, Clone, Copy, PartialEq, Eq, Structural)]
pub enum RouteChannel {
    Physical(PhysicalChannel),
    Yellow,
}

/// The name under which a route channel is addressed.
pub open spec fn route_name(ch: RouteChannel) -> Seq<char> {
    match ch {
        RouteChannel::Physical(p) => channel_name(p),
        RouteChannel::Yellow => "yellow"@,
    }
}

impl RouteChannel {
    /// The channel's name (`red`, `orange`, `green`, `buzzer` or `yellow`).
    pub fn name(&self) -> (r: &'static str)
        ensures
            r@ == route_name(*self),
    {
        match self {
            RouteChannel::Physical(p) => p.name(),
            RouteChannel::Yellow => "yellow",
        }
    }
}

/// The channel that an already lower-cased name denotes, if any.
pub open spec fn route_channel_of(name: Seq<char>) -> Option<RouteChannel> {
    if name == "red"@ {
        Some(RouteChannel::Physical(PhysicalChannel::Red))
    } else if name == "orange"@ {
        Some(RouteChannel::Physical(PhysicalChannel::Orange))
    } else if name == "green"@ {
        Some(RouteChannel::Physical(PhysicalChannel::Green))
    } else if name == "buzzer"@ {
        Some(RouteChannel::Physical(PhysicalChannel::Buzzer))
    } else if name == "yellow"@ {
        Some(RouteChannel::Yellow)
    } else {
        None
    }
}

/// What `str::to_lowercase` returns for a string: Unicode lower-casing.
pub uninterp spec fn lowercase_of(s: Seq<char>) -> Seq<char>;

/// `str::to_lowercase`: its result is named `lowercase_of` of the argument;
/// the Unicode case mapping itself is not stated.
#[verifier::external_body]
fn to_lowercase(s: &str) -> (r: String)
    ensures
        r@ == lowercase_of(s@),
{
    s.to_lowercase()
}

fn same_text(a: &str, b: &str) -> (r: bool)
    ensures
        r == (a@ == b@),
{
    a.to_owned() == b.to_owned()
}

/// Map an already lower-cased channel name to its channel.
pub fn route_channel_from_lowercase(name: &str) -> (r: Option<RouteChannel>)
    ensures
        r == route_channel_of(name@),
{
    if same_text(name, "red") {
        Some(RouteChannel::Physical(PhysicalChannel::Red))
    } else if same_text(name, "orange") {
        Some(RouteChannel::Physical(PhysicalChannel::Orange))
    } else if same_text(name, "green") {
        Some(RouteChannel::Physical(PhysicalChannel::Green))
    } else if same_text(name, "buzzer") {
        Some(RouteChannel::Physical(PhysicalChannel::Buzzer))
    } else if same_text(name, "yellow") {
        Some(RouteChannel::Yellow)
    } else {
        None
    }
}

/// Parse a channel name from a route path segment, ignoring case.
pub fn parse_route_channel(s: &str) -> (r: Option<RouteChannel>)
    ensures
        r == route_channel_of(lowercase_of(s@)),
{
    let lowered = to_lowercase(s);
    route_channel_from_lowercase(lowered.as_str())
}

/// The full logical light state.
#[derive(Debug)]
pub struct LightState {
    pub red: ChannelState,
    /// The physical orange LED segment (labelled "yellow" on the hardware).
    pub orange: ChannelState,
    pub green: ChannelState,
    pub buzzer: ChannelState,
    /// True when the virtual yellow mode is active (red + orange + green
    /// were turned on together). Cleared by any manual per-channel change.
    pub yellow: bool,
    pub last_updated: Option<Timestamp>,
}

/// A change to the logical light state.
#[derive(Debug, PartialEq, Eq, Structural)]
pub enum LightUpdate {
    /// Set one physical channel; leaves yellow mode.
    Channel(PhysicalChannel, ChannelState),
    /// Set red, orange and green together, with the given yellow flag.
    Yellow(ChannelState, bool),
    /// Everything off.
    Clear,
}

impl Clone for LightUpdate {
    fn clone(&self) -> (r: Self)
        ensures
            r == *self,
    {
        match self {
            LightUpdate::Channel(ch, st) => LightUpdate::Channel(*ch, st.clone()),
            LightUpdate::Yellow(st, active) => LightUpdate::Yellow(st.clone(), *active),
            LightUpdate::Clear => LightUpdate::Clear,
        }
    }
}

impl LightState {
    /// The state of one physical channel.
    pub open spec fn channel(&self, ch: PhysicalChannel) -> ChannelState {
        match ch {
            PhysicalChannel::Red => self.red,
            PhysicalChannel::Orange => self.orange,
            PhysicalChannel::Green => self.green,
            PhysicalChannel::Buzzer => self.buzzer,
        }
    }

    /// Two light states agree in everything but the time of the last change.
    pub open spec fn same_lights(&self, other: &LightState) -> bool {
        &&& self.red == other.red
        &&& self.orange == other.orange
        &&& self.green == other.green
        &&& self.buzzer == other.buzzer
        &&& self.yellow == other.yellow
    }

    /// The light state that `update` leaves behind, up to the time stamp.
    pub open spec fn updated(&self, update: LightUpdate) -> LightState {
        match update {
            LightUpdate::Channel(ch, st) => LightState {
                red: if ch == PhysicalChannel::Red { st } else { self.red },
                orange: if ch == PhysicalChannel::Orange { st } else { self.orange },
                green: if ch == PhysicalChannel::Green { st } else { self.green },
                buzzer: if ch == PhysicalChannel::Buzzer { st } else { self.buzzer },
                yellow: false,
                last_updated: self.last_updated,
            },
            LightUpdate::Yellow(st, active) => LightState {
                red: st,
                orange: st,
                green: st,
                buzzer: self.buzzer,
                yellow: active,
                last_updated: self.last_updated,
            },
            LightUpdate::Clear => LightState {
                red: ChannelState::Off,
                orange: ChannelState::Off,
                green: ChannelState::Off,
                buzzer: ChannelState::Off,
                yellow: false,
                last_updated: self.last_updated,
            },
        }
    }

    /// Everything off, yellow mode inactive, never changed.
    pub open spec fn initial() -> LightState {
        LightState {
            red: ChannelState::Off,
            orange: ChannelState::Off,
            green: ChannelState::Off,
            buzzer: ChannelState::Off,
            yellow: false,
            last_updated: None,
        }
    }

    pub fn new() -> (r: LightState)
        ensures
            r == LightState::initial(),
    {
        LightState {
            red: ChannelState::Off,
            orange: ChannelState::Off,
            green: ChannelState::Off,
            buzzer: ChannelState::Off,
            yellow: false,
            last_updated: None,
        }
    }

    fn clear_lights(&mut self)
        ensures
            final(self).same_lights(&old(self).updated(LightUpdate::Clear)),
            final(self).last_updated == old(self).last_updated,
    {
        self.red = ChannelState::Off;
        self.orange = ChannelState::Off;
        self.green = ChannelState::Off;
        self.buzzer = ChannelState::Off;
        self.yellow = false;
    }

    fn set_channel_lights(&mut self, ch: PhysicalChannel, state: ChannelState)
        ensures
            final(self).same_lights(&old(self).updated(LightUpdate::Channel(ch, state))),
            final(self).last_updated == old(self).last_updated,
    {
        self.yellow = false;
        match ch {
            PhysicalChannel::Red => self.red = state,
            PhysicalChannel::Orange => self.orange = state,
            PhysicalChannel::Green => self.green = state,
            PhysicalChannel::Buzzer => self.buzzer = state,
        }
    }

    fn set_yellow_lights(&mut self, state: ChannelState, active: bool)
        ensures
            final(self).same_lights(&old(self).updated(LightUpdate::Yellow(state, active))),
            final(self).last_updated == old(self).last_updated,
    {
        self.yellow = active;
        self.red = state.clone();
        self.orange = state.clone();
        self.green = state;
    }

    /// Apply one change to the light state, made at `now`.
    pub fn apply_at(&mut self, update: LightUpdate, now: Timestamp)
        ensures
            final(self).same_lights(&old(self).updated(update)),
            final(self).last_updated == Some(now),
    {
        match update {
            LightUpdate::Channel(ch, st) => self.set_channel_lights(ch, st),
            LightUpdate::Yellow(st, active) => self.set_yellow_lights(st, active),
            LightUpdate::Clear => self.clear_lights(),
        }
        self.last_updated = Some(now);
    }

    /// Everything off and yellow mode left, at `now`.
    pub fn clear_at(&mut self, now: Timestamp)
        ensures
            final(self).same_lights(&old(self).updated(LightUpdate::Clear)),
            final(self).last_updated == Some(now),
    {
        self.apply_at(LightUpdate::Clear, now);
    }

    /// Set a physical channel and leave yellow mode, at `now`.
    pub fn set_channel_at(&mut self, ch: PhysicalChannel, state: ChannelState, now: Timestamp)
        ensures
            final(self).same_lights(&old(self).updated(LightUpdate::Channel(ch, state))),
            final(self).last_updated == Some(now),
    {
        self.apply_at(LightUpdate::Channel(ch, state), now);
    }

    /// Set red, orange and green with the yellow flag, at `now`.
    pub fn set_yellow_at(&mut self, state: ChannelState, active: bool, now: Timestamp)
        ensures
            final(self).same_lights(&old(self).updated(LightUpdate::Yellow(state, active))),
            final(self).last_updated == Some(now),
    {
        self.apply_at(LightUpdate::Yellow(state, active), now);
    }

    /// Everything off, yellow mode left, and the change stamped with the
    /// clock (the stamp stays as it was when the clock cannot be read).
    pub fn clear(&mut self)
        ensures
            final(self).same_lights(&old(self).updated(LightUpdate::Clear)),
            restamped(old(self).last_updated, final(self).last_updated),
    {
        match current_time() {
            Some(t) => self.clear_at(t),
            None => self.clear_lights(),
        }
    }

    /// Set a physical channel state and clear yellow mode, since the user is
    /// now controlling channels independently; stamped with the clock.
    pub fn set_channel(&mut self, ch: PhysicalChannel, state: ChannelState)
        ensures
            final(self).same_lights(&old(self).updated(LightUpdate::Channel(ch, state))),
            restamped(old(self).last_updated, final(self).last_updated),
    {
        match current_time() {
            Some(t) => self.set_channel_at(ch, state, t),
            None => self.set_channel_lights(ch, state),
        }
    }

    /// Set yellow mode state across all three coloured channels; stamped
    /// with the clock.
    pub fn set_yellow(&mut self, state: ChannelState, active: bool)
        ensures
            final(self).same_lights(&old(self).updated(LightUpdate::Yellow(state, active))),
            restamped(old(self).last_updated, final(self).last_updated),
    {
        match current_time() {
            Some(t) => self.set_yellow_at(state, active, t),
            None => self.set_yellow_lights(state, active),
        }
    }

    /// Apply one change to the light state, stamped with the clock.
    pub fn apply(&mut self, update: LightUpdate)
        ensures
            final(self).same_lights(&old(self).updated(update)),
            restamped(old(self).last_updated, final(self).last_updated),
    {
        match update {
            LightUpdate::Channel(ch, st) => self.set_channel(ch, st),
            LightUpdate::Yellow(st, active) => self.set_yellow(st, active),
            LightUpdate::Clear => self.clear(),
        }
    }

    pub fn get_channel(&self, ch: PhysicalChannel) -> (r: &ChannelState)
        ensures
            *r == self.channel(ch),
    {
        match ch {
            PhysicalChannel::Red => &self.red,
            PhysicalChannel::Orange => &self.orange,
            PhysicalChannel::Green => &self.green,
            PhysicalChannel::Buzzer => &self.buzzer,
        }
    }
}

/// Yellow mode means red, orange and green show one state together: every
/// update leaves the light so, whatever it was before.
pub proof fn lemma_yellow_mode_consistent(light: LightState, update: LightUpdate)
    ensures
        light.updated(update).yellow ==> (light.updated(update).red == light.updated(update).orange
            && light.updated(update).orange == light.updated(update).green),
{
}

impl Clone for LightState {
    fn clone(&self) -> (r: Self)
        ensures
            r == *self,
    {
        LightState {
            red: self.red.clone(),
            orange: self.orange.clone(),
            green: self.green.clone(),
            buzzer: self.buzzer.clone(),
            yellow: self.yellow,
            last_updated: self.last_updated,
        }
    }
}

impl Default for LightState {
    fn default() -> (r: Self)
        ensures
            r == LightState::initial(),
    {
        LightState::new()
    }
}

} // verus!
