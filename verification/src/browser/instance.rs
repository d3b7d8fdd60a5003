//! One running browser: its health, its use and when it is due for replacement.
//!
//! Times are nanoseconds on one monotonic clock; a time that lies ahead of `now` counts as `now`.

use vstd::prelude::*;

use crate::text::{chars_of, contains, decimal, is_numeric};
#[allow(unused_imports)]
use crate::text::{contains_text, decimal_text, is_numeric_char, texts};

verus! {

pub const NANOS_PER_SEC: u128 = 1_000_000_000;

/// A browser older than this is replaced.
pub const MAX_AGE_SECS: u64 = 1200;

/// A browser that was handed out more often than this is replaced.
pub const MAX_USES: usize = 30;

/// A browser that was not handed out for longer than this is surplus.
pub const MAX_IDLE_SECS: u64 = 300;

/// How long a browser may take to answer a health ping.
pub const PING_TIMEOUT_SECS: u64 = 5;

/// How long a browser may take to start.
pub const LAUNCH_TIMEOUT_SECS: u64 = 60;

/// The time from `since` to `now`, none if `since` lies ahead.
pub open spec fn elapsed_nanos(since: u128, now: u128) -> int {
    if now >= since {
        now - since
    } else {
        0
    }
}

pub fn elapsed(since: u128, now: u128) -> (r: u128)
    ensures
        r == elapsed_nanos(since, now),
{
    if now >= since {
        now - since
    } else {
        0
    }
}

/// A browser with health tracking. `id` names the process that it stands for.
#[derive(Clone, Copy, Debug, PartialEq, Eq, Structural)]
pub struct BrowserInstance {
    pub id: u64,
    pub created_at: u128,
    pub last_used: u128,
    pub usage_count: usize,
    pub is_healthy: bool,
}

/// How a health ping ended.
#[derive(Clone, Copy, Debug, PartialEq, Eq, Structural)]
pub enum PingOutcome {
    Answered,
    Failed,
    TimedOut,
}

/// What the connection to a browser reported.
#[derive(Debug)]
pub enum HandlerEvent {
    Message,
    Error(String),
    Ended,
}

impl BrowserInstance {
    /// It is too old or was used too often at `now`.
    pub open spec fn retires(self, now: u128) -> bool {
        ||| elapsed_nanos(self.created_at, now) > MAX_AGE_SECS * NANOS_PER_SEC
        ||| self.usage_count > MAX_USES
    }

    /// It has not been used for too long at `now`.
    pub open spec fn idles(self, now: u128) -> bool {
        elapsed_nanos(self.last_used, now) > MAX_IDLE_SECS * NANOS_PER_SEC
    }

    /// It may be handed out at `now`.
    pub open spec fn usable(self, now: u128) -> bool {
        self.is_healthy && !self.retires(now)
    }

    /// A browser that was started at `now`.
    pub open spec fn fresh(id: u64, now: u128) -> BrowserInstance {
        BrowserInstance { id, created_at: now, last_used: now, usage_count: 0, is_healthy: true }
    }

    /// The browser after it was handed out once more at `now`.
    pub open spec fn used(self, now: u128) -> BrowserInstance {
        BrowserInstance { last_used: now, usage_count: (self.usage_count + 1) as usize, ..self }
    }

    pub open spec fn unhealthy(self) -> BrowserInstance {
        BrowserInstance { is_healthy: false, ..self }
    }

    pub fn new(id: u64, now: u128) -> (r: Self)
        ensures
            r == Self::fresh(id, now),
    {
        BrowserInstance { id, created_at: now, last_used: now, usage_count: 0, is_healthy: true }
    }

    pub fn is_healthy(&self) -> (r: bool)
        ensures
            r == self.is_healthy,
    {
        self.is_healthy
    }

    pub fn mark_unhealthy(&mut self)
        ensures
            *final(self) == old(self).unhealthy(),
    {
        self.is_healthy = false;
    }

    pub fn mark_used(&mut self, now: u128)
        requires
            old(self).usage_count < usize::MAX,
        ensures
            *final(self) == old(self).used(now),
    {
        self.last_used = now;
        self.usage_count = self.usage_count + 1;
    }

    /// The time since the browser was started.
    pub fn age(&self, now: u128) -> (r: u128)
        ensures
            r == elapsed_nanos(self.created_at, now),
    {
        elapsed(self.created_at, now)
    }

    /// The browser has run for over twenty minutes or was used over thirty times.
    pub fn should_retire(&self, now: u128) -> (r: bool)
        ensures
            r == self.retires(now),
    {
        self.age(now) > MAX_AGE_SECS as u128 * NANOS_PER_SEC || self.usage_count > MAX_USES
    }

    /// The time since the browser was last handed out.
    pub fn idle_time(&self, now: u128) -> (r: u128)
        ensures
            r == elapsed_nanos(self.last_used, now),
    {
        elapsed(self.last_used, now)
    }

    /// The browser has been idle for over five minutes.
    pub fn is_idle_too_long(&self, now: u128) -> (r: bool)
        ensures
            r == self.idles(now),
    {
        self.idle_time(now) > MAX_IDLE_SECS as u128 * NANOS_PER_SEC
    }

    /// A browser responds if it answered the ping, and in time.
    pub fn health_ping(outcome: PingOutcome) -> (r: bool)
        ensures
            r == (outcome == PingOutcome::Answered),
            r <==> !(outcome is Failed) && !(outcome is TimedOut),
    {
        match outcome {
            PingOutcome::Answered => true,
            PingOutcome::Failed => false,
            PingOutcome::TimedOut => false,
        }
    }
}

/// The error text tells that the connection to the browser is gone.
pub open spec fn tells_lost_connection(message: Seq<char>) -> bool {
    contains_text(message, "closed connection"@) || contains_text(message, "WebSocket"@)
}

/// After this event the connection is no longer read, and the browser counts as unhealthy.
pub open spec fn ends_connection(event: HandlerEvent) -> bool {
    match event {
        HandlerEvent::Message => false,
        HandlerEvent::Error(message) => tells_lost_connection(message@),
        HandlerEvent::Ended => true,
    }
}

/// Whether the browser is lost with this event.
pub fn connection_lost(event: &HandlerEvent) -> (r: bool)
    ensures
        r == ends_connection(*event),
{
    match event {
        HandlerEvent::Message => false,
        HandlerEvent::Error(message) => {
            contains(message.as_str(), "closed connection") || contains(
                message.as_str(),
                "WebSocket",
            )
        },
        HandlerEvent::Ended => true,
    }
}

/// The command line switches that every browser is started with.
pub open spec fn launch_switches() -> Seq<Seq<char>> {
    seq![
        "--disable-setuid-sandbox"@,
        "--disable-dev-shm-usage"@,
        "--disable-features=VizDisplayCompositor"@,
        "--disable-gpu"@,
        "--disable-background-timer-throttling"@,
        "--disable-backgrounding-occluded-windows"@,
        "--disable-renderer-backgrounding"@,
        "--disable-extensions"@,
        "--disable-default-apps"@,
        "--no-first-run"@,
        "--no-default-browser-check"@,
        "--headless"@,
        "--timezone=Indian/Maldives"@,
        "--max-old-space-size=512"@,
        "--js-flags=--max-old-space-size=512"@,
    ]
}

pub fn launch_args() -> (r: Vec<String>)
    ensures
        texts(r@) == launch_switches(),
{
    let mut args: Vec<String> = Vec::new();
    args.push("--disable-setuid-sandbox".to_owned());
    args.push("--disable-dev-shm-usage".to_owned());
    args.push("--disable-features=VizDisplayCompositor".to_owned());
    args.push("--disable-gpu".to_owned());
    args.push("--disable-background-timer-throttling".to_owned());
    args.push("--disable-backgrounding-occluded-windows".to_owned());
    args.push("--disable-renderer-backgrounding".to_owned());
    args.push("--disable-extensions".to_owned());
    args.push("--disable-default-apps".to_owned());
    args.push("--no-first-run".to_owned());
    args.push("--no-default-browser-check".to_owned());
    args.push("--headless".to_owned());
    args.push("--timezone=Indian/Maldives".to_owned());
    args.push("--max-old-space-size=512".to_owned());
    args.push("--js-flags=--max-old-space-size=512".to_owned());
    proof {
        assert(texts(args@) =~= launch_switches());
    }
    args
}

/// The name of a browser's own data directory: the time of its start in milliseconds and the
/// digits of the name of the thread that started it.
pub open spec fn data_dir_name(timestamp_millis: u128, thread_name: Seq<char>) -> Seq<char> {
    "chrome-rust-pdf-"@ + decimal_text(timestamp_millis as nat) + "-"@ + thread_name.filter(
        |c: char| is_numeric_char(c),
    )
}

pub fn user_data_dir_name(timestamp_millis: u128, thread_name: &str) -> (r: String)
    ensures
        r@ == data_dir_name(timestamp_millis, thread_name@),
{
    let v = chars_of(thread_name);
    let mut digits = String::new();
    let ghost keep = |c: char| is_numeric_char(c);
    let mut i: usize = 0;
    proof {
        assert(v@.take(0).filter(keep) =~= Seq::<char>::empty()) by {
            reveal(Seq::filter);
        }
    }
    while i < v.len()
        invariant
            i <= v@.len(),
            keep == |c: char| is_numeric_char(c),
            digits@ == v@.take(i as int).filter(keep),
        decreases v@.len() - i,
    {
        proof {
            reveal(Seq::filter);
            assert(v@.take(i + 1).drop_last() == v@.take(i as int));
        }
        if is_numeric(v[i]) {
            digits.push(v[i]);
        }
        i += 1;
    }
    proof {
        assert(v@.take(v@.len() as int) == v@);
    }
    let number = decimal(timestamp_millis);
    let mut r = "chrome-rust-pdf-".to_owned();
    r.append(number.as_str());
    r.append("-");
    r.append(digits.as_str());
    r
}

// ---------------------------------------------------------------------------
// Laws
// ---------------------------------------------------------------------------

/// When a browser may be handed out and when it is surplus, on its clock and its counter: it
/// retires once it is more than twenty minutes old or was handed out more than thirty times, and
/// idles once it was last handed out more than five minutes ago; nothing else matters, and it may
/// be handed out exactly while it is healthy and does not retire.
pub proof fn law_lifetime(i: BrowserInstance, now: u128)
    ensures
        i.retires(now) <==> now > i.created_at + 1_200_000_000_000 || i.usage_count >= 31,
        i.idles(now) <==> now > i.last_used + 300_000_000_000,
        i.usable(now) <==> i.is_healthy && now <= i.created_at + 1_200_000_000_000 && i.usage_count
            <= 30,
{
}

/// A browser that may not be handed out any more stays so, as time goes on and however often it is
/// used; one that may be stays so for as long as it was used and aged no more than another.
pub proof fn law_lifetime_ends(i: BrowserInstance, j: BrowserInstance, now: u128, later: u128)
    requires
        now <= later,
        i.is_healthy ==> j.is_healthy,
        j.created_at >= i.created_at,
        j.usage_count <= i.usage_count,
    ensures
        i.usable(later) ==> j.usable(now),
{
}

/// What happens to a browser, field by field: a new one is healthy, unused and as old as it is
/// idle; handing it out moves its last use and counts one more; losing its health changes nothing
/// else, and for good it is no longer handed out.
pub proof fn law_instance_changes(i: BrowserInstance, id: u64, now: u128, later: u128)
    requires
        i.usage_count < usize::MAX,
    ensures
        ({
            let f = BrowserInstance::fresh(id, now);
            &&& f.id == id && f.is_healthy && f.usage_count == 0
            &&& f.created_at == now && f.last_used == now
            &&& f.usable(now) && !f.idles(now)
        }),
        ({
            let u = i.used(now);
            &&& u.id == i.id && u.created_at == i.created_at && u.is_healthy == i.is_healthy
            &&& u.last_used == now && u.usage_count == i.usage_count + 1
            &&& !u.idles(now)
        }),
        ({
            let l = i.unhealthy();
            &&& l.id == i.id && l.created_at == i.created_at && l.last_used == i.last_used
            &&& l.usage_count == i.usage_count && !l.is_healthy
            &&& !l.usable(later)
        }),
{
}

/// The time that has passed takes a clock from then to now, and does not take it back.
pub proof fn law_elapsed(since: u128, now: u128)
    ensures
        since <= now ==> since + elapsed_nanos(since, now) == now,
        since > now ==> elapsed_nanos(since, now) == 0,
{
}

/// A browser is lost with the end of its connection and with every error whose text holds one of
/// two phrases, wherever it stands; with no other error, and with no message.
pub proof fn law_connection_lost(message: String, event: HandlerEvent, a: Seq<char>, b: Seq<char>)
    ensures
        event is Message ==> !ends_connection(event),
        event is Ended ==> ends_connection(event),
        event == HandlerEvent::Error(message) && (message@ == a + "closed connection"@ + b
            || message@ == a + "WebSocket"@ + b) ==> ends_connection(event),
        event == HandlerEvent::Error(message) && !contains_text(message@, "closed connection"@)
            && !contains_text(message@, "WebSocket"@) ==> !ends_connection(event),
{
    crate::text::law_contains_text(message@, a, "closed connection"@, b);
    crate::text::law_contains_text(message@, a, "WebSocket"@, b);
}

/// The name of a data directory begins with the time of the start, and goes on with the numeric
/// characters of the thread's name, one after the other.
pub proof fn law_data_dir_name(timestamp_millis: u128, thread_name: Seq<char>, c: char)
    ensures
        data_dir_name(timestamp_millis, Seq::empty()) == "chrome-rust-pdf-"@ + decimal_text(
            timestamp_millis as nat,
        ) + "-"@,
        data_dir_name(timestamp_millis, thread_name.push(c)) == (if is_numeric_char(c) {
            data_dir_name(timestamp_millis, thread_name).push(c)
        } else {
            data_dir_name(timestamp_millis, thread_name)
        }),
{
    reveal(Seq::filter);
    let keep = |c: char| is_numeric_char(c);
    let longer = thread_name.push(c);
    assert(longer.drop_last() =~= thread_name);
    assert(longer.filter(keep) =~= if is_numeric_char(c) {
        thread_name.filter(keep).push(c)
    } else {
        thread_name.filter(keep)
    });
    assert(data_dir_name(timestamp_millis, longer) =~= (if is_numeric_char(c) {
        data_dir_name(timestamp_millis, thread_name).push(c)
    } else {
        data_dir_name(timestamp_millis, thread_name)
    }));
    assert(Seq::<char>::empty().filter(keep) =~= Seq::<char>::empty());
    assert(data_dir_name(timestamp_millis, Seq::empty()) =~= "chrome-rust-pdf-"@ + decimal_text(
        timestamp_millis as nat,
    ) + "-"@);
}

/// A switch is among those of a browser if and only if it turns one of these things off, skips a
/// question at the first start, does without a window, sets the time zone or limits the memory.
pub proof fn law_launch_switches(switch: Seq<char>)
    ensures
        launch_switches().len() == 15,
        launch_switches().contains(switch) <==> {
            ||| switch == "--headless"@ || switch == "--disable-setuid-sandbox"@
            ||| switch == "--disable-gpu"@ || switch == "--disable-extensions"@
            ||| switch == "--disable-dev-shm-usage"@ || switch == "--disable-default-apps"@
            ||| switch == "--disable-features=VizDisplayCompositor"@
            ||| switch == "--disable-background-timer-throttling"@
            ||| switch == "--disable-backgrounding-occluded-windows"@
            ||| switch == "--disable-renderer-backgrounding"@
            ||| switch == "--no-first-run"@ || switch == "--no-default-browser-check"@
            ||| switch == "--timezone=Indian/Maldives"@
            ||| switch == "--max-old-space-size=512"@
            ||| switch == "--js-flags=--max-old-space-size=512"@
        },
{
    let s = launch_switches();
    assert(s[0] == "--disable-setuid-sandbox"@ && s[1] == "--disable-dev-shm-usage"@);
    assert(s[2] == "--disable-features=VizDisplayCompositor"@ && s[3] == "--disable-gpu"@);
    assert(s[4] == "--disable-background-timer-throttling"@);
    assert(s[5] == "--disable-backgrounding-occluded-windows"@);
    assert(s[6] == "--disable-renderer-backgrounding"@ && s[7] == "--disable-extensions"@);
    assert(s[8] == "--disable-default-apps"@ && s[9] == "--no-first-run"@);
    assert(s[10] == "--no-default-browser-check"@ && s[11] == "--headless"@);
    assert(s[12] == "--timezone=Indian/Maldives"@ && s[13] == "--max-old-space-size=512"@);
    assert(s[14] == "--js-flags=--max-old-space-size=512"@);
}

/// A browser has answered a ping only within five seconds, and has started only within sixty.
pub proof fn law_waits(nanos: u128)
    ensures
        nanos <= PING_TIMEOUT_SECS * NANOS_PER_SEC <==> nanos <= 5_000_000_000,
        nanos <= LAUNCH_TIMEOUT_SECS * NANOS_PER_SEC <==> nanos <= 60_000_000_000,
{
}

} // verus!
