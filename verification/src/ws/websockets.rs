use vstd::prelude::*;

verus! {

/// Seconds to wait before the first reconnection.
pub const RETRY_DELAY: u64 = 5;

/// Sessions after which no reconnection is tried.
pub const MAX_RETRY_ATTEMPTS: u32 = 10;

/// The longest wait between two sessions, in seconds.
pub const MAX_RETRY_DELAY: u64 = 60;

/// Seconds between two pings of a session.
pub const HEARTBEAT_INTERVAL_SECS: u64 = 20;

/// Seconds between two rounds of resubscription of a session.
pub const RESUBSCRIBE_INTERVAL_SECS: u64 = 60;

/// Seconds of silence after which a session has failed.
pub const HEARTBEAT_TIMEOUT_SECS: u64 = 90;

/// Frames that may wait to be written.
pub const WRITE_QUEUE_CAPACITY: usize = 512;

#[verifier::external_type_specification]
#[verifier::external_body]
pub struct ExJsonError(serde_json::Error);

/// The digit of `d` (below 16) in lower-case hexadecimal.
pub open spec fn hex_digit(d: int) -> char {
    if d < 10 {
        (('0' as int) + d) as char
    } else {
        (('a' as int) + d - 10) as char
    }
}

/// How one character stands inside a JSON string: quote and backslash
/// after a backslash, the five control characters that have a short form in
/// it, the other control characters as `\u00` and two hexadecimal digits,
/// every other character as itself.
pub open spec fn json_escape_char(c: char) -> Seq<char> {
    if c == '"' {
        seq!['\\', '"']
    } else if c == '\\' {
        seq!['\\', '\\']
    } else if c as int == 8 {
        seq!['\\', 'b']
    } else if c as int == 9 {
        seq!['\\', 't']
    } else if c as int == 10 {
        seq!['\\', 'n']
    } else if c as int == 12 {
        seq!['\\', 'f']
    } else if c as int == 13 {
        seq!['\\', 'r']
    } else if (c as int) < 32 {
        seq!['\\', 'u', '0', '0', hex_digit((c as int) / 16), hex_digit((c as int) % 16)]
    } else {
        seq![c]
    }
}

pub open spec fn json_escape(s: Seq<char>) -> Seq<char>
    decreases s.len(),
{
    if s.len() == 0 {
        seq![]
    } else {
        json_escape(s.drop_last()) + json_escape_char(s.last())
    }
}

/// `s` as a JSON string literal.
pub open spec fn json_string_literal(s: Seq<char>) -> Seq<char> {
    seq!['"'] + json_escape(s) + seq!['"']
}

/// Calls `serde_json::to_string` on a string slice. Its source writes the
/// slice between double quotes into a `Vec<u8>`, escaping each character
/// through its table `ESCAPE`, which is what `json_string_literal` says;
/// writing into a `Vec` cannot fail, so the call returns `Ok`.
#[verifier::external_body]
fn json_string(s: &str) -> (r: Result<String, serde_json::Error>)
    ensures
        r is Ok,
        r matches Ok(t) ==> t@ == json_string_literal(s@),
{
    serde_json::to_string(s)
}

/// The text of the request that subscribes to channel `interval` of the
/// perpetual swap `symbol`: a compact JSON object whose members come in
/// the order of their keys.
pub open spec fn spec_subscribe_message(symbol: Seq<char>, interval: Seq<char>) -> Seq<char> {
    "{\"args\":[{\"channel\":"@ + json_string_literal(interval) + ",\"instId\":"@
        + json_string_literal(symbol) + ",\"instType\":\"SWAP\"}],\"op\":\"subscribe\"}"@
}

/// The subscription request for channel `interval` of `symbol`.
pub fn subscribe_message(symbol: &str, interval: &str) -> (r: String)
    ensures
        r@ == spec_subscribe_message(symbol@, interval@),
{
    let channel = match json_string(interval) {
        Ok(t) => t,
        Err(_) => String::new(),
    };
    let inst_id = match json_string(symbol) {
        Ok(t) => t,
        Err(_) => String::new(),
    };
    let mut m = String::from_str("{\"args\":[{\"channel\":");
    m.append(channel.as_str());
    m.append(",\"instId\":");
    m.append(inst_id.as_str());
    m.append(",\"instType\":\"SWAP\"}],\"op\":\"subscribe\"}");
    m
}

/// The messages of one symbol: one per channel, in order.
pub open spec fn spec_symbol_messages(symbol: Seq<char>, intervals: Seq<String>) -> Seq<Seq<char>> {
    intervals.map_values(|iv: String| spec_subscribe_message(symbol, iv@))
}

/// The subscription requests of every channel of every symbol, symbol by
/// symbol in the given order.
pub open spec fn spec_subscribe_messages(subs: Seq<(String, Vec<String>)>) -> Seq<Seq<char>>
    decreases subs.len(),
{
    if subs.len() == 0 {
        seq![]
    } else {
        spec_subscribe_messages(subs.drop_last()) + spec_symbol_messages(
            subs.last().0@,
            subs.last().1@,
        )
    }
}

/// The number of channels of all symbols.
pub open spec fn channel_count(subs: Seq<(String, Vec<String>)>) -> nat
    decreases subs.len(),
{
    if subs.len() == 0 {
        0
    } else {
        channel_count(subs.drop_last()) + subs.last().1@.len()
    }
}

/// There is one request per channel of each symbol: those of symbol `i`
/// follow those of the symbols before it, and the `j`-th of them subscribes
/// to its `j`-th channel.
pub proof fn lemma_subscribe_messages_law(subs: Seq<(String, Vec<String>)>)
    ensures
        spec_subscribe_messages(subs).len() == channel_count(subs),
        forall|i: int, j: int|
            0 <= i < subs.len() && 0 <= j < subs[i].1@.len() ==> #[trigger] spec_subscribe_messages(
                subs,
            )[channel_count(subs.take(i)) + j] == spec_subscribe_message(
                subs[i].0@,
                (#[trigger] subs[i].1@[j])@,
            ),
    decreases subs.len(),
{
    if subs.len() > 0 {
        let prefix = subs.drop_last();
        lemma_subscribe_messages_law(prefix);
        let n = subs.len() - 1;
        assert(subs.take(n) =~= prefix);
        assert forall|i: int, j: int|
            0 <= i < subs.len() && 0 <= j < subs[i].1@.len() implies #[trigger] spec_subscribe_messages(
                subs,
            )[channel_count(subs.take(i)) + j] == spec_subscribe_message(
                subs[i].0@,
                (#[trigger] subs[i].1@[j])@,
            ) by {
            if i < n {
                assert(subs.take(i) =~= prefix.take(i));
                assert(subs[i] == prefix[i]);
                assert(prefix[i].1@[j] == subs[i].1@[j]);
                lemma_channel_count_prefix(prefix, i);
            }
        }
    }
}

proof fn lemma_channel_count_prefix(subs: Seq<(String, Vec<String>)>, i: int)
    requires
        0 <= i < subs.len(),
    ensures
        channel_count(subs.take(i)) + subs[i].1@.len() <= channel_count(subs),
    decreases subs.len(),
{
    if i < subs.len() - 1 {
        lemma_channel_count_prefix(subs.drop_last(), i);
        assert(subs.drop_last().take(i) =~= subs.take(i));
    } else {
        assert(subs.take(i) =~= subs.drop_last());
    }
}

pub open spec fn texts_view(v: Seq<String>) -> Seq<Seq<char>> {
    v.map_values(|s: String| s@)
}

/// The subscription requests of `subscriptions`, a list of symbols each
/// with its channels.
pub fn subscribe_messages(subscriptions: &Vec<(String, Vec<String>)>) -> (r: Vec<String>)
    ensures
        texts_view(r@) == spec_subscribe_messages(subscriptions@),
{
    let mut out: Vec<String> = Vec::new();
    let n = subscriptions.len();
    let mut i: usize = 0;
    assert(subscriptions@.take(0) =~= Seq::<(String, Vec<String>)>::empty());
    assert(texts_view(out@) =~= Seq::<Seq<char>>::empty());
    while i < n
        invariant
            n == subscriptions@.len(),
            0 <= i <= n,
            texts_view(out@) == spec_subscribe_messages(subscriptions@.take(i as int)),
        decreases n - i,
    {
        let symbol = &subscriptions[i].0;
        let intervals = &subscriptions[i].1;
        let ghost base = texts_view(out@);
        let m = intervals.len();
        let mut j: usize = 0;
        while j < m
            invariant
                m == intervals@.len(),
                0 <= j <= m,
                texts_view(out@) == base + spec_symbol_messages(symbol@, intervals@.take(j as int)),
            decreases m - j,
        {
            let ghost prev = out@;
            out.push(subscribe_message(symbol.as_str(), intervals[j].as_str()));
            assert(texts_view(out@) =~= texts_view(prev) + seq![
                spec_subscribe_message(symbol@, intervals@[j as int]@),
            ]);
            assert(spec_symbol_messages(symbol@, intervals@.take(j + 1)) =~= spec_symbol_messages(
                symbol@,
                intervals@.take(j as int),
            ) + seq![spec_subscribe_message(symbol@, intervals@[j as int]@)]);
            j = j + 1;
        }
        assert(intervals@.take(m as int) =~= intervals@);
        assert(subscriptions@.take(i + 1).drop_last() =~= subscriptions@.take(i as int));
        assert(subscriptions@.take(i + 1).last() == subscriptions@[i as int]);
        i = i + 1;
    }
    assert(subscriptions@.take(n as int) =~= subscriptions@);
    out
}

/// The wait, in seconds, after the `k`-th session that is followed by
/// another: the first wait, then doubled each time up to the longest.
pub open spec fn backoff_delay(k: nat) -> nat
    decreases k,
{
    if k == 0 {
        RETRY_DELAY as nat
    } else {
        let doubled = 2 * backoff_delay((k - 1) as nat);
        if doubled < MAX_RETRY_DELAY {
            doubled
        } else {
            MAX_RETRY_DELAY as nat
        }
    }
}

/// The reconnection policy: how many sessions have ended, and how long to
/// wait before the next one.
pub struct Reconnect {
    retry: u32,
    delay: u64,
}

impl Reconnect {
    /// The number of sessions that have ended.
    pub closed spec fn ended(&self) -> nat {
        self.retry as nat
    }

    /// The wait before the next session, in seconds.
    pub closed spec fn next_delay(&self) -> nat {
        self.delay as nat
    }

    #[verifier::type_invariant]
    closed spec fn well_formed(&self) -> bool {
        &&& self.retry <= MAX_RETRY_ATTEMPTS
        &&& self.retry < MAX_RETRY_ATTEMPTS ==> self.delay == backoff_delay(self.retry as nat)
        &&& self.retry == MAX_RETRY_ATTEMPTS ==> self.delay == backoff_delay(
            (MAX_RETRY_ATTEMPTS - 1) as nat,
        )
    }

    /// No session has ended yet; the first wait is `RETRY_DELAY`.
    pub fn new() -> (r: Reconnect)
        ensures
            r.ended() == 0,
            r.next_delay() == RETRY_DELAY,
    {
        Reconnect { retry: 0, delay: RETRY_DELAY }
    }

    /// A session has ended. Gives the seconds to wait before the next
    /// session, or `None` when `MAX_RETRY_ATTEMPTS` sessions have ended and
    /// no other is tried; after a wait, the next wait is twice as long, at
    /// most `MAX_RETRY_DELAY`.
    pub fn on_session_end(&mut self) -> (r: Option<u64>)
        ensures
            old(self).ended() + 1 >= MAX_RETRY_ATTEMPTS ==> r is None && final(self).ended()
                == MAX_RETRY_ATTEMPTS && final(self).next_delay() == old(self).next_delay(),
            old(self).ended() + 1 < MAX_RETRY_ATTEMPTS ==> {
                &&& r == Some(old(self).next_delay() as u64)
                &&& final(self).ended() == old(self).ended() + 1
                &&& final(self).next_delay() == if 2 * old(self).next_delay() < MAX_RETRY_DELAY {
                    2 * old(self).next_delay()
                } else {
                    MAX_RETRY_DELAY as nat
                }
            },
            final(self).ended() < MAX_RETRY_ATTEMPTS ==> final(self).next_delay() == backoff_delay(
                final(self).ended(),
            ),
    {
        proof {
            use_type_invariant(&*self);
        }
        if self.retry + 1 >= MAX_RETRY_ATTEMPTS {
            self.retry = MAX_RETRY_ATTEMPTS;
            return None;
        }
        let wait = self.delay;
        assert(self.delay <= MAX_RETRY_DELAY) by {
            lemma_backoff_bounds(self.retry as nat);
        }
        let doubled = self.delay * 2;
        let next = if doubled < MAX_RETRY_DELAY {
            doubled
        } else {
            MAX_RETRY_DELAY
        };
        *self = Reconnect { retry: self.retry + 1, delay: next };
        Some(wait)
    }

    /// A session is over. After an error of the session the run ends with
    /// that error at once; after a session that closed, or a connection
    /// that could not be made, the run waits as `on_session_end` says, or
    /// ends successfully once `MAX_RETRY_ATTEMPTS` sessions have ended.
    pub fn on_session_outcome(&mut self, outcome: SessionEnd) -> (r: RunStep)
        ensures
            (final(self).ended(), final(self).next_delay(), r) == spec_run_step(
                old(self).ended(),
                old(self).next_delay(),
                outcome,
            ),
            final(self).ended() < MAX_RETRY_ATTEMPTS ==> final(self).next_delay() == backoff_delay(
                final(self).ended(),
            ),
    {
        proof {
            use_type_invariant(&*self);
        }
        match outcome {
            SessionEnd::ReadFailed | SessionEnd::HeartbeatExpired | SessionEnd::SubscribeFailed => {
                RunStep::Abort
            },
            SessionEnd::Closed | SessionEnd::ConnectFailed => match self.on_session_end() {
                Some(delay) => RunStep::Wait(delay),
                None => RunStep::Finish,
            },
        }
    }
}

/// How a session came to an end.
#[derive(Debug, Clone, Copy, PartialEq, Eq, Structural)]
pub enum SessionEnd {
    /// The peer closed the session, or the read half ended.
    Closed,
    /// No connection could be made.
    ConnectFailed,
    /// Reading failed.
    ReadFailed,
    /// The session was silent for longer than `HEARTBEAT_TIMEOUT_SECS`.
    HeartbeatExpired,
    /// A subscription request could not be queued.
    SubscribeFailed,
}

/// The outcomes that end the whole run with an error.
pub open spec fn session_error(e: SessionEnd) -> bool {
    e is ReadFailed || e is HeartbeatExpired || e is SubscribeFailed
}

/// What the run does after a session.
#[derive(Debug, Clone, Copy, PartialEq, Eq, Structural)]
pub enum RunStep {
    /// Wait this many seconds, then connect again.
    Wait(u64),
    /// End the run successfully.
    Finish,
    /// End the run with the session's error.
    Abort,
}

/// From the sessions ended and the next wait, and how a session ended: the
/// sessions ended and the next wait after it, and what the run does.
pub open spec fn spec_run_step(ended: nat, delay: nat, outcome: SessionEnd) -> (nat, nat, RunStep) {
    if session_error(outcome) {
        (ended, delay, RunStep::Abort)
    } else if ended + 1 >= MAX_RETRY_ATTEMPTS {
        (MAX_RETRY_ATTEMPTS as nat, delay, RunStep::Finish)
    } else {
        (
            ended + 1,
            if 2 * delay < MAX_RETRY_DELAY {
                2 * delay
            } else {
                MAX_RETRY_DELAY as nat
            },
            RunStep::Wait(delay as u64),
        )
    }
}

/// The sessions ended and the next wait after `k` sessions of a fresh run
/// have closed.
pub open spec fn state_after_closed_sessions(k: nat) -> (nat, nat)
    decreases k,
{
    if k == 0 {
        (0, RETRY_DELAY as nat)
    } else {
        let before = state_after_closed_sessions((k - 1) as nat);
        let after = spec_run_step(before.0, before.1, SessionEnd::Closed);
        (after.0, after.1)
    }
}

/// A failed connection counts as a session that closed, in every state; the
/// run ends with an error exactly after a read error, a heartbeat timeout or
/// a failed subscription, and otherwise one more session has ended.
pub proof fn lemma_run_step_law(ended: nat, delay: nat, outcome: SessionEnd)
    ensures
        spec_run_step(ended, delay, SessionEnd::ConnectFailed) == spec_run_step(
            ended,
            delay,
            SessionEnd::Closed,
        ),
        (spec_run_step(ended, delay, outcome).2 is Abort) <==> (outcome is ReadFailed
            || outcome is HeartbeatExpired || outcome is SubscribeFailed),
        (outcome is Closed || outcome is ConnectFailed) ==> spec_run_step(ended, delay, outcome).0
            == if ended + 1 >= MAX_RETRY_ATTEMPTS {
            MAX_RETRY_ATTEMPTS as nat
        } else {
            ended + 1
        },
        (outcome is Closed || outcome is ConnectFailed) && ended + 1 < MAX_RETRY_ATTEMPTS
            ==> spec_run_step(ended, delay, outcome).2 == RunStep::Wait(delay as u64),
{
}

/// A run whose sessions close waits `backoff_delay(k)` after the `k`-th of
/// them, and ends successfully when the `MAX_RETRY_ATTEMPTS`-th has closed,
/// not before.
pub proof fn lemma_run_schedule(k: nat)
    requires
        k < MAX_RETRY_ATTEMPTS,
    ensures
        state_after_closed_sessions(k) == (k, backoff_delay(k)),
        k + 1 < MAX_RETRY_ATTEMPTS ==> spec_run_step(k, backoff_delay(k), SessionEnd::Closed).2
            == RunStep::Wait(backoff_delay(k) as u64),
        k + 1 == MAX_RETRY_ATTEMPTS ==> spec_run_step(k, backoff_delay(k), SessionEnd::Closed).2
            == RunStep::Finish,
    decreases k,
{
    if k > 0 {
        lemma_run_schedule((k - 1) as nat);
    }
}

/// The run ends successfully only when `MAX_RETRY_ATTEMPTS` sessions have
/// ended, and never right after a session error.
pub proof fn lemma_finish_only_after_all_sessions(ended: nat, delay: nat, outcome: SessionEnd)
    ensures
        spec_run_step(ended, delay, outcome).2 is Finish ==> {
            &&& !session_error(outcome)
            &&& ended + 1 >= MAX_RETRY_ATTEMPTS
            &&& spec_run_step(ended, delay, outcome).0 == MAX_RETRY_ATTEMPTS
        },
{
}

/// A read error, a heartbeat timeout or a failed subscription ends the run
/// with an error at once: no reconnection, and the policy is left as it was.
pub proof fn lemma_errors_abort(ended: nat, delay: nat, outcome: SessionEnd)
    requires
        session_error(outcome),
    ensures
        spec_run_step(ended, delay, outcome) == (ended, delay, RunStep::Abort),
{
}

/// Every wait lies between the first wait and the longest one, and a wait
/// is never shorter than the one before it.
pub proof fn lemma_backoff_bounds(k: nat)
    ensures
        RETRY_DELAY <= backoff_delay(k) <= MAX_RETRY_DELAY,
        backoff_delay(k) <= backoff_delay(k + 1),
    decreases k,
{
    if k > 0 {
        lemma_backoff_bounds((k - 1) as nat);
    }
}

/// The `k`-th wait is the first wait doubled `k` times, but no more than
/// `MAX_RETRY_DELAY`: 5, 10, 20, 40, then 60 seconds.
pub proof fn lemma_backoff_closed_form(k: nat)
    ensures
        backoff_delay(k) == if RETRY_DELAY * vstd::arithmetic::power2::pow2(k)
            < MAX_RETRY_DELAY {
            RETRY_DELAY * vstd::arithmetic::power2::pow2(k)
        } else {
            MAX_RETRY_DELAY as int
        },
    decreases k,
{
    vstd::arithmetic::power2::lemma_pow2_pos(k);
    if k > 0 {
        lemma_backoff_closed_form((k - 1) as nat);
        vstd::arithmetic::power2::lemma_pow2_unfold(k);
    } else {
        vstd::arithmetic::power2::lemma2_to64();
    }
}

/// What the read half of a session received.
pub enum WsEvent {
    /// A text frame.
    Text(String),
    /// The answer to a ping.
    Pong,
    /// The peer closes the session.
    Close,
    /// Reading failed.
    ReadError,
    /// Any other frame.
    Other,
}

/// What a session does with what it received.
#[derive(Debug)]
pub enum ReadAction {
    /// The text `ping`: note the time of the message and answer `pong`,
    /// then read on at once.
    ReplyPong,
    /// Any other text: note the time of the message and hand the text to the
    /// handler and to the callback.
    Deliver(String),
    /// A pong: note the time of the message.
    KeepAlive,
    /// The session ends normally.
    Stop,
    /// The session ends with a read error.
    Fail,
    /// Nothing to do.
    Ignore,
}

fn same_text(a: &str, b: &str) -> (r: bool)
    ensures
        r == (a@ == b@),
{
    String::from_str(a) == String::from_str(b)
}

/// The action that a received frame calls for.
pub fn on_read(event: WsEvent) -> (a: ReadAction)
    ensures
        event matches WsEvent::Text(t) ==> (t@ == "ping"@ ==> a is ReplyPong),
        event matches WsEvent::Text(t) ==> (t@ != "ping"@ ==> (a matches ReadAction::Deliver(u)
            && u@ == t@)),
        event is Pong ==> a is KeepAlive,
        event is Close ==> a is Stop,
        event is ReadError ==> a is Fail,
        event is Other ==> a is Ignore,
{
    match event {
        WsEvent::Text(t) => {
            if same_text(t.as_str(), "ping") {
                ReadAction::ReplyPong
            } else {
                ReadAction::Deliver(t)
            }
        },
        WsEvent::Pong => ReadAction::KeepAlive,
        WsEvent::Close => ReadAction::Stop,
        WsEvent::ReadError => ReadAction::Fail,
        WsEvent::Other => ReadAction::Ignore,
    }
}

/// Whether the action notes the time of the last message.
pub fn refreshes_last_message(a: &ReadAction) -> (r: bool)
    ensures
        r == (a is ReplyPong || a is Deliver || a is KeepAlive),
{
    match a {
        ReadAction::ReplyPong | ReadAction::Deliver(_) | ReadAction::KeepAlive => true,
        _ => false,
    }
}

/// Whether the silence of the session is checked after the action: not
/// after a pong answer, which reads on at once, nor when the session ends.
pub fn checks_heartbeat(a: &ReadAction) -> (r: bool)
    ensures
        r == (a is Deliver || a is KeepAlive || a is Ignore),
{
    match a {
        ReadAction::Deliver(_) | ReadAction::KeepAlive | ReadAction::Ignore => true,
        _ => false,
    }
}

/// A silence of `secs` seconds and `nanos` nanoseconds is longer than
/// `HEARTBEAT_TIMEOUT_SECS`.
pub open spec fn spec_heartbeat_expired(secs: u64, nanos: u32) -> bool {
    secs > HEARTBEAT_TIMEOUT_SECS || (secs == HEARTBEAT_TIMEOUT_SECS && nanos > 0)
}

/// A silence fails the session exactly when it lasts longer than
/// `HEARTBEAT_TIMEOUT_SECS`, counted in nanoseconds: so a longer silence
/// never fails less than a shorter one.
pub proof fn lemma_heartbeat_law(secs: u64, nanos: u32, secs2: u64, nanos2: u32)
    requires
        nanos < 1_000_000_000,
        nanos2 < 1_000_000_000,
    ensures
        spec_heartbeat_expired(secs, nanos) == (secs * 1_000_000_000 + nanos > 90_000_000_000),
        secs * 1_000_000_000 + nanos <= secs2 * 1_000_000_000 + nanos2 && spec_heartbeat_expired(
            secs,
            nanos,
        ) ==> spec_heartbeat_expired(secs2, nanos2),
{
    assert(HEARTBEAT_TIMEOUT_SECS == 90);
    if secs > 90 {
        assert(secs * 1_000_000_000 >= 91 * 1_000_000_000) by (nonlinear_arith)
            requires
                secs >= 91,
        ;
    } else if secs < 90 {
        assert(secs * 1_000_000_000 <= 89 * 1_000_000_000) by (nonlinear_arith)
            requires
                secs <= 89,
        ;
    }
    if secs2 > 90 {
        assert(secs2 * 1_000_000_000 >= 91 * 1_000_000_000) by (nonlinear_arith)
            requires
                secs2 >= 91,
        ;
    } else if secs2 < 90 {
        assert(secs2 * 1_000_000_000 <= 89 * 1_000_000_000) by (nonlinear_arith)
            requires
                secs2 <= 89,
        ;
    }
}

/// Whether a session that has been silent for `secs` seconds and `nanos`
/// nanoseconds has failed.
pub fn heartbeat_expired(secs: u64, nanos: u32) -> (r: bool)
    ensures
        r == spec_heartbeat_expired(secs, nanos),
{
    secs > HEARTBEAT_TIMEOUT_SECS || (secs == HEARTBEAT_TIMEOUT_SECS && nanos > 0)
}

} // verus!
