//! Host-local execution lock and queue for side-effecting commands.
//!
//! The lock lives in a directory: queued callers write ticket files under
//! `queue/`, and the holder owns the `held/` directory. The caller does the
//! file system work, the clock and the sleeping; this module decides each
//! step: whether the request is valid, where a caller stands in the queue,
//! what is stale, when to try the lock, when to give up, how long to sleep,
//! and what is reported.
use vstd::prelude::*;

use crate::envelope::ErrorCategory;
use crate::error::{is_invalid, DetailValue, TendrilError};
use crate::text::{self, decimal, owned};

verus! {

pub const DEFAULT_LOCK_TIMEOUT_MS: u64 = 60_000;
pub const DEFAULT_LOCK_STALE_MS: u64 = 30_000;
/// Longest sleep between two looks at the queue.
pub const POLL_INTERVAL_MS: u64 = 50;
/// Interval at which a queued ticket's heartbeat is refreshed.
pub const HEARTBEAT_INTERVAL_MS: u64 = 1_000;

#[derive(Debug, Clone, PartialEq, Eq)]
pub struct ExecutionLockRequest {
    pub enabled: bool,
    pub lock_path: String,
    pub timeout_ms: u64,
    pub stale_ms: u64,
    pub command: String,
    pub target_kind: Option<String>,
    pub target_id: Option<String>,
    pub reason: Option<String>,
}

#[derive(Debug, Clone, PartialEq, Eq)]
pub struct ExecutionLockReport {
    pub enabled: bool,
    pub acquired: bool,
    pub lock_path: String,
    pub timeout_ms: u64,
    pub stale_ms: u64,
    pub wait_ms: u64,
    pub queue_position_at_join: usize,
    pub queue_depth_at_join: usize,
    pub stale_locks_reaped: u32,
    pub stale_tickets_reaped: u32,
    pub owner_pid: u32,
    pub token: String,
    pub reason: Option<String>,
}

/// What the holder of the lock recorded about itself (`held/owner.json`).
#[derive(Debug, Clone, PartialEq, Eq)]
pub struct LockHolder {
    pub schema_version: u32,
    pub token: String,
    pub owner_pid: u32,
    pub command: String,
    pub target_kind: Option<String>,
    pub target_id: Option<String>,
    pub acquired_at_unix_ms: u64,
    pub heartbeat_unix_ms: u64,
    pub stale_after_ms: u64,
}

// ---------------------------------------------------------------------------
// Requests and names
// ---------------------------------------------------------------------------

/// Both limits must be positive.
pub fn validate_request(request: &ExecutionLockRequest) -> (r: Result<(), TendrilError>)
    ensures
        request.timeout_ms == 0 ==> (r matches Err(e) && is_invalid(
            e,
            "invalid_run_input"@,
            "lock_timeout_ms"@,
            "lock_timeout_ms must be greater than zero"@,
        )),
        request.timeout_ms != 0 && request.stale_ms == 0 ==> (r matches Err(e) && is_invalid(
            e,
            "invalid_run_input"@,
            "lock_stale_ms"@,
            "lock_stale_ms must be greater than zero"@,
        )),
        request.timeout_ms != 0 && request.stale_ms != 0 ==> r is Ok,
{
    if request.timeout_ms == 0 {
        return Err(
            TendrilError::invalid(owned("lock_timeout_ms must be greater than zero"), "invalid_run_input", "lock_timeout_ms"),
        );
    }
    if request.stale_ms == 0 {
        return Err(
            TendrilError::invalid(owned("lock_stale_ms must be greater than zero"), "invalid_run_input", "lock_stale_ms"),
        );
    }
    Ok(())
}

pub open spec fn path_char_kept(c: char) -> bool {
    text::is_ascii_alnum(c) || c == '.' || c == '_' || c == '-'
}

pub open spec fn sanitized_spec(s: Seq<char>) -> Seq<char> {
    if s.len() == 0 {
        "default"@
    } else {
        Seq::new(s.len(), |i: int| if path_char_kept(s[i]) { s[i] } else { '_' })
    }
}

/// A value made safe as a file name component: characters other than ASCII
/// letters, digits, `.`, `_` and `-` become `_`; an empty value becomes
/// `default`.
pub fn sanitize_path_component(value: &str) -> (r: String)
    ensures
        r@ == sanitized_spec(value@),
{
    let v = text::chars_of(value);
    if v.len() == 0 {
        return owned("default");
    }
    let mut r = String::new();
    let mut i: usize = 0;
    while i < v.len()
        invariant
            i <= v@.len(),
            v@ == value@,
            v@.len() > 0,
            r@ == Seq::new(i as nat, |k: int| if path_char_kept(v@[k]) { v@[k] } else { '_' }),
        decreases v.len() - i,
    {
        let c = v[i];
        let kept = text::is_alnum(c) || c == '.' || c == '_' || c == '-';
        text::push_char(&mut r, if kept { c } else { '_' });
        i += 1;
        assert(r@ =~= Seq::new(i as nat, |k: int| if path_char_kept(v@[k]) { v@[k] } else { '_' }));
    }
    r
}

/// The first value that is present, else the fallback.
pub open spec fn first_present(values: Seq<Option<String>>, fallback: Seq<char>) -> Seq<char>
    decreases values.len(),
{
    if values.len() == 0 {
        fallback
    } else {
        match values[0] {
            Some(v) => v@,
            None => first_present(values.drop_first(), fallback),
        }
    }
}

fn first_present_exec(values: &Vec<Option<String>>, fallback: &str) -> (r: String)
    ensures
        r@ == first_present(values@, fallback@),
{
    let mut i: usize = 0;
    assert(values@.skip(0) =~= values@);
    while i < values.len()
        invariant
            i <= values@.len(),
            first_present(values@, fallback@) == first_present(values@.skip(i as int), fallback@),
        decreases values.len() - i,
    {
        assert(values@.skip(i as int)[0] == values@[i as int]);
        assert(values@.skip(i as int).drop_first() =~= values@.skip(i + 1));
        match &values[i] {
            Some(v) => return v.clone(),
            None => {},
        }
        i += 1;
    }
    owned(fallback)
}

pub open spec fn default_lock_path_spec(temp_dir: Seq<char>, users: Seq<Option<String>>, sessions: Seq<Option<String>>) -> Seq<char> {
    crate::config::join_path(
        temp_dir,
        "tendril-execution-lock-"@ + sanitized_spec(first_present(users, "unknown-user"@)) + "-"@ + sanitized_spec(
            first_present(sessions, "default-session"@),
        ),
    )
}

/// The default lock directory under the temporary directory, named after
/// the user (`USER`, `USERNAME`, `UID`, in that order) and the desktop
/// session (`TENDRIL_LOCK_SESSION`, `WAYLAND_DISPLAY`, `DISPLAY`,
/// `XDG_SESSION_ID`), given those variables' values in that order.
pub fn default_execution_lock_path(temp_dir: &str, users: &Vec<Option<String>>, sessions: &Vec<Option<String>>) -> (r: String)
    ensures
        r@ == default_lock_path_spec(temp_dir@, users@, sessions@),
{
    let user = first_present_exec(users, "unknown-user");
    let session = first_present_exec(sessions, "default-session");
    let mut name = owned("tendril-execution-lock-");
    let u = sanitize_path_component(user.as_str());
    let s = sanitize_path_component(session.as_str());
    text::push_str(&mut name, u.as_str());
    text::push_str(&mut name, "-");
    text::push_str(&mut name, s.as_str());
    crate::config::join(temp_dir, name.as_str())
}

/// The token that names one acquisition: `PID-MILLIS-COUNTER`.
pub fn make_token(pid: u32, now_unix_ms: u64, counter: u64) -> (r: String)
    ensures
        r@ == decimal(pid as nat) + "-"@ + decimal(now_unix_ms as nat) + "-"@ + decimal(counter as nat),
{
    let mut r = text::format_u64(pid as u64);
    text::push_str(&mut r, "-");
    let now = text::format_u64(now_unix_ms);
    text::push_str(&mut r, now.as_str());
    text::push_str(&mut r, "-");
    let c = text::format_u64(counter);
    text::push_str(&mut r, c.as_str());
    r
}

/// A number in decimal, padded with zeros to at least `width` digits.
pub open spec fn zero_padded(n: nat, width: nat) -> Seq<char> {
    let d = decimal(n);
    if d.len() >= width {
        d
    } else {
        Seq::new((width - d.len()) as nat, |i: int| '0') + d
    }
}

/// The queue ticket's file name: the joining time zero-padded to twenty
/// digits (so that names sort in joining order), the process and the token.
pub fn ticket_file_name(now_unix_ms: u64, pid: u32, token: &str) -> (r: String)
    ensures
        r@ == zero_padded(now_unix_ms as nat, 20) + "-"@ + decimal(pid as nat) + "-"@ + token@ + ".json"@,
{
    let digits = text::format_u64(now_unix_ms);
    let d = text::chars_of(digits.as_str());
    let mut r = String::new();
    let mut pad: usize = 0;
    let missing: usize = if d.len() >= 20 { 0 } else { 20 - d.len() };
    while pad < missing
        invariant
            pad <= missing,
            r@ == Seq::new(pad as nat, |i: int| '0'),
        decreases missing - pad,
    {
        text::push_char(&mut r, '0');
        pad += 1;
        assert(r@ =~= Seq::new(pad as nat, |i: int| '0'));
    }
    text::push_str(&mut r, digits.as_str());
    proof {
        let ghost dd = decimal(now_unix_ms as nat);
        if dd.len() >= 20 {
            assert(r@ =~= dd);
        } else {
            assert(r@ =~= Seq::new((20 - dd.len()) as nat, |i: int| '0') + dd);
        }
    }
    text::push_str(&mut r, "-");
    let p = text::format_u64(pid as u64);
    text::push_str(&mut r, p.as_str());
    text::push_str(&mut r, "-");
    text::push_str(&mut r, token);
    text::push_str(&mut r, ".json");
    r
}

/// A queue entry is a ticket when its extension is `json`.
pub open spec fn is_ticket_name(name: Seq<char>) -> bool {
    name.len() > 5 && text::ends_with(name, ".json"@)
}

/// Whether a file name in the queue directory is a ticket.
pub fn is_ticket_file(name: &str) -> (r: bool)
    ensures
        r == is_ticket_name(name@),
{
    let v = text::chars_of(name);
    v.len() > 5 && text::ends_with_lit(v.as_slice(), ".json")
}

// ---------------------------------------------------------------------------
// Queue position
// ---------------------------------------------------------------------------

/// Where a caller stands in the queue and how long the queue is.
#[derive(Debug, Clone, Copy, PartialEq, Eq, Structural)]
pub struct QueueState {
    pub position: usize,
    pub depth: usize,
}

/// How many of the names sort before `name`.
pub open spec fn names_before(names: Seq<Seq<char>>, name: Seq<char>) -> nat
    decreases names.len(),
{
    if names.len() == 0 {
        0
    } else {
        names_before(names.drop_last(), name) + if crate::discovery::seq_lt(names.last(), name) { 1nat } else { 0nat }
    }
}

/// A caller's place: one plus the tickets that sort before its own (its own
/// ticket missing, it is first); the depth counts at least the caller.
pub open spec fn queue_state_spec(names: Seq<Seq<char>>, own: Seq<char>) -> QueueState {
    QueueState {
        position: if names.contains(own) { (names_before(names, own) + 1) as usize } else { 1 },
        depth: if names.len() == 0 { 1 } else { names.len() as usize },
    }
}

/// The tickets that sort before `own`.
pub open spec fn ahead_of(own: Seq<char>) -> spec_fn(Seq<char>) -> bool {
    |t: Seq<char>| crate::discovery::seq_lt(t, own)
}

proof fn lemma_names_before_counts_ahead(names: Seq<Seq<char>>, own: Seq<char>)
    ensures
        names_before(names, own) == names.filter(ahead_of(own)).len(),
    decreases names.len(),
{
    reveal(Seq::filter);
    if names.len() > 0 {
        lemma_names_before_counts_ahead(names.drop_last(), own);
    }
}

proof fn lemma_none_ahead(names: Seq<Seq<char>>, own: Seq<char>)
    requires
        forall|k: int| 0 <= k < names.len() ==> !crate::discovery::seq_lt(#[trigger] names[k], own),
    ensures
        names_before(names, own) == 0,
    decreases names.len(),
{
    if names.len() > 0 {
        assert forall|k: int| 0 <= k < names.drop_last().len() implies !crate::discovery::seq_lt(#[trigger] names.drop_last()[k], own) by {
            assert(names.drop_last()[k] == names[k]);
        }
        lemma_none_ahead(names.drop_last(), own);
    }
}

proof fn lemma_some_ahead(names: Seq<Seq<char>>, own: Seq<char>, k: int)
    requires
        0 <= k < names.len(),
        crate::discovery::seq_lt(names[k], own),
    ensures
        names_before(names, own) >= 1,
    decreases names.len(),
{
    if k < names.len() - 1 {
        assert(names.drop_last()[k] == names[k]);
        lemma_some_ahead(names.drop_last(), own, k);
    }
}

/// A caller holding a ticket stands behind exactly the tickets that sort
/// before its own: its position is one plus their number, so the ticket that
/// sorts first is at the head of the queue (position one) and a caller with
/// any ticket ahead of it is not; the depth is the number of tickets.
pub proof fn law_queue_position(names: Seq<Seq<char>>, own: Seq<char>)
    requires
        names.contains(own),
        names.len() < usize::MAX,
    ensures
        queue_state_spec(names, own).position as int == 1 + names.filter(ahead_of(own)).len(),
        (forall|k: int| 0 <= k < names.len() ==> !crate::discovery::seq_lt(#[trigger] names[k], own))
            ==> queue_state_spec(names, own).position == 1,
        (exists|k: int| 0 <= k < names.len() && crate::discovery::seq_lt(#[trigger] names[k], own))
            ==> queue_state_spec(names, own).position >= 2,
        queue_state_spec(names, own).depth as int == names.len(),
{
    lemma_names_before_counts_ahead(names, own);
    reveal(Seq::filter);
    names.filter_lemma(ahead_of(own));
    if forall|k: int| 0 <= k < names.len() ==> !crate::discovery::seq_lt(#[trigger] names[k], own) {
        lemma_none_ahead(names, own);
    }
    if exists|k: int| 0 <= k < names.len() && crate::discovery::seq_lt(#[trigger] names[k], own) {
        let k = choose|k: int| 0 <= k < names.len() && crate::discovery::seq_lt(#[trigger] names[k], own);
        lemma_some_ahead(names, own, k);
    }
}

fn str_lt(a: &str, b: &str) -> (r: bool)
    ensures
        r == crate::discovery::seq_lt(a@, b@),
{
    let x = text::chars_of(a);
    let y = text::chars_of(b);
    crate::discovery::chars_lt(x.as_slice(), y.as_slice())
}

/// The caller's place among the queue's tickets (by file name, which sorts
/// in joining order).
pub fn queue_position(tickets: &Vec<String>, own: &str) -> (r: QueueState)
    ensures
        r == queue_state_spec(text::strings_view(tickets@), own@),
{
    let ghost names = text::strings_view(tickets@);
    let mut before: usize = 0;
    let mut found = false;
    let mut i: usize = 0;
    assert(names.take(0) =~= Seq::<Seq<char>>::empty());
    while i < tickets.len()
        invariant
            names == text::strings_view(tickets@),
            i <= tickets@.len(),
            before == names_before(names.take(i as int), own@),
            before <= i,
            found ==> before < i,
            found == names.take(i as int).contains(own@),
        decreases tickets.len() - i,
    {
        let t = tickets[i].as_str();
        assert(names.take(i + 1).drop_last() =~= names.take(i as int));
        assert(names.take(i + 1).last() == t@);
        let less = str_lt(t, own);
        if less {
            before += 1;
        }
        let v = text::chars_of(t);
        let o = text::chars_of(own);
        if text::same(v.as_slice(), o.as_slice()) {
            proof {
                crate::discovery::lemma_seq_lt_irreflexive(own@);
            }
            found = true;
            assert(names.take(i + 1)[i as int] == own@);
        }
        proof {
            let t0 = names.take(i as int);
            let t1 = names.take(i + 1);
            if t1.contains(own@) && !t0.contains(own@) {
                let k = choose|k: int| 0 <= k < t1.len() && #[trigger] t1[k] == own@;
                if k < i {
                    assert(t0[k] == t1[k]);
                }
            }
            if t0.contains(own@) {
                let k = choose|k: int| 0 <= k < t0.len() && #[trigger] t0[k] == own@;
                assert(t1[k] == t0[k]);
            }
        }
        i += 1;
    }
    assert(names.take(i as int) =~= names);
    QueueState {
        position: if found { before + 1 } else { 1 },
        depth: if tickets.len() == 0 { 1 } else { tickets.len() },
    }
}

// ---------------------------------------------------------------------------
// Staleness
// ---------------------------------------------------------------------------

/// Milliseconds from `then` to `now`, zero when `then` is later.
pub fn age_ms(now_unix_ms: u64, then_unix_ms: u64) -> (r: u64)
    ensures
        r == if now_unix_ms >= then_unix_ms { (now_unix_ms - then_unix_ms) as u64 } else { 0 },
{
    if now_unix_ms >= then_unix_ms {
        now_unix_ms - then_unix_ms
    } else {
        0
    }
}

pub open spec fn stale_spec(heartbeat_age_ms: Option<u64>, file_age_ms: Option<u64>, stale_ms: u64) -> bool {
    match heartbeat_age_ms {
        Some(a) => a > stale_ms,
        None => match file_age_ms {
            Some(a) => a > stale_ms,
            None => true,
        },
    }
}

/// A ticket or held lock is stale when its recorded heartbeat is older than
/// the stale limit; without readable metadata the file's own age decides,
/// and without that it is stale.
pub fn is_stale(heartbeat_age_ms: Option<u64>, file_age_ms: Option<u64>, stale_ms: u64) -> (r: bool)
    ensures
        r == stale_spec(heartbeat_age_ms, file_age_ms, stale_ms),
{
    match heartbeat_age_ms {
        Some(a) => a > stale_ms,
        None => match file_age_ms {
            Some(a) => a > stale_ms,
            None => true,
        },
    }
}

// ---------------------------------------------------------------------------
// Waiting
// ---------------------------------------------------------------------------

/// What a waiting caller has recorded so far.
#[derive(Debug, Clone, Copy, PartialEq, Eq, Structural)]
pub struct LockWaitState {
    /// The queue position and depth at the first look (zero before it).
    pub join_position: usize,
    pub join_depth: usize,
    pub stale_locks_reaped: u32,
    pub stale_tickets_reaped: u32,
}

/// Nothing recorded yet.
pub fn start_waiting() -> (s: LockWaitState)
    ensures
        s == (LockWaitState { join_position: 0, join_depth: 0, stale_locks_reaped: 0, stale_tickets_reaped: 0 }),
{
    LockWaitState { join_position: 0, join_depth: 0, stale_locks_reaped: 0, stale_tickets_reaped: 0 }
}

pub open spec fn sat_add(a: u32, b: u32) -> u32 {
    if a + b > u32::MAX { u32::MAX } else { (a + b) as u32 }
}

/// One look at the queue: tickets reaped this time are counted (saturating)
/// and the first position seen is kept as the joining position.
pub fn observe_queue(state: LockWaitState, tickets_reaped: u32, queue: QueueState) -> (s: LockWaitState)
    ensures
        s.stale_tickets_reaped == sat_add(state.stale_tickets_reaped, tickets_reaped),
        s.stale_locks_reaped == state.stale_locks_reaped,
        state.join_position == 0 ==> s.join_position == queue.position && s.join_depth == queue.depth,
        state.join_position != 0 ==> s.join_position == state.join_position && s.join_depth == state.join_depth,
{
    let reaped = state.stale_tickets_reaped.saturating_add(tickets_reaped);
    if state.join_position == 0 {
        LockWaitState {
            join_position: queue.position,
            join_depth: queue.depth,
            stale_locks_reaped: state.stale_locks_reaped,
            stale_tickets_reaped: reaped,
        }
    } else {
        LockWaitState { stale_tickets_reaped: reaped, ..state }
    }
}

/// Only the head of the queue tries to take the lock.
pub fn should_attempt(queue: QueueState) -> (r: bool)
    ensures
        r == (queue.position == 1),
{
    queue.position == 1
}

/// Before trying the lock, a stale holder is removed and counted.
pub fn reap_if_stale(state: LockWaitState, lock_is_stale: bool) -> (r: (LockWaitState, bool))
    ensures
        r.1 == lock_is_stale,
        r.0.stale_locks_reaped == if lock_is_stale { sat_add(state.stale_locks_reaped, 1) } else { state.stale_locks_reaped },
        r.0 == (LockWaitState { stale_locks_reaped: r.0.stale_locks_reaped, ..state }),
{
    if lock_is_stale {
        (LockWaitState { stale_locks_reaped: state.stale_locks_reaped.saturating_add(1), ..state }, true)
    } else {
        (state, false)
    }
}

/// What a caller that did not get the lock does next.
#[derive(Debug, Clone, Copy, PartialEq, Eq, Structural)]
pub enum WaitDecision {
    /// The timeout has passed: give up.
    TimedOut,
    /// Sleep, refreshing the ticket's heartbeat first when it is due.
    Sleep { ms: u64, refresh_heartbeat: bool },
}

/// Gives up once the waiting time reaches the timeout; otherwise sleeps for
/// the rest of the timeout but at most one poll interval, refreshing the
/// ticket's heartbeat once a heartbeat interval has passed.
pub fn wait_decision(elapsed_ms: u64, timeout_ms: u64, since_heartbeat_ms: u64) -> (d: WaitDecision)
    ensures
        elapsed_ms >= timeout_ms <==> d == WaitDecision::TimedOut,
        d matches WaitDecision::Sleep { ms, refresh_heartbeat } ==> {
            &&& ms == if timeout_ms - elapsed_ms < POLL_INTERVAL_MS { (timeout_ms - elapsed_ms) as u64 } else { POLL_INTERVAL_MS }
            &&& 0 < ms <= POLL_INTERVAL_MS
            &&& elapsed_ms + ms <= timeout_ms
            &&& refresh_heartbeat == (since_heartbeat_ms >= HEARTBEAT_INTERVAL_MS)
        },
{
    if elapsed_ms >= timeout_ms {
        return WaitDecision::TimedOut;
    }
    let remaining = timeout_ms - elapsed_ms;
    let ms = if remaining < POLL_INTERVAL_MS { remaining } else { POLL_INTERVAL_MS };
    WaitDecision::Sleep { ms, refresh_heartbeat: since_heartbeat_ms >= HEARTBEAT_INTERVAL_MS }
}

// ---------------------------------------------------------------------------
// Reports and errors
// ---------------------------------------------------------------------------

/// The report fields every outcome shares with the request.
pub open spec fn report_matches(r: ExecutionLockReport, request: ExecutionLockRequest, owner_pid: u32, token: Seq<char>) -> bool {
    &&& r.lock_path == request.lock_path
    &&& r.timeout_ms == request.timeout_ms
    &&& r.stale_ms == request.stale_ms
    &&& r.owner_pid == owner_pid
    &&& r.token@ == token
}

fn clone_opt(o: &Option<String>) -> (r: Option<String>)
    ensures
        r == *o,
{
    match o {
        Some(s) => Some(s.clone()),
        None => None,
    }
}

/// With the lock disabled nothing is waited for: the report says so, with
/// the request's reason (or `disabled`).
pub fn disabled_report(request: &ExecutionLockRequest, owner_pid: u32, token: String) -> (r: ExecutionLockReport)
    ensures
        report_matches(r, *request, owner_pid, token@),
        !r.enabled && !r.acquired,
        r.wait_ms == 0 && r.queue_position_at_join == 0 && r.queue_depth_at_join == 0,
        r.stale_locks_reaped == 0 && r.stale_tickets_reaped == 0,
        r.reason matches Some(why) && why@ == match request.reason {
            Some(x) => x@,
            None => "disabled"@,
        },
{
    let reason = match &request.reason {
        Some(x) => x.clone(),
        None => owned("disabled"),
    };
    ExecutionLockReport {
        enabled: false,
        acquired: false,
        lock_path: request.lock_path.clone(),
        timeout_ms: request.timeout_ms,
        stale_ms: request.stale_ms,
        wait_ms: 0,
        queue_position_at_join: 0,
        queue_depth_at_join: 0,
        stale_locks_reaped: 0,
        stale_tickets_reaped: 0,
        owner_pid,
        token,
        reason: Some(reason),
    }
}

/// The report of a waiting caller: acquired, or given up with `timeout`.
pub fn wait_report(
    request: &ExecutionLockRequest,
    state: LockWaitState,
    acquired: bool,
    wait_ms: u64,
    owner_pid: u32,
    token: String,
) -> (r: ExecutionLockReport)
    ensures
        report_matches(r, *request, owner_pid, token@),
        r.enabled,
        r.acquired == acquired,
        r.wait_ms == wait_ms,
        r.queue_position_at_join == state.join_position,
        r.queue_depth_at_join == state.join_depth,
        r.stale_locks_reaped == state.stale_locks_reaped,
        r.stale_tickets_reaped == state.stale_tickets_reaped,
        acquired ==> r.reason is None,
        !acquired ==> (r.reason matches Some(why) && why@ == "timeout"@),
{
    ExecutionLockReport {
        enabled: true,
        acquired,
        lock_path: request.lock_path.clone(),
        timeout_ms: request.timeout_ms,
        stale_ms: request.stale_ms,
        wait_ms,
        queue_position_at_join: state.join_position,
        queue_depth_at_join: state.join_depth,
        stale_locks_reaped: state.stale_locks_reaped,
        stale_tickets_reaped: state.stale_tickets_reaped,
        owner_pid,
        token,
        reason: if acquired { None } else { Some(owned("timeout")) },
    }
}

/// The holder metadata a caller writes once it has the lock.
pub fn owner_record(request: &ExecutionLockRequest, owner_pid: u32, token: String, now_unix_ms: u64) -> (h: LockHolder)
    ensures
        h.schema_version == 1,
        h.token == token,
        h.owner_pid == owner_pid,
        h.command == request.command,
        h.target_kind == request.target_kind,
        h.target_id == request.target_id,
        h.acquired_at_unix_ms == now_unix_ms,
        h.heartbeat_unix_ms == now_unix_ms,
        h.stale_after_ms == request.stale_ms,
{
    LockHolder {
        schema_version: 1,
        token,
        owner_pid,
        command: request.command.clone(),
        target_kind: clone_opt(&request.target_kind),
        target_id: clone_opt(&request.target_id),
        acquired_at_unix_ms: now_unix_ms,
        heartbeat_unix_ms: now_unix_ms,
        stale_after_ms: request.stale_ms,
    }
}

/// The error of a caller that gave up: a timeout naming the lock and the
/// limit, with the report, the holder (if known) and the queue as details.
pub fn timeout_error(
    request: &ExecutionLockRequest,
    report: ExecutionLockReport,
    holder: Option<LockHolder>,
    queue: QueueState,
) -> (e: TendrilError)
    ensures
        e.is_structured(),
        e.category_spec() == ErrorCategory::Timeout,
        e.code_spec() == "execution_lock_timeout"@,
        e.message_spec() == "timed out waiting for Tendril execution lock `"@ + request.lock_path@ + "` after "@
            + decimal(request.timeout_ms as nat) + " ms"@,
        e.detail_spec("execution_lock"@) == Some(DetailValue::LockReport(report)),
        e.detail_spec("holder"@) == Some(
            match holder {
                Some(h) => DetailValue::LockHolder(h),
                None => DetailValue::Null,
            },
        ),
        e.detail_spec("queue_position"@) == Some(DetailValue::Number(queue.position as u64)),
        e.detail_spec("queue_depth"@) == Some(DetailValue::Number(queue.depth as u64)),
{
    let mut message = owned("timed out waiting for Tendril execution lock `");
    text::push_str(&mut message, request.lock_path.as_str());
    text::push_str(&mut message, "` after ");
    let t = text::format_u64(request.timeout_ms);
    text::push_str(&mut message, t.as_str());
    text::push_str(&mut message, " ms");
    let holder_value = match holder {
        Some(h) => DetailValue::LockHolder(h),
        None => DetailValue::Null,
    };
    let e = TendrilError::timeout("execution_lock_timeout", message)
        .with_detail_entry("execution_lock", DetailValue::LockReport(report))
        .with_detail_entry("holder", holder_value);
    proof {
        reveal_strlit("execution_lock");
        reveal_strlit("holder");
        reveal_strlit("queue_position");
        reveal_strlit("queue_depth");
        assert("execution_lock"@.len() == 14 && "holder"@.len() == 6);
        assert("queue_position"@.len() == 14 && "queue_depth"@.len() == 11);
        assert("queue_position"@[0] == 'q' && "execution_lock"@[0] == 'e');
        assert("execution_lock"@ != "holder"@);
        assert("queue_position"@ != "holder"@);
        assert("queue_position"@ != "execution_lock"@);
        assert("queue_depth"@ != "holder"@);
        assert("queue_depth"@ != "execution_lock"@);
        assert("queue_depth"@ != "queue_position"@);
    }
    e.with_detail_entry("queue_position", DetailValue::Number(queue.position as u64)).with_detail_entry(
        "queue_depth",
        DetailValue::Number(queue.depth as u64),
    )
}

/// Which step of taking the lock failed.
#[derive(Debug, Clone, Copy, PartialEq, Eq, Structural)]
pub enum LockFailure {
    CreateDirectory,
    WriteTicket,
    WriteOwner,
    Acquire,
}

pub open spec fn lock_failure_message(step: LockFailure, path: Seq<char>, error: Seq<char>) -> Seq<char> {
    match step {
        LockFailure::CreateDirectory => "failed to create Tendril execution lock directory `"@ + path + "`: "@ + error,
        LockFailure::WriteTicket => "failed to write Tendril execution queue ticket `"@ + path + "`: "@ + error,
        LockFailure::WriteOwner => "failed to write Tendril execution lock metadata `"@ + path + "`: "@ + error,
        LockFailure::Acquire => "failed to acquire Tendril execution lock `"@ + path + "`: "@ + error,
    }
}

/// The execution failure for a file system step of taking the lock.
pub fn lock_unavailable(step: LockFailure, path: &str, error: &str) -> (e: TendrilError)
    ensures
        e.is_structured(),
        e.category_spec() == ErrorCategory::ExecutionFailure,
        e.code_spec() == "execution_lock_unavailable"@,
        e.message_spec() == lock_failure_message(step, path@, error@),
{
    let mut message = match step {
        LockFailure::CreateDirectory => owned("failed to create Tendril execution lock directory `"),
        LockFailure::WriteTicket => owned("failed to write Tendril execution queue ticket `"),
        LockFailure::WriteOwner => owned("failed to write Tendril execution lock metadata `"),
        LockFailure::Acquire => owned("failed to acquire Tendril execution lock `"),
    };
    text::push_str(&mut message, path);
    text::push_str(&mut message, "`: ");
    text::push_str(&mut message, error);
    TendrilError::execution_failure("execution_lock_unavailable", message)
}

} // verus!
