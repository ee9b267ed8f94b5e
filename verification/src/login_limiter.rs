//! Protection of logins against guessing: too many failures within a window lock a user name.
use crate::clock::now_secs;
use crate::maps::{
    self, FailureMap, failure_map, failure_map_get, failure_map_insert, failure_map_remove,
};
use vstd::prelude::*;

verus! {

/// How many failures lock a user name where nothing else is configured.
pub const DEFAULT_MAX_ATTEMPTS: u32 = 5;

/// How long failures count, in seconds, where nothing else is configured.
pub const DEFAULT_WINDOW_SECS: u64 = 300;

/// The failed logins of each user name.
pub struct LoginLimiter {
    max_attempts: usize,
    window_secs: u64,
    failures: FailureMap,
}

/// What a login limiter knows.
#[verifier::ext_equal]
pub struct LimiterState {
    pub max_attempts: nat,
    pub window: u64,
    pub failures: Map<Seq<char>, Seq<u64>>,
}

/// A failure at `t` still counts at `now`. One that lies in the future counts too.
pub open spec fn counts(t: u64, now: u64, window: u64) -> bool {
    if now > t {
        now - t < window
    } else {
        0 < window
    }
}

/// The failures of `times` that still count at `now`.
pub open spec fn recent(times: Seq<u64>, now: u64, window: u64) -> Seq<u64>
    decreases times.len(),
{
    if times.len() == 0 {
        Seq::empty()
    } else if counts(times.last(), now, window) {
        recent(times.drop_last(), now, window).push(times.last())
    } else {
        recent(times.drop_last(), now, window)
    }
}

impl LimiterState {
    /// The failures on record for `user`.
    pub open spec fn times(self, user: Seq<char>) -> Seq<u64> {
        match maps::entry(self.failures, user) {
            Some(t) => t,
            None => Seq::empty(),
        }
    }

    /// A login of `user` may be tried at `now`.
    pub open spec fn open_to(self, user: Seq<char>, now: u64) -> bool {
        recent(self.times(user), now, self.window).len() < self.max_attempts
    }

    /// The state once the failures of `user` that no longer count are forgotten.
    pub open spec fn pruned(self, user: Seq<char>, now: u64) -> LimiterState {
        LimiterState {
            failures: self.failures.insert(user, recent(self.times(user), now, self.window)),
            ..self
        }
    }

    /// The state after a failed login of `user` at `now`.
    pub open spec fn failed(self, user: Seq<char>, now: u64) -> LimiterState {
        LimiterState {
            failures: self.failures.insert(
                user,
                recent(self.times(user), now, self.window).push(now),
            ),
            ..self
        }
    }

    /// The state after a successful login of `user`.
    pub open spec fn cleared(self, user: Seq<char>) -> LimiterState {
        LimiterState { failures: self.failures.remove(user), ..self }
    }

    /// The state after failed logins of `user` at the moments `at`.
    pub open spec fn failed_at(self, user: Seq<char>, at: Seq<u64>) -> LimiterState
        decreases at.len(),
    {
        if at.len() == 0 {
            self
        } else {
            self.failed_at(user, at.drop_last()).failed(user, at.last())
        }
    }
}

impl View for LoginLimiter {
    type V = LimiterState;

    closed spec fn view(&self) -> LimiterState {
        LimiterState {
            max_attempts: self.max_attempts as nat,
            window: self.window_secs,
            failures: maps::failure_entries(self.failures),
        }
    }
}

impl LoginLimiter {
    /// A limiter that locks a user name after `max_attempts` failures within `window_secs`
    /// seconds.
    pub fn new(max_attempts: u32, window_secs: u64) -> (r: LoginLimiter)
        ensures
            r@.max_attempts == max_attempts,
            r@.window == window_secs,
            r@.failures == Map::<Seq<char>, Seq<u64>>::empty(),
    {
        LoginLimiter { max_attempts: max_attempts as usize, window_secs, failures: failure_map() }
    }

    /// The failures of `username` that still count at `now`.
    fn recent_failures(&self, username: &str, now: u64) -> (r: Vec<u64>)
        ensures
            r@ == recent(self@.times(username@), now, self@.window),
    {
        let times = match failure_map_get(&self.failures, username) {
            Some(t) => t,
            None => Vec::new(),
        };
        let mut kept: Vec<u64> = Vec::new();
        let mut i: usize = 0;
        assert(times@ =~= self@.times(username@));
        while i < times.len()
            invariant
                i <= times@.len(),
                kept@ == recent(times@.subrange(0, i as int), now, self.window_secs),
            decreases times@.len() - i,
        {
            let t: u64 = times[i];
            assert(times@.subrange(0, i + 1).drop_last() =~= times@.subrange(0, i as int));
            if now.saturating_sub(t) < self.window_secs {
                kept.push(t);
            }
            i += 1;
        }
        assert(times@.subrange(0, i as int) =~= times@);
        kept
    }

    /// Whether a login of `username` may be tried at `now`. Failures that no longer count are
    /// forgotten.
    pub fn allows_at(&mut self, username: &str, now: u64) -> (r: bool)
        ensures
            r == old(self)@.open_to(username@, now),
            final(self)@ == old(self)@.pruned(username@, now),
    {
        let kept = self.recent_failures(username, now);
        let r = kept.len() < self.max_attempts;
        failure_map_insert(&mut self.failures, username.to_owned(), kept);
        r
    }

    /// Puts a failed login of `username` at `now` on record.
    pub fn record_failure_at(&mut self, username: &str, now: u64)
        ensures
            final(self)@ == old(self)@.failed(username@, now),
    {
        let mut kept = self.recent_failures(username, now);
        kept.push(now);
        failure_map_insert(&mut self.failures, username.to_owned(), kept);
    }

    /// Forgets the failures of `username`.
    pub fn reset(&mut self, username: &str)
        ensures
            final(self)@ == old(self)@.cleared(username@),
    {
        failure_map_remove(&mut self.failures, username);
    }

    /// Whether a login of `username` may be tried now.
    pub fn allows(&mut self, username: &str) -> (r: bool)
        ensures
            exists|now: u64|
                r == #[trigger] old(self)@.open_to(username@, now) && final(self)@
                    == old(self)@.pruned(username@, now),
    {
        let now: u64 = now_secs();
        self.allows_at(username, now)
    }

    /// Puts a failed login of `username` now on record.
    pub fn record_failure(&mut self, username: &str)
        ensures
            exists|now: u64| final(self)@ == #[trigger] old(self)@.failed(username@, now),
    {
        let now: u64 = now_secs();
        self.record_failure_at(username, now)
    }
}

impl Default for LoginLimiter {
    fn default() -> (r: LoginLimiter)
        ensures
            r@.max_attempts == DEFAULT_MAX_ATTEMPTS,
            r@.window == DEFAULT_WINDOW_SECS,
            r@.max_attempts == 5,
            r@.window == 300,
            r@.failures == Map::<Seq<char>, Seq<u64>>::empty(),
    {
        LoginLimiter::new(DEFAULT_MAX_ATTEMPTS, DEFAULT_WINDOW_SECS)
    }
}

proof fn recent_of_push(times: Seq<u64>, t: u64, now: u64, window: u64)
    ensures
        recent(times.push(t), now, window) == (if counts(t, now, window) {
            recent(times, now, window).push(t)
        } else {
            recent(times, now, window)
        }),
{
    assert(times.push(t).drop_last() =~= times);
}

proof fn recent_twice(times: Seq<u64>, now: u64, later: u64, window: u64)
    requires
        now <= later,
    ensures
        recent(recent(times, now, window), later, window) == recent(times, later, window),
    decreases times.len(),
{
    if times.len() > 0 {
        recent_twice(times.drop_last(), now, later, window);
        if counts(times.last(), now, window) {
            recent_of_push(recent(times.drop_last(), now, window), times.last(), later, window);
        }
    }
}

/// Forgetting failures that no longer count changes no answer from then on.
pub proof fn pruning_changes_no_answer(
    s: LimiterState,
    user: Seq<char>,
    now: u64,
    asked: Seq<char>,
    later: u64,
)
    requires
        now <= later,
    ensures
        s.pruned(user, now).open_to(asked, later) == s.open_to(asked, later),
{
    if asked == user {
        recent_twice(s.times(user), now, later, s.window);
    }
}

proof fn failures_accumulate(s: LimiterState, user: Seq<char>, at: Seq<u64>, now: u64)
    requires
        s.window > 0,
        forall|i: int, j: int| 0 <= i <= j < at.len() ==> at[i] <= at[j],
        forall|i: int| 0 <= i < at.len() ==> #[trigger] at[i] <= now && counts(
            at[i],
            now,
            s.window,
        ),
    ensures
        s.failed_at(user, at).window == s.window,
        s.failed_at(user, at).max_attempts == s.max_attempts,
        recent(s.failed_at(user, at).times(user), now, s.window) == recent(
            s.times(user),
            now,
            s.window,
        ) + at,
    decreases at.len(),
{
    if at.len() == 0 {
        assert(recent(s.times(user), now, s.window) + at =~= recent(
            s.times(user),
            now,
            s.window,
        ));
    } else {
        let before = at.drop_last();
        let t = at.last();
        assert forall|i: int| 0 <= i < before.len() implies #[trigger] before[i] <= now && counts(
            before[i],
            now,
            s.window,
        ) by {
            assert(before[i] == at[i]);
        }
        failures_accumulate(s, user, before, now);
        let m = s.failed_at(user, before);
        recent_twice(m.times(user), t, now, s.window);
        recent_of_push(recent(m.times(user), t, s.window), t, now, s.window);
        assert(recent(s.times(user), now, s.window) + at =~= (recent(
            s.times(user),
            now,
            s.window,
        ) + before).push(t));
    }
}

/// As many failures as the limit within the window lock the user name for as long as they
/// count, whatever was on record before.
pub proof fn locks_after_the_limit(s: LimiterState, user: Seq<char>, at: Seq<u64>, now: u64)
    requires
        s.window > 0,
        at.len() >= s.max_attempts,
        forall|i: int, j: int| 0 <= i <= j < at.len() ==> at[i] <= at[j],
        forall|i: int| 0 <= i < at.len() ==> #[trigger] at[i] <= now && counts(
            at[i],
            now,
            s.window,
        ),
    ensures
        !s.failed_at(user, at).open_to(user, now),
{
    failures_accumulate(s, user, at, now);
}

/// Fewer failures than the limit since the last success leave the user name open.
pub proof fn open_below_the_limit(s: LimiterState, user: Seq<char>, at: Seq<u64>, now: u64)
    requires
        s.window > 0,
        at.len() < s.max_attempts,
        forall|i: int, j: int| 0 <= i <= j < at.len() ==> at[i] <= at[j],
        forall|i: int| 0 <= i < at.len() ==> #[trigger] at[i] <= now && counts(
            at[i],
            now,
            s.window,
        ),
    ensures
        s.cleared(user).failed_at(user, at).open_to(user, now),
{
    failures_accumulate(s.cleared(user), user, at, now);
    assert(s.cleared(user).times(user) =~= Seq::<u64>::empty());
}

/// The failures of one user name lock no other.
pub proof fn user_names_are_independent(
    s: LimiterState,
    user: Seq<char>,
    other: Seq<char>,
    at: u64,
    now: u64,
)
    requires
        user != other,
    ensures
        s.failed(user, at).open_to(other, now) == s.open_to(other, now),
        s.cleared(user).open_to(other, now) == s.open_to(other, now),
{
}

/// Once the window has passed since every failure on record, the user name is open again.
pub proof fn lock_lifts(s: LimiterState, user: Seq<char>, now: u64)
    requires
        s.max_attempts > 0,
        forall|i: int|
            0 <= i < s.times(user).len() ==> !counts(#[trigger] s.times(user)[i], now, s.window),
    ensures
        s.open_to(user, now),
{
    none_recent(s.times(user), now, s.window);
}

proof fn none_recent(times: Seq<u64>, now: u64, window: u64)
    requires
        forall|i: int| 0 <= i < times.len() ==> !counts(#[trigger] times[i], now, window),
    ensures
        recent(times, now, window).len() == 0,
    decreases times.len(),
{
    if times.len() > 0 {
        assert forall|i: int| 0 <= i < times.len() - 1 implies !counts(
            #[trigger] times.drop_last()[i],
            now,
            window,
        ) by {
            assert(times.drop_last()[i] == times[i]);
        }
        none_recent(times.drop_last(), now, window);
    }
}

/// A failure counts for as long as the window, to the second: one at `t` counts at `now` exactly
/// where less than the window lies between them.
pub proof fn how_long_a_failure_counts(t: u64, now: u64, window: u64)
    ensures
        counts(t, now, window) <==> window > 0 && now as int - (t as int) < window as int,
{
}

/// Of failures on record those that still count are kept, in their order, and no other.
pub proof fn what_still_counts_is_kept(times: Seq<u64>, t: u64, now: u64, window: u64)
    ensures
        recent(Seq::<u64>::empty(), now, window).len() == 0,
        window > 0 && now as int - (t as int) < window as int ==> recent(times.push(t), now, window)
            == recent(times, now, window).push(t),
        !(window > 0 && now as int - (t as int) < window as int) ==> recent(
            times.push(t),
            now,
            window,
        ) == recent(times, now, window),
{
    assert(times.push(t).drop_last() =~= times);
}

/// A user name is locked exactly where as many failures as the limit still count.
pub proof fn when_a_user_name_is_locked(s: LimiterState, user: Seq<char>, now: u64)
    ensures
        s.open_to(user, now) <==> recent(s.times(user), now, s.window).len() < s.max_attempts,
        !s.failures.dom().contains(user) ==> s.times(user).len() == 0,
        s.failures.dom().contains(user) ==> s.times(user) == s.failures[user],
{
}

/// A failure is noted with its moment, behind those that still count, for the user name that was
/// given; a success forgets all of them. Neither changes the limit or the window.
pub proof fn failures_are_noted_until_a_success(s: LimiterState, user: Seq<char>, now: u64)
    ensures
        s.failed(user, now).times(user) == recent(s.times(user), now, s.window).push(now),
        s.failed(user, now).max_attempts == s.max_attempts,
        s.failed(user, now).window == s.window,
        s.cleared(user).times(user).len() == 0,
        s.cleared(user).max_attempts == s.max_attempts,
        s.cleared(user).window == s.window,
        s.pruned(user, now).times(user) == recent(s.times(user), now, s.window),
        s.pruned(user, now).max_attempts == s.max_attempts,
        s.pruned(user, now).window == s.window,
{
}

/// Failed logins are noted one after the other, each on what was noted before.
pub proof fn failures_are_noted_in_turn(s: LimiterState, user: Seq<char>, at: Seq<u64>, t: u64)
    ensures
        s.failed_at(user, Seq::empty()) == s,
        s.failed_at(user, at.push(t)).times(user) == recent(
            s.failed_at(user, at).times(user),
            t,
            s.failed_at(user, at).window,
        ).push(t),
{
    assert(at.push(t).drop_last() =~= at);
}

} // verus!
