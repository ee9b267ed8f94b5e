//! Web sessions: sessions by their id, and the short-lived access tokens that stand for them.
use crate::clock;
use crate::maps::{
    self, SessionMap, TokenMap, session_map, session_map_get, session_map_insert,
    session_map_remove, token_map, token_map_drop_session, token_map_get, token_map_insert,
    token_map_remove,
};
use crate::text::str_eq;
use std::sync::Arc;
use vstd::prelude::*;

verus! {

/// How long a session lasts: seven days.
pub const SESSION_TTL_SECS: i64 = 604800;

/// How long an access token lasts: fifteen minutes.
pub const ACCESS_TOKEN_TTL_SECS: i64 = 900;

/// A user who is logged in.
#[derive(Debug)]
pub struct User {
    pub id: String,
    pub username: String,
    pub email: Option<String>,
    pub role: String,
}

impl Clone for User {
    fn clone(&self) -> (r: User)
        ensures
            r == *self,
    {
        User {
            id: self.id.clone(),
            username: self.username.clone(),
            email: self.email.clone(),
            role: self.role.clone(),
        }
    }
}

/// A session of a user, until a moment in Unix seconds.
#[derive(Debug)]
pub struct Session {
    pub user: User,
    pub expires_at: i64,
}

/// An access token for a session, until a moment in Unix seconds.
#[derive(Debug)]
pub struct AccessToken {
    pub session_id: String,
    pub expires_at: i64,
}

impl AccessToken {
    /// Whether the token stays when the session `session_id` ends: it belongs to another one.
    pub(crate) fn outlives(&self, session_id: &str) -> (r: bool)
        ensures
            r == (self.session_id@ != session_id@),
    {
        !str_eq(self.session_id.as_str(), session_id)
    }
}

/// What a login hands out: the session id for the cookie, and an access token.
#[derive(Debug)]
pub struct Issued {
    pub session_id: String,
    pub access_token: String,
}

/// The sessions and access tokens of the server.
pub struct SessionStore {
    sessions: SessionMap,
    access_tokens: TokenMap,
}

/// What a session store holds.
#[verifier::ext_equal]
pub struct StoreState {
    pub sessions: Map<Seq<char>, Arc<Session>>,
    pub tokens: Map<Seq<char>, Arc<AccessToken>>,
}

/// The moment `ttl` seconds after `now`. Where there is none, as after a clock that could not be
/// read, it is one that has passed.
pub open spec fn expiry(now: i64, ttl: i64) -> i64 {
    if now + ttl > i64::MAX {
        i64::MIN
    } else {
        (now + ttl) as i64
    }
}

impl StoreState {
    /// The session `id` is there and has not expired at `now`.
    pub open spec fn live(self, id: Seq<char>, now: i64) -> bool {
        self.sessions.dom().contains(id) && self.sessions[id].expires_at > now
    }

    /// The user of the session `id` at `now`.
    pub open spec fn user_of(self, id: Seq<char>, now: i64) -> Option<User> {
        if self.live(id, now) {
            Some(self.sessions[id].user)
        } else {
            None
        }
    }

    /// The token `token` is there and has not expired at `now`.
    pub open spec fn token_live(self, token: Seq<char>, now: i64) -> bool {
        self.tokens.dom().contains(token) && self.tokens[token].expires_at > now
    }

    /// The user that the access token `token` stands for at `now`.
    pub open spec fn user_of_token(self, token: Seq<char>, now: i64) -> Option<User> {
        if self.token_live(token, now) {
            self.user_of(self.tokens[token].session_id@, now)
        } else {
            None
        }
    }

    /// The session `id` is gone if it has expired at `now`.
    pub open spec fn purge_session(self, id: Seq<char>, now: i64) -> StoreState {
        if self.sessions.dom().contains(id) && self.sessions[id].expires_at <= now {
            StoreState { sessions: self.sessions.remove(id), tokens: self.tokens }
        } else {
            self
        }
    }

    /// The token `token` is gone if it has expired at `now`.
    pub open spec fn purge_token(self, token: Seq<char>, now: i64) -> StoreState {
        if self.tokens.dom().contains(token) && self.tokens[token].expires_at <= now {
            StoreState { sessions: self.sessions, tokens: self.tokens.remove(token) }
        } else {
            self
        }
    }

    /// `post` has, besides what is here, the token `token` for the session `id`, issued at `now`.
    pub open spec fn token_added(
        self,
        post: StoreState,
        id: Seq<char>,
        token: Seq<char>,
        now: i64,
    ) -> bool {
        &&& post.tokens == self.tokens.insert(token, post.tokens[token])
        &&& post.tokens[token].session_id@ == id
        &&& post.tokens[token].expires_at == expiry(now, ACCESS_TOKEN_TTL_SECS)
    }

    /// `post` has, besides what is here, a session of `user` and a token for it, opened at `now`.
    pub open spec fn created(
        self,
        post: StoreState,
        user: User,
        id: Seq<char>,
        token: Seq<char>,
        now: i64,
    ) -> bool {
        &&& post.sessions == self.sessions.insert(
            id,
            Arc::new(Session { user, expires_at: expiry(now, SESSION_TTL_SECS) }),
        )
        &&& self.token_added(post, id, token, now)
    }

    /// `post` is what a refresh of the session `id` at `now` leaves.
    pub open spec fn refreshed(
        self,
        post: StoreState,
        id: Seq<char>,
        token: Seq<char>,
        now: i64,
    ) -> bool {
        if self.live(id, now) {
            post.sessions == self.sessions && self.token_added(post, id, token, now)
        } else {
            post == self.purge_session(id, now)
        }
    }

    /// The session `id` and its tokens are gone.
    pub open spec fn revoked(self, id: Seq<char>) -> StoreState {
        StoreState {
            sessions: self.sessions.remove(id),
            tokens: maps::without_session(self.tokens, id),
        }
    }
}

fn expires(now: i64, ttl: i64) -> (r: i64)
    requires
        ttl >= 0,
    ensures
        r == expiry(now, ttl),
{
    if now > i64::MAX - ttl {
        i64::MIN
    } else {
        now + ttl
    }
}

impl View for SessionStore {
    type V = StoreState;

    closed spec fn view(&self) -> StoreState {
        StoreState {
            sessions: maps::session_entries(self.sessions),
            tokens: maps::token_entries(self.access_tokens),
        }
    }
}

impl SessionStore {
    /// A store without sessions.
    pub fn new() -> (r: SessionStore)
        ensures
            r@.sessions == Map::<Seq<char>, Arc<Session>>::empty(),
            r@.tokens == Map::<Seq<char>, Arc<AccessToken>>::empty(),
    {
        SessionStore { sessions: session_map(), access_tokens: token_map() }
    }

    /// Opens a session for `user` at the moment `now`, under the random values `session_id` and
    /// `access_token`.
    pub fn create_at(
        &mut self,
        user: User,
        session_id: String,
        access_token: String,
        now: i64,
    ) -> (r: Issued)
        ensures
            r.session_id == session_id,
            r.access_token == access_token,
            old(self)@.created(final(self)@, user, session_id@, access_token@, now),
    {
        session_map_insert(
            &mut self.sessions,
            session_id.clone(),
            Arc::new(Session { user, expires_at: expires(now, SESSION_TTL_SECS) }),
        );
        token_map_insert(
            &mut self.access_tokens,
            access_token.clone(),
            Arc::new(
                AccessToken {
                    session_id: session_id.clone(),
                    expires_at: expires(now, ACCESS_TOKEN_TTL_SECS),
                },
            ),
        );
        Issued { session_id, access_token }
    }

    /// The user of a session at the moment `now`. A session that has expired is dropped.
    pub fn user_by_session_at(&mut self, session_id: &str, now: i64) -> (r: Option<User>)
        ensures
            r == old(self)@.user_of(session_id@, now),
            final(self)@ == old(self)@.purge_session(session_id@, now),
    {
        match session_map_get(&self.sessions, session_id) {
            None => None,
            Some(session) => {
                if session.expires_at <= now {
                    session_map_remove(&mut self.sessions, session_id);
                    None
                } else {
                    Some(session.user.clone())
                }
            },
        }
    }

    /// The user that an access token stands for at the moment `now`. A token or a session that
    /// has expired is dropped.
    pub fn user_by_access_token_at(&mut self, token: &str, now: i64) -> (r: Option<User>)
        ensures
            r == old(self)@.user_of_token(token@, now),
            final(self)@ == (if old(self)@.token_live(token@, now) {
                old(self)@.purge_session(old(self)@.tokens[token@].session_id@, now)
            } else {
                old(self)@.purge_token(token@, now)
            }),
    {
        match token_map_get(&self.access_tokens, token) {
            None => None,
            Some(entry) => {
                if entry.expires_at <= now {
                    token_map_remove(&mut self.access_tokens, token);
                    None
                } else {
                    self.user_by_session_at(entry.session_id.as_str(), now)
                }
            },
        }
    }

    /// A new access token for a session that is live at `now`, under the random value
    /// `access_token`; none where the session is unknown or has expired.
    pub fn refresh_at(&mut self, session_id: &str, access_token: String, now: i64) -> (r: Option<
        String,
    >)
        ensures
            r == (if old(self)@.live(session_id@, now) {
                Some(access_token)
            } else {
                None
            }),
            old(self)@.refreshed(final(self)@, session_id@, access_token@, now),
    {
        match session_map_get(&self.sessions, session_id) {
            None => None,
            Some(session) => {
                if session.expires_at <= now {
                    session_map_remove(&mut self.sessions, session_id);
                    return None;
                }
                token_map_insert(
                    &mut self.access_tokens,
                    access_token.clone(),
                    Arc::new(
                        AccessToken {
                            session_id: session_id.to_owned(),
                            expires_at: expires(now, ACCESS_TOKEN_TTL_SECS),
                        },
                    ),
                );
                Some(access_token)
            },
        }
    }

    /// Ends a session: it is gone, and so are all its access tokens.
    pub fn revoke(&mut self, session_id: &str)
        ensures
            final(self)@ == old(self)@.revoked(session_id@),
    {
        session_map_remove(&mut self.sessions, session_id);
        token_map_drop_session(&mut self.access_tokens, session_id);
    }

    /// Opens a session for `user` now.
    pub fn create(&mut self, user: User, session_id: String, access_token: String) -> (r: Issued)
        ensures
            r.session_id == session_id,
            r.access_token == access_token,
            exists|now: i64| #[trigger]
                old(self)@.created(final(self)@, user, session_id@, access_token@, now),
    {
        let now: i64 = clock::session_now();
        self.create_at(user, session_id, access_token, now)
    }

    /// The user of a session now.
    pub fn user_by_session(&mut self, session_id: &str) -> (r: Option<User>)
        ensures
            exists|now: i64|
                r == #[trigger] old(self)@.user_of(session_id@, now) && final(self)@
                    == old(self)@.purge_session(session_id@, now),
    {
        let now: i64 = clock::session_now();
        self.user_by_session_at(session_id, now)
    }

    /// The user that an access token stands for now.
    pub fn user_by_access_token(&mut self, token: &str) -> (r: Option<User>)
        ensures
            exists|now: i64|
                r == #[trigger] old(self)@.user_of_token(token@, now) && final(self)@ == (if old(
                    self,
                )@.token_live(token@, now) {
                    old(self)@.purge_session(old(self)@.tokens[token@].session_id@, now)
                } else {
                    old(self)@.purge_token(token@, now)
                }),
    {
        let now: i64 = clock::session_now();
        self.user_by_access_token_at(token, now)
    }

    /// A new access token for a session that is live now.
    pub fn refresh(&mut self, session_id: &str, access_token: String) -> (r: Option<String>)
        ensures
            exists|now: i64| #[trigger]
                old(self)@.refreshed(final(self)@, session_id@, access_token@, now) && r == (if old(
                    self,
                )@.live(session_id@, now) {
                    Some(access_token)
                } else {
                    None
                }),
    {
        let now: i64 = clock::session_now();
        self.refresh_at(session_id, access_token, now)
    }
}

/// With a clock that cannot be read, every session and every token counts as expired, and a
/// session that is opened meanwhile gives no user later either.
pub proof fn unreadable_clock_ends_all(
    s: StoreState,
    post: StoreState,
    user: User,
    id: Seq<char>,
    token: Seq<char>,
    later: i64,
)
    requires
        s.created(post, user, id, token, clock::session_moment(None)),
    ensures
        s.user_of(id, clock::session_moment(None)) is None,
        s.user_of_token(token, clock::session_moment(None)) is None,
        post.user_of(id, later) is None,
        post.user_of_token(token, later) is None,
{
}

/// After a session was revoked, neither its id nor any of its tokens gives a user, at any
/// moment.
pub proof fn revoked_session_is_dead(s: StoreState, id: Seq<char>, token: Seq<char>, now: i64)
    ensures
        s.revoked(id).user_of(id, now) is None,
        s.tokens.dom().contains(token) && s.tokens[token].session_id@ == id ==> s.revoked(
            id,
        ).user_of_token(token, now) is None,
{
}

/// Revoking a session leaves every other session, and the tokens of the others, as they were.
pub proof fn revoking_leaves_the_others(
    s: StoreState,
    id: Seq<char>,
    other: Seq<char>,
    token: Seq<char>,
    now: i64,
)
    requires
        other != id,
        s.tokens.dom().contains(token) ==> s.tokens[token].session_id@ != id,
    ensures
        s.revoked(id).user_of(other, now) == s.user_of(other, now),
        s.revoked(id).user_of_token(token, now) == s.user_of_token(token, now),
{
}

/// Once a session or a token has expired it stays expired.
pub proof fn expiry_is_final(s: StoreState, id: Seq<char>, now: i64, later: i64)
    requires
        now <= later,
    ensures
        s.user_of(id, now) is None ==> s.user_of(id, later) is None,
        s.user_of_token(id, now) is None ==> s.user_of_token(id, later) is None,
{
}

/// Dropping what has expired changes no answer, now or later.
pub proof fn purging_changes_no_answer(
    s: StoreState,
    gone: Seq<char>,
    now: i64,
    asked: Seq<char>,
    later: i64,
)
    requires
        now <= later,
    ensures
        s.purge_session(gone, now).user_of(asked, later) == s.user_of(asked, later),
        s.purge_session(gone, now).user_of_token(asked, later) == s.user_of_token(asked, later),
        s.purge_token(gone, now).user_of_token(asked, later) == s.user_of_token(asked, later),
        s.purge_token(gone, now).user_of(asked, later) == s.user_of(asked, later),
{
}

/// A new session and its first token stand for the user until they expire.
pub proof fn created_session_is_found(
    s: StoreState,
    post: StoreState,
    user: User,
    id: Seq<char>,
    token: Seq<char>,
    now: i64,
    later: i64,
)
    requires
        s.created(post, user, id, token, now),
        now <= later,
    ensures
        later < expiry(now, SESSION_TTL_SECS) ==> post.user_of(id, later) == Some(user),
        later >= expiry(now, SESSION_TTL_SECS) ==> post.user_of(id, later) is None,
        later < expiry(now, ACCESS_TOKEN_TTL_SECS) && later < expiry(now, SESSION_TTL_SECS)
            ==> post.user_of_token(token, later) == Some(user),
        later >= expiry(now, ACCESS_TOKEN_TTL_SECS) ==> post.user_of_token(token, later) is None,
{
}

/// A refresh of a live session gives a token for the session's user, and leaves the tokens from
/// before as they were; a refresh of any other session gives none.
pub proof fn refreshed_token_is_found(
    s: StoreState,
    post: StoreState,
    id: Seq<char>,
    token: Seq<char>,
    other: Seq<char>,
    now: i64,
    later: i64,
)
    requires
        s.refreshed(post, id, token, now),
        now <= later,
        other != token,
    ensures
        s.live(id, now) && later < expiry(now, ACCESS_TOKEN_TTL_SECS) ==> post.user_of_token(
            token,
            later,
        ) == post.user_of(id, later),
        post.user_of(id, later) == s.user_of(id, later),
        post.user_of_token(other, later) == s.user_of_token(other, later),
{
}

/// A session stands for its user exactly until it expires, and an access token exactly as long as
/// it and its session do.
pub proof fn when_credentials_stand_for_a_user(s: StoreState, id: Seq<char>, token: Seq<char>, now: i64)
    ensures
        s.user_of(id, now) is Some <==> s.sessions.dom().contains(id) && now
            < s.sessions[id].expires_at,
        s.user_of(id, now) matches Some(u) ==> u == s.sessions[id].user,
        s.user_of_token(token, now) is Some <==> {
            &&& s.tokens.dom().contains(token)
            &&& now < s.tokens[token].expires_at
            &&& s.sessions.dom().contains(s.tokens[token].session_id@)
            &&& now < s.sessions[s.tokens[token].session_id@].expires_at
        },
        s.user_of_token(token, now) matches Some(u) ==> u
            == s.sessions[s.tokens[token].session_id@].user,
        s.live(id, now) <==> s.user_of(id, now) is Some,
{
}

/// A session that was opened lasts seven days, and its access token fifteen minutes, to the
/// second.
pub proof fn sessions_last_seven_days(
    s: StoreState,
    post: StoreState,
    user: User,
    id: Seq<char>,
    token: Seq<char>,
    now: i64,
    later: i64,
)
    requires
        s.created(post, user, id, token, now),
        now + 604800 <= 0x7fff_ffff_ffff_ffff,
    ensures
        later < now + 604800 ==> post.user_of(id, later) == Some(user),
        later >= now + 604800 ==> post.user_of(id, later) is None,
        later < now + 900 ==> post.user_of_token(token, later) == Some(user),
        later >= now + 900 ==> post.user_of_token(token, later) is None,
{
}

/// Opening a session leaves every other session and every other token as they were.
pub proof fn opening_leaves_the_others(
    s: StoreState,
    post: StoreState,
    user: User,
    id: Seq<char>,
    token: Seq<char>,
    now: i64,
    other: Seq<char>,
    later: i64,
)
    requires
        s.created(post, user, id, token, now),
    ensures
        other != id ==> post.user_of(other, later) == s.user_of(other, later),
        other != token && (s.tokens.dom().contains(other) ==> s.tokens[other].session_id@ != id)
            ==> post.user_of_token(other, later) == s.user_of_token(other, later),
{
}

/// A refresh gives a live session another token for fifteen minutes, but does not make the session
/// last longer; one of a session that is not live gives no token at all.
pub proof fn refreshing_does_not_prolong(
    s: StoreState,
    post: StoreState,
    id: Seq<char>,
    token: Seq<char>,
    now: i64,
    later: i64,
)
    requires
        s.refreshed(post, id, token, now),
        now + 604800 <= 0x7fff_ffff_ffff_ffff,
        now <= later,
    ensures
        post.user_of(id, later) == s.user_of(id, later),
        s.user_of(id, now) is Some && later < now + 900 ==> post.user_of_token(token, later)
            == s.user_of(id, later),
        s.user_of(id, now) is Some && later >= now + 900 ==> post.user_of_token(token, later)
            is None,
        s.user_of(id, now) is None ==> post.tokens == s.tokens,
{
}

/// A session that has expired is forgotten when it is asked for, and one that has not is kept; so
/// are tokens.
pub proof fn only_the_expired_are_forgotten(s: StoreState, id: Seq<char>, now: i64)
    ensures
        s.sessions.dom().contains(id) && s.sessions[id].expires_at <= now
            ==> !s.purge_session(id, now).sessions.dom().contains(id),
        !(s.sessions.dom().contains(id) && s.sessions[id].expires_at <= now) ==> s.purge_session(
            id,
            now,
        ) == s,
        s.purge_session(id, now).tokens == s.tokens,
        s.tokens.dom().contains(id) && s.tokens[id].expires_at <= now ==> !s.purge_token(
            id,
            now,
        ).tokens.dom().contains(id),
        !(s.tokens.dom().contains(id) && s.tokens[id].expires_at <= now) ==> s.purge_token(id, now)
            == s,
        s.purge_token(id, now).sessions == s.sessions,
{
}

/// A session that was revoked is gone with all of its tokens, and nothing else is.
pub proof fn revoking_takes_exactly_the_session(s: StoreState, id: Seq<char>, token: Seq<char>)
    ensures
        s.revoked(id).sessions == s.sessions.remove(id),
        s.revoked(id).tokens.dom().contains(token) <==> s.tokens.dom().contains(token)
            && s.tokens[token].session_id@ != id,
        s.revoked(id).tokens.dom().contains(token) ==> s.revoked(id).tokens[token]
            == s.tokens[token],
{
}

} // verus!
