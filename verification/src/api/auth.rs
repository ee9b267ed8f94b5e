//! Logging in and out, and telling who makes a request.
use crate::api::{self, ApiError, AuditMeta, AuditRecord};
use crate::login_limiter::LoginLimiter;
use crate::session::{self, Issued, SESSION_TTL_SECS, SessionStore, User};
use crate::text::{self, chars_of, concat, decimal, push_str, str_eq, string_of, trim};
use vstd::prelude::*;

verus! {

/// The name of the cookie that carries the session id.
pub const SESSION_COOKIE: &'static str = "sid";

/// A request to log in.
#[derive(Debug)]
pub struct LoginRequest {
    pub username: String,
    pub password: String,
}

/// The answer to a login.
#[derive(Debug)]
pub struct LoginResponse {
    pub user: User,
    pub access_token: String,
    pub token_type: &'static str,
}

/// The answer to the question who is logged in.
#[derive(Debug)]
pub struct MeResponse {
    pub user: User,
}

/// The answer to a refresh.
#[derive(Debug)]
pub struct RefreshResponse {
    pub access_token: String,
    pub token_type: &'static str,
}

/// A stored user.
#[derive(Debug)]
pub struct UserRow {
    pub id: String,
    pub username: String,
    pub email: Option<String>,
    pub password_hash: String,
    pub disabled: bool,
}

/// The user who makes a request.
pub struct CurrentUser(pub User);

/// The one error for every login with wrong credentials: it does not tell whether the user
/// exists.
pub open spec fn invalid_login() -> api::ErrorView {
    api::unauthorized_spec("invalid username or password"@)
}

/// The error for a user name that is locked.
pub open spec fn login_locked() -> api::ErrorView {
    api::error(429, "LOGIN_LOCKED"@, "too many failed login attempts; try again later"@)
}

/// A login that is refused: the record for the audit log, which may fail to be written, and the
/// answer.
#[derive(Debug)]
pub struct Refusal {
    pub audit: AuditRecord,
    pub error: ApiError,
}

impl Refusal {
    /// The refusal of a login as `username`, on record under `user_id` or, where the user is
    /// unknown, under the name.
    pub open spec fn refuses(self, user_id: Option<String>, username: String) -> bool {
        &&& self.error@ == invalid_login()
        &&& self.audit.says(
            user_id,
            "login.failed"@,
            "user"@,
            match user_id {
                Some(id) => id,
                None => username,
            },
            AuditMeta::Username { username },
        )
    }
}

fn refusal(user_id: Option<String>, username: &String) -> (r: Refusal)
    ensures
        r.refuses(user_id, *username),
{
    let resource_id = match &user_id {
        Some(id) => id.clone(),
        None => username.clone(),
    };
    Refusal {
        audit: AuditRecord {
            user_id,
            action: "login.failed",
            resource_type: "user",
            resource_id,
            metadata: AuditMeta::Username { username: username.clone() },
        },
        error: ApiError::unauthorized("invalid username or password"),
    }
}

/// A login whose user name is not locked. The user has to be looked up.
#[derive(Debug)]
pub struct LoginAttempt {
    username: String,
}

/// A login of a user who exists and is enabled. The password has to be checked against the
/// hash.
#[derive(Debug)]
pub struct Candidate {
    username: String,
    row: UserRow,
}

/// A login with the right password. The roles of the user have to be looked up.
#[derive(Debug)]
pub struct Verified {
    row: UserRow,
}

/// What a user who was logged in is answered.
#[derive(Debug)]
pub struct Granted {
    pub response: LoginResponse,
    pub cookie: String,
}

/// A login that succeeded. The record has to be written before it is answered.
#[derive(Debug)]
pub struct LoginGrant {
    pub audit: AuditRecord,
    pub granted: Granted,
}

impl LoginAttempt {
    /// The user name that was given.
    pub closed spec fn username(self) -> String {
        self.username
    }

    /// Starts a login at `now`. A user name that is locked is refused at once: nothing is looked
    /// up, and no failure is counted.
    pub fn begin(limiter: &mut LoginLimiter, username: String, now: u64) -> (r: Result<
        LoginAttempt,
        ApiError,
    >)
        ensures
            final(limiter)@ == old(limiter)@.pruned(username@, now),
            match r {
                Ok(a) => old(limiter)@.open_to(username@, now) && a.username() == username,
                Err(e) => !old(limiter)@.open_to(username@, now) && e@ == login_locked(),
            },
    {
        if !limiter.allows_at(username.as_str(), now) {
            return Err(
                ApiError::too_many_requests(
                    "LOGIN_LOCKED",
                    "too many failed login attempts; try again later",
                ),
            );
        }
        Ok(LoginAttempt { username })
    }

    /// Takes the user that was looked up. One who is unknown or disabled is refused, and the
    /// failure is counted.
    pub fn user_found(self, limiter: &mut LoginLimiter, row: Option<UserRow>, now: u64) -> (r:
        Result<Candidate, Refusal>)
        ensures
            match row {
                Some(u) => if u.disabled {
                    &&& r matches Err(f)
                    &&& f.refuses(Some(u.id), self.username())
                    &&& final(limiter)@ == old(limiter)@.failed(self.username()@, now)
                } else {
                    &&& r matches Ok(c)
                    &&& c.username() == self.username()
                    &&& c.user() == u
                    &&& final(limiter)@ == old(limiter)@
                },
                None => {
                    &&& r matches Err(f)
                    &&& f.refuses(None, self.username())
                    &&& final(limiter)@ == old(limiter)@.failed(self.username()@, now)
                },
            },
    {
        match row {
            None => {
                limiter.record_failure_at(self.username.as_str(), now);
                Err(refusal(None, &self.username))
            },
            Some(row) => {
                if row.disabled {
                    limiter.record_failure_at(self.username.as_str(), now);
                    return Err(refusal(Some(row.id), &self.username));
                }
                Ok(Candidate { username: self.username, row })
            },
        }
    }
}

impl Candidate {
    /// The user name that was given.
    pub closed spec fn username(self) -> String {
        self.username
    }

    /// The user.
    pub closed spec fn user(self) -> UserRow {
        self.row
    }

    /// The hash that the password has to fit.
    pub fn password_hash(&self) -> (h: &str)
        ensures
            h@ == self.user().password_hash@,
    {
        self.row.password_hash.as_str()
    }

    /// Takes the outcome of the check of the password. A wrong one is refused, and the failure is
    /// counted; with the right one the failures so far are forgotten.
    pub fn password_checked(self, limiter: &mut LoginLimiter, ok: bool, now: u64) -> (r: Result<
        Verified,
        Refusal,
    >)
        ensures
            if ok {
                &&& r matches Ok(v)
                &&& v.user() == self.user()
                &&& final(limiter)@ == old(limiter)@.cleared(self.username()@)
            } else {
                &&& r matches Err(f)
                &&& f.refuses(Some(self.user().id), self.username())
                &&& final(limiter)@ == old(limiter)@.failed(self.username()@, now)
            },
    {
        if !ok {
            limiter.record_failure_at(self.username.as_str(), now);
            return Err(refusal(Some(self.row.id), &self.username));
        }
        limiter.reset(self.username.as_str());
        Ok(Verified { row: self.row })
    }
}

/// The role that a user acts in: the first one, or `user` where there is none.
pub open spec fn role_of(roles: Seq<String>) -> Seq<char> {
    if roles.len() > 0 {
        roles[0]@
    } else {
        "user"@
    }
}

impl Granted {
    /// The answer for `user` with the credentials under the given random values.
    pub open spec fn grants_to(
        self,
        user: User,
        session_id: Seq<char>,
        access_token: String,
    ) -> bool {
        &&& self.response.user == user
        &&& self.response.access_token == access_token
        &&& self.response.token_type@ == "Bearer"@
        &&& self.cookie@ == session_cookie_spec(session_id)
    }
}

/// Logs a user in: opens a session under the given random values.
pub fn log_in(
    sessions: &mut SessionStore,
    user: User,
    session_id: String,
    access_token: String,
    now: i64,
) -> (g: Granted)
    ensures
        g.grants_to(user, session_id@, access_token),
        old(sessions)@.created(final(sessions)@, user, session_id@, access_token@, now),
{
    let issued = sessions.create_at(user.clone(), session_id, access_token, now);
    let cookie = session_cookie(issued.session_id.as_str());
    Granted {
        response: LoginResponse { user, access_token: issued.access_token, token_type: "Bearer" },
        cookie,
    }
}

impl Verified {
    /// The user.
    pub closed spec fn user(self) -> UserRow {
        self.row
    }

    /// The id of the user, whose roles have to be looked up.
    pub fn user_id(&self) -> (id: &str)
        ensures
            id@ == self.user().id@,
    {
        self.row.id.as_str()
    }

    /// Opens a session for the user, in the first of the user's roles.
    pub fn open_session(
        self,
        sessions: &mut SessionStore,
        roles: Vec<String>,
        session_id: String,
        access_token: String,
        now: i64,
    ) -> (g: LoginGrant)
        ensures
            g.granted.response.user.id == self.user().id,
            g.granted.response.user.username == self.user().username,
            g.granted.response.user.email == self.user().email,
            g.granted.response.user.role@ == role_of(roles@),
            g.granted.grants_to(g.granted.response.user, session_id@, access_token),
            g.audit.says(Some(self.user().id), "login"@, "user"@, self.user().id, AuditMeta::Nothing),
            old(sessions)@.created(
                final(sessions)@,
                g.granted.response.user,
                session_id@,
                access_token@,
                now,
            ),
    {
        let role = if roles.len() > 0 {
            roles[0].clone()
        } else {
            "user".to_owned()
        };
        let user = User {
            id: self.row.id,
            username: self.row.username,
            email: self.row.email,
            role,
        };
        let audit = AuditRecord {
            user_id: Some(user.id.clone()),
            action: "login",
            resource_type: "user",
            resource_id: user.id.clone(),
            metadata: AuditMeta::Nothing,
        };
        let granted = log_in(sessions, user, session_id, access_token, now);
        LoginGrant { audit, granted }
    }
}

/// Ends the session with the id `sid`, if there is one. The record is for the user of a session
/// that was live; whether it can be written does not matter. Whatever was there, the answer is
/// the same.
pub fn logout(sessions: &mut SessionStore, sid: Option<&str>, now: i64) -> (audit: Option<
    AuditRecord,
>)
    ensures
        match sid {
            None => audit is None && final(sessions)@ == old(sessions)@,
            Some(id) => {
                &&& final(sessions)@ == old(sessions)@.purge_session(id@, now).revoked(id@)
                &&& match old(sessions)@.user_of(id@, now) {
                    Some(u) => audit matches Some(a) && a.says(
                        Some(u.id),
                        "logout"@,
                        "user"@,
                        u.id,
                        AuditMeta::Nothing,
                    ),
                    None => audit is None,
                }
            },
        },
{
    match sid {
        None => None,
        Some(id) => {
            let user = sessions.user_by_session_at(id, now);
            sessions.revoke(id);
            match user {
                None => None,
                Some(u) => Some(
                    AuditRecord {
                        user_id: Some(u.id.clone()),
                        action: "logout",
                        resource_type: "user",
                        resource_id: u.id,
                        metadata: AuditMeta::Nothing,
                    },
                ),
            }
        },
    }
}

/// A new access token, under the random value `access_token`, for the session in the cookie.
pub fn refresh(sessions: &mut SessionStore, sid: Option<&str>, access_token: String, now: i64) -> (r:
    Result<RefreshResponse, ApiError>)
    ensures
        match sid {
            None => final(sessions)@ == old(sessions)@ && (r matches Err(e) && e@
                == api::unauthorized_spec("not authenticated"@)),
            Some(id) => {
                &&& old(sessions)@.refreshed(final(sessions)@, id@, access_token@, now)
                &&& match r {
                    Ok(a) => old(sessions)@.live(id@, now) && a.access_token == access_token
                        && a.token_type@ == "Bearer"@,
                    Err(e) => !old(sessions)@.live(id@, now) && e@ == api::unauthorized_spec(
                        "session expired"@,
                    ),
                }
            },
        },
{
    match sid {
        None => Err(ApiError::unauthorized("not authenticated")),
        Some(id) => match sessions.refresh_at(id, access_token, now) {
            Some(access_token) => Ok(RefreshResponse { access_token, token_type: "Bearer" }),
            None => Err(ApiError::unauthorized("session expired")),
        },
    }
}

/// The user that a bearer token or, failing that, a session cookie stands for.
pub open spec fn caller(
    s: session::StoreState,
    bearer: Option<Seq<char>>,
    sid: Option<Seq<char>>,
    now: i64,
) -> Option<User> {
    if bearer is Some && s.user_of_token(bearer->0, now) is Some {
        s.user_of_token(bearer->0, now)
    } else if sid is Some {
        s.user_of(sid->0, now)
    } else {
        None
    }
}

/// The text that an optional text holds.
pub open spec fn str_view(o: Option<&str>) -> Option<Seq<char>> {
    match o {
        Some(s) => Some(s@),
        None => None,
    }
}

/// The user who makes a request with the given bearer token and session cookie. The token comes
/// first; where it stands for nobody, the cookie decides.
pub fn current_user(
    sessions: &mut SessionStore,
    bearer: Option<&str>,
    sid: Option<&str>,
    now: i64,
) -> (r: Option<User>)
    ensures
        r == caller(old(sessions)@, str_view(bearer), str_view(sid), now),
        forall|id: Seq<char>, later: i64|
            now <= later ==> final(sessions)@.user_of(id, later) == #[trigger] old(
                sessions,
            )@.user_of(id, later) && final(sessions)@.user_of_token(id, later) == old(
                sessions,
            )@.user_of_token(id, later),
{
    if let Some(token) = bearer {
        if let Some(user) = sessions.user_by_access_token_at(token, now) {
            return Some(user);
        }
    }
    match sid {
        Some(id) => sessions.user_by_session_at(id, now),
        None => None,
    }
}

/// The user who makes a request, or the error for one who is nobody.
pub fn require_user(
    sessions: &mut SessionStore,
    bearer: Option<&str>,
    sid: Option<&str>,
    now: i64,
) -> (r: Result<CurrentUser, ApiError>)
    ensures
        match r {
            Ok(u) => caller(old(sessions)@, str_view(bearer), str_view(sid), now) == Some(u.0),
            Err(e) => caller(old(sessions)@, str_view(bearer), str_view(sid), now) is None && e@
                == api::unauthorized_spec("not authenticated"@),
        },
        forall|id: Seq<char>, later: i64|
            now <= later ==> final(sessions)@.user_of(id, later) == #[trigger] old(
                sessions,
            )@.user_of(id, later) && final(sessions)@.user_of_token(id, later) == old(
                sessions,
            )@.user_of_token(id, later),
{
    match current_user(sessions, bearer, sid, now) {
        Some(user) => Ok(CurrentUser(user)),
        None => Err(ApiError::unauthorized("not authenticated")),
    }
}

/// The cookie that carries a session id, for as long as a session lasts.
pub open spec fn session_cookie_spec(session_id: Seq<char>) -> Seq<char> {
    "sid="@ + session_id + "; HttpOnly; Secure; SameSite=Strict; Path=/; Max-Age="@
        + text::decimal_spec(SESSION_TTL_SECS as nat)
}

/// The cookie that carries a session id.
pub fn session_cookie(session_id: &str) -> (s: String)
    ensures
        s@ == session_cookie_spec(session_id@),
{
    let mut s = concat("sid=", session_id);
    push_str(&mut s, "; HttpOnly; Secure; SameSite=Strict; Path=/; Max-Age=");
    push_str(&mut s, decimal(SESSION_TTL_SECS as u64).as_str());
    s
}

/// The cookie that makes a browser forget the session id.
pub fn clear_cookie() -> (s: &'static str)
    ensures
        s@ == "sid=; HttpOnly; Secure; SameSite=Strict; Path=/; Max-Age=0"@,
{
    "sid=; HttpOnly; Secure; SameSite=Strict; Path=/; Max-Age=0"
}

/// The value of a cookie `name=value`, if `part` is one of that name.
pub open spec fn cookie_part(part: Seq<char>, name: Seq<char>) -> Option<Seq<char>> {
    let p = text::trimmed(part);
    if p.len() > name.len() && p.subrange(0, name.len() as int) == name && p[name.len() as int]
        == '=' && !name.contains('=') {
        Some(p.subrange(name.len() as int + 1, p.len() as int))
    } else {
        None
    }
}

/// The value of the first cookie of the given name among `parts`.
pub open spec fn first_cookie(parts: Seq<Seq<char>>, name: Seq<char>) -> Option<Seq<char>>
    decreases parts.len(),
{
    if parts.len() == 0 {
        None
    } else if cookie_part(parts[0], name) is Some {
        cookie_part(parts[0], name)
    } else {
        first_cookie(parts.subrange(1, parts.len() as int), name)
    }
}

fn read_cookie(part: &Vec<char>, name: &Vec<char>) -> (r: Option<String>)
    ensures
        text::opt_view(r) == cookie_part(part@, name@),
{
    let whole = string_of(part, 0, part.len());
    assert(part@.subrange(0, part@.len() as int) =~= part@);
    let p = chars_of(trim(whole.as_str()).as_str());
    if p.len() <= name.len() {
        return None;
    }
    let mut i: usize = 0;
    while i < name.len()
        invariant
            i <= name@.len() < p@.len(),
            p@ == text::trimmed(part@),
            p@.subrange(0, i as int) == name@.subrange(0, i as int),
            forall|k: int| 0 <= k < i ==> name@[k] != '=',
        decreases name@.len() - i,
    {
        if p[i] != name[i] || name[i] == '=' {
            proof {
                if p@[i as int] != name@[i as int] {
                    assert(p@.subrange(0, name@.len() as int)[i as int] != name@[i as int]);
                } else {
                    assert(name@.contains('='));
                }
            }
            return None;
        }
        assert(p@.subrange(0, i + 1) =~= p@.subrange(0, i as int).push(p@[i as int]));
        assert(name@.subrange(0, i + 1) =~= name@.subrange(0, i as int).push(name@[i as int]));
        i += 1;
    }
    assert(name@.subrange(0, i as int) =~= name@);
    if p[i] != '=' {
        return None;
    }
    Some(string_of(&p, i + 1, p.len()))
}

/// The value of the first cookie of the given name in a `Cookie` header.
pub fn cookie_value(header: Option<&str>, name: &str) -> (r: Option<String>)
    ensures
        text::opt_view(r) == (match header {
            Some(h) => first_cookie(text::split_spec(h@, ';'), name@),
            None => None,
        }),
{
    let h = match header {
        Some(h) => h,
        None => {
            return None;
        },
    };
    let wanted = chars_of(name);
    let parts = text::split(chars_of(h).as_slice(), ';');
    let ghost all = text::split_spec(h@, ';');
    let mut i: usize = 0;
    assert(all.subrange(0, all.len() as int) =~= all);
    while i < parts.len()
        invariant
            i <= parts@.len(),
            text::views(parts@) == all,
            wanted@ == name@,
            header == Some(h),
            all == text::split_spec(h@, ';'),
            first_cookie(all, name@) == first_cookie(
                all.subrange(i as int, all.len() as int),
                name@,
            ),
        decreases parts@.len() - i,
    {
        let ghost rest = all.subrange(i as int, all.len() as int);
        assert(rest[0] == parts@[i as int]@);
        assert(rest.subrange(1, rest.len() as int) =~= all.subrange(i + 1, all.len() as int));
        match read_cookie(&parts[i], &wanted) {
            Some(v) => {
                return Some(v);
            },
            None => {},
        }
        i += 1;
    }
    None
}

/// The token in an `Authorization` header: what stands behind `Bearer `, trimmed.
pub open spec fn bearer_of(h: Seq<char>) -> Option<Seq<char>> {
    if h.len() >= 7 && h.subrange(0, 7) == "Bearer "@ {
        Some(text::trimmed(h.subrange(7, h.len() as int)))
    } else {
        None
    }
}

/// The token in an `Authorization` header.
pub fn bearer_token(header: Option<&str>) -> (r: Option<String>)
    ensures
        text::opt_view(r) == (match header {
            Some(h) => bearer_of(h@),
            None => None,
        }),
{
    let v = match header {
        Some(h) => chars_of(h),
        None => {
            return None;
        },
    };
    if v.len() < 7 || !str_eq(string_of(&v, 0, 7).as_str(), "Bearer ") {
        return None;
    }
    Some(trim(string_of(&v, 7, v.len()).as_str()))
}

proof fn one_part(s: Seq<char>, sep: char)
    requires
        !s.contains(sep),
    ensures
        text::split_spec(s, sep) == seq![s],
    decreases s.len(),
{
    if s.len() > 0 {
        assert forall|i: int| 0 <= i < s.len() - 1 implies s.drop_last()[i] != sep by {
            assert(s.contains(s[i]));
        }
        assert(s.contains(s.last()));
        one_part(s.drop_last(), sep);
        assert(seq![s.drop_last()].drop_last() =~= Seq::<Seq<char>>::empty());
        assert(s.drop_last().push(s.last()) =~= s);
        assert(text::split_spec(s, sep) =~= seq![s]);
    } else {
        assert(s =~= Seq::<char>::empty());
    }
}

/// A session id that a browser sends back in its cookie is read as it was handed out, if it
/// holds neither `;` nor white space.
pub proof fn session_cookie_reads_back(id: Seq<char>)
    requires
        forall|i: int|
            0 <= i < id.len() ==> id[i] != ';' && !text::is_white_space(#[trigger] id[i]),
    ensures
        first_cookie(text::split_spec("sid="@ + id, ';'), SESSION_COOKIE@) == Some(id),
{
    reveal_strlit("sid=");
    reveal_strlit("sid");
    let s = "sid="@ + id;
    assert(s[0] == 's' && s[1] == 'i' && s[2] == 'd' && s[3] == '=');
    assert forall|i: int| 0 <= i < s.len() implies s[i] != ';' by {
        if i >= 4 {
            assert(s[i] == id[i - 4]);
        }
    }
    one_part(s, ';');
    if id.len() > 0 {
        assert(s.last() == id.last());
        assert(!text::is_white_space(id[id.len() - 1]));
    }
    text::no_edges_is_trimmed(s);
    assert(s.subrange(0, 3) =~= "sid"@);
    assert(s.subrange(4, s.len() as int) =~= id);
    assert(!"sid"@.contains('='));
    assert(seq![s][0] == s);
}

/// A bearer token that stands for a user decides who makes a request; otherwise a session cookie
/// does; with neither nobody does.
pub proof fn who_makes_a_request(
    s: session::StoreState,
    bearer: Option<Seq<char>>,
    sid: Option<Seq<char>>,
    now: i64,
)
    ensures
        bearer matches Some(t) ==> (s.user_of_token(t, now) is Some ==> caller(s, bearer, sid, now)
            == s.user_of_token(t, now)),
        (bearer is None || s.user_of_token(bearer->0, now) is None) && sid is Some ==> caller(
            s,
            bearer,
            sid,
            now,
        ) == s.user_of(sid->0, now),
        (bearer is None || s.user_of_token(bearer->0, now) is None) && sid is None ==> caller(
            s,
            bearer,
            sid,
            now,
        ) is None,
{
}

/// A bearer token is what stands behind the word `Bearer` and a space, without white space around
/// it; a header that starts otherwise holds none.
pub proof fn bearer_token_stands_behind_its_word(token: Seq<char>, h: Seq<char>)
    ensures
        bearer_of("Bearer "@ + token) == Some(text::trimmed(token)),
        !(h.len() >= 7 && h[0] == 'B' && h[1] == 'e' && h[2] == 'a' && h[3] == 'r' && h[4] == 'e'
            && h[5] == 'r' && h[6] == ' ') ==> bearer_of(h) is None,
{
    reveal_strlit("Bearer ");
    let s = "Bearer "@ + token;
    assert(s.subrange(0, 7) =~= "Bearer "@);
    assert(s.subrange(7, s.len() as int) =~= token);
    if bearer_of(h) is Some {
        let w = h.subrange(0, 7);
        assert(w[0] == h[0] && w[1] == h[1] && w[2] == h[2] && w[3] == h[3] && w[4] == h[4] && w[5]
            == h[5] && w[6] == h[6]);
    }
}

/// A part of a cookie header gives the value of a cookie exactly where it is, but for white space
/// around it, the name, an equals sign and the value.
pub proof fn cookie_stands_behind_its_name(part: Seq<char>, name: Seq<char>, value: Seq<char>)
    requires
        !name.contains('='),
    ensures
        cookie_part(part, name) == Some(value) <==> text::trimmed(part) == name + seq!['='] + value,
{
    let p = text::trimmed(part);
    let s = name + seq!['='] + value;
    assert(s.subrange(0, name.len() as int) =~= name);
    assert(s.subrange(name.len() as int + 1, s.len() as int) =~= value);
    if cookie_part(part, name) == Some(value) {
        assert(p =~= p.subrange(0, name.len() as int) + seq!['='] + p.subrange(
            name.len() as int + 1,
            p.len() as int,
        ));
    }
}

/// Of several cookies of a name the first counts.
pub proof fn first_cookie_counts(parts: Seq<Seq<char>>, name: Seq<char>, i: int)
    requires
        0 <= i <= parts.len(),
        forall|j: int| 0 <= j < i ==> cookie_part(#[trigger] parts[j], name) is None,
    ensures
        i < parts.len() && cookie_part(parts[i], name) is Some ==> first_cookie(parts, name)
            == cookie_part(parts[i], name),
        i == parts.len() ==> first_cookie(parts, name) is None,
    decreases i,
{
    if i > 0 {
        assert(cookie_part(parts[0], name) is None);
        let rest = parts.subrange(1, parts.len() as int);
        assert forall|j: int| 0 <= j < i - 1 implies cookie_part(#[trigger] rest[j], name) is None by {
            assert(rest[j] == parts[j + 1]);
        }
        if i < parts.len() {
            assert(rest[i - 1] == parts[i]);
        }
        first_cookie_counts(rest, name, i - 1);
    }
}

/// The session cookie carries the session id under the name by which it is read again, cannot be
/// read by scripts, is sent over TLS and to this site only, and lasts seven days.
pub proof fn session_cookie_is_guarded(id: Seq<char>)
    ensures
        session_cookie_spec(id) == SESSION_COOKIE@ + "="@ + id
            + "; HttpOnly; Secure; SameSite=Strict; Path=/; Max-Age=604800"@,
{
    reveal_strlit("sid");
    reveal_strlit("=");
    reveal_strlit("sid=");
    reveal_strlit("; HttpOnly; Secure; SameSite=Strict; Path=/; Max-Age=");
    reveal_strlit("; HttpOnly; Secure; SameSite=Strict; Path=/; Max-Age=604800");
    reveal_with_fuel(text::decimal_spec, 7);
    assert(text::decimal_spec(604800) =~= seq!['6', '0', '4', '8', '0', '0']);
    assert(session_cookie_spec(id) =~= SESSION_COOKIE@ + "="@ + id
        + "; HttpOnly; Secure; SameSite=Strict; Path=/; Max-Age=604800"@);
}

/// A login that is refused for wrong credentials is answered the same whoever the user is, and
/// goes on record under the user, where there is one, or else under the name that was given.
pub proof fn refusals_do_not_tell_users_apart(
    a: Refusal,
    b: Refusal,
    id: String,
    name: String,
    other: String,
)
    requires
        a.refuses(Some(id), name),
        b.refuses(None, other),
    ensures
        a.error@ == b.error@,
        a.error@.status == 401,
        a.audit.user_id == Some(id),
        a.audit.resource_id == id,
        b.audit.user_id is None,
        b.audit.resource_id == other,
        a.audit.action@ == "login.failed"@,
        b.audit.action@ == "login.failed"@,
        a.audit.metadata == (AuditMeta::Username { username: name }),
        b.audit.metadata == (AuditMeta::Username { username: other }),
{
}

/// A locked user name is answered with 429.
pub proof fn locked_login_is_too_many_requests()
    ensures
        login_locked().status == 429,
        login_locked().code == "LOGIN_LOCKED"@,
        login_locked().message == "too many failed login attempts; try again later"@,
        invalid_login().status == 401,
        invalid_login().code == "UNAUTHORIZED"@,
        invalid_login().message == "invalid username or password"@,
{
}

/// A user acts in the first of the roles that were assigned, and in the role `user`, which allows
/// nothing, where there is none.
pub proof fn first_role_counts(roles: Seq<String>)
    ensures
        roles.len() > 0 ==> role_of(roles) == roles[0]@,
        roles.len() == 0 ==> role_of(roles) == "user"@,
{
}

/// Who is logged in is told who they are, gets the access token and the cookie of the session that
/// was opened for them, and is found by both.
pub proof fn granted_login_is_usable(
    before: session::StoreState,
    after: session::StoreState,
    g: Granted,
    user: User,
    session_id: Seq<char>,
    access_token: String,
    now: i64,
)
    requires
        g.grants_to(user, session_id, access_token),
        before.created(after, user, session_id, access_token@, now),
        0 <= now <= 0x7fff_ffff_0000_0000,
    ensures
        g.response.user == user,
        g.response.token_type@ == "Bearer"@,
        g.cookie@ == session_cookie_spec(session_id),
        after.user_of(session_id, now) == Some(user),
        after.user_of_token(g.response.access_token@, now) == Some(user),
{
}

} // verus!
