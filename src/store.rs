use vstd::prelude::*;
use crate::user::{GoogleClaims, User, UserView, ANONYMOUS_USER_ID, opt_str_view};

verus! {

/// One authenticated client session: the hash of its bearer token, the user it belongs to, and
/// when it was last used (ISO-8601).
#[derive(Clone, Debug)]
pub struct Session {
    pub key: String,
    pub user_id: u64,
    pub last_access: String,
}

pub struct SessionView {
    pub key: Seq<char>,
    pub user_id: u64,
    pub last_access: Seq<char>,
}

impl View for Session {
    type V = SessionView;

    open spec fn view(&self) -> SessionView {
        SessionView { key: self.key@, user_id: self.user_id, last_access: self.last_access@ }
    }
}

/// Failure of a store write.
#[derive(Clone, Copy, Debug, PartialEq, Eq, Structural)]
pub enum StoreError {
    /// Every user key has been handed out.
    KeySpaceExhausted,
    /// A session with this key is already stored.
    DuplicateSession,
    /// The session would point at a user that is not stored.
    UnknownUser,
}

/// Why a session token does not authenticate anybody. Unknown, expired and revoked sessions all
/// look the same from outside.
#[derive(Clone, Copy, Debug, PartialEq, Eq, Structural)]
pub enum AuthError {
    NoSuchSession,
}

/// The users and the sessions that point at them.
pub struct Store {
    users: Vec<User>,
    sessions: Vec<Session>,
    next_user_id: u64,
}

pub struct StoreView {
    pub users: Seq<UserView>,
    pub sessions: Seq<SessionView>,
    pub next_user_id: u64,
}

// ----- the queries, over views -----

/// Whether a stored user carries the external subject claim `sub` and may be found by it.
pub open spec fn matches_subject(u: UserView, sub: Seq<char>) -> bool {
    u.id != ANONYMOUS_USER_ID && u.google is Some && u.google->Some_0.sub == sub
}

/// The first stored user (in storage order) that claims lookup finds for `sub`.
pub open spec fn first_with_subject(users: Seq<UserView>, sub: Seq<char>) -> Option<UserView>
    decreases users.len(),
{
    if users.len() == 0 {
        None
    } else if matches_subject(users[0], sub) {
        Some(users[0])
    } else {
        first_with_subject(users.drop_first(), sub)
    }
}

/// The stored users other than the anonymous one, in storage order.
pub open spec fn real_users(users: Seq<UserView>) -> Seq<UserView>
    decreases users.len(),
{
    if users.len() == 0 {
        Seq::empty()
    } else if users.last().id == ANONYMOUS_USER_ID {
        real_users(users.drop_last())
    } else {
        real_users(users.drop_last()).push(users.last())
    }
}

/// Position of the user stored under key `id`.
pub open spec fn user_index(users: Seq<UserView>, id: u64) -> Option<int> {
    if exists|i: int| 0 <= i < users.len() && users[i].id == id {
        Some(choose|i: int| 0 <= i < users.len() && users[i].id == id)
    } else {
        None
    }
}

/// The user stored under key `id`.
pub open spec fn user_with_id(users: Seq<UserView>, id: u64) -> Option<UserView> {
    match user_index(users, id) {
        Some(i) => Some(users[i]),
        None => None,
    }
}

/// No two sessions are stored under one key.
pub open spec fn unique_session_keys(sessions: Seq<SessionView>) -> bool {
    forall|i: int, j: int|
        0 <= i < sessions.len() && 0 <= j < sessions.len() && #[trigger] sessions[i].key
            == #[trigger] sessions[j].key ==> i == j
}

/// Position of the session stored under `key`.
pub open spec fn session_index(sessions: Seq<SessionView>, key: Seq<char>) -> Option<int> {
    if exists|i: int| 0 <= i < sessions.len() && sessions[i].key == key {
        Some(choose|i: int| 0 <= i < sessions.len() && sessions[i].key == key)
    } else {
        None
    }
}

/// The user that the session stored under `key` leads to, if both exist.
pub open spec fn session_user(s: StoreView, key: Seq<char>) -> Option<UserView> {
    match session_index(s.sessions, key) {
        Some(i) => user_with_id(s.users, s.sessions[i].user_id),
        None => None,
    }
}

/// The store after resolving `key` at time `now`: the session's last access is set to `now` when
/// the session leads to a user, and nothing changes otherwise.
pub open spec fn refreshed(s: StoreView, key: Seq<char>, now: Seq<char>) -> StoreView {
    if session_user(s, key) is Some {
        let i = session_index(s.sessions, key)->Some_0;
        StoreView {
            sessions: s.sessions.update(
                i,
                SessionView { last_access: now, ..s.sessions[i] },
            ),
            ..s
        }
    } else {
        s
    }
}

/// The user that provisioning from `claims` stores under key `id`.
pub open spec fn provisioned(claims: crate::user::GoogleClaimsView, id: u64) -> UserView {
    UserView { id, google: Some(claims), is_active: false, is_admin: false, name: claims.name }
}

/// The store after resolving `key` once at each of `times`, in order.
pub open spec fn refreshed_all(s: StoreView, key: Seq<char>, times: Seq<Seq<char>>) -> StoreView
    decreases times.len(),
{
    if times.len() == 0 {
        s
    } else {
        refreshed(refreshed_all(s, key, times.drop_last()), key, times.last())
    }
}

proof fn lemma_refresh_step(s: StoreView, key: Seq<char>, now: Seq<char>, i: int)
    requires
        unique_session_keys(s.sessions),
        session_index(s.sessions, key) == Some(i),
        session_user(s, key) is Some,
    ensures
        unique_session_keys(refreshed(s, key, now).sessions),
        session_index(refreshed(s, key, now).sessions, key) == Some(i),
        session_user(refreshed(s, key, now), key) == session_user(s, key),
        refreshed(s, key, now).users == s.users,
        refreshed(s, key, now).sessions[i].last_access == now,
        refreshed(s, key, now).sessions.len() == s.sessions.len(),
{
    let t = refreshed(s, key, now);
    assert(t.sessions[i].key == key);
    assert(forall|a: int| 0 <= a < t.sessions.len() ==> #[trigger] t.sessions[a].key == s.sessions[a].key);
    assert forall|a: int, b: int|
        0 <= a < t.sessions.len() && 0 <= b < t.sessions.len() && #[trigger] t.sessions[a].key
            == #[trigger] t.sessions[b].key implies a == b by {
        assert(s.sessions[a].key == s.sessions[b].key);
    }
    assert(exists|a: int| 0 <= a < t.sessions.len() && t.sessions[a].key == key);
    let k = choose|a: int| 0 <= a < t.sessions.len() && t.sessions[a].key == key;
    assert(k == i);
}

proof fn lemma_refreshed_all(s: StoreView, key: Seq<char>, times: Seq<Seq<char>>, i: int)
    requires
        unique_session_keys(s.sessions),
        session_index(s.sessions, key) == Some(i),
        session_user(s, key) is Some,
    ensures
        unique_session_keys(refreshed_all(s, key, times).sessions),
        session_index(refreshed_all(s, key, times).sessions, key) == Some(i),
        session_user(refreshed_all(s, key, times), key) == session_user(s, key),
        refreshed_all(s, key, times).users == s.users,
        refreshed_all(s, key, times).sessions.len() == s.sessions.len(),
        times.len() > 0 ==> refreshed_all(s, key, times).sessions[i].last_access == times.last(),
    decreases times.len(),
{
    if times.len() > 0 {
        lemma_refreshed_all(s, key, times.drop_last(), i);
        lemma_refresh_step(refreshed_all(s, key, times.drop_last()), key, times.last(), i);
    }
}

/// Resolving one valid session several times in a row, at times `times`: every resolution
/// finds the session's user, the users are left as they were, and the session's last access is
/// the time of the last resolution.
pub proof fn lemma_repeated_resolution(s: Store, key: Seq<char>, times: Seq<Seq<char>>)
    requires
        s.wf(),
        session_user(s.view(), key) is Some,
        times.len() > 0,
    ensures
        forall|k: int|
            0 <= k < times.len() ==> session_user(
                #[trigger] refreshed_all(s.view(), key, times.subrange(0, k)),
                key,
            ) == session_user(s.view(), key),
        refreshed_all(s.view(), key, times).users == s.view().users,
        refreshed_all(s.view(), key, times).sessions[session_index(
            s.view().sessions,
            key,
        )->Some_0].last_access == times.last(),
{
    let i = session_index(s.view().sessions, key)->Some_0;
    assert forall|k: int| 0 <= k < times.len() implies session_user(
        #[trigger] refreshed_all(s.view(), key, times.subrange(0, k)),
        key,
    ) == session_user(s.view(), key) by {
        lemma_refreshed_all(s.view(), key, times.subrange(0, k), i);
    }
    lemma_refreshed_all(s.view(), key, times, i);
}

/// Lookup by external claims never finds the anonymous user.
pub proof fn lemma_claims_lookup_never_anonymous(users: Seq<UserView>, sub: Seq<char>)
    ensures
        match first_with_subject(users, sub) {
            Some(u) => u.id != ANONYMOUS_USER_ID,
            None => true,
        },
    decreases users.len(),
{
    if users.len() > 0 && !matches_subject(users[0], sub) {
        lemma_claims_lookup_never_anonymous(users.drop_first(), sub);
    }
}

/// The listing of all users holds exactly the stored users other than the anonymous one,
/// whatever their flags.
pub proof fn lemma_listing_excludes_only_anonymous(users: Seq<UserView>)
    ensures
        forall|u: UserView|
            #[trigger] real_users(users).contains(u) <==> (users.contains(u) && u.id
                != ANONYMOUS_USER_ID),
    decreases users.len(),
{
    if users.len() > 0 {
        let init = users.drop_last();
        lemma_listing_excludes_only_anonymous(init);
        assert(users =~= init.push(users.last()));
        assert forall|u: UserView| #[trigger] real_users(users).contains(u) <==> (users.contains(u)
            && u.id != ANONYMOUS_USER_ID) by {
            if users.contains(u) {
                let k = choose|k: int| 0 <= k < users.len() && users[k] == u;
                if k < init.len() {
                    assert(init[k] == u);
                }
            }
            if init.contains(u) {
                let k = choose|k: int| 0 <= k < init.len() && init[k] == u;
                assert(users[k] == u);
            }
            if users.last().id != ANONYMOUS_USER_ID {
                let r = real_users(init);
                assert(r.push(users.last())[r.len() as int] == users.last());
                if r.push(users.last()).contains(u) {
                    let k = choose|k: int| 0 <= k < r.len() + 1 && r.push(users.last())[k] == u;
                    if k < r.len() {
                        assert(r[k] == u);
                    }
                }
                if r.contains(u) {
                    let k = choose|k: int| 0 <= k < r.len() && r[k] == u;
                    assert(r.push(users.last())[k] == u);
                }
            }
        }
    }
}

proof fn lemma_lookup_after_push(users: Seq<UserView>, sub: Seq<char>, x: UserView)
    ensures
        first_with_subject(users, sub) is Some ==> first_with_subject(users.push(x), sub)
            == first_with_subject(users, sub),
        first_with_subject(users, sub) is None ==> first_with_subject(users.push(x), sub) == (
        if matches_subject(x, sub) {
            Some(x)
        } else {
            None
        }),
    decreases users.len(),
{
    if users.len() == 0 {
        assert(users.push(x).drop_first() =~= Seq::<UserView>::empty());
    } else {
        assert(users.push(x).drop_first() =~= users.drop_first().push(x));
        lemma_lookup_after_push(users.drop_first(), sub, x);
    }
}

/// Provisioning from claims stores an inactive user, which lookup by the same subject then finds
/// when no other user had that subject; a user that lookup found before (active or not) is still
/// the one found after any provisioning.
pub proof fn lemma_provisioning_keeps_existing_users(
    users: Seq<UserView>,
    claims: crate::user::GoogleClaimsView,
    id: u64,
    sub: Seq<char>,
)
    ensures
        !provisioned(claims, id).is_active,
        first_with_subject(users, sub) is Some ==> first_with_subject(
            users.push(provisioned(claims, id)),
            sub,
        ) == first_with_subject(users, sub),
        first_with_subject(users, claims.sub) is None && id != ANONYMOUS_USER_ID
            ==> first_with_subject(users.push(provisioned(claims, id)), claims.sub) == Some(
            provisioned(claims, id),
        ),
{
    lemma_lookup_after_push(users, sub, provisioned(claims, id));
    lemma_lookup_after_push(users, claims.sub, provisioned(claims, id));
}

impl Store {
    pub closed spec fn view(&self) -> StoreView {
        StoreView {
            users: self.users@.map_values(|u: User| u@),
            sessions: self.sessions@.map_values(|x: Session| x@),
            next_user_id: self.next_user_id,
        }
    }

    /// Keys of users and sessions are unique, and every user key is below the next one to be
    /// handed out.
    pub open spec fn wf(&self) -> bool {
        let v = self.view();
        &&& forall|i: int| 0 <= i < v.users.len() ==> #[trigger] v.users[i].id < v.next_user_id
        &&& forall|i: int, j: int|
            0 <= i < v.users.len() && 0 <= j < v.users.len() && #[trigger] v.users[i].id
                == #[trigger] v.users[j].id ==> i == j
        &&& unique_session_keys(v.sessions)
        &&& ANONYMOUS_USER_ID < v.next_user_id
    }

    /// A store holding only the anonymous user.
    pub fn new() -> (r: Store)
        ensures
            r.wf(),
            r.view().users.len() == 1,
            r.view().users[0] == (UserView {
                id: ANONYMOUS_USER_ID,
                google: None,
                is_active: false,
                is_admin: false,
                name: None,
            }),
            r.view().sessions.len() == 0,
    {
        let anonymous = User {
            id: ANONYMOUS_USER_ID,
            google: None,
            is_active: false,
            is_admin: false,
            name: None,
        };
        let r = Store { users: vec![anonymous], sessions: Vec::new(), next_user_id: 2 };
        assert(r.view().users =~= seq![anonymous@]);
        r
    }

    fn position_of_user(&self, id: u64) -> (r: Option<usize>)
        requires
            self.wf(),
        ensures
            match r {
                Some(i) => user_index(self.view().users, id) == Some(i as int)
                    && i < self.users.len(),
                None => user_index(self.view().users, id) is None,
            },
    {
        let ghost users = self.view().users;
        let mut i: usize = 0;
        while i < self.users.len()
            invariant
                self.wf(),
                users == self.view().users,
                i <= self.users.len(),
                forall|j: int| 0 <= j < i ==> users[j].id != id,
            decreases self.users.len() - i,
        {
            if self.users[i].id == id {
                assert(users[i as int].id == id);
                assert(exists|k: int| 0 <= k < users.len() && users[k].id == id);
                let ghost k = choose|k: int| 0 <= k < users.len() && users[k].id == id;
                assert(users.len() == self.users.len());
                assert(k == i);
                return Some(i);
            }
            i = i + 1;
        }
        None
    }

    fn position_of_session(&self, key: &String) -> (r: Option<usize>)
        requires
            self.wf(),
        ensures
            match r {
                Some(i) => session_index(self.view().sessions, key@) == Some(i as int)
                    && i < self.sessions.len(),
                None => session_index(self.view().sessions, key@) is None,
            },
    {
        let ghost sessions = self.view().sessions;
        let mut i: usize = 0;
        while i < self.sessions.len()
            invariant
                self.wf(),
                sessions == self.view().sessions,
                i <= self.sessions.len(),
                forall|j: int| 0 <= j < i ==> sessions[j].key != key@,
            decreases self.sessions.len() - i,
        {
            if self.sessions[i].key == *key {
                assert(sessions[i as int].key == key@);
                assert(exists|k: int| 0 <= k < sessions.len() && sessions[k].key == key@);
                let ghost k = choose|k: int| 0 <= k < sessions.len() && sessions[k].key == key@;
                assert(sessions.len() == self.sessions.len());
                assert(k == i);
                return Some(i);
            }
            i = i + 1;
        }
        None
    }

    /// When the session stored under `key` was last used.
    pub fn last_access_of(&self, key: &str) -> (r: Option<String>)
        requires
            self.wf(),
        ensures
            match session_index(self.view().sessions, key@) {
                Some(i) => r is Some && r->Some_0@ == self.view().sessions[i].last_access,
                None => r is None,
            },
    {
        match self.position_of_session(&String::from_str(key)) {
            Some(i) => Some(self.sessions[i].last_access.clone()),
            None => None,
        }
    }

    /// The administrative change of a user's flags; `false` when no user has key `id`.
    pub fn set_user_status(&mut self, id: u64, is_active: bool, is_admin: bool) -> (r: bool)
        requires
            old(self).wf(),
        ensures
            final(self).wf(),
            r == (user_index(old(self).view().users, id) is Some),
            match user_index(old(self).view().users, id) {
                Some(i) => final(self).view() == (StoreView {
                    users: old(self).view().users.update(
                        i,
                        UserView { is_active, is_admin, ..old(self).view().users[i] },
                    ),
                    ..old(self).view()
                }),
                None => final(self).view() == old(self).view(),
            },
    {
        match self.position_of_user(id) {
            Some(i) => {
                let ghost before = self.view();
                let mut u = self.users[i].duplicate();
                u.is_active = is_active;
                u.is_admin = is_admin;
                let ghost uv = u@;
                self.users.set(i, u);
                assert(self.view().users =~= before.users.update(i as int, uv));
                true
            },
            None => false,
        }
    }

    /// Stores a session under `key` for user `user_id`, last used at `now`.
    pub fn open_session(&mut self, key: String, user_id: u64, now: String) -> (r: Result<
        (),
        StoreError,
    >)
        requires
            old(self).wf(),
        ensures
            final(self).wf(),
            match r {
                Ok(()) => {
                    &&& session_index(old(self).view().sessions, key@) is None
                    &&& user_index(old(self).view().users, user_id) is Some
                    &&& final(self).view() == (StoreView {
                        sessions: old(self).view().sessions.push(
                            SessionView { key: key@, user_id, last_access: now@ },
                        ),
                        ..old(self).view()
                    })
                },
                Err(e) => {
                    &&& final(self).view() == old(self).view()
                    &&& e == StoreError::DuplicateSession <==> session_index(
                        old(self).view().sessions,
                        key@,
                    ) is Some
                    &&& e == StoreError::UnknownUser <==> (session_index(
                        old(self).view().sessions,
                        key@,
                    ) is None && user_index(old(self).view().users, user_id) is None)
                    &&& e != StoreError::KeySpaceExhausted
                },
            },
    {
        if self.position_of_session(&key).is_some() {
            return Err(StoreError::DuplicateSession);
        }
        if self.position_of_user(user_id).is_none() {
            return Err(StoreError::UnknownUser);
        }
        let ghost before = self.view();
        let session = Session { key, user_id, last_access: now };
        let ghost sv = session@;
        self.sessions.push(session);
        assert(self.view().sessions =~= before.sessions.push(sv));
        Ok(())
    }

}

/// All users but the anonymous one, active or not, in storage order.
pub fn list_all_users(store: &Store) -> (r: Vec<User>)
    ensures
        r@.map_values(|u: User| u@) == real_users(store.view().users),
{
    let ghost users = store.view().users;
    let mut r: Vec<User> = Vec::new();
    let mut i: usize = 0;
    while i < store.users.len()
        invariant
            users == store.view().users,
            i <= store.users.len(),
            r@.map_values(|u: User| u@) == real_users(users.subrange(0, i as int)),
        decreases store.users.len() - i,
    {
        let ghost before = r@;
        assert(users.subrange(0, i + 1).drop_last() =~= users.subrange(0, i as int));
        if store.users[i].id != ANONYMOUS_USER_ID {
            let u = store.users[i].duplicate();
            r.push(u);
            assert(r@.map_values(|u: User| u@) =~= before.map_values(|u: User| u@).push(
                users[i as int],
            ));
        }
        i = i + 1;
    }
    assert(users.subrange(0, store.users.len() as int) =~= users);
    r
}

/// The user whose stored subject claim equals `subject` exactly, the anonymous user excepted;
/// `None` when there is none.
pub fn find_user_by_google_claims(store: &Store, subject: &str) -> (r: Option<User>)
    ensures
        match r {
            Some(u) => first_with_subject(store.view().users, subject@) == Some(u@),
            None => first_with_subject(store.view().users, subject@) is None,
        },
{
    let ghost users = store.view().users;
    let sub = String::from_str(subject);
    let mut i: usize = 0;
    assert(users.subrange(0, users.len() as int) =~= users);
    while i < store.users.len()
        invariant
            users == store.view().users,
            i <= store.users.len(),
            sub@ == subject@,
            first_with_subject(users, subject@) == first_with_subject(
                users.subrange(i as int, users.len() as int),
                subject@,
            ),
        decreases store.users.len() - i,
    {
        let ghost rest = users.subrange(i as int, users.len() as int);
        assert(rest.drop_first() =~= users.subrange(i + 1, users.len() as int));
        assert(rest[0] == users[i as int]);
        let u = &store.users[i];
        if u.id != ANONYMOUS_USER_ID {
            match &u.google {
                Some(c) => {
                    if c.sub == sub {
                        return Some(u.duplicate());
                    }
                },
                None => {},
            }
        }
        i = i + 1;
    }
    assert(users.subrange(i as int, users.len() as int).len() == 0);
    None
}

/// Stores a new user from external claims: inactive, without admin rights, under the next
/// free key. Fails only when every key has been handed out.
pub fn create_inactive_user_by_google_claims(store: &mut Store, claims: &GoogleClaims) -> (r: Result<
    User,
    StoreError,
>)
    requires
        old(store).wf(),
    ensures
        final(store).wf(),
        match r {
            Ok(u) => {
                &&& old(store).view().next_user_id < u64::MAX
                &&& u@ == provisioned(claims@, old(store).view().next_user_id)
                &&& final(store).view().users == old(store).view().users.push(u@)
                &&& final(store).view().sessions == old(store).view().sessions
                &&& final(store).view().next_user_id == old(store).view().next_user_id + 1
            },
            Err(e) => {
                &&& e == StoreError::KeySpaceExhausted
                &&& old(store).view().next_user_id == u64::MAX
                &&& final(store).view() == old(store).view()
            },
        },
{
    if store.next_user_id == u64::MAX {
        return Err(StoreError::KeySpaceExhausted);
    }
    let ghost old_users = store.users@;
    let ghost before = store.view();
    let user = User {
        id: store.next_user_id,
        google: Some(claims.duplicate()),
        is_active: false,
        is_admin: false,
        name: crate::user::clone_opt_str(&claims.name),
    };
    let stored = user.duplicate();
    store.users.push(stored);
    store.next_user_id = store.next_user_id + 1;
    assert(store.users@ == old_users.push(stored));
    assert(store.view().users =~= old_users.map_values(|u: User| u@).push(user@));
    assert(store.view().sessions =~= before.sessions);
    let ghost n = before.users.len();
    assert forall|a: int, b: int|
        0 <= a < store.view().users.len() && 0 <= b < store.view().users.len()
            && #[trigger] store.view().users[a].id == #[trigger] store.view().users[b].id implies a
        == b by {
        if a < n {
            assert(before.users[a].id < before.next_user_id);
        }
        if b < n {
            assert(before.users[b].id < before.next_user_id);
        }
    }
    Ok(user)
}

/// Looks up the user that the session stored under `session_token_hash` leads to and, in the
/// same step, sets that session's last access to `now`. Nothing changes when the session or
/// its user is missing.
pub fn get_user_by_session_token_hash(store: &mut Store, session_token_hash: &str, now: &str) -> (r:
    Result<User, AuthError>)
    requires
        old(store).wf(),
    ensures
        final(store).wf(),
        final(store).view() == refreshed(old(store).view(), session_token_hash@, now@),
        match r {
            Ok(u) => session_user(old(store).view(), session_token_hash@) == Some(u@),
            Err(e) => e == AuthError::NoSuchSession && session_user(
                old(store).view(),
                session_token_hash@,
            ) is None,
        },
{
    let key = String::from_str(session_token_hash);
    let i = match store.position_of_session(&key) {
        Some(i) => i,
        None => return Err(AuthError::NoSuchSession),
    };
    let j = match store.position_of_user(store.sessions[i].user_id) {
        Some(j) => j,
        None => return Err(AuthError::NoSuchSession),
    };
    let ghost before = store.view();
    let user = store.users[j].duplicate();
    let refreshed_session = Session {
        key: store.sessions[i].key.clone(),
        user_id: store.sessions[i].user_id,
        last_access: String::from_str(now),
    };
    let ghost sv = refreshed_session@;
    store.sessions.set(i, refreshed_session);
    assert(store.view().sessions =~= before.sessions.update(i as int, sv));
    assert(store.view().sessions.len() == before.sessions.len());
    assert(forall|a: int|
        0 <= a < store.view().sessions.len() ==> #[trigger] store.view().sessions[a].key
            == before.sessions[a].key);
    assert forall|a: int, b: int|
        0 <= a < store.view().sessions.len() && 0 <= b < store.view().sessions.len()
            && #[trigger] store.view().sessions[a].key == #[trigger] store.view().sessions[b].key implies a
        == b by {
        assert(before.sessions[a].key == before.sessions[b].key);
    }
    Ok(user)
}

} // verus!
