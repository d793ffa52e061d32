use vstd::prelude::*;
use sha2::Digest;
use crate::store::{
    AuthError, Store, StoreView, get_user_by_session_token_hash, refreshed, session_user,
};
use crate::user::{User, UserView};

verus! {

/// The lower-case hexadecimal SHA-256 digest of the UTF-8 bytes of `token`: the key under which
/// a session is stored.
pub uninterp spec fn sha256_hex(token: Seq<char>) -> Seq<char>;

/// Relies on `sha2::Sha256::digest` for the digest of the token's bytes, written with
/// generic-array's `LowerHex` (two lower-case digits per byte). The result depends on the token
/// alone.
#[verifier::external_body]
fn session_key_of_token(raw_token: &str) -> (r: String)
    ensures
        r@ == sha256_hex(raw_token@),
{
    format!("{:x}", sha2::Sha256::digest(raw_token.as_bytes()))
}

/// Resolves a raw bearer token: the token is hashed and the session stored under the hash is
/// looked up and refreshed in one step.
pub fn resolve(store: &mut Store, raw_token: &str, now: &str) -> (r: Result<User, AuthError>)
    requires
        old(store).wf(),
        raw_token@.len() > 0,
    ensures
        final(store).wf(),
        final(store).view() == refreshed(old(store).view(), sha256_hex(raw_token@), now@),
        match r {
            Ok(u) => session_user(old(store).view(), sha256_hex(raw_token@)) == Some(u@),
            Err(e) => e == AuthError::NoSuchSession && session_user(
                old(store).view(),
                sha256_hex(raw_token@),
            ) is None,
        },
{
    let key = session_key_of_token(raw_token);
    get_user_by_session_token_hash(store, key.as_str(), now)
}

/// A token under whose hash no session is stored resolves to nobody, and resolving it leaves the
/// store as it was.
pub proof fn lemma_unissued_token_is_rejected(s: StoreView, token: Seq<char>, now: Seq<char>)
    requires
        forall|i: int| 0 <= i < s.sessions.len() ==> #[trigger] s.sessions[i].key != sha256_hex(token),
    ensures
        session_user(s, sha256_hex(token)) is None,
        refreshed(s, sha256_hex(token), now) == s,
{
}

/// The credential carried by an `Authorization` header value: what follows `Bearer `.
pub open spec fn bearer_token_of(header: Seq<char>) -> Option<Seq<char>> {
    if header.len() >= 7 && header.subrange(0, 7) == "Bearer "@ {
        Some(header.subrange(7, header.len() as int))
    } else {
        None
    }
}

pub fn bearer_token(header: &str) -> (r: Option<String>)
    ensures
        match r {
            Some(t) => bearer_token_of(header@) == Some(t@),
            None => bearer_token_of(header@) is None,
        },
{
    let prefix = "Bearer ";
    proof {
        reveal_strlit("Bearer ");
    }
    let n = header.unicode_len();
    if n < 7 {
        return None;
    }
    let head = String::from_str(header.substring_char(0, 7));
    if head == String::from_str(prefix) {
        Some(String::from_str(header.substring_char(7, n)))
    } else {
        None
    }
}

/// Who a request acts for.
#[derive(Clone, Debug)]
pub enum AuthOutcome {
    /// No credential was presented: the request acts as the anonymous user.
    Anonymous,
    /// A credential was presented and resolved to this user.
    Authenticated(User),
    /// A credential was presented and does not resolve to any user.
    Rejected,
}

pub enum AuthOutcomeView {
    Anonymous,
    Authenticated(UserView),
    Rejected,
}

impl View for AuthOutcome {
    type V = AuthOutcomeView;

    open spec fn view(&self) -> AuthOutcomeView {
        match self {
            AuthOutcome::Anonymous => AuthOutcomeView::Anonymous,
            AuthOutcome::Authenticated(u) => AuthOutcomeView::Authenticated(u@),
            AuthOutcome::Rejected => AuthOutcomeView::Rejected,
        }
    }
}

/// The session key that an `Authorization` header value presents, if it presents a usable one.
pub open spec fn presented_key(header: Seq<char>) -> Option<Seq<char>> {
    match bearer_token_of(header) {
        Some(t) => if t.len() > 0 {
            Some(sha256_hex(t))
        } else {
            None
        },
        None => None,
    }
}

/// Decides who a request acts for from its optional `Authorization` header. No header means the
/// anonymous user; a header that is not a non-empty bearer token, or whose token resolves to
/// nobody, is rejected.
pub fn authenticate(store: &mut Store, authorization: Option<&str>, now: &str) -> (r: AuthOutcome)
    requires
        old(store).wf(),
    ensures
        final(store).wf(),
        match authorization {
            None => r@ == AuthOutcomeView::Anonymous && final(store).view() == old(store).view(),
            Some(h) => match presented_key(h@) {
                None => r@ == AuthOutcomeView::Rejected && final(store).view() == old(
                    store,
                ).view(),
                Some(key) => {
                    &&& final(store).view() == refreshed(old(store).view(), key, now@)
                    &&& match session_user(old(store).view(), key) {
                        Some(u) => r@ == AuthOutcomeView::Authenticated(u),
                        None => r@ == AuthOutcomeView::Rejected,
                    }
                },
            },
        },
{
    match authorization {
        None => AuthOutcome::Anonymous,
        Some(h) => match bearer_token(h) {
            None => AuthOutcome::Rejected,
            Some(t) => {
                if t.unicode_len() == 0 {
                    return AuthOutcome::Rejected;
                }
                match resolve(store, t.as_str(), now) {
                    Ok(u) => AuthOutcome::Authenticated(u),
                    Err(_) => AuthOutcome::Rejected,
                }
            },
        },
    }
}

} // verus!
