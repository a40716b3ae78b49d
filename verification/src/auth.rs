//! Authentication of requests: reading the `Authorization` header, and the
//! caches of sessions and access tokens that spare the directory a query.
//!
//! Instants and durations are whole nanoseconds; the instants that the
//! caches read themselves count from the moment they were made.

use crate::assoc::{
    distinct_keys, has_key, index_of, lemma_index_of, lemma_removed, lemma_to_map_put, removed,
    to_map,
};
use crate::cache::expiry;
use crate::clock::{clock_elapsed, clock_start};
use crate::net::IpAddr;
use crate::text::{
    eq_ignore_ascii_case, lowercased, same_ignoring_ascii_case, share, split_at_first, split_once,
    str_eq, to_lowercase, trim, trimmed, utf8_text,
};
use mail_parser::decoders::base64::base64_decode;
use std::collections::HashMap;
use std::sync::Arc;
use std::time::Instant;
use vstd::prelude::*;
use vstd::string::StringSliceAdditionalSpecFns;
use vstd::utf8::{decode_utf8, valid_utf8};

verus! {

broadcast use vstd::std_specs::hash::group_hash_axioms;

/// What the session cache knows of an authenticated account.
#[derive(Debug, Clone, PartialEq, Eq)]
pub struct AccessToken {
    /// The account that the token was issued to.
    pub primary_id: u32,
    /// The groups that the account belongs to.
    pub member_of: Vec<u32>,
    /// The account's name.
    pub name: String,
}

/// Where a request came from, for the purpose of rate limiting.
#[derive(Debug, Clone, PartialEq, Eq)]
pub enum RemoteAddress {
    /// The address of the peer.
    IpAddress(IpAddr),
    /// What a proxy reported in the `Forwarded` header.
    IpAddressFwd(String),
    /// An authenticated account.
    AccountId(u32),
}

/// The settings that authentication reads.
#[derive(Debug, Clone, Copy)]
pub struct Config {
    /// How long a cached session or access token stays valid.
    pub session_cache_ttl: u128,
    /// Whether the `Forwarded` header names the client.
    pub rate_use_forwarded: bool,
}

/// A cached access token and the instant at which it expires.
#[derive(Debug)]
pub struct CachedToken {
    pub token: Arc<AccessToken>,
    pub expires: u128,
}

/// A cached session: the account it belongs to and the instant at which it
/// expires.
#[derive(Debug)]
struct Session {
    id: String,
    account_id: u32,
    expires: u128,
}

/// What the caches hold.
pub struct AuthState {
    /// Accounts and expiry instants by session id.
    pub sessions: Map<Seq<char>, (u32, u128)>,
    /// Access tokens by account.
    pub access_tokens: Map<u32, CachedToken>,
}

impl AuthState {
    /// The account of the session `id`, unless the session is unknown or
    /// has expired at `now`.
    pub open spec fn session(self, id: Seq<char>, now: u128) -> Option<u32> {
        if self.sessions.contains_key(id) && self.sessions[id].1 >= now {
            Some(self.sessions[id].0)
        } else {
            None
        }
    }

    /// The cached access token of `account`, unless there is none or it
    /// has expired at `now`.
    pub open spec fn access_token(self, account: u32, now: u128) -> Option<Arc<AccessToken>> {
        if self.access_tokens.contains_key(account) && self.access_tokens[account].expires >= now {
            Some(self.access_tokens[account].token)
        } else {
            None
        }
    }
}

/// What the decoded text of Basic credentials holds: the login, trimmed
/// and in lower case, and the secret, which are parted by the first colon.
pub open spec fn credentials_in(text: Seq<char>) -> Option<(Seq<char>, Seq<char>)> {
    match split_at_first(text, ':') {
        Some((login, secret)) => Some((lowercased(trimmed(login)), secret)),
        None => None,
    }
}

/// What an `Authorization` header holds: the mechanism and, trimmed, the
/// token, which are parted by the first space.
pub open spec fn authorization_in(header: Seq<char>) -> Option<(Seq<char>, Seq<char>)> {
    match split_at_first(header, ' ') {
        Some((mechanism, token)) => Some((mechanism, trimmed(token))),
        None => None,
    }
}

/// What `mail_parser`'s `base64_decode` reads from `bytes`.
pub uninterp spec fn base64_decoded(bytes: Seq<u8>) -> Option<Seq<u8>>;

/// `mail_parser::decoders::base64::base64_decode`: the bytes that a
/// base64 text stands for, or nothing where the text is not base64.
#[verifier::external_body]
fn decode_base64(bytes: &[u8]) -> (decoded: Option<Vec<u8>>)
    ensures
        match decoded {
            Some(d) => base64_decoded(bytes@) == Some(d@),
            None => base64_decoded(bytes@) is None,
        },
{
    base64_decode(bytes)
}

/// The Basic credentials that base64-decoded bytes spell, if they spell
/// any.
pub open spec fn credentials_of(decoded: Option<Seq<u8>>) -> Option<(Seq<char>, Seq<char>)> {
    match decoded {
        Some(bytes) => if valid_utf8(bytes) {
            credentials_in(decode_utf8(bytes))
        } else {
            None
        },
        None => None,
    }
}

/// Parts an `Authorization` header into mechanism and token.
pub fn parse_authorization(header: &str) -> (parts: Option<(String, String)>)
    ensures
        match parts {
            Some((mechanism, token)) => authorization_in(header@) == Some((mechanism@, token@)),
            None => authorization_in(header@) is None,
        },
{
    match split_once(header, ' ') {
        Some((mechanism, token)) => Some((mechanism.to_owned(), trim(token).to_owned())),
        None => None,
    }
}

/// Reads login and secret from the decoded bytes of Basic credentials.
pub fn credentials_from(decoded: Option<Vec<u8>>) -> (credentials: Option<(String, String)>)
    ensures
        match credentials {
            Some((login, secret)) => credentials_of(
                match decoded {
                    Some(d) => Some(d@),
                    None => None,
                },
            ) == Some((login@, secret@)),
            None => credentials_of(
                match decoded {
                    Some(d) => Some(d@),
                    None => None,
                },
            ) is None,
        },
{
    match decoded {
        Some(bytes) => match utf8_text(bytes) {
            Some(text) => match split_once(text.as_str(), ':') {
                Some((login, secret)) => Some((to_lowercase(trim(login)), secret.to_owned())),
                None => None,
            },
            None => None,
        },
        None => None,
    }
}

/// Reads login and secret from the token of a Basic `Authorization`
/// header.
pub fn decode_basic_credentials(token: &str) -> (credentials: Option<(String, String)>)
    ensures
        match credentials {
            Some((login, secret)) => credentials_of(base64_decoded(token.spec_bytes())) == Some(
                (login@, secret@),
            ),
            None => credentials_of(base64_decoded(token.spec_bytes())) is None,
        },
{
    credentials_from(decode_base64(token.as_bytes()))
}

/// The mechanism of an `Authorization` header.
#[derive(Debug, Clone, Copy, PartialEq, Eq)]
pub enum Mechanism {
    Basic,
    Bearer,
    Other,
}

/// The mechanism that `name` stands for, whatever the case of its letters.
pub open spec fn mechanism_of(name: Seq<char>) -> Mechanism {
    if same_ignoring_ascii_case(name, "basic"@) {
        Mechanism::Basic
    } else if same_ignoring_ascii_case(name, "bearer"@) {
        Mechanism::Bearer
    } else {
        Mechanism::Other
    }
}

/// Tells the mechanism of an `Authorization` header by its name.
pub fn mechanism(name: &str) -> (m: Mechanism)
    ensures
        m == mechanism_of(name@),
{
    if eq_ignore_ascii_case(name, "basic") {
        Mechanism::Basic
    } else if eq_ignore_ascii_case(name, "bearer") {
        Mechanism::Bearer
    } else {
        Mechanism::Other
    }
}

/// What is to be done about a request, as far as its `Authorization`
/// header and the session cache tell.
#[derive(Debug)]
pub enum AuthStep {
    /// There is no usable header. The anonymous rate limit applies and the
    /// request stays unauthenticated.
    Anonymous,
    /// The token names a live session of `account_id`, whose access token
    /// is taken from the cache or fetched.
    Session { account_id: u32 },
    /// Basic authentication. The soft limit on authentication requests
    /// applies first; then the credentials, if the token held any, are put
    /// to the directory.
    Basic { token: String, credentials: Option<(String, String)> },
    /// A bearer token. The anonymous rate limit applies first; then the
    /// token is validated.
    Bearer { token: String },
    /// Another mechanism. The anonymous rate limit applies and the request
    /// stays unauthenticated.
    Unsupported,
}

/// What the directory answered when credentials were put to it.
#[derive(Debug)]
pub enum DirectoryAnswer {
    /// The credentials belong to this account.
    Found(AccessToken),
    /// The credentials belong to no account.
    NotFound,
    /// The directory could not be asked.
    Failed,
}

/// Caches of sessions and access tokens, and the reading of request
/// headers.
#[derive(Debug)]
pub struct JMAP {
    config: Config,
    sessions: Vec<Session>,
    access_tokens: HashMap<u32, CachedToken>,
    origin: Instant,
}

spec fn session_entries(sessions: Seq<Session>) -> Seq<(Seq<char>, (u32, u128))> {
    sessions.map_values(|s: Session| (s.id@, (s.account_id, s.expires)))
}

impl View for JMAP {
    type V = AuthState;

    closed spec fn view(&self) -> AuthState {
        AuthState {
            sessions: to_map(session_entries(self.sessions@)),
            access_tokens: self.access_tokens@,
        }
    }
}

impl JMAP {
    #[verifier::type_invariant]
    spec fn inv(&self) -> bool {
        distinct_keys(session_entries(self.sessions@))
    }

    /// The settings in force.
    pub closed spec fn settings(&self) -> Config {
        self.config
    }

    /// The settings in force.
    pub fn config(&self) -> (config: &Config)
        ensures
            *config == self.settings(),
    {
        &self.config
    }

    /// Empty caches under the given settings.
    pub fn new(config: Config) -> (jmap: JMAP)
        ensures
            jmap.settings() == config,
            jmap@.sessions == Map::<Seq<char>, (u32, u128)>::empty(),
            jmap@.access_tokens == Map::<u32, CachedToken>::empty(),
    {
        let jmap = JMAP {
            config,
            sessions: Vec::new(),
            access_tokens: HashMap::new(),
            origin: clock_start(),
        };
        assert(to_map(session_entries(jmap.sessions@)) =~= Map::<Seq<char>, (u32, u128)>::empty());
        jmap
    }

    /// The nanoseconds that have passed since the caches were made.
    pub fn now(&self) -> u128 {
        clock_elapsed(&self.origin)
    }

    fn find_session(&self, id: &str) -> (place: Option<usize>)
        ensures
            match place {
                Some(i) => i < self.sessions.len() && self.sessions[i as int].id@ == id@,
                None => !has_key(session_entries(self.sessions@), id@),
            },
    {
        let mut i: usize = 0;
        while i < self.sessions.len()
            invariant
                i <= self.sessions.len(),
                forall|j: int| 0 <= j < i ==> self.sessions[j].id@ != id@,
            decreases self.sessions.len() - i,
        {
            if str_eq(self.sessions[i].id.as_str(), id) {
                return Some(i);
            }
            i += 1;
        }
        proof {
            let entries = session_entries(self.sessions@);
            if has_key(entries, id@) {
                let j = index_of(entries, id@);
                assert(entries[j].0 == id@);
                assert(self.sessions[j].id@ == id@);
            }
        }
        None
    }

    /// The account of the session `session_id` at the instant `now`.
    pub fn session_at(&self, session_id: &str, now: u128) -> (account: Option<u32>)
        ensures
            account == self@.session(session_id@, now),
    {
        proof {
            use_type_invariant(self);
        }
        match self.find_session(session_id) {
            Some(i) => {
                proof {
                    let entries = session_entries(self.sessions@);
                    assert(entries[i as int].0 == session_id@);
                    lemma_index_of(entries, session_id@, i as int);
                }
                if self.sessions[i].expires >= now {
                    Some(self.sessions[i].account_id)
                } else {
                    None
                }
            },
            None => None,
        }
    }

    /// Records at the instant `now` that the session `session_id` belongs
    /// to the account of `access_token`.
    pub fn cache_session_at(&mut self, session_id: String, access_token: &AccessToken, now: u128)
        ensures
            final(self)@.sessions == old(self)@.sessions.insert(
                session_id@,
                (access_token.primary_id, expiry(now, old(self).settings().session_cache_ttl)),
            ),
            final(self)@.access_tokens == old(self)@.access_tokens,
            final(self).settings() == old(self).settings(),
    {
        proof {
            use_type_invariant(&*self);
        }
        let ghost before = session_entries(self.sessions@);
        let expires = now.saturating_add(self.config.session_cache_ttl);
        let place = self.find_session(session_id.as_str());
        proof {
            lemma_to_map_put(before, session_id@, (access_token.primary_id, expires));
            lemma_removed(before, session_id@);
        }
        let mut sessions: Vec<Session> = Vec::new();
        std::mem::swap(&mut sessions, &mut self.sessions);
        if let Some(i) = place {
            proof {
                assert(before[i as int].0 == session_id@);
                lemma_index_of(before, session_id@, i as int);
            }
            sessions.remove(i);
            assert(session_entries(sessions@) =~= removed(before, session_id@));
        } else {
            assert(session_entries(sessions@) =~= removed(before, session_id@));
        }
        let ghost middle = session_entries(sessions@);
        sessions.push(Session { id: session_id, account_id: access_token.primary_id, expires });
        assert(session_entries(sessions@) =~= middle.push(
            (session_id@, (access_token.primary_id, expires)),
        ));
        self.sessions = sessions;
    }

    /// Records at the instant `now` the access token of its account.
    pub fn cache_access_token_at(&mut self, access_token: Arc<AccessToken>, now: u128)
        ensures
            final(self)@.access_tokens == old(self)@.access_tokens.insert(
                access_token.primary_id,
                (CachedToken {
                    token: access_token,
                    expires: expiry(now, old(self).settings().session_cache_ttl),
                }),
            ),
            final(self)@.sessions == old(self)@.sessions,
            final(self).settings() == old(self).settings(),
    {
        proof {
            use_type_invariant(&*self);
        }
        let expires = now.saturating_add(self.config.session_cache_ttl);
        let account = access_token.primary_id;
        let mut tokens: HashMap<u32, CachedToken> = HashMap::new();
        std::mem::swap(&mut tokens, &mut self.access_tokens);
        tokens.insert(account, CachedToken { token: access_token, expires });
        self.access_tokens = tokens;
    }

    /// The cached access token of `primary_id` at the instant `now`.
    pub fn get_cached_access_token_at(&self, primary_id: u32, now: u128) -> (token: Option<
        Arc<AccessToken>,
    >)
        ensures
            token == self@.access_token(primary_id, now),
    {
        match self.access_tokens.get(&primary_id) {
            Some(cached) => {
                if cached.expires >= now {
                    Some(share(&cached.token))
                } else {
                    None
                }
            },
            None => None,
        }
    }

    /// Records that the session `session_id` belongs to the account of
    /// `access_token`, as of the present instant.
    pub fn cache_session(&mut self, session_id: String, access_token: &AccessToken)
        ensures
            exists|now: u128|
                final(self)@.sessions == old(self)@.sessions.insert(
                    session_id@,
                    (
                        access_token.primary_id,
                        #[trigger] expiry(now, old(self).settings().session_cache_ttl),
                    ),
                ),
            final(self)@.access_tokens == old(self)@.access_tokens,
            final(self).settings() == old(self).settings(),
    {
        let now = self.now();
        self.cache_session_at(session_id, access_token, now);
        assert(self@.sessions == old(self)@.sessions.insert(
            session_id@,
            (access_token.primary_id, expiry(now, old(self).settings().session_cache_ttl)),
        ));
    }

    /// Records the access token of its account, as of the present instant.
    pub fn cache_access_token(&mut self, access_token: Arc<AccessToken>)
        ensures
            exists|now: u128|
                final(self)@.access_tokens == old(self)@.access_tokens.insert(
                    access_token.primary_id,
                    (CachedToken {
                        token: access_token,
                        expires: #[trigger] expiry(now, old(self).settings().session_cache_ttl),
                    }),
                ),
            final(self)@.sessions == old(self)@.sessions,
            final(self).settings() == old(self).settings(),
    {
        let now = self.now();
        self.cache_access_token_at(access_token, now);
        assert(self@.access_tokens == old(self)@.access_tokens.insert(
            access_token.primary_id,
            (CachedToken {
                token: access_token,
                expires: expiry(now, old(self).settings().session_cache_ttl),
            }),
        ));
    }

    /// The cached access token of `primary_id`, as of the present instant.
    pub fn get_cached_access_token(&self, primary_id: u32) -> (token: Option<Arc<AccessToken>>)
        ensures
            exists|now: u128| token == #[trigger] self@.access_token(primary_id, now),
    {
        let now = self.now();
        let token = self.get_cached_access_token_at(primary_id, now);
        assert(token == self@.access_token(primary_id, now));
        token
    }

    /// Caches an access token that was fetched for want of a cached one,
    /// and hands it on.
    pub fn refresh_access_token(&mut self, fetched: Option<AccessToken>) -> (token: Option<
        Arc<AccessToken>,
    >)
        ensures
            match fetched {
                Some(t) => token == Some(Arc::new(t)) && exists|now: u128|
                    final(self)@.access_tokens == old(self)@.access_tokens.insert(
                        t.primary_id,
                        (CachedToken {
                            token: Arc::new(t),
                            expires: #[trigger] expiry(now, old(self).settings().session_cache_ttl),
                        }),
                    ),
                None => token is None && final(self)@.access_tokens == old(self)@.access_tokens,
            },
            final(self)@.sessions == old(self)@.sessions,
            final(self).settings() == old(self).settings(),
    {
        match fetched {
            Some(access_token) => {
                let access_token = Arc::new(access_token);
                self.cache_access_token(share(&access_token));
                Some(access_token)
            },
            None => None,
        }
    }

    /// Caches the session and the access token of a request that has just
    /// authenticated with `token`, and hands the access token on.
    pub fn complete_authentication(&mut self, token: String, access_token: AccessToken) -> (shared:
        Arc<AccessToken>)
        ensures
            shared == Arc::new(access_token),
            exists|now: u128|
                final(self)@.sessions == old(self)@.sessions.insert(
                    token@,
                    (
                        access_token.primary_id,
                        #[trigger] expiry(now, old(self).settings().session_cache_ttl),
                    ),
                ),
            exists|now: u128|
                final(self)@.access_tokens == old(self)@.access_tokens.insert(
                    access_token.primary_id,
                    (CachedToken {
                        token: Arc::new(access_token),
                        expires: #[trigger] expiry(now, old(self).settings().session_cache_ttl),
                    }),
                ),
            final(self).settings() == old(self).settings(),
    {
        let access_token = Arc::new(access_token);
        self.cache_session(token, &access_token);
        self.cache_access_token(share(&access_token));
        access_token
    }

    /// The address to count a request against: the peer's, unless the
    /// settings say that a proxy names the client in the `Forwarded`
    /// header. Where that header is wanted and missing, the loopback
    /// address stands in.
    pub fn build_remote_addr(&self, forwarded_for: Option<&str>, remote_ip: IpAddr) -> (address:
        RemoteAddress)
        ensures
            !self.settings().rate_use_forwarded ==> address == RemoteAddress::IpAddress(remote_ip),
            self.settings().rate_use_forwarded ==> match forwarded_for {
                Some(forwarded) => address matches RemoteAddress::IpAddressFwd(text) && text@
                    == trimmed(forwarded@),
                None => address matches RemoteAddress::IpAddress(IpAddr::V4(octets)) && octets@
                    == seq![127u8, 0u8, 0u8, 1u8],
            },
    {
        if !self.config.rate_use_forwarded {
            RemoteAddress::IpAddress(remote_ip)
        } else {
            match forwarded_for {
                Some(forwarded) => RemoteAddress::IpAddressFwd(trim(forwarded).to_owned()),
                None => RemoteAddress::IpAddress(IpAddr::loopback()),
            }
        }
    }

    /// What is to be done about a request with the given `Authorization`
    /// header at the instant `now`.
    pub fn authenticate_headers_at(&self, authorization: Option<&str>, now: u128) -> (step: AuthStep)
        ensures
            step_matches(self@, authorization, now, step),
    {
        let header = match authorization {
            Some(header) => header,
            None => {
                return AuthStep::Anonymous;
            },
        };
        let (name, token) = match parse_authorization(header) {
            Some(parts) => parts,
            None => {
                return AuthStep::Anonymous;
            },
        };
        if let Some(account_id) = self.session_at(token.as_str(), now) {
            return AuthStep::Session { account_id };
        }
        match mechanism(name.as_str()) {
            Mechanism::Basic => {
                let credentials = decode_basic_credentials(token.as_str());
                AuthStep::Basic { token, credentials }
            },
            Mechanism::Bearer => AuthStep::Bearer { token },
            Mechanism::Other => AuthStep::Unsupported,
        }
    }

    /// What is to be done about a request with the given `Authorization`
    /// header, as of the present instant.
    pub fn authenticate_headers(&self, authorization: Option<&str>) -> (step: AuthStep)
        ensures
            exists|now: u128| #[trigger] step_matches(self@, authorization, now, step),
    {
        let now = self.now();
        let step = self.authenticate_headers_at(authorization, now);
        assert(step_matches(self@, authorization, now, step));
        step
    }
}

/// `step` is what the header and the sessions known at `now` call for.
pub open spec fn step_matches(
    state: AuthState,
    authorization: Option<&str>,
    now: u128,
    step: AuthStep,
) -> bool {
    match authorization {
        None => step is Anonymous,
        Some(header) => match authorization_in(header@) {
            None => step is Anonymous,
            Some((name, token)) => match state.session(token, now) {
                Some(account) => step == (AuthStep::Session { account_id: account }),
                None => match mechanism_of(name) {
                    Mechanism::Basic => step matches AuthStep::Basic { token: t, credentials }
                        && t@ == token && match credentials {
                        Some((login, secret)) => credentials_of(
                            base64_decoded(vstd::utf8::encode_utf8(token)),
                        ) == Some((login@, secret@)),
                        None => credentials_of(base64_decoded(vstd::utf8::encode_utf8(token)))
                            is None,
                    },
                    Mechanism::Bearer => step matches AuthStep::Bearer { token: t } && t@ == token,
                    Mechanism::Other => step is Unsupported,
                },
            },
        },
    }
}

/// What follows from the directory's answer to Basic credentials: the
/// access token of the account found, and whether the attempt counts
/// against the hard limit on failed authentications. It counts only when
/// the directory knows no such account.
pub fn authenticate_plain(answer: DirectoryAnswer) -> (outcome: (Option<AccessToken>, bool))
    ensures
        match answer {
            DirectoryAnswer::Found(token) => outcome == (Some(token), false),
            DirectoryAnswer::NotFound => outcome == (None::<AccessToken>, true),
            DirectoryAnswer::Failed => outcome == (None::<AccessToken>, false),
        },
{
    match answer {
        DirectoryAnswer::Found(token) => (Some(token), false),
        DirectoryAnswer::NotFound => (None, true),
        DirectoryAnswer::Failed => (None, false),
    }
}

} // verus!
