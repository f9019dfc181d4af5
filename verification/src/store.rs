//! The session store: every client's tokens, and the rules by which they are
//! issued, used, kept alive and discarded.

use crate::error::DownloadError;
use crate::models::{fresh_session, Descriptor, DownloadClient, DownloadRequest, Session};
use crate::table::StringMap;
use crate::time::{deadline, expiry_after, Timestamp, DEFAULT_LIFETIME};
use vstd::prelude::*;

verus! {

/// The mathematical value of a store: the session of each known client.
pub type Sessions = Map<Seq<char>, Session>;

/// `sessions` once `client` is known: a client that is new gets a session
/// without tokens whose deadline is `now`.
pub open spec fn opened(sessions: Sessions, client: Seq<char>, now: int) -> Sessions {
    if sessions.contains_key(client) {
        sessions
    } else {
        sessions.insert(client, fresh_session(now))
    }
}

/// `sessions` once the deadline of `client` has been moved forward to
/// `new_expiry`. A deadline never moves back, and an unknown client stays
/// unknown.
pub open spec fn touched(sessions: Sessions, client: Seq<char>, new_expiry: int) -> Sessions {
    if sessions.contains_key(client) && sessions[client].expires_at < new_expiry {
        sessions.insert(client, Session { expires_at: new_expiry, ..sessions[client] })
    } else {
        sessions
    }
}

/// `sessions` once `client` has a session that can take tokens at `now`: a
/// session whose deadline lies after `now` stays as it is. A client that is
/// unknown, or whose deadline is reached at `now`, starts anew: without
/// tokens, and with `now` as its tentative deadline. What an expired session
/// still held is gone for good.
pub open spec fn started(sessions: Sessions, client: Seq<char>, now: int) -> Sessions {
    if is_live(sessions, client, now) {
        sessions
    } else {
        sessions.insert(client, fresh_session(now))
    }
}

/// `sessions` once `token` has been issued to `client` for `descriptor` at
/// `now`, by a store whose tokens live for `lifetime`. The token joins those
/// of a live session; a session that is expired at `now` keeps none of its
/// old tokens.
pub open spec fn registered(
    sessions: Sessions,
    client: Seq<char>,
    token: Seq<char>,
    descriptor: Descriptor,
    now: int,
    lifetime: int,
) -> Sessions {
    let kept_alive = touched(started(sessions, client, now), client, deadline(now, lifetime));
    kept_alive.insert(
        client,
        Session {
            tokens: kept_alive[client].tokens.insert(token, descriptor),
            ..kept_alive[client]
        },
    )
}

/// The state after `tokens` have been issued to `client` one after the
/// other, the token at `i` for `descriptors[i]` at `times[i]`.
pub open spec fn issued_all(
    sessions: Sessions,
    lifetime: int,
    client: Seq<char>,
    tokens: Seq<Seq<char>>,
    descriptors: Seq<Descriptor>,
    times: Seq<int>,
) -> Sessions
    decreases tokens.len(),
{
    if tokens.len() == 0 {
        sessions
    } else {
        registered(
            issued_all(
                sessions,
                lifetime,
                client,
                tokens.drop_last(),
                descriptors.drop_last(),
                times.drop_last(),
            ),
            client,
            tokens.last(),
            descriptors.last(),
            times.last(),
            lifetime,
        )
    }
}

/// Whether each of `times` but the first lies before the deadline that an
/// issuance at the one before it sets: the session never expires between two
/// issuances.
pub open spec fn in_close_order(times: Seq<int>, lifetime: int) -> bool {
    forall|i: int| 0 < i < times.len() ==> #[trigger] times[i] < deadline(times[i - 1], lifetime)
}

/// Whether `client` has a session in `sessions` whose deadline lies after
/// `now`.
pub open spec fn is_live(sessions: Sessions, client: Seq<char>, now: int) -> bool {
    sessions.contains_key(client) && now < sessions[client].expires_at
}

/// What an attempt of `client` to use `token` at `now` comes to.
pub open spec fn outcome(sessions: Sessions, client: Seq<char>, token: Seq<char>, now: int)
    -> Result<Descriptor, DownloadError> {
    if !sessions.contains_key(client) {
        Err(DownloadError::UnknownClient)
    } else if sessions[client].expires_at <= now {
        Err(DownloadError::ExpiredClient)
    } else if !sessions[client].tokens.contains_key(token) {
        Err(DownloadError::UnknownOrConsumedToken)
    } else {
        Ok(sessions[client].tokens[token])
    }
}

/// `sessions` after an attempt of `client` to use `token` at `now`: a token
/// that was handed out is gone, and nothing else changes.
pub open spec fn consumed(sessions: Sessions, client: Seq<char>, token: Seq<char>, now: int)
    -> Sessions {
    if is_live(sessions, client, now) {
        sessions.insert(
            client,
            Session { tokens: sessions[client].tokens.remove(token), ..sessions[client] },
        )
    } else {
        sessions
    }
}

/// `sessions` once `client` has asked at `now` to be kept alive. The
/// deadline of a live session moves forward to one lifetime after `now`, and
/// nothing else changes: no session gets or loses a token. A client that is
/// unknown, or whose deadline is reached at `now`, is not kept alive: the
/// store stays as it is, and an expired session is left to the sweep.
pub open spec fn extended(sessions: Sessions, client: Seq<char>, now: int, lifetime: int)
    -> Sessions {
    if is_live(sessions, client, now) {
        touched(sessions, client, deadline(now, lifetime))
    } else {
        sessions
    }
}

/// Whether every deadline in `sessions` is an instant that a `Timestamp` can
/// name.
pub open spec fn deadlines_fit(sessions: Sessions) -> bool {
    forall|c: Seq<char>| #[trigger]
        sessions.contains_key(c) ==> i128::MIN <= sessions[c].expires_at <= i128::MAX
}

/// `sessions` without those whose deadline is reached at `now`.
pub open spec fn swept(sessions: Sessions, now: int) -> Sessions {
    Map::new(
        |client: Seq<char>| sessions.contains_key(client) && now < sessions[client].expires_at,
        |client: Seq<char>| sessions[client],
    )
}

/// The views of what an attempt to use a token hands back.
pub open spec fn outcome_view(result: Result<DownloadRequest, DownloadError>) -> Result<
    Descriptor,
    DownloadError,
> {
    match result {
        Ok(request) => Ok(request@),
        Err(error) => Err(error),
    }
}

/// The views of what a lookup of a token hands back.
pub open spec fn found_view(found: Option<DownloadRequest>) -> Option<Descriptor> {
    match found {
        Some(request) => Some(request@),
        None => None,
    }
}

/// Every client's session, and the lifetime that the store gives to tokens.
#[derive(Debug)]
pub struct SessionStore {
    sessions: StringMap<DownloadClient>,
    lifetime: u64,
}

impl View for SessionStore {
    type V = Sessions;

    closed spec fn view(&self) -> Sessions {
        self.sessions@
    }
}

impl SessionStore {
    /// The lifetime of the store's tokens, in nanoseconds.
    pub closed spec fn spec_lifetime(&self) -> u64 {
        self.lifetime
    }

    /// Every deadline that a store holds is an instant that a `Timestamp`
    /// can name.
    pub proof fn lemma_deadlines_fit(store: Self)
        ensures
            deadlines_fit(store@),
    {
        store.sessions.lemma_values_are_views();
        assert forall|c: Seq<char>| #[trigger] store@.contains_key(c) implies i128::MIN
            <= store@[c].expires_at <= i128::MAX by {
            let session = choose|session: DownloadClient| #[trigger]
                session@ == store.sessions@[c];
        }
    }

    /// A store without sessions whose tokens live for five minutes.
    pub fn new() -> (store: Self)
        ensures
            store@ == Sessions::empty(),
            store.spec_lifetime() == DEFAULT_LIFETIME,
    {
        Self::with_lifetime(DEFAULT_LIFETIME)
    }

    /// A store without sessions whose tokens live for `lifetime` nanoseconds.
    pub fn with_lifetime(lifetime: u64) -> (store: Self)
        ensures
            store@ == Sessions::empty(),
            store.spec_lifetime() == lifetime,
    {
        SessionStore { sessions: StringMap::new(), lifetime }
    }

    /// The lifetime of the store's tokens, in nanoseconds.
    #[verifier::when_used_as_spec(spec_lifetime)]
    pub fn lifetime(&self) -> (lifetime: u64)
        ensures
            lifetime == self.spec_lifetime(),
    {
        self.lifetime
    }

    /// The number of sessions in the store.
    pub fn len(&self) -> (n: usize)
        ensures
            self@.dom().finite(),
            n == self@.len(),
    {
        self.sessions.len()
    }

    /// The session of `client_id`, if the store knows the client.
    pub fn session(&self, client_id: &String) -> (found: Option<&DownloadClient>)
        ensures
            match found {
                Some(session) => self@.contains_key(client_id@) && session@ == self@[client_id@],
                None => !self@.contains_key(client_id@),
            },
    {
        self.sessions.get(client_id)
    }

    /// Makes `client_id` known: a client that is new gets a session without
    /// tokens whose tentative deadline is `now`.
    pub fn get_or_create(&mut self, client_id: &String, now: Timestamp) -> (session:
        &DownloadClient)
        ensures
            final(self)@ == opened(old(self)@, client_id@, now as int),
            session@ == final(self)@[client_id@],
            deadlines_fit(final(self)@),
            final(self).lifetime() == old(self).lifetime(),
    {
        if !self.sessions.contains_key(client_id) {
            self.sessions.insert_new(client_id.clone(), DownloadClient::starting_at(now));
        }
        proof {
            Self::lemma_deadlines_fit(*self);
        }
        match self.sessions.get(client_id) {
            Some(session) => session,
            None => vstd::pervasive::unreached(),
        }
    }

    /// Moves the deadline of `client_id` forward to `new_expiry`. A deadline
    /// that lies later already stays, and so does a store that does not know
    /// the client. This is the bare step: it is told no present instant, so
    /// it cannot tell a live session from an expired one and keeps the tokens
    /// of either. `extend` and `register` are told the instant, and let no
    /// token of an expired session come back: `extend` leaves such a session
    /// expired, and `register` starts it anew.
    pub fn touch(&mut self, client_id: &String, new_expiry: Timestamp)
        ensures
            final(self)@ == touched(old(self)@, client_id@, new_expiry as int),
            !old(self)@.contains_key(client_id@) ==> final(self)@ == old(self)@,
            deadlines_fit(final(self)@),
            final(self).lifetime() == old(self).lifetime(),
    {
        let reaches_further = match self.sessions.get(client_id) {
            Some(session) => session.expires_at < new_expiry,
            None => false,
        };
        if reaches_further {
            match self.sessions.remove(client_id) {
                Some(session) => {
                    let session = DownloadClient {
                        expires_at: new_expiry,
                        requests: session.requests,
                    };
                    assert(old(self)@.remove(client_id@).insert(client_id@, session@) =~= touched(
                        old(self)@,
                        client_id@,
                        new_expiry as int,
                    ));
                    self.sessions.insert_new(client_id.clone(), session);
                },
                None => {},
            }
        }
        proof {
            Self::lemma_deadlines_fit(*self);
        }
    }

    /// Issues `token` to `client_id` for `descriptor` at `now`: the client
    /// becomes known if it was not, its deadline moves forward to the end of
    /// the token's lifetime, and the token resolves to the descriptor. A
    /// session whose deadline is reached at `now` starts anew: the tokens it
    /// still held are gone.
    pub fn register(
        &mut self,
        client_id: String,
        token: String,
        descriptor: DownloadRequest,
        now: Timestamp,
    )
        ensures
            final(self)@ == registered(
                old(self)@,
                client_id@,
                token@,
                descriptor@,
                now as int,
                old(self).lifetime() as int,
            ),
            !is_live(old(self)@, client_id@, now as int) ==> final(self)@[client_id@].tokens
                == Map::<Seq<char>, Descriptor>::empty().insert(token@, descriptor@),
            deadlines_fit(final(self)@),
            final(self).lifetime() == old(self).lifetime(),
    {
        let expiry = expiry_after(now, self.lifetime);
        let session = match self.sessions.remove(&client_id) {
            Some(session) => if session.is_expired(now) {
                DownloadClient::starting_at(now)
            } else {
                session
            },
            None => DownloadClient::starting_at(now),
        };
        let mut requests = session.requests;
        requests.insert(token, descriptor);
        let session = DownloadClient {
            expires_at: if session.expires_at < expiry {
                expiry
            } else {
                session.expires_at
            },
            requests,
        };
        assert(old(self)@.remove(client_id@).insert(client_id@, session@) =~= registered(
            old(self)@,
            client_id@,
            token@,
            descriptor@,
            now as int,
            old(self).lifetime() as int,
        ));
        self.sessions.insert_new(client_id, session);
        proof {
            Self::lemma_deadlines_fit(*self);
        }
    }

    /// Uses `token` of `client_id` at `now`. The descriptor is handed out
    /// when the client is known, its deadline lies after `now` and it holds
    /// the token; the token is then gone. Every refusal leaves the store as
    /// it was.
    pub fn consume(&mut self, client_id: &String, token: &String, now: Timestamp) -> (result:
        Result<DownloadRequest, DownloadError>)
        ensures
            outcome_view(result) == outcome(old(self)@, client_id@, token@, now as int),
            final(self)@ == consumed(old(self)@, client_id@, token@, now as int),
            result is Err ==> final(self)@ == old(self)@,
            result is Ok ==> !final(self)@[client_id@].tokens.contains_key(token@),
            old(self)@.contains_key(client_id@) && old(self)@[client_id@].expires_at <= now
                ==> result is Err && result->Err_0 == DownloadError::ExpiredClient,
            deadlines_fit(final(self)@),
            final(self).lifetime() == old(self).lifetime(),
    {
        proof {
            Self::lemma_deadlines_fit(*self);
        }
        let expired = match self.sessions.get(client_id) {
            Some(session) => session.is_expired(now),
            None => {
                return Err(DownloadError::UnknownClient);
            },
        };
        if expired {
            return Err(DownloadError::ExpiredClient);
        }
        match self.sessions.remove(client_id) {
            Some(session) => {
                let mut requests = session.requests;
                let taken = requests.remove(token);
                let session = DownloadClient { expires_at: session.expires_at, requests };
                assert(old(self)@.remove(client_id@).insert(client_id@, session@) =~= consumed(
                    old(self)@,
                    client_id@,
                    token@,
                    now as int,
                ));
                self.sessions.insert_new(client_id.clone(), session);
                proof {
                    Self::lemma_deadlines_fit(*self);
                }
                match taken {
                    Some(request) => Ok(request),
                    None => {
                        let ghost tokens = old(self)@[client_id@].tokens;
                        assert(tokens.remove(token@) =~= tokens);
                        assert(final(self)@ =~= old(self)@);
                        Err(DownloadError::UnknownOrConsumedToken)
                    },
                }
            },
            None => Err(DownloadError::UnknownClient),
        }
    }

    /// Checks and removes in one step: hands out the descriptor of `token`
    /// exactly when `client_id` is known, its deadline lies after `now` and
    /// it holds the token, which is then gone.
    pub fn remove_token(&mut self, client_id: &String, token: &String, now: Timestamp) -> (found:
        Option<DownloadRequest>)
        ensures
            found_view(found) == match outcome(old(self)@, client_id@, token@, now as int) {
                Ok(descriptor) => Some(descriptor),
                Err(_) => None,
            },
            final(self)@ == consumed(old(self)@, client_id@, token@, now as int),
            found is None ==> final(self)@ == old(self)@,
            deadlines_fit(final(self)@),
            final(self).lifetime() == old(self).lifetime(),
    {
        match self.consume(client_id, token, now) {
            Ok(request) => Some(request),
            Err(_) => None,
        }
    }

    /// Keeps `client_id` alive: the deadline of a live session moves forward
    /// to one lifetime after `now`. No token is added, removed or altered. A
    /// client that the store does not know, or whose deadline is reached at
    /// `now`, is not kept alive: the store stays as it is.
    pub fn extend(&mut self, client_id: &String, now: Timestamp)
        ensures
            final(self)@ == extended(
                old(self)@,
                client_id@,
                now as int,
                old(self).lifetime() as int,
            ),
            !is_live(old(self)@, client_id@, now as int) ==> final(self)@ == old(self)@,
            final(self)@.dom() == old(self)@.dom(),
            forall|c: Seq<char>| #[trigger]
                old(self)@.contains_key(c) ==> {
                    &&& final(self)@[c].expires_at >= old(self)@[c].expires_at
                    &&& final(self)@[c].tokens == old(self)@[c].tokens
                    &&& c != client_id@ ==> final(self)@[c] == old(self)@[c]
                },
            is_live(old(self)@, client_id@, now as int) ==> final(self)@[client_id@].expires_at
                >= deadline(now as int, old(self).lifetime() as int),
            deadlines_fit(final(self)@),
            final(self).lifetime() == old(self).lifetime(),
    {
        let live = match self.sessions.get(client_id) {
            Some(session) => !session.is_expired(now),
            None => false,
        };
        if live {
            let expiry = expiry_after(now, self.lifetime);
            self.touch(client_id, expiry);
        }
        proof {
            assert(self@.dom() =~= old(self)@.dom());
            Self::lemma_deadlines_fit(*self);
        }
    }

    /// Discards every session whose deadline is reached at `now`, with the
    /// tokens it still holds. Every other session stays as it is.
    pub fn sweep(&mut self, now: Timestamp)
        ensures
            final(self)@ == swept(old(self)@, now as int),
            forall|c: Seq<char>| #[trigger]
                final(self)@.contains_key(c) <==> old(self)@.contains_key(c)
                    && old(self)@[c].expires_at > now,
            forall|c: Seq<char>| #[trigger]
                final(self)@.contains_key(c) ==> final(self)@[c] == old(self)@[c],
            deadlines_fit(final(self)@),
            final(self).lifetime() == old(self).lifetime(),
    {
        let mut kept: StringMap<DownloadClient> = StringMap::new();
        let mut left = self.sessions.len();
        while left > 0
            invariant
                self.lifetime() == old(self).lifetime(),
                self@.dom().finite(),
                left == self@.len(),
                forall|c: Seq<char>| #[trigger]
                    self@.contains_key(c) ==> old(self)@.contains_key(c)
                        && self@[c] == old(self)@[c],
                forall|c: Seq<char>| #[trigger]
                    kept@.contains_key(c) <==> swept(old(self)@, now as int).contains_key(c)
                        && !self@.contains_key(c),
                forall|c: Seq<char>| #[trigger]
                    kept@.contains_key(c) ==> kept@[c] == old(self)@[c],
            decreases left,
        {
            match self.sessions.pop() {
                Some((client_id, session)) => {
                    if !session.is_expired(now) {
                        kept.insert_new(client_id, session);
                    }
                    left = left - 1;
                },
                None => {
                    left = 0;
                },
            }
        }
        assert(kept@ =~= swept(old(self)@, now as int)) by {
            assert(self@.dom() =~= Set::<Seq<char>>::empty());
        }
        self.sessions = kept;
        proof {
            Self::lemma_deadlines_fit(*self);
        }
    }
}

} // verus!
