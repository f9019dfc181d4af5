//! What the store promises across several operations, proved over the
//! mathematical values of its states.

use crate::error::DownloadError;
use crate::models::Descriptor;
use crate::store::{
    consumed, extended, in_close_order, is_live, issued_all, opened, outcome, registered, swept,
    touched, Sessions,
};
use crate::time::deadline;
use vstd::prelude::*;

verus! {

/// One operation on the store, with its arguments.
pub enum Step {
    /// A client is made known at `now`.
    Open { client: Seq<char>, now: int },
    /// The deadline of a client is moved forward to `new_expiry`.
    Touch { client: Seq<char>, new_expiry: int },
    /// A token is issued at `now`.
    Register { client: Seq<char>, token: Seq<char>, descriptor: Descriptor, now: int },
    /// A token is used at `now`.
    Consume { client: Seq<char>, token: Seq<char>, now: int },
    /// A client asks at `now` to be kept alive.
    Extend { client: Seq<char>, now: int },
    /// Expired sessions are discarded at `now`.
    Sweep { now: int },
}

/// The state that one operation leads to.
pub open spec fn after(sessions: Sessions, lifetime: int, step: Step) -> Sessions {
    match step {
        Step::Open { client, now } => opened(sessions, client, now),
        Step::Touch { client, new_expiry } => touched(sessions, client, new_expiry),
        Step::Register { client, token, descriptor, now } => registered(
            sessions,
            client,
            token,
            descriptor,
            now,
            lifetime,
        ),
        Step::Consume { client, token, now } => consumed(sessions, client, token, now),
        Step::Extend { client, now } => extended(sessions, client, now, lifetime),
        Step::Sweep { now } => swept(sessions, now),
    }
}

/// The state that a run of operations leads to, the first of them first.
pub open spec fn after_all(sessions: Sessions, lifetime: int, steps: Seq<Step>) -> Sessions
    decreases steps.len(),
{
    if steps.len() == 0 {
        sessions
    } else {
        after(after_all(sessions, lifetime, steps.drop_last()), lifetime, steps.last())
    }
}

/// Whether `client` holds `token` in `sessions`.
pub open spec fn holds(sessions: Sessions, client: Seq<char>, token: Seq<char>) -> bool {
    sessions.contains_key(client) && sessions[client].tokens.contains_key(token)
}

/// Whether `step` issues `token` to `client`.
pub open spec fn issues(step: Step, client: Seq<char>, token: Seq<char>) -> bool {
    step matches Step::Register { client: c, token: t, .. } && c == client && t == token
}

/// A token that is issued and then used before the deadline of its session
/// is handed out by that use, with the descriptor it was issued for. A
/// second use finds it gone: it is refused as unknown or consumed while the
/// session is live, and as expired from the deadline on.
pub proof fn lemma_single_use(
    sessions: Sessions,
    lifetime: int,
    client: Seq<char>,
    token: Seq<char>,
    descriptor: Descriptor,
    issued_at: int,
    used_at: int,
    again_at: int,
)
    requires
        is_live(
            registered(sessions, client, token, descriptor, issued_at, lifetime),
            client,
            used_at,
        ),
    ensures
        ({
            let issued = registered(sessions, client, token, descriptor, issued_at, lifetime);
            let used = consumed(issued, client, token, used_at);
            &&& outcome(issued, client, token, used_at) == Ok::<Descriptor, DownloadError>(
                descriptor,
            )
            &&& !holds(used, client, token)
            &&& outcome(used, client, token, again_at) == if is_live(used, client, again_at) {
                Err::<Descriptor, DownloadError>(DownloadError::UnknownOrConsumedToken)
            } else {
                Err::<Descriptor, DownloadError>(DownloadError::ExpiredClient)
            }
        }),
{
}

/// A use within the token's lifetime comes before the deadline: a token
/// issued at `issued_at` is handed out at every instant from then until one
/// lifetime later.
pub proof fn lemma_usable_within_lifetime(
    sessions: Sessions,
    lifetime: int,
    client: Seq<char>,
    token: Seq<char>,
    descriptor: Descriptor,
    issued_at: int,
    used_at: int,
)
    requires
        used_at < deadline(issued_at, lifetime),
    ensures
        outcome(
            registered(sessions, client, token, descriptor, issued_at, lifetime),
            client,
            token,
            used_at,
        ) == Ok::<Descriptor, DownloadError>(descriptor),
{
}

/// No operation but the issuing of a token puts it into a session: a token
/// that a client does not hold stays out of its reach.
pub proof fn lemma_absent_token_stays_absent(
    sessions: Sessions,
    lifetime: int,
    step: Step,
    client: Seq<char>,
    token: Seq<char>,
)
    requires
        !holds(sessions, client, token),
        !issues(step, client, token),
    ensures
        !holds(after(sessions, lifetime, step), client, token),
{
}

/// A token that has been used is never handed out again, whatever happens
/// to the store afterwards, unless the same token is issued anew to the same
/// client.
pub proof fn lemma_no_replay(
    sessions: Sessions,
    lifetime: int,
    client: Seq<char>,
    token: Seq<char>,
    used_at: int,
    steps: Seq<Step>,
    again_at: int,
)
    requires
        forall|i: int| 0 <= i < steps.len() ==> !issues(#[trigger] steps[i], client, token),
    ensures
        ({
            let later = after_all(
                consumed(sessions, client, token, used_at),
                lifetime,
                steps,
            );
            &&& outcome(sessions, client, token, used_at) is Ok ==> !holds(later, client, token)
                && outcome(later, client, token, again_at) is Err
            &&& outcome(sessions, client, token, used_at) is Ok && is_live(
                later,
                client,
                again_at,
            ) ==> outcome(later, client, token, again_at) == Err::<Descriptor, DownloadError>(
                DownloadError::UnknownOrConsumedToken,
            )
        }),
    decreases steps.len(),
{
    let used = consumed(sessions, client, token, used_at);
    if outcome(sessions, client, token, used_at) is Ok {
        if steps.len() > 0 {
            lemma_no_replay(
                sessions,
                lifetime,
                client,
                token,
                used_at,
                steps.drop_last(),
                again_at,
            );
            lemma_absent_token_stays_absent(
                after_all(used, lifetime, steps.drop_last()),
                lifetime,
                steps.last(),
                client,
                token,
            );
        }
    }
}

/// Whether `step` comes no earlier than `t`, as far as `client` is concerned.
/// A step that is told the present instant is told one that is `t` or later.
/// The bare move of a deadline is told no instant: it must leave `client`
/// alone, or move its deadline no further than `t`.
pub open spec fn not_before(step: Step, client: Seq<char>, t: int) -> bool {
    match step {
        Step::Open { now, .. } => t <= now,
        Step::Touch { client: c, new_expiry } => c != client || new_expiry <= t,
        Step::Register { now, .. } => t <= now,
        Step::Consume { now, .. } => t <= now,
        Step::Extend { now, .. } => t <= now,
        Step::Sweep { now } => t <= now,
    }
}

/// Whether `token` is out of reach of `client` from `t` on: the client does
/// not hold it, or holds it in a session whose deadline is reached at `t`.
pub open spec fn dead_at(sessions: Sessions, client: Seq<char>, token: Seq<char>, t: int) -> bool {
    holds(sessions, client, token) ==> sessions[client].expires_at <= t
}

/// A token that is out of reach from `t` on stays so over every step that
/// comes no earlier than `t` and does not issue that token to that client.
pub proof fn lemma_dead_token_stays_dead(
    sessions: Sessions,
    lifetime: int,
    step: Step,
    client: Seq<char>,
    token: Seq<char>,
    t: int,
)
    requires
        dead_at(sessions, client, token, t),
        !issues(step, client, token),
        not_before(step, client, t),
    ensures
        dead_at(after(sessions, lifetime, step), client, token, t),
{
}

/// A token that was once refused because its session had expired is never
/// handed out again: not after an extension, not after a new token is issued
/// to the same client, not after any run of steps that come no earlier than
/// the refusal, unless the same token is issued anew to the same client.
pub proof fn lemma_no_revival(
    sessions: Sessions,
    lifetime: int,
    client: Seq<char>,
    token: Seq<char>,
    refused_at: int,
    steps: Seq<Step>,
    again_at: int,
)
    requires
        outcome(sessions, client, token, refused_at) == Err::<Descriptor, DownloadError>(
            DownloadError::ExpiredClient,
        ),
        forall|i: int|
            0 <= i < steps.len() ==> !issues(#[trigger] steps[i], client, token) && not_before(
                steps[i],
                client,
                refused_at,
            ),
        refused_at <= again_at,
    ensures
        dead_at(after_all(sessions, lifetime, steps), client, token, refused_at),
        outcome(after_all(sessions, lifetime, steps), client, token, again_at) is Err,
    decreases steps.len(),
{
    if steps.len() > 0 {
        lemma_no_revival(
            sessions,
            lifetime,
            client,
            token,
            refused_at,
            steps.drop_last(),
            again_at,
        );
        lemma_dead_token_stays_dead(
            after_all(sessions, lifetime, steps.drop_last()),
            lifetime,
            steps.last(),
            client,
            token,
            refused_at,
        );
    }
}

/// No operation moves the deadline of a session back: a client that is
/// known before and after an operation has a deadline that is no earlier
/// than it was. Only the sweep makes a client unknown.
pub proof fn lemma_deadline_never_moves_back(
    sessions: Sessions,
    lifetime: int,
    step: Step,
    client: Seq<char>,
)
    requires
        sessions.contains_key(client),
    ensures
        step !is Sweep ==> after(sessions, lifetime, step).contains_key(client),
        after(sessions, lifetime, step).contains_key(client) ==> after(
            sessions,
            lifetime,
            step,
        )[client].expires_at >= sessions[client].expires_at,
{
}

/// Keeping a client alive never moves a deadline back, for whichever client
/// it is asked, and touches no token: no session is lost or gained, every
/// session keeps its tokens, and no other client's session changes. A client
/// that the store does not know, or whose deadline is reached at `now`,
/// leaves the store as it is.
pub proof fn lemma_extension_moves_forward(
    sessions: Sessions,
    lifetime: int,
    client: Seq<char>,
    now: int,
)
    ensures
        ({
            let kept_alive = extended(sessions, client, now, lifetime);
            &&& kept_alive.dom() == sessions.dom()
            &&& forall|c: Seq<char>| #[trigger]
                sessions.contains_key(c) ==> kept_alive[c].expires_at >= sessions[c].expires_at
                    && kept_alive[c].tokens == sessions[c].tokens
            &&& forall|c: Seq<char>| #[trigger]
                sessions.contains_key(c) && c != client ==> kept_alive[c] == sessions[c]
            &&& is_live(sessions, client, now) ==> kept_alive[client].expires_at >= deadline(
                now,
                lifetime,
            )
            &&& !is_live(sessions, client, now) ==> kept_alive == sessions
        }),
{
    let kept_alive = extended(sessions, client, now, lifetime);
    assert(kept_alive.dom() =~= sessions.dom());
}

/// A sweep at `now` discards exactly the sessions whose deadline is reached
/// at `now`: every other session stays, with its deadline and its tokens.
pub proof fn lemma_sweep_is_exact(sessions: Sessions, now: int)
    ensures
        forall|c: Seq<char>| #[trigger]
            sessions.contains_key(c) && sessions[c].expires_at <= now ==> !swept(
                sessions,
                now,
            ).contains_key(c),
        forall|c: Seq<char>| #[trigger]
            sessions.contains_key(c) && sessions[c].expires_at > now ==> swept(
                sessions,
                now,
            ).contains_key(c) && swept(sessions, now)[c] == sessions[c],
        forall|c: Seq<char>| #[trigger]
            swept(sessions, now).contains_key(c) ==> sessions.contains_key(c),
{
}

/// From the deadline of its session on a token is refused as expired, also
/// when the session still holds it; the refusal leaves the store as it was.
pub proof fn lemma_expired_session_refuses(
    sessions: Sessions,
    client: Seq<char>,
    token: Seq<char>,
    now: int,
)
    requires
        sessions.contains_key(client),
        sessions[client].expires_at <= now,
    ensures
        outcome(sessions, client, token, now) == Err::<Descriptor, DownloadError>(
            DownloadError::ExpiredClient,
        ),
        consumed(sessions, client, token, now) == sessions,
{
}

/// Issuing a token that a live session does not hold adds that one key to
/// its tokens and nothing else: every token it held is still held, with the
/// descriptor it had.
pub proof fn lemma_fresh_issuance_adds_one(
    sessions: Sessions,
    lifetime: int,
    client: Seq<char>,
    token: Seq<char>,
    descriptor: Descriptor,
    now: int,
)
    requires
        is_live(sessions, client, now),
        !sessions[client].tokens.contains_key(token),
    ensures
        ({
            let issued = registered(sessions, client, token, descriptor, now, lifetime);
            &&& issued[client].tokens == sessions[client].tokens.insert(token, descriptor)
            &&& issued[client].tokens.dom() == sessions[client].tokens.dom().insert(token)
            &&& forall|t: Seq<char>| #[trigger]
                sessions[client].tokens.contains_key(t) ==> issued[client].tokens.contains_key(t)
                    && issued[client].tokens[t] == sessions[client].tokens[t] && t != token
            &&& sessions[client].tokens.dom().finite() ==> issued[client].tokens.len()
                == sessions[client].tokens.len() + 1
        }),
{
    let issued = registered(sessions, client, token, descriptor, now, lifetime);
    assert(issued[client].tokens.dom() =~= sessions[client].tokens.dom().insert(token));
}

/// Issuing a token leaves every other live token where it was: those of
/// other clients, and those that the same client holds under another name in
/// a session that is live at `now`.
pub proof fn lemma_issuing_keeps_other_tokens(
    sessions: Sessions,
    lifetime: int,
    client: Seq<char>,
    token: Seq<char>,
    descriptor: Descriptor,
    now: int,
    other_client: Seq<char>,
    other_token: Seq<char>,
)
    requires
        holds(sessions, other_client, other_token),
        other_client != client || (other_token != token && is_live(sessions, client, now)),
    ensures
        ({
            let issued = registered(sessions, client, token, descriptor, now, lifetime);
            &&& holds(issued, other_client, other_token)
            &&& issued[other_client].tokens[other_token]
                == sessions[other_client].tokens[other_token]
        }),
{
}

/// Using a token leaves every other token where it was.
pub proof fn lemma_using_keeps_other_tokens(
    sessions: Sessions,
    client: Seq<char>,
    token: Seq<char>,
    now: int,
    other_client: Seq<char>,
    other_token: Seq<char>,
)
    requires
        holds(sessions, other_client, other_token),
        other_client != client || other_token != token,
    ensures
        ({
            let used = consumed(sessions, client, token, now);
            &&& holds(used, other_client, other_token)
            &&& used[other_client].tokens[other_token]
                == sessions[other_client].tokens[other_token]
            &&& used[other_client].expires_at == sessions[other_client].expires_at
        }),
{
}

/// Tokens issued to one client under distinct names, each before the session
/// could expire after the one before, are all held at once, each with the
/// descriptor it was issued for, and each is handed out at any instant before
/// the deadline that the session then has.
pub proof fn lemma_distinct_tokens_all_resolve(
    sessions: Sessions,
    lifetime: int,
    client: Seq<char>,
    tokens: Seq<Seq<char>>,
    descriptors: Seq<Descriptor>,
    times: Seq<int>,
)
    requires
        tokens.len() == descriptors.len(),
        tokens.len() == times.len(),
        tokens.no_duplicates(),
        in_close_order(times, lifetime),
    ensures
        ({
            let issued = issued_all(sessions, lifetime, client, tokens, descriptors, times);
            &&& tokens.len() > 0 ==> issued.contains_key(client)
            &&& forall|i: int|
                0 <= i < tokens.len() ==> holds(issued, client, #[trigger] tokens[i])
                    && issued[client].tokens[tokens[i]] == descriptors[i]
            &&& forall|i: int, at: int|
                0 <= i < tokens.len() && is_live(issued, client, at) ==> #[trigger] outcome(
                    issued,
                    client,
                    tokens[i],
                    at,
                ) == Ok::<Descriptor, DownloadError>(descriptors[i])
            &&& forall|i: int|
                0 <= i < tokens.len() ==> issued[client].expires_at >= deadline(
                    #[trigger] times[i],
                    lifetime,
                )
        }),
    decreases tokens.len(),
{
    if tokens.len() > 0 {
        let before = issued_all(
            sessions,
            lifetime,
            client,
            tokens.drop_last(),
            descriptors.drop_last(),
            times.drop_last(),
        );
        assert(in_close_order(times.drop_last(), lifetime)) by {
            assert forall|i: int| 0 < i < times.drop_last().len() implies #[trigger]
                times.drop_last()[i] < deadline(times.drop_last()[i - 1], lifetime) by {
                assert(times.drop_last()[i] == times[i]);
                assert(times.drop_last()[i - 1] == times[i - 1]);
            }
        }
        lemma_distinct_tokens_all_resolve(
            sessions,
            lifetime,
            client,
            tokens.drop_last(),
            descriptors.drop_last(),
            times.drop_last(),
        );
        let issued = issued_all(sessions, lifetime, client, tokens, descriptors, times);
        let last = tokens.len() - 1;
        assert(tokens.drop_last().no_duplicates());
        if last > 0 {
            // The session is still live when the last token is issued.
            assert(times[last] < deadline(times[last - 1], lifetime));
            assert(times.drop_last()[last - 1] == times[last - 1]);
            assert(is_live(before, client, times[last]));
        }
        assert(issued == registered(
            before,
            client,
            tokens[last],
            descriptors[last],
            times[last],
            lifetime,
        ));
        assert forall|i: int| 0 <= i < tokens.len() implies holds(
            issued,
            client,
            #[trigger] tokens[i],
        ) && issued[client].tokens[tokens[i]] == descriptors[i] by {
            if i < last {
                assert(tokens.drop_last()[i] == tokens[i]);
                assert(descriptors.drop_last()[i] == descriptors[i]);
                assert(tokens[i] != tokens[last]);
            }
        }
        assert forall|i: int| 0 <= i < tokens.len() implies issued[client].expires_at >= deadline(
            #[trigger] times[i],
            lifetime,
        ) by {
            if i < last {
                assert(times.drop_last()[i] == times[i]);
            }
        }
    }
}

} // verus!
