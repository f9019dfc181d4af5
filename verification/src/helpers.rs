//! The four services of the download store, as the journal's request
//! handlers call them. Each reads the system clock once and then acts on the
//! store as of that instant.

use crate::error::DownloadError;
use crate::models::{
    descriptor_of, Attachment, DownloadParams, DownloadRequest, ExtendDownloadParams,
};
use crate::store::{
    consumed, deadlines_fit, extended, is_live, outcome, outcome_view, registered, swept,
    SessionStore,
};
use crate::time::{is_clock_reading, now};
use crate::token::{fresh_token, generate_token, is_token};
use vstd::prelude::*;

verus! {

/// Discards the sessions whose deadline is reached by now.
pub fn clean_expired_download_request(store: &mut SessionStore)
    ensures
        exists|at: int| is_clock_reading(at) && final(store)@ == swept(old(store)@, at),
        forall|c: Seq<char>| #[trigger]
            final(store)@.contains_key(c) ==> old(store)@.contains_key(c) && final(store)@[c]
                == old(store)@[c],
        deadlines_fit(final(store)@),
        final(store).lifetime() == old(store).lifetime(),
{
    let at = now();
    store.sweep(at);
}

/// Keeps the client named in `params` alive for one more lifetime from now,
/// and touches no token. A client that the store does not know, or whose
/// session has expired by now, is no error: the store stays as it is.
pub fn extend_download_lifetime(store: &mut SessionStore, params: &ExtendDownloadParams)
    ensures
        exists|at: int|
            is_clock_reading(at) && final(store)@ == extended(
                old(store)@,
                params.client@,
                at,
                old(store).lifetime() as int,
            ),
        !old(store)@.contains_key(params.client@) ==> final(store)@ == old(store)@,
        forall|c: Seq<char>| #[trigger]
            old(store)@.contains_key(c) ==> {
                &&& final(store)@.contains_key(c)
                &&& final(store)@[c].expires_at >= old(store)@[c].expires_at
                &&& final(store)@[c].tokens == old(store)@[c].tokens
                &&& c != params.client@ ==> final(store)@[c] == old(store)@[c]
            },
        forall|c: Seq<char>| #[trigger]
            final(store)@.contains_key(c) ==> old(store)@.contains_key(c),
        deadlines_fit(final(store)@),
        final(store).lifetime() == old(store).lifetime(),
{
    let at = now();
    store.extend(&params.client, at);
}

/// Issues a new token with which `client_hash` can download `attachment`, and
/// hands the token back. The token is made of letters and digits, drawn at
/// random, and is none that the client's live session holds already; it is
/// registered as of now. A session that has expired by now starts anew, with
/// this token alone.
pub fn generate_temporary_download_url(
    store: &mut SessionStore,
    client_hash: String,
    attachment: &Attachment,
) -> (token: String)
    ensures
        is_token(token@),
        exists|at: int|
            {
                &&& is_clock_reading(at)
                &&& is_live(old(store)@, client_hash@, at)
                    ==> !old(store)@[client_hash@].tokens.contains_key(token@)
                &&& final(store)@ == registered(
                    old(store)@,
                    client_hash@,
                    token@,
                    descriptor_of(*attachment),
                    at,
                    old(store).lifetime() as int,
                )
            },
        final(store)@.contains_key(client_hash@),
        final(store)@[client_hash@].tokens.contains_key(token@),
        final(store)@[client_hash@].tokens[token@] == descriptor_of(*attachment),
        deadlines_fit(final(store)@),
        final(store).lifetime() == old(store).lifetime(),
{
    let at = now();
    let token = match store.session(&client_hash) {
        Some(session) => if session.is_expired(at) {
            generate_token()
        } else {
            fresh_token(&session.requests)
        },
        None => generate_token(),
    };
    let download_request = DownloadRequest::for_attachment(attachment);
    store.register(client_hash, token.clone(), download_request, at);
    token
}

/// Uses the token named in `params` as of now, and hands back what to
/// stream: where the file lies and the name to present it under. The token is
/// gone once this returns `Ok`, whether or not the file is then read.
pub fn download_file(store: &mut SessionStore, params: &DownloadParams) -> (result: Result<
    DownloadRequest,
    DownloadError,
>)
    ensures
        exists|at: int|
            is_clock_reading(at) && outcome_view(result) == outcome(
                old(store)@,
                params.client@,
                params.token@,
                at,
            ) && final(store)@ == consumed(old(store)@, params.client@, params.token@, at),
        result is Err ==> final(store)@ == old(store)@,
        result matches Ok(request) ==> {
            &&& old(store)@.contains_key(params.client@)
            &&& old(store)@[params.client@].tokens.contains_key(params.token@)
            &&& request@ == old(store)@[params.client@].tokens[params.token@]
            &&& !final(store)@[params.client@].tokens.contains_key(params.token@)
        },
        !old(store)@.contains_key(params.client@) ==> result is Err && result->Err_0
            == DownloadError::UnknownClient,
        result is Err ==> result->Err_0 != DownloadError::FileUnavailable,
        deadlines_fit(final(store)@),
        final(store).lifetime() == old(store).lifetime(),
{
    let at = now();
    store.consume(&params.client, &params.token, at)
}

} // verus!
