//! What a listing of the journal shows of each entry: its attachments by
//! token, never by path.

use crate::helpers::generate_temporary_download_url;
use crate::models::{
    descriptor_of, Attachment, AttachmentResponse, Descriptor, Entry, EntryResponse,
};
use crate::store::{in_close_order, is_live, issued_all, registered, SessionStore};
use crate::time::{deadline, is_clock_reading};
use crate::token::is_token;
use vstd::prelude::*;

verus! {

/// Whether `response` is what a client is told of `attachment`: the same
/// identifier, type and name, and a token in place of the path.
pub open spec fn answers(response: AttachmentResponse, attachment: Attachment) -> bool {
    &&& response.id == attachment.id
    &&& response.mime@ == attachment.mime@
    &&& response.original_name@ == attachment.original_name@
    &&& is_token(response.download_token@)
}

/// The tokens that `responses` carry, in order.
pub open spec fn tokens_of(responses: Seq<AttachmentResponse>) -> Seq<Seq<char>> {
    responses.map_values(|r: AttachmentResponse| r.download_token@)
}

/// The descriptors under which `attachments` are downloaded, in order.
pub open spec fn descriptors_of(attachments: Seq<Attachment>) -> Seq<Descriptor> {
    attachments.map_values(|a: Attachment| descriptor_of(a))
}

/// Whether each of `times` is an instant that a reading of the clock can
/// name.
pub open spec fn are_clock_readings(times: Seq<int>) -> bool {
    forall|i: int| 0 <= i < times.len() ==> is_clock_reading(#[trigger] times[i])
}

/// The attachments of `entry`, none where it has no list of them.
pub open spec fn attachments_of(entry: Entry) -> Seq<Attachment> {
    match entry.attachments {
        Some(attachments) => attachments@,
        None => Seq::empty(),
    }
}

/// Issues one token to `client_hash` for each of `attachments`, and tells of
/// each attachment what a client may know. The tokens of one answer differ
/// from one another, unless the session expired between two of them. The
/// store ends as if the tokens had been issued one after the other, each at
/// a reading of the clock.
pub fn attachments_response(
    store: &mut SessionStore,
    client_hash: &String,
    attachments: &Vec<Attachment>,
) -> (responses: Vec<AttachmentResponse>)
    ensures
        responses.len() == attachments.len(),
        forall|i: int|
            0 <= i < responses.len() ==> answers(#[trigger] responses[i], attachments[i]),
        exists|times: Seq<int>|
            {
                &&& times.len() == attachments.len()
                &&& are_clock_readings(times)
                &&& final(store)@ == #[trigger] issued_all(
                    old(store)@,
                    old(store).lifetime() as int,
                    client_hash@,
                    tokens_of(responses@),
                    descriptors_of(attachments@),
                    times,
                )
                &&& in_close_order(times, old(store).lifetime() as int) ==> tokens_of(
                    responses@,
                ).no_duplicates()
            },
        final(store).lifetime() == old(store).lifetime(),
{
    let mut responses: Vec<AttachmentResponse> = Vec::new();
    let ghost mut times: Seq<int> = Seq::empty();
    let mut i: usize = 0;
    while i < attachments.len()
        invariant
            i <= attachments.len(),
            responses.len() == i,
            times.len() == i,
            are_clock_readings(times),
            forall|j: int| 0 <= j < i ==> answers(#[trigger] responses[j], attachments[j]),
            store@ == issued_all(
                old(store)@,
                old(store).lifetime() as int,
                client_hash@,
                tokens_of(responses@),
                descriptors_of(attachments@.subrange(0, i as int)),
                times,
            ),
            store.lifetime() == old(store).lifetime(),
            i > 0 ==> store@.contains_key(client_hash@) && store@[client_hash@].expires_at
                >= deadline(times[i - 1], old(store).lifetime() as int),
            in_close_order(times, old(store).lifetime() as int) ==> {
                &&& tokens_of(responses@).no_duplicates()
                &&& forall|j: int|
                    0 <= j < i ==> store@.contains_key(client_hash@)
                        && store@[client_hash@].tokens.contains_key(
                        #[trigger] tokens_of(responses@)[j],
                    )
            },
        decreases attachments.len() - i,
    {
        let attachment = &attachments[i];
        let ghost before = store@;
        let ghost lifetime = old(store).lifetime() as int;
        let download_token = generate_temporary_download_url(
            store,
            client_hash.clone(),
            attachment,
        );
        let ghost at = choose|at: int|
            {
                &&& is_clock_reading(at)
                &&& is_live(before, client_hash@, at) ==> !before[client_hash@].tokens.contains_key(
                    download_token@,
                )
                &&& store@ == registered(
                    before,
                    client_hash@,
                    download_token@,
                    descriptor_of(*attachment),
                    at,
                    lifetime,
                )
            };
        let ghost earlier = responses@;
        let ghost token = download_token@;
        responses.push(
            AttachmentResponse {
                id: attachment.id,
                mime: attachment.mime.clone(),
                original_name: attachment.original_name.clone(),
                download_token,
            },
        );
        proof {
            let tokens = tokens_of(responses@);
            let descriptors = descriptors_of(attachments@.subrange(0, i + 1));
            assert(tokens.drop_last() =~= tokens_of(earlier));
            assert(descriptors.drop_last() =~= descriptors_of(attachments@.subrange(0, i as int)));
            assert(times.push(at).drop_last() =~= times);
            assert(descriptors.last() == descriptor_of(*attachment));
            if in_close_order(times.push(at), lifetime) {
                // The session did not expire since the token before: it
                // still holds every token of this answer, so the new one,
                // which it did not hold, is none of them.
                assert(in_close_order(times, lifetime)) by {
                    assert forall|j: int| 0 < j < times.len() implies #[trigger] times[j]
                        < deadline(times[j - 1], lifetime) by {
                        assert(times.push(at)[j] == times[j]);
                        assert(times.push(at)[j - 1] == times[j - 1]);
                    }
                }
                if i > 0 {
                    assert(times.push(at)[i as int] == at);
                    assert(times.push(at)[i - 1] == times[i - 1]);
                    assert(is_live(before, client_hash@, at));
                }
                assert forall|j: int| 0 <= j < i implies tokens[j] != token
                    && store@[client_hash@].tokens.contains_key(#[trigger] tokens[j]) by {
                    assert(tokens[j] == tokens_of(earlier)[j]);
                }
                assert(tokens[i as int] == token);
                assert(tokens.no_duplicates()) by {
                    assert forall|a: int, b: int|
                        0 <= a < tokens.len() && 0 <= b < tokens.len() && a != b implies tokens[a]
                        != tokens[b] by {
                        if a < i && b < i {
                            assert(tokens_of(earlier)[a] == tokens[a]);
                            assert(tokens_of(earlier)[b] == tokens[b]);
                        }
                    }
                }
            }
            times = times.push(at);
        }
        i += 1;
    }
    assert(attachments@.subrange(0, i as int) =~= attachments@);
    responses
}

/// Turns a stored entry into what `client_hash` is shown of it, issuing one
/// token for each attachment.
pub fn entry_response(store: &mut SessionStore, client_hash: &String, entry: Entry) -> (response:
    EntryResponse)
    ensures
        response.id is Some == entry.id is Some,
        response.id is Some ==> response.id->0@ == entry.id->0@,
        response.content@ == entry.content@,
        response.created_at == entry.created_at,
        response.attachments.len() == attachments_of(entry).len(),
        forall|i: int|
            0 <= i < response.attachments.len() ==> answers(
                #[trigger] response.attachments[i],
                attachments_of(entry)[i],
            ),
        exists|times: Seq<int>|
            {
                &&& times.len() == attachments_of(entry).len()
                &&& are_clock_readings(times)
                &&& final(store)@ == #[trigger] issued_all(
                    old(store)@,
                    old(store).lifetime() as int,
                    client_hash@,
                    tokens_of(response.attachments@),
                    descriptors_of(attachments_of(entry)),
                    times,
                )
                &&& in_close_order(times, old(store).lifetime() as int) ==> tokens_of(
                    response.attachments@,
                ).no_duplicates()
            },
        final(store).lifetime() == old(store).lifetime(),
{
    let attachments = match &entry.attachments {
        Some(attachments) => attachments_response(store, client_hash, attachments),
        None => {
            assert(store@ == issued_all(
                old(store)@,
                old(store).lifetime() as int,
                client_hash@,
                tokens_of(Seq::<AttachmentResponse>::empty()),
                descriptors_of(Seq::<Attachment>::empty()),
                Seq::<int>::empty(),
            ));
            Vec::new()
        },
    };
    EntryResponse {
        id: entry.id,
        content: entry.content,
        created_at: entry.created_at,
        attachments,
    }
}

} // verus!
