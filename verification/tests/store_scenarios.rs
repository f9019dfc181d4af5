use elogbook::error::DownloadError;
use elogbook::models::DownloadRequest;
use elogbook::store::SessionStore;
use elogbook::time::{Timestamp, DEFAULT_LIFETIME};

const SECOND: u64 = 1_000_000_000;
const MINUTE: u64 = 60 * SECOND;
const START: Timestamp = 1_700_000_000_000_000_000;

fn text(s: &str) -> String {
    s.to_string()
}

fn photo() -> DownloadRequest {
    DownloadRequest { file_path: text("/data/x.png"), original_name: text("photo.png") }
}

fn file(n: u32) -> DownloadRequest {
    DownloadRequest { file_path: format!("/data/{}.bin", n), original_name: format!("file{}.bin", n) }
}

#[test]
fn token_is_handed_out_once() {
    let mut store = SessionStore::with_lifetime(MINUTE);
    store.register(text("u1"), text("abc123"), photo(), START);

    let first = store.consume(&text("u1"), &text("abc123"), START).unwrap();
    assert_eq!(first.file_path, "/data/x.png");
    assert_eq!(first.original_name, "photo.png");

    let second = store.consume(&text("u1"), &text("abc123"), START);
    assert_eq!(second.unwrap_err(), DownloadError::UnknownOrConsumedToken);
}

#[test]
fn token_is_refused_after_its_lifetime() {
    let mut store = SessionStore::with_lifetime(MINUTE);
    store.register(text("u1"), text("abc123"), photo(), START);

    let late = START + MINUTE as Timestamp + 1;
    assert_eq!(
        store.consume(&text("u1"), &text("abc123"), late).unwrap_err(),
        DownloadError::ExpiredClient
    );
    // The refusal took nothing away: the stale token is still there.
    let session = store.session(&text("u1")).unwrap();
    assert_eq!(session.requests.len(), 1);
    assert!(session.requests.contains_key(&text("abc123")));
}

#[test]
fn token_expires_exactly_at_the_deadline() {
    let mut store = SessionStore::with_lifetime(MINUTE);
    store.register(text("u1"), text("t1"), photo(), START);
    store.register(text("u1"), text("t2"), photo(), START);
    let deadline = START + MINUTE as Timestamp;
    assert_eq!(store.session(&text("u1")).unwrap().expires_at, deadline);

    assert!(store.consume(&text("u1"), &text("t1"), deadline - 1).is_ok());
    assert_eq!(
        store.consume(&text("u1"), &text("t2"), deadline).unwrap_err(),
        DownloadError::ExpiredClient
    );
}

#[test]
fn extension_of_unknown_client_changes_nothing() {
    let mut store = SessionStore::new();
    store.extend(&text("nobody"), START);
    assert_eq!(store.len(), 0);
    assert!(store.session(&text("nobody")).is_none());

    store.register(text("u1"), text("abc123"), photo(), START);
    store.extend(&text("nobody"), START + 5);
    assert_eq!(store.len(), 1);
    assert!(store.session(&text("nobody")).is_none());
    assert_eq!(store.session(&text("u1")).unwrap().expires_at, START + DEFAULT_LIFETIME as Timestamp);
}

#[test]
fn unknown_client_is_told_so() {
    let mut store = SessionStore::new();
    assert_eq!(
        store.consume(&text("u1"), &text("abc123"), START).unwrap_err(),
        DownloadError::UnknownClient
    );
    store.register(text("u1"), text("abc123"), photo(), START);
    assert_eq!(
        store.consume(&text("u2"), &text("abc123"), START).unwrap_err(),
        DownloadError::UnknownClient
    );
    assert_eq!(store.len(), 1);
}

#[test]
fn unknown_token_is_told_so() {
    let mut store = SessionStore::new();
    store.register(text("u1"), text("abc123"), photo(), START);
    assert_eq!(
        store.consume(&text("u1"), &text("abc124"), START).unwrap_err(),
        DownloadError::UnknownOrConsumedToken
    );
    // The token that was not asked for is still good.
    assert!(store.consume(&text("u1"), &text("abc123"), START).is_ok());
}

#[test]
fn token_of_another_client_is_not_handed_out() {
    let mut store = SessionStore::new();
    store.register(text("u1"), text("abc123"), photo(), START);
    store.register(text("u2"), text("zzz999"), file(2), START);
    assert_eq!(
        store.consume(&text("u2"), &text("abc123"), START).unwrap_err(),
        DownloadError::UnknownOrConsumedToken
    );
    assert_eq!(store.consume(&text("u1"), &text("abc123"), START).unwrap().file_path, "/data/x.png");
    assert_eq!(store.consume(&text("u2"), &text("zzz999"), START).unwrap().file_path, "/data/2.bin");
}

#[test]
fn session_outlives_its_last_token() {
    let mut store = SessionStore::with_lifetime(MINUTE);
    store.register(text("u1"), text("abc123"), photo(), START);
    assert!(store.consume(&text("u1"), &text("abc123"), START + 1).is_ok());
    let session = store.session(&text("u1")).unwrap();
    assert_eq!(session.requests.len(), 0);
    assert_eq!(session.expires_at, START + MINUTE as Timestamp);
    store.sweep(START + 2);
    assert_eq!(store.len(), 1);
}

#[test]
fn extension_counts_from_now_and_never_back() {
    let mut store = SessionStore::with_lifetime(MINUTE);
    store.register(text("u1"), text("abc123"), photo(), START);
    let first = START + MINUTE as Timestamp;
    assert_eq!(store.session(&text("u1")).unwrap().expires_at, first);

    // Forty seconds on: one minute from then, not two minutes from the start.
    let later = START + 40 * SECOND as Timestamp;
    store.extend(&text("u1"), later);
    assert_eq!(store.session(&text("u1")).unwrap().expires_at, later + MINUTE as Timestamp);

    // A clock that runs behind does not shorten the session.
    store.extend(&text("u1"), START - 10 * SECOND as Timestamp);
    assert_eq!(store.session(&text("u1")).unwrap().expires_at, later + MINUTE as Timestamp);

    // The token is untouched by all of it.
    assert!(store.consume(&text("u1"), &text("abc123"), later + MINUTE as Timestamp - 1).is_ok());
}

#[test]
fn extension_does_not_bring_expired_tokens_back() {
    let mut store = SessionStore::with_lifetime(MINUTE);
    store.register(text("u1"), text("abc123"), photo(), START);
    let late = START + 2 * MINUTE as Timestamp;
    assert_eq!(
        store.consume(&text("u1"), &text("abc123"), late).unwrap_err(),
        DownloadError::ExpiredClient
    );

    // The session was not swept yet. It is expired, so it is not kept alive:
    // deadline and tokens stay as they are, and the token stays refused.
    store.extend(&text("u1"), late);
    let session = store.session(&text("u1")).unwrap();
    assert_eq!(session.expires_at, START + MINUTE as Timestamp);
    assert_eq!(session.requests.len(), 1);
    assert!(session.requests.contains_key(&text("abc123")));
    assert_eq!(
        store.consume(&text("u1"), &text("abc123"), late).unwrap_err(),
        DownloadError::ExpiredClient
    );
    assert_eq!(
        store.consume(&text("u1"), &text("abc123"), late + 1).unwrap_err(),
        DownloadError::ExpiredClient
    );
    store.sweep(late);
    assert_eq!(store.len(), 0);
}

#[test]
fn extension_at_the_deadline_comes_too_late() {
    let mut store = SessionStore::with_lifetime(MINUTE);
    store.register(text("u1"), text("abc123"), photo(), START);
    let deadline = START + MINUTE as Timestamp;

    // One instant before the deadline the session is live and is kept alive.
    store.extend(&text("u1"), deadline - 1);
    assert_eq!(store.session(&text("u1")).unwrap().requests.len(), 1);
    let moved = deadline - 1 + MINUTE as Timestamp;
    assert_eq!(store.session(&text("u1")).unwrap().expires_at, moved);

    // At the new deadline it is expired: the extension changes nothing.
    store.extend(&text("u1"), moved);
    assert_eq!(store.session(&text("u1")).unwrap().requests.len(), 1);
    assert_eq!(store.session(&text("u1")).unwrap().expires_at, moved);
    assert_eq!(
        store.consume(&text("u1"), &text("abc123"), moved).unwrap_err(),
        DownloadError::ExpiredClient
    );
}

#[test]
fn extension_touches_no_token() {
    let mut store = SessionStore::with_lifetime(MINUTE);
    store.register(text("u1"), text("a"), file(1), START);
    store.register(text("u1"), text("b"), file(2), START);
    store.register(text("u2"), text("c"), file(3), START);
    for (client, at) in [("u1", START + 5), ("u2", START + MINUTE as Timestamp), ("u3", START)] {
        store.extend(&text(client), at);
        assert_eq!(store.len(), 2);
        let first = store.session(&text("u1")).unwrap();
        assert_eq!(first.requests.len(), 2);
        assert_eq!(first.requests.get(&text("a")).unwrap().file_path, "/data/1.bin");
        assert_eq!(first.requests.get(&text("b")).unwrap().file_path, "/data/2.bin");
        let second = store.session(&text("u2")).unwrap();
        assert_eq!(second.requests.len(), 1);
        assert_eq!(second.requests.get(&text("c")).unwrap().file_path, "/data/3.bin");
        assert_eq!(second.expires_at, START + MINUTE as Timestamp);
    }
    assert_eq!(store.session(&text("u1")).unwrap().expires_at, START + 5 + MINUTE as Timestamp);
}

#[test]
fn issuance_does_not_bring_expired_tokens_back() {
    let mut store = SessionStore::with_lifetime(MINUTE);
    store.register(text("u1"), text("stale"), file(1), START);
    store.register(text("u2"), text("other"), file(2), START);
    let late = START + MINUTE as Timestamp;

    store.register(text("u1"), text("fresh"), file(3), late);

    let session = store.session(&text("u1")).unwrap();
    assert_eq!(session.expires_at, late + MINUTE as Timestamp);
    assert_eq!(session.requests.len(), 1);
    assert!(!session.requests.contains_key(&text("stale")));
    assert_eq!(
        store.consume(&text("u1"), &text("stale"), late).unwrap_err(),
        DownloadError::UnknownOrConsumedToken
    );
    assert_eq!(store.consume(&text("u1"), &text("fresh"), late).unwrap().file_path, "/data/3.bin");
    // Another client's session is not touched by it.
    assert_eq!(store.session(&text("u2")).unwrap().requests.len(), 1);
    assert_eq!(store.session(&text("u2")).unwrap().expires_at, START + MINUTE as Timestamp);
}

#[test]
fn issuance_to_a_live_session_keeps_its_tokens() {
    let mut store = SessionStore::with_lifetime(MINUTE);
    store.register(text("u1"), text("first"), file(1), START);
    store.register(text("u1"), text("second"), file(2), START + MINUTE as Timestamp - 1);
    let session = store.session(&text("u1")).unwrap();
    assert_eq!(session.requests.len(), 2);
    assert_eq!(session.expires_at, START + 2 * MINUTE as Timestamp - 1);
    let at = START + MINUTE as Timestamp + 5;
    assert_eq!(store.consume(&text("u1"), &text("first"), at).unwrap().file_path, "/data/1.bin");
    assert_eq!(store.consume(&text("u1"), &text("second"), at).unwrap().file_path, "/data/2.bin");
}

#[test]
fn issuance_moves_the_deadline_forward_only() {
    let mut store = SessionStore::with_lifetime(MINUTE);
    store.register(text("u1"), text("a"), file(1), START);
    store.register(text("u1"), text("b"), file(2), START + 30);
    assert_eq!(store.session(&text("u1")).unwrap().expires_at, START + 30 + MINUTE as Timestamp);
    store.register(text("u1"), text("c"), file(3), START - 30);
    assert_eq!(store.session(&text("u1")).unwrap().expires_at, START + 30 + MINUTE as Timestamp);
    assert_eq!(store.session(&text("u1")).unwrap().requests.len(), 3);
}

#[test]
fn sweep_removes_what_has_expired_and_nothing_else() {
    let mut store = SessionStore::with_lifetime(MINUTE);
    store.register(text("early"), text("e1"), file(1), START);
    store.register(text("edge"), text("e2"), file(2), START + 10);
    store.register(text("late"), text("l1"), file(3), START + 11);
    store.register(text("late"), text("l2"), file(4), START + 11);
    assert_eq!(store.len(), 3);

    // The deadline of "edge" is reached exactly; that of "late" is not.
    let at = START + 10 + MINUTE as Timestamp;
    store.sweep(at);

    assert_eq!(store.len(), 1);
    assert!(store.session(&text("early")).is_none());
    assert!(store.session(&text("edge")).is_none());
    let late = store.session(&text("late")).unwrap();
    assert_eq!(late.expires_at, START + 11 + MINUTE as Timestamp);
    assert_eq!(late.requests.len(), 2);
    assert_eq!(late.requests.get(&text("l1")).unwrap().file_path, "/data/3.bin");
    assert_eq!(late.requests.get(&text("l2")).unwrap().original_name, "file4.bin");

    assert_eq!(
        store.consume(&text("edge"), &text("e2"), START + 10).unwrap_err(),
        DownloadError::UnknownClient
    );
    assert!(store.consume(&text("late"), &text("l1"), at).is_ok());
}

#[test]
fn sweep_of_empty_store_is_harmless() {
    let mut store = SessionStore::new();
    store.sweep(START);
    assert_eq!(store.len(), 0);
    assert_eq!(store.lifetime(), DEFAULT_LIFETIME);
}

#[test]
fn sweep_keeps_every_live_session() {
    let mut store = SessionStore::with_lifetime(MINUTE);
    for n in 0..20u32 {
        store.register(format!("client{}", n), format!("token{}", n), file(n), START + n as Timestamp);
    }
    // Sessions 0..=9 have deadlines START+MINUTE+0 ..= START+MINUTE+9.
    store.sweep(START + MINUTE as Timestamp + 9);
    assert_eq!(store.len(), 10);
    for n in 0..20u32 {
        let found = store.session(&format!("client{}", n));
        assert_eq!(found.is_some(), n >= 10);
        if let Some(session) = found {
            assert_eq!(session.requests.get(&format!("token{}", n)).unwrap().file_path, format!("/data/{}.bin", n));
        }
    }
}

#[test]
fn distinct_tokens_resolve_independently() {
    let mut store = SessionStore::with_lifetime(MINUTE);
    for n in 0..50u32 {
        store.register(text("u1"), format!("token{}", n), file(n), START);
    }
    assert_eq!(store.len(), 1);
    assert_eq!(store.session(&text("u1")).unwrap().requests.len(), 50);
    // Use them in another order than they were issued in.
    for n in (0..50u32).rev() {
        let got = store.consume(&text("u1"), &format!("token{}", n), START + 1).unwrap();
        assert_eq!(got.file_path, format!("/data/{}.bin", n));
        assert_eq!(got.original_name, format!("file{}.bin", n));
    }
    for n in 0..50u32 {
        assert_eq!(
            store.consume(&text("u1"), &format!("token{}", n), START + 1).unwrap_err(),
            DownloadError::UnknownOrConsumedToken
        );
    }
}

#[test]
fn same_token_issued_again_takes_the_new_descriptor() {
    let mut store = SessionStore::new();
    store.register(text("u1"), text("abc123"), file(1), START);
    store.register(text("u1"), text("abc123"), file(2), START);
    assert_eq!(store.session(&text("u1")).unwrap().requests.len(), 1);
    assert_eq!(store.consume(&text("u1"), &text("abc123"), START).unwrap().file_path, "/data/2.bin");
}

#[test]
fn remove_token_checks_and_removes() {
    let mut store = SessionStore::with_lifetime(MINUTE);
    store.register(text("u1"), text("abc123"), photo(), START);
    assert!(store.remove_token(&text("u2"), &text("abc123"), START).is_none());
    assert!(store.remove_token(&text("u1"), &text("nope"), START).is_none());
    assert!(store.remove_token(&text("u1"), &text("abc123"), START + MINUTE as Timestamp).is_none());
    let got = store.remove_token(&text("u1"), &text("abc123"), START + MINUTE as Timestamp - 1).unwrap();
    assert_eq!(got.original_name, "photo.png");
    assert!(store.remove_token(&text("u1"), &text("abc123"), START).is_none());
}

#[test]
fn get_or_create_makes_an_empty_session_once() {
    let mut store = SessionStore::new();
    {
        let session = store.get_or_create(&text("u1"), START);
        assert_eq!(session.expires_at, START);
        assert_eq!(session.requests.len(), 0);
    }
    // Nothing is live yet: the tentative deadline is already reached.
    assert_eq!(
        store.consume(&text("u1"), &text("abc123"), START).unwrap_err(),
        DownloadError::ExpiredClient
    );
    store.register(text("u1"), text("abc123"), photo(), START);
    {
        let session = store.get_or_create(&text("u1"), START + 99);
        assert_eq!(session.expires_at, START + DEFAULT_LIFETIME as Timestamp);
        assert_eq!(session.requests.len(), 1);
    }
    assert_eq!(store.len(), 1);
}

#[test]
fn touch_moves_forward_and_ignores_strangers() {
    let mut store = SessionStore::new();
    store.touch(&text("u1"), START);
    assert_eq!(store.len(), 0);
    store.get_or_create(&text("u1"), START);
    store.touch(&text("u1"), START + 7);
    assert_eq!(store.session(&text("u1")).unwrap().expires_at, START + 7);
    store.touch(&text("u1"), START + 3);
    assert_eq!(store.session(&text("u1")).unwrap().expires_at, START + 7);
    store.touch(&text("u1"), START + 7);
    assert_eq!(store.session(&text("u1")).unwrap().expires_at, START + 7);
}

#[test]
fn deadline_stops_at_the_last_instant() {
    let mut store = SessionStore::with_lifetime(MINUTE);
    store.register(text("u1"), text("abc123"), photo(), Timestamp::MAX - 5);
    assert_eq!(store.session(&text("u1")).unwrap().expires_at, Timestamp::MAX);
    assert!(store.consume(&text("u1"), &text("abc123"), Timestamp::MAX - 1).is_ok());
}

#[test]
fn store_remembers_its_lifetime() {
    assert_eq!(SessionStore::new().lifetime(), 300 * SECOND);
    assert_eq!(SessionStore::with_lifetime(MINUTE).lifetime(), MINUTE);
    let mut store = SessionStore::with_lifetime(0);
    store.register(text("u1"), text("abc123"), photo(), START);
    // With no lifetime at all the token is expired as soon as it is issued.
    assert_eq!(
        store.consume(&text("u1"), &text("abc123"), START).unwrap_err(),
        DownloadError::ExpiredClient
    );
}
