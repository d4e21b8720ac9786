use x11::bytes::Reader;
use x11::display::{
    classify_frame, reply_extra_len, Connection, DispatchError, DispatchOutcome, Message,
    ReplyKind, UnmatchedErrorPolicy,
};
use x11::error::Error;
use x11::event::Event;
use x11::reply;

fn error_frame(code: u8, seq: u16, datum: u32) -> Vec<u8> {
    let mut f = vec![0u8; 32];
    f[0] = 0;
    f[1] = code;
    f[2..4].copy_from_slice(&seq.to_be_bytes());
    f[4..8].copy_from_slice(&datum.to_be_bytes());
    f
}

fn reply_frame(seq: u16, extra_words: u32) -> Vec<u8> {
    let mut f = vec![0u8; 32 + 4 * extra_words as usize];
    f[0] = 1;
    f[2..4].copy_from_slice(&seq.to_be_bytes());
    f[4..8].copy_from_slice(&extra_words.to_be_bytes());
    f
}

#[test]
fn frames_classify_by_their_first_byte() {
    match classify_frame(error_frame(3, 9, 0xdead)) {
        Message::Error(seq, e) => {
            assert_eq!(seq, 9);
            assert_eq!(e, Error::Window(0xdead));
        }
        other => panic!("not an error: {:?}", other),
    }
    match classify_frame(reply_frame(7, 0)) {
        Message::Reply(seq, payload) => {
            assert_eq!(seq, 7);
            assert_eq!(payload.len(), 32);
        }
        other => panic!("not a reply: {:?}", other),
    }
    let mut ev = vec![0u8; 32];
    ev[0] = 12;
    ev[4..8].copy_from_slice(&0x123u32.to_be_bytes());
    ev[8..10].copy_from_slice(&4u16.to_be_bytes());
    ev[10..12].copy_from_slice(&5u16.to_be_bytes());
    ev[12..14].copy_from_slice(&6u16.to_be_bytes());
    ev[14..16].copy_from_slice(&7u16.to_be_bytes());
    ev[16..18].copy_from_slice(&1u16.to_be_bytes());
    match classify_frame(ev) {
        Message::Event(Event::Expose { window, x, y, width, height, count }) => {
            assert_eq!((window, x, y, width, height, count), (0x123, 4, 5, 6, 7, 1));
        }
        other => panic!("not an expose event: {:?}", other),
    }
}

#[test]
fn unknown_event_codes_keep_the_raw_frame() {
    let mut f = vec![0u8; 32];
    f[0] = 200;
    f[5] = 0x5a;
    match classify_frame(f.clone()) {
        Message::Event(Event::Unknown { code, raw }) => {
            assert_eq!(code, 200);
            assert_eq!(raw, f);
        }
        other => panic!("not an unknown event: {:?}", other),
    }
}

#[test]
fn map_notify_decodes() {
    let mut f = vec![0u8; 32];
    f[0] = 19;
    f[4..8].copy_from_slice(&0x11u32.to_be_bytes());
    f[8..12].copy_from_slice(&0x22u32.to_be_bytes());
    f[12] = 1;
    match classify_frame(f) {
        Message::Event(Event::MapNotify { event, window, override_redirect }) => {
            assert_eq!((event, window, override_redirect), (0x11, 0x22, true));
        }
        other => panic!("not a map notification: {:?}", other),
    }
}

#[test]
fn each_waiter_resolves_with_its_own_reply() {
    let mut c = Connection::new(UnmatchedErrorPolicy::Fatal);
    let kinds = [
        ReplyKind::GetWindowAttributes,
        ReplyKind::QueryTree,
        ReplyKind::GetWindowAttributes,
    ];
    let mut seqs: Vec<u16> = Vec::new();
    for kind in kinds {
        assert!(c.can_register());
        seqs.push(c.register_request(kind));
    }
    assert_eq!(seqs, vec![1, 2, 3]);
    // one reply per request, in submission order
    for (i, seq) in seqs.iter().enumerate() {
        match c.handle_frame(reply_frame(*seq, 0)) {
            Ok(DispatchOutcome::ReplyResolved(s, kind, payload)) => {
                assert_eq!(s, *seq);
                assert_eq!(kind, kinds[i]);
                assert_eq!(payload.len(), 32);
            }
            other => panic!("reply did not resolve its waiter: {:?}", other),
        }
    }
    // all waiters resolved: the same reply now desynchronizes
    assert_eq!(
        c.handle_frame(reply_frame(1, 0)),
        Err(DispatchError::Desync(1))
    );
}

#[test]
fn matched_error_resolves_the_waiter() {
    let mut c = Connection::new(UnmatchedErrorPolicy::Fatal);
    let seq = c.register_request(ReplyKind::QueryTree);
    match c.handle_frame(error_frame(3, seq, 0x77)) {
        Ok(DispatchOutcome::ErrorResolved(s, e)) => {
            assert_eq!(s, seq);
            assert_eq!(e, Error::Window(0x77));
        }
        other => panic!("error did not resolve its waiter: {:?}", other),
    }
}

#[test]
fn unmatched_error_surfaces_out_of_band() {
    let mut c = Connection::new(UnmatchedErrorPolicy::OutOfBand);
    c.register_request(ReplyKind::QueryTree);
    match c.handle_frame(error_frame(10, 99, 0)) {
        Ok(DispatchOutcome::OutOfBandError(seq, e)) => {
            assert_eq!(seq, 99);
            assert_eq!(e, Error::Access);
        }
        other => panic!("unmatched error was not surfaced: {:?}", other),
    }
    // the pending waiter is untouched and still resolves
    match c.handle_frame(reply_frame(1, 0)) {
        Ok(DispatchOutcome::ReplyResolved(s, _, _)) => assert_eq!(s, 1),
        other => panic!("waiter was lost: {:?}", other),
    }
}

#[test]
fn unmatched_error_faults_under_the_fatal_policy() {
    let mut c = Connection::new(UnmatchedErrorPolicy::Fatal);
    assert_eq!(
        c.handle_frame(error_frame(10, 99, 0)),
        Err(DispatchError::Desync(99))
    );
}

#[test]
fn events_never_touch_the_pending_table() {
    let mut c = Connection::new(UnmatchedErrorPolicy::Fatal);
    let seq = c.register_request(ReplyKind::GetWindowAttributes);
    let mut ev = vec![0u8; 32];
    ev[0] = 200;
    // an event whose bytes 2..4 happen to spell the pending number
    ev[2..4].copy_from_slice(&seq.to_be_bytes());
    match c.handle_frame(ev) {
        Ok(DispatchOutcome::Event(_)) => {}
        other => panic!("not an event: {:?}", other),
    }
    match c.handle_frame(reply_frame(seq, 0)) {
        Ok(DispatchOutcome::ReplyResolved(s, _, _)) => assert_eq!(s, seq),
        other => panic!("waiter was lost: {:?}", other),
    }
}

#[test]
fn sequence_counter_wraps_to_one() {
    let mut c = Connection::new(UnmatchedErrorPolicy::Fatal);
    for expected in 1..=65535u16 {
        assert_eq!(c.allocate_sequence(), expected);
    }
    // after 65535 the counter hands out 1 again, never 0
    assert_eq!(c.allocate_sequence(), 1);
    assert_eq!(c.allocate_sequence(), 2);
}

#[test]
fn wrap_does_not_reuse_a_pending_number() {
    let mut c = Connection::new(UnmatchedErrorPolicy::Fatal);
    let seq = c.register_request(ReplyKind::QueryTree); // number 1 is in flight
    assert_eq!(seq, 1);
    for _ in 2..=65535u32 {
        c.allocate_sequence();
    }
    // the counter is about to wrap; 1 is still held by the unresolved entry
    assert!(!c.can_register());
    match c.handle_frame(reply_frame(1, 0)) {
        Ok(DispatchOutcome::ReplyResolved(s, _, _)) => assert_eq!(s, 1),
        other => panic!("waiter was lost: {:?}", other),
    }
    // resolved: the wrapped number is free again
    assert!(c.can_register());
    assert_eq!(c.register_request(ReplyKind::QueryTree), 1);
}

#[test]
fn reply_extra_length_counts_words() {
    assert_eq!(reply_extra_len(&reply_frame(1, 0)), 0);
    assert_eq!(reply_extra_len(&reply_frame(1, 2)), 8);
}

#[test]
fn query_tree_reply_decodes() {
    let mut f = reply_frame(5, 2);
    f[8..12].copy_from_slice(&0x123u32.to_be_bytes()); // root
    f[12..16].copy_from_slice(&0u32.to_be_bytes()); // no parent
    f[16..18].copy_from_slice(&2u16.to_be_bytes()); // two children
    f[32..36].copy_from_slice(&0x0020_0001u32.to_be_bytes());
    f[36..40].copy_from_slice(&0x0020_0002u32.to_be_bytes());
    let mut r = Reader::new(f);
    let q = reply::QueryTree::read(&mut r).unwrap();
    assert_eq!(q.sequence_number, 5);
    assert_eq!(q.root, 0x123);
    assert_eq!(q.parent, None);
    assert_eq!(q.children, vec![0x0020_0001, 0x0020_0002]);
    assert_eq!(r.left(), 0);
}

#[test]
fn query_tree_reply_with_parent() {
    let mut f = reply_frame(1, 0);
    f[8..12].copy_from_slice(&0x1u32.to_be_bytes());
    f[12..16].copy_from_slice(&0x2u32.to_be_bytes());
    let mut r = Reader::new(f);
    let q = reply::QueryTree::read(&mut r).unwrap();
    assert_eq!(q.parent, Some(2));
    assert_eq!(q.children, Vec::<u32>::new());
}

#[test]
fn interleaved_stream_preserves_correlation() {
    let mut c = Connection::new(UnmatchedErrorPolicy::OutOfBand);
    let s1 = c.register_request(ReplyKind::QueryTree);
    let s2 = c.register_request(ReplyKind::GetWindowAttributes);
    // an event arrives first
    let mut ev = vec![0u8; 32];
    ev[0] = 19;
    assert!(matches!(c.handle_frame(ev), Ok(DispatchOutcome::Event(_))));
    // then the first request fails
    match c.handle_frame(error_frame(8, s1, 0)) {
        Ok(DispatchOutcome::ErrorResolved(s, e)) => {
            assert_eq!(s, s1);
            assert_eq!(e, Error::Match);
        }
        other => panic!("error did not resolve its waiter: {:?}", other),
    }
    // an unmatched error passes out of band without touching the second waiter
    assert!(matches!(
        c.handle_frame(error_frame(1, 999, 0)),
        Ok(DispatchOutcome::OutOfBandError(999, Error::Request))
    ));
    // the second request's reply still resolves its own waiter
    match c.handle_frame(reply_frame(s2, 1)) {
        Ok(DispatchOutcome::ReplyResolved(s, kind, payload)) => {
            assert_eq!(s, s2);
            assert_eq!(kind, ReplyKind::GetWindowAttributes);
            assert_eq!(payload.len(), 36);
        }
        other => panic!("reply did not resolve its waiter: {:?}", other),
    }
}
