use borrowbot::api::ModerationOutcome;
use borrowbot::messenger::{assembled_reply, Messenger};
use borrowbot::types::{CommandResponse, UserContext};

const MARKER: &str = " \u{e0000}";

#[test]
fn queue_preserves_fifo_order_across_destinations() {
    let mut m = Messenger::new();
    m.enqueue(String::from("a"), String::from("1"));
    m.enqueue(String::from("b"), String::from("2"));
    m.enqueue(String::from("a"), String::from("3"));
    assert_eq!(
        m.pop_oldest(),
        Some((String::from("a"), String::from("1")))
    );
    assert_eq!(
        m.pop_oldest(),
        Some((String::from("b"), String::from("2")))
    );
    assert_eq!(
        m.pop_oldest(),
        Some((String::from("a"), String::from("3")))
    );
    assert_eq!(m.pop_oldest(), None);
}

#[test]
fn popping_an_empty_queue_yields_nothing() {
    let mut m = Messenger::new();
    assert_eq!(m.pop_oldest(), None);
}

#[test]
fn assembled_reply_prefixes_the_mention() {
    let user = UserContext::new(1, String::from("alice"), 0);
    let r = CommandResponse::new(String::from("hi"), false);
    assert_eq!(
        assembled_reply(&user, &r),
        Some(String::from("@alice, hi"))
    );
}

#[test]
fn empty_response_sends_nothing() {
    let user = UserContext::new(1, String::from("alice"), 0);
    let r = CommandResponse::new(String::new(), false);
    assert_eq!(assembled_reply(&user, &r), None);
}

#[test]
fn shaped_replies_alternate_their_trailing_marker() {
    let mut m = Messenger::new();
    m.chat_response("chan", String::from("same"), false, None);
    m.chat_response("chan", String::from("same"), false, None);
    m.chat_response("other", String::from("same"), false, None);
    let first = m.pop_oldest().unwrap().1;
    let second = m.pop_oldest().unwrap().1;
    let third = m.pop_oldest().unwrap().1;
    // First reply bare, second marked, third bare again — independent of
    // destination, so identical consecutive replies never match exactly.
    assert_eq!(first, "same");
    assert_eq!(second, format!("same{}", MARKER));
    assert_eq!(third, "same");
    assert_ne!(first, second);
}

#[test]
fn questionable_text_passes_when_allowed() {
    let mut m = Messenger::new();
    m.chat_response(
        "chan",
        String::from("@a, spicy"),
        true,
        Some(ModerationOutcome::Allowed),
    );
    assert_eq!(m.pop_oldest().unwrap().1, "@a, spicy");
}

#[test]
fn blocked_text_is_replaced_by_the_fixed_notice() {
    let mut m = Messenger::new();
    m.chat_response(
        "chan",
        String::from("@a, spicy"),
        true,
        Some(ModerationOutcome::Disallowed),
    );
    assert_eq!(
        m.pop_oldest().unwrap().1,
        "Uh oh, the anticipated response contained a banphrase monkaS"
    );
}

#[test]
fn unreachable_screen_is_reported() {
    let mut m = Messenger::new();
    m.chat_response(
        "chan",
        String::from("@a, spicy"),
        true,
        Some(ModerationOutcome::Unreachable),
    );
    assert_eq!(
        m.pop_oldest().unwrap().1,
        "Couldn't reach banphrase API monkaS"
    );
}

#[test]
fn unquestionable_text_is_never_screened() {
    let mut m = Messenger::new();
    m.chat_response("chan", String::from("@a, plain"), false, None);
    assert_eq!(m.pop_oldest().unwrap().1, "@a, plain");
}

#[test]
fn join_announcements_are_enqueued_per_channel() {
    let mut m = Messenger::new();
    m.send_join_messages(&vec![String::from("one"), String::from("two")]);
    assert_eq!(
        m.pop_oldest(),
        Some((String::from("one"), String::from("\u{1f6a8}")))
    );
    assert_eq!(
        m.pop_oldest(),
        Some((String::from("two"), String::from("\u{1f6a8}")))
    );
}

#[test]
fn moderation_applies_before_the_marker() {
    let mut m = Messenger::new();
    // Advance the toggle so the next reply carries the marker.
    m.chat_response("chan", String::from("x"), false, None);
    m.chat_response(
        "chan",
        String::from("@a, spicy"),
        true,
        Some(ModerationOutcome::Disallowed),
    );
    m.pop_oldest();
    assert_eq!(
        m.pop_oldest().unwrap().1,
        format!(
            "Uh oh, the anticipated response contained a banphrase monkaS{}",
            MARKER
        )
    );
}
