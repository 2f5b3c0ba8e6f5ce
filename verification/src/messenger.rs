//! Reply shaping and the outbound message queue. Shaping prefixes the
//! invoking identity's mention, substitutes fixed notices when the
//! moderation screen blocks or cannot be reached, and appends an invisible
//! marker to every other reply so that two identical consecutive replies
//! are not collapsed by the transport. The queue is FIFO and global: the
//! sending loop drains it one message per tick, in enqueue order.

use vstd::prelude::*;
use vstd::string::*;

use crate::api::ModerationOutcome;
use crate::types::{CommandResponse, UserContext};

verus! {

/// The mention-prefixed reply text.
pub open spec fn mention_text(login: Seq<char>, response: Seq<char>) -> Seq<char> {
    "@"@ + login + ", "@ + response
}

/// Assembles the mention-prefixed reply, or nothing when the response text
/// is empty: an empty response means "send nothing". A questionable reply
/// is screened on exactly this assembled text.
pub fn assembled_reply(user_context: &UserContext, command_response: &CommandResponse) -> (r:
    Option<String>)
    ensures
        command_response.response@.len() == 0 ==> r is None,
        command_response.response@.len() != 0 ==> (r matches Some(t) && t@ == mention_text(
            user_context.login@,
            command_response.response@,
        )),
{
    if command_response.response.as_str().is_empty() {
        None
    } else {
        let mut t = String::from_str("@");
        t.append(user_context.login.as_str());
        t.append(", ");
        t.append(command_response.response.as_str());
        Some(t)
    }
}

/// The reply text after moderation screening: unquestionable text passes
/// unchanged; questionable text passes only when the screen allowed it,
/// and is replaced by a fixed notice when it was blocked or the screen
/// could not be reached.
pub open spec fn screened_text(
    text: Seq<char>,
    questionable: bool,
    screen: Option<ModerationOutcome>,
) -> Seq<char> {
    if !questionable {
        text
    } else {
        match screen {
            Some(ModerationOutcome::Allowed) => text,
            Some(ModerationOutcome::Disallowed) => "Uh oh, the anticipated response contained a banphrase monkaS"@,
            _ => "Couldn't reach banphrase API monkaS"@,
        }
    }
}

/// The invisible suffix appended to every other shaped reply.
pub open spec fn marker_suffix(apply: bool) -> Seq<char> {
    if apply {
        " \u{e0000}"@
    } else {
        Seq::empty()
    }
}

/// The final text of one shaped reply: the screened text, with the marker
/// appended when the toggle calls for it.
pub open spec fn shaped_text(
    text: Seq<char>,
    questionable: bool,
    screen: Option<ModerationOutcome>,
    apply: bool,
) -> Seq<char> {
    screened_text(text, questionable, screen) + marker_suffix(apply)
}

/// The announcement enqueued for a newly joined channel.
pub open spec fn announce_text() -> Seq<char> {
    "\u{1f6a8}"@
}

/// The outbound side: the FIFO queue of (destination, text) pairs and the
/// process-wide obfuscation toggle, which advances on every shaped reply
/// regardless of destination.
pub struct Messenger {
    message_queue: Vec<(String, String)>,
    apply_modifier: bool,
}

impl Messenger {
    /// The queued (destination, text) pairs, oldest first.
    pub closed spec fn queue(self) -> Seq<(Seq<char>, Seq<char>)> {
        self.message_queue@.map_values(|m: (String, String)| (m.0@, m.1@))
    }

    /// Whether the next shaped reply carries the invisible marker.
    pub closed spec fn marker_pending(self) -> bool {
        self.apply_modifier
    }

    pub fn new() -> (m: Messenger)
        ensures
            m.queue() == Seq::<(Seq<char>, Seq<char>)>::empty(),
            !m.marker_pending(),
    {
        let m = Messenger { message_queue: Vec::new(), apply_modifier: false };
        proof {
            assert(m.queue() =~= Seq::<(Seq<char>, Seq<char>)>::empty());
        }
        m
    }

    /// Appends one message; messages leave in enqueue order.
    pub fn enqueue(&mut self, destination: String, text: String)
        ensures
            final(self).queue() == old(self).queue().push((destination@, text@)),
            final(self).marker_pending() == old(self).marker_pending(),
    {
        let ghost dv = destination@;
        let ghost tv = text@;
        self.message_queue.push((destination, text));
        proof {
            assert(self.queue() =~~= old(self).queue().push((dv, tv)));
        }
    }

    /// Removes and returns the oldest queued message, if any: exactly the
    /// head of the queue, so draining delivers messages in enqueue order,
    /// never reordered by destination.
    pub fn pop_oldest(&mut self) -> (r: Option<(String, String)>)
        ensures
            old(self).queue().len() == 0 ==> (r is None && final(self).queue() == old(
                self,
            ).queue()),
            old(self).queue().len() > 0 ==> (r matches Some(m) && (m.0@, m.1@) == old(
                self,
            ).queue()[0] && final(self).queue() == old(self).queue().skip(1)),
            final(self).marker_pending() == old(self).marker_pending(),
    {
        if self.message_queue.len() == 0 {
            None
        } else {
            let m = self.message_queue.remove(0);
            proof {
                assert(self.queue() =~~= old(self).queue().skip(1));
            }
            Some(m)
        }
    }

    /// Screens one assembled reply, applies the alternating marker, and
    /// enqueues it. The toggle flips on every call, whatever the
    /// destination; a questionable reply must come with the screen's
    /// verdict on its text.
    pub fn chat_response(
        &mut self,
        destination: &str,
        text: String,
        questionable: bool,
        screen: Option<ModerationOutcome>,
    )
        requires
            questionable ==> screen is Some,
        ensures
            final(self).marker_pending() == !old(self).marker_pending(),
            final(self).queue() == old(self).queue().push(
                (
                    destination@,
                    shaped_text(text@, questionable, screen, old(self).marker_pending()),
                ),
            ),
    {
        let ghost tv = text@;
        let mut shaped: String = if questionable {
            match screen {
                Some(ModerationOutcome::Allowed) => text,
                Some(ModerationOutcome::Disallowed) => String::from_str(
                    "Uh oh, the anticipated response contained a banphrase monkaS",
                ),
                _ => String::from_str("Couldn't reach banphrase API monkaS"),
            }
        } else {
            text
        };
        proof {
            assert(shaped@ == screened_text(tv, questionable, screen));
        }
        if self.apply_modifier {
            shaped.append(" \u{e0000}");
            self.apply_modifier = false;
        } else {
            self.apply_modifier = true;
            proof {
                assert(shaped@ =~= screened_text(tv, questionable, screen) + marker_suffix(
                    false,
                ));
            }
        }
        let ghost dv = destination@;
        let ghost sv = shaped@;
        self.message_queue.push((destination.to_owned(), shaped));
        proof {
            assert(self.queue() =~~= old(self).queue().push((dv, sv)));
        }
    }

    /// Enqueues the join announcement for each listed channel.
    pub fn send_join_messages(&mut self, channels: &Vec<String>)
        ensures
            final(self).marker_pending() == old(self).marker_pending(),
            final(self).queue() == old(self).queue() + channels.deep_view().map_values(
                |c: Seq<char>| (c, announce_text()),
            ),
    {
        let n = channels.len();
        let mut i: usize = 0;
        proof {
            assert(old(self).queue() + channels.deep_view().take(0).map_values(
                |c: Seq<char>| (c, announce_text()),
            ) =~= old(self).queue());
        }
        while i < n
            invariant
                i <= n == channels@.len(),
                self.marker_pending() == old(self).marker_pending(),
                self.queue() == old(self).queue() + channels.deep_view().take(i as int).map_values(
                    |c: Seq<char>| (c, announce_text()),
                ),
            decreases n - i,
        {
            let ghost pre = self.queue();
            self.message_queue.push((channels[i].clone(), String::from_str("\u{1f6a8}")));
            proof {
                assert(self.queue() =~~= pre.push((channels@[i as int]@, announce_text())));
                assert(pre.push((channels@[i as int]@, announce_text())) =~~= old(self).queue()
                    + channels.deep_view().take(i + 1).map_values(
                    |c: Seq<char>| (c, announce_text()),
                ));
            }
            i += 1;
        }
        proof {
            assert(channels.deep_view().take(n as int) =~~= channels.deep_view());
        }
    }
}

/// The queue is FIFO and global: messages enqueued one after the other
/// stand in the queue in that order, whatever their destinations, and
/// [`Messenger::pop_oldest`] always takes the head, so draining delivers
/// them in enqueue order.
pub proof fn lemma_fifo_order(
    q: Seq<(Seq<char>, Seq<char>)>,
    first: (Seq<char>, Seq<char>),
    second: (Seq<char>, Seq<char>),
)
    ensures
        q.push(first).push(second).len() == q.len() + 2,
        q.push(first).push(second)[q.len() as int] == first,
        q.push(first).push(second)[q.len() as int + 1] == second,
        forall|i: int| 0 <= i < q.len() ==> q.push(first).push(second)[i] == q[i],
{
}

/// Reply-shaping alternation: each shaped reply is its screened text
/// followed by the marker suffix of the toggle at its send; the toggle
/// flips on every shaped reply, and of two consecutive suffixes exactly
/// one is the invisible marker and the other is empty, so two consecutive
/// shaped replies always differ in their trailing marker.
pub proof fn lemma_obfuscation_alternates(apply: bool)
    ensures
        marker_suffix(apply) != marker_suffix(!apply),
        marker_suffix(apply) == Seq::<char>::empty() || marker_suffix(!apply)
            == Seq::<char>::empty(),
        forall|text: Seq<char>, questionable: bool, screen: Option<ModerationOutcome>|
            #[trigger] shaped_text(text, questionable, screen, apply) == screened_text(
                text,
                questionable,
                screen,
            ) + marker_suffix(apply),
{
    reveal_strlit(" \u{e0000}");
    assert(marker_suffix(true).len() == 2);
}

} // verus!
