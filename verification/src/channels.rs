//! The set of channel logins the bot wants presence in. It is read by the
//! transport layer and mutated by the join and leave behaviors; a
//! membership check and the following mutation form one call, so a
//! check-then-insert cannot be split by a concurrent caller holding the
//! same set.

use vstd::prelude::*;

verus! {

/// The abstract membership of a list of channel logins.
pub open spec fn channel_set_of(items: Seq<String>) -> Set<Seq<char>> {
    Set::new(
        |c: Seq<char>| exists|i: int| 0 <= i < items.len() && #[trigger] items[i]@ == c,
    )
}

pub proof fn lemma_channel_set_push(items: Seq<String>, e: String)
    ensures
        channel_set_of(items.push(e)) == channel_set_of(items).insert(e@),
{
    assert forall|c: Seq<char>|
        channel_set_of(items.push(e)).contains(c) <==> channel_set_of(items).insert(
            e@,
        ).contains(c) by {
        if channel_set_of(items.push(e)).contains(c) {
            let i = choose|i: int| 0 <= i < items.push(e).len() && #[trigger] items.push(e)[i]@ == c;
            if i < items.len() {
                assert(items[i]@ == c);
            } else {
                assert(items.push(e)[i] == e);
            }
        }
        if channel_set_of(items).insert(e@).contains(c) {
            if c == e@ {
                assert(items.push(e)[items.len() as int]@ == c);
            } else {
                let i = choose|i: int| 0 <= i < items.len() && #[trigger] items[i]@ == c;
                assert(items.push(e)[i]@ == c);
            }
        }
    }
    assert(channel_set_of(items.push(e)) =~= channel_set_of(items).insert(e@));
}

/// The mutable set of destinations the transport layer should maintain
/// presence in.
pub struct ChannelSet {
    items: Vec<String>,
}

impl View for ChannelSet {
    type V = Set<Seq<char>>;

    closed spec fn view(&self) -> Set<Seq<char>> {
        channel_set_of(self.items@)
    }
}

impl ChannelSet {
    pub fn new() -> (s: ChannelSet)
        ensures
            s@ == Set::<Seq<char>>::empty(),
    {
        let s = ChannelSet { items: Vec::new() };
        proof {
            assert(s@ =~= Set::<Seq<char>>::empty());
        }
        s
    }

    pub fn contains(&self, channel: &String) -> (r: bool)
        ensures
            r == self@.contains(channel@),
    {
        let n = self.items.len();
        let mut i: usize = 0;
        while i < n
            invariant
                i <= n == self.items@.len(),
                forall|j: int| 0 <= j < i ==> #[trigger] self.items@[j]@ != channel@,
            decreases n - i,
        {
            if self.items[i] == *channel {
                return true;
            }
            i += 1;
        }
        proof {
            if self@.contains(channel@) {
                let j = choose|j: int|
                    0 <= j < self.items@.len() && #[trigger] self.items@[j]@ == channel@;
                assert(false);
            }
        }
        false
    }

    /// Inserts a channel; reports whether it was new. The membership check
    /// and the insertion are one atomic call on the set.
    pub fn insert(&mut self, channel: String) -> (was_new: bool)
        ensures
            final(self)@ == old(self)@.insert(channel@),
            was_new == !old(self)@.contains(channel@),
    {
        if self.contains(&channel) {
            proof {
                assert(old(self)@.insert(channel@) =~= old(self)@);
            }
            false
        } else {
            let ghost pre = self.items@;
            self.items.push(channel);
            proof {
                lemma_channel_set_push(pre, channel);
            }
            true
        }
    }

    /// Removes a channel; reports whether it was present. The membership
    /// check and the removal are one atomic call on the set.
    pub fn remove(&mut self, channel: &String) -> (was_present: bool)
        ensures
            final(self)@ == old(self)@.remove(channel@),
            was_present == old(self)@.contains(channel@),
    {
        let found = self.contains(channel);
        let n = self.items.len();
        let mut kept: Vec<String> = Vec::new();
        let mut i: usize = 0;
        while i < n
            invariant
                i <= n == self.items@.len(),
                self == old(self),
                forall|c: Seq<char>|
                    #[trigger] channel_set_of(kept@).contains(c) <==> (channel_set_of(
                        self.items@.take(i as int),
                    ).contains(c) && c != channel@),
            decreases n - i,
        {
            proof {
                assert(self.items@.take(i + 1) =~= self.items@.take(i as int).push(
                    self.items@[i as int],
                ));
                lemma_channel_set_push(self.items@.take(i as int), self.items@[i as int]);
            }
            if !(self.items[i] == *channel) {
                let ghost pre = kept@;
                kept.push(self.items[i].clone());
                proof {
                    lemma_channel_set_push(pre, self.items@[i as int]);
                }
            }
            i += 1;
        }
        proof {
            assert(self.items@.take(n as int) =~= self.items@);
        }
        self.items = kept;
        proof {
            assert(self@ =~= old(self)@.remove(channel@));
        }
        found
    }

    /// The channels as a list, for handing the full set to the transport
    /// layer.
    pub fn as_vec(&self) -> (r: &Vec<String>)
        ensures
            channel_set_of(r@) == self@,
    {
        &self.items
    }
}

} // verus!
