//! Per-player mailboxes: ordered buffers of outbound directives, drained by
//! long-poll, and the store that keys them by player name.

use crate::assoc::distinct_keys;
use crate::assoc::has_key;
use crate::assoc::lemma_key_index_unique;
use crate::assoc::lemma_push_entry;
use crate::assoc::lemma_update_entry;
use crate::assoc::value_of;
use crate::messages::Message;
use vstd::prelude::*;

verus! {

/// A player's mailbox: the ordered buffer of directives not yet delivered.
/// Pushes append; a drain atomically hands the buffer over and resets it.
#[derive(Debug)]
pub struct PlayerProxy {
    pub messages: Vec<Message>,
}

impl View for PlayerProxy {
    type V = Seq<Message>;

    open spec fn view(&self) -> Seq<Message> {
        self.messages@
    }
}

impl Default for PlayerProxy {
    /// A fresh mailbox is seeded with a single greeting so the first poll
    /// after login returns a non-empty payload.
    fn default() -> (p: Self)
        ensures
            p@ =~= seq![Message::Hi],
    {
        let mut messages: Vec<Message> = Vec::new();
        messages.push(Message::Hi);
        PlayerProxy { messages }
    }
}

impl PlayerProxy {
    /// Appends one directive; never fails.
    pub fn send_message(&mut self, msg: Message)
        ensures
            final(self)@ == old(self)@.push(msg),
    {
        self.messages.push(msg);
    }

    /// Hands over everything pushed so far, in push order, and resets the
    /// buffer to empty.
    pub fn drain(&mut self) -> (r: Vec<Message>)
        ensures
            r@ == old(self)@,
            final(self)@ == Seq::<Message>::empty(),
    {
        let mut taken: Vec<Message> = Vec::new();
        core::mem::swap(&mut taken, &mut self.messages);
        assert(self.messages@ =~= Seq::<Message>::empty());
        taken
    }
}

/// The buffer a mailbox grows into after a run of pushes: the old contents
/// followed by the pushed directives.
pub open spec fn pushed_all(m: Seq<Message>, ds: Seq<Message>) -> Seq<Message>
    decreases ds.len(),
{
    if ds.len() == 0 {
        m
    } else {
        pushed_all(m.push(ds[0]), ds.drop_first())
    }
}

/// Mailbox order: a run of pushes `d1 ... dn` not interleaved with a drain
/// leaves the buffer holding exactly the old contents followed by
/// `d1 ... dn` in that order, so the next drain returns them in push order.
pub proof fn lemma_mailbox_order(m: Seq<Message>, ds: Seq<Message>)
    ensures
        pushed_all(m, ds) == m + ds,
    decreases ds.len(),
{
    if ds.len() == 0 {
        assert(pushed_all(m, ds) == m);
        assert(m + ds =~= m);
    } else {
        lemma_mailbox_order(m.push(ds[0]), ds.drop_first());
        assert(m.push(ds[0]) + ds.drop_first() =~= m + ds);
    }
}

/// The store of mailboxes, keyed by player name. A mailbox is created at a
/// name's first login and never destroyed.
#[derive(Debug)]
pub struct MailboxStore {
    pub entries: Vec<(String, PlayerProxy)>,
}

impl MailboxStore {
    /// The store as an association sequence from player name to buffered
    /// directives.
    pub open spec fn model(&self) -> Seq<(Seq<char>, Seq<Message>)> {
        self.entries@.map(|i: int, e: (String, PlayerProxy)| (e.0@, e.1@))
    }

    /// Names are pairwise distinct.
    pub open spec fn wf(&self) -> bool {
        distinct_keys(self.model())
    }

    /// Whether the name has a mailbox.
    pub open spec fn has_box(&self, n: Seq<char>) -> bool {
        has_key(self.model(), n)
    }

    /// The directives buffered for the name.
    pub open spec fn msgs(&self, n: Seq<char>) -> Seq<Message> {
        value_of(self.model(), n)
    }

    /// An empty store.
    pub fn new() -> (s: Self)
        ensures
            s.wf(),
            s.model() =~= Seq::<(Seq<char>, Seq<Message>)>::empty(),
    {
        MailboxStore { entries: Vec::new() }
    }

    /// The index of the name's mailbox, scanning linearly.
    fn find_index(&self, name: &String) -> (r: Option<usize>)
        ensures
            match r {
                Some(i) => i < self.entries@.len() && self.model()[i as int].0 == name@
                    && self.has_box(name@),
                None => !self.has_box(name@),
            },
    {
        let mut i: usize = 0;
        while i < self.entries.len()
            invariant
                i <= self.entries@.len(),
                forall|j: int| 0 <= j < i ==> (#[trigger] self.model()[j]).0 != name@,
            decreases self.entries@.len() - i,
        {
            if self.entries[i].0 == *name {
                assert(self.model()[i as int].0 == name@);
                return Some(i);
            }
            i += 1;
        }
        None
    }

    /// Whether the name has a mailbox.
    pub fn contains(&self, name: &String) -> (r: bool)
        ensures
            r == self.has_box(name@),
    {
        self.find_index(name).is_some()
    }

    /// Idempotent creation: an existing mailbox is left as it is; a missing
    /// one is created holding the single greeting.
    pub fn get_or_create(&mut self, name: &String)
        requires
            old(self).wf(),
        ensures
            final(self).wf(),
            final(self).has_box(name@),
            old(self).has_box(name@) ==> final(self).model() == old(self).model(),
            !old(self).has_box(name@) ==> final(self).msgs(name@) =~= seq![Message::Hi],
            forall|n: Seq<char>| #[trigger]
                final(self).has_box(n) <==> (old(self).has_box(n) || n == name@),
            forall|n: Seq<char>|
                n != name@ && old(self).has_box(n) ==> #[trigger] final(self).msgs(n) == old(
                    self,
                ).msgs(n),
    {
        match self.find_index(name) {
            Some(_) => {},
            None => {
                let ghost pre = self.model();
                let fresh = PlayerProxy::default();
                let ghost fresh_view = fresh@;
                self.entries.push((name.clone(), fresh));
                proof {
                    assert(self.model() =~= pre.push((name@, fresh_view)));
                    lemma_push_entry(pre, name@, fresh_view);
                }
            },
        }
    }

    /// Appends one directive to the name's mailbox; every other mailbox is
    /// untouched.
    pub fn push_to(&mut self, name: &String, msg: Message)
        requires
            old(self).wf(),
            old(self).has_box(name@),
        ensures
            final(self).wf(),
            final(self).msgs(name@) == old(self).msgs(name@).push(msg),
            forall|n: Seq<char>| #[trigger] final(self).has_box(n) <==> old(self).has_box(n),
            forall|n: Seq<char>|
                n != name@ && old(self).has_box(n) ==> #[trigger] final(self).msgs(n) == old(
                    self,
                ).msgs(n),
    {
        let ghost pre = self.model();
        let i = match self.find_index(name) {
            Some(i) => i,
            None => {
                proof {
                    assert(false);
                }
                0
            },
        };
        proof {
            lemma_key_index_unique(pre, name@, i as int);
        }
        let entry = &mut self.entries[i];
        entry.1.send_message(msg);
        proof {
            assert(self.model() =~= pre.update(i as int, (name@, pre[i as int].1.push(msg))));
            lemma_update_entry(pre, i as int, pre[i as int].1.push(msg));
        }
    }

    /// Atomically hands over the name's buffered directives in push order and
    /// resets that mailbox to empty; `None` when the name has no mailbox.
    pub fn drain_box(&mut self, name: &String) -> (r: Option<Vec<Message>>)
        requires
            old(self).wf(),
        ensures
            final(self).wf(),
            r is Some <==> old(self).has_box(name@),
            forall|n: Seq<char>| #[trigger] final(self).has_box(n) <==> old(self).has_box(n),
            match r {
                Some(v) => v@ == old(self).msgs(name@) && final(self).msgs(name@) == Seq::<
                    Message,
                >::empty() && forall|n: Seq<char>|
                    n != name@ && old(self).has_box(n) ==> #[trigger] final(self).msgs(n) == old(
                        self,
                    ).msgs(n),
                None => *final(self) == *old(self),
            },
    {
        let ghost pre = self.model();
        match self.find_index(name) {
            Some(i) => {
                proof {
                    lemma_key_index_unique(pre, name@, i as int);
                }
                let entry = &mut self.entries[i];
                let v = entry.1.drain();
                proof {
                    assert(self.model() =~= pre.update(
                        i as int,
                        (name@, Seq::<Message>::empty()),
                    ));
                    lemma_update_entry(pre, i as int, Seq::<Message>::empty());
                }
                Some(v)
            },
            None => None,
        }
    }
}

} // verus!
