use vstd::prelude::*;
use crate::event::{Event, EventEntry};
use crate::ids::UserId;

verus! {

/// The durable, append-only event store the kernel collaborates with.
///
/// `log()` is everything ever committed; `pending()` is the suffix not yet
/// handed out by `poll()`. Poll order is the admission order: it is assumed
/// monotonic and non-reordering across calls.
pub trait Repository: Sized {
    /// Everything ever committed, oldest first.
    spec fn log(&self) -> Seq<EventEntry>;

    /// The entries committed but not yet returned by `poll`.
    spec fn pending(&self) -> Seq<EventEntry>;

    /// Returns the new entries since the last poll, in order, without
    /// forgetting them from the log.
    fn poll(&mut self) -> (r: Vec<EventEntry>)
        ensures
            r@ == old(self).pending(),
            final(self).pending() == Seq::<EventEntry>::empty(),
            final(self).log() == old(self).log(),
    ;

    /// Appends one event verbatim; the store records the acting user and the
    /// log position. Admission is enforced only at apply time, not here.
    fn commit(&mut self, event: Event)
        ensures
            final(self).log().len() == old(self).log().len() + 1,
            final(self).log().drop_last() == old(self).log(),
            final(self).log().last().event == event,
            final(self).pending() == old(self).pending().push(final(self).log().last()),
    ;

    /// Records an owner addition, mirrored as an `AddOwner` event authored
    /// by that user.
    fn add_owner(&mut self, user_id: UserId)
        ensures
            final(self).log().len() == old(self).log().len() + 1,
            final(self).log().drop_last() == old(self).log(),
            final(self).log().last().event == (Event::AddOwner { user_id }),
            final(self).log().last().user_id == user_id,
            final(self).pending() == old(self).pending().push(final(self).log().last()),
    ;

    /// Records an owner removal, mirrored as a `RemoveOwner` event authored
    /// by that user.
    fn remove_owner(&mut self, user_id: UserId)
        ensures
            final(self).log().len() == old(self).log().len() + 1,
            final(self).log().drop_last() == old(self).log(),
            final(self).log().last().event == (Event::RemoveOwner { user_id }),
            final(self).log().last().user_id == user_id,
            final(self).pending() == old(self).pending().push(final(self).log().last()),
    ;
}

/// An in-memory repository: the whole log lives in a vector, and a cursor
/// marks how far `poll` has handed entries out. Commits are attributed to
/// one session user.
pub struct MemRepository {
    user: UserId,
    entries: Vec<EventEntry>,
    cursor: usize,
}

impl MemRepository {
    /// The cursor never runs past the log.
    pub closed spec fn wf(&self) -> bool {
        self.cursor <= self.entries@.len()
    }

    /// An empty repository whose commits are attributed to `user`.
    pub fn new(user: UserId) -> (r: MemRepository)
        ensures
            r.log() == Seq::<EventEntry>::empty(),
            r.pending() == Seq::<EventEntry>::empty(),
            r.wf(),
    {
        let r = MemRepository { user, entries: Vec::new(), cursor: 0 };
        proof {
            assert(r.pending() =~= Seq::<EventEntry>::empty());
        }
        r
    }

    /// Appends a fully formed entry, for feeding a kernel a prepared log.
    pub fn push_entry(&mut self, entry: EventEntry)
        requires
            old(self).wf(),
        ensures
            final(self).wf(),
            final(self).log() == old(self).log().push(entry),
            final(self).pending() == old(self).pending().push(entry),
    {
        self.entries.push(entry);
        proof {
            assert(self.pending() =~= old(self).pending().push(self.entries@.last()));
        }
    }
}

impl Repository for MemRepository {
    closed spec fn log(&self) -> Seq<EventEntry> {
        self.entries@
    }

    closed spec fn pending(&self) -> Seq<EventEntry> {
        if self.cursor <= self.entries@.len() {
            self.entries@.skip(self.cursor as int)
        } else {
            Seq::empty()
        }
    }

    fn poll(&mut self) -> (r: Vec<EventEntry>)
        ensures
            r@ == old(self).pending(),
            final(self).pending() == Seq::<EventEntry>::empty(),
            final(self).log() == old(self).log(),
    {
        let mut out: Vec<EventEntry> = Vec::new();
        let mut i: usize = self.cursor;
        if i > self.entries.len() {
            i = self.entries.len();
        }
        let ghost start = i as int;
        while i < self.entries.len()
            invariant
                0 <= start <= i <= self.entries@.len(),
                out@ == self.entries@.subrange(start, i as int),
            decreases self.entries@.len() - i,
        {
            out.push(self.entries[i].clone());
            proof {
                assert(out@ =~= self.entries@.subrange(start, i + 1));
            }
            i += 1;
        }
        self.cursor = self.entries.len();
        proof {
            assert(out@ =~= old(self).pending());
            assert(self.pending() =~= Seq::<EventEntry>::empty());
        }
        out
    }

    fn commit(&mut self, event: Event)
        ensures
            final(self).log().len() == old(self).log().len() + 1,
            final(self).log().drop_last() == old(self).log(),
            final(self).log().last().event == event,
            final(self).pending() == old(self).pending().push(final(self).log().last()),
    {
        if self.cursor > self.entries.len() {
            self.cursor = self.entries.len();
        }
        let index = self.entries.len() as u64;
        let entry = EventEntry { index, user_id: self.user, event };
        self.entries.push(entry);
        proof {
            assert(self.log().drop_last() =~= old(self).log());
            if old(self).cursor <= old(self).entries@.len() {
                assert(self.pending() =~= old(self).pending().push(self.log().last()));
            } else {
                assert(self.pending() =~= old(self).pending().push(self.log().last()));
            }
        }
    }

    fn add_owner(&mut self, user_id: UserId)
        ensures
            final(self).log().len() == old(self).log().len() + 1,
            final(self).log().drop_last() == old(self).log(),
            final(self).log().last().event == (Event::AddOwner { user_id }),
            final(self).log().last().user_id == user_id,
            final(self).pending() == old(self).pending().push(final(self).log().last()),
    {
        if self.cursor > self.entries.len() {
            self.cursor = self.entries.len();
        }
        let index = self.entries.len() as u64;
        let entry = EventEntry { index, user_id, event: Event::AddOwner { user_id } };
        self.entries.push(entry);
        proof {
            assert(self.log().drop_last() =~= old(self).log());
            assert(self.pending() =~= old(self).pending().push(self.log().last()));
        }
    }

    fn remove_owner(&mut self, user_id: UserId)
        ensures
            final(self).log().len() == old(self).log().len() + 1,
            final(self).log().drop_last() == old(self).log(),
            final(self).log().last().event == (Event::RemoveOwner { user_id }),
            final(self).log().last().user_id == user_id,
            final(self).pending() == old(self).pending().push(final(self).log().last()),
    {
        if self.cursor > self.entries.len() {
            self.cursor = self.entries.len();
        }
        let index = self.entries.len() as u64;
        let entry = EventEntry { index, user_id, event: Event::RemoveOwner { user_id } };
        self.entries.push(entry);
        proof {
            assert(self.log().drop_last() =~= old(self).log());
            assert(self.pending() =~= old(self).pending().push(self.log().last()));
        }
    }
}

} // verus!
