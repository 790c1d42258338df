//! The journal: where allocation decisions are made durable, and from where
//! they are replayed after a restart.

use crate::shard::{NodeId, ShardId};
use vstd::prelude::*;

verus! {

/// The durable record of one allocation decision: `shard_id` is hosted by
/// `node_id`.
#[derive(Debug, Clone, Copy, PartialEq, Eq, Structural)]
pub struct ShardAllocated {
    pub shard_id: ShardId,
    pub node_id: NodeId,
}

/// A write to the journal, or a replay from it, failed.
#[derive(Debug, Clone, Copy, PartialEq, Eq, Structural)]
pub enum StorageError {
    WriteFailed,
    ReplayFailed,
}

/// The persistence collaborator of the shard coordinator. A stream holds the
/// events appended to it, in the order in which they were appended.
pub trait Journal {
    /// The durable events of the stream `stream_id`.
    spec fn events(&self, stream_id: Seq<char>) -> Seq<ShardAllocated>;

    /// Appends `event` to the stream `stream_id`. When this returns `Ok` the
    /// event is durable. When it returns an error nothing was written.
    fn append(&mut self, stream_id: &str, event: ShardAllocated) -> (written: Result<
        (),
        StorageError,
    >)
        ensures
            written is Ok ==> final(self).events(stream_id@) == old(self).events(stream_id@).push(
                event,
            ),
            written is Err ==> final(self).events(stream_id@) == old(self).events(stream_id@),
            forall|other: Seq<char>|
                other != stream_id@ ==> #[trigger] final(self).events(other) == old(self).events(
                    other,
                ),
    ;

    /// The durable events of the stream `stream_id`, oldest first.
    fn replay(&self, stream_id: &str) -> (replayed: Result<Vec<ShardAllocated>, StorageError>)
        ensures
            replayed matches Ok(events) ==> events@ == self.events(stream_id@),
    ;
}

/// Mathematical value of one record of the in-memory journal.
pub ghost struct RecordView {
    pub stream_id: Seq<char>,
    pub event: ShardAllocated,
}

/// The events among `records` that belong to the stream `stream_id`, in their
/// order.
pub open spec fn events_of(records: Seq<RecordView>, stream_id: Seq<char>) -> Seq<ShardAllocated>
    decreases records.len(),
{
    if records.len() == 0 {
        Seq::empty()
    } else if records.last().stream_id == stream_id {
        events_of(records.drop_last(), stream_id).push(records.last().event)
    } else {
        events_of(records.drop_last(), stream_id)
    }
}

struct Record {
    stream_id: String,
    event: ShardAllocated,
}

impl View for Record {
    type V = RecordView;

    closed spec fn view(&self) -> RecordView {
        RecordView { stream_id: self.stream_id@, event: self.event }
    }
}

/// A journal that lives in memory: durable for as long as the value lives.
/// Its writes and replays never fail.
pub struct InMemoryJournal {
    records: Vec<Record>,
}

impl View for InMemoryJournal {
    type V = Seq<RecordView>;

    closed spec fn view(&self) -> Seq<RecordView> {
        Seq::new(self.records.len() as nat, |i: int| self.records[i]@)
    }
}

impl InMemoryJournal {
    /// An empty journal.
    pub fn new() -> (journal: InMemoryJournal)
        ensures
            journal@ == Seq::<RecordView>::empty(),
            forall|stream_id: Seq<char>| #[trigger]
                journal.events(stream_id) == Seq::<ShardAllocated>::empty(),
    {
        let journal = InMemoryJournal { records: Vec::new() };
        assert(journal@ =~= Seq::<RecordView>::empty());
        journal
    }

    /// The number of records over all streams.
    pub fn len(&self) -> (n: usize)
        ensures
            n == self@.len(),
    {
        self.records.len()
    }
}

impl Journal for InMemoryJournal {
    open spec fn events(&self, stream_id: Seq<char>) -> Seq<ShardAllocated> {
        events_of(self@, stream_id)
    }

    fn append(&mut self, stream_id: &str, event: ShardAllocated) -> (written: Result<
        (),
        StorageError,
    >)
        ensures
            written is Ok,
            final(self)@ == old(self)@.push(RecordView { stream_id: stream_id@, event: event }),
    {
        let ghost before = self@;
        self.records.push(Record { stream_id: stream_id.to_owned(), event });
        proof {
            let record = RecordView { stream_id: stream_id@, event: event };
            assert(self@ =~= before.push(record));
            assert(self@.drop_last() =~= before);
        }
        Ok(())
    }

    fn replay(&self, stream_id: &str) -> (replayed: Result<Vec<ShardAllocated>, StorageError>)
        ensures
            replayed is Ok,
    {
        let wanted = stream_id.to_owned();
        let mut events: Vec<ShardAllocated> = Vec::new();
        let mut i: usize = 0;
        while i < self.records.len()
            invariant
                i <= self.records.len(),
                wanted@ == stream_id@,
                events@ == events_of(self@.take(i as int), stream_id@),
            decreases self.records.len() - i,
        {
            proof {
                let upto = self@.take(i + 1);
                assert(upto.drop_last() =~= self@.take(i as int));
                assert(upto.last() == self.records[i as int]@);
            }
            if self.records[i].stream_id == wanted {
                events.push(self.records[i].event);
            }
            i += 1;
        }
        proof {
            assert(self@.take(self.records.len() as int) =~= self@);
        }
        Ok(events)
    }
}

} // verus!
