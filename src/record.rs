//! Whole replies: the pairs of each command, in order, with how it ended.
use vstd::prelude::*;

use crate::connection::{Event, EventModel};
use crate::error::{MpdError, MpdResult};
use crate::response::{AckError, AckModel};

verus! {

/// How one command ended.
#[derive(Clone, Debug)]
pub enum Outcome {
    Success,
    Failed(AckError),
}

pub enum OutcomeModel {
    Success,
    Failed(AckModel),
}

/// The pairs that one command returned, and how it ended.
#[derive(Clone, Debug)]
pub struct ResponseRecord {
    pub pairs: Vec<(String, String)>,
    pub outcome: Outcome,
}

pub struct RecordModel {
    pub pairs: Seq<(Seq<char>, Seq<char>)>,
    pub outcome: OutcomeModel,
}

pub open spec fn pairs_view(v: Seq<(String, String)>) -> Seq<(Seq<char>, Seq<char>)> {
    v.map_values(|p: (String, String)| (p.0@, p.1@))
}

impl View for Outcome {
    type V = OutcomeModel;

    open spec fn view(&self) -> OutcomeModel {
        match self {
            Outcome::Success => OutcomeModel::Success,
            Outcome::Failed(a) => OutcomeModel::Failed(a@),
        }
    }
}

impl View for ResponseRecord {
    type V = RecordModel;

    open spec fn view(&self) -> RecordModel {
        RecordModel { pairs: pairs_view(self.pairs@), outcome: self.outcome@ }
    }
}

/// Gathers the events of one reply into records: one record for a single command,
/// one for each member of a command list that ran.
pub struct ReplyCollector {
    list: bool,
    records: Vec<ResponseRecord>,
    pending: Vec<(String, String)>,
    done: bool,
}

pub struct CollectorModel {
    /// Whether the reply is to a command list.
    pub list: bool,
    pub records: Seq<RecordModel>,
    /// Pairs of the command whose end has not come yet.
    pub pending: Seq<(Seq<char>, Seq<char>)>,
    /// Whether the reply has ended.
    pub done: bool,
}

impl View for ReplyCollector {
    type V = CollectorModel;

    closed spec fn view(&self) -> CollectorModel {
        CollectorModel {
            list: self.list,
            records: self.records@.map_values(|r: ResponseRecord| r@),
            pending: pairs_view(self.pending@),
            done: self.done,
        }
    }
}

/// The pending pairs close a record with the given outcome.
pub open spec fn close_record(c: CollectorModel, o: OutcomeModel) -> CollectorModel {
    CollectorModel {
        records: c.records.push(RecordModel { pairs: c.pending, outcome: o }),
        pending: Seq::empty(),
        ..c
    }
}

/// In a command list, an `ACK` names the failing member by its position, which must be
/// the number of members that succeeded before it.
pub open spec fn index_mismatch(c: CollectorModel, ev: EventModel) -> bool {
    !c.done && c.list && (ev matches EventModel::Failed(a) && a.index != c.records.len())
}

/// What one event does to the records. After the end of the reply nothing changes; an
/// `ACK` that names the wrong member ends the reply with no record for it.
pub open spec fn collect_spec(c: CollectorModel, ev: EventModel) -> CollectorModel {
    if c.done {
        c
    } else {
        match ev {
            EventModel::Pair(k, v) => CollectorModel { pending: c.pending.push((k, v)), ..c },
            EventModel::MemberOk => if c.list {
                close_record(c, OutcomeModel::Success)
            } else {
                c
            },
            EventModel::Done => if c.list {
                CollectorModel { done: true, ..c }
            } else {
                CollectorModel { done: true, ..close_record(c, OutcomeModel::Success) }
            },
            EventModel::Failed(a) => if c.list && a.index != c.records.len() {
                CollectorModel { done: true, ..c }
            } else {
                CollectorModel { done: true, ..close_record(c, OutcomeModel::Failed(a)) }
            },
            _ => c,
        }
    }
}

impl ReplyCollector {
    /// A collector for the reply to one command (`list` false) or to a command list.
    pub fn new(list: bool) -> (r: ReplyCollector)
        ensures
            r@.list == list,
            r@.records.len() == 0,
            r@.pending.len() == 0,
            !r@.done,
    {
        let r = ReplyCollector { list, records: Vec::new(), pending: Vec::new(), done: false };
        assert(r@.records =~= Seq::<RecordModel>::empty());
        r
    }

    /// Takes one event of the reply; returns whether the reply has ended. An `ACK` in a
    /// command list that names another member than the one that failed is a protocol
    /// error.
    pub fn collect(&mut self, ev: Event) -> (r: MpdResult<bool>)
        ensures
            final(self)@ == collect_spec(old(self)@, ev@),
            r is Err <==> index_mismatch(old(self)@, ev@),
            r matches Err(e) ==> e is Protocol,
            r matches Ok(d) ==> d == final(self)@.done,
    {
        if self.done {
            return Ok(true);
        }
        let ghost c = self@;
        match ev {
            Event::Pair(k, v) => {
                self.pending.push((k, v));
                assert(self@.pending =~= c.pending.push((k@, v@)));
                assert(self@ =~= collect_spec(c, ev@));
            },
            Event::MemberOk => {
                if self.list {
                    self.close(Outcome::Success);
                }
            },
            Event::Done => {
                if !self.list {
                    self.close(Outcome::Success);
                }
                self.done = true;
            },
            Event::Failed(a) => {
                if self.list && a.index as usize != self.records.len() {
                    self.done = true;
                    return Err(MpdError::Protocol);
                }
                self.close(Outcome::Failed(a));
                self.done = true;
            },
            _ => {},
        }
        Ok(self.done)
    }

    fn close(&mut self, o: Outcome)
        ensures
            final(self)@ == close_record(old(self)@, o@),
    {
        let ghost c = self@;
        let mut pairs = Vec::new();
        core::mem::swap(&mut pairs, &mut self.pending);
        let rec = ResponseRecord { pairs, outcome: o };
        self.records.push(rec);
        assert(self@.records =~= c.records.push(RecordModel { pairs: c.pending, outcome: o@ }));
        assert(self@.pending =~= Seq::<(Seq<char>, Seq<char>)>::empty());
        assert(self@ =~= close_record(c, o@));
    }

    /// Whether the reply has ended.
    pub fn is_done(&self) -> (r: bool)
        ensures
            r == self@.done,
    {
        self.done
    }

    /// The records so far, in the order of the commands.
    pub fn into_records(self) -> (r: Vec<ResponseRecord>)
        ensures
            r@.map_values(|x: ResponseRecord| x@) == self@.records,
    {
        self.records
    }
}

/// In a command list, the records of the members before the one that failed are kept
/// as they were, the failing member's record carries the server's error, and the reply
/// then takes nothing more: no later member gets a record.
pub proof fn lemma_failure_ends_list(c: CollectorModel, a: AckModel, later: EventModel)
    requires
        !c.done,
        c.list ==> a.index == c.records.len(),
    ensures
        ({
            let d = collect_spec(c, EventModel::Failed(a));
            &&& d.done
            &&& d.records.len() == c.records.len() + 1
            &&& d.records.subrange(0, c.records.len() as int) == c.records
            &&& d.records.last() == (RecordModel { pairs: c.pending, outcome: OutcomeModel::Failed(a) })
            &&& collect_spec(d, later) == d
        }),
{
    let d = collect_spec(c, EventModel::Failed(a));
    assert(d.records.subrange(0, c.records.len() as int) =~= c.records);
}

/// The collector after a run of events.
pub open spec fn collect_all(c: CollectorModel, evs: Seq<EventModel>) -> CollectorModel
    decreases evs.len(),
{
    if evs.len() == 0 {
        c
    } else {
        collect_spec(collect_all(c, evs.drop_last()), evs.last())
    }
}

/// An event that a list member gives before the reply ends: a pair or `list_OK`.
pub open spec fn is_member_event(e: EventModel) -> bool {
    e is Pair || e is MemberOk
}

/// How many members the events mark as done.
pub open spec fn count_ok(evs: Seq<EventModel>) -> nat
    decreases evs.len(),
{
    if evs.len() == 0 {
        0
    } else {
        if evs.last() is MemberOk {
            count_ok(evs.drop_last()) + 1
        } else {
            count_ok(evs.drop_last())
        }
    }
}

pub open spec fn all_success(rs: Seq<RecordModel>) -> bool {
    forall|j: int| 0 <= j < rs.len() ==> (#[trigger] rs[j]).outcome is Success
}

proof fn lemma_members_succeed(c: CollectorModel, evs: Seq<EventModel>)
    requires
        c.list,
        !c.done,
        all_success(c.records),
        forall|i: int| 0 <= i < evs.len() ==> is_member_event(#[trigger] evs[i]),
    ensures
        ({
            let d = collect_all(c, evs);
            &&& d.list && !d.done
            &&& d.records.len() == c.records.len() + count_ok(evs)
            &&& d.records.subrange(0, c.records.len() as int) == c.records
            &&& all_success(d.records)
        }),
    decreases evs.len(),
{
    if evs.len() > 0 {
        let t = evs.drop_last();
        assert forall|i: int| 0 <= i < t.len() implies is_member_event(#[trigger] t[i]) by {
            assert(t[i] == evs[i]);
        }
        lemma_members_succeed(c, t);
        let d0 = collect_all(c, t);
        assert(is_member_event(evs[evs.len() - 1]));
        let d = collect_all(c, evs);
        assert(d.records.subrange(0, c.records.len() as int) =~= c.records) by {
            assert(d0.records.subrange(0, c.records.len() as int) == c.records);
            assert forall|j: int| 0 <= j < c.records.len() implies d.records[j] == d0.records[j] by {}
        }
        assert forall|j: int| 0 <= j < d.records.len() implies (#[trigger] d.records[j]).outcome is Success by {
            if j < d0.records.len() {
                assert(d.records[j] == d0.records[j]);
            }
        }
    }
}

/// A command list stops at its first failing member, and keeps what came before: when
/// `k` members succeed (their pairs in between) and the server then reports the member
/// at position `k` as failed, the reply has `k + 1` records, the first `k` successes and
/// the last the server's error, the reply ends, and no later event adds a record.
pub proof fn lemma_batch_partial_failure(
    c: CollectorModel,
    evs: Seq<EventModel>,
    a: AckModel,
    later: EventModel,
)
    requires
        c.list,
        !c.done,
        c.records.len() == 0,
        forall|i: int| 0 <= i < evs.len() ==> is_member_event(#[trigger] evs[i]),
        a.index == count_ok(evs),
    ensures
        ({
            let d = collect_spec(collect_all(c, evs), EventModel::Failed(a));
            &&& d.done
            &&& d.records.len() == count_ok(evs) + 1
            &&& forall|j: int| 0 <= j < count_ok(evs) ==> (#[trigger] d.records[j]).outcome is Success
            &&& d.records.last().outcome == OutcomeModel::Failed(a)
            &&& collect_spec(d, later) == d
        }),
{
    lemma_members_succeed(c, evs);
    let m = collect_all(c, evs);
    lemma_failure_ends_list(m, a, later);
    let d = collect_spec(m, EventModel::Failed(a));
    assert forall|j: int| 0 <= j < count_ok(evs) implies (#[trigger] d.records[j]).outcome is Success by {
        assert(d.records.subrange(0, m.records.len() as int)[j] == m.records[j]);
    }
}

} // verus!
