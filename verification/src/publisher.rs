//! The publisher of a topic: the bookkeeping of batches between the caller
//! that sends them and the durable log that commits them.
//!
//! The publisher decides; the caller does the work. `send` says whether a
//! batch is accepted, and under which sequence number the caller is to
//! append it, or that the topic's buffer is full and the caller has to wait
//! for the log. `commit` records what the log has made durable, `fail` the
//! first error, and `flush` says whether everything accepted is durable.

use vstd::prelude::*;

verus! {

/// What `send` decides for a batch.
#[derive(Clone, Copy, Debug, PartialEq, Eq, Structural)]
pub enum SendOutcome {
    /// The batch is accepted; it is the `sequence`-th batch of the publisher, counted from zero.
    Accepted { sequence: u64 },
    /// The buffer is full: wait for the log to commit, then send again.
    Full,
    /// The publisher has failed; the batch is not accepted.
    Failed,
}

/// What `flush` finds.
#[derive(Clone, Copy, Debug, PartialEq, Eq, Structural)]
pub enum FlushOutcome {
    /// Every accepted batch is durable.
    Done,
    /// `outstanding` accepted batches are not durable yet: wait for the log, then flush again.
    Pending { outstanding: u64 },
    /// The publisher has failed.
    Failed,
}

/// The bookkeeping of one publisher.
#[derive(Debug)]
pub struct Publisher {
    capacity: u64,
    accepted: u64,
    committed: u64,
    rows: u64,
    failure: Option<String>,
}

/// What a [`Publisher`] holds, as plain values.
pub struct PublisherView {
    pub capacity: nat,
    pub accepted: nat,
    pub committed: nat,
    pub rows: nat,
    pub failure: Option<Seq<char>>,
}

/// The message of the failure that a counter running over is recorded as.
pub open spec fn overflow_message() -> Seq<char> {
    "publisher counters exhausted"@
}

impl View for Publisher {
    type V = PublisherView;

    closed spec fn view(&self) -> PublisherView {
        PublisherView {
            capacity: self.capacity as nat,
            accepted: self.accepted as nat,
            committed: self.committed as nat,
            rows: self.rows as nat,
            failure: match self.failure {
                Some(reason) => Some(reason@),
                None => None,
            },
        }
    }
}

impl PublisherView {
    /// Nothing is committed that was not accepted, and no more is in
    /// flight than the buffer takes.
    pub open spec fn wf(self) -> bool {
        &&& self.capacity >= 1
        &&& self.committed <= self.accepted
        &&& self.accepted - self.committed <= self.capacity
        &&& self.accepted <= u64::MAX
        &&& self.rows <= u64::MAX
    }

    /// The number of accepted batches that are not durable yet.
    pub open spec fn outstanding(self) -> nat {
        (self.accepted - self.committed) as nat
    }

    /// Sending a batch of `rows` rows: the publisher afterwards and the outcome.
    pub open spec fn send(self, rows: u64) -> (PublisherView, SendOutcome) {
        if self.failure is Some {
            (self, SendOutcome::Failed)
        } else if self.outstanding() >= self.capacity {
            (self, SendOutcome::Full)
        } else if self.accepted + 1 > u64::MAX || self.rows + rows > u64::MAX {
            (PublisherView { failure: Some(overflow_message()), ..self }, SendOutcome::Failed)
        } else {
            (
                PublisherView {
                    accepted: self.accepted + 1,
                    rows: self.rows + rows as nat,
                    ..self
                },
                SendOutcome::Accepted { sequence: self.accepted as u64 },
            )
        }
    }

    /// The log committing `batches` more batches, at most those in flight.
    pub open spec fn commit(self, batches: u64) -> PublisherView {
        if batches <= self.outstanding() {
            PublisherView { committed: self.committed + batches as nat, ..self }
        } else {
            PublisherView { committed: self.accepted, ..self }
        }
    }

    /// Recording a failure: the first one stays.
    pub open spec fn fail(self, reason: Seq<char>) -> PublisherView {
        if self.failure is Some {
            self
        } else {
            PublisherView { failure: Some(reason), ..self }
        }
    }

    /// What a flush finds.
    pub open spec fn flush(self) -> FlushOutcome {
        if self.failure is Some {
            FlushOutcome::Failed
        } else if self.outstanding() > 0 {
            FlushOutcome::Pending { outstanding: self.outstanding() as u64 }
        } else {
            FlushOutcome::Done
        }
    }
}

impl Publisher {
    /// The publisher's invariant: that of its view.
    pub closed spec fn wf(&self) -> bool {
        self@.wf()
    }

    /// A well-formed publisher has a well-formed view.
    pub proof fn lemma_wf_view(&self)
        requires
            self.wf(),
        ensures
            self@.wf(),
    {
    }

    /// A publisher for a topic whose buffer takes `capacity` batches, and
    /// one batch where `capacity` is zero.
    pub fn publish(capacity: usize) -> (p: Publisher)
        ensures
            p.wf(),
            p@ == (PublisherView {
                capacity: if capacity == 0 {
                    1
                } else {
                    capacity as nat
                },
                accepted: 0,
                committed: 0,
                rows: 0,
                failure: None,
            }),
    {
        let capacity: u64 = if capacity == 0 {
            1
        } else {
            capacity as u64
        };
        Publisher { capacity, accepted: 0, committed: 0, rows: 0, failure: None }
    }

    /// Decides on a batch of `rows` rows.
    pub fn send(&mut self, rows: u64) -> (outcome: SendOutcome)
        requires
            old(self).wf(),
        ensures
            final(self).wf(),
            (final(self)@, outcome) == old(self)@.send(rows),
    {
        if self.failure.is_some() {
            return SendOutcome::Failed;
        }
        if self.accepted - self.committed >= self.capacity {
            return SendOutcome::Full;
        }
        if self.accepted == u64::MAX || rows > u64::MAX - self.rows {
            self.failure = Some("publisher counters exhausted".to_owned());
            return SendOutcome::Failed;
        }
        let sequence = self.accepted;
        self.accepted = self.accepted + 1;
        self.rows = self.rows + rows;
        SendOutcome::Accepted { sequence }
    }

    /// Records that the log has made `batches` more batches durable.
    pub fn commit(&mut self, batches: u64)
        requires
            old(self).wf(),
        ensures
            final(self).wf(),
            final(self)@ == old(self)@.commit(batches),
    {
        if batches <= self.accepted - self.committed {
            self.committed = self.committed + batches;
        } else {
            self.committed = self.accepted;
        }
    }

    /// Records a failure of the log or of the transport. The first failure stays.
    pub fn fail(&mut self, reason: String)
        requires
            old(self).wf(),
        ensures
            final(self).wf(),
            final(self)@ == old(self)@.fail(reason@),
    {
        if self.failure.is_none() {
            self.failure = Some(reason);
        }
    }

    /// Whether everything accepted is durable.
    pub fn flush(&self) -> (outcome: FlushOutcome)
        requires
            self.wf(),
        ensures
            outcome == self@.flush(),
    {
        if self.failure.is_some() {
            FlushOutcome::Failed
        } else if self.accepted > self.committed {
            FlushOutcome::Pending { outstanding: self.accepted - self.committed }
        } else {
            FlushOutcome::Done
        }
    }

    /// The first failure, if there was one.
    pub fn failure(&self) -> (reason: Option<&String>)
        ensures
            match reason {
                Some(text) => self@.failure == Some(text@),
                None => self@.failure is None,
            },
    {
        self.failure.as_ref()
    }

    /// The number of rows of the accepted batches.
    pub fn rows(&self) -> (n: u64)
        ensures
            n == self@.rows,
    {
        self.rows
    }

    /// The number of accepted batches.
    pub fn accepted(&self) -> (n: u64)
        ensures
            n == self@.accepted,
    {
        self.accepted
    }
}

/// The result of an update that took in `rows` rows: the count, or the
/// largest result there is where the count is beyond it.
pub fn update_result(rows: u64) -> (n: i64)
    ensures
        n == (if rows <= i64::MAX {
            rows as int
        } else {
            i64::MAX as int
        }),
{
    if rows <= i64::MAX as u64 {
        rows as i64
    } else {
        i64::MAX
    }
}

/// An accepted batch gets the sequence number after that of the batch
/// accepted before it: between two accepted sends nothing is left out.
pub proof fn lemma_sequence_is_gapless(p: PublisherView, rows: u64)
    requires
        p.wf(),
    ensures
        p.send(rows).1 matches SendOutcome::Accepted { sequence } ==> sequence == p.accepted
            && p.send(rows).0.accepted == sequence + 1 && p.send(rows).0.rows == p.rows + rows,
        !(p.send(rows).1 is Accepted) ==> p.send(rows).0.accepted == p.accepted && p.send(
            rows,
        ).0.rows == p.rows,
{
}

/// A flush is done exactly when nothing has failed and every accepted
/// batch is committed.
pub proof fn lemma_flush_done(p: PublisherView)
    requires
        p.wf(),
    ensures
        p.flush() is Done <==> p.failure is None && p.committed == p.accepted,
{
}

/// Once failed, a publisher accepts nothing and reports its first failure for good.
pub proof fn lemma_failure_is_final(p: PublisherView, reason: Seq<char>, rows: u64, batches: u64)
    requires
        p.failure is Some,
    ensures
        p.send(rows) == (p, SendOutcome::Failed),
        p.fail(reason) == p,
        p.commit(batches).failure == p.failure,
        p.flush() is Failed,
{
}

} // verus!
