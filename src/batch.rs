use vstd::prelude::*;
use crate::error::RedisError;

verus! {

/// The result of one command.
pub type Outcome = Result<Vec<u8>, RedisError>;

/// The results of an ordered batch, gathered as they arrive from whichever
/// server each command went to, and handed out in submission order.
pub struct Batch {
    results: Vec<Option<Outcome>>,
}

/// The batch's slots after recording `value` at `index`: a slot is filled once,
/// and a second result for it, or an index past the end, changes nothing.
pub open spec fn record_step(slots: Seq<Option<Outcome>>, index: int, value: Outcome) -> Seq<Option<Outcome>> {
    if 0 <= index < slots.len() && slots[index] is None {
        slots.update(index, Some(value))
    } else {
        slots
    }
}

/// Whether every slot holds a result.
pub open spec fn all_filled(slots: Seq<Option<Outcome>>) -> bool {
    forall|i: int| 0 <= i < slots.len() ==> #[trigger] slots[i] is Some
}

impl View for Batch {
    type V = Seq<Option<Outcome>>;

    closed spec fn view(&self) -> Seq<Option<Outcome>> {
        self.results@
    }
}

impl Batch {
    /// A batch of `n` commands, none answered yet.
    pub fn new(n: usize) -> (r: Batch)
        ensures
            r@.len() == n,
            forall|i: int| 0 <= i < n ==> #[trigger] r@[i] is None,
    {
        let mut results: Vec<Option<Outcome>> = Vec::new();
        let mut i: usize = 0;
        while i < n
            invariant
                i <= n,
                results@.len() == i,
                forall|k: int| 0 <= k < i ==> #[trigger] results@[k] is None,
            decreases n - i,
        {
            results.push(None);
            i = i + 1;
        }
        Batch { results }
    }

    /// Number of commands in the batch.
    pub fn len(&self) -> (r: usize)
        ensures
            r == self@.len(),
    {
        self.results.len()
    }

    /// Records the result of the command submitted at `index`; says whether it
    /// was taken (it is not when that command already has one).
    pub fn record(&mut self, index: usize, value: Outcome) -> (r: bool)
        ensures
            final(self)@ == record_step(old(self)@, index as int, value),
            r == (index < old(self)@.len() && old(self)@[index as int] is None),
    {
        if index < self.results.len() && self.results[index].is_none() {
            self.results.set(index, Some(value));
            true
        } else {
            false
        }
    }

    /// Whether every command has its result.
    pub fn is_complete(&self) -> (r: bool)
        ensures
            r == all_filled(self@),
    {
        let mut i: usize = 0;
        while i < self.results.len()
            invariant
                i <= self@.len(),
                self@ == self.results@,
                forall|k: int| 0 <= k < i ==> #[trigger] self@[k] is Some,
            decreases self.results.len() - i,
        {
            if self.results[i].is_none() {
                return false;
            }
            i = i + 1;
        }
        true
    }

    /// The results in submission order, once every command has one; the batch
    /// as it was otherwise.
    pub fn finish(self) -> (r: Result<Vec<Outcome>, Batch>)
        ensures
            all_filled(self@) ==> (r matches Ok(v) && v@.len() == self@.len() && forall|i: int|
                0 <= i < v@.len() ==> self@[i] == Some(#[trigger] v@[i])),
            !all_filled(self@) ==> (r matches Err(b) && b@ == self@),
    {
        if !self.is_complete() {
            return Err(self);
        }
        let ghost all = self@;
        let mut rest = self.results;
        let mut out: Vec<Outcome> = Vec::new();
        while rest.len() > 0
            invariant
                all_filled(all),
                out@.len() + rest@.len() == all.len(),
                rest@ == all.subrange(out@.len() as int, all.len() as int),
                forall|i: int| 0 <= i < out@.len() ==> all[i] == Some(#[trigger] out@[i]),
            decreases rest@.len(),
        {
            let ghost k = out@.len() as int;
            let slot = rest.remove(0);
            assert(slot == all[k]);
            assert(all[k] is Some);
            match slot {
                Some(v) => out.push(v),
                None => {},
            }
            assert(rest@ =~= all.subrange(out@.len() as int, all.len() as int));
        }
        Ok(out)
    }
}

/// The position of the command sent under caller id `id` in a batch of `n`
/// whose ids start at `first_id`; -1 when the id is not one of the batch's.
pub open spec fn position_of(first_id: u64, id: u64, n: int) -> int {
    if first_id <= id && (id as int) < first_id + n {
        id - first_id
    } else {
        -1
    }
}

/// A batch in flight: its commands were sent under the caller ids `first_id`,
/// `first_id + 1`, ..., in submission order, and the result for an id goes to
/// that command's position.
pub struct BatchRun {
    first_id: u64,
    batch: Batch,
}

impl BatchRun {
    pub closed spec fn first_id_view(&self) -> u64 {
        self.first_id
    }

    pub closed spec fn slots(&self) -> Seq<Option<Outcome>> {
        self.batch@
    }

    /// A batch of `n` commands sent under ids from `first_id`, none answered.
    pub fn new(first_id: u64, n: usize) -> (r: BatchRun)
        ensures
            r.first_id_view() == first_id,
            r.slots().len() == n,
            forall|i: int| 0 <= i < n ==> #[trigger] r.slots()[i] is None,
    {
        BatchRun { first_id, batch: Batch::new(n) }
    }

    /// Records the result delivered for caller id `id`; says whether it was
    /// taken (it is not when the id is not the batch's, or already has one).
    pub fn complete(&mut self, id: u64, value: Outcome) -> (r: bool)
        ensures
            final(self).first_id_view() == old(self).first_id_view(),
            final(self).slots() == record_step(
                old(self).slots(),
                position_of(old(self).first_id_view(), id, old(self).slots().len() as int),
                value,
            ),
            r == (position_of(old(self).first_id_view(), id, old(self).slots().len() as int) >= 0
                && old(self).slots()[position_of(
                old(self).first_id_view(),
                id,
                old(self).slots().len() as int,
            )] is None),
    {
        let n = self.batch.len();
        if id >= self.first_id && id - self.first_id < n as u64 {
            self.batch.record((id - self.first_id) as usize, value)
        } else {
            false
        }
    }

    /// Whether every command has its result.
    pub fn is_complete(&self) -> (r: bool)
        ensures
            r == all_filled(self.slots()),
    {
        self.batch.is_complete()
    }

    /// The results in submission order, once every command has one; the run as
    /// it was otherwise.
    pub fn finish(self) -> (r: Result<Vec<Outcome>, BatchRun>)
        ensures
            all_filled(self.slots()) ==> (r matches Ok(v) && v@.len() == self.slots().len() && forall|i: int|
                0 <= i < v@.len() ==> self.slots()[i] == Some(#[trigger] v@[i])),
            !all_filled(self.slots()) ==> (r matches Err(b) && b.slots() == self.slots()
                && b.first_id_view() == self.first_id_view()),
    {
        let first_id = self.first_id;
        match self.batch.finish() {
            Ok(v) => Ok(v),
            Err(batch) => Err(BatchRun { first_id, batch }),
        }
    }
}

} // verus!
