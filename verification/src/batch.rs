//! Working off a list of outputs in order, up to the first write that fails.

use vstd::prelude::*;
use crate::forward;
use crate::forward::{Output, OutputView};
use crate::uinput::check_write;

verus! {

/// The effect of one output on a batch of which `position` outputs are done:
/// how many are then, and whether it failed.
pub open spec fn batch_transition(position: nat, succeeded: bool) -> (nat, bool) {
    if succeeded {
        (position + 1, false)
    } else {
        (position, true)
    }
}

/// A list of outputs that is being worked off: how many are done, and whether
/// a write has failed, which ends it.
#[derive(Debug)]
pub struct Batch {
    items: Vec<Output>,
    position: usize,
    failed: bool,
}

impl Batch {
    /// All outputs of the batch.
    pub closed spec fn outputs(self) -> Seq<OutputView> {
        forward::output_views(self.items@)
    }

    /// The number of outputs that are done.
    pub closed spec fn position(self) -> nat {
        self.position as nat
    }

    /// Whether a write has failed.
    pub closed spec fn failed(self) -> bool {
        self.failed
    }

    /// Whether an output is due.
    pub open spec fn due(self) -> bool {
        !self.failed() && self.position() < self.outputs().len()
    }

    #[verifier::type_invariant]
    spec fn well_formed(self) -> bool {
        &&& self.position <= self.items@.len()
        &&& self.failed ==> self.position < self.items@.len()
    }

    /// A batch of which nothing is done.
    pub fn new(items: Vec<Output>) -> (r: Self)
        ensures
            r.outputs() == forward::output_views(items@),
            r.position() == 0,
            !r.failed(),
    {
        Batch { items, position: 0, failed: false }
    }

    /// The output that is due: `None` once all are done, and `None` after a
    /// failed write.
    pub fn next(&self) -> (r: Option<&Output>)
        ensures
            self.position() <= self.outputs().len(),
            self.failed() ==> self.position() < self.outputs().len(),
            r is Some <==> self.due(),
            r matches Some(output) ==> output@ == self.outputs()[self.position() as int],
    {
        proof {
            use_type_invariant(self);
        }
        if !self.failed && self.position < self.items.len() {
            Some(&self.items[self.position])
        } else {
            None
        }
    }

    /// Takes in that the line that was due has been shown.
    pub fn finish_line(&mut self)
        requires
            old(self).due(),
            old(self).outputs()[old(self).position() as int] is Line,
        ensures
            final(self).outputs() == old(self).outputs(),
            (final(self).position(), final(self).failed()) == batch_transition(
                old(self).position(),
                true,
            ),
    {
        proof {
            use_type_invariant(&*self);
            assert(self.position < self.items.len());
        }
        self.position = self.position + 1;
    }

    /// Takes in what writing the event that was due returned: on success the
    /// next output is due, on failure the batch ends with a message.
    pub fn finish_write(&mut self, written: isize, os_error: &str) -> (r: Result<(), String>)
        requires
            old(self).due(),
            old(self).outputs()[old(self).position() as int] is Event,
        ensures
            final(self).outputs() == old(self).outputs(),
            (final(self).position(), final(self).failed()) == batch_transition(
                old(self).position(),
                written >= 0,
            ),
            r is Err <==> written < 0,
            r is Err <==> final(self).failed(),
            r matches Err(e) ==> e@ == "write() to uinput failed: "@ + os_error@,
    {
        proof {
            use_type_invariant(&*self);
            assert(self.position < self.items.len());
        }
        let r: Result<(), String> = check_write(written, os_error);
        if r.is_ok() {
            self.position = self.position + 1;
        } else {
            self.failed = true;
        }
        r
    }
}

/// A batch after its outputs went as `succeeded` says in turn: the number that
/// is done, and whether one failed, which ends it.
pub open spec fn batch_after(succeeded: Seq<bool>) -> (nat, bool)
    decreases succeeded.len(),
{
    if succeeded.len() == 0 {
        (0, false)
    } else {
        let (position, failed) = batch_after(succeeded.drop_last());
        if failed {
            (position, failed)
        } else {
            batch_transition(position, succeeded.last())
        }
    }
}

/// As long as nothing fails, everything is done in turn.
pub proof fn law_all_done(succeeded: Seq<bool>)
    requires
        forall|i: int| 0 <= i < succeeded.len() ==> #[trigger] succeeded[i],
    ensures
        batch_after(succeeded) == (succeeded.len(), false),
    decreases succeeded.len(),
{
    if succeeded.len() > 0 {
        law_all_done(succeeded.drop_last());
    }
}

/// The first failure ends the batch: whatever comes after it, what is done are
/// the outputs before it, and nothing further is due.
pub proof fn law_failed_write_ends(succeeded: Seq<bool>, k: int)
    requires
        0 <= k < succeeded.len(),
        !succeeded[k],
        forall|i: int| 0 <= i < k ==> #[trigger] succeeded[i],
    ensures
        batch_after(succeeded) == (k as nat, true),
    decreases succeeded.len(),
{
    let before = succeeded.drop_last();
    if k < before.len() {
        law_failed_write_ends(before, k);
    } else {
        law_all_done(before);
    }
}

/// The outputs that go through when those of a batch go as `succeeded` says in
/// turn: each that was due and succeeded.
pub open spec fn performed(outputs: Seq<OutputView>, succeeded: Seq<bool>) -> Seq<OutputView>
    decreases succeeded.len(),
{
    if succeeded.len() == 0 {
        Seq::empty()
    } else {
        let (position, failed) = batch_after(succeeded.drop_last());
        let before = performed(outputs, succeeded.drop_last());
        if !failed && succeeded.last() {
            before.push(outputs[position as int])
        } else {
            before
        }
    }
}

/// What goes through is a prefix of the batch, as long as the count of what is
/// done says.
pub proof fn law_performed_prefix(outputs: Seq<OutputView>, succeeded: Seq<bool>)
    requires
        succeeded.len() <= outputs.len(),
    ensures
        batch_after(succeeded).0 <= succeeded.len(),
        performed(outputs, succeeded) == outputs.take(batch_after(succeeded).0 as int),
        performed(outputs, succeeded).is_prefix_of(outputs),
    decreases succeeded.len(),
{
    if succeeded.len() > 0 {
        let before = succeeded.drop_last();
        law_performed_prefix(outputs, before);
        let n = batch_after(before).0 as int;
        assert(outputs.take(n + 1) =~= outputs.take(n).push(outputs[n]));
    }
    let n = batch_after(succeeded).0 as int;
    assert(outputs.take(n) =~= outputs.subrange(0, n));
}

/// A batch goes on with the output after the one that was done, and with none
/// after a write that failed.
pub proof fn law_batch_goes_on(
    batch: &mut Batch,
    written: isize,
    os_error: &str,
    r: Result<(), String>,
    due: Option<&Output>,
    next: Option<&Output>,
)
    requires
        call_ensures(Batch::next, (&*old(batch),), due),
        call_ensures(Batch::finish_write, (batch, written, os_error), r),
        call_ensures(Batch::next, (&*final(batch),), next),
        due is Some,
    ensures
        final(batch).outputs() == old(batch).outputs(),
        r is Err <==> written < 0,
        r matches Err(e) ==> e@ == "write() to uinput failed: "@ + os_error@,
        written < 0 ==> next is None && final(batch).position() == old(batch).position(),
        written >= 0 ==> final(batch).position() == old(batch).position() + 1,
        written >= 0 ==> (next is Some <==> final(batch).position() < old(batch).outputs().len()),
        next matches Some(output) ==> output@ == old(batch).outputs()[final(batch).position() as int],
{
}

/// The same after a line has been shown, which cannot fail.
pub proof fn law_line_goes_on(batch: &mut Batch, due: Option<&Output>, next: Option<&Output>)
    requires
        call_ensures(Batch::next, (&*old(batch),), due),
        call_ensures(Batch::finish_line, (batch,), ()),
        call_ensures(Batch::next, (&*final(batch),), next),
        due is Some,
    ensures
        final(batch).outputs() == old(batch).outputs(),
        final(batch).position() == old(batch).position() + 1,
        next is Some <==> final(batch).position() < old(batch).outputs().len(),
        next matches Some(output) ==> output@ == old(batch).outputs()[final(batch).position() as int],
{
}

/// A new batch holds the outputs that it is made of, and starts with the first.
pub proof fn law_batch_begins(items: Vec<Output>, batch: Batch, first: Option<&Output>)
    requires
        call_ensures(Batch::new, (items,), batch),
        call_ensures(Batch::next, (&batch,), first),
    ensures
        batch.outputs() == forward::output_views(items@),
        batch.position() == 0,
        first is Some <==> items@.len() > 0,
        first matches Some(output) ==> output@ == items@[0]@,
{
    assert(forward::output_views(items@).len() == items@.len());
}

} // verus!
