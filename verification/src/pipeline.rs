//! The sync pipeline: symbols dealt out to workers, and one channel that
//! takes what the workers emit and feeds a single save stage.

use crate::error::Error;
use crate::symbol::Symbol;
use std::collections::VecDeque;
use vstd::prelude::*;

verus! {

/// Where the share of worker `g` begins when `len` symbols are dealt out to
/// `n` workers in consecutive runs: every worker gets `len / n` symbols, and
/// the first `len % n` workers get one more.
pub open spec fn share_start(len: nat, n: nat, g: nat) -> nat {
    g * (len / n) + if g < len % n {
        g
    } else {
        len % n
    }
}

/// The shares follow one another from the first symbol to the last: they
/// begin at 0, end at `len`, and each has `len / n` symbols or one more. So
/// every symbol is in exactly one share.
pub proof fn lemma_shares_tile(len: nat, n: nat, g: nat)
    requires
        n > 0,
        g < n,
    ensures
        share_start(len, n, 0) == 0,
        share_start(len, n, n) == len,
        share_start(len, n, g + 1) == share_start(len, n, g) + len / n + if g < len % n {
            1nat
        } else {
            0nat
        },
        share_start(len, n, g + 1) <= len,
{
    let q = len / n;
    let r = len % n;
    assert(len == n * q + r && r < n) by (nonlinear_arith)
        requires
            n > 0,
            q == len / n,
            r == len % n,
    ;
    assert((g + 1) * q == g * q + q) by (nonlinear_arith);
    assert(0 * q == 0) by (nonlinear_arith);
    assert((g + 1) * q <= n * q) by (nonlinear_arith)
        requires
            g + 1 <= n,
            q >= 0,
    ;
}

/// A later share does not begin before an earlier one.
pub proof fn lemma_shares_in_order(len: nat, n: nat, g: nat, h: nat)
    requires
        n > 0,
        g <= h <= n,
    ensures
        share_start(len, n, g) <= share_start(len, n, h),
    decreases h - g,
{
    if g < h {
        lemma_shares_tile(len, n, g);
        lemma_shares_in_order(len, n, g + 1, h);
    }
}

/// The symbol at position `i` is in the share of worker `g`.
pub open spec fn in_share(len: nat, n: nat, g: nat, i: nat) -> bool {
    g < n && share_start(len, n, g) <= i < share_start(len, n, g + 1)
}

proof fn lemma_share_found(len: nat, n: nat, i: nat, g: nat) -> (w: nat)
    requires
        n > 0,
        i < len,
        g < n,
        share_start(len, n, g) <= i,
    ensures
        in_share(len, n, w, i),
    decreases n - g,
{
    lemma_shares_tile(len, n, g);
    if i < share_start(len, n, g + 1) {
        g
    } else {
        lemma_share_found(len, n, i, g + 1)
    }
}

/// The shares are disjoint and leave nothing out: every symbol is in the
/// share of exactly one worker.
pub proof fn lemma_every_symbol_in_one_share(len: nat, n: nat, i: nat)
    requires
        n > 0,
        i < len,
    ensures
        exists|g: nat| in_share(len, n, g, i),
        forall|g: nat, h: nat| in_share(len, n, g, i) && in_share(len, n, h, i) ==> g == h,
{
    lemma_shares_tile(len, n, 0);
    let w = lemma_share_found(len, n, i, 0);
    assert(in_share(len, n, w, i));
    assert forall|g: nat, h: nat| in_share(len, n, g, i) && in_share(len, n, h, i) implies g
        == h by {
        if g < h {
            lemma_shares_in_order(len, n, g + 1, h);
        }
        if h < g {
            lemma_shares_in_order(len, n, h + 1, g);
        }
    }
}

/// Deals the symbols out to `task_n` workers, in consecutive runs of nearly
/// equal length. There is no share for nobody.
pub fn partition(symbols: &Vec<Symbol>, task_n: usize) -> (r: Option<Vec<Vec<Symbol>>>)
    ensures
        task_n == 0 <==> r is None,
        r matches Some(groups) ==> {
            &&& groups@.len() == task_n
            &&& forall|g: int|
                0 <= g < task_n ==> (#[trigger] groups@[g])@ == symbols@.subrange(
                    share_start(symbols@.len(), task_n as nat, g as nat) as int,
                    share_start(symbols@.len(), task_n as nat, (g + 1) as nat) as int,
                )
        },
{
    if task_n == 0 {
        return None;
    }
    let len: usize = symbols.len();
    let q: usize = len / task_n;
    let r: usize = len % task_n;
    let mut groups: Vec<Vec<Symbol>> = Vec::new();
    let mut at: usize = 0;
    let mut g: usize = 0;
    proof {
        lemma_shares_tile(len as nat, task_n as nat, 0);
    }
    while g < task_n
        invariant
            task_n > 0,
            g <= task_n,
            len == symbols@.len(),
            q == len / task_n,
            r == len % task_n,
            at == share_start(len as nat, task_n as nat, g as nat),
            at <= len,
            groups@.len() == g,
            forall|h: int|
                0 <= h < g ==> (#[trigger] groups@[h])@ == symbols@.subrange(
                    share_start(len as nat, task_n as nat, h as nat) as int,
                    share_start(len as nat, task_n as nat, (h + 1) as nat) as int,
                ),
        decreases task_n - g,
    {
        proof {
            lemma_shares_tile(len as nat, task_n as nat, g as nat);
        }
        let size: usize = if g < r {
            q + 1
        } else {
            q
        };
        let mut group: Vec<Symbol> = Vec::new();
        let mut j: usize = 0;
        while j < size
            invariant
                j <= size,
                at + size <= len,
                len == symbols@.len(),
                group@ == symbols@.subrange(at as int, at + j),
            decreases size - j,
        {
            group.push(symbols[at + j].duplicate());
            assert(group@ =~= symbols@.subrange(at as int, at + j + 1));
            j += 1;
        }
        let ghost before = groups@;
        groups.push(group);
        proof {
            assert forall|h: int| 0 <= h < g + 1 implies (#[trigger] groups@[h])@
                == symbols@.subrange(
                share_start(len as nat, task_n as nat, h as nat) as int,
                share_start(len as nat, task_n as nat, (h + 1) as nat) as int,
            ) by {
                if h < g {
                    assert(groups@[h] == before[h]);
                }
            }
        }
        at = at + size;
        g += 1;
    }
    Some(groups)
}

/// The failure that a pipeline reports: that of the first worker, in the
/// order of the workers, that has failed; where no worker has, that of the
/// save stage.
pub open spec fn spec_join(workers: Seq<Result<(), Error>>, save: Result<(), Error>) -> Result<
    (),
    Error,
> {
    if exists|i: int| 0 <= i < workers.len() && (#[trigger] workers[i]) is Err {
        let first = choose|i: int|
            0 <= i < workers.len() && (#[trigger] workers[i]) is Err && forall|j: int|
                0 <= j < i ==> (#[trigger] workers[j]) is Ok;
        workers[first]
    } else {
        save
    }
}

/// Joins what the workers and the save stage ended with into what the
/// pipeline ends with. The pipeline succeeds where all of them did.
pub fn join(workers: &Vec<Result<(), Error>>, save: &Result<(), Error>) -> (r: Result<(), Error>)
    ensures
        r == spec_join(workers@, *save),
        r is Ok <==> (save is Ok && forall|i: int|
            0 <= i < workers@.len() ==> (#[trigger] workers@[i]) is Ok),
{
    let mut i: usize = 0;
    while i < workers.len()
        invariant
            i <= workers.len(),
            forall|j: int| 0 <= j < i ==> (#[trigger] workers@[j]) is Ok,
        decreases workers.len() - i,
    {
        match &workers[i] {
            Err(e) => {
                proof {
                    let w = workers@;
                    let first = choose|k: int|
                        0 <= k < w.len() && (#[trigger] w[k]) is Err && forall|j: int|
                            0 <= j < k ==> (#[trigger] w[j]) is Ok;
                    assert(w[i as int] is Err);
                    if first < i {
                        assert(w[first] is Ok);
                    }
                    if i < first {
                        assert(w[i as int] is Ok);
                    }
                }
                return Err(e.duplicate());
            },
            Ok(_) => {},
        }
        i += 1;
    }
    match save {
        Ok(done) => Ok(*done),
        Err(e) => Err(e.duplicate()),
    }
}

/// The books of the channel between the workers and the save stage.
pub struct FanInState<T> {
    /// What the channel has accepted, in the order of arrival.
    pub sent: Seq<T>,
    /// How many of these the save stage has taken out.
    pub taken: nat,
    /// How many of these it has saved.
    pub saved: nat,
    /// The workers that have not ended.
    pub producers: nat,
    /// Whether the save stage has failed, which closes the channel.
    pub broken: bool,
}

impl<T> FanInState<T> {
    /// The save stage takes the batches one at a time and in their order:
    /// it has saved all that it has taken but at most the last one.
    pub open spec fn wf(self) -> bool {
        &&& self.saved <= self.taken <= self.sent.len()
        &&& self.taken <= self.saved + 1
    }

    /// The save stage is at work on a batch.
    pub open spec fn saving(self) -> bool {
        self.saved < self.taken
    }

    /// Nothing is left to save and nothing can come any more.
    pub open spec fn drained(self) -> bool {
        !self.broken && self.producers == 0 && self.saved == self.sent.len()
    }

    /// The books after a worker has offered `item`: the channel accepts it
    /// unless it is closed.
    pub open spec fn after_send(self, item: T) -> FanInState<T> {
        if self.broken {
            self
        } else {
            FanInState { sent: self.sent.push(item), ..self }
        }
    }

    /// The books after a worker has ended.
    pub open spec fn after_producer_done(self) -> FanInState<T> {
        if self.producers > 0 {
            FanInState { producers: (self.producers - 1) as nat, ..self }
        } else {
            self
        }
    }

    /// The save stage can take a batch: it is idle and one is waiting.
    pub open spec fn can_take(self) -> bool {
        !self.broken && !self.saving() && self.taken < self.sent.len()
    }

    /// The books after the save stage has asked for a batch.
    pub open spec fn after_take(self) -> FanInState<T> {
        if self.can_take() {
            FanInState { taken: self.taken + 1, ..self }
        } else {
            self
        }
    }

    /// The books after the save stage has reported on the batch that it was
    /// at work on. A failure closes the channel.
    pub open spec fn after_saved(self, ok: bool) -> FanInState<T> {
        if self.broken || !self.saving() {
            self
        } else if ok {
            FanInState { saved: self.saved + 1, ..self }
        } else {
            FanInState { broken: true, ..self }
        }
    }
}

/// What the save stage gets when it asks for a batch.
#[derive(Debug)]
pub enum Take<T> {
    /// The batch that has waited longest. Save it and report with [`FanIn::saved`].
    Item(T),
    /// Nothing can be taken now.
    Pending,
    /// The save stage is done: the channel is drained, or closed by a failure.
    Drained,
}

/// Once the channel is drained, every batch that it accepted has been taken
/// out once, in the order of arrival, and saved.
pub proof fn lemma_drained_means_all_saved<T>(s: FanInState<T>)
    requires
        s.wf(),
        s.drained(),
    ensures
        s.saved == s.sent.len(),
        s.taken == s.sent.len(),
        !s.can_take(),
{
}

/// The channel that takes what the workers emit and the save stage that
/// drains it, as one unit.
pub struct FanIn<T> {
    queue: VecDeque<T>,
    producers: usize,
    saving: bool,
    broken: bool,
    sent: Ghost<Seq<T>>,
    taken: Ghost<nat>,
}

impl<T> View for FanIn<T> {
    type V = FanInState<T>;

    closed spec fn view(&self) -> FanInState<T> {
        FanInState {
            sent: self.sent@,
            taken: self.taken@,
            saved: if self.saving {
                (self.taken@ - 1) as nat
            } else {
                self.taken@
            },
            producers: self.producers as nat,
            broken: self.broken,
        }
    }
}

impl<T> FanIn<T> {
    #[verifier::type_invariant]
    spec fn inv(&self) -> bool {
        &&& self.taken@ <= self.sent@.len()
        &&& self.saving ==> self.taken@ >= 1
        &&& !self.broken ==> self.queue@ == self.sent@.skip(self.taken@ as int)
        &&& self.broken ==> self.queue@.len() == 0
    }

    /// An empty channel with `producers` workers at its sending end.
    pub fn new(producers: usize) -> (f: FanIn<T>)
        ensures
            f@.wf(),
            f@.sent == Seq::<T>::empty(),
            f@.taken == 0,
            f@.saved == 0,
            f@.producers == producers,
            !f@.broken,
    {
        let queue: VecDeque<T> = VecDeque::new();
        assert(queue@ =~= Seq::<T>::empty().skip(0));
        FanIn {
            queue,
            producers,
            saving: false,
            broken: false,
            sent: Ghost(Seq::empty()),
            taken: Ghost(0),
        }
    }

    /// The number of batches that wait to be taken.
    pub fn waiting(&self) -> (n: usize)
        ensures
            self@.wf(),
            n == if self@.broken {
                0
            } else {
                self@.sent.len() - self@.taken
            },
    {
        proof {
            use_type_invariant(self);
        }
        self.queue.len()
    }

    /// Offers `item` to the channel. A closed channel hands it back.
    pub fn send(&mut self, item: T) -> (r: Result<(), T>)
        ensures
            final(self)@ == old(self)@.after_send(item),
            final(self)@.wf(),
            match r {
                Ok(_) => !old(self)@.broken,
                Err(back) => old(self)@.broken && back == item,
            },
    {
        proof {
            use_type_invariant(&*self);
        }
        if self.broken {
            return Err(item);
        }
        let mut taken_out: FanIn<T> = FanIn::new(0);
        core::mem::swap(self, &mut taken_out);
        let FanIn { queue, producers, saving, broken, sent, taken } = taken_out;
        let mut queue = queue;
        queue.push_back(item);
        proof {
            assert(queue@ =~= sent@.push(item).skip(taken@ as int));
        }
        *self = FanIn { queue, producers, saving, broken, sent: Ghost(sent@.push(item)), taken };
        Ok(())
    }

    /// Takes note that a worker has ended.
    pub fn producer_done(&mut self)
        ensures
            final(self)@ == old(self)@.after_producer_done(),
            final(self)@.wf(),
    {
        proof {
            use_type_invariant(&*self);
        }
        if self.producers > 0 {
            self.producers = self.producers - 1;
        }
    }

    /// Hands the batch that has waited longest to the save stage.
    pub fn take(&mut self) -> (r: Take<T>)
        ensures
            final(self)@ == old(self)@.after_take(),
            final(self)@.wf(),
            match r {
                Take::Item(item) => old(self)@.can_take() && item == old(self)@.sent[old(
                    self,
                )@.taken as int],
                Take::Pending => !old(self)@.can_take() && !old(self)@.broken && !old(
                    self,
                )@.drained(),
                Take::Drained => old(self)@.broken || old(self)@.drained(),
            },
    {
        proof {
            use_type_invariant(&*self);
        }
        if self.broken {
            return Take::Drained;
        }
        if self.saving {
            return Take::Pending;
        }
        if self.queue.len() == 0 {
            if self.producers == 0 {
                return Take::Drained;
            } else {
                return Take::Pending;
            }
        }
        let mut taken_out: FanIn<T> = FanIn::new(0);
        core::mem::swap(self, &mut taken_out);
        let FanIn { queue, producers, saving, broken, sent, taken } = taken_out;
        let mut queue = queue;
        let first = queue.pop_front();
        proof {
            assert(queue@ =~= sent@.skip(taken@ as int + 1));
        }
        *self = FanIn { queue, producers, saving: true, broken, sent, taken: Ghost((taken@ + 1) as nat) };
        match first {
            Some(item) => Take::Item(item),
            None => Take::Pending,
        }
    }

    /// Takes the report of the save stage on the batch that it took last.
    /// After a failure the batches that still wait are dropped.
    pub fn saved(&mut self, ok: bool)
        ensures
            final(self)@ == old(self)@.after_saved(ok),
            final(self)@.wf(),
    {
        proof {
            use_type_invariant(&*self);
        }
        if self.broken || !self.saving {
            return ;
        }
        if ok {
            self.saving = false;
        } else {
            let mut taken_out: FanIn<T> = FanIn::new(0);
            core::mem::swap(self, &mut taken_out);
            let FanIn { queue: _, producers, saving, broken: _, sent, taken } = taken_out;
            *self = FanIn { queue: VecDeque::new(), producers, saving, broken: true, sent, taken };
        }
    }

    /// Whether the save stage is done with success: nothing is left to save
    /// and nothing can come any more.
    pub fn is_drained(&self) -> (b: bool)
        ensures
            b == self@.drained(),
            self@.wf(),
    {
        proof {
            use_type_invariant(self);
        }
        !self.broken && self.producers == 0 && !self.saving && self.queue.len() == 0
    }
}

} // verus!
