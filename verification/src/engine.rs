//! The strategy execution engine: one test per symbol, a bounded number of
//! them in flight, results collected by declared type.
//!
//! The engine decides and keeps the books; the caller runs the tests. The
//! caller asks [`Engine::poll`] what to do, starts the test that it names,
//! and reports every test that ends with [`Engine::complete`]. A stop signal
//! is reported with [`Engine::cancel`]. After a failure or a cancellation the
//! engine starts nothing and takes no further result: what is in flight at
//! that moment is lost.

use crate::error::Error;
use crate::strategy::{Aggregation, StrategyResult, StrategyType};
use crate::symbol::Symbol;
use vstd::prelude::*;

verus! {

/// What the caller of the engine does next.
#[derive(Clone, Copy, Debug, PartialEq, Eq, Structural)]
pub enum EngineAction {
    /// Start the test of the symbol at this position and poll again.
    Start { index: usize },
    /// Nothing can start now. Wait for a test to end or for the stop signal.
    Wait,
    /// The run is over. Tests that still run are to be dropped.
    Finished,
}

/// The books of a run.
pub struct EngineState<S> {
    /// The number of symbols of the run.
    pub total: nat,
    /// The most tests that may be in flight at once.
    pub limit: nat,
    /// The number of tests started so far. Symbols start in their order, so
    /// this is also the position of the symbol that starts next.
    pub started: nat,
    /// The positions of the symbols whose test is in flight.
    pub in_flight: Seq<usize>,
    /// The results that came in, in the order in which they came.
    pub results: Seq<StrategyResult<S>>,
    /// The failure of the first test that failed.
    pub failure: Option<Error>,
    /// Whether the stop signal was seen before any failure.
    pub cancelled: bool,
}

/// What happens to a run.
pub enum EngineEvent<S> {
    /// The caller asks what to do.
    Poll,
    /// The test of the symbol at a position has ended.
    Complete(usize, Result<Option<StrategyResult<S>>, Error>),
    /// The stop signal was raised.
    Cancel,
}

impl<S> EngineState<S> {
    /// The books are in order.
    pub open spec fn wf(self) -> bool {
        &&& 1 <= self.limit
        &&& self.in_flight.len() <= self.limit
        &&& self.started <= self.total <= usize::MAX
        &&& self.in_flight.no_duplicates()
        &&& forall|i: int| 0 <= i < self.in_flight.len() ==> (#[trigger] self.in_flight[i]) < self.started
        &&& self.results.len() + self.in_flight.len() <= self.started
        &&& self.halted() ==> self.in_flight.len() == 0
        &&& !(self.cancelled && self.failure is Some)
    }

    /// The books of a run that has not begun.
    pub open spec fn initial(total: nat, limit: nat) -> EngineState<S> {
        EngineState {
            total,
            limit,
            started: 0,
            in_flight: Seq::empty(),
            results: Seq::empty(),
            failure: None,
            cancelled: false,
        }
    }

    /// The run was stopped or has failed.
    pub open spec fn halted(self) -> bool {
        self.cancelled || self.failure is Some
    }

    /// A test can start: the run goes on, a slot is free and a symbol is left.
    pub open spec fn can_start(self) -> bool {
        !self.halted() && self.in_flight.len() < self.limit && self.started < self.total
    }

    /// The answer to a poll.
    pub open spec fn action(self) -> EngineAction {
        if self.can_start() {
            EngineAction::Start { index: self.started as usize }
        } else if !self.halted() && self.in_flight.len() > 0 {
            EngineAction::Wait
        } else {
            EngineAction::Finished
        }
    }

    /// The books after a poll: where a test can start, it is in flight.
    pub open spec fn after_poll(self) -> EngineState<S> {
        if self.can_start() {
            EngineState {
                started: self.started + 1,
                in_flight: self.in_flight.push(self.started as usize),
                ..self
            }
        } else {
            self
        }
    }

    /// The result of a test counts: the run goes on and the test is in flight.
    pub open spec fn accepts(self, index: usize) -> bool {
        !self.halted() && self.in_flight.contains(index)
    }

    /// The books after the test at `index` has ended with `outcome`.
    ///
    /// A result that does not count changes nothing. One that counts frees
    /// its slot; a finding is put at the end of the results, and a failure
    /// ends the run and drops what is in flight.
    pub open spec fn after_complete(
        self,
        index: usize,
        outcome: Result<Option<StrategyResult<S>>, Error>,
    ) -> EngineState<S> {
        if !self.accepts(index) {
            self
        } else {
            let rest = self.in_flight.remove(self.in_flight.index_of(index));
            match outcome {
                Ok(Some(r)) => EngineState {
                    in_flight: rest,
                    results: self.results.push(r),
                    ..self
                },
                Ok(None) => EngineState { in_flight: rest, ..self },
                Err(e) => EngineState { in_flight: Seq::empty(), failure: Some(e), ..self },
            }
        }
    }

    /// The books after the stop signal: what is in flight is dropped, what
    /// came in stays. A run that has failed stays failed.
    pub open spec fn after_cancel(self) -> EngineState<S> {
        if self.halted() {
            self
        } else {
            EngineState { in_flight: Seq::empty(), cancelled: true, ..self }
        }
    }

    /// The books after one event.
    pub open spec fn after(self, event: EngineEvent<S>) -> EngineState<S> {
        match event {
            EngineEvent::Poll => self.after_poll(),
            EngineEvent::Complete(index, outcome) => self.after_complete(index, outcome),
            EngineEvent::Cancel => self.after_cancel(),
        }
    }

    /// The books after a series of events.
    pub open spec fn after_all(self, events: Seq<EngineEvent<S>>) -> EngineState<S>
        decreases events.len(),
    {
        if events.len() == 0 {
            self
        } else {
            self.after_all(events.drop_last()).after(events.last())
        }
    }

    /// What the run returns: the failure of the first test that failed, or
    /// else the results that came in.
    pub open spec fn outcome(self) -> Result<Seq<StrategyResult<S>>, Error> {
        match self.failure {
            Some(e) => Err(e),
            None => Ok(self.results),
        }
    }
}

/// Every event leaves the books in order.
pub proof fn lemma_event_keeps_order<S>(s: EngineState<S>, event: EngineEvent<S>)
    requires
        s.wf(),
    ensures
        s.after(event).wf(),
        s.after(event).total == s.total,
        s.after(event).limit == s.limit,
{
    match event {
        EngineEvent::Poll => {
            if s.can_start() {
                let t = s.after_poll();
                assert forall|i: int, j: int|
                    0 <= i < t.in_flight.len() && 0 <= j < t.in_flight.len() && i
                        != j implies t.in_flight[i] != t.in_flight[j] by {
                    if i < s.in_flight.len() {
                        assert(t.in_flight[i] == s.in_flight[i]);
                        assert(s.in_flight[i] < s.started);
                    }
                    if j < s.in_flight.len() {
                        assert(t.in_flight[j] == s.in_flight[j]);
                        assert(s.in_flight[j] < s.started);
                    }
                }
            }
        },
        EngineEvent::Complete(index, outcome) => {
            if s.accepts(index) {
                let k = s.in_flight.index_of(index);
                let rest = s.in_flight.remove(k);
                assert forall|i: int| 0 <= i < rest.len() implies (#[trigger] rest[i])
                    < s.started by {
                    if i < k {
                        assert(rest[i] == s.in_flight[i]);
                    } else {
                        assert(rest[i] == s.in_flight[i + 1]);
                    }
                }
                assert forall|i: int, j: int|
                    0 <= i < rest.len() && 0 <= j < rest.len() && i != j implies rest[i]
                    != rest[j] by {
                    let a = if i < k {
                        i
                    } else {
                        i + 1
                    };
                    let b = if j < k {
                        j
                    } else {
                        j + 1
                    };
                    assert(rest[i] == s.in_flight[a]);
                    assert(rest[j] == s.in_flight[b]);
                }
            }
        },
        EngineEvent::Cancel => {},
    }
}

/// Whatever happens to a run, its books stay in order, and so there are
/// never more tests in flight than the limit allows.
pub proof fn lemma_never_over_limit<S>(s: EngineState<S>, events: Seq<EngineEvent<S>>)
    requires
        s.wf(),
    ensures
        s.after_all(events).wf(),
        s.after_all(events).in_flight.len() <= s.limit,
        s.after_all(events).limit == s.limit,
        s.after_all(events).total == s.total,
    decreases events.len(),
{
    if events.len() > 0 {
        lemma_never_over_limit(s, events.drop_last());
        lemma_event_keeps_order(s.after_all(events.drop_last()), events.last());
    }
}

/// A run that begins with room for at least one test has its books in order.
pub proof fn lemma_initial_in_order<S>(total: nat, limit: nat)
    requires
        limit >= 1,
        total <= usize::MAX,
    ensures
        EngineState::<S>::initial(total, limit).wf(),
{
}

/// The stop signal drops what is in flight and keeps what came in.
pub proof fn lemma_cancel_keeps_results<S>(s: EngineState<S>)
    requires
        s.wf(),
    ensures
        s.after_cancel().results == s.results,
        s.after_cancel().in_flight.len() == 0,
        s.after_cancel().started == s.started,
        s.after_cancel().halted(),
        s.failure is None ==> s.after_cancel().outcome() == Ok::<
            Seq<StrategyResult<S>>,
            Error,
        >(s.results),
{
}

/// Once a run is stopped or has failed, nothing that happens changes its
/// books: no test starts, no result is taken, and what the run returns is
/// what it would have returned at that moment.
pub proof fn lemma_halted_run_is_frozen<S>(s: EngineState<S>, events: Seq<EngineEvent<S>>)
    requires
        s.wf(),
        s.halted(),
    ensures
        s.after_all(events) == s,
        s.after_all(events).action() == EngineAction::Finished,
    decreases events.len(),
{
    if events.len() > 0 {
        lemma_halted_run_is_frozen(s, events.drop_last());
    }
}

/// A position of `needle` in `v`.
fn position_of(v: &Vec<usize>, needle: usize) -> (r: Option<usize>)
    ensures
        match r {
            Some(k) => k < v@.len() && v@[k as int] == needle,
            None => !v@.contains(needle),
        },
{
    let mut k: usize = 0;
    while k < v.len()
        invariant
            k <= v.len(),
            forall|j: int| 0 <= j < k ==> v@[j] != needle,
        decreases v.len() - k,
    {
        if v[k] == needle {
            return Some(k);
        }
        k += 1;
    }
    None
}

/// A run of one strategy over a list of symbols.
pub struct Engine<S> {
    data_type: StrategyType,
    symbols: Vec<Symbol>,
    limit: usize,
    started: usize,
    in_flight: Vec<usize>,
    results: Aggregation<S>,
    failure: Option<Error>,
    cancelled: bool,
}

impl<S> View for Engine<S> {
    type V = EngineState<S>;

    closed spec fn view(&self) -> EngineState<S> {
        EngineState {
            total: self.symbols@.len(),
            limit: self.limit as nat,
            started: self.started as nat,
            in_flight: self.in_flight@,
            results: self.results.results_of(self.data_type),
            failure: self.failure,
            cancelled: self.cancelled,
        }
    }
}

impl<S> Engine<S> {
    /// The type that the strategy declares, under which its results are kept.
    pub closed spec fn spec_data_type(&self) -> StrategyType {
        self.data_type
    }

    /// The symbols of the run, in the order in which their tests start.
    pub closed spec fn spec_symbols(&self) -> Seq<Symbol> {
        self.symbols@
    }

    #[verifier::type_invariant]
    spec fn inv(&self) -> bool {
        &&& self.view().wf()
        &&& forall|t: StrategyType|
            t != self.data_type ==> self.results.results_of(t).len() == 0
    }

    /// A run over `symbols` with at most `concurrent` tests in flight.
    /// There is no run without room for a single test.
    pub fn new(data_type: StrategyType, symbols: Vec<Symbol>, concurrent: usize) -> (r: Option<
        Engine<S>,
    >)
        ensures
            concurrent == 0 <==> r is None,
            r matches Some(e) ==> {
                &&& e@ == EngineState::<S>::initial(symbols@.len(), concurrent as nat)
                &&& e@.wf()
                &&& e.spec_data_type() == data_type
                &&& e.spec_symbols() == symbols@
            },
    {
        if concurrent == 0 {
            return None;
        }
        let total: usize = symbols.len();
        let results: Aggregation<S> = Aggregation::new();
        let in_flight: Vec<usize> = Vec::new();
        assert(in_flight@.no_duplicates());
        assert(total == symbols@.len());
        let e = Engine {
            data_type,
            symbols,
            limit: concurrent,
            started: 0,
            in_flight,
            results,
            failure: None,
            cancelled: false,
        };
        Some(e)
    }

    pub fn data_type(&self) -> (t: StrategyType)
        ensures
            t == self.spec_data_type(),
    {
        self.data_type
    }

    /// The symbol at position `index`.
    pub fn symbol(&self, index: usize) -> (s: Option<&Symbol>)
        ensures
            match s {
                Some(sym) => index < self.spec_symbols().len() && *sym
                    == self.spec_symbols()[index as int],
                None => index >= self.spec_symbols().len(),
            },
    {
        if index < self.symbols.len() {
            Some(&self.symbols[index])
        } else {
            None
        }
    }

    /// The number of tests in flight, which the limit bounds.
    pub fn in_flight(&self) -> (n: usize)
        ensures
            n == self@.in_flight.len(),
            n <= self@.limit,
            self@.wf(),
    {
        proof {
            use_type_invariant(self);
        }
        self.in_flight.len()
    }

    /// The number of tests started so far.
    pub fn started(&self) -> (n: usize)
        ensures
            n == self@.started,
    {
        self.started
    }

    pub fn limit(&self) -> (n: usize)
        ensures
            n == self@.limit,
            n >= 1,
    {
        proof {
            use_type_invariant(self);
        }
        self.limit
    }

    pub fn is_cancelled(&self) -> (b: bool)
        ensures
            b == self@.cancelled,
    {
        self.cancelled
    }

    pub fn has_failed(&self) -> (b: bool)
        ensures
            b == (self@.failure is Some),
    {
        self.failure.is_some()
    }

    /// Says what to do next, and books the test that it asks to start.
    pub fn poll(&mut self) -> (a: EngineAction)
        ensures
            a == old(self)@.action(),
            final(self)@ == old(self)@.after_poll(),
            final(self)@.wf(),
            final(self).spec_data_type() == old(self).spec_data_type(),
            final(self).spec_symbols() == old(self).spec_symbols(),
    {
        proof {
            use_type_invariant(&*self);
            lemma_event_keeps_order(self@, EngineEvent::Poll);
        }
        let halted = self.cancelled || self.failure.is_some();
        let busy: usize = self.in_flight.len();
        if !halted && busy < self.limit && self.started < self.symbols.len() {
            let index: usize = self.started;
            let mut in_flight: Vec<usize> = Vec::new();
            core::mem::swap(&mut self.in_flight, &mut in_flight);
            in_flight.push(index);
            self.started = index + 1;
            self.in_flight = in_flight;
            EngineAction::Start { index }
        } else if !halted && busy > 0 {
            EngineAction::Wait
        } else {
            EngineAction::Finished
        }
    }

    /// Takes the outcome of the test of the symbol at `index` and says
    /// whether it counts.
    ///
    /// It counts where the run goes on and that test is in flight. A finding
    /// is then kept under the declared type, no finding leaves no trace, and
    /// a failure ends the run.
    pub fn complete(&mut self, index: usize, outcome: Result<Option<StrategyResult<S>>, Error>) -> (counted: bool)
        ensures
            counted == old(self)@.accepts(index),
            final(self)@ == old(self)@.after_complete(index, outcome),
            final(self)@.wf(),
            final(self).spec_data_type() == old(self).spec_data_type(),
            final(self).spec_symbols() == old(self).spec_symbols(),
    {
        proof {
            use_type_invariant(&*self);
            lemma_event_keeps_order(self@, EngineEvent::Complete(index, outcome));
        }
        if self.cancelled || self.failure.is_some() {
            return false;
        }
        let k: usize = match position_of(&self.in_flight, index) {
            Some(k) => k,
            None => {
                return false;
            },
        };
        proof {
            let at = self@.in_flight.index_of(index);
            assert(self@.in_flight[at] == index);
            assert(at == k);
        }
        let mut in_flight: Vec<usize> = Vec::new();
        core::mem::swap(&mut self.in_flight, &mut in_flight);
        match outcome {
            Ok(Some(r)) => {
                in_flight.remove(k);
                self.in_flight = in_flight;
                let mut results = Aggregation::new();
                core::mem::swap(&mut self.results, &mut results);
                results.insert(self.data_type, r);
                self.results = results;
            },
            Ok(None) => {
                in_flight.remove(k);
                self.in_flight = in_flight;
            },
            Err(e) => {
                self.failure = Some(e);
            },
        }
        true
    }

    /// Takes the stop signal.
    pub fn cancel(&mut self)
        ensures
            final(self)@ == old(self)@.after_cancel(),
            final(self)@.wf(),
            final(self).spec_data_type() == old(self).spec_data_type(),
            final(self).spec_symbols() == old(self).spec_symbols(),
    {
        proof {
            use_type_invariant(&*self);
        }
        if self.cancelled || self.failure.is_some() {
            return ;
        }
        let mut in_flight: Vec<usize> = Vec::new();
        core::mem::swap(&mut self.in_flight, &mut in_flight);
        self.cancelled = true;
    }

    /// Ends the run and hands out what it returns: the failure of the first
    /// test that failed, or else the results by declared type. The mapping is
    /// empty where no test had a finding.
    pub fn finish(self) -> (r: Result<Aggregation<S>, Error>)
        ensures
            match r {
                Ok(a) => {
                    &&& self@.outcome() == Ok::<Seq<StrategyResult<S>>, Error>(
                        a.results_of(self.spec_data_type()),
                    )
                    &&& forall|t: StrategyType|
                        t != self.spec_data_type() ==> !a@.contains_key(t)
                    &&& a@.contains_key(self.spec_data_type()) <==> self@.results.len() > 0
                },
                Err(e) => self@.outcome() == Err::<Seq<StrategyResult<S>>, Error>(e),
            },
    {
        proof {
            use_type_invariant(&self);
        }
        match self.failure {
            Some(e) => Err(e),
            None => Ok(self.results),
        }
    }
}

} // verus!
