//! The per-symbol sync steps of one worker.
//!
//! A worker walks its symbols in the order given. For each symbol it asks the
//! store for the latest record, derives the range that is still missing,
//! decides whether anything is due, has the range fetched and hands a
//! non-empty batch to the channel. The worker itself touches neither store,
//! network nor channel: every step is a value that says what to do next, and
//! the caller answers it with what happened. A failure of any step ends the
//! worker; the symbols that it had not reached stay untouched.

use crate::calendar::{next_session, TradeCalendar, TradeDate};
use crate::error::Error;
use crate::symbol::{duplicate_symbols, Symbol};
use vstd::prelude::*;

verus! {

/// The day number of 1 January 2010, from which a symbol without stored
/// records is fetched.
pub const DEFAULT_START_DAYS: i32 = 733_773;

/// The table that holds the margin records of stocks.
pub const TAB_STOCK_MARGIN: &'static str = "stock_margin";

/// The day from which a symbol without stored records is fetched.
pub open spec fn spec_default_start_date() -> TradeDate {
    TradeDate { days: DEFAULT_START_DAYS }
}

pub fn default_start_date() -> (d: TradeDate)
    ensures
        d == spec_default_start_date(),
{
    TradeDate { days: DEFAULT_START_DAYS }
}

/// The range of days that one fetch covers. No end means "up to the latest
/// day that the source has".
#[derive(Clone, Copy, Debug, PartialEq, Eq)]
pub struct SyncCursor {
    pub start: Option<TradeDate>,
    pub end: Option<TradeDate>,
}

/// The range that is missing for a symbol whose latest stored record is of
/// the day `latest`: from the default start where nothing is stored, else from
/// the session that follows the latest stored day; in both cases without end.
pub open spec fn spec_cursor(latest: Option<TradeDate>, sessions: Seq<TradeDate>) -> SyncCursor {
    SyncCursor {
        start: Some(
            match latest {
                None => spec_default_start_date(),
                Some(d) => next_session(sessions, d),
            },
        ),
        end: None,
    }
}

/// Derives the range to fetch from the latest stored day of a symbol.
pub fn compute_cursor(latest: Option<TradeDate>, calendar: &TradeCalendar) -> (c: SyncCursor)
    ensures
        c == spec_cursor(latest, calendar.sessions()),
{
    let start = match latest {
        None => default_start_date(),
        Some(d) => calendar.next_trade_date(d),
    };
    SyncCursor { start: Some(start), end: None }
}

/// Something is due where the range has no start, or starts strictly before
/// `boundary`, the first day that the source cannot have yet.
pub open spec fn spec_need_to_start(start: Option<TradeDate>, boundary: TradeDate) -> bool {
    match start {
        None => true,
        Some(d) => d.days < boundary.days,
    }
}

/// Whether a range that starts at `start` holds anything new.
pub fn need_to_start(start: &Option<TradeDate>, boundary: TradeDate) -> (b: bool)
    ensures
        b == spec_need_to_start(*start, boundary),
{
    match start {
        None => true,
        Some(d) => d.days < boundary.days,
    }
}

/// A symbol without stored records is fetched from the default start, with
/// no end.
pub proof fn lemma_cursor_without_record(sessions: Seq<TradeDate>)
    ensures
        spec_cursor(None, sessions).start == Some(spec_default_start_date()),
        spec_cursor(None, sessions).end is None,
{
}

/// A symbol whose latest stored day is `d` is fetched from the session that
/// follows `d`. That day lies strictly after `d`, and no known session lies
/// between the two: no day is fetched twice and none is left out. The last
/// day that a `TradeDate` can hold has no successor and is excepted.
pub proof fn lemma_cursor_after_latest(sessions: Seq<TradeDate>, d: TradeDate)
    requires
        d.days < i32::MAX,
    ensures
        spec_cursor(Some(d), sessions).start == Some(next_session(sessions, d)),
        spec_cursor(Some(d), sessions).end is None,
        spec_cursor(Some(d), sessions).start->0.days > d.days,
        forall|i: int|
            0 <= i < sessions.len() ==> !(d.days < (#[trigger] sessions[i]).days < spec_cursor(
                Some(d),
                sessions,
            ).start->0.days),
{
    crate::calendar::lemma_next_session_is_next(sessions, d);
}

/// The kinds of data that are synchronised.
#[derive(Clone, Copy, Debug, PartialEq, Eq, Structural, Hash)]
pub enum DataKind {
    Bars,
    Margin,
    Index,
    Financials,
}

/// A batch of records of one kind for one symbol, as fetched and not yet
/// saved. A batch is never empty.
#[derive(Debug)]
pub struct SyncResult<R> {
    kind: DataKind,
    symbol: Symbol,
    records: Vec<R>,
}

impl<R> SyncResult<R> {
    pub closed spec fn spec_kind(&self) -> DataKind {
        self.kind
    }

    pub closed spec fn spec_symbol(&self) -> Symbol {
        self.symbol
    }

    pub closed spec fn spec_records(&self) -> Seq<R> {
        self.records@
    }

    #[verifier::type_invariant]
    spec fn inv(&self) -> bool {
        self.records@.len() > 0
    }

    /// The batch of what a fetch returned, or `None` where it returned nothing.
    pub fn from_fetch(kind: DataKind, symbol: Symbol, records: Vec<R>) -> (r: Option<Self>)
        ensures
            records@.len() == 0 <==> r is None,
            r matches Some(batch) ==> {
                &&& batch.spec_kind() == kind
                &&& batch.spec_symbol() == symbol
                &&& batch.spec_records() == records@
            },
    {
        if records.len() == 0 {
            None
        } else {
            Some(SyncResult { kind, symbol, records })
        }
    }

    pub fn kind(&self) -> (k: DataKind)
        ensures
            k == self.spec_kind(),
    {
        self.kind
    }

    pub fn symbol(&self) -> (s: &Symbol)
        ensures
            *s == self.spec_symbol(),
    {
        &self.symbol
    }

    pub fn len(&self) -> (n: usize)
        ensures
            n == self.spec_records().len(),
            n > 0,
    {
        proof {
            use_type_invariant(self);
        }
        self.records.len()
    }

    pub fn records(&self) -> (r: &Vec<R>)
        ensures
            r@ == self.spec_records(),
            r@.len() > 0,
    {
        proof {
            use_type_invariant(self);
        }
        &self.records
    }

    pub fn into_records(self) -> (r: Vec<R>)
        ensures
            r@ == self.spec_records(),
            r@.len() > 0,
    {
        proof {
            use_type_invariant(&self);
        }
        self.records
    }
}

/// What a worker has done when it ends.
#[derive(Clone, Copy, Debug, PartialEq, Eq)]
pub struct WorkerReport {
    /// The symbols that the worker has gone through.
    pub processed: usize,
    /// The batches that it has handed to the channel.
    pub emitted: usize,
}

/// A worker between two symbols.
pub struct SyncWorker {
    kind: DataKind,
    symbols: Vec<Symbol>,
    task_n: usize,
    index: usize,
    emitted: usize,
}

/// What a worker between two symbols does next.
pub enum WorkerStep {
    /// Ask the store for the latest record of the symbol and answer with
    /// [`PendingQuery::on_latest`].
    Query(PendingQuery),
    /// No symbol is left.
    Done(WorkerReport),
}

/// A worker that waits for the latest stored day of its current symbol.
pub struct PendingQuery {
    worker: SyncWorker,
}

/// What follows the answer of the store.
pub enum QueryStep {
    /// Nothing is due for the symbol: it is up to date. Nothing is fetched
    /// and nothing is emitted for it.
    UpToDate(SyncWorker),
    /// Fetch the range through the retry executor and answer with
    /// [`PendingFetch::on_fetched`].
    Fetch(PendingFetch),
    /// The store failed. The worker ends with this failure.
    Abort(Error),
}

/// A worker that waits for the records of its current symbol.
pub struct PendingFetch {
    worker: SyncWorker,
    cursor: SyncCursor,
}

/// What follows a fetch.
pub enum FetchStep<R> {
    /// The fetch returned nothing. Nothing is emitted for the symbol.
    Empty(SyncWorker),
    /// Send the batch over the channel and answer with
    /// [`PendingSend::on_sent`].
    Emit(PendingSend, SyncResult<R>),
    /// The fetch failed for good. The worker ends with this failure.
    Abort(Error),
}

/// A worker that waits for its batch to be taken by the channel.
pub struct PendingSend {
    worker: SyncWorker,
}

/// What follows a send.
pub enum SendStep {
    /// The batch is on its way to the save stage.
    Sent(SyncWorker),
    /// The channel is closed. The worker ends with this failure.
    Abort(Error),
}

impl SyncWorker {
    pub closed spec fn spec_kind(&self) -> DataKind {
        self.kind
    }

    /// The symbols of the worker, in the order in which it walks them.
    pub closed spec fn spec_symbols(&self) -> Seq<Symbol> {
        self.symbols@
    }

    /// The number of the worker among the workers of its pipeline.
    pub closed spec fn spec_task_n(&self) -> usize {
        self.task_n
    }

    /// The position of the symbol that is next, which is also the number of
    /// symbols that the worker has gone through.
    pub closed spec fn spec_index(&self) -> usize {
        self.index
    }

    /// The number of batches that the worker has handed to the channel.
    pub closed spec fn spec_emitted(&self) -> usize {
        self.emitted
    }

    /// The worker has gone through no more symbols than it has, and has
    /// emitted at most one batch for each of them.
    pub open spec fn wf(&self) -> bool {
        self.spec_emitted() <= self.spec_index() <= self.spec_symbols().len()
    }

    #[verifier::type_invariant]
    spec fn inv(&self) -> bool {
        self.emitted <= self.index <= self.symbols@.len()
    }

    /// `self` is `prev` after one more symbol, for which a batch was emitted
    /// or not.
    pub open spec fn follows(&self, prev: SyncWorker, emitted: bool) -> bool {
        &&& self.spec_kind() == prev.spec_kind()
        &&& self.spec_symbols() == prev.spec_symbols()
        &&& self.spec_task_n() == prev.spec_task_n()
        &&& self.spec_index() == prev.spec_index() + 1
        &&& self.spec_emitted() == prev.spec_emitted() + if emitted {
            1int
        } else {
            0int
        }
        &&& self.wf()
    }

    /// A worker that has all of `symbols` before it.
    pub fn new(kind: DataKind, symbols: Vec<Symbol>, task_n: usize) -> (w: SyncWorker)
        ensures
            w.spec_kind() == kind,
            w.spec_symbols() == symbols@,
            w.spec_task_n() == task_n,
            w.spec_index() == 0,
            w.spec_emitted() == 0,
            w.wf(),
    {
        SyncWorker { kind, symbols, task_n, index: 0, emitted: 0 }
    }

    pub fn kind(&self) -> (k: DataKind)
        ensures
            k == self.spec_kind(),
    {
        self.kind
    }

    pub fn task_n(&self) -> (n: usize)
        ensures
            n == self.spec_task_n(),
    {
        self.task_n
    }

    pub fn processed(&self) -> (n: usize)
        ensures
            n == self.spec_index(),
            self.wf(),
    {
        proof {
            use_type_invariant(self);
        }
        self.index
    }

    pub fn emitted(&self) -> (n: usize)
        ensures
            n == self.spec_emitted(),
            self.wf(),
    {
        proof {
            use_type_invariant(self);
        }
        self.emitted
    }

    /// Turns to the next symbol, or ends where none is left.
    pub fn next(self) -> (step: WorkerStep)
        ensures
            match step {
                WorkerStep::Query(q) => {
                    &&& self.spec_index() < self.spec_symbols().len()
                    &&& q.spec_worker() == self
                },
                WorkerStep::Done(report) => {
                    &&& self.spec_index() == self.spec_symbols().len()
                    &&& report.processed == self.spec_index()
                    &&& report.emitted == self.spec_emitted()
                },
            },
    {
        proof {
            use_type_invariant(&self);
        }
        if self.index < self.symbols.len() {
            WorkerStep::Query(PendingQuery { worker: self })
        } else {
            WorkerStep::Done(WorkerReport { processed: self.index, emitted: self.emitted })
        }
    }

    /// The worker after its current symbol.
    fn advance(self, emitted: bool) -> (w: SyncWorker)
        requires
            self.index < self.symbols@.len(),
        ensures
            w.follows(self, emitted),
    {
        proof {
            use_type_invariant(&self);
        }
        let total: usize = self.symbols.len();
        assert(self.index < total);
        let count: usize = if emitted {
            self.emitted + 1
        } else {
            self.emitted
        };
        SyncWorker {
            kind: self.kind,
            symbols: self.symbols,
            task_n: self.task_n,
            index: self.index + 1,
            emitted: count,
        }
    }
}

impl PendingQuery {
    /// The worker as it was when it turned to the symbol.
    pub closed spec fn spec_worker(&self) -> SyncWorker {
        self.worker
    }

    /// The symbol that the worker is at.
    pub open spec fn spec_symbol(&self) -> Symbol {
        self.spec_worker().spec_symbols()[self.spec_worker().spec_index() as int]
    }

    #[verifier::type_invariant]
    spec fn inv(&self) -> bool {
        self.worker.index < self.worker.symbols@.len()
    }

    pub fn symbol(&self) -> (s: &Symbol)
        ensures
            *s == self.spec_symbol(),
            self.spec_worker().spec_index() < self.spec_worker().spec_symbols().len(),
    {
        proof {
            use_type_invariant(self);
        }
        &self.worker.symbols[self.worker.index]
    }

    pub fn task_n(&self) -> (n: usize)
        ensures
            n == self.spec_worker().spec_task_n(),
    {
        self.worker.task_n
    }

    /// Takes the answer of the store: the day of the latest stored record of
    /// the symbol, if there is one.
    ///
    /// The range to fetch follows from that day. Where nothing is
    /// due in it before `boundary`, the symbol is done without a fetch.
    pub fn on_latest(
        self,
        latest: Result<Option<TradeDate>, Error>,
        calendar: &TradeCalendar,
        boundary: TradeDate,
    ) -> (step: QueryStep)
        ensures
            match latest {
                Err(e) => step matches QueryStep::Abort(f) && f == e,
                Ok(day) => {
                    let cursor = spec_cursor(day, calendar.sessions());
                    if spec_need_to_start(cursor.start, boundary) {
                        step matches QueryStep::Fetch(f) && f.spec_worker() == self.spec_worker()
                            && f.spec_cursor() == cursor
                    } else {
                        step matches QueryStep::UpToDate(w) && w.follows(
                            self.spec_worker(),
                            false,
                        )
                    }
                },
            },
    {
        proof {
            use_type_invariant(&self);
        }
        match latest {
            Err(e) => QueryStep::Abort(e),
            Ok(day) => {
                let cursor = compute_cursor(day, calendar);
                if need_to_start(&cursor.start, boundary) {
                    QueryStep::Fetch(PendingFetch { worker: self.worker, cursor })
                } else {
                    QueryStep::UpToDate(self.worker.advance(false))
                }
            },
        }
    }
}

impl PendingFetch {
    pub closed spec fn spec_worker(&self) -> SyncWorker {
        self.worker
    }

    /// The range that is being fetched.
    pub closed spec fn spec_cursor(&self) -> SyncCursor {
        self.cursor
    }

    pub open spec fn spec_symbol(&self) -> Symbol {
        self.spec_worker().spec_symbols()[self.spec_worker().spec_index() as int]
    }

    #[verifier::type_invariant]
    spec fn inv(&self) -> bool {
        self.worker.index < self.worker.symbols@.len()
    }

    pub fn symbol(&self) -> (s: &Symbol)
        ensures
            *s == self.spec_symbol(),
            self.spec_worker().spec_index() < self.spec_worker().spec_symbols().len(),
    {
        proof {
            use_type_invariant(self);
        }
        &self.worker.symbols[self.worker.index]
    }

    pub fn cursor(&self) -> (c: SyncCursor)
        ensures
            c == self.spec_cursor(),
    {
        self.cursor
    }

    pub fn task_n(&self) -> (n: usize)
        ensures
            n == self.spec_worker().spec_task_n(),
    {
        self.worker.task_n
    }

    /// Takes what the fetch returned once the retry executor has finished.
    ///
    /// A batch is made of the records where there are any, and only then. A
    /// failure is handed on as it is.
    pub fn on_fetched<R>(self, fetched: Result<Vec<R>, Error>) -> (step: FetchStep<R>)
        ensures
            match fetched {
                Err(e) => step matches FetchStep::Abort(f) && f == e,
                Ok(records) => if records@.len() == 0 {
                    step matches FetchStep::Empty(w) && w.follows(self.spec_worker(), false)
                } else {
                    step matches FetchStep::Emit(pending, batch) && pending.spec_worker()
                        == self.spec_worker() && batch.spec_kind()
                        == self.spec_worker().spec_kind() && batch.spec_symbol()
                        == self.spec_symbol() && batch.spec_records() == records@
                },
            },
    {
        proof {
            use_type_invariant(&self);
        }
        match fetched {
            Err(e) => FetchStep::Abort(e),
            Ok(records) => {
                let symbol = self.worker.symbols[self.worker.index].duplicate();
                match SyncResult::from_fetch(self.worker.kind, symbol, records) {
                    None => FetchStep::Empty(self.worker.advance(false)),
                    Some(batch) => FetchStep::Emit(PendingSend { worker: self.worker }, batch),
                }
            },
        }
    }
}

impl PendingSend {
    pub closed spec fn spec_worker(&self) -> SyncWorker {
        self.worker
    }

    #[verifier::type_invariant]
    spec fn inv(&self) -> bool {
        self.worker.index < self.worker.symbols@.len()
    }

    /// Takes what the channel said to the batch.
    pub fn on_sent(self, sent: Result<(), Error>) -> (step: SendStep)
        ensures
            match sent {
                Err(e) => step matches SendStep::Abort(f) && f == e,
                Ok(_) => step matches SendStep::Sent(w) && w.follows(self.spec_worker(), true),
            },
    {
        proof {
            use_type_invariant(&self);
        }
        match sent {
            Err(e) => SendStep::Abort(e),
            Ok(_) => SendStep::Sent(self.worker.advance(true)),
        }
    }
}

/// What the save stage writes for one batch.
#[derive(Debug, PartialEq, Eq)]
pub struct SaveRequest {
    /// The table that takes the records.
    pub table: String,
    /// The code of the symbol that the records belong to.
    pub code: String,
    /// The name of that symbol.
    pub name: String,
    /// The number of records to insert.
    pub size: usize,
    /// Whether a record that is stored already is replaced.
    pub upsert: bool,
}

/// The syncer of the margin records of stocks: its share of the symbols and
/// its number among the workers.
pub struct StockMarginSyncer {
    codes: Vec<Symbol>,
    task_n: usize,
}

impl StockMarginSyncer {
    pub closed spec fn spec_codes(&self) -> Seq<Symbol> {
        self.codes@
    }

    pub closed spec fn spec_task_n(&self) -> usize {
        self.task_n
    }

    pub fn new(codes: Vec<Symbol>, task_n: usize) -> (s: StockMarginSyncer)
        ensures
            s.spec_codes() == codes@,
            s.spec_task_n() == task_n,
    {
        StockMarginSyncer { codes, task_n }
    }

    pub fn task_n(&self) -> (n: usize)
        ensures
            n == self.spec_task_n(),
    {
        self.task_n
    }

    /// Begins the fetch stage: a worker that has all symbols of the syncer
    /// before it.
    pub fn fetch(&self) -> (w: SyncWorker)
        ensures
            w.spec_kind() == DataKind::Margin,
            w.spec_symbols() == self.spec_codes(),
            w.spec_task_n() == self.spec_task_n(),
            w.spec_index() == 0,
            w.spec_emitted() == 0,
    {
        SyncWorker::new(DataKind::Margin, duplicate_symbols(&self.codes), self.task_n)
    }

    /// The save stage for one batch: what to insert, and where. A batch of
    /// another kind is not this syncer's to save and asks for nothing.
    pub fn save<R>(&self, data: &SyncResult<R>) -> (r: Option<SaveRequest>)
        ensures
            data.spec_kind() != DataKind::Margin <==> r is None,
            r matches Some(req) ==> {
                &&& req.table@ == TAB_STOCK_MARGIN@
                &&& req.code == data.spec_symbol().code
                &&& req.name == data.spec_symbol().name
                &&& req.size == data.spec_records().len()
                &&& req.size > 0
                &&& !req.upsert
            },
    {
        match data.kind() {
            DataKind::Margin => Some(
                SaveRequest {
                    table: TAB_STOCK_MARGIN.to_owned(),
                    code: data.symbol().code.clone(),
                    name: data.symbol().name.clone(),
                    size: data.len(),
                    upsert: false,
                },
            ),
            _ => None,
        }
    }
}

} // verus!
