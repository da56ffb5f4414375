//! Trading days and the calendar of known sessions.
//!
//! The calendar is built once from historical data and is only read while a
//! sync pass runs. Its one query that matters to the pass is "which session
//! follows day `d`"; beyond the last known session the answer is the next
//! calendar day, so the query never fails.

use vstd::prelude::*;

verus! {

/// A calendar day, counted in the proleptic Gregorian calendar with
/// 1 January of year 1 as day 1.
#[derive(Clone, Copy, Debug, PartialEq, Eq, Structural, PartialOrd, Ord, Hash)]
pub struct TradeDate {
    pub days: i32,
}

impl View for TradeDate {
    type V = int;

    open spec fn view(&self) -> int {
        self.days as int
    }
}

impl TradeDate {
    pub fn new(days: i32) -> (d: TradeDate)
        ensures
            d.days == days,
    {
        TradeDate { days }
    }

    pub fn days(&self) -> (n: i32)
        ensures
            n == self.days,
    {
        self.days
    }

    /// The day after `self`; the last representable day is its own successor.
    pub open spec fn spec_succ(self) -> TradeDate {
        if self.days < i32::MAX {
            TradeDate { days: (self.days + 1) as i32 }
        } else {
            self
        }
    }

    pub fn succ(&self) -> (d: TradeDate)
        ensures
            d == self.spec_succ(),
    {
        if self.days < i32::MAX {
            TradeDate { days: self.days + 1 }
        } else {
            *self
        }
    }
}

/// The day number of the date that chrono reads from the text `s` under the
/// format `fmt`, or `None` where chrono reads no date from it.
pub uninterp spec fn chrono_day_number(s: Seq<char>, fmt: Seq<char>) -> Option<i32>;

/// Calls `chrono::NaiveDate::parse_from_str` and counts the date that it
/// returns in days with `chrono::Datelike::num_days_from_ce`.
///
/// Nothing is proved of this function. Its contract only names the result:
/// chrono reads a date from the two texts alone, without regard to locale,
/// clock or time zone, so equal arguments give equal results.
#[verifier::external_body]
fn parse_day_number(s: &str, fmt: &str) -> (r: Option<i32>)
    ensures
        r == chrono_day_number(s@, fmt@),
{
    match chrono::NaiveDate::parse_from_str(s, fmt) {
        Ok(date) => Some(chrono::Datelike::num_days_from_ce(&date)),
        Err(_) => None,
    }
}

impl TradeDate {
    /// The day written in `s` under the chrono format `fmt`.
    pub open spec fn spec_parse(s: Seq<char>, fmt: Seq<char>) -> Option<TradeDate> {
        match chrono_day_number(s, fmt) {
            Some(days) => Some(TradeDate { days }),
            None => None,
        }
    }

    /// Reads a day from `s` under the chrono format `fmt`, such as `%Y-%m-%d`.
    pub fn parse(s: &str, fmt: &str) -> (r: Option<TradeDate>)
        ensures
            r == TradeDate::spec_parse(s@, fmt@),
    {
        match parse_day_number(s, fmt) {
            Some(days) => Some(TradeDate { days }),
            None => None,
        }
    }
}

/// Every day of `s` is earlier than all days that follow it in `s`.
pub open spec fn strictly_increasing(s: Seq<TradeDate>) -> bool {
    forall|i: int, j: int| 0 <= i < j < s.len() ==> s[i].days < s[j].days
}

/// Some day of `s` lies strictly after `d`.
pub open spec fn has_session_after(s: Seq<TradeDate>, d: TradeDate) -> bool {
    exists|i: int| 0 <= i < s.len() && #[trigger] s[i].days > d.days
}

/// `t` is the earliest day of `s` that lies strictly after `d`.
pub open spec fn is_first_session_after(s: Seq<TradeDate>, d: TradeDate, t: TradeDate) -> bool {
    &&& s.contains(t)
    &&& t.days > d.days
    &&& forall|i: int| 0 <= i < s.len() && #[trigger] s[i].days > d.days ==> t.days <= s[i].days
}

/// The session that follows `d`: the earliest known session strictly after
/// `d`, or the next calendar day where no such session is known.
pub open spec fn next_session(s: Seq<TradeDate>, d: TradeDate) -> TradeDate {
    if has_session_after(s, d) {
        choose|t: TradeDate| is_first_session_after(s, d, t)
    } else {
        d.spec_succ()
    }
}

/// The known trading sessions, in chronological order and without repeats.
pub struct TradeCalendar {
    sessions: Vec<TradeDate>,
}

impl TradeCalendar {
    /// The sessions of the calendar, earliest first.
    pub closed spec fn sessions(&self) -> Seq<TradeDate> {
        self.sessions@
    }

    /// The sessions are in strictly increasing order.
    pub open spec fn wf(&self) -> bool {
        strictly_increasing(self.sessions())
    }

    #[verifier::type_invariant]
    spec fn inv(&self) -> bool {
        strictly_increasing(self.sessions@)
    }

    /// A calendar without sessions.
    pub fn new() -> (cal: TradeCalendar)
        ensures
            cal.wf(),
            cal.sessions() == Seq::<TradeDate>::empty(),
    {
        TradeCalendar { sessions: Vec::new() }
    }

    /// The calendar of the given days, in any order and with repeats.
    pub fn from_dates(dates: &Vec<TradeDate>) -> (cal: TradeCalendar)
        ensures
            cal.wf(),
            forall|t: TradeDate| cal.sessions().contains(t) <==> dates@.contains(t),
    {
        let mut cal = TradeCalendar::new();
        let mut i: usize = 0;
        while i < dates.len()
            invariant
                i <= dates.len(),
                cal.wf(),
                forall|t: TradeDate|
                    cal.sessions().contains(t) <==> dates@.subrange(0, i as int).contains(t),
            decreases dates.len() - i,
        {
            let d = dates[i];
            cal.insert(d);
            proof {
                let prefix = dates@.subrange(0, i as int);
                let longer = dates@.subrange(0, i as int + 1);
                assert(longer =~= prefix.push(d));
                assert forall|t: TradeDate|
                    cal.sessions().contains(t) <==> longer.contains(t) by {
                    if prefix.contains(t) {
                        let k = choose|k: int| 0 <= k < prefix.len() && prefix[k] == t;
                        assert(longer[k] == t);
                    }
                    if longer.contains(t) {
                        let k = choose|k: int| 0 <= k < longer.len() && longer[k] == t;
                        if k < i {
                            assert(prefix[k] == t);
                        }
                    }
                    assert(longer[i as int] == d);
                }
            }
            i += 1;
        }
        proof {
            assert(dates@.subrange(0, i as int) =~= dates@);
        }
        cal
    }

    pub fn len(&self) -> (n: usize)
        ensures
            n == self.sessions().len(),
    {
        self.sessions.len()
    }

    pub fn is_empty(&self) -> (b: bool)
        ensures
            b == (self.sessions().len() == 0),
    {
        self.sessions.len() == 0
    }

    /// The session at position `i`, counted from the earliest.
    pub fn get(&self, i: usize) -> (r: Option<TradeDate>)
        ensures
            i < self.sessions().len() ==> r == Some(self.sessions()[i as int]),
            i >= self.sessions().len() ==> r is None,
    {
        if i < self.sessions.len() {
            Some(self.sessions[i])
        } else {
            None
        }
    }

    /// The latest known session.
    pub fn last(&self) -> (r: Option<TradeDate>)
        ensures
            self.sessions().len() == 0 ==> r is None,
            self.sessions().len() > 0 ==> r == Some(self.sessions().last()),
    {
        let n = self.sessions.len();
        if n == 0 {
            None
        } else {
            Some(self.sessions[n - 1])
        }
    }

    /// The number of sessions that are not after `d`.
    fn count_up_to(&self, d: TradeDate) -> (k: usize)
        ensures
            k <= self.sessions().len(),
            forall|i: int| 0 <= i < k ==> self.sessions()[i].days <= d.days,
            forall|i: int| k <= i < self.sessions().len() ==> self.sessions()[i].days > d.days,
    {
        proof {
            use_type_invariant(self);
        }
        let mut lo: usize = 0;
        let mut hi: usize = self.sessions.len();
        while lo < hi
            invariant
                lo <= hi <= self.sessions@.len(),
                strictly_increasing(self.sessions@),
                forall|i: int| 0 <= i < lo ==> self.sessions@[i].days <= d.days,
                forall|i: int| hi <= i < self.sessions@.len() ==> self.sessions@[i].days > d.days,
            decreases hi - lo,
        {
            let mid = lo + (hi - lo) / 2;
            if self.sessions[mid].days <= d.days {
                lo = mid + 1;
            } else {
                hi = mid;
            }
        }
        lo
    }

    /// Whether `d` is a known session.
    pub fn is_trade_date(&self, d: TradeDate) -> (b: bool)
        ensures
            b == self.sessions().contains(d),
    {
        let k = self.count_up_to(d);
        if k > 0 && self.sessions[k - 1].days == d.days {
            assert(self.sessions@[k - 1] == d);
            true
        } else {
            proof {
                use_type_invariant(self);
                if self.sessions@.contains(d) {
                    let j = choose|j: int| 0 <= j < self.sessions@.len() && self.sessions@[j] == d;
                    if j < k - 1 {
                        assert(self.sessions@[j].days < self.sessions@[k - 1].days);
                    }
                }
            }
            false
        }
    }

    /// Adds `d` to the calendar and says whether it was new.
    pub fn insert(&mut self, d: TradeDate) -> (added: bool)
        ensures
            final(self).wf(),
            added == !old(self).sessions().contains(d),
            forall|t: TradeDate|
                final(self).sessions().contains(t) <==> (old(self).sessions().contains(t) || t
                    == d),
            !added ==> final(self).sessions() == old(self).sessions(),
    {
        proof {
            use_type_invariant(&*self);
        }
        let k = self.count_up_to(d);
        if k > 0 && self.sessions[k - 1].days == d.days {
            assert(self.sessions@[k - 1] == d);
            return false;
        }
        let ghost before = self.sessions@;
        proof {
            if before.contains(d) {
                let j = choose|j: int| 0 <= j < before.len() && before[j] == d;
                if j < k - 1 {
                    assert(before[j].days < before[k - 1].days);
                }
            }
            let after = before.insert(k as int, d);
            assert(strictly_increasing(after)) by {
                assert forall|i: int, j: int| 0 <= i < j < after.len() implies after[i].days
                    < after[j].days by {
                    let bi = if i < k { i } else { i - 1 };
                    let bj = if j < k { j } else { j - 1 };
                    if i != k && j != k {
                        assert(after[i] == before[bi]);
                        assert(after[j] == before[bj]);
                    } else if i == k {
                        assert(after[j] == before[bj]);
                    } else {
                        assert(after[i] == before[bi]);
                    }
                }
            }
            assert forall|t: TradeDate| after.contains(t) <==> (before.contains(t) || t == d) by {
                if after.contains(t) {
                    let j = choose|j: int| 0 <= j < after.len() && after[j] == t;
                    if j < k {
                        assert(before[j] == t);
                    } else if j > k {
                        assert(before[j - 1] == t);
                    }
                }
                if before.contains(t) {
                    let j = choose|j: int| 0 <= j < before.len() && before[j] == t;
                    if j < k {
                        assert(after[j] == t);
                    } else {
                        assert(after[j + 1] == t);
                    }
                }
                assert(after[k as int] == d);
            }
        }
        self.sessions = with_inserted(&self.sessions, k, d);
        true
    }

    /// The session that follows `d`.
    ///
    /// Where the calendar knows a session after `d`, this is the earliest such
    /// session. Where it knows none, `d` lies on or after the last known
    /// session and the answer is the next calendar day.
    pub fn next_trade_date(&self, d: TradeDate) -> (r: TradeDate)
        ensures
            r == next_session(self.sessions(), d),
            has_session_after(self.sessions(), d) ==> is_first_session_after(
                self.sessions(),
                d,
                r,
            ),
            !has_session_after(self.sessions(), d) ==> r == d.spec_succ(),
    {
        proof {
            use_type_invariant(self);
        }
        let k = self.count_up_to(d);
        if k < self.sessions.len() {
            let r = self.sessions[k];
            proof {
                let s = self.sessions@;
                assert(s[k as int].days > d.days);
                assert(has_session_after(s, d));
                assert(is_first_session_after(s, d, r)) by {
                    assert(s[k as int] == r);
                    assert forall|i: int| 0 <= i < s.len() && #[trigger] s[i].days
                        > d.days implies r.days <= s[i].days by {
                        if i < k {
                        } else if i > k {
                            assert(s[k as int].days < s[i].days);
                        }
                    }
                }
                lemma_first_session_unique(s, d, r, next_session(s, d));
            }
            r
        } else {
            d.succ()
        }
    }
}

/// A copy of `v` with `d` placed at position `k`.
fn with_inserted(v: &Vec<TradeDate>, k: usize, d: TradeDate) -> (r: Vec<TradeDate>)
    requires
        k <= v.len(),
    ensures
        r@ == v@.insert(k as int, d),
{
    let mut r: Vec<TradeDate> = Vec::new();
    let mut i: usize = 0;
    while i < k
        invariant
            i <= k <= v.len(),
            r@ == v@.subrange(0, i as int),
        decreases k - i,
    {
        r.push(v[i]);
        assert(r@ =~= v@.subrange(0, i as int + 1));
        i += 1;
    }
    r.push(d);
    while i < v.len()
        invariant
            k <= i <= v.len(),
            r@ == v@.subrange(0, k as int).push(d) + v@.subrange(k as int, i as int),
        decreases v.len() - i,
    {
        r.push(v[i]);
        assert(r@ =~= v@.subrange(0, k as int).push(d) + v@.subrange(k as int, i as int + 1));
        i += 1;
    }
    assert(r@ =~= v@.insert(k as int, d));
    r
}

/// At most one day is the first session after `d`.
pub proof fn lemma_first_session_unique(
    s: Seq<TradeDate>,
    d: TradeDate,
    a: TradeDate,
    b: TradeDate,
)
    requires
        is_first_session_after(s, d, a),
        b == next_session(s, d),
    ensures
        a == b,
{
    let i = choose|i: int| 0 <= i < s.len() && s[i] == a;
    assert(s[i].days > d.days);
    assert(has_session_after(s, d));
    assert(is_first_session_after(s, d, b));
    let j = choose|j: int| 0 <= j < s.len() && s[j] == b;
    assert(s[j].days > d.days);
    assert(a.days <= s[j].days);
    assert(b.days <= s[i].days);
}

/// Where some day of `s` lies after `d`, one of them is the earliest.
pub proof fn lemma_first_session_exists(s: Seq<TradeDate>, d: TradeDate)
    requires
        has_session_after(s, d),
    ensures
        is_first_session_after(s, d, next_session(s, d)),
    decreases s.len(),
{
    let x = s.last();
    let p = s.drop_last();
    let t = if has_session_after(p, d) {
        lemma_first_session_exists(p, d);
        let t0 = next_session(p, d);
        let k = choose|k: int| 0 <= k < p.len() && p[k] == t0;
        assert(s[k] == t0);
        if x.days > d.days && x.days < t0.days {
            x
        } else {
            t0
        }
    } else {
        let w = choose|i: int| 0 <= i < s.len() && #[trigger] s[i].days > d.days;
        if w < p.len() {
            assert(p[w].days > d.days);
        }
        x
    };
    assert(s[s.len() - 1] == x);
    assert forall|i: int| 0 <= i < s.len() && #[trigger] s[i].days > d.days implies t.days
        <= s[i].days by {
        if i < p.len() {
            assert(p[i].days > d.days);
        }
    }
    assert(is_first_session_after(s, d, t));
}

/// The session that follows `d` lies strictly after `d`, and no known
/// session lies between the two. This holds of every day but the last one
/// that a `TradeDate` can hold, which has no successor.
pub proof fn lemma_next_session_is_next(s: Seq<TradeDate>, d: TradeDate)
    requires
        d.days < i32::MAX,
    ensures
        next_session(s, d).days > d.days,
        forall|i: int|
            0 <= i < s.len() ==> !(d.days < (#[trigger] s[i]).days < next_session(s, d).days),
{
    if has_session_after(s, d) {
        lemma_first_session_exists(s, d);
    }
}

} // verus!
