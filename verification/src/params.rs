//! Run parameters given on the command line as `key=value` words.
//!
//! Two keys are read by the engine itself and make up the common parameters
//! of a back-test; all other keys are handed to the strategy untouched.

use crate::calendar::TradeDate;
use crate::error::{Error, ErrorKind};
use crate::text::{parse_i64, spec_parse_i64, spec_split_pair, split_pair};
use vstd::prelude::*;
use vstd::string::StringExecFns;

verus! {

/// The key of the last day that a back-test may read.
pub const TEST_END_DATE: &'static str = "test_end_date";

/// The key of the least number of trading days that a back-test needs.
pub const MIN_TRADE_DAYS: &'static str = "min_trade_days";

/// The first format in which the end date is read.
pub const DASHED_DATE: &'static str = "%Y-%m-%d";

/// The format in which the end date is read where the first one fails.
pub const COMPACT_DATE: &'static str = "%Y%m%d";

/// Why the command line cannot be used.
#[derive(Debug, PartialEq, Eq)]
pub enum ConfigError {
    /// A word is not of the form `key=value`.
    InvalidFormat,
    /// A key stands in two parameters.
    DuplicateKey(String),
    /// A destination names a kind of store that is not known.
    UnknownDest(String),
    /// The end date is in neither of the two accepted formats.
    BadEndDate,
    /// The number of trading days is not a number.
    BadTradeDays,
}

impl ConfigError {
    pub open spec fn is_duplicate_key(&self, key: Seq<char>) -> bool {
        self matches ConfigError::DuplicateKey(k) && k@ == key
    }

    pub open spec fn is_unknown_dest(&self, name: Seq<char>) -> bool {
        self matches ConfigError::UnknownDest(k) && k@ == name
    }

    /// The text shown to the operator.
    pub open spec fn spec_message(&self) -> Seq<char> {
        match self {
            ConfigError::InvalidFormat => "invalid dest format"@,
            ConfigError::DuplicateKey(k) => "duplicate param key: "@ + k@,
            ConfigError::UnknownDest(k) => "unknown dest: "@ + k@,
            ConfigError::BadEndDate => "test_end_date format is not correct, expect: %Y-%m-%d or %Y%m%d"@,
            ConfigError::BadTradeDays => "min_trade_days is not number"@,
        }
    }

    pub fn message(&self) -> (m: String)
        ensures
            m@ == self.spec_message(),
    {
        match self {
            ConfigError::InvalidFormat => "invalid dest format".to_owned(),
            ConfigError::DuplicateKey(k) => {
                let mut m = "duplicate param key: ".to_owned();
                m.append(k.as_str());
                m
            },
            ConfigError::UnknownDest(k) => {
                let mut m = "unknown dest: ".to_owned();
                m.append(k.as_str());
                m
            },
            ConfigError::BadEndDate => {
                "test_end_date format is not correct, expect: %Y-%m-%d or %Y%m%d".to_owned()
            },
            ConfigError::BadTradeDays => "min_trade_days is not number".to_owned(),
        }
    }

    /// The failure as the engines report it: a configuration error with the
    /// same text.
    pub fn to_error(&self) -> (e: Error)
        ensures
            e.kind == ErrorKind::Configuration,
            e.message@ == self.spec_message(),
    {
        Error::new(ErrorKind::Configuration, self.message())
    }
}

/// Some entry of `e` has the key `key`.
pub open spec fn has_key(e: Seq<(Seq<char>, Seq<char>)>, key: Seq<char>) -> bool {
    exists|i: int| 0 <= i < e.len() && (#[trigger] e[i]).0 == key
}

/// The value that `e` holds under `key`.
pub open spec fn value_of(e: Seq<(Seq<char>, Seq<char>)>, key: Seq<char>) -> Seq<char> {
    e[choose|i: int| 0 <= i < e.len() && (#[trigger] e[i]).0 == key].1
}

/// What `e` holds under `key`, if anything.
pub open spec fn lookup(e: Seq<(Seq<char>, Seq<char>)>, key: Seq<char>) -> Option<Seq<char>> {
    if has_key(e, key) {
        Some(value_of(e, key))
    } else {
        None
    }
}

/// No two entries of `e` have the same key.
pub open spec fn keys_distinct(e: Seq<(Seq<char>, Seq<char>)>) -> bool {
    forall|i: int, j: int| 0 <= i < j < e.len() ==> (#[trigger] e[i]).0 != (#[trigger] e[j]).0
}

/// Parameters by key, in the order in which they were given. No key occurs twice.
#[derive(Debug)]
pub struct ParamMap {
    entries: Vec<(String, String)>,
}

impl View for ParamMap {
    type V = Map<Seq<char>, Seq<char>>;

    open spec fn view(&self) -> Map<Seq<char>, Seq<char>> {
        Map::new(
            |k: Seq<char>| has_key(self.spec_entries(), k),
            |k: Seq<char>| value_of(self.spec_entries(), k),
        )
    }
}

impl ParamMap {
    /// The keys with their values, in the order in which they were given.
    pub closed spec fn spec_entries(&self) -> Seq<(Seq<char>, Seq<char>)> {
        self.entries@.map_values(|e: (String, String)| (e.0@, e.1@))
    }

    /// No key occurs twice.
    pub open spec fn wf(&self) -> bool {
        keys_distinct(self.spec_entries())
    }

    #[verifier::type_invariant]
    spec fn inv(&self) -> bool {
        keys_distinct(self.entries@.map_values(|e: (String, String)| (e.0@, e.1@)))
    }

    pub fn new() -> (m: ParamMap)
        ensures
            m.wf(),
            m.spec_entries() == Seq::<(Seq<char>, Seq<char>)>::empty(),
    {
        let m = ParamMap { entries: Vec::new() };
        assert(m.spec_entries() =~= Seq::<(Seq<char>, Seq<char>)>::empty());
        m
    }

    pub fn len(&self) -> (n: usize)
        ensures
            n == self.spec_entries().len(),
            self.wf(),
    {
        proof {
            use_type_invariant(self);
        }
        self.entries.len()
    }

    pub fn is_empty(&self) -> (b: bool)
        ensures
            b == (self.spec_entries().len() == 0),
    {
        self.entries.len() == 0
    }

    /// The key and the value at position `i`, if there are that many entries.
    pub fn entry(&self, i: usize) -> (r: Option<(&String, &String)>)
        ensures
            match r {
                Some((k, v)) => i < self.spec_entries().len() && (k@, v@)
                    == self.spec_entries()[i as int],
                None => i >= self.spec_entries().len(),
            },
    {
        if i < self.entries.len() {
            Some((&self.entries[i].0, &self.entries[i].1))
        } else {
            None
        }
    }

    fn position(&self, key: &String) -> (r: Option<usize>)
        ensures
            match r {
                Some(i) => i < self.spec_entries().len() && self.spec_entries()[i as int].0
                    == key@,
                None => !has_key(self.spec_entries(), key@),
            },
    {
        let mut i: usize = 0;
        while i < self.entries.len()
            invariant
                i <= self.entries@.len(),
                forall|j: int| 0 <= j < i ==> (#[trigger] self.spec_entries()[j]).0 != key@,
            decreases self.entries@.len() - i,
        {
            if self.entries[i].0 == *key {
                return Some(i);
            }
            i += 1;
        }
        None
    }

    pub fn contains_key(&self, key: &String) -> (b: bool)
        ensures
            b == has_key(self.spec_entries(), key@),
    {
        self.position(key).is_some()
    }

    /// The value under `key`.
    pub fn get(&self, key: &String) -> (r: Option<&String>)
        ensures
            match r {
                Some(v) => lookup(self.spec_entries(), key@) == Some(v@),
                None => lookup(self.spec_entries(), key@) is None,
            },
    {
        proof {
            use_type_invariant(self);
        }
        match self.position(key) {
            Some(i) => {
                proof {
                    let e = self.spec_entries();
                    let j = choose|j: int| 0 <= j < e.len() && (#[trigger] e[j]).0 == key@;
                    assert(e[i as int].0 == key@);
                    if j < i {
                        assert(e[j].0 != e[i as int].0);
                    }
                    if i < j {
                        assert(e[i as int].0 != e[j].0);
                    }
                }
                Some(&self.entries[i].1)
            },
            None => None,
        }
    }

    /// Adds `value` under `key` where the key is new, and says whether it was.
    /// A key that is present keeps its value.
    pub fn try_insert(&mut self, key: String, value: String) -> (added: bool)
        ensures
            final(self).wf(),
            added == !has_key(old(self).spec_entries(), key@),
            added ==> final(self).spec_entries() == old(self).spec_entries().push(
                (key@, value@),
            ),
            !added ==> final(self).spec_entries() == old(self).spec_entries(),
    {
        proof {
            use_type_invariant(&*self);
        }
        if self.position(&key).is_some() {
            return false;
        }
        let ghost before = self.spec_entries();
        let mut entries: Vec<(String, String)> = Vec::new();
        proof {
            assert(entries@.map_values(|e: (String, String)| (e.0@, e.1@)).len() == 0);
        }
        core::mem::swap(&mut self.entries, &mut entries);
        entries.push((key, value));
        proof {
            let after = entries@.map_values(|e: (String, String)| (e.0@, e.1@));
            assert(after =~= before.push((key@, value@)));
            assert forall|i: int, j: int| 0 <= i < j < after.len() implies (#[trigger] after[i]).0
                != (#[trigger] after[j]).0 by {
                if j < before.len() {
                    assert(before[i].0 != before[j].0);
                } else {
                    assert(before[i].0 != key@);
                }
            }
        }
        self.entries = entries;
        true
    }
}

/// The words of a command line as plain text.
pub open spec fn words_of(args: Seq<String>) -> Seq<Seq<char>> {
    args.map_values(|s: String| s@)
}

/// The key of a word that is a `key=value` pair.
pub open spec fn key_of(word: Seq<char>) -> Seq<char> {
    let pair = spec_split_pair(word)->0;
    pair.0
}

/// The word at position `i` is a `key=value` pair whose key no earlier word has.
pub open spec fn word_accepted(words: Seq<Seq<char>>, i: int) -> bool {
    &&& spec_split_pair(words[i]) is Some
    &&& forall|j: int|
        0 <= j < i ==> !(spec_split_pair(#[trigger] words[j]) matches Some(p) && p.0 == key_of(
            words[i],
        ))
}

/// Every word is accepted.
pub open spec fn all_accepted(words: Seq<Seq<char>>) -> bool {
    forall|i: int| 0 <= i < words.len() ==> #[trigger] word_accepted(words, i)
}

/// The word at position `i` is the first that is not accepted.
pub open spec fn first_rejected(words: Seq<Seq<char>>, i: int) -> bool {
    &&& 0 <= i < words.len()
    &&& !word_accepted(words, i)
    &&& forall|j: int| 0 <= j < i ==> #[trigger] word_accepted(words, j)
}

/// `e` is the failure that the word at position `i` is rejected with: it is
/// no pair, or its key was given before.
pub open spec fn rejection(words: Seq<Seq<char>>, i: int, e: ConfigError) -> bool {
    match spec_split_pair(words[i]) {
        None => e is InvalidFormat,
        Some(p) => e.is_duplicate_key(p.0),
    }
}

/// The pairs that the words stand for, in their order.
pub open spec fn pairs_of(words: Seq<Seq<char>>) -> Seq<(Seq<char>, Seq<char>)> {
    Seq::new(words.len(), |i: int| spec_split_pair(words[i])->0)
}

/// Reads the parameters of a run from the words of the command line.
///
/// Succeeds where every word is a `key=value` pair and no key is given
/// twice. Fails on the first word that is no pair or repeats a key.
pub fn build_params(args: &Vec<String>) -> (r: Result<ParamMap, ConfigError>)
    ensures
        match r {
            Ok(m) => {
                &&& all_accepted(words_of(args@))
                &&& m.wf()
                &&& m.spec_entries() == pairs_of(words_of(args@))
            },
            Err(e) => exists|i: int| #[trigger]
                first_rejected(words_of(args@), i) && rejection(words_of(args@), i, e),
        },
{
    let ghost words = words_of(args@);
    let mut map = ParamMap::new();
    let mut i: usize = 0;
    while i < args.len()
        invariant
            i <= args.len(),
            words == words_of(args@),
            map.wf(),
            map.spec_entries() == pairs_of(words.take(i as int)),
            forall|j: int| 0 <= j < i ==> #[trigger] word_accepted(words, j),
        decreases args.len() - i,
    {
        let ghost before = map.spec_entries();
        proof {
            assert(words[i as int] == args@[i as int]@);
        }
        match split_pair(args[i].as_str()) {
            None => {
                proof {
                    assert(first_rejected(words, i as int));
                }
                return Err(ConfigError::InvalidFormat);
            },
            Some((key, value)) => {
                let ghost k = key@;
                let ghost v = value@;
                if map.contains_key(&key) {
                    proof {
                        let j = choose|j: int|
                            0 <= j < before.len() && (#[trigger] before[j]).0 == k;
                        assert(words.take(i as int)[j] == words[j]);
                        assert(word_accepted(words, j));
                        assert(before[j] == spec_split_pair(words[j])->0);
                        assert(key_of(words[i as int]) == k);
                        assert(!word_accepted(words, i as int));
                        assert(first_rejected(words, i as int));
                    }
                    return Err(ConfigError::DuplicateKey(key));
                }
                map.try_insert(key, value);
                proof {
                    assert(word_accepted(words, i as int)) by {
                        assert forall|j: int| 0 <= j < i implies !(spec_split_pair(
                            #[trigger] words[j],
                        ) matches Some(p) && p.0 == k) by {
                            assert(words.take(i as int)[j] == words[j]);
                            assert(before[j].0 == key_of(words[j]));
                        }
                    }
                    let longer = pairs_of(words.take(i as int + 1));
                    assert(longer =~= before.push((k, v))) by {
                        assert forall|j: int| 0 <= j < longer.len() implies longer[j]
                            == before.push((k, v))[j] by {
                            assert(words.take(i as int + 1)[j] == words[j]);
                            if j < i {
                                assert(words.take(i as int)[j] == words[j]);
                            }
                        }
                    }
                }
            },
        }
        i += 1;
    }
    proof {
        assert(words.take(i as int) =~= words);
    }
    Ok(map)
}

/// The key is read by the engine itself and not handed to the strategy.
pub open spec fn is_reserved(key: Seq<char>) -> bool {
    key == TEST_END_DATE@ || key == MIN_TRADE_DAYS@
}

/// The entries that are handed to the strategy: all but the reserved ones,
/// in their order.
pub open spec fn strategy_entries(e: Seq<(Seq<char>, Seq<char>)>) -> Seq<(Seq<char>, Seq<char>)> {
    e.filter(|p: (Seq<char>, Seq<char>)| !is_reserved(p.0))
}

/// The parameters of the strategy: what is left of `params` without the
/// reserved keys, or `None` where nothing is left.
pub fn build_strategy_params(params: &ParamMap) -> (r: Option<ParamMap>)
    ensures
        match r {
            Some(m) => {
                &&& m.wf()
                &&& m.spec_entries() == strategy_entries(params.spec_entries())
                &&& m.spec_entries().len() > 0
            },
            None => strategy_entries(params.spec_entries()).len() == 0,
        },
{
    let ghost e = params.spec_entries();
    let ghost keep = |p: (Seq<char>, Seq<char>)| !is_reserved(p.0);
    let end_date_key = TEST_END_DATE.to_owned();
    let trade_days_key = MIN_TRADE_DAYS.to_owned();
    let n: usize = params.len();
    let mut map = ParamMap::new();
    let mut i: usize = 0;
    proof {
        assert(e.take(0).filter(keep) =~= Seq::<(Seq<char>, Seq<char>)>::empty()) by {
            reveal(Seq::filter);
        }
    }
    while i < n
        invariant
            i <= n,
            n == e.len(),
            e == params.spec_entries(),
            keys_distinct(e),
            keep == (|p: (Seq<char>, Seq<char>)| !is_reserved(p.0)),
            end_date_key@ == TEST_END_DATE@,
            trade_days_key@ == MIN_TRADE_DAYS@,
            map.wf(),
            map.spec_entries() == e.take(i as int).filter(keep),
        decreases n - i,
    {
        proof {
            assert(e.take(i as int + 1) =~= e.take(i as int).push(e[i as int]));
            e.take(i as int).lemma_filter_push(e[i as int], keep);
        }
        match params.entry(i) {
            Some((key, value)) => {
                if !(*key == end_date_key || *key == trade_days_key) {
                    proof {
                        let kept = e.take(i as int).filter(keep);
                        if has_key(kept, key@) {
                            let j = choose|j: int|
                                0 <= j < kept.len() && (#[trigger] kept[j]).0 == key@;
                            assert(kept.contains(kept[j]));
                            e.take(i as int).lemma_filter_contains_rev(keep, kept[j]);
                            let k = choose|k: int|
                                0 <= k < e.take(i as int).len() && e.take(i as int)[k] == kept[j];
                            assert(e[k].0 != e[i as int].0);
                        }
                    }
                    map.try_insert(key.clone(), value.clone());
                }
            },
            None => {},
        }
        i += 1;
    }
    proof {
        assert(e.take(n as int) =~= e);
    }
    if map.is_empty() {
        None
    } else {
        Some(map)
    }
}

/// The bounds of a back-test.
#[derive(Clone, Copy, Debug, PartialEq, Eq)]
pub struct CommonParam {
    /// The last day that the back-test may read.
    pub test_end_date: Option<TradeDate>,
    /// The least number of trading days that the back-test needs.
    pub min_trade_days: Option<i64>,
}

/// The end date written in `s`: read as `%Y-%m-%d` and, where that fails,
/// as `%Y%m%d`.
pub open spec fn spec_end_date(s: Seq<char>) -> Option<TradeDate> {
    match TradeDate::spec_parse(s, DASHED_DATE@) {
        Some(d) => Some(d),
        None => TradeDate::spec_parse(s, COMPACT_DATE@),
    }
}

/// Reads the end date of a back-test in either of its two formats.
pub fn parse_end_date(s: &str) -> (r: Option<TradeDate>)
    ensures
        r == spec_end_date(s@),
{
    match TradeDate::parse(s, DASHED_DATE) {
        Some(d) => Some(d),
        None => TradeDate::parse(s, COMPACT_DATE),
    }
}

/// The common parameters that follow from the two reserved parameters. Each
/// argument is `None` where the parameter was not given, and holds what was
/// read from its text where it was.
///
/// A parameter that was given and could not be read is a failure, the end
/// date first. Otherwise the common parameters exist where both were given.
pub open spec fn spec_common_param(
    end_date: Option<Option<TradeDate>>,
    trade_days: Option<Option<i64>>,
) -> Result<Option<CommonParam>, ConfigError> {
    if end_date == Some(None::<TradeDate>) {
        Err(ConfigError::BadEndDate)
    } else if trade_days == Some(None::<i64>) {
        Err(ConfigError::BadTradeDays)
    } else if end_date is Some && trade_days is Some {
        Ok(
            Some(
                CommonParam { test_end_date: end_date->0, min_trade_days: trade_days->0 },
            ),
        )
    } else {
        Ok(None)
    }
}

/// Puts the common parameters together from what was read of the two
/// reserved parameters.
pub fn common_param_from(
    end_date: Option<Option<TradeDate>>,
    trade_days: Option<Option<i64>>,
) -> (r: Result<Option<CommonParam>, ConfigError>)
    ensures
        r == spec_common_param(end_date, trade_days),
{
    match end_date {
        Some(None) => Err(ConfigError::BadEndDate),
        _ => match trade_days {
            Some(None) => Err(ConfigError::BadTradeDays),
            _ => match (end_date, trade_days) {
                (Some(d), Some(n)) => Ok(
                    Some(CommonParam { test_end_date: d, min_trade_days: n }),
                ),
                _ => Ok(None),
            },
        },
    }
}

/// The common parameters that the entries `e` stand for.
pub open spec fn spec_cmm_params(e: Seq<(Seq<char>, Seq<char>)>) -> Result<
    Option<CommonParam>,
    ConfigError,
> {
    spec_common_param(
        match lookup(e, TEST_END_DATE@) {
            Some(s) => Some(spec_end_date(s)),
            None => None,
        },
        match lookup(e, MIN_TRADE_DAYS@) {
            Some(s) => Some(spec_parse_i64(s)),
            None => None,
        },
    )
}

/// Reads the common parameters of a back-test from the parameters of the run.
pub fn build_cmm_params(params: &ParamMap) -> (r: Result<Option<CommonParam>, ConfigError>)
    ensures
        r == spec_cmm_params(params.spec_entries()),
{
    let end_date_key = TEST_END_DATE.to_owned();
    let end_date = match params.get(&end_date_key) {
        Some(s) => Some(parse_end_date(s.as_str())),
        None => None,
    };
    let trade_days_key = MIN_TRADE_DAYS.to_owned();
    let trade_days = match params.get(&trade_days_key) {
        Some(s) => Some(parse_i64(s.as_str())),
        None => None,
    };
    common_param_from(end_date, trade_days)
}

/// The kinds of store that a destination can name.
#[derive(Clone, Copy, Debug, PartialEq, Eq, Structural, Hash)]
pub enum DestKind {
    File,
    MongoDb,
    MySql,
    ClickHouse,
}

/// The kind of store that goes by `name`.
pub open spec fn spec_dest_kind(name: Seq<char>) -> Option<DestKind> {
    if name == "file"@ {
        Some(DestKind::File)
    } else if name == "mongodb"@ {
        Some(DestKind::MongoDb)
    } else if name == "mysql"@ {
        Some(DestKind::MySql)
    } else if name == "clickhouse"@ {
        Some(DestKind::ClickHouse)
    } else {
        None
    }
}

pub fn dest_kind(name: &String) -> (r: Option<DestKind>)
    ensures
        r == spec_dest_kind(name@),
{
    if *name == "file".to_owned() {
        Some(DestKind::File)
    } else if *name == "mongodb".to_owned() {
        Some(DestKind::MongoDb)
    } else if *name == "mysql".to_owned() {
        Some(DestKind::MySql)
    } else if *name == "clickhouse".to_owned() {
        Some(DestKind::ClickHouse)
    } else {
        None
    }
}

/// A store and where to find it.
#[derive(Debug, PartialEq, Eq)]
pub struct Destination {
    pub kind: DestKind,
    /// The connection string or path, as given.
    pub target: String,
}

/// `r` is what the destination specifier `s` stands for: the store named
/// before the `=` and the target after it, or the failure that the specifier
/// is rejected with, a malformed one before an unknown kind.
pub open spec fn dest_result(s: Seq<char>, r: Result<Destination, ConfigError>) -> bool {
    match spec_split_pair(s) {
        None => r matches Err(e) && e is InvalidFormat,
        Some(p) => match spec_dest_kind(p.0) {
            Some(kind) => r matches Ok(d) && d.kind == kind && d.target@ == p.1,
            None => r matches Err(e) && e.is_unknown_dest(p.0),
        },
    }
}

/// Reads a destination specifier of the form `kind=target`.
pub fn parse_dest(s: &str) -> (r: Result<Destination, ConfigError>)
    ensures
        dest_result(s@, r),
{
    match split_pair(s) {
        None => Err(ConfigError::InvalidFormat),
        Some((name, target)) => match dest_kind(&name) {
            Some(kind) => Ok(Destination { kind, target }),
            None => Err(ConfigError::UnknownDest(name)),
        },
    }
}

/// What a run is started with: the bounds of the back-test and the
/// parameters of the strategy.
#[derive(Debug)]
pub struct AppParams {
    pub common: Option<CommonParam>,
    pub strategy: Option<ParamMap>,
}

/// `r` holds the strategy's share of the entries `e`.
pub open spec fn strategy_share(e: Seq<(Seq<char>, Seq<char>)>, r: Option<ParamMap>) -> bool {
    match r {
        Some(m) => {
            &&& m.wf()
            &&& m.spec_entries() == strategy_entries(e)
            &&& m.spec_entries().len() > 0
        },
        None => strategy_entries(e).len() == 0,
    }
}

/// Reads everything that a run is started with from the words of the
/// command line.
///
/// Fails with the first word that is rejected. Where no word is, fails with
/// the common parameter that could not be read.
pub fn build_app_params(args: &Vec<String>) -> (r: Result<AppParams, ConfigError>)
    ensures
        match r {
            Ok(p) => {
                &&& all_accepted(words_of(args@))
                &&& spec_cmm_params(pairs_of(words_of(args@))) == Ok::<
                    Option<CommonParam>,
                    ConfigError,
                >(p.common)
                &&& strategy_share(pairs_of(words_of(args@)), p.strategy)
            },
            Err(e) => {
                ||| exists|i: int| #[trigger]
                    first_rejected(words_of(args@), i) && rejection(words_of(args@), i, e)
                ||| all_accepted(words_of(args@)) && spec_cmm_params(pairs_of(words_of(args@)))
                    == Err::<Option<CommonParam>, ConfigError>(e)
            },
        },
{
    let params = match build_params(args) {
        Ok(m) => m,
        Err(e) => {
            return Err(e);
        },
    };
    let common = match build_cmm_params(&params) {
        Ok(c) => c,
        Err(e) => {
            return Err(e);
        },
    };
    let strategy = build_strategy_params(&params);
    Ok(AppParams { common, strategy })
}

} // verus!
