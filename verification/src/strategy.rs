//! What a strategy declares and what it returns.

use crate::calendar::TradeDate;
use std::collections::HashMap;
use vstd::prelude::*;

verus! {

/// The kind of instrument that a strategy is written for, which is also the
/// kind of data that it reads.
#[derive(Clone, Copy, Debug, PartialEq, Eq, Structural, Hash)]
pub enum StrategyType {
    Bond,
    Fund,
    Stock,
    Index,
    Concept,
    Industry,
}

/// What a strategy found for one symbol. `S` is the score summary, which the
/// engine hands on without looking into it.
#[derive(Debug)]
pub struct StrategyResult<S> {
    pub code: String,
    pub name: String,
    /// Notes on single days.
    pub mark: Option<HashMap<TradeDate, String>>,
    pub stat: Option<S>,
}

/// The results of a run by declared type, each list in the order in which
/// the results came in. The mapping has a key for every type with at least
/// one result and for no other.
#[derive(Debug)]
pub struct Aggregation<S> {
    bond: Vec<StrategyResult<S>>,
    fund: Vec<StrategyResult<S>>,
    stock: Vec<StrategyResult<S>>,
    index: Vec<StrategyResult<S>>,
    concept: Vec<StrategyResult<S>>,
    industry: Vec<StrategyResult<S>>,
}

impl<S> View for Aggregation<S> {
    type V = Map<StrategyType, Seq<StrategyResult<S>>>;

    open spec fn view(&self) -> Map<StrategyType, Seq<StrategyResult<S>>> {
        Map::new(
            |t: StrategyType| self.results_of(t).len() > 0,
            |t: StrategyType| self.results_of(t),
        )
    }
}

impl<S> Aggregation<S> {
    /// The results under the type `t`, which are none where the mapping has
    /// no such key.
    pub closed spec fn results_of(&self, t: StrategyType) -> Seq<StrategyResult<S>> {
        match t {
            StrategyType::Bond => self.bond@,
            StrategyType::Fund => self.fund@,
            StrategyType::Stock => self.stock@,
            StrategyType::Index => self.index@,
            StrategyType::Concept => self.concept@,
            StrategyType::Industry => self.industry@,
        }
    }

    /// A mapping without keys.
    pub fn new() -> (a: Aggregation<S>)
        ensures
            forall|t: StrategyType| a.results_of(t) == Seq::<StrategyResult<S>>::empty(),
            a@ == Map::<StrategyType, Seq<StrategyResult<S>>>::empty(),
    {
        let a = Aggregation {
            bond: Vec::new(),
            fund: Vec::new(),
            stock: Vec::new(),
            index: Vec::new(),
            concept: Vec::new(),
            industry: Vec::new(),
        };
        assert(a@ =~= Map::<StrategyType, Seq<StrategyResult<S>>>::empty());
        a
    }

    /// Puts `result` at the end of the list under `t`.
    pub fn insert(&mut self, t: StrategyType, result: StrategyResult<S>)
        ensures
            final(self).results_of(t) == old(self).results_of(t).push(result),
            forall|u: StrategyType| u != t ==> final(self).results_of(u) == old(self).results_of(u),
            final(self)@ == old(self)@.insert(t, old(self).results_of(t).push(result)),
    {
        match t {
            StrategyType::Bond => self.bond.push(result),
            StrategyType::Fund => self.fund.push(result),
            StrategyType::Stock => self.stock.push(result),
            StrategyType::Index => self.index.push(result),
            StrategyType::Concept => self.concept.push(result),
            StrategyType::Industry => self.industry.push(result),
        }
        assert(self@ =~= old(self)@.insert(t, old(self).results_of(t).push(result)));
    }

    /// The list under `t`, if the mapping has that key.
    pub fn get(&self, t: StrategyType) -> (r: Option<&Vec<StrategyResult<S>>>)
        ensures
            match r {
                Some(v) => self@.contains_key(t) && v@ == self@[t] && v@ == self.results_of(t),
                None => !self@.contains_key(t) && self.results_of(t).len() == 0,
            },
    {
        let v = match t {
            StrategyType::Bond => &self.bond,
            StrategyType::Fund => &self.fund,
            StrategyType::Stock => &self.stock,
            StrategyType::Index => &self.index,
            StrategyType::Concept => &self.concept,
            StrategyType::Industry => &self.industry,
        };
        if v.len() > 0 {
            Some(v)
        } else {
            None
        }
    }

    /// Whether the mapping has the key `t`.
    pub fn contains_key(&self, t: StrategyType) -> (b: bool)
        ensures
            b == self@.contains_key(t),
    {
        self.get(t).is_some()
    }

    /// The number of keys.
    pub fn len(&self) -> (n: usize)
        ensures
            n == self@.dom().len(),
            self@.dom().finite(),
    {
        let mut n: usize = 0;
        let ghost mut seen: Set<StrategyType> = Set::empty();
        if self.bond.len() > 0 {
            n += 1;
            proof {
                seen = seen.insert(StrategyType::Bond);
            }
        }
        if self.fund.len() > 0 {
            n += 1;
            proof {
                seen = seen.insert(StrategyType::Fund);
            }
        }
        if self.stock.len() > 0 {
            n += 1;
            proof {
                seen = seen.insert(StrategyType::Stock);
            }
        }
        if self.index.len() > 0 {
            n += 1;
            proof {
                seen = seen.insert(StrategyType::Index);
            }
        }
        if self.concept.len() > 0 {
            n += 1;
            proof {
                seen = seen.insert(StrategyType::Concept);
            }
        }
        if self.industry.len() > 0 {
            n += 1;
            proof {
                seen = seen.insert(StrategyType::Industry);
            }
        }
        proof {
            assert(seen =~= self@.dom());
        }
        n
    }

    pub fn is_empty(&self) -> (b: bool)
        ensures
            b == (self@ == Map::<StrategyType, Seq<StrategyResult<S>>>::empty()),
    {
        let b = self.bond.len() == 0 && self.fund.len() == 0 && self.stock.len() == 0
            && self.index.len() == 0 && self.concept.len() == 0 && self.industry.len() == 0;
        proof {
            if b {
                assert(self@ =~= Map::<StrategyType, Seq<StrategyResult<S>>>::empty());
            } else {
                let t = if self.bond.len() > 0 {
                    StrategyType::Bond
                } else if self.fund.len() > 0 {
                    StrategyType::Fund
                } else if self.stock.len() > 0 {
                    StrategyType::Stock
                } else if self.index.len() > 0 {
                    StrategyType::Index
                } else if self.concept.len() > 0 {
                    StrategyType::Concept
                } else {
                    StrategyType::Industry
                };
                assert(self@.contains_key(t));
            }
        }
        b
    }
}

/// Where the strategy of a run comes from.
#[derive(Debug, PartialEq, Eq)]
pub enum StrategySource {
    /// A module on disk, by its path.
    Plugin(String),
    /// A strategy of the fixed registry, by its name.
    BuiltIn(String),
}

/// The strategy that the command line asks for: the module where a path is
/// given, else the named built-in strategy, else none.
pub open spec fn spec_strategy_source(path: Option<String>, builtin: Option<String>) -> Option<
    StrategySource,
> {
    match path {
        Some(p) => Some(StrategySource::Plugin(p)),
        None => match builtin {
            Some(b) => Some(StrategySource::BuiltIn(b)),
            None => None,
        },
    }
}

pub fn strategy_source(path: Option<String>, builtin: Option<String>) -> (r: Option<StrategySource>)
    ensures
        r == spec_strategy_source(path, builtin),
{
    match path {
        Some(p) => Some(StrategySource::Plugin(p)),
        None => match builtin {
            Some(b) => Some(StrategySource::BuiltIn(b)),
            None => None,
        },
    }
}

/// Something whose usage text is asked for.
#[derive(Debug, PartialEq, Eq)]
pub enum UsageTopic {
    Plugin(String),
    BuiltIn(String),
    /// Every strategy of the fixed registry.
    AllBuiltIn,
}

/// What the `usage` command shows: the module where a path is given, then
/// the built-in strategy where a name is given, and the whole registry where
/// neither is.
pub open spec fn spec_usage_topics(path: Option<String>, builtin: Option<String>) -> Seq<
    UsageTopic,
> {
    match (path, builtin) {
        (Some(p), Some(b)) => seq![UsageTopic::Plugin(p), UsageTopic::BuiltIn(b)],
        (Some(p), None) => seq![UsageTopic::Plugin(p)],
        (None, Some(b)) => seq![UsageTopic::BuiltIn(b)],
        (None, None) => seq![UsageTopic::AllBuiltIn],
    }
}

pub fn usage_topics(path: Option<String>, builtin: Option<String>) -> (r: Vec<UsageTopic>)
    ensures
        r@ == spec_usage_topics(path, builtin),
{
    let mut topics: Vec<UsageTopic> = Vec::new();
    let nothing_named = path.is_none() && builtin.is_none();
    match path {
        Some(p) => topics.push(UsageTopic::Plugin(p)),
        None => {},
    }
    match builtin {
        Some(b) => topics.push(UsageTopic::BuiltIn(b)),
        None => {},
    }
    if nothing_named {
        topics.push(UsageTopic::AllBuiltIn);
    }
    assert(topics@ =~= spec_usage_topics(path, builtin));
    topics
}

} // verus!
