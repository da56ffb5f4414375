use hiq_engine::calendar::TradeDate;
use hiq_engine::engine::{Engine, EngineAction};
use hiq_engine::error::{Error, ErrorKind};
use hiq_engine::strategy::{
    strategy_source, usage_topics, Aggregation, StrategyResult, StrategySource, StrategyType,
    UsageTopic,
};
use hiq_engine::symbol::Symbol;
use std::collections::HashMap;

fn symbols(codes: &[&str]) -> Vec<Symbol> {
    codes.iter().map(|c| Symbol::new(String::from(*c), format!("name of {}", c))).collect()
}

fn finding(code: &str) -> StrategyResult<f64> {
    let mut mark = HashMap::new();
    mark.insert(TradeDate::new(738_890), format!("marker of {}", code));
    StrategyResult { code: String::from(code), name: format!("name of {}", code), mark: Some(mark), stat: Some(1.5) }
}

/// A strategy that knows three symbols and has nothing to say of the others.
fn test_symbol(symbol: &Symbol) -> Result<Option<StrategyResult<f64>>, Error> {
    let known = ["sz002805", "sz300827", "sz000762"];
    if known.contains(&symbol.code.as_str()) {
        Ok(Some(finding(&symbol.code)))
    } else {
        Ok(None)
    }
}

fn found_codes(a: &Aggregation<f64>, t: StrategyType) -> Vec<String> {
    a.get(t).map(|v| v.iter().map(|r| r.code.clone()).collect()).unwrap_or_default()
}

#[test]
fn scenario_five_symbols_two_at_a_time() {
    let list = symbols(&["sz002805", "sz300827", "sz000762", "other1", "other2"]);
    let mut engine: Engine<f64> = Engine::new(StrategyType::Stock, list, 2).unwrap();
    assert_eq!(engine.limit(), 2);
    assert_eq!(engine.data_type(), StrategyType::Stock);
    let mut running: Vec<usize> = Vec::new();
    let mut most = 0;
    let mut started = Vec::new();
    loop {
        match engine.poll() {
            EngineAction::Start { index } => {
                running.push(index);
                started.push(index);
                assert!(running.len() <= 2);
                assert_eq!(engine.in_flight(), running.len());
                most = most.max(running.len());
            }
            EngineAction::Wait => {
                // The test that was started last ends first.
                let index = running.pop().unwrap();
                let outcome = test_symbol(engine.symbol(index).unwrap());
                assert!(engine.complete(index, outcome));
            }
            EngineAction::Finished => break,
        }
    }
    assert_eq!(most, 2);
    assert_eq!(started, vec![0, 1, 2, 3, 4]);
    assert_eq!(engine.started(), 5);
    assert_eq!(engine.in_flight(), 0);
    let result = engine.finish().unwrap();
    assert_eq!(result.len(), 1);
    assert!(result.contains_key(StrategyType::Stock));
    assert!(!result.is_empty());
    let found = result.get(StrategyType::Stock).unwrap();
    assert_eq!(found.len(), 3);
    let mut codes = found_codes(&result, StrategyType::Stock);
    codes.sort();
    assert_eq!(codes, vec!["sz000762", "sz002805", "sz300827"]);
    assert_eq!(found[0].stat, Some(1.5));
    assert_eq!(found[0].mark.as_ref().unwrap().len(), 1);
    for t in [StrategyType::Bond, StrategyType::Fund, StrategyType::Index, StrategyType::Concept, StrategyType::Industry] {
        assert!(result.get(t).is_none());
    }
}

#[test]
fn never_more_in_flight_than_the_limit() {
    for limit in 1..6usize {
        let codes: Vec<String> = (0..9).map(|i| format!("s{}", i)).collect();
        let refs: Vec<&str> = codes.iter().map(|c| c.as_str()).collect();
        let mut engine: Engine<f64> = Engine::new(StrategyType::Fund, symbols(&refs), limit).unwrap();
        let mut running: Vec<usize> = Vec::new();
        let mut turn = 0usize;
        loop {
            match engine.poll() {
                EngineAction::Start { index } => running.push(index),
                EngineAction::Wait => {
                    let index = running.remove(turn % running.len());
                    turn += 1;
                    assert!(engine.complete(index, Ok(None)));
                }
                EngineAction::Finished => break,
            }
            assert!(engine.in_flight() <= limit);
            assert_eq!(engine.in_flight(), running.len());
        }
        assert_eq!(engine.started(), 9);
        assert!(engine.finish().unwrap().is_empty());
    }
}

#[test]
fn results_keep_the_order_in_which_they_came() {
    let mut engine: Engine<f64> = Engine::new(StrategyType::Index, symbols(&["a", "b", "c"]), 3).unwrap();
    assert_eq!(engine.poll(), EngineAction::Start { index: 0 });
    assert_eq!(engine.poll(), EngineAction::Start { index: 1 });
    assert_eq!(engine.poll(), EngineAction::Start { index: 2 });
    assert_eq!(engine.poll(), EngineAction::Wait);
    assert!(engine.complete(2, Ok(Some(finding("c")))));
    assert!(engine.complete(0, Ok(Some(finding("a")))));
    assert_eq!(engine.poll(), EngineAction::Wait);
    assert!(engine.complete(1, Ok(Some(finding("b")))));
    assert_eq!(engine.poll(), EngineAction::Finished);
    let result = engine.finish().unwrap();
    assert_eq!(found_codes(&result, StrategyType::Index), vec!["c", "a", "b"]);
}

#[test]
fn a_result_counts_once_and_only_for_a_test_in_flight() {
    let mut engine: Engine<f64> = Engine::new(StrategyType::Stock, symbols(&["a", "b"]), 1).unwrap();
    assert!(!engine.complete(0, Ok(Some(finding("a")))));
    assert_eq!(engine.poll(), EngineAction::Start { index: 0 });
    assert_eq!(engine.poll(), EngineAction::Wait);
    assert!(!engine.complete(1, Ok(Some(finding("b")))));
    assert!(!engine.complete(7, Ok(Some(finding("x")))));
    assert!(engine.complete(0, Ok(Some(finding("a")))));
    assert!(!engine.complete(0, Ok(Some(finding("a")))));
    assert_eq!(engine.poll(), EngineAction::Start { index: 1 });
    assert!(engine.complete(1, Ok(None)));
    assert_eq!(engine.poll(), EngineAction::Finished);
    let result = engine.finish().unwrap();
    assert_eq!(found_codes(&result, StrategyType::Stock), vec!["a"]);
}

#[test]
fn scenario_interrupt_in_the_middle_of_a_run() {
    let list = symbols(&["sz002805", "sz300827", "sz000762", "other1", "other2"]);
    let mut engine: Engine<f64> = Engine::new(StrategyType::Stock, list, 2).unwrap();
    assert_eq!(engine.poll(), EngineAction::Start { index: 0 });
    assert_eq!(engine.poll(), EngineAction::Start { index: 1 });
    assert!(engine.complete(0, Ok(Some(finding("sz002805")))));
    assert_eq!(engine.poll(), EngineAction::Start { index: 2 });
    assert_eq!(engine.in_flight(), 2);
    assert!(!engine.is_cancelled());

    engine.cancel();

    assert!(engine.is_cancelled());
    assert_eq!(engine.in_flight(), 0);
    assert_eq!(engine.poll(), EngineAction::Finished);
    assert!(!engine.complete(1, Ok(Some(finding("sz300827")))));
    assert!(!engine.complete(2, Ok(Some(finding("sz000762")))));
    assert_eq!(engine.poll(), EngineAction::Finished);
    assert_eq!(engine.started(), 3);
    engine.cancel();
    let result = engine.finish().unwrap();
    assert_eq!(result.len(), 1);
    assert_eq!(found_codes(&result, StrategyType::Stock), vec!["sz002805"]);
}

#[test]
fn an_interrupt_before_any_result_leaves_an_empty_mapping() {
    let mut engine: Engine<f64> = Engine::new(StrategyType::Stock, symbols(&["a", "b"]), 2).unwrap();
    assert_eq!(engine.poll(), EngineAction::Start { index: 0 });
    engine.cancel();
    assert_eq!(engine.poll(), EngineAction::Finished);
    let result = engine.finish().unwrap();
    assert!(result.is_empty());
    assert_eq!(result.len(), 0);
}

#[test]
fn the_first_failure_ends_the_run() {
    let mut engine: Engine<f64> = Engine::new(StrategyType::Stock, symbols(&["a", "b", "c", "d"]), 2).unwrap();
    assert_eq!(engine.poll(), EngineAction::Start { index: 0 });
    assert_eq!(engine.poll(), EngineAction::Start { index: 1 });
    assert!(engine.complete(0, Ok(Some(finding("a")))));
    assert_eq!(engine.poll(), EngineAction::Start { index: 2 });
    assert!(!engine.has_failed());
    assert!(engine.complete(2, Err(Error::new(ErrorKind::Strategy, String::from("load_daily error")))));
    assert!(engine.has_failed());
    assert_eq!(engine.in_flight(), 0);
    assert_eq!(engine.poll(), EngineAction::Finished);
    assert!(!engine.complete(1, Err(Error::new(ErrorKind::Store, String::from("later")))));
    engine.cancel();
    assert!(!engine.is_cancelled());
    let e = engine.finish().unwrap_err();
    assert_eq!(e.kind(), ErrorKind::Strategy);
    assert_eq!(e.message, "load_daily error");
}

#[test]
fn a_run_without_symbols_is_over_at_once() {
    let mut engine: Engine<f64> = Engine::new(StrategyType::Bond, Vec::new(), 4).unwrap();
    assert_eq!(engine.poll(), EngineAction::Finished);
    assert!(engine.finish().unwrap().is_empty());
}

#[test]
fn there_is_no_run_without_room_for_a_test() {
    assert!(Engine::<f64>::new(StrategyType::Stock, symbols(&["a"]), 0).is_none());
    assert!(Engine::<f64>::new(StrategyType::Stock, Vec::new(), 0).is_none());
    assert!(Engine::<f64>::new(StrategyType::Stock, symbols(&["a"]), 1).is_some());
}

#[test]
fn symbols_are_found_by_their_position() {
    let engine: Engine<f64> = Engine::new(StrategyType::Stock, symbols(&["a", "b"]), 1).unwrap();
    assert_eq!(engine.symbol(0).unwrap().code, "a");
    assert_eq!(engine.symbol(1).unwrap().code, "b");
    assert!(engine.symbol(2).is_none());
}

#[test]
fn the_aggregation_has_a_key_for_every_type_with_a_result() {
    let mut a: Aggregation<f64> = Aggregation::new();
    assert!(a.is_empty());
    assert_eq!(a.len(), 0);
    a.insert(StrategyType::Stock, finding("s1"));
    a.insert(StrategyType::Bond, finding("b1"));
    a.insert(StrategyType::Stock, finding("s2"));
    assert_eq!(a.len(), 2);
    assert!(a.contains_key(StrategyType::Stock));
    assert!(a.contains_key(StrategyType::Bond));
    assert!(!a.contains_key(StrategyType::Fund));
    assert_eq!(found_codes(&a, StrategyType::Stock), vec!["s1", "s2"]);
    assert_eq!(found_codes(&a, StrategyType::Bond), vec!["b1"]);
    for t in [StrategyType::Fund, StrategyType::Index, StrategyType::Concept, StrategyType::Industry] {
        a.insert(t, finding("x"));
    }
    assert_eq!(a.len(), 6);
}

#[test]
fn a_path_wins_over_a_name() {
    let p = || Some(String::from("/lib/strategy.so"));
    let b = || Some(String::from("JustForTest"));
    assert_eq!(strategy_source(p(), b()), Some(StrategySource::Plugin(String::from("/lib/strategy.so"))));
    assert_eq!(strategy_source(p(), None), Some(StrategySource::Plugin(String::from("/lib/strategy.so"))));
    assert_eq!(strategy_source(None, b()), Some(StrategySource::BuiltIn(String::from("JustForTest"))));
    assert_eq!(strategy_source(None, None), None);
}

#[test]
fn usage_shows_what_is_named_or_else_everything() {
    let p = || Some(String::from("/lib/strategy.so"));
    let b = || Some(String::from("JustForTest"));
    assert_eq!(
        usage_topics(p(), b()),
        vec![
            UsageTopic::Plugin(String::from("/lib/strategy.so")),
            UsageTopic::BuiltIn(String::from("JustForTest"))
        ]
    );
    assert_eq!(usage_topics(p(), None), vec![UsageTopic::Plugin(String::from("/lib/strategy.so"))]);
    assert_eq!(usage_topics(None, b()), vec![UsageTopic::BuiltIn(String::from("JustForTest"))]);
    assert_eq!(usage_topics(None, None), vec![UsageTopic::AllBuiltIn]);
}
