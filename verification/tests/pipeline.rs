use hiq_engine::error::{Error, ErrorKind};
use hiq_engine::pipeline::{join, partition, FanIn, Take};
use hiq_engine::symbol::Symbol;

fn symbols(n: usize) -> Vec<Symbol> {
    (0..n).map(|i| Symbol::new(format!("c{}", i), format!("n{}", i))).collect()
}

fn codes(group: &Vec<Symbol>) -> Vec<String> {
    group.iter().map(|s| s.code.clone()).collect()
}

#[test]
fn partition_deals_out_consecutive_runs() {
    let groups = partition(&symbols(5), 2).unwrap();
    assert_eq!(groups.len(), 2);
    assert_eq!(codes(&groups[0]), vec!["c0", "c1", "c2"]);
    assert_eq!(codes(&groups[1]), vec!["c3", "c4"]);

    let groups = partition(&symbols(7), 3).unwrap();
    assert_eq!(codes(&groups[0]), vec!["c0", "c1", "c2"]);
    assert_eq!(codes(&groups[1]), vec!["c3", "c4"]);
    assert_eq!(codes(&groups[2]), vec!["c5", "c6"]);
}

#[test]
fn partition_with_more_workers_than_symbols_leaves_some_idle() {
    let groups = partition(&symbols(2), 4).unwrap();
    assert_eq!(groups.len(), 4);
    assert_eq!(codes(&groups[0]), vec!["c0"]);
    assert_eq!(codes(&groups[1]), vec!["c1"]);
    assert!(groups[2].is_empty());
    assert!(groups[3].is_empty());
    let groups = partition(&symbols(0), 3).unwrap();
    assert_eq!(groups.len(), 3);
    assert!(groups.iter().all(|g| g.is_empty()));
}

#[test]
fn partition_for_nobody_is_refused() {
    assert_eq!(partition(&symbols(3), 0), None);
    assert_eq!(partition(&symbols(0), 0), None);
}

#[test]
fn partition_covers_every_symbol_once() {
    for len in 0..12 {
        let all = symbols(len);
        for n in 1..7 {
            let groups = partition(&all, n).unwrap();
            assert_eq!(groups.len(), n);
            let joined: Vec<Symbol> = groups.iter().flat_map(|g| g.iter().map(|s| s.duplicate())).collect();
            assert_eq!(joined, all);
            let sizes: Vec<usize> = groups.iter().map(|g| g.len()).collect();
            let most = *sizes.iter().max().unwrap();
            let least = *sizes.iter().min().unwrap();
            assert!(most - least <= 1);
            assert!(sizes.windows(2).all(|w| w[0] >= w[1]));
        }
    }
}

fn failure(kind: ErrorKind, text: &str) -> Result<(), Error> {
    Err(Error::new(kind, String::from(text)))
}

#[test]
fn join_succeeds_where_everything_did() {
    assert!(join(&vec![Ok(()), Ok(())], &Ok(())).is_ok());
    assert!(join(&Vec::new(), &Ok(())).is_ok());
}

#[test]
fn join_reports_the_first_failed_worker() {
    let workers = vec![Ok(()), failure(ErrorKind::Store, "first"), failure(ErrorKind::FatalFetch, "second")];
    let e = join(&workers, &failure(ErrorKind::Store, "save")).unwrap_err();
    assert_eq!(e.kind(), ErrorKind::Store);
    assert_eq!(e.message, "first");
}

#[test]
fn join_reports_the_save_stage_where_no_worker_failed() {
    let e = join(&vec![Ok(()), Ok(())], &failure(ErrorKind::Store, "save")).unwrap_err();
    assert_eq!(e.kind(), ErrorKind::Store);
    assert_eq!(e.message, "save");
}

#[test]
fn the_channel_hands_batches_out_in_the_order_of_arrival() {
    let mut ch: FanIn<u32> = FanIn::new(2);
    assert_eq!(ch.waiting(), 0);
    assert!(matches!(ch.take(), Take::Pending));
    assert!(ch.send(10).is_ok());
    assert!(ch.send(20).is_ok());
    assert!(ch.send(30).is_ok());
    assert_eq!(ch.waiting(), 3);
    let mut out = Vec::new();
    for _ in 0..3 {
        match ch.take() {
            Take::Item(x) => out.push(x),
            other => panic!("no batch: {:?}", other),
        }
        ch.saved(true);
    }
    assert_eq!(out, vec![10, 20, 30]);
    assert_eq!(ch.waiting(), 0);
    assert!(matches!(ch.take(), Take::Pending));
    assert!(!ch.is_drained());
    ch.producer_done();
    assert!(matches!(ch.take(), Take::Pending));
    ch.producer_done();
    assert!(matches!(ch.take(), Take::Drained));
    assert!(ch.is_drained());
    ch.producer_done();
    assert!(ch.is_drained());
}

#[test]
fn the_save_stage_takes_one_batch_at_a_time() {
    let mut ch: FanIn<u32> = FanIn::new(1);
    ch.send(1).unwrap();
    ch.send(2).unwrap();
    assert!(matches!(ch.take(), Take::Item(1)));
    assert!(matches!(ch.take(), Take::Pending));
    assert_eq!(ch.waiting(), 1);
    ch.saved(true);
    ch.saved(true);
    assert!(matches!(ch.take(), Take::Item(2)));
    ch.producer_done();
    assert!(!ch.is_drained());
    assert!(matches!(ch.take(), Take::Pending));
    ch.saved(true);
    assert!(ch.is_drained());
    assert!(matches!(ch.take(), Take::Drained));
}

#[test]
fn every_batch_is_saved_exactly_once() {
    let mut ch: FanIn<usize> = FanIn::new(3);
    let mut saved = Vec::new();
    let mut sent = Vec::new();
    for round in 0..5 {
        for worker in 0..3 {
            let item = round * 10 + worker;
            ch.send(item).unwrap();
            sent.push(item);
        }
        if let Take::Item(x) = ch.take() {
            saved.push(x);
            ch.saved(true);
        }
    }
    for _ in 0..3 {
        ch.producer_done();
    }
    loop {
        match ch.take() {
            Take::Item(x) => {
                saved.push(x);
                ch.saved(true);
            }
            Take::Pending => panic!("stuck"),
            Take::Drained => break,
        }
    }
    assert_eq!(saved, sent);
}

#[test]
fn a_failed_save_closes_the_channel() {
    let mut ch: FanIn<u32> = FanIn::new(1);
    ch.send(1).unwrap();
    ch.send(2).unwrap();
    assert!(matches!(ch.take(), Take::Item(1)));
    assert_eq!(ch.waiting(), 1);
    ch.saved(false);
    assert_eq!(ch.waiting(), 0);
    assert!(matches!(ch.take(), Take::Drained));
    assert_eq!(ch.send(3), Err(3));
    assert_eq!(ch.waiting(), 0);
    assert!(!ch.is_drained());
    ch.producer_done();
    assert!(!ch.is_drained());
    assert!(matches!(ch.take(), Take::Drained));
}
