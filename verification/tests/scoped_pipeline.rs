use crossbeam_utils::thread::scope;
use plmap::{tally, Mapper, ScopedPipeline, ScopedPipelineMap, WorkerLost};
use std::collections::BTreeMap;
use std::sync::atomic::{AtomicUsize, Ordering};
use std::sync::Arc;

fn evens(n: i32) -> Vec<Result<i32, WorkerLost>> {
    (0..n).map(|x| Ok(x * 2)).collect()
}

#[test]
fn test_scoped_parallel_pipeline() {
    scope(|s| {
        for w in 0..3 {
            let mut p = (0..100).scoped_plmap(s, w, |x| x * 2).unwrap();
            let mut i = 0;
            while let Some(v) = p.next() {
                assert_eq!(Ok(i * 2), v);
                i += 1;
            }
            assert_eq!((0..100).scoped_plmap(s, w, |x| x * 2).unwrap().drain().len(), 100);
        }
    })
    .unwrap()
}

#[test]
fn five_workers_double_a_hundred_in_order() {
    scope(|s| {
        let mut p = ScopedPipeline::new(s, 5, |x: i32| x * 2, 0..100).unwrap();
        assert_eq!(p.worker_count(), 5);
        assert_eq!(p.running_count(), 5);
        let mut seen = Vec::new();
        while let Some(v) = p.next() {
            assert!(p.pending() <= 5);
            seen.push(v);
        }
        assert_eq!(seen.len(), 100);
        assert_eq!(seen[0], Ok(0));
        assert_eq!(seen[1], Ok(2));
        assert_eq!(seen[2], Ok(4));
        assert_eq!(seen[99], Ok(198));
        assert_eq!(seen, evens(100));
        assert_eq!(p.shutdown(), 0);
    })
    .unwrap()
}

#[test]
fn no_workers_double_a_hundred_without_threads() {
    scope(|s| {
        let mut p = ScopedPipeline::new(s, 0, |x: i32| x * 2, 0..100).unwrap();
        assert_eq!(p.worker_count(), 0);
        assert_eq!(p.running_count(), 0);
        let mut seen = Vec::new();
        while let Some(v) = p.next() {
            assert_eq!(p.pending(), 0);
            seen.push(v);
        }
        assert_eq!(seen, evens(100));
        assert_eq!(p.shutdown(), 0);
    })
    .unwrap()
}

#[test]
fn first_ten_then_discard() {
    scope(|s| {
        let mut p = ScopedPipeline::new(s, 5, |x: i32| x * 2, 0..100).unwrap();
        let mut seen = Vec::new();
        for _ in 0..10 {
            seen.push(p.next());
        }
        let expected: Vec<_> = (0..10).map(|x| Some(Ok(x * 2))).collect();
        assert_eq!(seen, expected);
        assert_eq!(p.shutdown(), 0);
        assert_eq!(p.running_count(), 0);
    })
    .unwrap()
}

#[test]
fn first_ten_then_drop_without_shutdown() {
    scope(|s| {
        let mut p = ScopedPipeline::new(s, 5, |x: i32| x * 2, 0..100).unwrap();
        for x in 0..10 {
            assert_eq!(p.next(), Some(Ok(x * 2)));
        }
        drop(p);
    })
    .unwrap()
}

#[test]
fn never_started_then_shutdown() {
    scope(|s| {
        let mut p = ScopedPipeline::new(s, 4, |x: i32| x * 2, 0..100).unwrap();
        assert_eq!(p.running_count(), 4);
        assert_eq!(p.shutdown(), 0);
        assert_eq!(p.running_count(), 0);
        assert!(p.closed());
    })
    .unwrap()
}

#[test]
fn shutdown_twice_finds_nothing_the_second_time() {
    scope(|s| {
        let mut p = ScopedPipeline::new(s, 3, |x: i32| x * 2, 0..100).unwrap();
        assert_eq!(p.next(), Some(Ok(0)));
        assert!(!p.closed());
        assert_eq!(p.shutdown(), 0);
        assert!(p.closed());
        assert_eq!(p.pending(), 0);
        assert_eq!(p.shutdown(), 0);
        assert_eq!(p.running_count(), 0);
        assert_eq!(p.next(), None);
        assert_eq!(p.drain(), Vec::new());
    })
    .unwrap()
}

#[test]
fn drain_gives_every_result_in_order() {
    scope(|s| {
        for w in [0usize, 1, 2, 5] {
            let mut p = (0..100).scoped_plmap(s, w, |x: i32| x * 2).unwrap();
            assert_eq!(p.drain(), evens(100));
            assert_eq!(p.pending(), 0);
            assert_eq!(p.next(), None);
            assert_eq!(p.shutdown(), 0);
        }
    })
    .unwrap()
}

#[test]
fn drain_gives_what_is_in_flight_and_what_is_left() {
    scope(|s| {
        let mut p = (0..10).scoped_plmap(s, 3, |x: i32| x * 2).unwrap();
        assert_eq!(p.next(), Some(Ok(0)));
        assert_eq!(p.pending(), 2);
        let rest = p.drain();
        assert_eq!(rest.len(), 2 + 7);
        assert_eq!(rest, evens(10)[1..].to_vec());
        assert_eq!(p.shutdown(), 0);
    })
    .unwrap()
}

#[test]
fn drain_of_an_empty_input_is_empty() {
    scope(|s| {
        for w in [0usize, 2] {
            let mut p = (0..0).scoped_plmap(s, w, |x: i32| x * 2).unwrap();
            assert_eq!(p.drain(), Vec::new());
            assert_eq!(p.shutdown(), 0);
        }
    })
    .unwrap()
}

#[test]
fn capability_and_input_may_borrow_from_the_caller() {
    let table = vec![10, 20, 30, 40];
    let order = vec![3usize, 0, 2, 1];
    let got = scope(|s| {
        let mut p = order.iter().scoped_plmap(s, 2, |i: &usize| table[*i] + 1).unwrap();
        let got = p.drain();
        assert_eq!(p.shutdown(), 0);
        got
    })
    .unwrap();
    assert_eq!(got, vec![Ok(41), Ok(11), Ok(31), Ok(21)]);
    assert_eq!(table.len(), 4);
}

#[derive(Clone)]
struct Counting {
    id: Option<usize>,
    ids: Arc<AtomicUsize>,
    calls: usize,
}

impl Counting {
    fn new() -> Counting {
        Counting { id: None, ids: Arc::new(AtomicUsize::new(0)), calls: 0 }
    }
}

impl Mapper<i32> for Counting {
    type Out = (i32, usize, usize);

    fn apply(&mut self, x: i32) -> (i32, usize, usize) {
        let id = match self.id {
            Some(id) => id,
            None => self.ids.fetch_add(1, Ordering::SeqCst),
        };
        self.id = Some(id);
        self.calls += 1;
        (x, id, self.calls)
    }
}

#[test]
fn each_duplicate_counts_only_its_own_calls() {
    let seen = scope(|s| {
        let mut p = (0..30).scoped_plmap(s, 3, Counting::new()).unwrap();
        let seen = p.drain();
        assert_eq!(p.shutdown(), 0);
        seen
    })
    .unwrap();
    assert_eq!(seen.len(), 30);
    // The items of each duplicate, in the order of the input.
    let mut by_duplicate: BTreeMap<usize, Vec<i32>> = BTreeMap::new();
    for (i, r) in seen.iter().enumerate() {
        let (x, id, _) = r.unwrap();
        assert_eq!(x, i as i32);
        by_duplicate.entry(id).or_default().push(x);
    }
    assert!(by_duplicate.len() <= 3);
    assert_eq!(by_duplicate.values().map(|items| items.len()).sum::<usize>(), 30);
    // A fresh duplicate that is given the same items one after the other
    // answers as the duplicate in the pool did.
    for (id, items) in by_duplicate {
        let mut reference = Counting::new();
        for x in items {
            let (_, _, calls) = reference.apply(x);
            assert_eq!(seen[x as usize], Ok((x, id, calls)));
        }
    }
}

#[test]
fn without_a_pool_one_instance_counts_every_call() {
    let seen = scope(|s| (0..30).scoped_plmap(s, 0, Counting::new()).unwrap().drain()).unwrap();
    let expected: Vec<_> = (0..30).map(|x| Ok((x, 0, x as usize + 1))).collect();
    assert_eq!(seen, expected);
}

fn fail_on_seven(x: i32) -> i32 {
    if x == 7 {
        panic!("the capability fails on 7");
    }
    x * 2
}

#[test]
fn lost_worker_is_reported_at_its_item() {
    scope(|s| {
        let mut p = (0..20).scoped_plmap(s, 2, fail_on_seven).unwrap();
        let seen = p.drain();
        assert_eq!(seen.len(), 20);
        for (i, r) in seen.iter().enumerate() {
            if i == 7 {
                assert_eq!(*r, Err(WorkerLost));
            } else {
                assert_eq!(*r, Ok(i as i32 * 2));
            }
        }
        assert_eq!(p.shutdown(), 1);
        assert_eq!(p.shutdown(), 0);
    })
    .unwrap()
}

#[test]
fn pool_without_workers_left_reports_every_item() {
    scope(|s| {
        let mut p = (0..20).scoped_plmap(s, 1, fail_on_seven).unwrap();
        let seen = p.drain();
        assert_eq!(seen.len(), 20);
        for (i, r) in seen.iter().enumerate() {
            if i < 7 {
                assert_eq!(*r, Ok(i as i32 * 2));
            } else {
                assert_eq!(*r, Err(WorkerLost));
            }
        }
        assert_eq!(p.shutdown(), 1);
    })
    .unwrap()
}

#[test]
fn in_flight_never_exceeds_the_pool() {
    let taken = Arc::new(AtomicUsize::new(0));
    let seen = taken.clone();
    let input = (0..50).inspect(move |_| {
        seen.fetch_add(1, Ordering::SeqCst);
    });
    scope(|s| {
        let mut p = input.scoped_plmap(s, 4, |x: i32| x * 2).unwrap();
        let mut given = 0;
        while let Some(v) = p.next() {
            assert_eq!(v, Ok(given * 2));
            given += 1;
            let in_flight = taken.load(Ordering::SeqCst) - given as usize;
            assert_eq!(in_flight, p.pending());
            assert!(in_flight <= 4);
        }
        assert_eq!(given, 50);
        assert_eq!(p.shutdown(), 0);
    })
    .unwrap()
}

/// A capability that counts its living duplicates.
struct Living {
    alive: Arc<AtomicUsize>,
}

impl Living {
    fn new(alive: &Arc<AtomicUsize>) -> Living {
        alive.fetch_add(1, Ordering::SeqCst);
        Living { alive: alive.clone() }
    }
}

impl Clone for Living {
    fn clone(&self) -> Living {
        Living::new(&self.alive)
    }
}

impl Drop for Living {
    fn drop(&mut self) {
        self.alive.fetch_sub(1, Ordering::SeqCst);
    }
}

impl Mapper<i32> for Living {
    type Out = i32;

    fn apply(&mut self, x: i32) -> i32 {
        x * 2
    }
}

#[test]
fn shutdown_leaves_no_worker_behind() {
    let alive = Arc::new(AtomicUsize::new(0));
    scope(|s| {
        let mut p = (0..100).scoped_plmap(s, 5, Living::new(&alive)).unwrap();
        // The pipeline's own instance and one duplicate for each worker.
        assert_eq!(alive.load(Ordering::SeqCst), 6);
        for x in 0..10 {
            assert_eq!(p.next(), Some(Ok(x * 2)));
        }
        assert_eq!(p.shutdown(), 0);
        assert_eq!(p.running_count(), 0);
        assert_eq!(alive.load(Ordering::SeqCst), 1);
        drop(p);
        assert_eq!(alive.load(Ordering::SeqCst), 0);
    })
    .unwrap()
}

#[test]
fn shutdown_of_a_drained_pipeline_leaves_no_worker_behind() {
    let alive = Arc::new(AtomicUsize::new(0));
    scope(|s| {
        let mut p = (0..100).scoped_plmap(s, 3, Living::new(&alive)).unwrap();
        assert_eq!(p.drain().len(), 100);
        assert_eq!(alive.load(Ordering::SeqCst), 4);
        assert_eq!(p.shutdown(), 0);
        assert_eq!(alive.load(Ordering::SeqCst), 1);
    })
    .unwrap()
}

#[test]
fn every_worker_of_the_pool_is_started() {
    scope(|s| {
        for w in [0usize, 1, 2, 5, 8] {
            let mut p = ScopedPipeline::new(s, w, |x: i32| x * 2, 0..3).unwrap();
            assert_eq!(p.worker_count(), w);
            assert_eq!(p.running_count(), w);
            assert_eq!(p.pending(), 0);
            assert!(!p.closed());
            assert_eq!(p.shutdown(), 0);
        }
    })
    .unwrap()
}

#[test]
fn every_worker_has_a_duplicate_of_its_own() {
    let a = Arc::new(0i32);
    let b = a.clone();
    scope(|s| {
        let mut p = ScopedPipeline::new(s, 5, move |x: i32| x * 2 + *b, 0..100).unwrap();
        assert_eq!(p.running_count(), 5);
        // `a`, the pipeline's own instance and five duplicates.
        assert_eq!(Arc::strong_count(&a), 7);
        assert_eq!(p.shutdown(), 0);
        assert_eq!(Arc::strong_count(&a), 2);
    })
    .unwrap();
    assert_eq!(Arc::strong_count(&a), 1);
}

#[test]
fn construction_takes_nothing_from_the_input() {
    let taken = Arc::new(AtomicUsize::new(0));
    let seen = taken.clone();
    let input = (0..10).inspect(move |_| {
        seen.fetch_add(1, Ordering::SeqCst);
    });
    scope(|s| {
        let mut p = ScopedPipeline::new(s, 3, |x: i32| x * 2, input).unwrap();
        assert_eq!(taken.load(Ordering::SeqCst), 0);
        assert_eq!(p.pending(), 0);
        assert_eq!(p.shutdown(), 0);
        assert_eq!(taken.load(Ordering::SeqCst), 0);
    })
    .unwrap()
}

#[test]
fn without_a_pool_there_always_is_a_pipeline() {
    scope(|s| {
        let made = ScopedPipeline::new(s, 0, |x: i32| x * 2, 0..3);
        assert!(made.is_some());
        let made = (0..3).scoped_plmap(s, 0, |x: i32| x * 2);
        assert!(made.is_some());
    })
    .unwrap()
}

#[test]
fn tally_counts_a_fault() {
    assert_eq!(tally(0, false), 1);
    assert_eq!(tally(3, false), 4);
    assert_eq!(tally(usize::MAX - 1, false), usize::MAX);
}

#[test]
fn tally_passes_over_a_clean_end() {
    assert_eq!(tally(0, true), 0);
    assert_eq!(tally(3, true), 3);
}

#[test]
fn drained_pipeline_gives_nothing_more() {
    scope(|s| {
        for w in [0usize, 3] {
            let mut p = (0..10).scoped_plmap(s, w, |x: i32| x * 2).unwrap();
            assert_eq!(p.drain().len(), 10);
            assert_eq!(p.next(), None);
            assert_eq!(p.drain(), Vec::new());
            assert_eq!(p.shutdown(), 0);
        }
    })
    .unwrap()
}
