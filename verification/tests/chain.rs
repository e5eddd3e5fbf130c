use event_filter::filter::{evaluate_chain, evaluate_responses, Filter, Response};
use std::sync::atomic::{AtomicUsize, Ordering};
use std::sync::Arc;

/// A filter that always gives the same response and counts its calls.
#[derive(Debug)]
struct Probe {
    response: Response,
    calls: Arc<AtomicUsize>,
}

impl Probe {
    fn boxed(response: Response) -> (Box<dyn Filter>, Arc<AtomicUsize>) {
        let calls = Arc::new(AtomicUsize::new(0));
        let probe = Probe {
            response,
            calls: calls.clone(),
        };
        (Box::new(probe), calls)
    }
}

impl Filter for Probe {
    fn filter(&self, _record: &log::Record) -> Response {
        self.calls.fetch_add(1, Ordering::SeqCst);
        self.response
    }
}

#[test]
fn accept_short_circuits() {
    let (f1, c1) = Probe::boxed(Response::Neutral);
    let (f2, c2) = Probe::boxed(Response::Accept);
    let (f3, c3) = Probe::boxed(Response::Reject);
    let chain: Vec<Box<dyn Filter>> = vec![f1, f2, f3];
    let record = log::Record::builder().build();
    assert!(evaluate_chain(&chain, &record));
    assert_eq!(c1.load(Ordering::SeqCst), 1);
    assert_eq!(c2.load(Ordering::SeqCst), 1);
    assert_eq!(c3.load(Ordering::SeqCst), 0);
}

#[test]
fn reject_short_circuits() {
    let (f1, c1) = Probe::boxed(Response::Neutral);
    let (f2, c2) = Probe::boxed(Response::Reject);
    let (f3, c3) = Probe::boxed(Response::Accept);
    let chain: Vec<Box<dyn Filter>> = vec![f1, f2, f3];
    let record = log::Record::builder().build();
    assert!(!evaluate_chain(&chain, &record));
    assert_eq!(c1.load(Ordering::SeqCst), 1);
    assert_eq!(c2.load(Ordering::SeqCst), 1);
    assert_eq!(c3.load(Ordering::SeqCst), 0);
}

#[test]
fn all_neutral_allows() {
    let (f1, c1) = Probe::boxed(Response::Neutral);
    let (f2, c2) = Probe::boxed(Response::Neutral);
    let (f3, c3) = Probe::boxed(Response::Neutral);
    let chain: Vec<Box<dyn Filter>> = vec![f1, f2, f3];
    let record = log::Record::builder().build();
    assert!(evaluate_chain(&chain, &record));
    assert_eq!(c1.load(Ordering::SeqCst), 1);
    assert_eq!(c2.load(Ordering::SeqCst), 1);
    assert_eq!(c3.load(Ordering::SeqCst), 1);
}

#[test]
fn empty_chain_allows() {
    let chain: Vec<Box<dyn Filter>> = vec![];
    let record = log::Record::builder().build();
    assert!(evaluate_chain(&chain, &record));
}

#[test]
fn each_filter_called_once_per_event() {
    let (f1, c1) = Probe::boxed(Response::Neutral);
    let (f2, c2) = Probe::boxed(Response::Neutral);
    let chain: Vec<Box<dyn Filter>> = vec![f1, f2];
    let record = log::Record::builder().build();
    assert!(evaluate_chain(&chain, &record));
    assert!(evaluate_chain(&chain, &record));
    assert_eq!(c1.load(Ordering::SeqCst), 2);
    assert_eq!(c2.load(Ordering::SeqCst), 2);
}

#[test]
fn responses_first_decisive_wins() {
    let rs = vec![Response::Neutral, Response::Accept, Response::Reject];
    assert_eq!(evaluate_responses(&rs), (true, 2));
    let rs = vec![Response::Reject, Response::Accept];
    assert_eq!(evaluate_responses(&rs), (false, 1));
}

#[test]
fn responses_all_neutral_allow() {
    let rs = vec![Response::Neutral, Response::Neutral];
    assert_eq!(evaluate_responses(&rs), (true, 2));
    let rs: Vec<Response> = vec![];
    assert_eq!(evaluate_responses(&rs), (true, 0));
}

#[test]
fn decisive_responses() {
    assert!(Response::Accept.is_decisive());
    assert!(Response::Reject.is_decisive());
    assert!(!Response::Neutral.is_decisive());
}
