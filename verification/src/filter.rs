//! The filter capability, the three-valued response protocol, and the
//! short-circuit rule a chain of filters is combined under.

use vstd::prelude::*;

verus! {

/// Relies on the `log` crate's `Record`: the log event a filter inspects,
/// carried through this crate as an opaque value.
#[verifier::external_type_specification]
#[verifier::external_body]
pub struct ExRecord<'a>(log::Record<'a>);

/// The response returned by a filter.
#[derive(Clone, Copy, Debug, PartialEq, Eq, Structural)]
pub enum Response {
    /// Accept the log event.
    ///
    /// It will be immediately passed to the appender, bypassing any remaining
    /// filters.
    Accept,

    /// Take no action on the log event.
    ///
    /// It will continue on to remaining filters or pass on to the appender if
    /// there are none remaining.
    Neutral,

    /// Reject the log event.
    Reject,
}

impl Response {
    /// Whether this response ends the evaluation of a chain: `Accept` and
    /// `Reject` short-circuit, `Neutral` lets evaluation continue.
    pub fn is_decisive(&self) -> (r: bool)
        ensures
            r == !(*self is Neutral),
    {
        match self {
            Response::Neutral => false,
            _ => true,
        }
    }
}

/// The trait implemented by filters.
///
/// Filters are associated with appenders and limit the log events that will
/// be sent to that appender. A filter may be stateful, so two calls on the
/// same event may answer differently; a chain therefore calls each filter
/// exactly once per event.
pub trait Filter: Send + Sync + 'static {
    /// Filters a log event.
    fn filter(&self, record: &log::Record) -> Response;
}

/// The verdict of a chain on the responses `rs` its filters would give, one
/// response per filter in declaration order: the first `Accept` allows the
/// event, the first `Reject` denies it, and a chain of nothing but `Neutral`
/// — in particular an empty chain — allows it.
pub open spec fn chain_allows(rs: Seq<Response>) -> bool
    decreases rs.len(),
{
    if rs.len() == 0 {
        true
    } else {
        match rs[0] {
            Response::Accept => true,
            Response::Reject => false,
            Response::Neutral => chain_allows(rs.drop_first()),
        }
    }
}

/// How many filters a chain consults on the responses `rs`: every filter up
/// to and including the first decisive one, or all of them when every
/// response is `Neutral`.
pub open spec fn consulted(rs: Seq<Response>) -> int
    decreases rs.len(),
{
    if rs.len() == 0 {
        0
    } else if !(rs[0] is Neutral) {
        1
    } else {
        1 + consulted(rs.drop_first())
    }
}

/// The shape of every chain evaluation: the consulted filters are a prefix,
/// all of them answer `Neutral` except possibly the last, and the verdict is
/// read off the last consulted response.
pub proof fn lemma_evaluation_shape(rs: Seq<Response>)
    ensures
        0 <= consulted(rs) <= rs.len(),
        rs.len() > 0 ==> consulted(rs) >= 1,
        forall|j: int| 0 <= j < consulted(rs) - 1 ==> rs[j] is Neutral,
        consulted(rs) == rs.len() || !(rs[consulted(rs) - 1] is Neutral),
        consulted(rs) > 0 && !(rs[consulted(rs) - 1] is Neutral) ==> chain_allows(rs) == (
        rs[consulted(rs) - 1] is Accept),
        (forall|j: int| 0 <= j < rs.len() ==> rs[j] is Neutral) ==> consulted(rs) == rs.len()
            && chain_allows(rs),
    decreases rs.len(),
{
    if rs.len() == 0 {
    } else if !(rs[0] is Neutral) {
    } else {
        let tail = rs.drop_first();
        lemma_evaluation_shape(tail);
        if consulted(tail) < tail.len() {
            assert(rs[consulted(rs) - 1] == tail[consulted(tail) - 1]);
        }
        assert forall|j: int| 0 <= j < consulted(rs) - 1 implies rs[j] is Neutral by {
            if j > 0 {
                assert(tail[j - 1] is Neutral);
            }
        }
        if forall|j: int| 0 <= j < rs.len() ==> rs[j] is Neutral {
            assert(forall|j: int| 0 <= j < tail.len() ==> tail[j] is Neutral);
        }
    }
}

/// If some filter answers `Accept` and no filter at or before it answers
/// `Reject`, the chain allows the event, and no filter after the first
/// `Accept` is consulted: evaluation stops on an `Accept` at or before it.
pub proof fn lemma_accept_short_circuits(rs: Seq<Response>, i: int)
    requires
        0 <= i < rs.len(),
        rs[i] is Accept,
        forall|j: int| 0 <= j <= i ==> !(rs[j] is Reject),
    ensures
        chain_allows(rs),
        consulted(rs) <= i + 1,
        rs[consulted(rs) - 1] is Accept,
{
    lemma_evaluation_shape(rs);
    let c = consulted(rs);
    if c - 1 > i {
        assert(rs[i] is Neutral);
        assert(false);
    }
    if rs[c - 1] is Neutral {
        assert(c == rs.len());
        assert(rs[i] is Neutral);
        assert(false);
    }
}

/// If some filter answers `Reject` and no filter at or before it answers
/// `Accept`, the chain denies the event, and no filter after the first
/// `Reject` is consulted: evaluation stops on a `Reject` at or before it.
pub proof fn lemma_reject_short_circuits(rs: Seq<Response>, i: int)
    requires
        0 <= i < rs.len(),
        rs[i] is Reject,
        forall|j: int| 0 <= j <= i ==> !(rs[j] is Accept),
    ensures
        !chain_allows(rs),
        consulted(rs) <= i + 1,
        rs[consulted(rs) - 1] is Reject,
{
    lemma_evaluation_shape(rs);
    let c = consulted(rs);
    if c - 1 > i {
        assert(rs[i] is Neutral);
        assert(false);
    }
    if rs[c - 1] is Neutral {
        assert(c == rs.len());
        assert(rs[i] is Neutral);
        assert(false);
    }
}

/// A chain every filter of which answers `Neutral` consults them all and
/// allows the event.
pub proof fn lemma_all_neutral_allows(rs: Seq<Response>)
    requires
        forall|j: int| 0 <= j < rs.len() ==> rs[j] is Neutral,
    ensures
        chain_allows(rs),
        consulted(rs) == rs.len(),
{
    lemma_evaluation_shape(rs);
}

/// An empty chain consults no filter and allows every event.
pub proof fn lemma_empty_chain_allows(rs: Seq<Response>)
    requires
        rs.len() == 0,
    ensures
        chain_allows(rs),
        consulted(rs) == 0,
{
}

/// Evaluate the short-circuit rule over the responses of a chain's filters,
/// one response per filter in declaration order. Returns the verdict —
/// `true` allows the event — and how many responses were examined:
/// everything after the first decisive response is ignored.
pub fn evaluate_responses(rs: &Vec<Response>) -> (out: (bool, usize))
    ensures
        out.0 == chain_allows(rs@),
        out.1 as int == consulted(rs@),
{
    let mut i: usize = 0;
    proof {
        assert(rs@.skip(0) =~= rs@);
    }
    while i < rs.len()
        invariant
            0 <= i <= rs@.len(),
            forall|j: int| 0 <= j < i ==> rs@[j] is Neutral,
            chain_allows(rs@) == chain_allows(rs@.skip(i as int)),
            consulted(rs@) == i + consulted(rs@.skip(i as int)),
        decreases rs@.len() - i,
    {
        let r = rs[i];
        proof {
            assert(rs@.skip(i as int)[0] == rs@[i as int]);
        }
        match r {
            Response::Accept => {
                return (true, i + 1);
            },
            Response::Reject => {
                return (false, i + 1);
            },
            Response::Neutral => {
                proof {
                    assert(rs@.skip(i as int).drop_first() =~= rs@.skip(i as int + 1));
                }
                i = i + 1;
            },
        }
    }
    (true, i)
}

/// What one evaluation of a chain of `n` filters may observe and conclude:
/// `rs` are the responses received, one per consulted filter in declaration
/// order; every filter before the last consulted one answered `Neutral`;
/// evaluation stopped early only on a decisive response; and the verdict is
/// the short-circuit rule's on `rs`.
pub open spec fn chain_run(rs: Seq<Response>, n: int, allow: bool) -> bool {
    &&& rs.len() <= n
    &&& forall|j: int| 0 <= j < rs.len() - 1 ==> rs[j] is Neutral
    &&& (rs.len() < n ==> rs.len() > 0 && !(rs[rs.len() - 1] is Neutral))
    &&& allow == chain_allows(rs)
}

/// Evaluate a chain of filters on one log event: each filter is asked in
/// declaration order, the first `Accept` or `Reject` decides, and a chain no
/// filter of which objects — in particular an empty chain — allows the
/// event. No filter after the first decisive response is called, and each
/// consulted filter is called exactly once.
///
/// Filters may be stateful, so their responses are not a function of the
/// chain and the event; what holds of every outcome is `chain_run` of the
/// responses received.
pub fn evaluate_chain(filters: &Vec<Box<dyn Filter>>, record: &log::Record) -> (allow: bool)
    ensures
        exists|rs: Seq<Response>| #[trigger] chain_run(rs, filters@.len() as int, allow),
        filters@.len() == 0 ==> allow,
{
    let ghost mut trace: Seq<Response> = Seq::empty();
    let mut i: usize = 0;
    while i < filters.len()
        invariant
            0 <= i <= filters@.len(),
            trace.len() == i as int,
            forall|j: int| 0 <= j < trace.len() ==> trace[j] is Neutral,
        decreases filters@.len() - i,
    {
        let r = filters[i].filter(record);
        proof {
            trace = trace.push(r);
        }
        match r {
            Response::Accept => {
                proof {
                    lemma_accept_short_circuits(trace, trace.len() - 1);
                    assert(chain_run(trace, filters@.len() as int, true));
                }
                return true;
            },
            Response::Reject => {
                proof {
                    lemma_reject_short_circuits(trace, trace.len() - 1);
                    assert(chain_run(trace, filters@.len() as int, false));
                }
                return false;
            },
            Response::Neutral => {
                i = i + 1;
            },
        }
    }
    proof {
        lemma_all_neutral_allows(trace);
        assert(chain_run(trace, filters@.len() as int, true));
    }
    true
}

} // verus!
