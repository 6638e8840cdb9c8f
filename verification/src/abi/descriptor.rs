//! Functions, events and logs as the interface describes them.

use crate::abi::types::{SolType, TypeModel};
use vstd::prelude::*;

verus! {

/// A parameter of a function: its name, which may be empty, and its type.
#[derive(Debug)]
pub struct Param {
    pub name: String,
    pub ty: SolType,
}

/// A parameter of an event. An indexed parameter travels in a topic of the
/// log, the others in its data.
#[derive(Debug)]
pub struct EventParam {
    pub name: String,
    pub ty: SolType,
    pub indexed: bool,
}

/// A function of a contract.
#[derive(Debug)]
pub struct Function {
    pub name: String,
    pub inputs: Vec<Param>,
    pub outputs: Vec<Param>,
}

/// An event of a contract. The first topic of a log of an event that is not
/// anonymous is the hash of the event's signature.
#[derive(Debug)]
pub struct Event {
    pub name: String,
    pub inputs: Vec<EventParam>,
    pub anonymous: bool,
}

/// A log entry as the chain hands it out.
#[derive(Debug)]
pub struct Log {
    pub topics: Vec<[u8; 32]>,
    pub data: Vec<u8>,
}

/// The topics and the data of a log that has at most four topics.
#[derive(Debug)]
pub struct LogData {
    topics: Vec<[u8; 32]>,
    data: Vec<u8>,
}

/// The types of the parameters, in order.
pub open spec fn param_types(params: Seq<Param>) -> Seq<TypeModel> {
    Seq::new(params.len(), |i: int| params[i].ty@)
}

/// The types of the parameters of an event, in order.
pub open spec fn event_param_types(params: Seq<EventParam>) -> Seq<TypeModel> {
    Seq::new(params.len(), |i: int| params[i].ty@)
}

/// The types of the indexed ones among the first `n` parameters, in order.
pub open spec fn indexed_types(params: Seq<EventParam>, n: nat) -> Seq<TypeModel>
    decreases n,
{
    if n == 0 || n > params.len() {
        Seq::empty()
    } else if params[n - 1].indexed {
        indexed_types(params, (n - 1) as nat).push(params[n - 1].ty@)
    } else {
        indexed_types(params, (n - 1) as nat)
    }
}

/// The types of those among the first `n` parameters that are not indexed,
/// in order.
pub open spec fn body_types(params: Seq<EventParam>, n: nat) -> Seq<TypeModel>
    decreases n,
{
    if n == 0 || n > params.len() {
        Seq::empty()
    } else if params[n - 1].indexed {
        body_types(params, (n - 1) as nat)
    } else {
        body_types(params, (n - 1) as nat).push(params[n - 1].ty@)
    }
}

/// Whether every indexed parameter is declared before every parameter that
/// is not indexed.
pub open spec fn indexed_first(params: Seq<EventParam>) -> bool {
    forall|i: int, j: int|
        0 <= i < j < params.len() && (#[trigger] params[j]).indexed ==> (#[trigger] params[i]).indexed
}

/// Where all of the first `n` parameters are indexed, none of their types is
/// a type of the body.
proof fn lemma_no_body_types(params: Seq<EventParam>, n: nat)
    requires
        n <= params.len(),
        forall|i: int| 0 <= i < n ==> (#[trigger] params[i]).indexed,
    ensures
        body_types(params, n) == Seq::<TypeModel>::empty(),
    decreases n,
{
    if n > 0 {
        lemma_no_body_types(params, (n - 1) as nat);
    }
}

/// Where every indexed parameter is declared before every other one, the
/// types of the indexed parameters followed by those of the body are the
/// types of the parameters in the order of their declaration. Only then do
/// the values of a log, the indexed ones first, stand at the positions of
/// their own parameters.
pub proof fn lemma_indexed_first_keeps_order(params: Seq<EventParam>, n: nat)
    requires
        n <= params.len(),
        indexed_first(params),
    ensures
        indexed_types(params, n) + body_types(params, n) == event_param_types(params).take(
            n as int,
        ),
    decreases n,
{
    let types = event_param_types(params);
    if n == 0 {
        assert(indexed_types(params, n) + body_types(params, n) =~= types.take(0));
    } else {
        lemma_indexed_first_keeps_order(params, (n - 1) as nat);
        let before = indexed_types(params, (n - 1) as nat) + body_types(params, (n - 1) as nat);
        assert(types.take(n - 1).push(types[n - 1]) =~= types.take(n as int));
        if params[n - 1].indexed {
            assert forall|i: int| 0 <= i < n - 1 implies (#[trigger] params[i]).indexed by {
                assert(params[n - 1].indexed);
            }
            lemma_no_body_types(params, (n - 1) as nat);
            lemma_no_body_types(params, n);
            assert(indexed_types(params, n) + body_types(params, n) =~= before.push(
                types[n - 1],
            ));
        } else {
            assert(indexed_types(params, n) + body_types(params, n) =~= before.push(
                types[n - 1],
            ));
        }
    }
}

impl Event {
    /// Whether every indexed parameter of this event is declared before
    /// every parameter that is not indexed.
    pub fn is_indexed_first(&self) -> (r: bool)
        ensures
            r == indexed_first(self.inputs@),
    {
        let inputs = &self.inputs;
        let mut seen_other = false;
        let ghost mut other: int = 0;
        let mut i: usize = 0;
        while i < inputs.len()
            invariant
                i <= inputs@.len(),
                inputs@ == self.inputs@,
                forall|a: int, b: int|
                    0 <= a < b < i && (#[trigger] inputs@[b]).indexed ==> (
                    #[trigger] inputs@[a]).indexed,
                seen_other ==> 0 <= other < i && !inputs@[other].indexed,
                !seen_other ==> forall|a: int| 0 <= a < i ==> (#[trigger] inputs@[a]).indexed,
            decreases inputs@.len() - i,
        {
            if inputs[i].indexed {
                if seen_other {
                    assert(inputs@[i as int].indexed && !inputs@[other].indexed);
                    return false;
                }
            } else {
                if !seen_other {
                    proof {
                        other = i as int;
                    }
                }
                seen_other = true;
            }
            i += 1;
        }
        true
    }
}

impl LogData {
    #[verifier::type_invariant]
    spec fn few_topics(self) -> bool {
        self.topics@.len() <= 4
    }

    /// The topics of the log.
    pub closed spec fn spec_topics(&self) -> Seq<[u8; 32]> {
        self.topics@
    }

    /// The data of the log.
    pub closed spec fn spec_data(&self) -> Seq<u8> {
        self.data@
    }

    /// A log with these topics and this data, unless there are more than
    /// four topics.
    pub fn new(topics: Vec<[u8; 32]>, data: Vec<u8>) -> (log: Option<LogData>)
        ensures
            log is Some <==> topics@.len() <= 4,
            log matches Some(l) ==> l.spec_topics() == topics@ && l.spec_data() == data@,
    {
        if topics.len() <= 4 {
            Some(LogData { topics, data })
        } else {
            None
        }
    }

    /// The topics of the log.
    pub fn topics(&self) -> (topics: &Vec<[u8; 32]>)
        ensures
            topics@ == self.spec_topics(),
            topics@.len() <= 4,
    {
        proof {
            use_type_invariant(self);
        }
        &self.topics
    }

    /// The data of the log.
    pub fn data(&self) -> (data: &Vec<u8>)
        ensures
            data@ == self.spec_data(),
    {
        &self.data
    }
}

} // verus!
