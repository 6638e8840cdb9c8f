//! The decoding of logs into the named parameters of their event.

use crate::abi::codec::{
    event_decode_log, keccak256, keccak256_of, log_decoded, outside_type, type_models_of, words,
};
use crate::abi::convert::inside_values;
use crate::abi::descriptor::{
    body_types, event_param_types, indexed_types, Event, EventParam, Log, LogData,
};
use crate::abi::error::{AbiError, ErrorKind};
use crate::abi::param::{param_views, DynSolParam};
use crate::abi::signature::{listed_types, params_text, push_type};
use crate::abi::types::{lemma_value_models, value_models, SolValue, TypeModel, ValueModel};
use alloy::dyn_abi::DynSolType;
use vstd::prelude::*;
use vstd::string::*;
use vstd::utf8::encode_utf8;

verus! {

/// The hash in the first topic of the logs of an event that is not
/// anonymous: that of its name and the types of all its parameters.
pub open spec fn topic_0_of(name: Seq<char>, inputs: Seq<TypeModel>) -> Seq<u8> {
    keccak256_of(encode_utf8(name + params_text(inputs)))
}

/// The number of topics in a log of the event.
pub open spec fn topics_of(event: Event) -> nat {
    indexed_types(event.inputs@, event.inputs@.len()).len() + if event.anonymous {
        0nat
    } else {
        1nat
    }
}

/// Each value under the name of the parameter at its position.
pub open spec fn named_values(inputs: Seq<EventParam>, values: Seq<ValueModel>) -> Seq<
    (Seq<char>, ValueModel),
> {
    Seq::new(values.len(), |i: int| (inputs[i].name@, values[i]))
}

/// What naming the decoded values gives: a count mismatch unless there is
/// one value for each parameter; else the indexed values and behind them
/// those of the body, each under the name of the parameter at its position.
pub open spec fn named_decoded(
    inputs: Seq<EventParam>,
    indexed: Seq<ValueModel>,
    body: Seq<ValueModel>,
) -> Result<Seq<(Seq<char>, ValueModel)>, ErrorKind> {
    if inputs.len() != indexed.len() + body.len() {
        Err(ErrorKind::CountMismatch)
    } else {
        Ok(named_values(inputs, indexed + body))
    }
}

/// Naming fails, with a count mismatch, exactly where the number of decoded
/// values is not the number of declared parameters. Where it succeeds there
/// is one named value for each parameter, in the order of declaration, under
/// the parameter's name: the indexed values first, those of the body behind
/// them.
pub proof fn lemma_named_decoded(
    inputs: Seq<EventParam>,
    indexed: Seq<ValueModel>,
    body: Seq<ValueModel>,
)
    ensures
        named_decoded(inputs, indexed, body) is Err <==> indexed.len() + body.len() != inputs.len(),
        named_decoded(inputs, indexed, body) matches Err(kind) ==> kind == ErrorKind::CountMismatch,
        named_decoded(inputs, indexed, body) matches Ok(named) ==> {
            &&& named.len() == inputs.len()
            &&& forall|i: int| 0 <= i < named.len() ==> (#[trigger] named[i]).0 == inputs[i].name@
            &&& forall|i: int| 0 <= i < indexed.len() ==> (#[trigger] named[i]).1 == indexed[i]
            &&& forall|i: int|
                0 <= i < body.len() ==> (#[trigger] named[indexed.len() + i]).1 == body[i]
        },
{
}

/// What decoding a log of an event gives: an invalid topic count where the
/// log has more than four topics or not as many as the event has; else what
/// the decoder reads, named.
pub open spec fn decoded_log(event: Event, topics: Seq<[u8; 32]>, data: Seq<u8>) -> Result<
    Seq<(Seq<char>, ValueModel)>,
    ErrorKind,
> {
    let inputs = event.inputs@;
    let topic_0 = if event.anonymous {
        None
    } else {
        Some(topic_0_of(event.name@, event_param_types(inputs)))
    };
    if topics.len() > 4 || topics.len() != topics_of(event) {
        Err(ErrorKind::InvalidTopicCount)
    } else {
        match log_decoded(
            topic_0,
            indexed_types(inputs, inputs.len()),
            body_types(inputs, inputs.len()),
            words(topics),
            data,
        ) {
            None => Err(ErrorKind::Decode),
            Some((indexed, body)) => named_decoded(inputs, indexed, body),
        }
    }
}

pub trait EventExt {
    /// Decodes a log of this event into named values: the values of the
    /// indexed parameters first, those of the others behind them, each under
    /// the name of the parameter at its position in the declaration.
    ///
    /// The names are those of the values' own parameters only where every
    /// indexed parameter is declared before every other one.
    fn decode_log(&self, log: &Log) -> Result<Vec<DynSolParam>, AbiError>;
}

/// Puts each decoded value under the name of the parameter at its position:
/// the indexed values first, those of the body behind them.
pub fn name_decoded(inputs: &[EventParam], indexed: Vec<SolValue>, body: Vec<SolValue>) -> (r:
    Result<Vec<DynSolParam>, AbiError>)
    ensures
        match r {
            Ok(params) => named_decoded(inputs@, value_models(indexed@), value_models(body@))
                == Ok::<Seq<(Seq<char>, ValueModel)>, ErrorKind>(param_views(params@)),
            Err(e) => named_decoded(inputs@, value_models(indexed@), value_models(body@))
                == Err::<Seq<(Seq<char>, ValueModel)>, ErrorKind>(e.kind()),
        },
        r matches Err(AbiError::CountMismatch { declared, decoded }) ==> declared == inputs@.len()
            && (decoded == indexed@.len() + body@.len() || (decoded == usize::MAX && indexed@.len()
            + body@.len() > usize::MAX)),
{
    proof {
        lemma_value_models(indexed@);
        lemma_value_models(body@);
    }
    let declared = inputs.len();
    let decoded = indexed.len().saturating_add(body.len());
    if indexed.len() > declared || body.len() != declared - indexed.len() {
        return Err(AbiError::CountMismatch { declared, decoded });
    }
    let ghost models = value_models(indexed@) + value_models(body@);
    let mut values = indexed;
    let mut body = body;
    values.append(&mut body);
    proof {
        lemma_value_models(values@);
        assert(value_models(values@) =~= models);
    }
    let mut params: Vec<DynSolParam> = Vec::with_capacity(declared);
    for value in it: values.into_iter()
        invariant
            it.seq().len() == declared == inputs@.len(),
            value_models(it.seq()) == models,
            params@.len() == it.index(),
            forall|j: int|
                0 <= j < it.index() ==> (#[trigger] params@[j])@ == (
                    inputs@[j].name@,
                    models[j],
                ),
    {
        let i = params.len();
        proof {
            lemma_value_models(it.seq());
        }
        params.push(DynSolParam { name: inputs[i].name.clone(), value });
    }
    assert(param_views(params@) =~= named_values(inputs@, models));
    Ok(params)
}

/// The topics and the data of a log, unless it has more topics than a log
/// can have.
fn log_to_log_data(log: &Log) -> (r: Result<LogData, AbiError>)
    ensures
        log.topics@.len() <= 4 ==> (r matches Ok(l) && l.spec_topics() == log.topics@
            && l.spec_data() == log.data@),
        log.topics@.len() > 4 ==> (r matches Err(AbiError::InvalidTopicCount { topics }) && topics
            == log.topics@.len()),
{
    let mut topics: Vec<[u8; 32]> = Vec::with_capacity(log.topics.len());
    let mut i: usize = 0;
    while i < log.topics.len()
        invariant
            i <= log.topics@.len(),
            topics@ == log.topics@.take(i as int),
        decreases log.topics@.len() - i,
    {
        topics.push(log.topics[i]);
        assert(topics@ =~= log.topics@.take(i + 1));
        i += 1;
    }
    assert(topics@ =~= log.topics@);

    let data = log.data.clone();
    assert(data@ =~= log.data@);

    match LogData::new(topics, data) {
        Some(log_data) => Ok(log_data),
        None => Err(AbiError::InvalidTopicCount { topics: log.topics.len() }),
    }
}

/// Appends the types of the parameters of an event in round brackets, with
/// commas between them.
fn event_signature_part(params: &[EventParam], out: &mut String)
    ensures
        final(out)@ == old(out)@ + params_text(event_param_types(params@)),
{
    let ghost start = out@;
    let ghost types = event_param_types(params@);
    out.append("(");
    assert(out@ =~= start + "("@ + listed_types(types, 0));
    let mut i: usize = 0;
    while i < params.len()
        invariant
            i <= params@.len(),
            types == event_param_types(params@),
            out@ == start + "("@ + listed_types(types, i as nat),
        decreases params@.len() - i,
    {
        if i > 0 {
            out.append(",");
        }
        push_type(&params[i].ty, out);
        assert(out@ =~= start + "("@ + listed_types(types, (i + 1) as nat));
        i += 1;
    }
    out.append(")");
    assert(out@ =~= start + params_text(types));
}

impl Event {
    /// The hash of the signature of this event.
    pub fn selector(&self) -> (hash: [u8; 32])
        ensures
            hash@ == topic_0_of(self.name@, event_param_types(self.inputs@)),
    {
        let mut sig = String::new();
        sig.append(self.name.as_str());
        event_signature_part(self.inputs.as_slice(), &mut sig);
        assert(sig@ =~= self.name@ + params_text(event_param_types(self.inputs@)));
        keccak256(sig.as_str().as_bytes())
    }

    /// The types of the indexed parameters and those of the others, both in
    /// the order of their declaration.
    fn split_types(&self) -> (r: (Vec<DynSolType>, Vec<DynSolType>))
        ensures
            type_models_of(r.0@) == indexed_types(self.inputs@, self.inputs@.len()),
            type_models_of(r.1@) == body_types(self.inputs@, self.inputs@.len()),
    {
        let inputs = &self.inputs;
        let mut indexed: Vec<DynSolType> = Vec::with_capacity(inputs.len());
        let mut body: Vec<DynSolType> = Vec::with_capacity(inputs.len());
        assert(type_models_of(indexed@) =~= indexed_types(inputs@, 0));
        assert(type_models_of(body@) =~= body_types(inputs@, 0));
        let mut i: usize = 0;
        while i < inputs.len()
            invariant
                i <= inputs@.len(),
                inputs@ == self.inputs@,
                type_models_of(indexed@) == indexed_types(inputs@, i as nat),
                type_models_of(body@) == body_types(inputs@, i as nat),
            decreases inputs@.len() - i,
        {
            let ghost indexed_before = type_models_of(indexed@);
            let ghost body_before = type_models_of(body@);
            let ty = outside_type(&inputs[i].ty);
            if inputs[i].indexed {
                indexed.push(ty);
                assert(type_models_of(indexed@) =~= indexed_before.push(inputs@[i as int].ty@));
            } else {
                body.push(ty);
                assert(type_models_of(body@) =~= body_before.push(inputs@[i as int].ty@));
            }
            i += 1;
        }
        (indexed, body)
    }
}

impl EventExt for Event {
    fn decode_log(&self, log: &Log) -> (r: Result<Vec<DynSolParam>, AbiError>)
        ensures
            match r {
                Ok(params) => decoded_log(*self, log.topics@, log.data@) == Ok::<
                    Seq<(Seq<char>, ValueModel)>,
                    ErrorKind,
                >(param_views(params@)),
                Err(e) => decoded_log(*self, log.topics@, log.data@) == Err::<
                    Seq<(Seq<char>, ValueModel)>,
                    ErrorKind,
                >(e.kind()),
            },
            r matches Err(AbiError::InvalidTopicCount { topics }) ==> topics == log.topics@.len(),
            r matches Err(AbiError::CountMismatch { declared, .. }) ==> declared
                == self.inputs@.len(),
    {
        let log_data = match log_to_log_data(log) {
            Ok(log_data) => log_data,
            Err(e) => {
                return Err(e);
            },
        };
        let (indexed_types, body_types) = self.split_types();
        let topics = log_data.topics();
        let fits = if self.anonymous {
            topics.len() == indexed_types.len()
        } else {
            topics.len() >= 1 && topics.len() - 1 == indexed_types.len()
        };
        if !fits {
            return Err(AbiError::InvalidTopicCount { topics: topics.len() });
        }
        let topic_0 = if self.anonymous {
            None
        } else {
            Some(self.selector())
        };
        match event_decode_log(
            topic_0,
            indexed_types,
            body_types,
            topics,
            log_data.data().as_slice(),
        ) {
            Err(e) => Err(AbiError::Decode(e)),
            Ok((indexed, body)) => name_decoded(
                self.inputs.as_slice(),
                inside_values(indexed),
                inside_values(body),
            ),
        }
    }
}

} // verus!
