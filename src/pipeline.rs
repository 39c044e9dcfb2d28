//! What happens to one delivery: its body is gathered, its signature
//! checked, its event type read, and a record is handed to the append-only
//! log under the key `<path>/<event>`; then a response is chosen.
//!
//! The steps that wait on the outside world (reading the body, appending to
//! the log) are events fed to [`Gateway::step`], which answers with the next
//! action to perform.

use crate::body::BodyAccumulator;
use crate::headers::{
    classify, copy_bytes, event_header_name, event_of, find_header, header_lookup,
    signature_header_name, unknown_event, Header,
};
use crate::signature::{check_spec, Verifier, VerifyError};
use vstd::prelude::*;

verus! {

/// Why a delivery was not stored.
#[derive(Clone, Copy, Debug, PartialEq, Eq)]
pub enum Failure {
    /// The body stream broke off before it ended.
    BodyReadError,
    /// The request carries no signature header.
    MissingSignature,
    /// The signature header was refused.
    InvalidSignature(VerifyError),
    /// The log did not take the record.
    QueueWriteError,
}

/// What is appended to the log: a routing key and the body, byte for byte.
#[derive(Clone, Debug)]
pub struct QueueRecord {
    pub key: Vec<u8>,
    pub content: Vec<u8>,
}

/// The answer to a delivery; its content type is always `text/plain`.
#[derive(Clone, Debug)]
pub struct Response {
    pub status: u16,
    pub body: Vec<u8>,
}

/// The body of the acknowledgement of a stored delivery.
pub open spec fn ok_body() -> Seq<u8> {
    seq![('o' as u8), ('k' as u8), ('\n' as u8)]
}

/// The status that answers a failure: 500 when the log refused the write,
/// 400 for everything the client got wrong.
pub open spec fn failure_status(f: Failure) -> u16 {
    match f {
        Failure::QueueWriteError => 500,
        _ => 400,
    }
}

/// The routing key of a record: `<path>/<event>`.
pub open spec fn routing_key_spec(path: Seq<u8>, event: Seq<u8>) -> Seq<u8> {
    path + seq![('/' as u8)] + event
}

/// What a delivery to `path` with headers `hs` and body `body` turns into
/// under the secret `key`: the routing key and content of its record, or
/// why it is refused.
pub open spec fn prepare_spec(key: Seq<u8>, path: Seq<u8>, hs: Seq<Header>, body: Seq<u8>) -> Result<
    (Seq<u8>, Seq<u8>),
    Failure,
> {
    match header_lookup(hs, signature_header_name()) {
        None => Err(Failure::MissingSignature),
        Some(sig) => match check_spec(key, body, sig) {
            Err(e) => Err(Failure::InvalidSignature(e)),
            Ok(_) => Ok((routing_key_spec(path, event_of(hs)), body)),
        },
    }
}

/// A delivery that declares no event type is routed under
/// `<path>/unknown`.
pub proof fn lemma_missing_event_routes_unknown(
    key: Seq<u8>,
    path: Seq<u8>,
    hs: Seq<Header>,
    body: Seq<u8>,
)
    requires
        header_lookup(hs, event_header_name()) is None,
    ensures
        prepare_spec(key, path, hs, body) matches Ok((k, _)) ==> k == path + seq![('/' as u8)]
            + unknown_event(),
{
}

/// A record is only ever made from a body whose signature was accepted, and
/// its content is that body, byte for byte.
pub proof fn lemma_record_holds_verified_body(
    key: Seq<u8>,
    path: Seq<u8>,
    hs: Seq<Header>,
    body: Seq<u8>,
)
    ensures
        prepare_spec(key, path, hs, body) matches Ok((_, c)) ==> {
            &&& c == body
            &&& header_lookup(hs, signature_header_name()) matches Some(sig) && check_spec(
                key,
                body,
                sig,
            ) is Ok
        },
{
}

/// The status that answers a failure.
pub fn status_for(f: Failure) -> (r: u16)
    ensures
        r == failure_status(f),
{
    match f {
        Failure::QueueWriteError => 500,
        _ => 400,
    }
}

/// The acknowledgement of a stored delivery: 200 with `ok\n`.
pub fn success_response() -> (r: Response)
    ensures
        r.status == 200,
        r.body@ == ok_body(),
{
    let body: Vec<u8> = vec!['o' as u8, 'k' as u8, '\n' as u8];
    assert(body@ =~= ok_body());
    Response { status: 200, body }
}

/// The answer to a failure: its status and an empty body, which tells the
/// client nothing of which check failed.
pub fn failure_response(f: Failure) -> (r: Response)
    ensures
        r.status == failure_status(f),
        r.body@ == Seq::<u8>::empty(),
{
    Response { status: status_for(f), body: Vec::new() }
}

/// The routing key `<path>/<event>`.
pub fn routing_key(path: &[u8], event: &[u8]) -> (r: Vec<u8>)
    ensures
        r@ == routing_key_spec(path@, event@),
{
    let mut acc = BodyAccumulator::new();
    acc.push(path);
    let slash: Vec<u8> = vec!['/' as u8];
    acc.push(slash.as_slice());
    acc.push(event);
    assert(slash@ =~= seq![('/' as u8)]);
    acc.finish()
}

/// Where one delivery stands.
#[derive(Clone, Copy, Debug, PartialEq, Eq)]
pub enum Stage {
    /// The body is still arriving.
    Accumulating,
    /// The record has been handed to the log; its answer is awaited.
    Enqueuing,
    /// The record was stored and acknowledged.
    Succeeded,
    /// The delivery was refused or could not be stored.
    Failed(Failure),
}

/// One delivery in progress.
#[derive(Debug)]
pub struct Ingestion {
    pub path: Vec<u8>,
    pub headers: Vec<Header>,
    pub body: BodyAccumulator,
    pub stage: Stage,
}

/// What the outside world reports about a delivery.
#[derive(Clone, Debug)]
pub enum Event {
    /// The next piece of the body arrived.
    Chunk(Vec<u8>),
    /// The body is complete.
    BodyEnded,
    /// The body stream failed, or the client went away.
    BodyFailed,
    /// The log stored the record.
    Appended,
    /// The log did not store the record.
    AppendFailed,
}

/// What the outside world is to do next for a delivery.
#[derive(Clone, Debug)]
pub enum Action {
    /// Wait for more of the body.
    AwaitChunk,
    /// Append this record to the log.
    Produce(QueueRecord),
    /// Send this response; the delivery is over.
    Respond(Response),
    /// Nothing: the event does not apply at this stage.
    Ignore,
}

/// The ingestion side of the gateway: the shared secret and nothing that
/// changes from one delivery to the next.
#[derive(Clone, Debug)]
pub struct Gateway {
    pub verifier: Verifier,
}

impl Gateway {
    pub fn new(secret: Vec<u8>) -> (r: Gateway)
        ensures
            r.verifier.key@ == secret@,
    {
        Gateway { verifier: Verifier::new(secret) }
    }

    /// Checks a complete delivery and builds its record: the signature header
    /// must be present and accepted; the key is `<path>/<event>` and the
    /// content is `body` exactly.
    pub fn prepare(&self, path: &[u8], headers: &Vec<Header>, body: &[u8]) -> (r: Result<
        QueueRecord,
        Failure,
    >)
        ensures
            match r {
                Ok(rec) => prepare_spec(self.verifier.key@, path@, headers@, body@) == Ok::<
                    (Seq<u8>, Seq<u8>),
                    Failure,
                >((rec.key@, rec.content@)),
                Err(f) => prepare_spec(self.verifier.key@, path@, headers@, body@) == Err::<
                    (Seq<u8>, Seq<u8>),
                    Failure,
                >(f),
            },
    {
        let name: Vec<u8> = vec![
            'x' as u8, '-' as u8, 'h' as u8, 'u' as u8, 'b' as u8, '-' as u8, 's' as u8,
            'i' as u8, 'g' as u8, 'n' as u8, 'a' as u8, 't' as u8, 'u' as u8, 'r' as u8,
            'e' as u8,
        ];
        assert(name@ =~= signature_header_name());
        let sig = match find_header(headers, name.as_slice()) {
            None => return Err(Failure::MissingSignature),
            Some(s) => s,
        };
        match self.verifier.check(body, sig.as_slice()) {
            Err(e) => Err(Failure::InvalidSignature(e)),
            Ok(()) => {
                let event = classify(headers);
                let key = routing_key(path, event.as_slice());
                Ok(QueueRecord { key, content: copy_bytes(body) })
            },
        }
    }

    /// A delivery to `path` with `headers` whose body has yet to arrive.
    pub fn start(&self, path: Vec<u8>, headers: Vec<Header>) -> (r: Ingestion)
        ensures
            r.path@ == path@,
            r.headers@ == headers@,
            r.body.bytes@ == Seq::<u8>::empty(),
            r.stage == Stage::Accumulating,
    {
        Ingestion { path, headers, body: BodyAccumulator::new(), stage: Stage::Accumulating }
    }

    /// Takes one event for the delivery `ing` and returns what to do next.
    ///
    /// While accumulating, chunks are appended; the end of the body leads to
    /// the record being produced, or to a refusal; a broken stream fails the
    /// delivery. While enqueuing, the log's answer settles the response.
    /// Events that do not belong to the current stage change nothing.
    pub fn step(&self, ing: &mut Ingestion, ev: Event) -> (r: Action)
        ensures
            final(ing).path@ == old(ing).path@,
            final(ing).headers@ == old(ing).headers@,
            old(ing).stage == Stage::Accumulating ==> match ev {
                Event::Chunk(c) => {
                    &&& final(ing).body.bytes@ == old(ing).body.bytes@ + c@
                    &&& final(ing).stage == Stage::Accumulating
                    &&& r is AwaitChunk
                },
                Event::BodyFailed => {
                    &&& final(ing).stage == Stage::Failed(Failure::BodyReadError)
                    &&& r matches Action::Respond(resp) && resp.status == 400
                        && resp.body@.len() == 0
                },
                Event::BodyEnded => {
                    &&& final(ing).body.bytes@ == old(ing).body.bytes@
                    &&& match prepare_spec(
                        self.verifier.key@,
                        old(ing).path@,
                        old(ing).headers@,
                        old(ing).body.bytes@,
                    ) {
                        Ok((k, c)) => {
                            &&& final(ing).stage == Stage::Enqueuing
                            &&& r matches Action::Produce(rec) && rec.key@ == k && rec.content@
                                == c
                        },
                        Err(f) => {
                            &&& final(ing).stage == Stage::Failed(f)
                            &&& r matches Action::Respond(resp) && resp.status
                                == failure_status(f) && resp.body@.len() == 0
                        },
                    }
                },
                _ => final(ing).stage == old(ing).stage && r is Ignore,
            },
            old(ing).stage == Stage::Enqueuing ==> match ev {
                Event::Appended => {
                    &&& final(ing).stage == Stage::Succeeded
                    &&& r matches Action::Respond(resp) && resp.status == 200 && resp.body@
                        == ok_body()
                },
                Event::AppendFailed => {
                    &&& final(ing).stage == Stage::Failed(Failure::QueueWriteError)
                    &&& r matches Action::Respond(resp) && resp.status == 500
                        && resp.body@.len() == 0
                },
                _ => final(ing).stage == old(ing).stage && r is Ignore,
            },
            old(ing).stage != Stage::Accumulating && old(ing).stage != Stage::Enqueuing ==> {
                &&& final(ing).stage == old(ing).stage
                &&& r is Ignore
            },
    {
        match ing.stage {
            Stage::Accumulating => match ev {
                Event::Chunk(c) => {
                    ing.body.push(c.as_slice());
                    Action::AwaitChunk
                },
                Event::BodyFailed => {
                    ing.stage = Stage::Failed(Failure::BodyReadError);
                    Action::Respond(failure_response(Failure::BodyReadError))
                },
                Event::BodyEnded => {
                    match self.prepare(ing.path.as_slice(), &ing.headers, ing.body.bytes.as_slice()) {
                        Ok(rec) => {
                            ing.stage = Stage::Enqueuing;
                            Action::Produce(rec)
                        },
                        Err(f) => {
                            ing.stage = Stage::Failed(f);
                            Action::Respond(failure_response(f))
                        },
                    }
                },
                _ => Action::Ignore,
            },
            Stage::Enqueuing => match ev {
                Event::Appended => {
                    ing.stage = Stage::Succeeded;
                    Action::Respond(success_response())
                },
                Event::AppendFailed => {
                    ing.stage = Stage::Failed(Failure::QueueWriteError);
                    Action::Respond(failure_response(Failure::QueueWriteError))
                },
                _ => Action::Ignore,
            },
            _ => Action::Ignore,
        }
    }
}

} // verus!
