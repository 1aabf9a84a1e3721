//! The body relay: the inbound request body is accumulated chunk by chunk
//! under a hard ceiling.
use crate::text::append_bytes;
use vstd::prelude::*;

verus! {

/// The ceiling on a request body, in bytes: 256 KiB.
pub const MAX_SIZE: usize = 262_144;

/// Why a body was not relayed.
#[derive(Clone, Debug, PartialEq, Eq)]
pub enum BodyError {
    /// The body is longer than the ceiling.
    Overflow,
    /// A chunk could not be read; the reader's report is attached.
    Transport(String),
}

/// Why a body was not relayed, with the report as text.
pub enum BodyFailure {
    /// The body is longer than the ceiling.
    Overflow,
    /// A chunk could not be read.
    Transport(Seq<char>),
}

impl View for BodyError {
    type V = BodyFailure;

    open spec fn view(&self) -> BodyFailure {
        match self {
            BodyError::Overflow => BodyFailure::Overflow,
            BodyError::Transport(cause) => BodyFailure::Transport(cause@),
        }
    }
}

/// The text that the client is sent for a failure: the stage that failed,
/// and for a failed read the reader's report behind it.
pub open spec fn failure_text(failure: BodyFailure) -> Seq<char> {
    match failure {
        BodyFailure::Overflow => "Overflowed"@,
        BodyFailure::Transport(cause) => "failed to get bytes: "@ + cause,
    }
}

impl BodyError {
    /// The text that the client is sent.
    pub fn message(&self) -> (r: String)
        ensures
            r@ == failure_text(self@),
    {
        match self {
            BodyError::Overflow => "Overflowed".to_owned(),
            BodyError::Transport(cause) => {
                let mut out = "failed to get bytes: ".to_owned();
                out.append(cause.as_str());
                out
            },
        }
    }
}

/// One item of the inbound body stream.
#[derive(Debug)]
pub enum Chunk {
    /// The next bytes of the body.
    Data(Vec<u8>),
    /// The read failed; the reader's report is attached.
    Failed(String),
}

impl View for Chunk {
    type V = Result<Seq<u8>, Seq<char>>;

    open spec fn view(&self) -> Result<Seq<u8>, Seq<char>> {
        match self {
            Chunk::Data(bytes) => Ok(bytes@),
            Chunk::Failed(cause) => Err(cause@),
        }
    }
}

/// The items of a list of chunks.
pub open spec fn chunk_views(chunks: Seq<Chunk>) -> Seq<Result<Seq<u8>, Seq<char>>> {
    chunks.map_values(|c: Chunk| c@)
}

/// What a buffer becomes when the next item of the stream arrives: the
/// buffer with the data appended where that stays within the limit, an
/// overflow where it does not, and for a failed read a transport error that
/// carries the read's report.
pub open spec fn accepted(
    buffer: Seq<u8>,
    chunk: Result<Seq<u8>, Seq<char>>,
    limit: nat,
) -> Result<Seq<u8>, BodyFailure> {
    match chunk {
        Err(cause) => Err(BodyFailure::Transport(cause)),
        Ok(data) => if buffer.len() + data.len() <= limit {
            Ok(buffer + data)
        } else {
            Err(BodyFailure::Overflow)
        },
    }
}

/// What relaying a stream gives: the chunks in order where they stay within
/// the limit, or the error of the first item that is not accepted. Items
/// after that one are not looked at.
pub open spec fn relayed(chunks: Seq<Result<Seq<u8>, Seq<char>>>, limit: nat) -> Result<
    Seq<u8>,
    BodyFailure,
>
    decreases chunks.len(),
{
    if chunks.len() == 0 {
        Ok(Seq::empty())
    } else {
        match relayed(chunks.drop_last(), limit) {
            Err(e) => Err(e),
            Ok(buffer) => accepted(buffer, chunks.last(), limit),
        }
    }
}

/// A relayed body is never longer than the limit.
pub proof fn lemma_relayed_bounded(chunks: Seq<Result<Seq<u8>, Seq<char>>>, limit: nat)
    ensures
        relayed(chunks, limit) matches Ok(body) ==> body.len() <= limit,
    decreases chunks.len(),
{
    if chunks.len() > 0 {
        lemma_relayed_bounded(chunks.drop_last(), limit);
    }
}

/// A body that arrives whole is relayed byte for byte where it is no longer
/// than the limit, and overflows where it is longer by as little as one
/// byte.
pub proof fn lemma_relayed_ceiling(body: Seq<u8>, limit: nat)
    ensures
        body.len() <= limit ==> relayed(seq![Ok(body)], limit) == Ok::<Seq<u8>, BodyFailure>(
            body,
        ),
        body.len() > limit ==> relayed(seq![Ok(body)], limit) == Err::<Seq<u8>, BodyFailure>(
            BodyFailure::Overflow,
        ),
{
    let chunks = seq![Ok::<Seq<u8>, Seq<char>>(body)];
    assert(chunks.drop_last() =~= Seq::<Result<Seq<u8>, Seq<char>>>::empty());
    assert(relayed(chunks.drop_last(), limit) == Ok::<Seq<u8>, BodyFailure>(Seq::empty()));
    assert(Seq::<u8>::empty() + body =~= body);
}

/// A failed read ends the relay with the read's own report: where the items
/// before it are accepted, the result is the transport error that carries
/// the report, whatever follows.
pub proof fn lemma_relayed_failure(
    chunks: Seq<Result<Seq<u8>, Seq<char>>>,
    n: int,
    cause: Seq<char>,
    limit: nat,
)
    requires
        0 <= n < chunks.len(),
        relayed(chunks.take(n), limit) is Ok,
        chunks[n] == Err::<Seq<u8>, Seq<char>>(cause),
    ensures
        relayed(chunks, limit) == Err::<Seq<u8>, BodyFailure>(BodyFailure::Transport(cause)),
        failure_text(relayed(chunks, limit)->Err_0) == "failed to get bytes: "@ + cause,
{
    assert(chunks.take(n + 1).drop_last() =~= chunks.take(n));
    assert(chunks.take(n + 1).last() == chunks[n]);
    lemma_relayed_stops(chunks, n + 1, limit);
}

/// An error cuts the stream short: what follows the first item that is not
/// accepted does not change the result.
pub proof fn lemma_relayed_stops(chunks: Seq<Result<Seq<u8>, Seq<char>>>, n: int, limit: nat)
    requires
        0 <= n <= chunks.len(),
        relayed(chunks.take(n), limit) is Err,
    ensures
        relayed(chunks, limit) == relayed(chunks.take(n), limit),
    decreases chunks.len() - n,
{
    if n < chunks.len() {
        assert(chunks.take(n + 1).drop_last() =~= chunks.take(n));
        lemma_relayed_stops(chunks, n + 1, limit);
    } else {
        assert(chunks.take(n) =~= chunks);
    }
}

/// The accumulating buffer of one request body.
#[derive(Debug)]
pub struct BodyRelay {
    buffer: Vec<u8>,
    limit: usize,
}

impl BodyRelay {
    #[verifier::type_invariant]
    spec fn within_limit(self) -> bool {
        self.buffer@.len() <= self.limit
    }

    /// The bytes accumulated so far.
    pub closed spec fn bytes(&self) -> Seq<u8> {
        self.buffer@
    }

    /// The ceiling.
    pub closed spec fn limit(&self) -> nat {
        self.limit as nat
    }

    /// An empty buffer under the given ceiling.
    pub fn new(limit: usize) -> (r: BodyRelay)
        ensures
            r.bytes() == Seq::<u8>::empty(),
            r.limit() == limit,
    {
        BodyRelay { buffer: Vec::new(), limit }
    }

    /// Takes the next item of the stream. On an error the buffer is left as
    /// it was, and no further item is to be read. The error of a failed read
    /// carries the read's report.
    pub fn push(&mut self, chunk: &Chunk) -> (r: Result<(), BodyError>)
        ensures
            final(self).limit() == old(self).limit(),
            match r {
                Ok(_) => accepted(old(self).bytes(), chunk@, old(self).limit()) == Ok::<
                    Seq<u8>,
                    BodyFailure,
                >(final(self).bytes()),
                Err(e) => accepted(old(self).bytes(), chunk@, old(self).limit()) == Err::<
                    Seq<u8>,
                    BodyFailure,
                >(e@) && final(self).bytes() == old(self).bytes(),
            },
    {
        proof {
            use_type_invariant(&*self);
        }
        match chunk {
            Chunk::Failed(cause) => Err(BodyError::Transport(cause.clone())),
            Chunk::Data(data) => {
                if data.len() <= self.limit - self.buffer.len() {
                    let mut buffer: Vec<u8> = Vec::new();
                    std::mem::swap(&mut buffer, &mut self.buffer);
                    append_bytes(&mut buffer, data.as_slice());
                    self.buffer = buffer;
                    Ok(())
                } else {
                    Err(BodyError::Overflow)
                }
            },
        }
    }

    /// The accumulated body.
    pub fn finish(self) -> (r: Vec<u8>)
        ensures
            r@ == self.bytes(),
            r@.len() <= self.limit(),
    {
        proof {
            use_type_invariant(&self);
        }
        self.buffer
    }
}

/// Relays a stream of chunks under the limit: the whole body, or the error
/// of the first item that is not accepted.
pub fn read_bounded(chunks: &Vec<Chunk>, limit: usize) -> (r: Result<Vec<u8>, BodyError>)
    ensures
        match r {
            Ok(body) => relayed(chunk_views(chunks@), limit as nat) == Ok::<Seq<u8>, BodyFailure>(
                body@,
            ),
            Err(e) => relayed(chunk_views(chunks@), limit as nat) == Err::<Seq<u8>, BodyFailure>(
                e@,
            ),
        },
{
    let ghost all = chunk_views(chunks@);
    let mut relay = BodyRelay::new(limit);
    let mut i: usize = 0;
    assert(all.take(0) =~= Seq::empty());
    while i < chunks.len()
        invariant
            i <= chunks@.len(),
            all == chunk_views(chunks@),
            relay.limit() == limit,
            relayed(all.take(i as int), limit as nat) == Ok::<Seq<u8>, BodyFailure>(relay.bytes()),
        decreases chunks@.len() - i,
    {
        assert(all.take(i as int + 1).drop_last() =~= all.take(i as int));
        assert(all.take(i as int + 1).last() == chunks@[i as int]@);
        match relay.push(&chunks[i]) {
            Ok(_) => {},
            Err(e) => {
                proof {
                    lemma_relayed_stops(all, i as int + 1, limit as nat);
                }
                return Err(e);
            },
        }
        i += 1;
    }
    assert(all.take(i as int) =~= all);
    Ok(relay.finish())
}

} // verus!
