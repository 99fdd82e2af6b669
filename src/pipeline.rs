//! Flattening a batch of documents into one inference call and putting the
//! returned vectors back together per document.
use vstd::prelude::*;

use crate::chunking::{chunk_with_overlap, chunks_of};

verus! {

/// tokio's `Instant`, a point on the monotonic clock, carried through
/// unopened.
#[verifier::external_type_specification]
#[verifier::external_body]
pub struct ExInstant(tokio::time::Instant);

/// Relies on tokio::time::Instant::now: reads the monotonic clock.
#[verifier::external_body]
fn clock_now() -> tokio::time::Instant {
    tokio::time::Instant::now()
}

/// Relies on tokio::time::Instant::elapsed: the time since `start`, in whole
/// milliseconds.
#[verifier::external_body]
fn elapsed_ms(start: &tokio::time::Instant) -> u128 {
    start.elapsed().as_millis()
}

/// The largest number of characters in one chunk of a document.
pub const CHUNK_SIZE: usize = 10;

/// The number of characters that consecutive chunks of a document share.
pub const CHUNK_OVERLAP: usize = 3;

/// One document to embed. `id` is the caller's correlation token and is
/// echoed back unchanged; it need not be unique.
#[derive(Clone, Debug)]
pub struct EmbeddingRequestUnit {
    pub id: i32,
    pub text_to_embed: String,
}

/// How many chunks the document with `id` was split into.
#[derive(Clone, Copy, Debug, PartialEq, Eq)]
pub struct ChunkGroup {
    pub id: i32,
    pub chunk_count: usize,
}

/// The chunk texts of a whole batch, in document order, and for each
/// document the number of chunks it contributed.
#[derive(Debug)]
pub struct EmbeddingBatch {
    pub texts: Vec<String>,
    pub groups: Vec<ChunkGroup>,
}

/// The vectors of one document, one per chunk, in chunk order.
#[derive(Debug)]
pub struct EmbeddingResponseObject<V> {
    pub id: i32,
    pub embeddings: Vec<V>,
}

/// The answer to a batch: per-document vectors with timing.
#[derive(Debug)]
pub struct EmbeddingResponse<V> {
    pub number_of_documents: usize,
    pub total_time_ms: u128,
    pub time_per_document_ms: u128,
    pub embeddings: Vec<EmbeddingResponseObject<V>>,
}

/// The inference call returned a number of vectors other than the number of
/// chunks that it was sent.
#[derive(Clone, Copy, Debug, PartialEq, Eq)]
pub struct ChunkCountMismatch {
    pub expected: usize,
    pub received: usize,
}

/// Why a batch could not be embedded.
#[derive(Debug)]
pub enum EmbedError<E> {
    /// The inference call itself failed.
    Inference(E),
    /// The inference call broke its one-vector-per-text contract.
    ChunkCountMismatch(ChunkCountMismatch),
}

/// The chunks that one document is split into.
pub open spec fn document_chunks(text: Seq<char>) -> Seq<Seq<char>> {
    chunks_of(text, CHUNK_SIZE as int, CHUNK_OVERLAP as int)
}

/// The chunks of all documents, document after document.
pub open spec fn flat_chunks(requests: Seq<EmbeddingRequestUnit>) -> Seq<Seq<char>>
    decreases requests.len(),
{
    if requests.len() == 0 {
        Seq::empty()
    } else {
        flat_chunks(requests.drop_last()) + document_chunks(requests.last().text_to_embed@)
    }
}

/// The group of each document: its id and its number of chunks.
pub open spec fn chunk_groups(requests: Seq<EmbeddingRequestUnit>) -> Seq<ChunkGroup> {
    requests.map_values(
        |u: EmbeddingRequestUnit|
            ChunkGroup {
                id: u.id,
                chunk_count: document_chunks(u.text_to_embed@).len() as usize,
            },
    )
}

/// The sum of the chunk counts of `groups`.
pub open spec fn total_chunks(groups: Seq<ChunkGroup>) -> int
    decreases groups.len(),
{
    if groups.len() == 0 {
        0
    } else {
        total_chunks(groups.drop_last()) + groups.last().chunk_count
    }
}

/// Where the vectors of group `i` begin in the flat list of vectors.
pub open spec fn group_offset(groups: Seq<ChunkGroup>, i: int) -> int {
    total_chunks(groups.take(i))
}

/// `units` holds, for each group in order, its id and the slice of
/// `vectors` that belongs to it.
pub open spec fn reassembled<V>(
    units: Seq<EmbeddingResponseObject<V>>,
    vectors: Seq<V>,
    groups: Seq<ChunkGroup>,
) -> bool {
    &&& units.len() == groups.len()
    &&& forall|i: int|
        0 <= i < units.len() ==> {
            &&& (#[trigger] units[i]).id == groups[i].id
            &&& units[i].embeddings@ == vectors.subrange(
                group_offset(groups, i),
                group_offset(groups, i) + groups[i].chunk_count,
            )
        }
}

/// The time per document: the total divided by the number of documents,
/// and zero for an empty batch.
pub open spec fn per_document_ms(total_time_ms: u128, number_of_documents: usize) -> u128 {
    if number_of_documents == 0 {
        0
    } else {
        (total_time_ms as int / number_of_documents as int) as u128
    }
}

/// The prefix sums of the chunk counts grow by one count at a time and never
/// pass the total.
pub proof fn lemma_group_offsets(groups: Seq<ChunkGroup>, i: int)
    requires
        0 <= i < groups.len(),
    ensures
        group_offset(groups, i + 1) == group_offset(groups, i) + groups[i].chunk_count,
        group_offset(groups, i + 1) <= total_chunks(groups),
    decreases groups.len() - i,
{
    assert(groups.take(i + 1).drop_last() =~= groups.take(i));
    if i + 1 < groups.len() {
        lemma_group_offsets(groups, i + 1);
    } else {
        assert(groups.take(i + 1) =~= groups);
    }
}

/// The chunk counts of the groups of a batch add up to the number of
/// chunks of the whole batch.
pub proof fn lemma_chunk_groups_total(requests: Seq<EmbeddingRequestUnit>)
    requires
        flat_chunks(requests).len() <= usize::MAX,
    ensures
        total_chunks(chunk_groups(requests)) == flat_chunks(requests).len(),
    decreases requests.len(),
{
    if requests.len() > 0 {
        let init = requests.drop_last();
        lemma_chunk_groups_total(init);
        assert(chunk_groups(requests).drop_last() =~= chunk_groups(init));
    }
}

/// When the inference call answers with one vector for each text it was
/// sent, the chunk counts of the batch add up to the number of vectors, the
/// batch succeeds, and each document, in order, gets its own id back with
/// exactly as many vectors as it has chunks.
pub proof fn lemma_one_vector_per_chunk<V, E>(
    requests: Seq<EmbeddingRequestUnit>,
    out: Result<Vec<V>, E>,
    r: Result<EmbeddingResponse<V>, EmbedError<E>>,
)
    requires
        out matches Ok(vectors) && vectors@.len() == flat_chunks(requests).len(),
        flat_chunks(requests).len() <= usize::MAX,
        embed_outcome(requests, out, r),
    ensures
        total_chunks(chunk_groups(requests)) == out->Ok_0@.len(),
        r matches Ok(resp) && {
            &&& resp.number_of_documents == requests.len()
            &&& resp.embeddings@.len() == requests.len()
            &&& forall|i: int|
                0 <= i < requests.len() ==> {
                    &&& (#[trigger] resp.embeddings@[i]).id == requests[i].id
                    &&& resp.embeddings@[i].embeddings@.len() == chunk_groups(
                        requests,
                    )[i].chunk_count
                }
        },
{
    lemma_chunk_groups_total(requests);
    let groups = chunk_groups(requests);
    let resp = r->Ok_0;
    assert forall|i: int| 0 <= i < requests.len() implies {
        &&& (#[trigger] resp.embeddings@[i]).id == requests[i].id
        &&& resp.embeddings@[i].embeddings@.len() == groups[i].chunk_count
    } by {
        lemma_group_offsets(groups, i);
        assert(group_offset(groups, i) >= 0) by {
            lemma_group_offset_nonnegative(groups, i);
        }
    }
}

/// Offsets into the flat list of vectors are never negative.
proof fn lemma_group_offset_nonnegative(groups: Seq<ChunkGroup>, i: int)
    requires
        0 <= i <= groups.len(),
    ensures
        group_offset(groups, i) >= 0,
    decreases i,
{
    if i > 0 {
        lemma_group_offsets(groups, i - 1);
        lemma_group_offset_nonnegative(groups, i - 1);
    }
}

/// Splits every document into chunks and lays the chunks of the whole batch
/// out in one list, recording per document how many chunks it gave.
pub fn build_batch(requests: &Vec<EmbeddingRequestUnit>) -> (batch: EmbeddingBatch)
    ensures
        batch.texts@.map_values(|s: String| s@) == flat_chunks(requests@),
        batch.groups@ == chunk_groups(requests@),
        total_chunks(batch.groups@) == batch.texts@.len(),
{
    let mut texts: Vec<String> = Vec::new();
    let mut groups: Vec<ChunkGroup> = Vec::new();
    let mut i: usize = 0;
    while i < requests.len()
        invariant
            i <= requests@.len(),
            texts@.map_values(|s: String| s@) == flat_chunks(requests@.take(i as int)),
            groups@ == chunk_groups(requests@.take(i as int)),
            total_chunks(groups@) == texts@.len(),
        decreases requests@.len() - i,
    {
        let request = &requests[i];
        let mut chunks = chunk_with_overlap(&request.text_to_embed, CHUNK_SIZE, CHUNK_OVERLAP);
        let count = chunks.len();
        let ghost old_texts = texts@;
        let ghost old_groups = groups@;
        let ghost piece = chunks@;
        texts.append(&mut chunks);
        groups.push(ChunkGroup { id: request.id, chunk_count: count });
        proof {
            let f = |s: String| s@;
            let next = requests@.take(i + 1);
            assert(next.drop_last() =~= requests@.take(i as int));
            assert(next.last() == requests@[i as int]);
            assert(texts@ =~= old_texts + piece);
            assert(texts@.map_values(f) =~= old_texts.map_values(f) + piece.map_values(f));
            assert(groups@.drop_last() =~= old_groups);
            assert(chunk_groups(next) =~= chunk_groups(requests@.take(i as int)).push(
                ChunkGroup { id: request.id, chunk_count: count },
            ));
        }
        i = i + 1;
    }
    proof {
        assert(requests@.take(i as int) =~= requests@);
    }
    EmbeddingBatch { texts, groups }
}

/// Hands each group its slice of `vectors`, in order: the first group gets
/// the first `chunk_count` vectors, the next group the following ones, and so
/// on. Fails, without handing out anything, when the counts do not add up to
/// the number of vectors; the error gives the sum of the counts, capped at
/// `usize::MAX`.
pub fn reassemble<V>(vectors: Vec<V>, groups: &Vec<ChunkGroup>) -> (r: Result<
    Vec<EmbeddingResponseObject<V>>,
    ChunkCountMismatch,
>)
    ensures
        match r {
            Ok(units) => total_chunks(groups@) == vectors@.len() && reassembled(
                units@,
                vectors@,
                groups@,
            ),
            Err(e) => total_chunks(groups@) != vectors@.len() && e.expected == (if total_chunks(
                groups@,
            ) <= usize::MAX {
                total_chunks(groups@)
            } else {
                usize::MAX as int
            }) && e.received == vectors@.len(),
        },
{
    // `total` is the sum of the counts so far, capped at usize::MAX;
    // `overflow` says whether the cap was passed.
    let mut total: usize = 0;
    let mut overflow: bool = false;
    let mut i: usize = 0;
    while i < groups.len()
        invariant
            i <= groups@.len(),
            overflow <==> group_offset(groups@, i as int) > usize::MAX,
            !overflow ==> total == group_offset(groups@, i as int),
            overflow ==> total == usize::MAX,
        decreases groups@.len() - i,
    {
        proof {
            lemma_group_offsets(groups@, i as int);
        }
        let count = groups[i].chunk_count;
        if overflow || count > usize::MAX - total {
            overflow = true;
            total = usize::MAX;
        } else {
            total = total + count;
        }
        i = i + 1;
    }
    proof {
        assert(groups@.take(i as int) =~= groups@);
    }
    if overflow || total != vectors.len() {
        return Err(ChunkCountMismatch { expected: total, received: vectors.len() });
    }
    let ghost all = vectors@;
    let mut rest = vectors;
    let mut units: Vec<EmbeddingResponseObject<V>> = Vec::new();
    let mut j: usize = 0;
    while j < groups.len()
        invariant
            j <= groups@.len(),
            total_chunks(groups@) == all.len(),
            0 <= group_offset(groups@, j as int) <= all.len(),
            rest@ == all.subrange(group_offset(groups@, j as int), all.len() as int),
            units@.len() == j,
            forall|k: int|
                0 <= k < j ==> {
                    &&& (#[trigger] units@[k]).id == groups@[k].id
                    &&& units@[k].embeddings@ == all.subrange(
                        group_offset(groups@, k),
                        group_offset(groups@, k) + groups@[k].chunk_count,
                    )
                },
        decreases groups@.len() - j,
    {
        proof {
            lemma_group_offsets(groups@, j as int);
        }
        let count = groups[j].chunk_count;
        let tail = rest.split_off(count);
        units.push(EmbeddingResponseObject { id: groups[j].id, embeddings: rest });
        rest = tail;
        j = j + 1;
    }
    Ok(units)
}

impl<V> EmbeddingResponse<V> {
    /// A response for `number_of_documents` documents that took
    /// `total_time_ms`; the time per document is the integer quotient, and
    /// zero when there are no documents.
    pub fn new(
        number_of_documents: usize,
        total_time_ms: u128,
        embeddings: Vec<EmbeddingResponseObject<V>>,
    ) -> (r: Self)
        ensures
            r.number_of_documents == number_of_documents,
            r.total_time_ms == total_time_ms,
            r.time_per_document_ms == per_document_ms(total_time_ms, number_of_documents),
            r.embeddings == embeddings,
    {
        let time_per_document_ms: u128 = if number_of_documents == 0 {
            0
        } else {
            total_time_ms / (number_of_documents as u128)
        };
        EmbeddingResponse { number_of_documents, total_time_ms, time_per_document_ms, embeddings }
    }
}

/// What a batch of `requests` comes to once the inference call answered
/// `out`: its failure, a count mismatch, or the reassembled vectors with
/// the batch's document count and time per document.
pub open spec fn embed_outcome<V, E>(
    requests: Seq<EmbeddingRequestUnit>,
    out: Result<Vec<V>, E>,
    r: Result<EmbeddingResponse<V>, EmbedError<E>>,
) -> bool {
    match out {
        Err(e) => r == Err::<EmbeddingResponse<V>, EmbedError<E>>(EmbedError::Inference(e)),
        Ok(vectors) => if vectors@.len() == flat_chunks(requests).len() {
            &&& r matches Ok(resp)
            &&& resp.number_of_documents == requests.len()
            &&& resp.time_per_document_ms == per_document_ms(
                resp.total_time_ms,
                requests.len() as usize,
            )
            &&& reassembled(resp.embeddings@, vectors@, chunk_groups(requests))
        } else {
            r == Err::<EmbeddingResponse<V>, EmbedError<E>>(
                EmbedError::ChunkCountMismatch(
                    ChunkCountMismatch {
                        expected: flat_chunks(requests).len() as usize,
                        received: vectors@.len() as usize,
                    },
                ),
            )
        },
    }
}

/// Embeds a batch of documents: splits each into chunks, sends all chunks
/// of the batch to `infer` in one call, and gives each document back the
/// vectors of its chunks, with the time the whole batch took. An empty
/// batch is answered at once with zeros, without calling `infer`.
pub fn embed_documents<V, E, F: Fn(Vec<String>) -> Result<Vec<V>, E>>(
    infer: F,
    request: Vec<EmbeddingRequestUnit>,
) -> (r: Result<EmbeddingResponse<V>, EmbedError<E>>)
    requires
        forall|t: Vec<String>| #[trigger] infer.requires((t,)),
    ensures
        request@.len() == 0 ==> {
            &&& r matches Ok(resp)
            &&& resp.number_of_documents == 0
            &&& resp.total_time_ms == 0
            &&& resp.time_per_document_ms == 0
            &&& resp.embeddings@.len() == 0
        },
        request@.len() > 0 ==> exists|t: Vec<String>, out: Result<Vec<V>, E>|
            {
                &&& #[trigger] infer.ensures((t,), out)
                &&& t@.map_values(|s: String| s@) == flat_chunks(request@)
                &&& embed_outcome(request@, out, r)
            },
{
    let number_of_documents = request.len();
    if number_of_documents == 0 {
        return Ok(EmbeddingResponse::new(0, 0, Vec::new()));
    }
    let start = clock_now();
    let batch = build_batch(&request);
    let EmbeddingBatch { texts, groups } = batch;
    let ghost sent = texts;
    proof {
        assert(texts@.len() == texts.len());
    }
    let out = infer(texts);
    let ghost answer = out;
    let r = match out {
        Err(e) => Err(EmbedError::Inference(e)),
        Ok(vectors) => {
            let ghost received = vectors@;
            match reassemble(vectors, &groups) {
                Err(m) => Err(EmbedError::ChunkCountMismatch(m)),
                Ok(units) => {
                    let total_time_ms = elapsed_ms(&start);
                    Ok(EmbeddingResponse::new(number_of_documents, total_time_ms, units))
                },
            }
        },
    };
    proof {
        assert(infer.ensures((sent,), answer));
        assert(embed_outcome(request@, answer, r));
    }
    r
}

} // verus!
