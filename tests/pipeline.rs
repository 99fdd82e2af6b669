use fastembed_axum::pipeline::{
    build_batch, embed_documents, reassemble, ChunkCountMismatch, ChunkGroup, EmbedError,
    EmbeddingRequestUnit, EmbeddingResponse, CHUNK_OVERLAP, CHUNK_SIZE,
};

fn unit(id: i32, text: &str) -> EmbeddingRequestUnit {
    EmbeddingRequestUnit { id, text_to_embed: text.to_string() }
}

// One deterministic vector per input text: its character count and its
// first character.
fn stub(texts: Vec<String>) -> Result<Vec<Vec<f32>>, String> {
    Ok(texts
        .iter()
        .map(|t| vec![t.chars().count() as f32, t.chars().next().map_or(0.0, |c| c as u32 as f32)])
        .collect())
}

#[test]
fn chunking_parameters_are_ten_and_three() {
    assert_eq!(CHUNK_SIZE, 10);
    assert_eq!(CHUNK_OVERLAP, 3);
}

#[test]
fn build_batch_flattens_chunks_in_document_order() {
    let requests = vec![unit(7, "hello"), unit(3, ""), unit(9, "abcdefghijklmnopqrstuvwxy")];
    let batch = build_batch(&requests);
    assert_eq!(
        batch.texts,
        vec!["hello", "abcdefghij", "hijklmnopq", "opqrstuvwx", "vwxy"]
    );
    assert_eq!(
        batch.groups,
        vec![
            ChunkGroup { id: 7, chunk_count: 1 },
            ChunkGroup { id: 3, chunk_count: 0 },
            ChunkGroup { id: 9, chunk_count: 4 },
        ]
    );
}

#[test]
fn reassemble_slices_vectors_per_group() {
    let groups = vec![
        ChunkGroup { id: 1, chunk_count: 2 },
        ChunkGroup { id: 1, chunk_count: 0 },
        ChunkGroup { id: 5, chunk_count: 3 },
    ];
    let units = reassemble(vec![10, 11, 20, 21, 22], &groups).unwrap();
    assert_eq!(units.len(), 3);
    assert_eq!((units[0].id, units[0].embeddings.clone()), (1, vec![10, 11]));
    assert_eq!((units[1].id, units[1].embeddings.clone()), (1, vec![]));
    assert_eq!((units[2].id, units[2].embeddings.clone()), (5, vec![20, 21, 22]));
}

#[test]
fn reassemble_rejects_too_few_vectors() {
    let groups = vec![ChunkGroup { id: 1, chunk_count: 2 }, ChunkGroup { id: 2, chunk_count: 2 }];
    let r = reassemble(vec![1, 2, 3], &groups);
    assert_eq!(r.unwrap_err(), ChunkCountMismatch { expected: 4, received: 3 });
}

#[test]
fn reassemble_rejects_too_many_vectors() {
    let groups = vec![ChunkGroup { id: 1, chunk_count: 1 }];
    let r = reassemble(vec![1, 2], &groups);
    assert_eq!(r.unwrap_err(), ChunkCountMismatch { expected: 1, received: 2 });
}

#[test]
fn one_vector_per_chunk_gives_each_document_its_chunk_count() {
    let requests = vec![
        unit(4, "abcdefghijklmnopqrstuvwxy"),
        unit(4, "short"),
        unit(-2, "0123456789a"),
    ];
    let response = embed_documents(stub, requests).unwrap();
    assert_eq!(response.number_of_documents, 3);
    assert_eq!(response.embeddings.len(), 3);
    let ids: Vec<i32> = response.embeddings.iter().map(|u| u.id).collect();
    assert_eq!(ids, vec![4, 4, -2]);
    let counts: Vec<usize> = response.embeddings.iter().map(|u| u.embeddings.len()).collect();
    assert_eq!(counts, vec![4, 1, 2]);
    let total: usize = counts.iter().sum();
    assert_eq!(total, 7);
    // each document gets the vectors of its own chunks, in chunk order
    assert_eq!(response.embeddings[0].embeddings[3], vec![4.0, 'v' as u32 as f32]);
    assert_eq!(response.embeddings[1].embeddings[0], vec![5.0, 's' as u32 as f32]);
    assert_eq!(response.embeddings[2].embeddings[1], vec![4.0, '7' as u32 as f32]);
    assert_eq!(
        response.time_per_document_ms,
        response.total_time_ms / 3
    );
}

#[test]
fn inference_is_called_once_with_all_chunks() {
    let calls = std::cell::RefCell::new(Vec::new());
    let infer = |texts: Vec<String>| {
        calls.borrow_mut().push(texts.clone());
        stub(texts)
    };
    let requests = vec![unit(1, "hello"), unit(2, "0123456789a")];
    embed_documents(infer, requests).unwrap();
    let calls = calls.into_inner();
    assert_eq!(calls.len(), 1);
    assert_eq!(calls[0], vec!["hello", "0123456789", "789a"]);
}

#[test]
fn empty_batch_gives_zero_response_without_inference() {
    let infer = |_texts: Vec<String>| -> Result<Vec<Vec<f32>>, String> {
        panic!("no inference for an empty batch")
    };
    let response = embed_documents(infer, Vec::new()).unwrap();
    assert_eq!(response.number_of_documents, 0);
    assert_eq!(response.total_time_ms, 0);
    assert_eq!(response.time_per_document_ms, 0);
    assert!(response.embeddings.is_empty());
}

#[test]
fn inference_failure_is_returned() {
    let infer = |_texts: Vec<String>| -> Result<Vec<Vec<f32>>, String> { Err("out of memory".to_string()) };
    let r = embed_documents(infer, vec![unit(1, "hello")]);
    match r {
        Err(EmbedError::Inference(e)) => assert_eq!(e, "out of memory"),
        other => panic!("unexpected {:?}", other),
    }
}

#[test]
fn fewer_vectors_than_chunks_is_a_mismatch() {
    let infer = |texts: Vec<String>| -> Result<Vec<Vec<f32>>, String> {
        Ok(texts.iter().skip(1).map(|_| vec![0.0]).collect())
    };
    let r = embed_documents(infer, vec![unit(1, "hello"), unit(2, "0123456789a")]);
    match r {
        Err(EmbedError::ChunkCountMismatch(m)) => {
            assert_eq!(m, ChunkCountMismatch { expected: 3, received: 2 })
        }
        other => panic!("unexpected {:?}", other),
    }
}

#[test]
fn time_per_document_is_integer_quotient() {
    let r: EmbeddingResponse<u8> = EmbeddingResponse::new(3, 10, Vec::new());
    assert_eq!(r.number_of_documents, 3);
    assert_eq!(r.total_time_ms, 10);
    assert_eq!(r.time_per_document_ms, 3);
}

#[test]
fn time_per_document_of_no_documents_is_zero() {
    let r: EmbeddingResponse<u8> = EmbeddingResponse::new(0, 10, Vec::new());
    assert_eq!(r.time_per_document_ms, 0);
}

#[test]
fn reassemble_reports_counts_past_usize_max_as_mismatch() {
    let groups = vec![ChunkGroup { id: 1, chunk_count: usize::MAX }, ChunkGroup { id: 2, chunk_count: 1 }];
    let r = reassemble(vec![0u8], &groups);
    assert_eq!(r.unwrap_err(), ChunkCountMismatch { expected: usize::MAX, received: 1 });
}
