use fastembed_axum::chunking::chunk_with_overlap;

fn owned(parts: &[&str]) -> Vec<String> {
    parts.iter().map(|p| p.to_string()).collect()
}

#[test]
fn twenty_five_distinct_characters_give_windows_at_seven_character_steps() {
    let text = "abcdefghijklmnopqrstuvwxy";
    assert_eq!(text.chars().count(), 25);
    let chunks = chunk_with_overlap(text, 10, 3);
    // windows [0,10), [7,17), [14,24), [21,25)
    assert_eq!(
        chunks,
        owned(&["abcdefghij", "hijklmnopq", "opqrstuvwx", "vwxy"])
    );
    let lengths: Vec<usize> = chunks.iter().map(|c| c.chars().count()).collect();
    assert_eq!(lengths, vec![10, 10, 10, 4]);
}

#[test]
fn text_shorter_than_chunk_size_is_one_chunk() {
    assert_eq!(chunk_with_overlap("hello", 10, 3), owned(&["hello"]));
}

#[test]
fn empty_text_has_no_chunks() {
    assert!(chunk_with_overlap("", 10, 3).is_empty());
}

#[test]
fn text_of_exactly_chunk_size_is_one_chunk() {
    assert_eq!(chunk_with_overlap("0123456789", 10, 3), owned(&["0123456789"]));
}

#[test]
fn one_character_past_chunk_size_gives_two_chunks() {
    assert_eq!(
        chunk_with_overlap("0123456789a", 10, 3),
        owned(&["0123456789", "789a"])
    );
}

#[test]
fn chunks_count_characters_not_bytes() {
    let text = "ééééé";
    let chunks = chunk_with_overlap(text, 2, 1);
    assert_eq!(chunks, owned(&["éé", "éé", "éé", "éé"]));
}

#[test]
fn zero_overlap_splits_without_repeating() {
    assert_eq!(chunk_with_overlap("abcdefg", 3, 0), owned(&["abc", "def", "g"]));
}

#[test]
fn chunks_cover_every_character_and_end_at_text_end() {
    let text = "the quick brown fox jumps over the lazy dog";
    let chars: Vec<char> = text.chars().collect();
    let chunks = chunk_with_overlap(text, 10, 3);
    let mut covered = vec![false; chars.len()];
    let mut start = 0usize;
    for (k, chunk) in chunks.iter().enumerate() {
        let n = chunk.chars().count();
        assert!(n <= 10);
        let expected: String = chars[start..start + n].iter().collect();
        assert_eq!(chunk, &expected);
        for c in covered.iter_mut().skip(start).take(n) {
            *c = true;
        }
        if k + 1 < chunks.len() {
            assert_eq!(n, 10);
            start += 7;
        } else {
            assert_eq!(start + n, chars.len());
        }
    }
    assert!(covered.iter().all(|c| *c));
}
