//! Fixed-width overlapping windows over the characters of a text.
use vstd::prelude::*;
use vstd::string::*;

verus! {

/// The `[start, end)` character ranges of the windows that begin at `start`
/// in a text of `len` characters: each window is at most `size` characters
/// long, the next one begins `overlap` characters before the previous one
/// ends, and the last one ends exactly at `len`.
pub open spec fn windows_from(len: int, start: int, size: int, overlap: int) -> Seq<(int, int)>
    decreases len - start,
{
    if start < 0 || start >= len || size <= overlap || overlap < 0 {
        Seq::empty()
    } else if start + size >= len {
        seq![(start, len)]
    } else {
        seq![(start, start + size)] + windows_from(len, start + size - overlap, size, overlap)
    }
}

/// The character ranges of all windows of a text of `len` characters.
pub open spec fn window_bounds(len: int, size: int, overlap: int) -> Seq<(int, int)> {
    windows_from(len, 0, size, overlap)
}

/// The chunks of `text`: the text of each window, in order.
pub open spec fn chunks_of(text: Seq<char>, size: int, overlap: int) -> Seq<Seq<char>> {
    window_bounds(text.len() as int, size, overlap).map_values(
        |b: (int, int)| text.subrange(b.0, b.1),
    )
}

/// Character `j` lies inside one of the windows `w`.
pub open spec fn in_some_window(w: Seq<(int, int)>, j: int) -> bool {
    exists|k: int| 0 <= k < w.len() && #[trigger] w[k].0 <= j < w[k].1
}

/// Every window that begins at `start` lies within the text, is non-empty
/// and at most `size` long; consecutive windows overlap by exactly
/// `overlap` characters; the first begins at `start` and the last ends at
/// `len`; and every character from `start` on lies in some window.
pub proof fn lemma_windows_from(len: int, start: int, size: int, overlap: int)
    requires
        0 <= overlap < size,
        0 <= start < len,
    ensures
        ({
            let w = windows_from(len, start, size, overlap);
            &&& w.len() > 0
            &&& w[0].0 == start
            &&& w.last().1 == len
            &&& forall|k: int|
                0 <= k < w.len() ==> start <= #[trigger] w[k].0 < w[k].1 <= len && w[k].1
                    - w[k].0 <= size
            &&& forall|k: int|
                0 <= k < w.len() - 1 ==> #[trigger] w[k + 1].0 == w[k].1 - overlap && w[k].1
                    - w[k].0 == size
            &&& forall|j: int| start <= j < len ==> #[trigger] in_some_window(w, j)
        }),
    decreases len - start,
{
    let w = windows_from(len, start, size, overlap);
    if start + size < len {
        let next = start + size - overlap;
        lemma_windows_from(len, next, size, overlap);
        let rest = windows_from(len, next, size, overlap);
        assert(w == seq![(start, start + size)] + rest);
        assert forall|k: int| 0 <= k < w.len() implies start <= #[trigger] w[k].0 < w[k].1 <= len
            && w[k].1 - w[k].0 <= size by {
            if k > 0 {
                assert(w[k] == rest[k - 1]);
            }
        }
        assert forall|k: int| 0 <= k < w.len() - 1 implies #[trigger] w[k + 1].0 == w[k].1
            - overlap && w[k].1 - w[k].0 == size by {
            assert(w[k + 1] == rest[k]);
            if k > 0 {
                assert(w[k] == rest[k - 1]);
                assert(rest[(k - 1) + 1].0 == rest[k - 1].1 - overlap);
            }
        }
        assert forall|j: int| start <= j < len implies #[trigger] in_some_window(w, j) by {
            if j < start + size {
                assert(w[0].0 <= j < w[0].1);
            } else {
                assert(in_some_window(rest, j));
                let k2 = choose|k2: int| 0 <= k2 < rest.len() && #[trigger] rest[k2].0 <= j < rest[k2].1;
                assert(w[k2 + 1] == rest[k2]);
                assert(w[k2 + 1].0 <= j < w[k2 + 1].1);
            }
        }
    } else {
        assert(w == seq![(start, len)]);
        assert forall|j: int| start <= j < len implies #[trigger] in_some_window(w, j) by {
            assert(w[0].0 <= j < w[0].1);
        }
    }
}

/// Chunking covers the whole text: for a non-empty text the first chunk
/// starts at character 0, the last chunk ends at the text's length, every
/// character lies in at least one chunk, each chunk is the text between its
/// bounds and holds at most `size` characters, and each chunk but the last
/// is exactly `size` long and is followed by one that starts `overlap`
/// characters before it ends. An empty text has no chunks, and a text of
/// at most `size` characters is its own single chunk.
pub proof fn lemma_chunks_cover_text(text: Seq<char>, size: int, overlap: int)
    requires
        0 <= overlap < size,
    ensures
        ({
            let b = window_bounds(text.len() as int, size, overlap);
            let c = chunks_of(text, size, overlap);
            &&& c.len() == b.len()
            &&& text.len() == 0 ==> c.len() == 0
            &&& 0 < text.len() <= size ==> c == seq![text]
            &&& text.len() > 0 ==> {
                &&& b.len() > 0
                &&& b[0].0 == 0
                &&& b.last().1 == text.len()
                &&& forall|j: int| 0 <= j < text.len() ==> #[trigger] in_some_window(b, j)
                &&& forall|k: int|
                    0 <= k < b.len() ==> 0 <= #[trigger] b[k].0 < b[k].1 <= text.len()
                        && b[k].1 - b[k].0 <= size && c[k] == text.subrange(b[k].0, b[k].1)
                &&& forall|k: int|
                    0 <= k < b.len() - 1 ==> #[trigger] b[k + 1].0 == b[k].1 - overlap && b[k].1
                        - b[k].0 == size
            }
        }),
{
    if text.len() > 0 {
        lemma_windows_from(text.len() as int, 0, size, overlap);
        if text.len() <= size {
            assert(text.subrange(0, text.len() as int) =~= text);
            assert(chunks_of(text, size, overlap) =~= seq![text]);
        }
    }
}

/// Splits `text` into windows of at most `chunk_size` characters, each one
/// starting `overlap` characters before the previous one ends; the last
/// window ends at the end of the text. Characters are Unicode scalar values.
pub fn chunk_with_overlap(text: &str, chunk_size: usize, overlap: usize) -> (chunks: Vec<String>)
    requires
        overlap < chunk_size,
    ensures
        chunks@.map_values(|c: String| c@) == chunks_of(text@, chunk_size as int, overlap as int),
{
    let len = text.unicode_len();
    let ghost size = chunk_size as int;
    let ghost ov = overlap as int;
    let mut chunks: Vec<String> = Vec::new();
    let mut i: usize = 0;
    while i < len
        invariant
            len == text@.len(),
            overlap < chunk_size,
            size == chunk_size,
            ov == overlap,
            i <= len,
            chunks@.map_values(|c: String| c@) + windows_from(len as int, i as int, size, ov).map_values(
                |b: (int, int)| text@.subrange(b.0, b.1),
            ) == chunks_of(text@, size, ov),
        decreases len - i,
    {
        let end: usize = if chunk_size >= len - i {
            len
        } else {
            i + chunk_size
        };
        let piece = String::from_str(text.substring_char(i, end));
        let ghost old_chunks = chunks@.map_values(|c: String| c@);
        let ghost rest = windows_from(len as int, i as int, size, ov);
        chunks.push(piece);
        let next: usize = if end == len {
            end
        } else {
            end - overlap
        };
        proof {
            let f = |b: (int, int)| text@.subrange(b.0, b.1);
            let tail = windows_from(len as int, next as int, size, ov);
            if end == len {
                assert(rest == seq![(i as int, len as int)]);
                assert(tail =~= Seq::<(int, int)>::empty());
            } else {
                assert(rest == seq![(i as int, end as int)] + tail);
            }
            assert(rest.map_values(f) =~= seq![text@.subrange(i as int, end as int)] + tail.map_values(f));
            assert(chunks@.map_values(|c: String| c@) =~= old_chunks.push(text@.subrange(i as int, end as int)));
            assert(chunks@.map_values(|c: String| c@) + tail.map_values(f) =~= old_chunks + rest.map_values(f));
        }
        i = next;
    }
    proof {
        assert(windows_from(len as int, i as int, size, ov) =~= Seq::<(int, int)>::empty());
        assert(chunks@.map_values(|c: String| c@) =~= chunks@.map_values(|c: String| c@) + Seq::<Seq<char>>::empty());
    }
    chunks
}

} // verus!
