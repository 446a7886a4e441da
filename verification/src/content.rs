use vstd::prelude::*;
use vstd::string::StrSliceExecFns;
use vstd::string::StringExecFns;

use crate::style::Style;

verus! {

/// One style run: the half-open character range `[start, end)` of the owning
/// `StyledContent`'s text, drawn with `style`.
#[derive(Debug, Clone, Copy, PartialEq, Eq, Structural)]
pub struct StyledChunk {
    pub start: usize,
    pub end: usize,
    pub style: Style,
}

/// The chunk sequence tiles the character range `[from, upto)`: each chunk is
/// non-empty, the first starts at `from`, each further chunk starts where the
/// previous one ended, and the last ends at `upto`.
pub open spec fn chunks_cover(chunks: Seq<StyledChunk>, from: int, upto: int) -> bool
    decreases chunks.len(),
{
    if chunks.len() == 0 {
        from == upto
    } else {
        &&& chunks[0].start == from
        &&& chunks[0].start < chunks[0].end
        &&& chunks_cover(chunks.drop_first(), chunks[0].end as int, upto)
    }
}

/// The concatenation of the text slices the chunks select.
pub open spec fn concat_chunks(chunks: Seq<StyledChunk>, text: Seq<char>) -> Seq<char>
    decreases chunks.len(),
{
    if chunks.len() == 0 {
        Seq::empty()
    } else {
        text.subrange(chunks[0].start as int, chunks[0].end as int) + concat_chunks(
            chunks.drop_first(),
            text,
        )
    }
}

/// Index-wise consequences of `chunks_cover`: every chunk is non-empty and in
/// range, consecutive chunks are adjacent, and the ends line up with `from`
/// and `upto`.
pub proof fn lemma_cover_index_facts(chunks: Seq<StyledChunk>, from: int, upto: int)
    requires
        chunks_cover(chunks, from, upto),
    ensures
        from <= upto,
        chunks.len() > 0 ==> chunks[0].start == from,
        chunks.len() > 0 ==> chunks[chunks.len() - 1].end == upto,
        forall|i: int|
            0 <= i < chunks.len() ==> from <= #[trigger] chunks[i].start < chunks[i].end <= upto,
        forall|i: int| 0 <= i < chunks.len() - 1 ==> #[trigger] chunks[i].end == chunks[i + 1].start,
    decreases chunks.len(),
{
    if chunks.len() > 0 {
        lemma_cover_index_facts(chunks.drop_first(), chunks[0].end as int, upto);

        assert forall|i: int|
            0 <= i < chunks.len() implies from <= #[trigger] chunks[i].start < chunks[i].end
            <= upto by {
            if i > 0 {
                assert(chunks.drop_first()[i - 1] == chunks[i]);
            }
        }
        assert forall|i: int| 0 <= i < chunks.len() - 1 implies #[trigger] chunks[i].end == chunks[i
            + 1].start by {
            if i > 0 {
                assert(chunks.drop_first()[i - 1] == chunks[i]);
                assert(chunks.drop_first()[i] == chunks[i + 1]);
            } else {
                assert(chunks.drop_first()[0] == chunks[1]);
            }
        }
        if chunks.len() == 1 {
            assert(chunks_cover(chunks.drop_first(), chunks[0].end as int, upto));
            assert(chunks.drop_first().len() == 0);
            assert(chunks[0].end == upto);
        } else {
            assert(chunks.drop_first()[chunks.len() - 2] == chunks[chunks.len() - 1]);
        }
    }
}

/// Covers of two adjacent ranges concatenate to a cover of the whole range.
pub proof fn lemma_cover_append(a: Seq<StyledChunk>, b: Seq<StyledChunk>, from: int, mid: int, upto: int)
    requires
        chunks_cover(a, from, mid),
        chunks_cover(b, mid, upto),
    ensures
        chunks_cover(a + b, from, upto),
    decreases a.len(),
{
    if a.len() == 0 {
        assert(a + b =~= b);
    } else {
        lemma_cover_append(a.drop_first(), b, a[0].end as int, mid, upto);
        assert((a + b).drop_first() =~= a.drop_first() + b);
    }
}

/// A cover splits at any chunk index: the prefix covers up to that chunk's
/// start and the suffix covers the rest.
pub proof fn lemma_cover_split(chunks: Seq<StyledChunk>, from: int, upto: int, i: int)
    requires
        chunks_cover(chunks, from, upto),
        0 <= i < chunks.len(),
    ensures
        chunks_cover(chunks.take(i), from, chunks[i].start as int),
        chunks_cover(chunks.skip(i), chunks[i].start as int, upto),
    decreases i,
{
    if i == 0 {
        assert(chunks.take(0) =~= Seq::<StyledChunk>::empty());
        assert(chunks.skip(0) =~= chunks);
    } else {
        lemma_cover_split(chunks.drop_first(), chunks[0].end as int, upto, i - 1);
        assert(chunks.drop_first()[i - 1] == chunks[i]);
        assert(chunks.drop_first().take(i - 1) =~= chunks.take(i).drop_first());
        assert(chunks.drop_first().skip(i - 1) =~= chunks.skip(i));
        assert(chunks.take(i)[0] == chunks[0]);
    }
}

/// Chunks of a cover are pairwise disjoint and sorted: an earlier chunk ends
/// no later than a later one starts.
pub proof fn lemma_cover_sorted(chunks: Seq<StyledChunk>, from: int, upto: int, t: int, u: int)
    requires
        chunks_cover(chunks, from, upto),
        0 <= t < u < chunks.len(),
    ensures
        chunks[t].end <= chunks[u].start,
    decreases u - t,
{
    lemma_cover_index_facts(chunks, from, upto);

    if u > t + 1 {
        lemma_cover_sorted(chunks, from, upto, t, u - 1);
    }
}

/// Within a cover, at most one chunk strictly contains a position.
pub proof fn lemma_strict_cover_unique(chunks: Seq<StyledChunk>, from: int, upto: int, pos: int)
    requires
        chunks_cover(chunks, from, upto),
        has_strict_cover(chunks, pos),
    ensures
        forall|i: int|
            0 <= i < chunks.len() && (#[trigger] chunks[i].start) < pos < chunks[i].end ==> i
                == strict_cover_idx(chunks, pos),
{
    let w = strict_cover_idx(chunks, pos);
    assert(0 <= w < chunks.len() && chunks[w].start < pos < chunks[w].end);

    assert forall|i: int|
        0 <= i < chunks.len() && (#[trigger] chunks[i].start) < pos < chunks[i].end implies i
        == w by {
        if i < w {
            lemma_cover_sorted(chunks, from, upto, i, w);
        } else if i > w {
            lemma_cover_sorted(chunks, from, upto, w, i);
        }
    }
}

/// Some chunk strictly contains the position: the position falls inside a
/// chunk without touching either of its ends. The splice in `style_range`
/// fires exactly when this holds of the range's start.
pub open spec fn has_strict_cover(chunks: Seq<StyledChunk>, pos: int) -> bool {
    exists|i: int|
        0 <= i < chunks.len() && (#[trigger] chunks[i].start) < pos < chunks[i].end
}

/// The index of the chunk strictly containing the position (unique in a
/// cover, by `lemma_strict_cover_unique`).
pub open spec fn strict_cover_idx(chunks: Seq<StyledChunk>, pos: int) -> int {
    choose|i: int|
        0 <= i < chunks.len() && (#[trigger] chunks[i].start) < pos < chunks[i].end
}

/// The chunk list after the splice of `style_range`: the chunk around `start`
/// is cut at `start`; a chunk `[start, end)` with the new style is laid in;
/// whatever the new chunk overrode up to `end` is dropped, and the chunk in
/// which `end` falls keeps its remainder `[end, ..)`.
pub open spec fn spliced_chunks(
    chunks: Seq<StyledChunk>,
    start: usize,
    end: usize,
    style: Style,
) -> Seq<StyledChunk> {
    let i = strict_cover_idx(chunks, start as int);
    let c = chunks[i];
    let before = StyledChunk { start: c.start, end: start, style: c.style };
    let mid = StyledChunk { start, end, style };
    if end < c.end {
        chunks.take(i) + seq![before, mid, StyledChunk { start: end, end: c.end, style: c.style }]
            + chunks.skip(i + 1)
    } else if end == c.end {
        chunks.take(i) + seq![before, mid] + chunks.skip(i + 1)
    } else {
        let j = strict_cover_idx(chunks, end as int);
        let d = chunks[j];
        chunks.take(i) + seq![before, mid, StyledChunk { start: end, end: d.end, style: d.style }]
            + chunks.skip(j + 1)
    }
}

/// What one chunk contributes to a slice over `[start, end)`: its overlap
/// with the range, rebased so the slice's text starts at zero; nothing if it
/// does not overlap the range.
pub open spec fn chunk_contrib(c: StyledChunk, start: int, end: int) -> Seq<StyledChunk> {
    let lo = if c.start > start {
        c.start as int
    } else {
        start
    };
    let hi = if c.end < end {
        c.end as int
    } else {
        end
    };
    if lo < hi {
        seq![StyledChunk { start: (lo - start) as usize, end: (hi - start) as usize, style: c.style }]
    } else {
        Seq::empty()
    }
}

/// The chunk list of `slice`: every chunk's overlap with `[start, end)`,
/// rebased to the slice's coordinates, in order.
pub open spec fn sliced_chunks(chunks: Seq<StyledChunk>, start: int, end: int) -> Seq<StyledChunk>
    decreases chunks.len(),
{
    if chunks.len() == 0 {
        Seq::empty()
    } else {
        chunk_contrib(chunks[0], start, end) + sliced_chunks(chunks.drop_first(), start, end)
    }
}

/// Slicing distributes over appending one chunk at the back.
pub proof fn lemma_sliced_push(chunks: Seq<StyledChunk>, x: StyledChunk, start: int, end: int)
    ensures
        sliced_chunks(chunks.push(x), start, end) == sliced_chunks(chunks, start, end)
            + chunk_contrib(x, start, end),
    decreases chunks.len(),
{
    if chunks.len() == 0 {
        assert(chunks.push(x).drop_first() =~= chunks);
        assert(chunks.push(x)[0] == x);
        assert(sliced_chunks(chunks.push(x), start, end) =~= sliced_chunks(chunks, start, end)
            + chunk_contrib(x, start, end));
    } else {
        lemma_sliced_push(chunks.drop_first(), x, start, end);
        assert(chunks.push(x).drop_first() =~= chunks.drop_first().push(x));
        assert(chunks.push(x)[0] == chunks[0]);
        assert(sliced_chunks(chunks.push(x), start, end) == chunk_contrib(
            chunks.push(x)[0],
            start,
            end,
        ) + sliced_chunks(chunks.push(x).drop_first(), start, end));
        assert(sliced_chunks(chunks.push(x).drop_first(), start, end) == sliced_chunks(
            chunks.drop_first(),
            start,
            end,
        ) + chunk_contrib(x, start, end));
        assert(sliced_chunks(chunks, start, end) == chunk_contrib(chunks[0], start, end)
            + sliced_chunks(chunks.drop_first(), start, end));

        let a = chunk_contrib(chunks[0], start, end);
        let b = sliced_chunks(chunks.drop_first(), start, end);
        let t = chunk_contrib(x, start, end);
        assert(a + (b + t) =~= (a + b) + t);
    }
}

/// A cover of an empty range holds no chunks.
pub proof fn lemma_cover_empty_range(chunks: Seq<StyledChunk>, x: int)
    requires
        chunks_cover(chunks, x, x),
    ensures
        chunks == Seq::<StyledChunk>::empty(),
{
    lemma_cover_index_facts(chunks, x, x);

    if chunks.len() > 0 {
        assert(x <= chunks[0].start < chunks[0].end <= x);
    }
    assert(chunks =~= Seq::<StyledChunk>::empty());
}

/// The sliced chunk list of a cover again covers: it tiles the part of
/// `[start, end)` the original cover reaches, rebased to slice coordinates.
pub proof fn lemma_sliced_cover(
    chunks: Seq<StyledChunk>,
    from: int,
    upto: int,
    start: int,
    end: int,
)
    requires
        chunks_cover(chunks, from, upto),
        0 <= start <= end <= usize::MAX,
    ensures
        ({
            let lo = if from > start {
                from
            } else {
                start
            };
            let m = if upto < end {
                upto
            } else {
                end
            };
            let hi = if m > lo {
                m
            } else {
                lo
            };
            chunks_cover(sliced_chunks(chunks, start, end), lo - start, hi - start)
        }),
    decreases chunks.len(),
{
    let lo = if from > start {
        from
    } else {
        start
    };
    let m = if upto < end {
        upto
    } else {
        end
    };
    let hi = if m > lo {
        m
    } else {
        lo
    };

    if chunks.len() == 0 {
        assert(sliced_chunks(chunks, start, end) =~= Seq::<StyledChunk>::empty());
        assert(lo == hi);
    } else {
        let c = chunks[0];
        lemma_cover_index_facts(chunks, from, upto);
        lemma_sliced_cover(chunks.drop_first(), c.end as int, upto, start, end);

        let lo2 = if c.end > start {
            c.end as int
        } else {
            start
        };
        let hi2 = if m > lo2 {
            m
        } else {
            lo2
        };
        let rest = sliced_chunks(chunks.drop_first(), start, end);
        assert(chunks_cover(rest, lo2 - start, hi2 - start));

        if hi2 == lo2 {
            lemma_cover_empty_range(rest, lo2 - start);
        }

        assert(sliced_chunks(chunks, start, end) == chunk_contrib(c, start, end) + rest);
        assert(chunks_cover(Seq::<StyledChunk>::empty(), hi - start, hi - start));

        let clo = if c.start > start {
            c.start as int
        } else {
            start
        };
        let chi = if c.end < end {
            c.end as int
        } else {
            end
        };

        if clo < chi {
            // the head chunk overlaps the slice range
            let head = StyledChunk {
                start: (clo - start) as usize,
                end: (chi - start) as usize,
                style: c.style,
            };
            assert(chunk_contrib(c, start, end) == seq![head]);
            assert((chunk_contrib(c, start, end) + rest)[0] == head);
            assert((chunk_contrib(c, start, end) + rest).drop_first() =~= rest);
            assert(head.start == clo - start);
            assert(head.end == chi - start);
            assert(clo == lo);

            if chi == c.end {
                // the head chunk is consumed whole; the tail continues at its end
                assert(lo2 == chi);
                assert(hi2 == hi);
                assert(chunks_cover(rest, chi - start, hi - start));
            } else {
                // the slice range ends inside the head chunk; the tail is empty
                assert(chi == end);
                assert(lo2 == c.end && hi2 == lo2);
                assert(rest =~= Seq::<StyledChunk>::empty());
                assert(hi == end);
                assert(chunks_cover(rest, chi - start, hi - start));
            }
            assert(chunks_cover(sliced_chunks(chunks, start, end), lo - start, hi - start));
        } else {
            // the head chunk lies wholly outside the slice range
            assert(chunk_contrib(c, start, end) =~= Seq::<StyledChunk>::empty());
            assert(sliced_chunks(chunks, start, end) =~= rest);

            if c.end <= start {
                // head chunk before the range: same bounds carry over
                assert(lo2 == lo && hi2 == hi);
            } else {
                // head chunk at or past the range end: nothing further overlaps
                assert(end <= c.start || start == end);
                assert(hi2 == lo2);
                assert(rest =~= Seq::<StyledChunk>::empty());
                assert(lo == hi);
                assert(chunks_cover(rest, lo - start, hi - start));
            }
        }
    }
}

/// Concatenating the substrings a cover's chunks select yields exactly the
/// covered part of the text.
pub proof fn lemma_concat_covers(chunks: Seq<StyledChunk>, text: Seq<char>, from: int, upto: int)
    requires
        chunks_cover(chunks, from, upto),
        0 <= from,
        upto <= text.len(),
    ensures
        concat_chunks(chunks, text) == text.subrange(from, upto),
    decreases chunks.len(),
{
    if chunks.len() == 0 {
        assert(text.subrange(from, from) =~= Seq::<char>::empty());
    } else {
        lemma_cover_index_facts(chunks, from, upto);
        lemma_concat_covers(chunks.drop_first(), text, chunks[0].end as int, upto);
        assert(text.subrange(from, chunks[0].end as int) + text.subrange(
            chunks[0].end as int,
            upto,
        ) =~= text.subrange(from, upto));
    }
}

/// Chunk concatenation distributes over appending one chunk at the back.
pub proof fn lemma_concat_chunks_push(chunks: Seq<StyledChunk>, c: StyledChunk, text: Seq<char>)
    ensures
        concat_chunks(chunks.push(c), text) == concat_chunks(chunks, text) + text.subrange(
            c.start as int,
            c.end as int,
        ),
    decreases chunks.len(),
{
    if chunks.len() == 0 {
        assert(chunks.push(c).drop_first() =~= chunks);
        assert(chunks.push(c)[0] == c);
        assert(concat_chunks(chunks.push(c), text) =~= concat_chunks(chunks, text)
            + text.subrange(c.start as int, c.end as int));
    } else {
        lemma_concat_chunks_push(chunks.drop_first(), c, text);
        assert(chunks.push(c).drop_first() =~= chunks.drop_first().push(c));
        assert(chunks.push(c)[0] == chunks[0]);
        assert(concat_chunks(chunks.push(c), text) == text.subrange(
            chunks.push(c)[0].start as int,
            chunks.push(c)[0].end as int,
        ) + concat_chunks(chunks.push(c).drop_first(), text));
        assert(concat_chunks(chunks.push(c).drop_first(), text) == concat_chunks(
            chunks.drop_first(),
            text,
        ) + text.subrange(c.start as int, c.end as int));
        assert(concat_chunks(chunks, text) == text.subrange(
            chunks[0].start as int,
            chunks[0].end as int,
        ) + concat_chunks(chunks.drop_first(), text));

        let a = text.subrange(chunks[0].start as int, chunks[0].end as int);
        let b = concat_chunks(chunks.drop_first(), text);
        let t = text.subrange(c.start as int, c.end as int);
        assert(a + (b + t) =~= (a + b) + t);
    }
}

/// The substrings `iter_chunks` yields always concatenate back to the row's
/// exact text: a well-formed chunk list reconstructs its content.
pub proof fn lemma_chunks_reconstruct_text(s: StyledContent)
    requires
        s.wf(),
    ensures
        concat_chunks(s.runs(), s.text()) == s.text(),
{
    lemma_concat_covers(s.runs(), s.text(), 0, s.text().len() as int);
    assert(s.text().subrange(0, s.text().len() as int) =~= s.text());
}

/// Finds the index of the chunk strictly containing `pos`, scanning in
/// order, or reports that no chunk does.
fn find_strict_cover(chunks: &Vec<StyledChunk>, pos: usize) -> (r: Option<usize>)
    ensures
        match r {
            Some(i) => i < chunks@.len() && chunks@[i as int].start < pos < chunks@[i as int].end,
            None => !has_strict_cover(chunks@, pos as int),
        },
{
    let mut k: usize = 0;

    while k < chunks.len()
        invariant
            k <= chunks@.len(),
            forall|t: int| 0 <= t < k ==> !((#[trigger] chunks@[t].start) < pos < chunks@[t].end),
        decreases chunks@.len() - k,
    {
        let c = chunks[k];

        if c.start < pos && pos < c.end {
            return Some(k);
        }

        k = k + 1;
    }

    None
}

/// Appends the chunks `src[a..b]` to `out`, in order.
fn copy_chunk_range(src: &Vec<StyledChunk>, a: usize, b: usize, out: &mut Vec<StyledChunk>)
    requires
        a <= b <= src@.len(),
    ensures
        final(out)@ == old(out)@ + src@.subrange(a as int, b as int),
{
    proof {
        assert(out@ =~= out@ + src@.subrange(a as int, a as int));
    }

    let mut k = a;

    while k < b
        invariant
            a <= k <= b <= src@.len(),
            out@ == old(out)@ + src@.subrange(a as int, k as int),
        decreases b - k,
    {
        out.push(src[k]);

        proof {
            assert(out@ =~= old(out)@ + src@.subrange(a as int, k + 1));
        }

        k = k + 1;
    }
}

/// A row of text together with its partition into style runs. The chunk list
/// is kept sorted, non-overlapping, and contiguously covering the whole text.
#[derive(Debug)]
pub struct StyledContent {
    chunks: Vec<StyledChunk>,
    content: String,
}

impl StyledContent {
    /// The text of the row, as a character sequence.
    pub closed spec fn text(self) -> Seq<char> {
        self.content@
    }

    /// The style runs of the row, in order.
    pub closed spec fn runs(self) -> Seq<StyledChunk> {
        self.chunks@
    }

    /// The structural invariant: the runs tile `[0, text.len())`.
    pub open spec fn wf(self) -> bool {
        chunks_cover(self.runs(), 0, self.text().len() as int)
    }

    pub fn new() -> (r: StyledContent)
        ensures
            r.text() == Seq::<char>::empty(),
            r.runs() == Seq::<StyledChunk>::empty(),
            r.wf(),
    {
        StyledContent { chunks: Vec::new(), content: String::new() }
    }

    /// A row whose whole text carries the default style, as one chunk.
    pub fn from(content: String) -> (r: StyledContent)
        ensures
            r.text() == content@,
            r.wf(),
            forall|i: int|
                0 <= i < r.runs().len() ==> #[trigger] r.runs()[i].style == Style::spec_default(),
            content@.len() > 0 ==> r.runs() == seq![
                StyledChunk {
                    start: 0usize,
                    end: content@.len() as usize,
                    style: Style::spec_default(),
                },
            ],
            content@.len() == 0 ==> r.runs() == Seq::<StyledChunk>::empty(),
    {
        StyledContent::from_styled(content, Style::default())
    }

    /// A row whose whole text carries the given style.
    pub fn from_styled(content: String, style: Style) -> (r: StyledContent)
        ensures
            r.text() == content@,
            r.wf(),
            forall|i: int| 0 <= i < r.runs().len() ==> #[trigger] r.runs()[i].style == style,
            content@.len() > 0 ==> r.runs() == seq![
                StyledChunk { start: 0usize, end: content@.len() as usize, style },
            ],
            content@.len() == 0 ==> r.runs() == Seq::<StyledChunk>::empty(),
    {
        let len = content.as_str().unicode_len();
        let mut chunks: Vec<StyledChunk> = Vec::new();

        if len > 0 {
            chunks.push(StyledChunk { start: 0, end: len, style });
        }

        proof {
            if len > 0 {
                assert(chunks@[0] == (StyledChunk { start: 0, end: len, style }));
                assert(chunks@ =~= seq![StyledChunk { start: 0, end: len, style }]);
                assert(chunks@.drop_first() =~= Seq::<StyledChunk>::empty());
                assert(chunks_cover(chunks@.drop_first(), len as int, content@.len() as int));
            } else {
                assert(chunks@ =~= Seq::<StyledChunk>::empty());
            }
        }

        StyledContent { chunks, content }
    }

    /// Appends text to the row and paints the appended character range with
    /// the given style. Appending nothing changes nothing.
    pub fn push(&mut self, content: String, style: Style)
        requires
            old(self).wf(),
        ensures
            final(self).text() == old(self).text() + content@,
            final(self).wf(),
            content@.len() == 0 ==> final(self).runs() == old(self).runs(),
            content@.len() > 0 ==> final(self).runs() == old(self).runs().push(
                StyledChunk {
                    start: old(self).text().len() as usize,
                    end: (old(self).text().len() + content@.len()) as usize,
                    style,
                },
            ),
    {
        let start = self.content.as_str().unicode_len();
        self.content.append(content.as_str());
        let end = self.content.as_str().unicode_len();

        if end > start {
            let c = StyledChunk { start, end, style };
            self.chunks.push(c);

            proof {
                assert(seq![c].drop_first() =~= Seq::<StyledChunk>::empty());
                assert(chunks_cover(Seq::<StyledChunk>::empty(), end as int, end as int));
                assert(chunks_cover(seq![c], start as int, end as int));
                lemma_cover_append(
                    old(self).runs(),
                    seq![c],
                    0,
                    start as int,
                    end as int,
                );
                assert(self.chunks@ =~= old(self).runs() + seq![c]);
            }
        } else {
            proof {
                assert(self.text() =~= old(self).text());
            }
        }
    }

    /// Cuts the chunk at `idx` around `[start, end)`, where the range ends
    /// strictly inside that same chunk: the chunk is replaced by its left
    /// remainder, the newly styled chunk, and its right remainder.
    fn splice_inner(&mut self, idx: usize, start: usize, end: usize, style: Style)
        requires
            old(self).wf(),
            idx < old(self).runs().len(),
            old(self).runs()[idx as int].start < start < old(self).runs()[idx as int].end,
            start < end,
            end < old(self).runs()[idx as int].end,
        ensures
            final(self).text() == old(self).text(),
            final(self).wf(),
            final(self).runs() == ({
                let c = old(self).runs()[idx as int];
                old(self).runs().take(idx as int) + seq![
                    StyledChunk { start: c.start, end: start, style: c.style },
                    StyledChunk { start, end, style },
                    StyledChunk { start: end, end: c.end, style: c.style },
                ] + old(self).runs().skip(idx as int + 1)
            }),
    {
        let ghost text_len = self.text().len() as int;
        let n = self.chunks.len();
        let c = self.chunks[idx];
        let before = StyledChunk { start: c.start, end: start, style: c.style };
        let mid = StyledChunk { start, end, style };
        let after = StyledChunk { start: end, end: c.end, style: c.style };

        let mut out: Vec<StyledChunk> = Vec::new();
        copy_chunk_range(&self.chunks, 0, idx, &mut out);
        out.push(before);
        out.push(mid);
        out.push(after);
        copy_chunk_range(&self.chunks, idx + 1, n, &mut out);

        proof {
            lemma_cover_split(self.chunks@, 0, text_len, idx as int);
            assert(self.chunks@.skip(idx as int).drop_first() =~= self.chunks@.skip(idx + 1));
            assert(self.chunks@.skip(idx as int)[0] == self.chunks@[idx as int]);
            assert(chunks_cover(self.chunks@.skip(idx + 1), c.end as int, text_len));

            let mids = seq![before, mid, after];
            assert(out@ =~= self.chunks@.take(idx as int) + mids + self.chunks@.skip(idx + 1));
            assert(chunks_cover(mids, c.start as int, c.end as int)) by {
                assert(chunks_cover(Seq::<StyledChunk>::empty(), c.end as int, c.end as int));
                assert(seq![after].drop_first() =~= Seq::<StyledChunk>::empty());
                assert(chunks_cover(seq![after], end as int, c.end as int));
                assert(seq![mid, after].drop_first() =~= seq![after]);
                assert(chunks_cover(seq![mid, after], start as int, c.end as int));
                assert(mids.drop_first() =~= seq![mid, after]);
            }
            lemma_cover_append(mids, self.chunks@.skip(idx + 1), c.start as int, c.end as int, text_len);
            lemma_cover_append(
                self.chunks@.take(idx as int),
                mids + self.chunks@.skip(idx + 1),
                0,
                c.start as int,
                text_len,
            );
            assert(out@ =~= self.chunks@.take(idx as int) + (mids + self.chunks@.skip(idx + 1)));
        }

        self.chunks = out;
    }

    /// Cuts the chunk at `idx` around `[start, end)`, where the range ends
    /// exactly at that chunk's end: the chunk is replaced by its left
    /// remainder and the newly styled chunk.
    fn splice_to_end(&mut self, idx: usize, start: usize, end: usize, style: Style)
        requires
            old(self).wf(),
            idx < old(self).runs().len(),
            old(self).runs()[idx as int].start < start < old(self).runs()[idx as int].end,
            start < end,
            end == old(self).runs()[idx as int].end,
        ensures
            final(self).text() == old(self).text(),
            final(self).wf(),
            final(self).runs() == ({
                let c = old(self).runs()[idx as int];
                old(self).runs().take(idx as int) + seq![
                    StyledChunk { start: c.start, end: start, style: c.style },
                    StyledChunk { start, end, style },
                ] + old(self).runs().skip(idx as int + 1)
            }),
    {
        let ghost text_len = self.text().len() as int;
        let n = self.chunks.len();
        let c = self.chunks[idx];
        let before = StyledChunk { start: c.start, end: start, style: c.style };
        let mid = StyledChunk { start, end, style };

        let mut out: Vec<StyledChunk> = Vec::new();
        copy_chunk_range(&self.chunks, 0, idx, &mut out);
        out.push(before);
        out.push(mid);
        copy_chunk_range(&self.chunks, idx + 1, n, &mut out);

        proof {
            lemma_cover_split(self.chunks@, 0, text_len, idx as int);
            assert(self.chunks@.skip(idx as int).drop_first() =~= self.chunks@.skip(idx + 1));
            assert(self.chunks@.skip(idx as int)[0] == self.chunks@[idx as int]);
            assert(chunks_cover(self.chunks@.skip(idx + 1), c.end as int, text_len));

            let mids = seq![before, mid];
            assert(out@ =~= self.chunks@.take(idx as int) + mids + self.chunks@.skip(idx + 1));
            assert(chunks_cover(mids, c.start as int, c.end as int)) by {
                assert(chunks_cover(Seq::<StyledChunk>::empty(), c.end as int, c.end as int));
                assert(seq![mid].drop_first() =~= Seq::<StyledChunk>::empty());
                assert(chunks_cover(seq![mid], start as int, c.end as int));
                assert(mids.drop_first() =~= seq![mid]);
            }
            lemma_cover_append(mids, self.chunks@.skip(idx + 1), c.start as int, c.end as int, text_len);
            lemma_cover_append(
                self.chunks@.take(idx as int),
                mids + self.chunks@.skip(idx + 1),
                0,
                c.start as int,
                text_len,
            );
            assert(out@ =~= self.chunks@.take(idx as int) + (mids + self.chunks@.skip(idx + 1)));
        }

        self.chunks = out;
    }

    /// Cuts from the chunk at `idx` through the chunk at `jdx`, where the
    /// range ends strictly inside the latter: the chunks wholly overridden
    /// between the two are dropped, and the chunk around `end` keeps its
    /// right remainder.
    fn splice_across(&mut self, idx: usize, jdx: usize, start: usize, end: usize, style: Style)
        requires
            old(self).wf(),
            idx < old(self).runs().len(),
            jdx < old(self).runs().len(),
            old(self).runs()[idx as int].start < start < old(self).runs()[idx as int].end,
            old(self).runs()[jdx as int].start < end < old(self).runs()[jdx as int].end,
            start < end,
        ensures
            final(self).text() == old(self).text(),
            final(self).wf(),
            final(self).runs() == ({
                let c = old(self).runs()[idx as int];
                let d = old(self).runs()[jdx as int];
                old(self).runs().take(idx as int) + seq![
                    StyledChunk { start: c.start, end: start, style: c.style },
                    StyledChunk { start, end, style },
                    StyledChunk { start: end, end: d.end, style: d.style },
                ] + old(self).runs().skip(jdx as int + 1)
            }),
    {
        let ghost text_len = self.text().len() as int;
        let n = self.chunks.len();
        let c = self.chunks[idx];
        let d = self.chunks[jdx];
        let before = StyledChunk { start: c.start, end: start, style: c.style };
        let mid = StyledChunk { start, end, style };
        let after = StyledChunk { start: end, end: d.end, style: d.style };

        let mut out: Vec<StyledChunk> = Vec::new();
        copy_chunk_range(&self.chunks, 0, idx, &mut out);
        out.push(before);
        out.push(mid);
        out.push(after);
        copy_chunk_range(&self.chunks, jdx + 1, n, &mut out);

        proof {
            lemma_cover_split(self.chunks@, 0, text_len, idx as int);
            lemma_cover_split(self.chunks@, 0, text_len, jdx as int);
            assert(self.chunks@.skip(jdx as int).drop_first() =~= self.chunks@.skip(jdx + 1));
            assert(self.chunks@.skip(jdx as int)[0] == self.chunks@[jdx as int]);
            assert(chunks_cover(self.chunks@.skip(jdx + 1), d.end as int, text_len));

            let mids = seq![before, mid, after];
            assert(out@ =~= self.chunks@.take(idx as int) + mids + self.chunks@.skip(jdx + 1));
            assert(chunks_cover(mids, c.start as int, d.end as int)) by {
                assert(chunks_cover(Seq::<StyledChunk>::empty(), d.end as int, d.end as int));
                assert(seq![after].drop_first() =~= Seq::<StyledChunk>::empty());
                assert(chunks_cover(seq![after], end as int, d.end as int));
                assert(seq![mid, after].drop_first() =~= seq![after]);
                assert(chunks_cover(seq![mid, after], start as int, d.end as int));
                assert(mids.drop_first() =~= seq![mid, after]);
            }
            lemma_cover_append(mids, self.chunks@.skip(jdx + 1), c.start as int, d.end as int, text_len);
            lemma_cover_append(
                self.chunks@.take(idx as int),
                mids + self.chunks@.skip(jdx + 1),
                0,
                c.start as int,
                text_len,
            );
            assert(out@ =~= self.chunks@.take(idx as int) + (mids + self.chunks@.skip(jdx + 1)));
        }

        self.chunks = out;
    }

    /// Repaints the character range `[start, end)` with the given style by
    /// splitting the chunk in which `start` falls. A range whose start does
    /// not fall strictly inside a chunk — one aligned on an existing chunk
    /// boundary, or lying wholly outside every chunk — deliberately leaves
    /// the chunk list unmodified.
    pub fn style_range(&mut self, start: usize, end: usize, style: Style)
        requires
            old(self).wf(),
            has_strict_cover(old(self).runs(), start as int) ==> {
                let c = old(self).runs()[strict_cover_idx(old(self).runs(), start as int)];
                &&& start < end
                &&& (end <= c.end || has_strict_cover(old(self).runs(), end as int))
            },
        ensures
            final(self).text() == old(self).text(),
            final(self).wf(),
            !has_strict_cover(old(self).runs(), start as int) ==> final(self).runs() == old(
                self,
            ).runs(),
            has_strict_cover(old(self).runs(), start as int) ==> final(self).runs()
                == spliced_chunks(old(self).runs(), start, end, style),
    {
        let ghost text_len = self.text().len() as int;
        let idx_opt = find_strict_cover(&self.chunks, start);

        match idx_opt {
            None => {
            },
            Some(idx) => {
                proof {
                    assert(self.chunks@[idx as int].start < start < self.chunks@[idx as int].end);
                    assert(has_strict_cover(self.chunks@, start as int));
                    lemma_strict_cover_unique(self.chunks@, 0, text_len, start as int);
                    assert(idx as int == strict_cover_idx(self.chunks@, start as int));
                }

                let c = self.chunks[idx];

                if end < c.end {
                    self.splice_inner(idx, start, end, style);
                } else if end == c.end {
                    self.splice_to_end(idx, start, end, style);
                } else {
                    let jdx_opt = find_strict_cover(&self.chunks, end);

                    match jdx_opt {
                        None => {
                            proof {
                                assert(false);
                            }
                        },
                        Some(jdx) => {
                            proof {
                                assert(self.chunks@[jdx as int].start < end < self.chunks@[jdx
                                    as int].end);
                                assert(has_strict_cover(self.chunks@, end as int));
                                lemma_strict_cover_unique(self.chunks@, 0, text_len, end as int);
                                assert(jdx as int == strict_cover_idx(self.chunks@, end as int));
                            }

                            self.splice_across(idx, jdx, start, end, style);
                        },
                    }
                }
            },
        }
    }

    /// The styled pieces of the row, in order: each chunk's substring paired
    /// with its style. Their concatenation is exactly the row's text
    /// (`lemma_chunks_reconstruct_text`).
    pub fn iter_chunks(&self) -> (r: Vec<(String, Style)>)
        requires
            self.wf(),
        ensures
            r@.len() == self.runs().len(),
            forall|i: int|
                0 <= i < r@.len() ==> (#[trigger] r@[i]).0@ == self.text().subrange(
                    self.runs()[i].start as int,
                    self.runs()[i].end as int,
                ) && r@[i].1 == self.runs()[i].style,
    {
        proof {
            lemma_cover_index_facts(self.chunks@, 0, self.text().len() as int);
        }

        let mut r: Vec<(String, Style)> = Vec::new();
        let mut k: usize = 0;

        while k < self.chunks.len()
            invariant
                k <= self.chunks@.len(),
                r@.len() == k,
                forall|i: int|
                    0 <= i < self.chunks@.len() ==> 0 <= #[trigger] self.chunks@[i].start
                        <= self.chunks@[i].end <= self.text().len(),
                forall|i: int|
                    0 <= i < k ==> (#[trigger] r@[i]).0@ == self.text().subrange(
                        self.chunks@[i].start as int,
                        self.chunks@[i].end as int,
                    ) && r@[i].1 == self.chunks@[i].style,
            decreases self.chunks@.len() - k,
        {
            let c = self.chunks[k];
            let piece = self.content.as_str().substring_char(c.start, c.end).to_owned();

            r.push((piece, c.style));

            k = k + 1;
        }

        r
    }

    /// A new row over the character range `[start, end)` of this row's text:
    /// the boundary chunks are trimmed to the range, interior chunks pass
    /// through, and all positions are rebased to the new row's coordinates.
    pub fn slice(&self, start: usize, end: usize) -> (r: StyledContent)
        requires
            self.wf(),
            start <= end,
            end <= self.text().len(),
        ensures
            r.text() == self.text().subrange(start as int, end as int),
            r.runs() == sliced_chunks(self.runs(), start as int, end as int),
            r.wf(),
    {
        let content = self.content.as_str().substring_char(start, end).to_owned();
        let mut chunks: Vec<StyledChunk> = Vec::new();
        let mut k: usize = 0;

        proof {
            assert(self.chunks@.take(0) =~= Seq::<StyledChunk>::empty());
        }

        while k < self.chunks.len()
            invariant
                k <= self.chunks@.len(),
                start <= end,
                chunks@ == sliced_chunks(self.chunks@.take(k as int), start as int, end as int),
            decreases self.chunks@.len() - k,
        {
            let c = self.chunks[k];
            let lo = if c.start > start {
                c.start
            } else {
                start
            };
            let hi = if c.end < end {
                c.end
            } else {
                end
            };

            if lo < hi {
                chunks.push(StyledChunk { start: lo - start, end: hi - start, style: c.style });
            }

            proof {
                lemma_sliced_push(
                    self.chunks@.take(k as int),
                    self.chunks@[k as int],
                    start as int,
                    end as int,
                );
                assert(self.chunks@.take(k + 1) =~= self.chunks@.take(k as int).push(
                    self.chunks@[k as int],
                ));
                assert(chunks@ =~= sliced_chunks(self.chunks@.take(k as int), start as int, end
                    as int) + chunk_contrib(self.chunks@[k as int], start as int, end as int));
            }

            k = k + 1;
        }

        proof {
            assert(self.chunks@.take(self.chunks@.len() as int) =~= self.chunks@);
            lemma_sliced_cover(
                self.chunks@,
                0,
                self.text().len() as int,
                start as int,
                end as int,
            );
        }

        StyledContent { chunks, content }
    }

    /// Character length of the row's text.
    pub fn len(&self) -> (r: usize)
        ensures
            r == self.text().len(),
    {
        self.content.as_str().unicode_len()
    }
}

impl Clone for StyledContent {
    fn clone(&self) -> (r: StyledContent)
        ensures
            r.text() == self.text(),
            r.runs() == self.runs(),
    {
        let mut chunks: Vec<StyledChunk> = Vec::new();
        let mut i: usize = 0;

        while i < self.chunks.len()
            invariant
                i <= self.chunks@.len(),
                chunks@ == self.chunks@.take(i as int),
            decreases self.chunks@.len() - i,
        {
            chunks.push(self.chunks[i]);

            proof {
                assert(chunks@ =~= self.chunks@.take(i + 1));
            }

            i = i + 1;
        }

        proof {
            assert(chunks@ =~= self.chunks@);
        }

        StyledContent { chunks, content: self.content.clone() }
    }
}

} // verus!
