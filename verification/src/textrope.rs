use vstd::prelude::*;

verus! {

/// The text a rope holds, as a character sequence. Naming the contents lets
/// every rope operation state exactly what it reads or leaves behind.
pub uninterp spec fn rope_chars(r: ropey::Rope) -> Seq<char>;

#[verifier::external_type_specification]
#[verifier::external_body]
pub struct ExRope(ropey::Rope);

/// A line break ends at position `i`: one of the break characters the rope
/// recognises stands there, with a carriage return counting only when no
/// line feed follows it (a CRLF pair is one break, at the line feed).
pub open spec fn is_line_break_at(s: Seq<char>, i: int) -> bool {
    &&& 0 <= i < s.len()
    &&& {
        ||| s[i] == '\n'
        ||| s[i] == '\u{000b}'
        ||| s[i] == '\u{000c}'
        ||| s[i] == '\u{0085}'
        ||| s[i] == '\u{2028}'
        ||| s[i] == '\u{2029}'
        ||| (s[i] == '\r' && (i + 1 >= s.len() || s[i + 1] != '\n'))
    }
}

/// How many line breaks end before position `upto`.
pub open spec fn count_breaks_up_to(s: Seq<char>, upto: int) -> nat
    decreases upto,
{
    if upto <= 0 {
        0
    } else {
        count_breaks_up_to(s, upto - 1) + (if is_line_break_at(s, upto - 1) {
            1nat
        } else {
            0nat
        })
    }
}

/// The number of lines in the text: one more than its line breaks.
pub open spec fn line_count(s: Seq<char>) -> nat {
    count_breaks_up_to(s, s.len() as int) + 1
}

/// `pos` is the character index where line `line` starts: exactly `line`
/// breaks end before it and it sits at the text's start or right after a
/// break. The one line index past the last maps to the text's end.
pub open spec fn is_line_start(s: Seq<char>, line: int, pos: int) -> bool {
    if line < line_count(s) {
        &&& 0 <= pos <= s.len()
        &&& count_breaks_up_to(s, pos) == line
        &&& (pos == 0 || is_line_break_at(s, pos - 1))
    } else {
        pos == s.len()
    }
}

/// The start of line `line` (unique, by `lemma_line_start_unique`).
pub open spec fn spec_line_start(s: Seq<char>, line: int) -> int {
    choose|pos: int| is_line_start(s, line, pos)
}

/// The characters of line `line`, including its terminating break.
pub open spec fn spec_line_text(s: Seq<char>, line: int) -> Seq<char> {
    s.subrange(spec_line_start(s, line), spec_line_start(s, line + 1))
}

/// The break count never decreases along the text.
pub proof fn lemma_count_breaks_monotone(s: Seq<char>, a: int, b: int)
    requires
        a <= b,
    ensures
        count_breaks_up_to(s, a) <= count_breaks_up_to(s, b),
    decreases b - a,
{
    if a < b {
        lemma_count_breaks_monotone(s, a, b - 1);
    }
}

/// Every line before one past the last has a break ending it: at or after
/// any position with `c` breaks before it, a further break stands, as long
/// as the text holds more than `c` breaks in all.
pub proof fn lemma_next_break(s: Seq<char>, p: int, c: int)
    requires
        0 <= p <= s.len(),
        count_breaks_up_to(s, p) == c,
        c + 1 <= count_breaks_up_to(s, s.len() as int),
    ensures
        exists|q: int|
            p <= q < s.len() && #[trigger] is_line_break_at(s, q) && count_breaks_up_to(s, q) == c,
    decreases s.len() - p,
{
    if p == s.len() {
        assert(false);
    } else if is_line_break_at(s, p) {
        assert(count_breaks_up_to(s, p + 1) == c + 1);
        assert(p <= p < s.len() && is_line_break_at(s, p) && count_breaks_up_to(s, p) == c);
    } else {
        assert(count_breaks_up_to(s, p + 1) == c);
        lemma_next_break(s, p + 1, c);
    }
}

/// Every valid line index has a start position.
pub proof fn lemma_line_start_exists(s: Seq<char>, line: int)
    requires
        0 <= line <= line_count(s),
    ensures
        is_line_start(s, line, spec_line_start(s, line)),
    decreases line,
{
    if line == line_count(s) {
        assert(is_line_start(s, line, s.len() as int));
    } else if line == 0 {
        assert(count_breaks_up_to(s, 0) == 0);
        assert(is_line_start(s, 0, 0));
    } else {
        lemma_line_start_exists(s, line - 1);
        let p = spec_line_start(s, line - 1);
        assert(is_line_start(s, line - 1, p));
        lemma_next_break(s, p, line - 1);
        let q = choose|q: int|
            p <= q < s.len() && #[trigger] is_line_break_at(s, q) && count_breaks_up_to(s, q)
                == line - 1;
        assert(count_breaks_up_to(s, q + 1) == line);
        assert(is_line_start(s, line, q + 1));
    }
}

/// A line has at most one start position.
pub proof fn lemma_line_start_unique(s: Seq<char>, line: int, p1: int, p2: int)
    requires
        is_line_start(s, line, p1),
        is_line_start(s, line, p2),
    ensures
        p1 == p2,
{
    if line < line_count(s) {
        if p1 < p2 {
            assert(is_line_break_at(s, p2 - 1));
            lemma_count_breaks_monotone(s, p1, p2 - 1);
            assert(count_breaks_up_to(s, p2) == count_breaks_up_to(s, p2 - 1) + 1);
        }
        if p2 < p1 {
            assert(is_line_break_at(s, p1 - 1));
            lemma_count_breaks_monotone(s, p2, p1 - 1);
            assert(count_breaks_up_to(s, p1) == count_breaks_up_to(s, p1 - 1) + 1);
        }
    }
}

/// Relies on `ropey::Rope::new`: a fresh rope holds no text.
#[verifier::external_body]
pub(crate) fn rope_new() -> (r: ropey::Rope)
    ensures
        rope_chars(r) == Seq::<char>::empty(),
{
    ropey::Rope::new()
}

/// Relies on `ropey::Rope::from_str`: the rope holds exactly the given
/// text.
#[verifier::external_body]
pub(crate) fn rope_from_str(text: &str) -> (r: ropey::Rope)
    ensures
        rope_chars(r) == text@,
{
    ropey::Rope::from_str(text)
}

/// Relies on `ropey::Rope::len_chars`: the rope's character count.
#[verifier::external_body]
pub(crate) fn rope_len_chars(r: &ropey::Rope) -> (n: usize)
    ensures
        n == rope_chars(*r).len(),
{
    r.len_chars()
}

/// Relies on `ropey::Rope::len_lines`: one more than the text's line-break
/// count.
#[verifier::external_body]
pub(crate) fn rope_len_lines(r: &ropey::Rope) -> (n: usize)
    ensures
        n == line_count(rope_chars(*r)),
{
    r.len_lines()
}

/// Relies on `ropey::Rope::line_to_char`: the character index where the
/// line starts; the one line index past the last maps to the text's end.
#[verifier::external_body]
pub(crate) fn rope_line_to_char(r: &ropey::Rope, line: usize) -> (pos: usize)
    requires
        line <= line_count(rope_chars(*r)),
    ensures
        is_line_start(rope_chars(*r), line as int, pos as int),
{
    r.line_to_char(line)
}

/// Relies on `ropey::Rope::try_line_to_char`: as `line_to_char`, failing
/// instead of panicking on a line index past the allowed range.
#[verifier::external_body]
pub(crate) fn rope_try_line_to_char(r: &ropey::Rope, line: usize) -> (pos: Option<usize>)
    ensures
        match pos {
            Some(p) => line <= line_count(rope_chars(*r)) && is_line_start(
                rope_chars(*r),
                line as int,
                p as int,
            ),
            None => line > line_count(rope_chars(*r)),
        },
{
    match r.try_line_to_char(line) {
        Ok(p) => Some(p),
        Err(_) => None,
    }
}

/// Relies on `ropey::Rope::line`: the line's characters, including its
/// terminating break, as a string.
#[verifier::external_body]
pub(crate) fn rope_line_string(r: &ropey::Rope, line: usize) -> (text: String)
    requires
        line < line_count(rope_chars(*r)),
    ensures
        text@ == spec_line_text(rope_chars(*r), line as int),
{
    r.line(line).to_string()
}

/// Relies on `ropey::Rope::slice` over a char range: the characters between
/// the two indices, as a string.
#[verifier::external_body]
pub(crate) fn rope_slice_string(r: &ropey::Rope, start: usize, end: usize) -> (text: String)
    requires
        start <= end <= rope_chars(*r).len(),
    ensures
        text@ == rope_chars(*r).subrange(start as int, end as int),
{
    r.slice(start..end).to_string()
}

/// Relies on the rope's `Display` impl: the whole text as a string.
#[verifier::external_body]
pub(crate) fn rope_to_string(r: &ropey::Rope) -> (text: String)
    ensures
        text@ == rope_chars(*r),
{
    r.to_string()
}

/// Relies on `ropey::Rope::insert_char`: the character is placed at the
/// given character index.
#[verifier::external_body]
pub(crate) fn rope_insert_char(r: &mut ropey::Rope, idx: usize, c: char)
    requires
        idx <= rope_chars(*old(r)).len(),
    ensures
        rope_chars(*final(r)) == rope_chars(*old(r)).subrange(0, idx as int) + seq![c]
            + rope_chars(*old(r)).subrange(idx as int, rope_chars(*old(r)).len() as int),
{
    r.insert_char(idx, c)
}

/// Relies on `ropey::Rope::insert`: the text is placed at the given
/// character index.
#[verifier::external_body]
pub(crate) fn rope_insert_str(r: &mut ropey::Rope, idx: usize, text: &str)
    requires
        idx <= rope_chars(*old(r)).len(),
    ensures
        rope_chars(*final(r)) == rope_chars(*old(r)).subrange(0, idx as int) + text@ + rope_chars(
            *old(r),
        ).subrange(idx as int, rope_chars(*old(r)).len() as int),
{
    r.insert(idx, text)
}

/// Relies on `ropey::Rope::remove` over a char range: the characters
/// between the two indices disappear.
#[verifier::external_body]
pub(crate) fn rope_remove(r: &mut ropey::Rope, start: usize, end: usize)
    requires
        start <= end <= rope_chars(*old(r)).len(),
    ensures
        rope_chars(*final(r)) == rope_chars(*old(r)).subrange(0, start as int) + rope_chars(
            *old(r),
        ).subrange(end as int, rope_chars(*old(r)).len() as int),
{
    r.remove(start..end)
}

} // verus!
