//! Positions in the source program: byte spans, the source text with the
//! queries that the lexer answers about it (the text of a span, the lines
//! around it, its line and column), and the caret highlight that error
//! messages show under an offending piece of code.
use lrlex::{DefaultLexeme, LRNonStreamingLexer};
use lrpar::NonStreamingLexer;
use vstd::prelude::*;
use vstd::utf8::{decode_utf8, encode_utf8, is_char_boundary};

verus! {

/// A byte range `start..end` of the source text.
#[derive(Clone, Copy, Debug)]
pub struct Span {
    start: usize,
    end: usize,
}

impl Span {
    #[verifier::type_invariant]
    spec fn ordered(self) -> bool {
        self.start <= self.end
    }

    pub closed spec fn spec_start(&self) -> usize {
        self.start
    }

    pub closed spec fn spec_end(&self) -> usize {
        self.end
    }

    /// The span from byte `start` to byte `end`; the start may not come
    /// after the end.
    pub fn new(start: usize, end: usize) -> (s: Span)
        requires
            start <= end,
        ensures
            s.start() == start,
            s.end() == end,
    {
        Span { start, end }
    }

    /// Byte offset of the start of the span.
    #[verifier::when_used_as_spec(spec_start)]
    pub fn start(&self) -> (r: usize)
        ensures
            r == self.start(),
    {
        self.start
    }

    /// Byte offset of the end of the span.
    #[verifier::when_used_as_spec(spec_end)]
    pub fn end(&self) -> (r: usize)
        ensures
            r == self.end(),
    {
        self.end
    }

    /// Length of the span in bytes.
    pub fn len(&self) -> (r: usize)
        ensures
            r == self.end() - self.start(),
    {
        proof { use_type_invariant(self); }
        self.end - self.start
    }

    /// Whether the span covers no byte.
    pub fn is_empty(&self) -> (r: bool)
        ensures
            r == (self.start() == self.end()),
    {
        proof { use_type_invariant(self); }
        self.end == self.start
    }

}

/// The byte offsets at which a line starts after a newline: one past each
/// `\n` of the text, in order.
pub open spec fn newline_starts(b: Seq<u8>) -> Seq<usize>
    decreases b.len(),
{
    if b.len() == 0 {
        seq![]
    } else if b.last() == 10u8 {
        newline_starts(b.drop_last()).push(b.len() as usize)
    } else {
        newline_starts(b.drop_last())
    }
}

/// How many `\n` bytes the text holds.
pub open spec fn newline_count(b: Seq<u8>) -> nat
    decreases b.len(),
{
    if b.len() == 0 {
        0
    } else {
        newline_count(b.drop_last()) + if b.last() == 10u8 { 1nat } else { 0nat }
    }
}

/// The offset at which the line holding byte offset `i` starts: just past
/// the last `\n` before `i`, or 0.
pub open spec fn line_start(b: Seq<u8>, i: int) -> int
    decreases i,
{
    if i <= 0 {
        0
    } else if b[i - 1] == 10u8 {
        i
    } else {
        line_start(b, i - 1)
    }
}

/// The offset of the first `\n` at or after `i`, or the end of the text.
pub open spec fn line_end(b: Seq<u8>, i: int) -> int
    decreases b.len() - i,
{
    if i >= b.len() {
        b.len() as int
    } else if i >= 0 && b[i] == 10u8 {
        i
    } else {
        line_end(b, i + 1)
    }
}

/// The 1-based line of byte offset `i`.
pub open spec fn line_number(b: Seq<u8>, i: int) -> nat {
    newline_count(b.take(i)) + 1
}

/// The 1-based column of byte offset `i`, counted in characters.
pub open spec fn column_number(b: Seq<u8>, i: int) -> nat {
    decode_utf8(b.subrange(line_start(b, i), i)).len() + 1
}

/// The line of the start of a span.
pub open spec fn start_line(src: Seq<char>, s: Span) -> usize {
    line_number(encode_utf8(src), s.start() as int) as usize
}

/// The column of the start of a span.
pub open spec fn start_col(src: Seq<char>, s: Span) -> usize {
    column_number(encode_utf8(src), s.start() as int) as usize
}

/// The text of the span.
pub open spec fn span_text(src: Seq<char>, s: Span) -> Seq<char> {
    decode_utf8(encode_utf8(src).subrange(s.start() as int, s.end() as int))
}

/// All the text on the lines that the span starts and ends on, without the
/// line break that ends the last of them.
pub open spec fn span_lines_text(src: Seq<char>, s: Span) -> Seq<char> {
    let b = encode_utf8(src);
    decode_utf8(b.subrange(line_start(b, s.start() as int), line_end(b, s.end() as int)))
}

/// The lines of a text as `str::lines` gives them: split at each `\n`, a
/// `\r` right before the `\n` dropped, and no empty line after a final `\n`.
pub open spec fn split_lines(s: Seq<char>) -> Seq<Seq<char>> {
    let pieces = newline_pieces(s);
    let ended = pieces.drop_last().map_values(|l: Seq<char>| strip_cr(l));
    if pieces.last().len() == 0 {
        ended
    } else {
        ended.push(pieces.last())
    }
}

/// The pieces of a text between its `\n`s (one more piece than there are
/// `\n`s).
pub open spec fn newline_pieces(s: Seq<char>) -> Seq<Seq<char>>
    decreases s.len(),
{
    if s.len() == 0 {
        seq![Seq::<char>::empty()]
    } else {
        let p = newline_pieces(s.drop_last());
        if s.last() == '\n' {
            p.push(Seq::<char>::empty())
        } else {
            p.update(p.len() - 1, p.last().push(s.last()))
        }
    }
}

pub open spec fn strip_cr(l: Seq<char>) -> Seq<char> {
    if l.len() > 0 && l.last() == '\r' {
        l.drop_last()
    } else {
        l
    }
}

/// `n` copies of a character (none when `n` is not positive).
pub open spec fn repeat_char(c: char, n: int) -> Seq<char> {
    Seq::new(if n > 0 { n as nat } else { 0 }, |_i: int| c)
}

/// Length in bytes of a line.
pub open spec fn byte_len(l: Seq<char>) -> int {
    encode_utf8(l).len() as int
}

/// The lines after the first of a highlight: each line with carets under
/// all of it (and one more for its line break), the last one only up to
/// the end column.
pub open spec fn highlight_rest(lines: Seq<Seq<char>>, end_col: int) -> Seq<char>
    decreases lines.len(),
{
    if lines.len() == 0 {
        seq![]
    } else {
        let width = if lines.len() > 1 { byte_len(lines[0]) + 1 } else { end_col };
        seq!['\n'] + lines[0] + repeat_char('^', width) + highlight_rest(
            lines.drop_first(),
            end_col,
        )
    }
}

/// The highlight of a stretch of code: its first line, then carets from
/// the start column to the end of that line (or to the end column, on a
/// one-line stretch), then each further line with its carets.
pub open spec fn highlight_text(lines: Seq<Seq<char>>, start_col: int, end_col: int) -> Seq<char> {
    let first = if lines.len() > 0 { lines[0] } else { Seq::<char>::empty() };
    let end_first = if lines.len() > 1 { byte_len(first) + 1 } else { end_col };
    let rest = if lines.len() > 0 { highlight_rest(lines.drop_first(), end_col) } else { Seq::<char>::empty() };
    first + seq!['\n'] + repeat_char(' ', start_col - 1) + repeat_char('^', end_first - start_col) + rest
}

/// The highlight that error messages show under a span of the source.
pub open spec fn span_highlight(src: Seq<char>, s: Span) -> Seq<char> {
    let b = encode_utf8(src);
    highlight_text(
        split_lines(span_lines_text(src, s)),
        column_number(b, s.start() as int) as int,
        column_number(b, s.end() as int) as int,
    )
}

/// Whether a span can be asked of the text: it ends within the text, both
/// its ends fall on character boundaries, and, when it ends just past a line
/// break, another line break follows (the lexer cannot find the end of the
/// lines around such a span otherwise).
pub open spec fn span_fits(src: Seq<char>, s: Span) -> bool {
    let b = encode_utf8(src);
    &&& s.end() <= b.len()
    &&& is_char_boundary(b, s.start() as int)
    &&& is_char_boundary(b, s.end() as int)
    &&& (s.start() < s.end() && b[s.end() - 1] == 10u8) ==> line_end(b, s.end() as int) < b.len()
}

/// Whether the stretch of bytes from `start` to `end` could be a span that
/// fits the source (see `span_fits`).
pub open spec fn range_fits(src: Seq<char>, start: int, end: int) -> bool {
    let b = encode_utf8(src);
    &&& 0 <= start <= end <= b.len()
    &&& is_char_boundary(b, start)
    &&& is_char_boundary(b, end)
    &&& (start < end && b[end - 1] == 10u8) ==> line_end(b, end) < b.len()
}

/// The text of a span, as lrlex's `NonStreamingLexer::span_str` hands it
/// out from an `LRNonStreamingLexer` over `text`. Claimed: its bytes are
/// those of `text` from `start` to `end` (the call panics when a bound is
/// past the end or inside a character, which `requires` rules out).
#[verifier::external_body]
fn lexer_span_str(text: &str, start: usize, end: usize) -> (r: String)
    requires
        start <= end <= encode_utf8(text@).len(),
        is_char_boundary(encode_utf8(text@), start as int),
        is_char_boundary(encode_utf8(text@), end as int),
    ensures
        encode_utf8(r@) == encode_utf8(text@).subrange(start as int, end as int),
{
    let lexer: LRNonStreamingLexer<DefaultLexeme<u32>, u32> =
        LRNonStreamingLexer::new(text, Vec::new(), Vec::new());
    lexer.span_str(lrpar::Span::new(start, end)).to_string()
}

/// The lines around a span, as lrlex's `NonStreamingLexer::span_lines_str`
/// hands them out from an `LRNonStreamingLexer` over `text` that knows the
/// line starts `newlines`. Claimed: its bytes run from the start of the
/// line holding `start` to the first `\n` at or after `end` (or the end of
/// the text). When `end` is just past a `\n` the lexer looks for the line
/// break after it and panics if there is none; `requires` rules that out.
#[verifier::external_body]
fn lexer_span_lines_str(text: &str, newlines: &Vec<usize>, start: usize, end: usize) -> (r: String)
    requires
        start <= end <= encode_utf8(text@).len(),
        newlines@ == newline_starts(encode_utf8(text@)),
        (start < end && encode_utf8(text@)[end - 1] == 10u8) ==> line_end(encode_utf8(text@), end as int)
            < encode_utf8(text@).len(),
    ensures
        encode_utf8(r@) == encode_utf8(text@).subrange(
            line_start(encode_utf8(text@), start as int),
            line_end(encode_utf8(text@), end as int),
        ),
{
    let lexer: LRNonStreamingLexer<DefaultLexeme<u32>, u32> =
        LRNonStreamingLexer::new(text, Vec::new(), newlines.clone());
    lexer.span_lines_str(lrpar::Span::new(start, end)).to_string()
}

/// The line and column of both ends of a span, as lrlex's
/// `NonStreamingLexer::line_col` computes them on an `LRNonStreamingLexer`
/// over `text` that knows the line starts `newlines`. Claimed: lines count
/// from 1 and are one more than the `\n`s before the offset; columns count
/// the characters from the start of the line, from 1.
#[verifier::external_body]
fn lexer_line_col(text: &str, newlines: &Vec<usize>, start: usize, end: usize) -> (r: ((usize, usize), (usize, usize)))
    requires
        start <= end <= encode_utf8(text@).len(),
        is_char_boundary(encode_utf8(text@), start as int),
        is_char_boundary(encode_utf8(text@), end as int),
        newlines@ == newline_starts(encode_utf8(text@)),
    ensures
        r.0.0 == line_number(encode_utf8(text@), start as int),
        r.0.1 == column_number(encode_utf8(text@), start as int),
        r.1.0 == line_number(encode_utf8(text@), end as int),
        r.1.1 == column_number(encode_utf8(text@), end as int),
{
    let lexer: LRNonStreamingLexer<DefaultLexeme<u32>, u32> =
        LRNonStreamingLexer::new(text, Vec::new(), newlines.clone());
    lexer.line_col(lrpar::Span::new(start, end))
}

/// The source program, with the positions of its line breaks.
pub struct SourceText {
    text: String,
    newlines: Vec<usize>,
}

impl View for SourceText {
    type V = Seq<char>;

    closed spec fn view(&self) -> Seq<char> {
        self.text@
    }
}

impl SourceText {
    #[verifier::type_invariant]
    spec fn indexed(self) -> bool {
        &&& self.newlines@ == newline_starts(encode_utf8(self.text@))
        &&& encode_utf8(self.text@).len() < usize::MAX
    }

    /// The source text of a program, which must be shorter than the
    /// largest byte offset.
    pub fn new(text: String) -> (src: SourceText)
        requires
            encode_utf8(text@).len() < usize::MAX,
        ensures
            src@ == text@,
    {
        let bytes = text.as_str().as_bytes();
        let mut newlines: Vec<usize> = Vec::new();
        let mut i: usize = 0;
        while i < bytes.len()
            invariant
                bytes@ == encode_utf8(text@),
                i <= bytes@.len(),
                newlines@ == newline_starts(bytes@.take(i as int)),
            decreases bytes@.len() - i,
        {
            proof {
                assert(bytes@.take(i + 1).drop_last() =~= bytes@.take(i as int));
            }
            if bytes[i] == 10u8 {
                newlines.push(i + 1);
            }
            i = i + 1;
        }
        proof {
            assert(bytes@.take(i as int) =~= bytes@);
        }
        SourceText { text, newlines }
    }

    /// The text of a span.
    pub fn span_str(&self, span: Span) -> (r: String)
        requires
            span_fits(self@, span),
        ensures
            r@ == span_text(self@, span),
    {
        proof { use_type_invariant(&span); }
        let r = lexer_span_str(self.text.as_str(), span.start(), span.end());
        proof {
            vstd::utf8::encode_utf8_decode_utf8(r@);
        }
        r
    }

    /// All the text on the lines that a span starts and ends on.
    pub fn span_lines_str(&self, span: Span) -> (r: String)
        requires
            span_fits(self@, span),
        ensures
            r@ == span_lines_text(self@, span),
            encode_utf8(r@) == encode_utf8(self@).subrange(
                line_start(encode_utf8(self@), span.start() as int),
                line_end(encode_utf8(self@), span.end() as int),
            ),
    {
        proof {
            use_type_invariant(&span);
            use_type_invariant(self);
        }
        let r = lexer_span_lines_str(self.text.as_str(), &self.newlines, span.start(), span.end());
        proof {
            vstd::utf8::encode_utf8_decode_utf8(r@);
        }
        r
    }

    /// The line and column (in characters, both from 1) at which a span
    /// starts and ends.
    pub fn line_col(&self, span: Span) -> (r: ((usize, usize), (usize, usize)))
        requires
            span_fits(self@, span),
        ensures
            r.0.0 == line_number(encode_utf8(self@), span.start() as int),
            r.0.1 == column_number(encode_utf8(self@), span.start() as int),
            r.1.0 == line_number(encode_utf8(self@), span.end() as int),
            r.1.1 == column_number(encode_utf8(self@), span.end() as int),
    {
        proof {
            use_type_invariant(&span);
            use_type_invariant(self);
        }
        lexer_line_col(self.text.as_str(), &self.newlines, span.start(), span.end())
    }
}

proof fn lemma_line_start_bounds(b: Seq<u8>, i: int)
    requires
        0 <= i <= b.len(),
    ensures
        0 <= line_start(b, i) <= i,
    decreases i,
{
    if i > 0 && b[i - 1] != 10u8 {
        lemma_line_start_bounds(b, i - 1);
    }
}

proof fn lemma_line_end_bounds(b: Seq<u8>, i: int)
    requires
        0 <= i <= b.len(),
    ensures
        i <= line_end(b, i) <= b.len(),
    decreases b.len() - i,
{
    if i < b.len() && b[i] != 10u8 {
        lemma_line_end_bounds(b, i + 1);
    }
}

/// The lines around a span lie within the text.
pub proof fn lemma_line_bounds(b: Seq<u8>, i: int, j: int)
    requires
        0 <= i <= j <= b.len(),
    ensures
        0 <= line_start(b, i) <= i,
        j <= line_end(b, j) <= b.len(),
{
    lemma_line_start_bounds(b, i);
    lemma_line_end_bounds(b, j);
}

/// Encoding a concatenation encodes each part in turn.
pub proof fn lemma_encode_concat(a: Seq<char>, b: Seq<char>)
    ensures
        encode_utf8(a + b) == encode_utf8(a) + encode_utf8(b),
    decreases a.len(),
{
    if a.len() == 0 {
        assert(a + b =~= b);
        assert(encode_utf8(a) + encode_utf8(b) =~= encode_utf8(b));
    } else {
        assert((a + b).drop_first() =~= a.drop_first() + b);
        lemma_encode_concat(a.drop_first(), b);
        assert(encode_utf8(a + b) =~= encode_utf8(a) + encode_utf8(b));
    }
}

/// A piece of a text takes no more bytes than the whole text.
pub proof fn lemma_encode_subrange_len(s: Seq<char>, i: int, j: int)
    requires
        0 <= i <= j <= s.len(),
    ensures
        encode_utf8(s.subrange(i, j)).len() <= encode_utf8(s).len(),
{
    let pre = s.take(i);
    let mid = s.subrange(i, j);
    let post = s.skip(j);
    assert(s =~= pre + mid + post);
    lemma_encode_concat(pre + mid, post);
    lemma_encode_concat(pre, mid);
}

/// The views of a list of strings.
pub open spec fn string_views(v: Seq<String>) -> Seq<Seq<char>> {
    v.map_values(|l: String| l@)
}

/// Splits a text into its lines, as `str::lines` does.
fn split_lines_exec(s: &str) -> (lines: Vec<String>)
    ensures
        string_views(lines@) == split_lines(s@),
        forall|k: int| 0 <= k < lines@.len() ==> encode_utf8(#[trigger] lines@[k]@).len() <= encode_utf8(s@).len(),
{
    let n = s.unicode_len();
    let mut lines: Vec<String> = Vec::new();
    let ghost mut raw: Seq<Seq<char>> = seq![];
    let mut piece_start: usize = 0;
    let mut i: usize = 0;
    assert(s@.take(0) =~= Seq::<char>::empty());
    assert(s@.subrange(0, 0) =~= Seq::<char>::empty());
    while i < n
        invariant
            n == s@.len(),
            piece_start <= i <= n,
            raw.len() == lines@.len(),
            forall|k: int| 0 <= k < raw.len() ==> #[trigger] lines@[k]@ == strip_cr(raw[k]),
            forall|k: int| 0 <= k < lines@.len() ==> encode_utf8(#[trigger] lines@[k]@).len() <= encode_utf8(s@).len(),
            newline_pieces(s@.take(i as int)) == raw.push(s@.subrange(piece_start as int, i as int)),
        decreases n - i,
    {
        let c = s.get_char(i);
        proof {
            assert(s@.take(i + 1).drop_last() =~= s@.take(i as int));
            assert(s@.take(i + 1).last() == c);
        }
        if c == '\n' {
            let piece_end = if i > piece_start && s.get_char(i - 1) == '\r' { i - 1 } else { i };
            let piece = String::from_str(s.substring_char(piece_start, piece_end));
            proof {
                let whole = s@.subrange(piece_start as int, i as int);
                if piece_end < i {
                    assert(whole.drop_last() =~= s@.subrange(piece_start as int, piece_end as int));
                } else {
                    assert(whole =~= s@.subrange(piece_start as int, piece_end as int));
                }
                assert(piece@ == strip_cr(whole));
                lemma_encode_subrange_len(s@, piece_start as int, piece_end as int);
                raw = raw.push(whole);
                assert(s@.subrange(i + 1, i + 1) =~= Seq::<char>::empty());
            }
            lines.push(piece);
            piece_start = i + 1;
        } else {
            proof {
                assert(s@.subrange(piece_start as int, i + 1) =~= s@.subrange(piece_start as int, i as int).push(c));
                assert(raw.push(s@.subrange(piece_start as int, i as int)).update(raw.len() as int, s@.subrange(piece_start as int, i + 1))
                    =~= raw.push(s@.subrange(piece_start as int, i + 1)));
            }
        }
        i = i + 1;
    }
    proof {
        assert(s@.take(n as int) =~= s@);
    }
    let last = String::from_str(s.substring_char(piece_start, n));
    proof {
        let pieces = newline_pieces(s@);
        assert(pieces.drop_last() =~= raw);
        assert(pieces.last() == last@);
        assert(string_views(lines@) =~= raw.map_values(|l: Seq<char>| strip_cr(l)));
    }
    proof { lemma_encode_subrange_len(s@, piece_start as int, n as int); }
    if piece_start < n {
        lines.push(last);
        proof {
            assert(string_views(lines@) =~= raw.map_values(|l: Seq<char>| strip_cr(l)).push(last@));
        }
    }
    lines
}

/// Appends `n` copies of the one-character text `c`.
fn push_repeat(out: &mut String, c: &str, n: usize, Ghost(ch): Ghost<char>)
    requires
        c@ == seq![ch],
    ensures
        final(out)@ == old(out)@ + repeat_char(ch, n as int),
{
    let mut k: usize = 0;
    while k < n
        invariant
            c@ == seq![ch],
            k <= n,
            out@ == old(out)@ + repeat_char(ch, k as int),
        decreases n - k,
    {
        out.append(c);
        k = k + 1;
        assert(out@ =~= old(out)@ + repeat_char(ch, k as int));
    }
}

/// The caret highlight of a span of the source.
pub(crate) fn span_highlight_exec(span: Span, src: &SourceText) -> (r: String)
    requires
        span_fits(src@, span),
    ensures
        r@ == span_highlight(src@, span),
{
    let ((_start_line, start_column), (_end_line, end_column)) = src.line_col(span);
    let lines_text = src.span_lines_str(span);
    let lines = split_lines_exec(lines_text.as_str());
    let ghost views = string_views(lines@);
    proof {
        use_type_invariant(src);
        use_type_invariant(&span);
        let b = encode_utf8(src@);
        assert(encode_utf8(lines_text@).len() < usize::MAX) by {
            let lo = line_start(b, span.start() as int);
            let hi = line_end(b, span.end() as int);
            lemma_line_bounds(b, span.start() as int, span.end() as int);
        }
    }
    proof {
        reveal_strlit("\n");
        reveal_strlit(" ");
        reveal_strlit("^");
        assert(" "@ =~= seq![' ']);
        assert("^"@ =~= seq!['^']);
        assert("\n"@ =~= seq!['\n']);
        if lines@.len() > 0 {
            assert(views[0] == lines@[0]@);
        }
    }
    let ghost sc = start_column as int;
    let ghost ec = end_column as int;
    let ghost first = if views.len() > 0 { views[0] } else { Seq::<char>::empty() };
    let ghost end_first = if views.len() > 1 { byte_len(first) + 1 } else { ec };
    let mut output = String::new();
    if lines.len() > 0 {
        output.append(lines[0].as_str());
    }
    output.append("\n");
    assert(output@ =~= first + seq!['\n']);
    push_repeat(&mut output, " ", start_column - 1, Ghost(' '));
    let ghost with_spaces = output@;
    let carets = if lines.len() > 1 {
        let first_len = lines[0].as_str().len();
        assert(first_len == byte_len(first));
        if first_len >= start_column { first_len - start_column + 1 } else { 0 }
    } else {
        if end_column > start_column { end_column - start_column } else { 0 }
    };
    assert(repeat_char('^', carets as int) =~= repeat_char('^', end_first - sc));
    push_repeat(&mut output, "^", carets, Ghost('^'));
    assert(output@ =~= first + seq!['\n'] + repeat_char(' ', sc - 1) + repeat_char('^', end_first - sc));
    if lines.len() > 0 {
        let mut k: usize = 1;
        while k < lines.len()
            invariant
                views == string_views(lines@),
                "^"@ == seq!['^'],
                "\n"@ == seq!['\n'],
                1 <= k <= lines@.len(),
                encode_utf8(lines_text@).len() < usize::MAX,
                forall|j: int| 0 <= j < lines@.len() ==> encode_utf8(#[trigger] lines@[j]@).len() <= encode_utf8(lines_text@).len(),
                ec == end_column,
                highlight_text(views, sc, ec) == output@ + highlight_rest(views.skip(k as int), ec),
            decreases lines@.len() - k,
        {
            let ghost before = output@;
            output.append("\n");
            output.append(lines[k].as_str());
            let ghost with_line = output@;
            if k + 1 < lines.len() {
                let len_k = lines[k].as_str().len();
                push_repeat(&mut output, "^", len_k, Ghost('^'));
                output.append("^");
                assert(output@ =~= with_line + repeat_char('^', len_k + 1));
                assert(len_k == byte_len(lines@[k as int]@));
            } else {
                push_repeat(&mut output, "^", end_column, Ghost('^'));
            }
            proof {
                let tail = views.skip(k as int);
                assert(tail[0] == lines@[k as int]@);
                assert(tail.drop_first() =~= views.skip(k + 1));
                let width = if tail.len() > 1 { byte_len(tail[0]) + 1 } else { ec };
                assert(output@ =~= before + seq!['\n'] + tail[0] + repeat_char('^', width));
            }
            k = k + 1;
        }
        assert(views.skip(k as int) =~= Seq::<Seq<char>>::empty());
        assert(views.drop_first() =~= views.skip(1));
    }
    output
}

} // verus!

verus! {

/// Where a span starts, as errors report it: its line, its column and its
/// highlight.
pub(crate) fn locate(span: Span, src: &SourceText) -> (r: (usize, usize, String))
    requires
        span_fits(src@, span),
    ensures
        r.0 == start_line(src@, span),
        r.1 == start_col(src@, span),
        r.2@ == span_highlight(src@, span),
{
    let ((line, col), (_, _)) = src.line_col(span);
    (line, col, span_highlight_exec(span, src))
}


/// Two spans with the same ends are the same span.
pub proof fn lemma_span_ends(a: Span, b: Span)
    requires
        a.start() == b.start(),
        a.end() == b.end(),
    ensures
        a == b,
{
}

/// A source text is shorter than the largest byte offset.
pub(crate) fn source_fits_offsets(src: &SourceText)
    ensures
        encode_utf8(src@).len() < usize::MAX,
{
    proof {
        use_type_invariant(src);
    }
}

} // verus!
