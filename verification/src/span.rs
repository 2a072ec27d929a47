//! Byte-offset spans into source text, values paired with their span,
//! named immutable source buffers, and the laws tying spans produced by
//! lexing to the text they cover.
//!
//! Byte offsets are the single canonical position representation. A span
//! is valid for a source when it is ordered, in bounds, and both offsets
//! lie on UTF-8 character boundaries of the source's encoded text.
use vstd::prelude::*;

use crate::error::{Error, ErrorType};
use crate::text::{byte_len, dec_rep, push_dec_usize, lemma_encode_utf8_concat,
    lemma_encode_utf8_injective, lemma_prefix_is_char_boundary};
use vstd::string::{StringExecFns, StringSliceAdditionalSpecFns};
use vstd::utf8::{encode_utf8, is_char_boundary, valid_utf8};

verus! {

/// A half-open byte range `[start, end)` into one [`Source`]'s text.
#[derive(Debug, Copy, Clone, PartialEq, Eq, Structural)]
pub struct Span {
    pub start: usize,
    pub end: usize,
}

impl Span {
    pub fn new(start: usize, end: usize) -> (s: Self)
        ensures
            s.start == start,
            s.end == end,
    {
        Self { start, end }
    }

    #[inline]
    pub fn get_start(&self) -> (r: usize)
        ensures
            r == self.start,
    {
        self.start
    }

    #[inline]
    pub fn get_end(&self) -> (r: usize)
        ensures
            r == self.end,
    {
        self.end
    }

    /// The rendering `"<start>:<end>"` used inside diagnostics.
    pub open spec fn spec_display(self) -> Seq<char> {
        dec_rep(self.start as nat) + ":"@ + dec_rep(self.end as nat)
    }

    /// Renders the span as `"<start>:<end>"`.
    pub fn display(&self) -> (r: String)
        ensures
            r@ == self.spec_display(),
    {
        let mut out = String::new();
        push_dec_usize(&mut out, self.start);
        out.append(":");
        push_dec_usize(&mut out, self.end);
        out
    }
}

/// An immutable value paired with the span it was derived from.
#[derive(Debug, Copy, Clone, PartialEq)]
pub struct Spanned<T> {
    pub span: Span,
    pub node: T,
}

impl<T> Spanned<T> {
    pub fn new(start: usize, end: usize, node: T) -> (r: Self)
        ensures
            r.span.start == start,
            r.span.end == end,
            r.node == node,
    {
        let span = Span { start, end };
        Spanned { span, node }
    }

    pub fn from_span(span: Span, node: T) -> (r: Self)
        ensures
            r.span == span,
            r.node == node,
    {
        Self { span, node }
    }
}

/// A named, immutable buffer of program text. Identity is defined by
/// `name` alone (content is ignored); names must be unique within a
/// compilation session.
#[derive(Debug)]
pub struct Source {
    pub name: String,
    pub code: String,
}

impl Clone for Source {
    fn clone(&self) -> (r: Self)
        ensures
            r == *self,
    {
        Source { name: self.name.clone(), code: self.code.clone() }
    }
}

impl PartialEq for Source {
    fn eq(&self, other: &Self) -> (r: bool) {
        self.name == other.name
    }
}

impl vstd::std_specs::cmp::PartialEqSpecImpl for Source {
    open spec fn obeys_eq_spec() -> bool {
        true
    }

    open spec fn eq_spec(&self, other: &Self) -> bool {
        self.name@ == other.name@
    }
}

impl Source {
    /// The UTF-8 byte encoding of this source's text: the space that all
    /// spans address.
    pub open spec fn spec_bytes(&self) -> Seq<u8> {
        encode_utf8(self.code@)
    }

    /// The byte length of this source's text.
    pub open spec fn byte_length(&self) -> int {
        self.spec_bytes().len() as int
    }

    /// Machine limit: the encoded text fits in a `usize`-addressed
    /// buffer. True of every source actually held in memory.
    pub open spec fn wf(&self) -> bool {
        self.byte_length() <= usize::MAX
    }

    /// A span addresses this source exactly when it is ordered, in
    /// bounds, and both offsets lie on character boundaries.
    pub open spec fn span_in_bounds(&self, span: Span) -> bool {
        &&& span.start <= span.end <= self.byte_length()
        &&& is_char_boundary(self.spec_bytes(), span.start as int)
        &&& is_char_boundary(self.spec_bytes(), span.end as int)
    }

    pub fn new(name: &str, code: &str) -> (s: Self)
        ensures
            s.name@ == name@,
            s.code@ == code@,
    {
        Self { name: name.to_owned(), code: code.to_owned() }
    }

    /// Returns the exact substring covered by `location`, or an
    /// `InternalError` when the range is out of bounds or misaligned
    /// with a UTF-8 character boundary. Never panics.
    pub fn slice(&self, location: Span) -> (r: Result<String, Error>)
        requires
            self.wf(),
        ensures
            r is Ok <==> self.span_in_bounds(location),
            r matches Ok(t) ==> encode_utf8(t@) == self.spec_bytes().subrange(
                location.start as int,
                location.end as int,
            ),
            r matches Err(e) ==> {
                &&& e.error_type == ErrorType::InternalError
                &&& e.location == location
                &&& e.message@ == (if !(location.start <= location.end
                    <= self.byte_length()) {
                    "span out of bounds"@
                } else {
                    "span misaligned with a UTF-8 character boundary"@
                })
            },
    {
        proof {
            broadcast use vstd::utf8::encode_utf8_valid_utf8;

        }
        let code: &str = self.code.as_str();
        let n: usize = code.len();
        proof {
            assert(code.spec_bytes() == self.spec_bytes());
            assert(n == self.byte_length());
        }
        if location.start > location.end || location.end > n {
            return Err(Error::new(
                location.start,
                location.end,
                ErrorType::InternalError,
                "span out of bounds".to_owned(),
            ));
        }
        if !code.is_char_boundary(location.start) || !code.is_char_boundary(location.end) {
            return Err(Error::new(
                location.start,
                location.end,
                ErrorType::InternalError,
                "span misaligned with a UTF-8 character boundary".to_owned(),
            ));
        }
        let (_, rest) = code.split_at(location.start);
        proof {
            broadcast use vstd::utf8::valid_utf8_split;

            let bytes = self.spec_bytes();
            let s = location.start as int;
            let e = location.end as int;
            assert(rest.spec_bytes() =~= bytes.subrange(s, bytes.len() as int));
            assert(valid_utf8(bytes));
            assert(valid_utf8(rest.spec_bytes()));
            if e < bytes.len() {
                vstd::utf8::is_char_boundary_iff_not_is_continuation_byte(bytes, e);
                assert(rest.spec_bytes()[e - s] == bytes[e]);
                vstd::utf8::is_char_boundary_iff_not_is_continuation_byte(
                    rest.spec_bytes(),
                    e - s,
                );
            } else {
                vstd::utf8::is_char_boundary_start_end_of_seq(rest.spec_bytes());
                assert(e - s == rest.spec_bytes().len());
            }
            assert(is_char_boundary(rest.spec_bytes(), e - s));
        }
        let (mid, _) = rest.split_at(location.end - location.start);
        proof {
            let bytes = self.spec_bytes();
            let s = location.start as int;
            let e = location.end as int;
            assert(mid.spec_bytes() =~= bytes.subrange(s, e));
        }
        Ok(mid.to_owned())
    }
}

/// Character indices `i <= j` witness `span`: the span's offsets are the
/// byte lengths of the character prefixes of `code` up to `i` and `j`.
pub open spec fn span_covers(code: Seq<char>, span: Span, i: int, j: int) -> bool {
    &&& 0 <= i <= j <= code.len()
    &&& span.start == byte_len(code.take(i))
    &&& span.end == byte_len(code.take(j))
}

/// `span` and `text` together witness a lexed token: the span covers a
/// character range of `code` and `text` is exactly that range.
pub open spec fn token_covers(code: Seq<char>, span: Span, text: Seq<char>, i: int, j: int) -> bool {
    &&& span_covers(code, span, i, j)
    &&& text == code.subrange(i, j)
}

/// `span` was derived from lexing `code`: some character range of `code`
/// has exactly these byte offsets.
pub open spec fn span_from(code: Seq<char>, span: Span) -> bool {
    exists|i: int, j: int| span_covers(code, span, i, j)
}

/// A token with `span` and lexeme `text` was derived from lexing `code`.
pub open spec fn lexed_from(code: Seq<char>, span: Span, text: Seq<char>) -> bool {
    exists|i: int, j: int| token_covers(code, span, text, i, j)
}

/// Every span derived from lexing a source satisfies
/// `0 <= start <= end <= len(code)` in byte offsets, and neither span
/// boundary falls inside a multi-byte scalar.
pub proof fn lemma_lexed_span_valid(code: Seq<char>, span: Span)
    requires
        span_from(code, span),
    ensures
        0 <= span.start <= span.end <= encode_utf8(code).len(),
        is_char_boundary(encode_utf8(code), span.start as int),
        is_char_boundary(encode_utf8(code), span.end as int),
{
    let (i, j) = choose|i: int, j: int| span_covers(code, span, i, j);
    assert(code.take(j) =~= code.take(i) + code.subrange(i, j));
    lemma_encode_utf8_concat(code.take(i), code.subrange(i, j));
    assert(code =~= code.take(j) + code.skip(j));
    lemma_encode_utf8_concat(code.take(j), code.skip(j));
    assert(code =~= code.take(i) + code.skip(i));
    lemma_prefix_is_char_boundary(code.take(i), code.skip(i));
    lemma_prefix_is_char_boundary(code.take(j), code.skip(j));
    assert(encode_utf8(code.take(i) + code.skip(i)) == encode_utf8(code));
    assert(encode_utf8(code.take(j) + code.skip(j)) == encode_utf8(code));
}

/// Round trip: slicing a source by a lexed token's span reproduces the
/// token's stored lexeme text exactly. Together with [`Source::slice`]'s
/// contract and the injectivity of UTF-8 encoding, the sliced string's
/// characters equal the stored lexeme's characters.
pub proof fn lemma_slice_round_trip(source: Source, span: Span, text: Seq<char>)
    requires
        source.wf(),
        lexed_from(source.code@, span, text),
    ensures
        source.span_in_bounds(span),
        source.spec_bytes().subrange(span.start as int, span.end as int) == encode_utf8(text),
{
    let code = source.code@;
    let (i, j) = choose|i: int, j: int| token_covers(code, span, text, i, j);
    assert(span_covers(code, span, i, j));
    lemma_lexed_span_valid(code, span);
    assert(code.take(j) =~= code.take(i) + code.subrange(i, j));
    lemma_encode_utf8_concat(code.take(i), code.subrange(i, j));
    assert(code =~= code.take(j) + code.skip(j));
    lemma_encode_utf8_concat(code.take(j), code.skip(j));
    assert(encode_utf8(code.take(j) + code.skip(j)) == encode_utf8(code));
    assert(source.spec_bytes().subrange(span.start as int, span.end as int) =~= encode_utf8(
        text,
    ));
}

/// The round trip seen by a caller of [`Source::slice`]: a sliced
/// string whose bytes cover a lexed token's span holds exactly the
/// token's stored lexeme characters.
pub proof fn lemma_round_trip_text(source: Source, span: Span, text: Seq<char>, sliced: Seq<char>)
    requires
        source.wf(),
        lexed_from(source.code@, span, text),
        encode_utf8(sliced) == source.spec_bytes().subrange(span.start as int, span.end as int),
    ensures
        sliced == text,
{
    lemma_slice_round_trip(source, span, text);
    lemma_encode_utf8_injective(sliced, text);
}

} // verus!
