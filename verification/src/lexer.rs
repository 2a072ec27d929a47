//! The lexer: a single-pass, stateful cursor over one source's text,
//! advancing by Unicode scalar value while reporting spans in byte
//! offsets. It yields a finite sequence of spanned tokens or spanned
//! lexical errors; whitespace and line comments are consumed without
//! producing tokens, multi-character operators are matched by maximal
//! munch, and an unrecognized unit yields one `LexError` after which
//! scanning resumes.
use vstd::prelude::*;

use crate::error::{Error, ErrorType};
use crate::span::{lexed_from, span_covers, span_from, token_covers, Source, Span, Spanned};
use crate::text::{byte_len, char_utf8_width, char_width, lemma_encode_utf8_concat,
    lemma_encode_utf8_single};
use crate::token::{Token, TokenType};
use crate::types::{SignedInteger, SignedIntegerTypes, SimpleType, UnsignedInteger,
    UnsignedIntegerTypes, FloatingPointTypes};
use vstd::string::StrSliceExecFns;
use vstd::utf8::encode_utf8;

verus! {

/// One scanned item: a spanned token, or a spanned lexical error.
pub type Scanned = Result<Spanned<Token>, Spanned<ErrorType>>;

/// Where trivia ends: the first position at or after `i` that holds
/// neither whitespace nor a `//` line comment. `in_comment` marks a
/// position inside a comment, which runs to the next line break.
pub open spec fn spec_trivia_end(cs: Seq<char>, i: int, in_comment: bool) -> int
    recommends
        0 <= i <= cs.len(),
    decreases cs.len() - i,
{
    if i >= cs.len() {
        i
    } else if in_comment {
        if cs[i] == '\n' {
            spec_trivia_end(cs, i + 1, false)
        } else {
            spec_trivia_end(cs, i + 1, true)
        }
    } else if is_space_char(cs[i]) {
        spec_trivia_end(cs, i + 1, false)
    } else if i + 1 < cs.len() && cs[i] == '/' && cs[i + 1] == '/' {
        spec_trivia_end(cs, i + 2, true)
    } else {
        i
    }
}

/// The end of the longest run of identifier characters from `i`.
pub open spec fn spec_word_end(cs: Seq<char>, i: int) -> int
    recommends
        0 <= i <= cs.len(),
    decreases cs.len() - i,
{
    if i < cs.len() && is_word_char(cs[i]) {
        spec_word_end(cs, i + 1)
    } else {
        i
    }
}

/// The end of the longest run of digits from `i`.
pub open spec fn spec_digits_end(cs: Seq<char>, i: int) -> int
    recommends
        0 <= i <= cs.len(),
    decreases cs.len() - i,
{
    if i < cs.len() && is_digit_char(cs[i]) {
        spec_digits_end(cs, i + 1)
    } else {
        i
    }
}

/// The position of the next double quote at or after `i`, or the text's
/// end when there is none.
pub open spec fn spec_close_quote(cs: Seq<char>, i: int) -> int
    recommends
        0 <= i <= cs.len(),
    decreases cs.len() - i,
{
    if i >= cs.len() {
        i
    } else if cs[i] == '"' {
        i
    } else {
        spec_close_quote(cs, i + 1)
    }
}

/// What the scanner must do at a non-trivia position `i`: where the one
/// item ends (maximal munch) and whether it is a token (`true`) or a
/// lexical error (`false`).
pub open spec fn spec_scan_at(cs: Seq<char>, i: int) -> (int, bool)
    recommends
        0 <= i < cs.len(),
{
    let c = cs[i];
    if is_word_start_char(c) {
        (spec_word_end(cs, i + 1), true)
    } else if is_digit_char(c) {
        let j = spec_digits_end(cs, i + 1);
        if j < cs.len() && cs[j] == '.' && j + 1 < cs.len() && is_digit_char(cs[j + 1]) {
            (spec_digits_end(cs, j + 1), true)
        } else {
            (j, true)
        }
    } else if c == '"' {
        let q = spec_close_quote(cs, i + 1);
        if q < cs.len() {
            (q + 1, true)
        } else {
            (cs.len() as int, false)
        }
    } else if c == '\'' {
        if i + 1 < cs.len() && cs[i + 1] != '\'' {
            if i + 2 < cs.len() && cs[i + 2] == '\'' {
                (i + 3, true)
            } else {
                (i + 2, false)
            }
        } else {
            (i + 1, false)
        }
    } else if c == '=' {
        if i + 1 < cs.len() && (cs[i + 1] == '=' || cs[i + 1] == '>') {
            (i + 2, true)
        } else {
            (i + 1, true)
        }
    } else if c == '!' || c == '<' || c == '>' {
        if i + 1 < cs.len() && cs[i + 1] == '=' {
            (i + 2, true)
        } else {
            (i + 1, true)
        }
    } else if c == '&' {
        if i + 1 < cs.len() && cs[i + 1] == '&' {
            (i + 2, true)
        } else {
            (i + 1, true)
        }
    } else if c == '|' {
        if i + 1 < cs.len() && cs[i + 1] == '|' {
            (i + 2, true)
        } else {
            (i + 1, true)
        }
    } else if c == '.' {
        if i + 2 < cs.len() && cs[i + 1] == '.' && cs[i + 2] == '.' {
            (i + 3, true)
        } else {
            (i + 1, true)
        }
    } else if c == '(' || c == ')' || c == '{' || c == '}' || c == '[' || c == ']' || c == '+'
        || c == '-' || c == '*' || c == '/' || c == '%' || c == ':' || c == ';' || c == ','
        || c == '?' {
        (i + 1, true)
    } else {
        (i + 1, false)
    }
}

/// Bounds of [`spec_trivia_end`]: trivia skipping never moves backward
/// and never leaves the text.
pub proof fn lemma_trivia_end_bounds(cs: Seq<char>, i: int, in_comment: bool)
    requires
        0 <= i <= cs.len(),
    ensures
        i <= spec_trivia_end(cs, i, in_comment) <= cs.len(),
    decreases cs.len() - i,
{
    if i < cs.len() {
        if in_comment {
            lemma_trivia_end_bounds(cs, i + 1, cs[i] != '\n');
        } else if is_space_char(cs[i]) {
            lemma_trivia_end_bounds(cs, i + 1, false);
        } else if i + 1 < cs.len() && cs[i] == '/' && cs[i + 1] == '/' {
            lemma_trivia_end_bounds(cs, i + 2, true);
        }
    }
}

/// Bounds of [`spec_word_end`].
pub proof fn lemma_word_end_bounds(cs: Seq<char>, i: int)
    requires
        0 <= i <= cs.len(),
    ensures
        i <= spec_word_end(cs, i) <= cs.len(),
    decreases cs.len() - i,
{
    if i < cs.len() && is_word_char(cs[i]) {
        lemma_word_end_bounds(cs, i + 1);
    }
}

/// Bounds of [`spec_digits_end`].
pub proof fn lemma_digits_end_bounds(cs: Seq<char>, i: int)
    requires
        0 <= i <= cs.len(),
    ensures
        i <= spec_digits_end(cs, i) <= cs.len(),
    decreases cs.len() - i,
{
    if i < cs.len() && is_digit_char(cs[i]) {
        lemma_digits_end_bounds(cs, i + 1);
    }
}

/// Bounds of [`spec_close_quote`].
pub proof fn lemma_close_quote_bounds(cs: Seq<char>, i: int)
    requires
        0 <= i <= cs.len(),
    ensures
        i <= spec_close_quote(cs, i) <= cs.len(),
    decreases cs.len() - i,
{
    if i < cs.len() && cs[i] != '"' {
        lemma_close_quote_bounds(cs, i + 1);
    }
}

/// Every scanned item consumes at least one character and stays inside
/// the text.
pub proof fn lemma_scan_end_bounds(cs: Seq<char>, i: int)
    requires
        0 <= i < cs.len(),
    ensures
        i < spec_scan_at(cs, i).0 <= cs.len(),
{
    lemma_word_end_bounds(cs, i + 1);
    lemma_digits_end_bounds(cs, i + 1);
    lemma_close_quote_bounds(cs, i + 1);
    let j = spec_digits_end(cs, i + 1);
    if 0 <= j + 1 <= cs.len() {
        lemma_digits_end_bounds(cs, j + 1);
    }
}

/// The items that lexing `cs` from position `i` must yield, in order:
/// for each, its start (just past the trivia), its end (maximal munch),
/// and whether it is a token or a lexical error.
pub open spec fn spec_items(cs: Seq<char>, i: int) -> Seq<(int, int, bool)>
    recommends
        0 <= i <= cs.len(),
    decreases cs.len() - i,
    via spec_items_dec
{
    if !(0 <= i <= cs.len()) {
        seq![]
    } else {
        let s = spec_trivia_end(cs, i, false);
        if s >= cs.len() {
            seq![]
        } else {
            let e = spec_scan_at(cs, s).0;
            let okk = spec_scan_at(cs, s).1;
            seq![(s, e, okk)] + spec_items(cs, e)
        }
    }
}

#[via_fn]
proof fn spec_items_dec(cs: Seq<char>, i: int) {
    if 0 <= i <= cs.len() {
        let s = spec_trivia_end(cs, i, false);
        lemma_trivia_end_bounds(cs, i, false);
        if s < cs.len() {
            lemma_scan_end_bounds(cs, s);
        }
    }
}

/// A fixed-spelling kind: punctuation, operator or keyword, whose
/// canonical text is its whole identity.
pub open spec fn is_fixed_spelling(t: TokenType) -> bool {
    match t {
        TokenType::Identifier(_) => false,
        TokenType::IntLit(_) => false,
        TokenType::FloatLit(_) => false,
        TokenType::StringLit(_) => false,
        TokenType::Char(_) => false,
        TokenType::TypeIdentifier(_) => false,
        _ => true,
    }
}

/// The lexeme holds a decimal point.
pub open spec fn has_dot(text: Seq<char>) -> bool {
    exists|k: int| 0 <= k < text.len() && text[k] == '.'
}

/// The kind a token must have, determined by its lexeme alone: words go
/// through the reserved-word table, digit lexemes are integer or float
/// literals by the presence of a decimal point, quoted lexemes are
/// string or character literals carrying their content, and everything
/// else is a fixed-spelling kind whose canonical text is the lexeme.
pub open spec fn token_type_for(text: Seq<char>, t: TokenType) -> bool
    recommends
        text.len() > 0,
{
    if text.len() == 0 {
        false
    } else if is_word_start_char(text[0]) {
        word_token_ok(text, t)
    } else if is_digit_char(text[0]) {
        if has_dot(text) {
            t matches TokenType::FloatLit(s) && s@ == text
        } else {
            t matches TokenType::IntLit(s) && s@ == text
        }
    } else if text[0] == '"' {
        t matches TokenType::StringLit(s) && s@ == text
    } else if text[0] == '\'' {
        t matches TokenType::Char(c) && text == "'"@ + c@ + "'"@
    } else {
        is_fixed_spelling(t) && t.spec_display() == text
    }
}

/// One yielded item agrees with its prescription `desc`: same start and
/// end byte offsets, token versus error as prescribed, the token's
/// lexeme is exactly the covered text and its kind follows from that
/// lexeme, and errors carry the `LexError` kind.
pub open spec fn item_matches(cs: Seq<char>, desc: (int, int, bool), item: Scanned) -> bool {
    match item {
        Ok(sp) => {
            &&& desc.2
            &&& sp.span.start == byte_len(cs.take(desc.0))
            &&& sp.span.end == byte_len(cs.take(desc.1))
            &&& sp.node.text@ == cs.subrange(desc.0, desc.1)
            &&& token_type_for(sp.node.text@, sp.node.token_type)
        },
        Err(sp) => {
            &&& !desc.2
            &&& sp.span.start == byte_len(cs.take(desc.0))
            &&& sp.span.end == byte_len(cs.take(desc.1))
            &&& sp.node == ErrorType::LexError
        },
    }
}

/// Lexing the source `let` must yield exactly one item: a token over
/// characters zero to three — bytes zero to three — and any kind that
/// [`token_type_for`] admits for that lexeme is the `Let` keyword.
pub proof fn lemma_let_scans_to_one_keyword()
    ensures
        spec_items("let"@, 0) =~= seq![(0int, 3int, true)],
        byte_len("let"@.take(0)) == 0,
        byte_len("let"@.take(3)) == 3,
        forall|t: TokenType| token_type_for("let"@, t) ==> t == TokenType::Let,
{
    reveal_strlit("let");
    let cs = "let"@;
    assert(cs.len() == 3);
    assert(cs[0] == 'l' && cs[1] == 'e' && cs[2] == 't');
    reveal_with_fuel(spec_word_end, 4);
    assert(spec_word_end(cs, 1) == 3);
    assert(spec_trivia_end(cs, 0, false) == 0);
    assert(spec_trivia_end(cs, 3, false) == 3);
    reveal_with_fuel(spec_items, 2);
    assert(spec_items(cs, 3) =~= Seq::<(int, int, bool)>::empty());
    assert(spec_items(cs, 0) =~= seq![(0int, 3int, true)]);
    assert(cs.take(0) =~= Seq::<char>::empty());
    assert(encode_utf8(Seq::<char>::empty()) =~= Seq::<u8>::empty());
    assert(cs.take(3) =~= cs);
    reveal_with_fuel(vstd::utf8::encode_utf8, 4);
    assert(cs.drop_first() =~= seq!['e', 't']);
    assert(seq!['e', 't'].drop_first() =~= seq!['t']);
    assert(seq!['t'].drop_first() =~= Seq::<char>::empty());
    assert(byte_len(cs) == 3);
}

/// Maximal munch: lexing the source `==` must yield exactly one item,
/// a token over both characters, never two one-character tokens; and
/// the only kind [`token_type_for`] admits for that lexeme is
/// `EqualsEquals`.
pub proof fn lemma_double_equals_is_one_token()
    ensures
        spec_items("=="@, 0) =~= seq![(0int, 2int, true)],
        forall|t: TokenType| token_type_for("=="@, t) ==> t == TokenType::EqualsEquals,
{
    reveal_strlit("==");
    let cs = "=="@;
    assert(cs.len() == 2);
    assert(cs[0] == '=' && cs[1] == '=');
    assert(spec_trivia_end(cs, 0, false) == 0);
    assert(spec_trivia_end(cs, 2, false) == 2);
    reveal_with_fuel(spec_items, 2);
    assert(spec_items(cs, 2) =~= Seq::<(int, int, bool)>::empty());
    assert(spec_items(cs, 0) =~= seq![(0int, 2int, true)]);
    assert forall|t: TokenType| token_type_for(cs, t) implies t == TokenType::EqualsEquals by {
        if token_type_for(cs, t) {
            assert(is_fixed_spelling(t) && t.spec_display() == cs);
            reveal_strlit("(");
            reveal_strlit(")");
            reveal_strlit("{");
            reveal_strlit("}");
            reveal_strlit("[");
            reveal_strlit("]");
            reveal_strlit("let");
            reveal_strlit("fn");
            reveal_strlit("if");
            reveal_strlit("else");
            reveal_strlit("import");
            reveal_strlit("from");
            reveal_strlit("return");
            reveal_strlit("extern");
            reveal_strlit("while");
            reveal_strlit("type");
            reveal_strlit("struct");
            reveal_strlit("trait");
            reveal_strlit("enum");
            reveal_strlit("new");
            reveal_strlit("delete");
            reveal_strlit("sizeof");
            reveal_strlit("as");
            reveal_strlit("static");
            reveal_strlit("inline");
            reveal_strlit("abstract");
            reveal_strlit("mut");
            reveal_strlit("!");
            reveal_strlit("=");
            reveal_strlit("+");
            reveal_strlit("-");
            reveal_strlit("*");
            reveal_strlit("/");
            reveal_strlit("%");
            reveal_strlit("<");
            reveal_strlit(">");
            reveal_strlit("&");
            reveal_strlit("|");
            reveal_strlit("...");
            reveal_strlit(":");
            reveal_strlit(";");
            reveal_strlit(".");
            reveal_strlit(",");
            reveal_strlit("?");
            reveal_strlit("!=");
            reveal_strlit("<=");
            reveal_strlit(">=");
            reveal_strlit("&&");
            reveal_strlit("||");
            reveal_strlit("=>");
            reveal_strlit("null");
        }
    }
}

/// Keyword recognition: a token whose lexeme has the shape of a word is
/// classified exactly by the reserved-word table.
pub open spec fn token_word_classified(t: Token) -> bool {
    t.text@.len() > 0 && is_word_start_char(t.text@[0]) ==> word_token_ok(t.text@, t.token_type)
}

/// The token's lexeme matches its kind: fixed kinds carry their fixed
/// spelling, literal kinds carry the lexeme itself (character literals
/// carry the content between the quotes), and type identifiers agree
/// with the reserved-word table.
pub open spec fn token_kind_matches_text(t: Token) -> bool {
    match t.token_type {
        TokenType::Identifier(s) => s@ == t.text@,
        TokenType::IntLit(s) => s@ == t.text@,
        TokenType::FloatLit(s) => s@ == t.text@,
        TokenType::StringLit(s) => s@ == t.text@,
        TokenType::Char(c) => t.text@ == "'"@ + c@ + "'"@,
        TokenType::TypeIdentifier(ty) => word_token_ok(t.text@, t.token_type),
        _ => t.text@ == t.token_type.spec_display(),
    }
}

/// A scanned item derived from lexing `code`: tokens carry their exact
/// nonempty lexeme under a valid span, respect keyword classification,
/// and their lexeme matches their kind; errors carry a valid span and
/// the `LexError` kind.
pub open spec fn scanned_ok(code: Seq<char>, item: Scanned) -> bool {
    match item {
        Ok(sp) => {
            &&& lexed_from(code, sp.span, sp.node.text@)
            &&& sp.node.text@.len() > 0
            &&& token_word_classified(sp.node)
            &&& token_kind_matches_text(sp.node)
        },
        Err(sp) => span_from(code, sp.span) && sp.node == ErrorType::LexError,
    }
}

/// The scanner capability handed to the parser: access to the
/// originating source.
pub trait Scanner {
    fn source(&self) -> &Source;
}

/// The cursor's current position: the byte offset and the character
/// standing at it.
#[derive(Debug, Copy, Clone, PartialEq, Eq, Structural)]
pub struct InputPosition {
    pub pos: usize,
    pub val: char,
}

impl InputPosition {
    pub fn new_opt(value: Option<(usize, char)>) -> (r: Option<Self>)
        ensures
            match value {
                Some(pv) => r == Some(InputPosition { pos: pv.0, val: pv.1 }),
                None => r is None,
            },
    {
        match value {
            Some((pos, val)) => Some(InputPosition { pos, val }),
            None => None,
        }
    }
}

/// A digit `0`..`9`.
pub open spec fn is_digit_char(c: char) -> bool {
    48 <= c as u32 <= 57
}

/// A letter or underscore: what may begin an identifier.
pub open spec fn is_word_start_char(c: char) -> bool {
    (65 <= c as u32 <= 90) || (97 <= c as u32 <= 122) || c as u32 == 95
}

/// What may continue an identifier.
pub open spec fn is_word_char(c: char) -> bool {
    is_word_start_char(c) || is_digit_char(c)
}

/// Whitespace consumed between tokens.
pub open spec fn is_space_char(c: char) -> bool {
    c == ' ' || c == '\t' || c == '\r' || c == '\n'
}

fn is_digit(c: char) -> (b: bool)
    ensures
        b == is_digit_char(c),
{
    let u = c as u32;
    48 <= u && u <= 57
}

fn is_word_start(c: char) -> (b: bool)
    ensures
        b == is_word_start_char(c),
{
    let u = c as u32;
    (65 <= u && u <= 90) || (97 <= u && u <= 122) || u == 95
}

fn is_word(c: char) -> (b: bool)
    ensures
        b == is_word_char(c),
{
    is_word_start(c) || is_digit(c)
}

fn is_space(c: char) -> (b: bool)
    ensures
        b == is_space_char(c),
{
    c == ' ' || c == '\t' || c == '\r' || c == '\n'
}

fn word_is(lex: &String, w: &str) -> (b: bool)
    ensures
        b == (lex@ == w@),
{
    let ws: String = w.to_owned();
    *lex == ws
}

/// An identifier lexeme is reclassified as its keyword token when it
/// exactly matches a reserved word, as the resolved type-identifier
/// token when it names a primitive type, and stays an `Identifier`
/// otherwise.
pub open spec fn word_token_ok(lex: Seq<char>, t: TokenType) -> bool {
    if lex == "let"@ {
        t == TokenType::Let
    } else if lex == "fn"@ {
        t == TokenType::Fn
    } else if lex == "if"@ {
        t == TokenType::If
    } else if lex == "else"@ {
        t == TokenType::Else
    } else if lex == "import"@ {
        t == TokenType::Import
    } else if lex == "from"@ {
        t == TokenType::From
    } else if lex == "return"@ {
        t == TokenType::Return
    } else if lex == "extern"@ {
        t == TokenType::Extern
    } else if lex == "while"@ {
        t == TokenType::While
    } else if lex == "type"@ {
        t == TokenType::Type
    } else if lex == "struct"@ {
        t == TokenType::Struct
    } else if lex == "trait"@ {
        t == TokenType::Trait
    } else if lex == "enum"@ {
        t == TokenType::Enum
    } else if lex == "new"@ {
        t == TokenType::New
    } else if lex == "delete"@ {
        t == TokenType::Delete
    } else if lex == "sizeof"@ {
        t == TokenType::Sizeof
    } else if lex == "as"@ {
        t == TokenType::As
    } else if lex == "static"@ {
        t == TokenType::Static
    } else if lex == "inline"@ {
        t == TokenType::Inline
    } else if lex == "abstract"@ {
        t == TokenType::Abstract
    } else if lex == "mut"@ {
        t == TokenType::Mut
    } else if lex == "null"@ {
        t == TokenType::NullLit
    } else if lex == "i8"@ {
        t == TokenType::TypeIdentifier(
            SimpleType::Int(SignedInteger { base_type: SignedIntegerTypes::Int8, value: 0 }),
        )
    } else if lex == "i16"@ {
        t == TokenType::TypeIdentifier(
            SimpleType::Int(SignedInteger { base_type: SignedIntegerTypes::Int16, value: 0 }),
        )
    } else if lex == "i32"@ {
        t == TokenType::TypeIdentifier(
            SimpleType::Int(SignedInteger { base_type: SignedIntegerTypes::Int32, value: 0 }),
        )
    } else if lex == "i64"@ {
        t == TokenType::TypeIdentifier(
            SimpleType::Int(SignedInteger { base_type: SignedIntegerTypes::Int64, value: 0 }),
        )
    } else if lex == "u8"@ {
        t == TokenType::TypeIdentifier(
            SimpleType::Uint(UnsignedInteger { base_type: UnsignedIntegerTypes::Uint8, value: 0 }),
        )
    } else if lex == "u16"@ {
        t == TokenType::TypeIdentifier(
            SimpleType::Uint(UnsignedInteger { base_type: UnsignedIntegerTypes::Uint16, value: 0 }),
        )
    } else if lex == "u32"@ {
        t == TokenType::TypeIdentifier(
            SimpleType::Uint(UnsignedInteger { base_type: UnsignedIntegerTypes::Uint32, value: 0 }),
        )
    } else if lex == "u64"@ {
        t == TokenType::TypeIdentifier(
            SimpleType::Uint(UnsignedInteger { base_type: UnsignedIntegerTypes::Uint64, value: 0 }),
        )
    } else if lex == "f16"@ {
        t == TokenType::TypeIdentifier(SimpleType::Fp(FloatingPointTypes::FP16))
    } else if lex == "f32"@ {
        t == TokenType::TypeIdentifier(SimpleType::Fp(FloatingPointTypes::FP32))
    } else if lex == "f64"@ {
        t == TokenType::TypeIdentifier(SimpleType::Fp(FloatingPointTypes::FP64))
    } else if lex == "char"@ {
        t == TokenType::TypeIdentifier(SimpleType::Char)
    } else if lex == "bool"@ {
        t == TokenType::TypeIdentifier(SimpleType::Bool)
    } else if lex == "string"@ {
        t == TokenType::TypeIdentifier(SimpleType::String)
    } else if lex == "void"@ {
        t == TokenType::TypeIdentifier(SimpleType::Void)
    } else {
        t matches TokenType::Identifier(s) && s@ == lex
    }
}

/// Reclassifies an identifier lexeme as keyword, type identifier,
/// `null`, or plain identifier.
fn classify_word(lex: String) -> (t: TokenType)
    ensures
        word_token_ok(lex@, t),
{
    if word_is(&lex, "let") {
        TokenType::Let
    } else if word_is(&lex, "fn") {
        TokenType::Fn
    } else if word_is(&lex, "if") {
        TokenType::If
    } else if word_is(&lex, "else") {
        TokenType::Else
    } else if word_is(&lex, "import") {
        TokenType::Import
    } else if word_is(&lex, "from") {
        TokenType::From
    } else if word_is(&lex, "return") {
        TokenType::Return
    } else if word_is(&lex, "extern") {
        TokenType::Extern
    } else if word_is(&lex, "while") {
        TokenType::While
    } else if word_is(&lex, "type") {
        TokenType::Type
    } else if word_is(&lex, "struct") {
        TokenType::Struct
    } else if word_is(&lex, "trait") {
        TokenType::Trait
    } else if word_is(&lex, "enum") {
        TokenType::Enum
    } else if word_is(&lex, "new") {
        TokenType::New
    } else if word_is(&lex, "delete") {
        TokenType::Delete
    } else if word_is(&lex, "sizeof") {
        TokenType::Sizeof
    } else if word_is(&lex, "as") {
        TokenType::As
    } else if word_is(&lex, "static") {
        TokenType::Static
    } else if word_is(&lex, "inline") {
        TokenType::Inline
    } else if word_is(&lex, "abstract") {
        TokenType::Abstract
    } else if word_is(&lex, "mut") {
        TokenType::Mut
    } else if word_is(&lex, "null") {
        TokenType::NullLit
    } else if word_is(&lex, "i8") {
        TokenType::TypeIdentifier(
            SimpleType::Int(SignedInteger { base_type: SignedIntegerTypes::Int8, value: 0 }),
        )
    } else if word_is(&lex, "i16") {
        TokenType::TypeIdentifier(
            SimpleType::Int(SignedInteger { base_type: SignedIntegerTypes::Int16, value: 0 }),
        )
    } else if word_is(&lex, "i32") {
        TokenType::TypeIdentifier(
            SimpleType::Int(SignedInteger { base_type: SignedIntegerTypes::Int32, value: 0 }),
        )
    } else if word_is(&lex, "i64") {
        TokenType::TypeIdentifier(
            SimpleType::Int(SignedInteger { base_type: SignedIntegerTypes::Int64, value: 0 }),
        )
    } else if word_is(&lex, "u8") {
        TokenType::TypeIdentifier(
            SimpleType::Uint(UnsignedInteger { base_type: UnsignedIntegerTypes::Uint8, value: 0 }),
        )
    } else if word_is(&lex, "u16") {
        TokenType::TypeIdentifier(
            SimpleType::Uint(UnsignedInteger { base_type: UnsignedIntegerTypes::Uint16, value: 0 }),
        )
    } else if word_is(&lex, "u32") {
        TokenType::TypeIdentifier(
            SimpleType::Uint(UnsignedInteger { base_type: UnsignedIntegerTypes::Uint32, value: 0 }),
        )
    } else if word_is(&lex, "u64") {
        TokenType::TypeIdentifier(
            SimpleType::Uint(UnsignedInteger { base_type: UnsignedIntegerTypes::Uint64, value: 0 }),
        )
    } else if word_is(&lex, "f16") {
        TokenType::TypeIdentifier(SimpleType::Fp(FloatingPointTypes::FP16))
    } else if word_is(&lex, "f32") {
        TokenType::TypeIdentifier(SimpleType::Fp(FloatingPointTypes::FP32))
    } else if word_is(&lex, "f64") {
        TokenType::TypeIdentifier(SimpleType::Fp(FloatingPointTypes::FP64))
    } else if word_is(&lex, "char") {
        TokenType::TypeIdentifier(SimpleType::Char)
    } else if word_is(&lex, "bool") {
        TokenType::TypeIdentifier(SimpleType::Bool)
    } else if word_is(&lex, "string") {
        TokenType::TypeIdentifier(SimpleType::String)
    } else if word_is(&lex, "void") {
        TokenType::TypeIdentifier(SimpleType::Void)
    } else {
        TokenType::Identifier(lex)
    }
}

/// Collects the characters of a string.
fn chars_of(s: &str) -> (r: Vec<char>)
    ensures
        r@ == s@,
{
    let n = s.unicode_len();
    let mut v: Vec<char> = Vec::new();
    let mut i: usize = 0;
    while i < n
        invariant
            n == s@.len(),
            i <= n,
            v@ == s@.take(i as int),
        decreases n - i,
    {
        let c = s.get_char(i);
        v.push(c);
        i = i + 1;
        proof {
            assert(v@ =~= s@.take(i as int));
        }
    }
    proof {
        assert(s@.take(n as int) =~= s@);
    }
    v
}

/// The stateful scanner over one source.
#[derive(Debug)]
pub struct Lexer {
    /// The source being scanned.
    pub source: Source,
    /// The source's text as characters; equal to `source.code`'s view.
    pub chars: Vec<char>,
    /// The cursor, as a character index into `chars`.
    pub idx: usize,
    /// The cursor, as a byte offset: the encoded length of the
    /// characters already consumed.
    pub byte_pos: usize,
}

impl Scanner for Lexer {
    fn source(&self) -> &Source {
        &self.source
    }
}

impl Lexer {
    /// The cursor addresses a character of the source, and the byte
    /// offset agrees with the character index.
    pub open spec fn wf(&self) -> bool {
        &&& self.chars@ == self.source.code@
        &&& self.idx <= self.chars@.len()
        &&& self.byte_pos == byte_len(self.chars@.take(self.idx as int))
        &&& self.source.wf()
    }

    pub fn new(source: Source) -> (l: Self)
        requires
            source.wf(),
        ensures
            l.wf(),
            l.source == source,
            l.idx == 0,
            l.byte_pos == 0,
    {
        let chars = chars_of(source.code.as_str());
        let l = Lexer { source, chars, idx: 0, byte_pos: 0 };
        proof {
            assert(l.chars@.take(0) =~= Seq::<char>::empty());
            assert(encode_utf8(Seq::<char>::empty()) =~= Seq::<u8>::empty());
        }
        l
    }

    /// The current byte offset: the position of the next character, or
    /// the text's byte length at end of input.
    pub fn pos(&self) -> (r: usize)
        requires
            self.wf(),
        ensures
            r == byte_len(self.chars@.take(self.idx as int)),
    {
        self.byte_pos
    }

    /// The current position and character, or nothing at end of input.
    pub fn current(&self) -> (r: Option<InputPosition>)
        requires
            self.wf(),
        ensures
            match r {
                Some(ip) => self.idx < self.chars@.len() && ip.pos == self.byte_pos && ip.val
                    == self.chars@[self.idx as int],
                None => self.idx == self.chars@.len(),
            },
    {
        if self.idx < self.chars.len() {
            InputPosition::new_opt(Some((self.byte_pos, self.chars[self.idx])))
        } else {
            InputPosition::new_opt(None)
        }
    }

    /// Slices the source by byte offsets, clamping the end to the
    /// text's length as the scanning contract prescribes.
    pub fn slice(&self, start: usize, end: usize) -> (r: Result<String, Error>)
        requires
            self.wf(),
        ensures
            ({
                let clamped = Span {
                    start,
                    end: if end as int > self.source.byte_length() {
                        self.source.byte_length() as usize
                    } else {
                        end
                    },
                };
                &&& (r is Ok <==> self.source.span_in_bounds(clamped))
                &&& (r matches Ok(t) ==> encode_utf8(t@) == self.source.spec_bytes().subrange(
                    clamped.start as int,
                    clamped.end as int,
                ))
                &&& (r matches Err(e) ==> e.error_type == ErrorType::InternalError)
            }),
    {
        let n: usize = self.source.code.as_str().len();
        let e = if end > n {
            n
        } else {
            end
        };
        self.source.slice(Span::new(start, e))
    }

    /// Pairs a value with the span from `start` to the current byte
    /// offset.
    pub fn spanned<T>(&self, start: usize, node: T) -> (r: Spanned<T>)
        ensures
            r.span.start == start,
            r.span.end == self.byte_pos,
            r.node == node,
    {
        Spanned::new(start, self.byte_pos, node)
    }

    /// Consumes one character, keeping the byte offset aligned with the
    /// character index.
    fn advance(&mut self)
        requires
            old(self).wf(),
            old(self).idx < old(self).chars@.len(),
        ensures
            final(self).wf(),
            final(self).source == old(self).source,
            final(self).chars == old(self).chars,
            final(self).idx == old(self).idx + 1,
            final(self).byte_pos == old(self).byte_pos + char_width(
                old(self).chars@[old(self).idx as int],
            ),
    {
        let n = self.chars.len();
        let c = self.chars[self.idx];
        let w = char_utf8_width(c);
        proof {
            assert(self.idx < n);
        }
        proof {
            let cs = self.chars@;
            let i = self.idx as int;
            assert(cs.take(i + 1) =~= cs.take(i) + seq![c]);
            lemma_encode_utf8_concat(cs.take(i), seq![c]);
            lemma_encode_utf8_single(c);
            assert(byte_len(cs.take(i + 1)) == self.byte_pos + w);
            assert(cs =~= cs.take(i + 1) + cs.skip(i + 1));
            lemma_encode_utf8_concat(cs.take(i + 1), cs.skip(i + 1));
            assert(encode_utf8(cs.take(i + 1) + cs.skip(i + 1)) == encode_utf8(cs));
            assert(byte_len(cs.take(i + 1)) <= byte_len(cs));
        }
        self.byte_pos = self.byte_pos + w;
        self.idx = self.idx + 1;
    }

    /// Consumes whitespace and `//` line comments. The cursor moves only
    /// when it stands on whitespace or a slash.
    fn skip_trivia(&mut self)
        requires
            old(self).wf(),
        ensures
            final(self).wf(),
            final(self).source == old(self).source,
            final(self).chars == old(self).chars,
            final(self).idx >= old(self).idx,
            final(self).idx as int == spec_trivia_end(
                old(self).chars@,
                old(self).idx as int,
                false,
            ),
            final(self).idx != old(self).idx ==> old(self).idx < old(self).chars@.len() && (
            is_space_char(old(self).chars@[old(self).idx as int]) || old(self).chars@[old(
                self,
            ).idx as int] == '/'),
    {
        loop
            invariant
                self.wf(),
                self.source == old(self).source,
                self.chars == old(self).chars,
                self.idx >= old(self).idx,
                spec_trivia_end(self.chars@, self.idx as int, false) == spec_trivia_end(
                    old(self).chars@,
                    old(self).idx as int,
                    false,
                ),
                self.idx != old(self).idx ==> old(self).idx < old(self).chars@.len() && (
                is_space_char(old(self).chars@[old(self).idx as int]) || old(self).chars@[old(
                    self,
                ).idx as int] == '/'),
            ensures
                self.wf(),
                self.source == old(self).source,
                self.chars == old(self).chars,
                self.idx >= old(self).idx,
                self.idx as int == spec_trivia_end(old(self).chars@, old(self).idx as int, false),
                self.idx != old(self).idx ==> old(self).idx < old(self).chars@.len() && (
                is_space_char(old(self).chars@[old(self).idx as int]) || old(self).chars@[old(
                    self,
                ).idx as int] == '/'),
            decreases self.chars@.len() - self.idx,
        {
            if self.idx >= self.chars.len() {
                proof {
                    assert(spec_trivia_end(self.chars@, self.idx as int, false)
                        == self.idx as int);
                }
                break ;
            }
            let c = self.chars[self.idx];
            if is_space(c) {
                self.advance();
            } else if c == '/' && self.idx + 1 < self.chars.len() && self.chars[self.idx + 1]
                == '/' {
                proof {
                    assert(spec_trivia_end(self.chars@, self.idx as int, false)
                        == spec_trivia_end(self.chars@, self.idx + 2, true));
                }
                self.advance();
                self.advance();
                let ghost mid: int = self.idx as int;
                while self.idx < self.chars.len() && self.chars[self.idx] != '\n'
                    invariant
                        self.wf(),
                        self.source == old(self).source,
                        self.chars == old(self).chars,
                        self.idx >= mid,
                        mid >= old(self).idx,
                        spec_trivia_end(self.chars@, self.idx as int, true) == spec_trivia_end(
                            old(self).chars@,
                            old(self).idx as int,
                            false,
                        ),
                    decreases self.chars@.len() - self.idx,
                {
                    self.advance();
                }
                proof {
                    let cs = self.chars@;
                    let i = self.idx as int;
                    if i < cs.len() {
                        assert(cs[i] == '\n');
                        assert(spec_trivia_end(cs, i, true) == spec_trivia_end(cs, i + 1, false));
                        assert(spec_trivia_end(cs, i, false) == spec_trivia_end(cs, i + 1, false));
                    } else {
                        assert(spec_trivia_end(cs, i, true) == i);
                        assert(spec_trivia_end(cs, i, false) == i);
                    }
                }
            } else {
                proof {
                    assert(spec_trivia_end(self.chars@, self.idx as int, false)
                        == self.idx as int);
                }
                break ;
            }
        }
    }

    /// The source text between two character indices, as a string.
    fn text_range(&self, a: usize, b: usize) -> (t: String)
        requires
            self.wf(),
            a <= b,
            b <= self.chars@.len(),
        ensures
            t@ == self.chars@.subrange(a as int, b as int),
    {
        let s: &str = self.source.code.as_str();
        s.substring_char(a, b).to_owned()
    }

    /// Builds the spanned token for the lexeme consumed since character
    /// index `i0`, whose byte offset was `bstart`.
    fn token_at(&self, i0: usize, bstart: usize, token_type: TokenType) -> (r: Spanned<Token>)
        requires
            self.wf(),
            i0 <= self.idx,
            bstart == byte_len(self.chars@.take(i0 as int)),
        ensures
            r.span.start == bstart,
            r.span.end == self.byte_pos,
            r.node.token_type == token_type,
            r.node.text@ == self.chars@.subrange(i0 as int, self.idx as int),
            lexed_from(self.source.code@, r.span, r.node.text@),
    {
        let text = self.text_range(i0, self.idx);
        let span = Span::new(bstart, self.byte_pos);
        let r = Spanned::from_span(span, Token::new(token_type, text));
        proof {
            assert(token_covers(
                self.source.code@,
                r.span,
                r.node.text@,
                i0 as int,
                self.idx as int,
            ));
            assert(lexed_from(self.source.code@, r.span, r.node.text@));
        }
        r
    }

    /// Builds the spanned lexical error for the unit consumed since
    /// character index `i0`, whose byte offset was `bstart`.
    fn err_at(&self, i0: usize, bstart: usize) -> (r: Spanned<ErrorType>)
        requires
            self.wf(),
            i0 <= self.idx,
            bstart == byte_len(self.chars@.take(i0 as int)),
        ensures
            r.span.start == bstart,
            r.span.end == self.byte_pos,
            r.node == ErrorType::LexError,
            span_from(self.source.code@, r.span),
    {
        let span = Span::new(bstart, self.byte_pos);
        let r = Spanned::from_span(span, ErrorType::LexError);
        proof {
            assert(span_covers(self.source.code@, r.span, i0 as int, self.idx as int));
            assert(span_from(self.source.code@, r.span));
        }
        r
    }

    /// Scans the next item, exactly as the scanning specification
    /// prescribes: trivia is consumed, then `None` at end of input, or
    /// the one maximal-munch token or one-unit `LexError` starting
    /// right after the trivia, with its kind fixed by its lexeme.
    #[verifier::rlimit(100)]
    #[verifier::spinoff_prover]
    pub fn next_token(&mut self) -> (r: Option<Scanned>)
        requires
            old(self).wf(),
        ensures
            final(self).wf(),
            final(self).source == old(self).source,
            final(self).chars == old(self).chars,
            r is Some ==> final(self).idx > old(self).idx,
            r is None ==> final(self).idx == final(self).chars@.len(),
            old(self).idx == old(self).chars@.len() ==> r is None,
            old(self).idx < old(self).chars@.len() && !is_space_char(
                old(self).chars@[old(self).idx as int],
            ) && old(self).chars@[old(self).idx as int] != '/' ==> r is Some,
            r matches Some(item) ==> scanned_ok(final(self).source.code@, item),
            ({
                let cs = old(self).chars@;
                let s = spec_trivia_end(cs, old(self).idx as int, false);
                &&& (r is None <==> s == cs.len())
                &&& (r is None ==> final(self).idx as int == s)
                &&& (r matches Some(item) ==> final(self).idx as int == spec_scan_at(cs, s).0
                    && item_matches(cs, (s, spec_scan_at(cs, s).0, spec_scan_at(cs, s).1), item))
            }),
    {
        self.skip_trivia();
        if self.idx >= self.chars.len() {
            return None;
        }
        let i0 = self.idx;
        let bstart = self.byte_pos;
        let c = self.chars[self.idx];
        if is_word_start(c) {
            self.advance();
            while self.idx < self.chars.len() && is_word(self.chars[self.idx])
                invariant
                    self.wf(),
                    self.source == old(self).source,
                    self.chars == old(self).chars,
                    i0 < self.idx,
                    spec_word_end(self.chars@, self.idx as int) == spec_word_end(
                        self.chars@,
                        i0 as int + 1,
                    ),
                decreases self.chars@.len() - self.idx,
            {
                self.advance();
            }
            proof {
                assert(spec_word_end(self.chars@, self.idx as int) == self.idx as int);
            }
            let text = self.text_range(i0, self.idx);
            let tt = classify_word(text);
            Some(Ok(self.token_at(i0, bstart, tt)))
        } else if is_digit(c) {
            self.advance();
            while self.idx < self.chars.len() && is_digit(self.chars[self.idx])
                invariant
                    self.wf(),
                    self.source == old(self).source,
                    self.chars == old(self).chars,
                    i0 < self.idx,
                    spec_digits_end(self.chars@, self.idx as int) == spec_digits_end(
                        self.chars@,
                        i0 as int + 1,
                    ),
                    forall|k: int| i0 <= k < self.idx ==> is_digit_char(#[trigger] self.chars@[k]),
                decreases self.chars@.len() - self.idx,
            {
                self.advance();
            }
            proof {
                assert(spec_digits_end(self.chars@, self.idx as int) == self.idx as int);
            }
            let ghost j: int = self.idx as int;
            let mut is_float = false;
            if self.idx < self.chars.len() && self.chars[self.idx] == '.' && self.idx + 1
                < self.chars.len() && is_digit(self.chars[self.idx + 1]) {
                is_float = true;
                self.advance();
                while self.idx < self.chars.len() && is_digit(self.chars[self.idx])
                    invariant
                        self.wf(),
                        self.source == old(self).source,
                        self.chars == old(self).chars,
                        i0 < self.idx,
                        j < self.idx,
                        self.chars@[j] == '.',
                        spec_digits_end(self.chars@, self.idx as int) == spec_digits_end(
                            self.chars@,
                            j + 1,
                        ),
                    decreases self.chars@.len() - self.idx,
                {
                    self.advance();
                }
                proof {
                    assert(spec_digits_end(self.chars@, self.idx as int) == self.idx as int);
                    let text = self.chars@.subrange(i0 as int, self.idx as int);
                    assert(text[j - i0] == self.chars@[j]);
                    assert(has_dot(text));
                }
            } else {
                proof {
                    let text = self.chars@.subrange(i0 as int, self.idx as int);
                    assert forall|k: int| 0 <= k < text.len() implies text[k] != '.' by {
                        assert(text[k] == self.chars@[i0 + k]);
                        assert(is_digit_char(self.chars@[i0 + k]));
                    }
                    assert(!has_dot(text));
                }
            }
            let text = self.text_range(i0, self.idx);
            let tt = if is_float {
                TokenType::FloatLit(text)
            } else {
                TokenType::IntLit(text)
            };
            Some(Ok(self.token_at(i0, bstart, tt)))
        } else if c == '"' {
            self.advance();
            while self.idx < self.chars.len() && self.chars[self.idx] != '"'
                invariant
                    self.wf(),
                    self.source == old(self).source,
                    self.chars == old(self).chars,
                    i0 < self.idx,
                    spec_close_quote(self.chars@, self.idx as int) == spec_close_quote(
                        self.chars@,
                        i0 as int + 1,
                    ),
                decreases self.chars@.len() - self.idx,
            {
                self.advance();
            }
            proof {
                assert(spec_close_quote(self.chars@, self.idx as int) == self.idx as int);
            }
            if self.idx < self.chars.len() {
                self.advance();
                let text = self.text_range(i0, self.idx);
                Some(Ok(self.token_at(i0, bstart, TokenType::StringLit(text))))
            } else {
                // unterminated string literal
                Some(Err(self.err_at(i0, bstart)))
            }
        } else if c == '\'' {
            self.advance();
            if self.idx < self.chars.len() && self.chars[self.idx] != '\'' {
                let c1 = self.idx;
                self.advance();
                let c2 = self.idx;
                if self.idx < self.chars.len() && self.chars[self.idx] == '\'' {
                    self.advance();
                    let inner = self.text_range(c1, c2);
                    proof {
                        reveal_strlit("'");
                        assert(self.chars@.subrange(i0 as int, self.idx as int) =~= ("'"@)
                            + self.chars@.subrange(c1 as int, c2 as int) + ("'"@));
                    }
                    Some(Ok(self.token_at(i0, bstart, TokenType::Char(inner))))
                } else {
                    // unterminated character literal
                    Some(Err(self.err_at(i0, bstart)))
                }
            } else {
                // empty or unterminated character literal
                Some(Err(self.err_at(i0, bstart)))
            }
        } else if c == '(' {
            self.advance();
            proof {
                reveal_strlit("(");
                assert(self.chars@.subrange(i0 as int, self.idx as int) =~= ("("@));
            }
            Some(Ok(self.token_at(i0, bstart, TokenType::LeftParen)))
        } else if c == ')' {
            self.advance();
            proof {
                reveal_strlit(")");
                assert(self.chars@.subrange(i0 as int, self.idx as int) =~= (")"@));
            }
            Some(Ok(self.token_at(i0, bstart, TokenType::RightParen)))
        } else if c == '{' {
            self.advance();
            proof {
                reveal_strlit("{");
                assert(self.chars@.subrange(i0 as int, self.idx as int) =~= ("{"@));
            }
            Some(Ok(self.token_at(i0, bstart, TokenType::LeftBrace)))
        } else if c == '}' {
            self.advance();
            proof {
                reveal_strlit("}");
                assert(self.chars@.subrange(i0 as int, self.idx as int) =~= ("}"@));
            }
            Some(Ok(self.token_at(i0, bstart, TokenType::RightBrace)))
        } else if c == '[' {
            self.advance();
            proof {
                reveal_strlit("[");
                assert(self.chars@.subrange(i0 as int, self.idx as int) =~= ("["@));
            }
            Some(Ok(self.token_at(i0, bstart, TokenType::LeftBracket)))
        } else if c == ']' {
            self.advance();
            proof {
                reveal_strlit("]");
                assert(self.chars@.subrange(i0 as int, self.idx as int) =~= ("]"@));
            }
            Some(Ok(self.token_at(i0, bstart, TokenType::RightBracket)))
        } else if c == '+' {
            self.advance();
            proof {
                reveal_strlit("+");
                assert(self.chars@.subrange(i0 as int, self.idx as int) =~= ("+"@));
            }
            Some(Ok(self.token_at(i0, bstart, TokenType::Plus)))
        } else if c == '-' {
            self.advance();
            proof {
                reveal_strlit("-");
                assert(self.chars@.subrange(i0 as int, self.idx as int) =~= ("-"@));
            }
            Some(Ok(self.token_at(i0, bstart, TokenType::Minus)))
        } else if c == '*' {
            self.advance();
            proof {
                reveal_strlit("*");
                assert(self.chars@.subrange(i0 as int, self.idx as int) =~= ("*"@));
            }
            Some(Ok(self.token_at(i0, bstart, TokenType::Star)))
        } else if c == '/' {
            self.advance();
            proof {
                reveal_strlit("/");
                assert(self.chars@.subrange(i0 as int, self.idx as int) =~= ("/"@));
            }
            Some(Ok(self.token_at(i0, bstart, TokenType::Slash)))
        } else if c == '%' {
            self.advance();
            proof {
                reveal_strlit("%");
                assert(self.chars@.subrange(i0 as int, self.idx as int) =~= ("%"@));
            }
            Some(Ok(self.token_at(i0, bstart, TokenType::Modulo)))
        } else if c == ':' {
            self.advance();
            proof {
                reveal_strlit(":");
                assert(self.chars@.subrange(i0 as int, self.idx as int) =~= (":"@));
            }
            Some(Ok(self.token_at(i0, bstart, TokenType::Colon)))
        } else if c == ';' {
            self.advance();
            proof {
                reveal_strlit(";");
                assert(self.chars@.subrange(i0 as int, self.idx as int) =~= (";"@));
            }
            Some(Ok(self.token_at(i0, bstart, TokenType::Semicolon)))
        } else if c == ',' {
            self.advance();
            proof {
                reveal_strlit(",");
                assert(self.chars@.subrange(i0 as int, self.idx as int) =~= (","@));
            }
            Some(Ok(self.token_at(i0, bstart, TokenType::Comma)))
        } else if c == '?' {
            self.advance();
            proof {
                reveal_strlit("?");
                assert(self.chars@.subrange(i0 as int, self.idx as int) =~= ("?"@));
            }
            Some(Ok(self.token_at(i0, bstart, TokenType::Question)))
        } else if c == '=' {
            self.advance();
            if self.idx < self.chars.len() && self.chars[self.idx] == '=' {
                self.advance();
                proof {
                    reveal_strlit("==");
                    assert(self.chars@.subrange(i0 as int, self.idx as int) =~= ("=="@));
                }
                Some(Ok(self.token_at(i0, bstart, TokenType::EqualsEquals)))
            } else if self.idx < self.chars.len() && self.chars[self.idx] == '>' {
                self.advance();
                proof {
                    reveal_strlit("=>");
                    assert(self.chars@.subrange(i0 as int, self.idx as int) =~= ("=>"@));
                }
                Some(Ok(self.token_at(i0, bstart, TokenType::Arrow)))
            } else {
                proof {
                    reveal_strlit("=");
                    assert(self.chars@.subrange(i0 as int, self.idx as int) =~= ("="@));
                }
                Some(Ok(self.token_at(i0, bstart, TokenType::Equals)))
            }
        } else if c == '!' {
            self.advance();
            if self.idx < self.chars.len() && self.chars[self.idx] == '=' {
                self.advance();
                proof {
                    reveal_strlit("!=");
                    assert(self.chars@.subrange(i0 as int, self.idx as int) =~= ("!="@));
                }
                Some(Ok(self.token_at(i0, bstart, TokenType::BangEquals)))
            } else {
                proof {
                    reveal_strlit("!");
                    assert(self.chars@.subrange(i0 as int, self.idx as int) =~= ("!"@));
                }
                Some(Ok(self.token_at(i0, bstart, TokenType::Bang)))
            }
        } else if c == '<' {
            self.advance();
            if self.idx < self.chars.len() && self.chars[self.idx] == '=' {
                self.advance();
                proof {
                    reveal_strlit("<=");
                    assert(self.chars@.subrange(i0 as int, self.idx as int) =~= ("<="@));
                }
                Some(Ok(self.token_at(i0, bstart, TokenType::SmallerEquals)))
            } else {
                proof {
                    reveal_strlit("<");
                    assert(self.chars@.subrange(i0 as int, self.idx as int) =~= ("<"@));
                }
                Some(Ok(self.token_at(i0, bstart, TokenType::Smaller)))
            }
        } else if c == '>' {
            self.advance();
            if self.idx < self.chars.len() && self.chars[self.idx] == '=' {
                self.advance();
                proof {
                    reveal_strlit(">=");
                    assert(self.chars@.subrange(i0 as int, self.idx as int) =~= (">="@));
                }
                Some(Ok(self.token_at(i0, bstart, TokenType::GreaterEquals)))
            } else {
                proof {
                    reveal_strlit(">");
                    assert(self.chars@.subrange(i0 as int, self.idx as int) =~= (">"@));
                }
                Some(Ok(self.token_at(i0, bstart, TokenType::Greater)))
            }
        } else if c == '&' {
            self.advance();
            if self.idx < self.chars.len() && self.chars[self.idx] == '&' {
                self.advance();
                proof {
                    reveal_strlit("&&");
                    assert(self.chars@.subrange(i0 as int, self.idx as int) =~= ("&&"@));
                }
                Some(Ok(self.token_at(i0, bstart, TokenType::AmpersandAmpersand)))
            } else {
                proof {
                    reveal_strlit("&");
                    assert(self.chars@.subrange(i0 as int, self.idx as int) =~= ("&"@));
                }
                Some(Ok(self.token_at(i0, bstart, TokenType::Ampersand)))
            }
        } else if c == '|' {
            self.advance();
            if self.idx < self.chars.len() && self.chars[self.idx] == '|' {
                self.advance();
                proof {
                    reveal_strlit("||");
                    assert(self.chars@.subrange(i0 as int, self.idx as int) =~= ("||"@));
                }
                Some(Ok(self.token_at(i0, bstart, TokenType::PipePipe)))
            } else {
                proof {
                    reveal_strlit("|");
                    assert(self.chars@.subrange(i0 as int, self.idx as int) =~= ("|"@));
                }
                Some(Ok(self.token_at(i0, bstart, TokenType::Pipe)))
            }
        } else if c == '.' {
            self.advance();
            if self.idx < self.chars.len() && self.idx + 1 < self.chars.len() && self.chars[
                self.idx] == '.' && self.chars[self.idx + 1] == '.' {
                self.advance();
                self.advance();
                proof {
                    reveal_strlit("...");
                    assert(self.chars@.subrange(i0 as int, self.idx as int) =~= ("..."@));
                }
                Some(Ok(self.token_at(i0, bstart, TokenType::TripleDot)))
            } else {
                proof {
                    reveal_strlit(".");
                    assert(self.chars@.subrange(i0 as int, self.idx as int) =~= ("."@));
                }
                Some(Ok(self.token_at(i0, bstart, TokenType::Dot)))
            }
        } else {
            // unrecognized character: consume the one offending unit
            self.advance();
            Some(Err(self.err_at(i0, bstart)))
        }
    }

    /// Scans the whole source into exactly the sequence of spanned
    /// tokens and spanned lexical errors that the scanning
    /// specification prescribes: one item per entry of
    /// [`spec_items`], in order.
    pub fn tokenize(source: &Source) -> (r: Vec<Scanned>)
        requires
            source.wf(),
        ensures
            r@.len() == spec_items(source.code@, 0).len(),
            forall|k: int| 0 <= k < r@.len() ==> item_matches(
                source.code@,
                spec_items(source.code@, 0)[k],
                #[trigger] r@[k],
            ),
            forall|k: int| 0 <= k < r@.len() ==> scanned_ok(source.code@, #[trigger] r@[k]),
            source.code@.len() == 0 ==> r@.len() == 0,
            source.code@.len() > 0 && !is_space_char(source.code@[0]) && source.code@[0] != '/'
                ==> r@.len() > 0,
    {
        let mut lx = Lexer::new(source.clone());
        let mut out: Vec<Scanned> = Vec::new();
        proof {
            assert(spec_items(source.code@, 0).skip(0) =~= spec_items(source.code@, 0));
        }
        loop
            invariant
                lx.wf(),
                lx.source.code@ == source.code@,
                out@.len() <= spec_items(source.code@, 0).len(),
                spec_items(source.code@, lx.idx as int) == spec_items(source.code@, 0).skip(
                    out@.len() as int,
                ),
                forall|k: int| 0 <= k < out@.len() ==> item_matches(
                    source.code@,
                    spec_items(source.code@, 0)[k],
                    #[trigger] out@[k],
                ),
                forall|k: int| 0 <= k < out@.len() ==> scanned_ok(
                    source.code@,
                    #[trigger] out@[k],
                ),
                source.code@.len() == 0 ==> out@.len() == 0,
                source.code@.len() > 0 && !is_space_char(source.code@[0]) && source.code@[0]
                    != '/' ==> (out@.len() > 0 || lx.idx == 0),
            ensures
                out@.len() == spec_items(source.code@, 0).len(),
                forall|k: int| 0 <= k < out@.len() ==> item_matches(
                    source.code@,
                    spec_items(source.code@, 0)[k],
                    #[trigger] out@[k],
                ),
                forall|k: int| 0 <= k < out@.len() ==> scanned_ok(
                    source.code@,
                    #[trigger] out@[k],
                ),
                source.code@.len() == 0 ==> out@.len() == 0,
                source.code@.len() > 0 && !is_space_char(source.code@[0]) && source.code@[0]
                    != '/' ==> out@.len() > 0,
            decreases lx.chars@.len() - lx.idx,
        {
            let ghost cs = source.code@;
            let ghost idx0: int = lx.idx as int;
            let ghost n: int = out@.len() as int;
            let r = lx.next_token();
            proof {
                lemma_trivia_end_bounds(cs, idx0, false);
            }
            match r {
                None => {
                    proof {
                        let s = spec_trivia_end(cs, idx0, false);
                        assert(s == cs.len());
                        assert(spec_items(cs, idx0) =~= Seq::<(int, int, bool)>::empty());
                        assert(spec_items(cs, 0).skip(n).len() == 0);
                        assert(n == spec_items(cs, 0).len());
                    }
                    break ;
                },
                Some(item) => {
                    proof {
                        let s = spec_trivia_end(cs, idx0, false);
                        let e = spec_scan_at(cs, s).0;
                        let okk = spec_scan_at(cs, s).1;
                        assert(s < cs.len());
                        assert(spec_items(cs, idx0) =~= seq![(s, e, okk)] + spec_items(cs, e));
                        assert(spec_items(cs, 0).skip(n)[0] == spec_items(cs, 0)[n]);
                        assert(spec_items(cs, 0)[n] == (s, e, okk));
                        assert((seq![(s, e, okk)] + spec_items(cs, e)).drop_first()
                            =~= spec_items(cs, e));
                        assert(spec_items(cs, 0).skip(n).drop_first() =~= spec_items(cs, 0).skip(
                            n + 1,
                        ));
                        assert(spec_items(cs, e) == spec_items(cs, 0).skip(n + 1));
                    }
                    out.push(item);
                },
            }
        }
        out
    }
}

} // verus!
