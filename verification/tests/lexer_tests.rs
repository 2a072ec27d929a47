use frontcore::error::ErrorType;
use frontcore::lexer::{InputPosition, Lexer, Scanner};
use frontcore::span::{Source, Span, Spanned};
use frontcore::token::TokenType;
use frontcore::types::SimpleType;

fn ok_tokens(code: &str) -> Vec<(TokenType, String, Span)> {
    let source = Source::new("test", code);
    Lexer::tokenize(&source)
        .into_iter()
        .map(|item| {
            let sp = item.expect("expected a token, found a lex error");
            (sp.node.token_type, sp.node.text, sp.span)
        })
        .collect()
}

#[test]
fn lex_empty_source_yields_nothing() {
    let source = Source::new("empty", "");
    let items = Lexer::tokenize(&source);
    assert!(items.is_empty());
}

#[test]
fn lex_let_single_keyword_token() {
    let source = Source::new("test", "let");
    let items = Lexer::tokenize(&source);
    assert_eq!(items.len(), 1);
    let sp = items[0].clone().unwrap();
    assert_eq!(sp.node.token_type, TokenType::Let);
    assert_eq!(sp.node.text, "let");
    assert_eq!(sp.span, Span::new(0, 3));
}

#[test]
fn lex_keywords_and_identifiers() {
    let toks = ok_tokens("let mut count9 = null");
    let kinds: Vec<&TokenType> = toks.iter().map(|t| &t.0).collect();
    assert_eq!(
        kinds,
        vec![
            &TokenType::Let,
            &TokenType::Mut,
            &TokenType::Identifier("count9".to_string()),
            &TokenType::Equals,
            &TokenType::NullLit,
        ]
    );
}

#[test]
fn lex_type_identifiers() {
    let toks = ok_tokens("u8 f32 string void");
    assert!(matches!(toks[0].0, TokenType::TypeIdentifier(SimpleType::Uint(_))));
    assert!(matches!(toks[1].0, TokenType::TypeIdentifier(SimpleType::Fp(_))));
    assert_eq!(toks[2].0, TokenType::TypeIdentifier(SimpleType::String));
    assert_eq!(toks[3].0, TokenType::TypeIdentifier(SimpleType::Void));
}

#[test]
fn lex_operators_maximal_munch() {
    let toks = ok_tokens("== = => != ! <= < >= > && & || | ... . ,;:?%");
    let kinds: Vec<&TokenType> = toks.iter().map(|t| &t.0).collect();
    assert_eq!(
        kinds,
        vec![
            &TokenType::EqualsEquals,
            &TokenType::Equals,
            &TokenType::Arrow,
            &TokenType::BangEquals,
            &TokenType::Bang,
            &TokenType::SmallerEquals,
            &TokenType::Smaller,
            &TokenType::GreaterEquals,
            &TokenType::Greater,
            &TokenType::AmpersandAmpersand,
            &TokenType::Ampersand,
            &TokenType::PipePipe,
            &TokenType::Pipe,
            &TokenType::TripleDot,
            &TokenType::Dot,
            &TokenType::Comma,
            &TokenType::Semicolon,
            &TokenType::Colon,
            &TokenType::Question,
            &TokenType::Modulo,
        ]
    );
}

#[test]
fn lex_brackets_and_arithmetic() {
    let toks = ok_tokens("(){}[]+-*/");
    let kinds: Vec<&TokenType> = toks.iter().map(|t| &t.0).collect();
    assert_eq!(
        kinds,
        vec![
            &TokenType::LeftParen,
            &TokenType::RightParen,
            &TokenType::LeftBrace,
            &TokenType::RightBrace,
            &TokenType::LeftBracket,
            &TokenType::RightBracket,
            &TokenType::Plus,
            &TokenType::Minus,
            &TokenType::Star,
            &TokenType::Slash,
        ]
    );
}

#[test]
fn lex_number_literals() {
    let toks = ok_tokens("42 3.14 7.");
    assert_eq!(toks[0].0, TokenType::IntLit("42".to_string()));
    assert_eq!(toks[1].0, TokenType::FloatLit("3.14".to_string()));
    // a dot not followed by a digit is not part of the number
    assert_eq!(toks[2].0, TokenType::IntLit("7".to_string()));
    assert_eq!(toks[3].0, TokenType::Dot);
}

#[test]
fn lex_string_and_char_literals() {
    let toks = ok_tokens("\"hi there\" 'x'");
    assert_eq!(toks[0].0, TokenType::StringLit("\"hi there\"".to_string()));
    assert_eq!(toks[0].1, "\"hi there\"");
    assert_eq!(toks[1].0, TokenType::Char("x".to_string()));
    assert_eq!(toks[1].1, "'x'");
    assert_eq!(toks[1].0.display(), "'x'");
}

#[test]
fn lex_comments_are_skipped() {
    let toks = ok_tokens("let // the rest is ignored\nmut");
    let kinds: Vec<&TokenType> = toks.iter().map(|t| &t.0).collect();
    assert_eq!(kinds, vec![&TokenType::Let, &TokenType::Mut]);
}

#[test]
fn lex_unknown_character_is_lex_error() {
    let source = Source::new("test", "@");
    let items = Lexer::tokenize(&source);
    assert_eq!(items.len(), 1);
    let sp = items[0].clone().unwrap_err();
    assert_eq!(sp.node, ErrorType::LexError);
    assert_eq!(sp.span, Span::new(0, 1));
}

#[test]
fn lex_error_does_not_stop_scanning() {
    let source = Source::new("test", "let @ mut");
    let items = Lexer::tokenize(&source);
    assert_eq!(items.len(), 3);
    assert!(items[0].is_ok());
    assert!(items[1].is_err());
    assert!(items[2].is_ok());
}

#[test]
fn lex_unterminated_string_is_lex_error() {
    let source = Source::new("test", "\"abc");
    let items = Lexer::tokenize(&source);
    assert_eq!(items.len(), 1);
    assert_eq!(items[0].clone().unwrap_err().node, ErrorType::LexError);
}

#[test]
fn spans_are_byte_offsets_and_round_trip() {
    let code = "let s = \"h\u{e9}llo\"; // not\u{e9}\nmut";
    let source = Source::new("test", code);
    let items = Lexer::tokenize(&source);
    for item in items {
        let sp = item.expect("no lex errors expected");
        let sliced = source.slice(sp.span).expect("span must slice cleanly");
        assert_eq!(sliced, sp.node.text);
    }
}

#[test]
fn multibyte_string_literal_span() {
    // the literal holds a two-byte character, so its span is one byte
    // longer than its character count
    let toks = ok_tokens("\"\u{e9}\"");
    assert_eq!(toks[0].1, "\"\u{e9}\"");
    assert_eq!(toks[0].2, Span::new(0, 4));
}

#[test]
fn source_slice_inside_and_out_of_bounds() {
    let source = Source::new("test", "let x");
    assert_eq!(source.slice(Span::new(0, 3)).unwrap(), "let");
    assert_eq!(source.slice(Span::new(4, 5)).unwrap(), "x");
    let e = source.slice(Span::new(3, 99)).unwrap_err();
    assert_eq!(e.get_error_type(), ErrorType::InternalError);
    let e2 = source.slice(Span::new(4, 3)).unwrap_err();
    assert_eq!(e2.get_error_type(), ErrorType::InternalError);
}

#[test]
fn source_slice_misaligned_boundary_is_error() {
    let source = Source::new("test", "\u{e9}a");
    let e = source.slice(Span::new(1, 2)).unwrap_err();
    assert_eq!(e.get_error_type(), ErrorType::InternalError);
    assert_eq!(source.slice(Span::new(0, 2)).unwrap(), "\u{e9}");
}

#[test]
fn source_identity_is_by_name() {
    let a = Source::new("main.src", "let x");
    let b = Source::new("main.src", "something else");
    let c = Source::new("other.src", "let x");
    assert!(a == b);
    assert!(a != c);
}

#[test]
fn lexer_cursor_accessors() {
    let source = Source::new("test", "ab");
    let mut lx = Lexer::new(source);
    assert_eq!(lx.pos(), 0);
    assert_eq!(lx.current(), Some(InputPosition { pos: 0, val: 'a' }));
    assert_eq!(lx.source().name, "test");
    let sp: Spanned<u32> = lx.spanned(0, 7);
    assert_eq!(sp.span, Span::new(0, 0));
    assert_eq!(sp.node, 7);
    let item = lx.next_token().unwrap().unwrap();
    assert_eq!(item.node.token_type, TokenType::Identifier("ab".to_string()));
    assert_eq!(lx.pos(), 2);
    assert_eq!(lx.current(), None);
    assert!(lx.next_token().is_none());
}

#[test]
fn lexer_slice_clamps_end() {
    let source = Source::new("test", "let x");
    let lx = Lexer::new(source);
    assert_eq!(lx.slice(0, 999).unwrap(), "let x");
    assert_eq!(lx.slice(4, 5).unwrap(), "x");
}

#[test]
fn input_position_new_opt() {
    assert_eq!(
        InputPosition::new_opt(Some((3, 'z'))),
        Some(InputPosition { pos: 3, val: 'z' })
    );
    assert_eq!(InputPosition::new_opt(None), None);
}

#[test]
fn span_and_spanned_construction() {
    let s = Span::new(2, 5);
    assert_eq!(s.get_start(), 2);
    assert_eq!(s.get_end(), 5);
    assert_eq!(s.display(), "2:5");
    let sp = Spanned::new(2, 5, "node");
    assert_eq!(sp.span, s);
    assert_eq!(sp.node, "node");
    let sp2 = Spanned::from_span(s, 11u8);
    assert_eq!(sp2.span, Span::new(2, 5));
    assert_eq!(sp2.node, 11);
}

#[test]
fn lex_full_keyword_table() {
    let code = "fn if else import from return extern while type struct trait enum new delete sizeof as static inline abstract";
    let toks = ok_tokens(code);
    let kinds: Vec<&TokenType> = toks.iter().map(|t| &t.0).collect();
    assert_eq!(
        kinds,
        vec![
            &TokenType::Fn,
            &TokenType::If,
            &TokenType::Else,
            &TokenType::Import,
            &TokenType::From,
            &TokenType::Return,
            &TokenType::Extern,
            &TokenType::While,
            &TokenType::Type,
            &TokenType::Struct,
            &TokenType::Trait,
            &TokenType::Enum,
            &TokenType::New,
            &TokenType::Delete,
            &TokenType::Sizeof,
            &TokenType::As,
            &TokenType::Static,
            &TokenType::Inline,
            &TokenType::Abstract,
        ]
    );
    // every keyword's stored lexeme is its own spelling
    for (kind, text, _) in &toks {
        assert_eq!(&kind.display(), text);
    }
}

#[test]
fn lex_all_type_identifiers() {
    let toks = ok_tokens("i8 i16 i32 i64 u8 u16 u32 u64 f16 f32 f64 char bool");
    for (kind, _, _) in &toks {
        assert!(matches!(kind, TokenType::TypeIdentifier(_)));
    }
    assert_eq!(toks.len(), 13);
}

#[test]
fn lex_keyword_prefix_stays_identifier() {
    let toks = ok_tokens("lets letx let_ let");
    assert_eq!(toks[0].0, TokenType::Identifier("lets".to_string()));
    assert_eq!(toks[1].0, TokenType::Identifier("letx".to_string()));
    assert_eq!(toks[2].0, TokenType::Identifier("let_".to_string()));
    assert_eq!(toks[3].0, TokenType::Let);
}

#[test]
fn span_display_multi_digit() {
    assert_eq!(Span::new(12, 345).display(), "12:345");
    assert_eq!(Span::new(0, 0).display(), "0:0");
}

#[test]
fn token_type_display_fixed_spellings() {
    assert_eq!(TokenType::Let.display(), "let");
    assert_eq!(TokenType::Arrow.display(), "=>");
    assert_eq!(TokenType::TripleDot.display(), "...");
    assert_eq!(TokenType::NullLit.display(), "null");
    assert_eq!(TokenType::Identifier("abc".to_string()).display(), "abc");
    assert_eq!(TokenType::IntLit("42".to_string()).display(), "42");
    assert_eq!(TokenType::TypeIdentifier(SimpleType::Char).display(), "char");
}
