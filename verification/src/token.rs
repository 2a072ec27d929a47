//! The token model: the closed set of lexical kinds, with literal kinds
//! carrying their raw lexeme text verbatim, and a resolved
//! type-identifier kind.
use vstd::prelude::*;

use crate::types::SimpleType;
use vstd::string::StringExecFns;

verus! {

/// The closed set of lexical kinds.
#[derive(Debug, Clone, PartialEq)]
pub enum TokenType {
    LeftParen,
    RightParen,
    LeftBrace,
    RightBrace,
    LeftBracket,
    RightBracket,
    Let,
    Fn,
    If,
    Else,
    Import,
    From,
    Return,
    Extern,
    While,
    Type,
    Struct,
    Trait,
    Enum,
    New,
    Delete,
    Sizeof,
    As,
    Static,
    Inline,
    Abstract,
    Mut,
    Bang,
    Equals,
    Plus,
    Minus,
    Star,
    Slash,
    Modulo,
    Smaller,
    Greater,
    Ampersand,
    Pipe,
    TripleDot,
    Colon,
    Semicolon,
    Dot,
    Comma,
    Question,
    EqualsEquals,
    BangEquals,
    SmallerEquals,
    GreaterEquals,
    AmpersandAmpersand,
    PipePipe,
    Arrow,
    NullLit,
    Identifier(String),
    IntLit(String),
    FloatLit(String),
    StringLit(String),
    Char(String),
    TypeIdentifier(SimpleType),
}

impl TokenType {
    /// The canonical text of the kind: the fixed spelling for
    /// punctuation and keywords, the carried lexeme for literal kinds
    /// (character literals are re-quoted), and the canonical type text
    /// for type identifiers.
    pub open spec fn spec_display(self) -> Seq<char> {
        match self {
            TokenType::LeftParen => "("@,
            TokenType::RightParen => ")"@,
            TokenType::LeftBrace => "{"@,
            TokenType::RightBrace => "}"@,
            TokenType::LeftBracket => "["@,
            TokenType::RightBracket => "]"@,
            TokenType::Let => "let"@,
            TokenType::Fn => "fn"@,
            TokenType::If => "if"@,
            TokenType::Else => "else"@,
            TokenType::Import => "import"@,
            TokenType::From => "from"@,
            TokenType::Return => "return"@,
            TokenType::Extern => "extern"@,
            TokenType::While => "while"@,
            TokenType::Type => "type"@,
            TokenType::Struct => "struct"@,
            TokenType::Trait => "trait"@,
            TokenType::Enum => "enum"@,
            TokenType::New => "new"@,
            TokenType::Delete => "delete"@,
            TokenType::Sizeof => "sizeof"@,
            TokenType::As => "as"@,
            TokenType::Static => "static"@,
            TokenType::Inline => "inline"@,
            TokenType::Abstract => "abstract"@,
            TokenType::Mut => "mut"@,
            TokenType::Bang => "!"@,
            TokenType::Equals => "="@,
            TokenType::Plus => "+"@,
            TokenType::Minus => "-"@,
            TokenType::Star => "*"@,
            TokenType::Slash => "/"@,
            TokenType::Modulo => "%"@,
            TokenType::Smaller => "<"@,
            TokenType::Greater => ">"@,
            TokenType::Ampersand => "&"@,
            TokenType::Pipe => "|"@,
            TokenType::TripleDot => "..."@,
            TokenType::Colon => ":"@,
            TokenType::Semicolon => ";"@,
            TokenType::Dot => "."@,
            TokenType::Comma => ","@,
            TokenType::Question => "?"@,
            TokenType::EqualsEquals => "=="@,
            TokenType::BangEquals => "!="@,
            TokenType::SmallerEquals => "<="@,
            TokenType::GreaterEquals => ">="@,
            TokenType::AmpersandAmpersand => "&&"@,
            TokenType::PipePipe => "||"@,
            TokenType::Arrow => "=>"@,
            TokenType::NullLit => "null"@,
            TokenType::Identifier(ident) => ident@,
            TokenType::IntLit(lit) => lit@,
            TokenType::FloatLit(lit) => lit@,
            TokenType::StringLit(s) => s@,
            TokenType::Char(c) => "'"@ + c@ + "'"@,
            TokenType::TypeIdentifier(t) => t.spec_display(),
        }
    }

    pub fn display(&self) -> (r: String)
        ensures
            r@ == self.spec_display(),
    {
        match self {
            TokenType::LeftParen => "(".to_owned(),
            TokenType::RightParen => ")".to_owned(),
            TokenType::LeftBrace => "{".to_owned(),
            TokenType::RightBrace => "}".to_owned(),
            TokenType::LeftBracket => "[".to_owned(),
            TokenType::RightBracket => "]".to_owned(),
            TokenType::Let => "let".to_owned(),
            TokenType::Fn => "fn".to_owned(),
            TokenType::If => "if".to_owned(),
            TokenType::Else => "else".to_owned(),
            TokenType::Import => "import".to_owned(),
            TokenType::From => "from".to_owned(),
            TokenType::Return => "return".to_owned(),
            TokenType::Extern => "extern".to_owned(),
            TokenType::While => "while".to_owned(),
            TokenType::Type => "type".to_owned(),
            TokenType::Struct => "struct".to_owned(),
            TokenType::Trait => "trait".to_owned(),
            TokenType::Enum => "enum".to_owned(),
            TokenType::New => "new".to_owned(),
            TokenType::Delete => "delete".to_owned(),
            TokenType::Sizeof => "sizeof".to_owned(),
            TokenType::As => "as".to_owned(),
            TokenType::Static => "static".to_owned(),
            TokenType::Inline => "inline".to_owned(),
            TokenType::Abstract => "abstract".to_owned(),
            TokenType::Mut => "mut".to_owned(),
            TokenType::Bang => "!".to_owned(),
            TokenType::Equals => "=".to_owned(),
            TokenType::Plus => "+".to_owned(),
            TokenType::Minus => "-".to_owned(),
            TokenType::Star => "*".to_owned(),
            TokenType::Slash => "/".to_owned(),
            TokenType::Modulo => "%".to_owned(),
            TokenType::Smaller => "<".to_owned(),
            TokenType::Greater => ">".to_owned(),
            TokenType::Ampersand => "&".to_owned(),
            TokenType::Pipe => "|".to_owned(),
            TokenType::TripleDot => "...".to_owned(),
            TokenType::Colon => ":".to_owned(),
            TokenType::Semicolon => ";".to_owned(),
            TokenType::Dot => ".".to_owned(),
            TokenType::Comma => ",".to_owned(),
            TokenType::Question => "?".to_owned(),
            TokenType::EqualsEquals => "==".to_owned(),
            TokenType::BangEquals => "!=".to_owned(),
            TokenType::SmallerEquals => "<=".to_owned(),
            TokenType::GreaterEquals => ">=".to_owned(),
            TokenType::AmpersandAmpersand => "&&".to_owned(),
            TokenType::PipePipe => "||".to_owned(),
            TokenType::Arrow => "=>".to_owned(),
            TokenType::NullLit => "null".to_owned(),
            TokenType::Identifier(ident) => ident.clone(),
            TokenType::IntLit(lit) => lit.clone(),
            TokenType::FloatLit(lit) => lit.clone(),
            TokenType::StringLit(s) => s.clone(),
            TokenType::Char(c) => {
                let mut out = "'".to_owned();
                out.append(c.as_str());
                out.append("'");
                out
            },
            TokenType::TypeIdentifier(t) => t.display(),
        }
    }
}

/// A lexical token: its kind and the exact source lexeme it was read
/// from.
#[derive(Debug, Clone, PartialEq)]
pub struct Token {
    pub token_type: TokenType,
    pub text: String,
}

impl Token {
    pub fn new(token_type: TokenType, text: String) -> (r: Self)
        ensures
            r.token_type == token_type,
            r.text == text,
    {
        Self { token_type, text }
    }
}

} // verus!
