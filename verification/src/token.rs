//! Tokens, their kinds and their literal values.

use vstd::prelude::*;
use vstd::utf8::encode_utf8;

verus! {

/// The closed set of token kinds.
#[derive(Debug, Clone, Copy, PartialEq, Eq, Structural)]
pub enum TokenType {
    // Single-character tokens.
    LeftParen,
    RightParen,
    LeftBrace,
    RightBrace,
    Comma,
    Dot,
    Minus,
    Plus,
    Semicolon,
    Slash,
    Star,
    // One or two character tokens.
    Bang,
    BangEqual,
    Equal,
    EqualEqual,
    Greater,
    GreaterEqual,
    Less,
    LessEqual,
    // Literals.
    Identifier,
    String,
    Number,
    // Keywords.
    And,
    Class,
    Else,
    False,
    Fun,
    For,
    If,
    Nil,
    Or,
    Print,
    Return,
    Super,
    This,
    True,
    Var,
    While,
    Eof,
}

/// An unsigned decimal number, kept exactly: the digits of its integer part
/// followed by those of its fraction, and the number of fraction digits.
///
/// `digits = [1, 2, 3, 4, 5, 6]` with `scale = 3` stands for 123.456.
#[derive(Debug, PartialEq, Eq)]
pub struct Decimal {
    /// Digit values (0 to 9), most significant first.
    pub digits: Vec<u8>,
    /// How many of the trailing digits stand behind the decimal point.
    pub scale: usize,
}

/// The mathematical content of a [`Decimal`].
pub struct DecimalView {
    pub digits: Seq<u8>,
    pub scale: nat,
}

/// The natural number that a sequence of digit values spells in base ten.
pub open spec fn digits_value(digits: Seq<u8>) -> nat
    decreases digits.len(),
{
    if digits.len() == 0 {
        0
    } else {
        10 * digits_value(digits.drop_last()) + digits.last() as nat
    }
}

impl DecimalView {
    /// Every digit is below ten, and at least one digit stands before the point.
    pub open spec fn wf(self) -> bool {
        &&& self.scale < self.digits.len()
        &&& forall|i: int| 0 <= i < self.digits.len() ==> #[trigger] self.digits[i] <= 9
    }

    /// The number with the decimal point removed: the value is
    /// `unscaled() / 10^scale`.
    pub open spec fn unscaled(self) -> nat {
        digits_value(self.digits)
    }
}

impl View for Decimal {
    type V = DecimalView;

    open spec fn view(&self) -> DecimalView {
        DecimalView { digits: self.digits@, scale: self.scale as nat }
    }
}

/// The decoded value that a token carries.
#[derive(Debug, PartialEq)]
pub enum Literal {
    Nil,
    Number(Decimal),
    String(String),
    Boolean(bool),
}

/// The mathematical content of a [`Literal`]; text is held as UTF-8 bytes.
pub enum LiteralView {
    Nil,
    Number(DecimalView),
    String(Seq<u8>),
    Boolean(bool),
}

impl View for Literal {
    type V = LiteralView;

    open spec fn view(&self) -> LiteralView {
        match self {
            Literal::Nil => LiteralView::Nil,
            Literal::Number(d) => LiteralView::Number(d@),
            Literal::String(s) => LiteralView::String(encode_utf8(s@)),
            Literal::Boolean(b) => LiteralView::Boolean(*b),
        }
    }
}

/// A classified, located unit of source text.
#[derive(Debug, PartialEq)]
pub struct Token {
    pub token_type: TokenType,
    pub lexeme: String,
    pub literal: Literal,
    pub line: usize,
}

/// The mathematical content of a [`Token`]; the lexeme is held as UTF-8 bytes.
pub struct TokenView {
    pub kind: TokenType,
    pub lexeme: Seq<u8>,
    pub literal: LiteralView,
    pub line: nat,
}

impl View for Token {
    type V = TokenView;

    open spec fn view(&self) -> TokenView {
        TokenView {
            kind: self.token_type,
            lexeme: encode_utf8(self.lexeme@),
            literal: self.literal@,
            line: self.line as nat,
        }
    }
}

impl Token {
    /// Builds a token from its four parts.
    pub fn new(token_type: TokenType, lexeme: String, literal: Literal, line: usize) -> (token:
        Token)
        ensures
            token.token_type == token_type,
            token.lexeme == lexeme,
            token.literal == literal,
            token.line == line,
    {
        Token { token_type, lexeme, literal, line }
    }
}

/// The views of a sequence of tokens, in order.
pub open spec fn token_views(tokens: Seq<Token>) -> Seq<TokenView> {
    Seq::new(tokens.len(), |i: int| tokens[i]@)
}

/// The kind that a reserved word names, over the word's bytes.
pub open spec fn keyword_kind(text: Seq<u8>) -> Option<TokenType> {
    if text == encode_utf8("and"@) {
        Some(TokenType::And)
    } else if text == encode_utf8("class"@) {
        Some(TokenType::Class)
    } else if text == encode_utf8("else"@) {
        Some(TokenType::Else)
    } else if text == encode_utf8("false"@) {
        Some(TokenType::False)
    } else if text == encode_utf8("for"@) {
        Some(TokenType::For)
    } else if text == encode_utf8("fun"@) {
        Some(TokenType::Fun)
    } else if text == encode_utf8("if"@) {
        Some(TokenType::If)
    } else if text == encode_utf8("nil"@) {
        Some(TokenType::Nil)
    } else if text == encode_utf8("or"@) {
        Some(TokenType::Or)
    } else if text == encode_utf8("print"@) {
        Some(TokenType::Print)
    } else if text == encode_utf8("return"@) {
        Some(TokenType::Return)
    } else if text == encode_utf8("super"@) {
        Some(TokenType::Super)
    } else if text == encode_utf8("this"@) {
        Some(TokenType::This)
    } else if text == encode_utf8("true"@) {
        Some(TokenType::True)
    } else if text == encode_utf8("var"@) {
        Some(TokenType::Var)
    } else if text == encode_utf8("while"@) {
        Some(TokenType::While)
    } else {
        None
    }
}

/// Whether two byte strings hold the same bytes.
fn same_bytes(a: &[u8], b: &[u8]) -> (same: bool)
    ensures
        same == (a@ == b@),
{
    if a.len() != b.len() {
        return false;
    }
    let mut i: usize = 0;
    while i < a.len()
        invariant
            a@.len() == b@.len(),
            i <= a@.len(),
            forall|j: int| 0 <= j < i ==> a@[j] == b@[j],
        decreases a@.len() - i,
    {
        if a[i] != b[i] {
            return false;
        }
        i += 1;
    }
    assert(a@ =~= b@);
    true
}

/// Whether `text` spells `word`.
fn spells(text: &str, word: &str) -> (same: bool)
    ensures
        same == (encode_utf8(text@) == encode_utf8(word@)),
{
    same_bytes(text.as_bytes(), word.as_bytes())
}

/// Looks `text` up among the sixteen reserved words.  The match is exact and
/// case-sensitive; `None` means that `text` is no reserved word.
pub fn keyword(text: &str) -> (kind: Option<TokenType>)
    ensures
        kind == keyword_kind(encode_utf8(text@)),
{
    if spells(text, "and") {
        Some(TokenType::And)
    } else if spells(text, "class") {
        Some(TokenType::Class)
    } else if spells(text, "else") {
        Some(TokenType::Else)
    } else if spells(text, "false") {
        Some(TokenType::False)
    } else if spells(text, "for") {
        Some(TokenType::For)
    } else if spells(text, "fun") {
        Some(TokenType::Fun)
    } else if spells(text, "if") {
        Some(TokenType::If)
    } else if spells(text, "nil") {
        Some(TokenType::Nil)
    } else if spells(text, "or") {
        Some(TokenType::Or)
    } else if spells(text, "print") {
        Some(TokenType::Print)
    } else if spells(text, "return") {
        Some(TokenType::Return)
    } else if spells(text, "super") {
        Some(TokenType::Super)
    } else if spells(text, "this") {
        Some(TokenType::This)
    } else if spells(text, "true") {
        Some(TokenType::True)
    } else if spells(text, "var") {
        Some(TokenType::Var)
    } else if spells(text, "while") {
        Some(TokenType::While)
    } else {
        None
    }
}

} // verus!
