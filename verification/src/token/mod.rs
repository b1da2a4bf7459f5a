//! Tokens of the shader language: their kinds, keywords, literals and operators.
pub mod history;
pub mod chars;
pub mod numbers;
pub mod lexicon;
pub mod tokenizer;
pub mod stream;

use vstd::prelude::*;
use crate::text::chars_eq;
use crate::token::history::History;

verus! {

/// Where a token was found, with the source characters read up to it.
#[derive(Clone, Debug)]
pub struct TokCtx {
    pub line: u32,
    pub start_pos: u32,
    pub end_pos: u32,
    pub file: Option<String>,
    pub history: History,
}

/// A token with its source position.
#[derive(Clone, Debug)]
pub struct Token {
    pub ty: TokenType,
    pub ctx: TokCtx,
}

impl Token {
    /// A copy of this token.
    pub fn dup(&self) -> (r: Self)
        ensures
            r.ty@ == self.ty@,
            r.ctx.line == self.ctx.line,
            r.ctx.start_pos == self.ctx.start_pos,
            r.ctx.end_pos == self.ctx.end_pos,
            r.ctx.file == self.ctx.file,
            r.ctx.history.window() == self.ctx.history.window(),
            r.ctx.history.capacity() == self.ctx.history.capacity(),
            self.ctx.history.wf() ==> r.ctx.history.wf(),
    {
        Token { ty: self.ty.dup(), ctx: self.ctx.dup() }
    }
}

/// The kind of a token.
#[derive(Clone, Debug)]
pub enum TokenType {
    LParen,
    RParen,
    LBrace,
    RBrace,
    LBracket,
    RBracket,
    Comma,
    Semi,
    Colon,
    Question,
    Keyword(Keyword),
    Literal(Literal),
    Operator(Operator),
    OperatorAssign(Operator),
    Ident(String),
}

/// Reserved words. The modifiers come first, up to and including `STD430`.
#[derive(Copy, Clone, Debug, PartialEq, Eq, Structural)]
pub enum Keyword {
    Flat,
    Smooth,
    Noperspective,
    Enable,
    Require,
    Warn,
    Disable,
    Readonly,
    Writeonly,
    STD140,
    STD430,
    Fn,
    Struct,
    If,
    Else,
    While,
    For,
    Return,
    Yield,
    Let,
    Const,
    Include,
    Extension,
    Input,
    Output,
    Provide,
    PushConstants,
    Uniform,
    Buffer,
    Break,
    Continue,
    Nonuniform,
    This,
    As,
}

/// A literal value. Floating-point literals are kept as their source text
/// (with a leading `-` when negated), which the language reads as `f32`
/// or `f64` respectively.
#[derive(Clone, Debug)]
pub enum Literal {
    BoolLit(bool),
    IntLit(i32),
    UIntLit(u32),
    FloatLit(String),
    DoubleLit(String),
}

#[derive(Copy, Clone, Debug, PartialEq, Eq, Structural)]
pub enum Operator {
    Assign,
    Plus,
    Minus,
    Mul,
    Div,
    Dot,
    Modulo,
    PlusPlus,
    MinusMinus,
    BitOr,
    BitAnd,
    BitXor,
    BitNegate,
    Greater,
    GreaterEq,
    Less,
    LessEq,
    And,
    Or,
    EqEq,
    Neq,
    Not,
    Lsh,
    Rsh,
    LogicalRsh,
    Merge,
}

/// The mathematical value of a token kind: strings are taken by their characters.
pub enum TokenKind {
    LParen,
    RParen,
    LBrace,
    RBrace,
    LBracket,
    RBracket,
    Comma,
    Semi,
    Colon,
    Question,
    Keyword(Keyword),
    Bool(bool),
    Int(i32),
    UInt(u32),
    Float(Seq<char>),
    Double(Seq<char>),
    Operator(Operator),
    OperatorAssign(Operator),
    Ident(Seq<char>),
}

impl View for TokenType {
    type V = TokenKind;

    open spec fn view(&self) -> TokenKind {
        match self {
            TokenType::LParen => TokenKind::LParen,
            TokenType::RParen => TokenKind::RParen,
            TokenType::LBrace => TokenKind::LBrace,
            TokenType::RBrace => TokenKind::RBrace,
            TokenType::LBracket => TokenKind::LBracket,
            TokenType::RBracket => TokenKind::RBracket,
            TokenType::Comma => TokenKind::Comma,
            TokenType::Semi => TokenKind::Semi,
            TokenType::Colon => TokenKind::Colon,
            TokenType::Question => TokenKind::Question,
            TokenType::Keyword(k) => TokenKind::Keyword(*k),
            TokenType::Literal(Literal::BoolLit(b)) => TokenKind::Bool(*b),
            TokenType::Literal(Literal::IntLit(i)) => TokenKind::Int(*i),
            TokenType::Literal(Literal::UIntLit(u)) => TokenKind::UInt(*u),
            TokenType::Literal(Literal::FloatLit(t)) => TokenKind::Float(t@),
            TokenType::Literal(Literal::DoubleLit(t)) => TokenKind::Double(t@),
            TokenType::Operator(o) => TokenKind::Operator(*o),
            TokenType::OperatorAssign(o) => TokenKind::OperatorAssign(*o),
            TokenType::Ident(s) => TokenKind::Ident(s@),
        }
    }
}

impl TokCtx {
    /// A copy of this position.
    pub fn dup(&self) -> (r: Self)
        ensures
            r.line == self.line,
            r.start_pos == self.start_pos,
            r.end_pos == self.end_pos,
            r.file == self.file,
            r.history.window() == self.history.window(),
            r.history.capacity() == self.history.capacity(),
            self.history.wf() ==> r.history.wf(),
    {
        TokCtx {
            line: self.line,
            start_pos: self.start_pos,
            end_pos: self.end_pos,
            file: clone_file(&self.file),
            history: self.history.dup(),
        }
    }
}

/// A copy of an optional file name.
pub fn clone_file(f: &Option<String>) -> (r: Option<String>)
    ensures
        r == *f,
{
    match f {
        Some(s) => Some(s.clone()),
        None => None,
    }
}

impl Literal {
    /// A copy of this literal.
    pub fn dup(&self) -> (r: Self)
        ensures
            TokenType::Literal(r)@ == TokenType::Literal(*self)@,
    {
        match self {
            Literal::BoolLit(b) => Literal::BoolLit(*b),
            Literal::IntLit(i) => Literal::IntLit(*i),
            Literal::UIntLit(u) => Literal::UIntLit(*u),
            Literal::FloatLit(t) => Literal::FloatLit(t.clone()),
            Literal::DoubleLit(t) => Literal::DoubleLit(t.clone()),
        }
    }
}

impl TokenType {
    /// A copy of this token kind.
    pub fn dup(&self) -> (r: Self)
        ensures
            r@ == self@,
    {
        match self {
            TokenType::LParen => TokenType::LParen,
            TokenType::RParen => TokenType::RParen,
            TokenType::LBrace => TokenType::LBrace,
            TokenType::RBrace => TokenType::RBrace,
            TokenType::LBracket => TokenType::LBracket,
            TokenType::RBracket => TokenType::RBracket,
            TokenType::Comma => TokenType::Comma,
            TokenType::Semi => TokenType::Semi,
            TokenType::Colon => TokenType::Colon,
            TokenType::Question => TokenType::Question,
            TokenType::Keyword(k) => TokenType::Keyword(*k),
            TokenType::Literal(l) => TokenType::Literal(l.dup()),
            TokenType::Operator(o) => TokenType::Operator(*o),
            TokenType::OperatorAssign(o) => TokenType::OperatorAssign(*o),
            TokenType::Ident(s) => TokenType::Ident(s.clone()),
        }
    }

    /// Compares two token kinds (strings by content).
    pub fn same_as(&self, other: &TokenType) -> (r: bool)
        ensures
            r == (self@ == other@),
    {
        match (self, other) {
            (TokenType::LParen, TokenType::LParen) => true,
            (TokenType::RParen, TokenType::RParen) => true,
            (TokenType::LBrace, TokenType::LBrace) => true,
            (TokenType::RBrace, TokenType::RBrace) => true,
            (TokenType::LBracket, TokenType::LBracket) => true,
            (TokenType::RBracket, TokenType::RBracket) => true,
            (TokenType::Comma, TokenType::Comma) => true,
            (TokenType::Semi, TokenType::Semi) => true,
            (TokenType::Colon, TokenType::Colon) => true,
            (TokenType::Question, TokenType::Question) => true,
            (TokenType::Keyword(x), TokenType::Keyword(y)) => *x == *y,
            (TokenType::Literal(Literal::BoolLit(x)), TokenType::Literal(Literal::BoolLit(y))) => *x == *y,
            (TokenType::Literal(Literal::IntLit(x)), TokenType::Literal(Literal::IntLit(y))) => *x == *y,
            (TokenType::Literal(Literal::UIntLit(x)), TokenType::Literal(Literal::UIntLit(y))) => *x == *y,
            (TokenType::Literal(Literal::FloatLit(x)), TokenType::Literal(Literal::FloatLit(y))) => *x == *y,
            (TokenType::Literal(Literal::DoubleLit(x)), TokenType::Literal(Literal::DoubleLit(y))) => *x == *y,
            (TokenType::Operator(x), TokenType::Operator(y)) => *x == *y,
            (TokenType::OperatorAssign(x), TokenType::OperatorAssign(y)) => *x == *y,
            (TokenType::Ident(x), TokenType::Ident(y)) => *x == *y,
            _ => false,
        }
    }
}

/// Binding strength of an operator in binary expressions, `None` for those
/// that cannot appear between two operands.
pub open spec fn binary_precedence(op: Operator) -> Option<u8> {
    match op {
        Operator::Not | Operator::PlusPlus | Operator::MinusMinus => Some(8),
        Operator::Mul | Operator::Div | Operator::Modulo => Some(7),
        Operator::Plus | Operator::Minus => Some(6),
        Operator::Lsh | Operator::LogicalRsh | Operator::Rsh => Some(5),
        Operator::Less | Operator::Greater | Operator::LessEq | Operator::GreaterEq => Some(4),
        Operator::EqEq | Operator::Neq => Some(3),
        Operator::BitAnd | Operator::BitOr | Operator::BitXor | Operator::BitNegate => Some(2),
        Operator::And | Operator::Or => Some(1),
        Operator::Merge => Some(0),
        _ => None,
    }
}

impl Operator {
    /// Binding strength of this operator, `None` when it is not a binary operator.
    pub fn binary_precedence(&self) -> (r: Option<u8>)
        ensures
            r == binary_precedence(*self),
    {
        match self {
            Operator::Not | Operator::PlusPlus | Operator::MinusMinus => Some(8),
            Operator::Mul | Operator::Div | Operator::Modulo => Some(7),
            Operator::Plus | Operator::Minus => Some(6),
            Operator::Lsh | Operator::LogicalRsh | Operator::Rsh => Some(5),
            Operator::Less | Operator::Greater | Operator::LessEq | Operator::GreaterEq => Some(4),
            Operator::EqEq | Operator::Neq => Some(3),
            Operator::BitAnd | Operator::BitOr | Operator::BitXor | Operator::BitNegate => Some(2),
            Operator::And | Operator::Or => Some(1),
            Operator::Merge => Some(0),
            _ => None,
        }
    }
}

/// The spelling of a keyword in source text.
pub open spec fn keyword_text(k: Keyword) -> Seq<char> {
    match k {
        Keyword::Flat => seq!['f', 'l', 'a', 't'],
        Keyword::Smooth => seq!['s', 'm', 'o', 'o', 't', 'h'],
        Keyword::Noperspective => seq!['n', 'o', 'p', 'e', 'r', 's', 'p', 'e', 'c', 't', 'i', 'v', 'e'],
        Keyword::Enable => seq!['e', 'n', 'a', 'b', 'l', 'e'],
        Keyword::Require => seq!['r', 'e', 'q', 'u', 'i', 'r', 'e'],
        Keyword::Warn => seq!['w', 'a', 'r', 'n'],
        Keyword::Disable => seq!['d', 'i', 's', 'a', 'b', 'l', 'e'],
        Keyword::Readonly => seq!['r', 'e', 'a', 'd', 'o', 'n', 'l', 'y'],
        Keyword::Writeonly => seq!['w', 'r', 'i', 't', 'e', 'o', 'n', 'l', 'y'],
        Keyword::STD140 => seq!['s', 't', 'd', '1', '4', '0'],
        Keyword::STD430 => seq!['s', 't', 'd', '4', '3', '0'],
        Keyword::Fn => seq!['f', 'n'],
        Keyword::Struct => seq!['s', 't', 'r', 'u', 'c', 't'],
        Keyword::If => seq!['i', 'f'],
        Keyword::Else => seq!['e', 'l', 's', 'e'],
        Keyword::While => seq!['w', 'h', 'i', 'l', 'e'],
        Keyword::For => seq!['f', 'o', 'r'],
        Keyword::Return => seq!['r', 'e', 't', 'u', 'r', 'n'],
        Keyword::Yield => seq!['y', 'i', 'e', 'l', 'd'],
        Keyword::Let => seq!['l', 'e', 't'],
        Keyword::Const => seq!['c', 'o', 'n', 's', 't'],
        Keyword::Include => seq!['i', 'n', 'c', 'l', 'u', 'd', 'e'],
        Keyword::Extension => seq!['e', 'x', 't', 'e', 'n', 's', 'i', 'o', 'n'],
        Keyword::Input => seq!['i', 'n', 'p', 'u', 't'],
        Keyword::Output => seq!['o', 'u', 't', 'p', 'u', 't'],
        Keyword::Provide => seq!['p', 'r', 'o', 'v', 'i', 'd', 'e'],
        Keyword::PushConstants => seq!['p', 'u', 's', 'h', '_', 'c', 'o', 'n', 's', 't', 'a', 'n', 't', 's'],
        Keyword::Uniform => seq!['u', 'n', 'i', 'f', 'o', 'r', 'm'],
        Keyword::Buffer => seq!['b', 'u', 'f', 'f', 'e', 'r'],
        Keyword::Break => seq!['b', 'r', 'e', 'a', 'k'],
        Keyword::Continue => seq!['c', 'o', 'n', 't', 'i', 'n', 'u', 'e'],
        Keyword::Nonuniform => seq!['n', 'o', 'n', 'u', 'n', 'i', 'f', 'o', 'r', 'm'],
        Keyword::This => seq!['t', 'h', 'i', 's'],
        Keyword::As => seq!['a', 's'],
    }
}

/// The keyword spelled by `s`, if any.
pub open spec fn keyword_of(s: Seq<char>) -> Option<Keyword> {
    if s == seq!['f', 'l', 'a', 't'] {
        Some(Keyword::Flat)
    } else if s == seq!['s', 'm', 'o', 'o', 't', 'h'] {
        Some(Keyword::Smooth)
    } else if s == seq!['n', 'o', 'p', 'e', 'r', 's', 'p', 'e', 'c', 't', 'i', 'v', 'e'] {
        Some(Keyword::Noperspective)
    } else if s == seq!['e', 'n', 'a', 'b', 'l', 'e'] {
        Some(Keyword::Enable)
    } else if s == seq!['r', 'e', 'q', 'u', 'i', 'r', 'e'] {
        Some(Keyword::Require)
    } else if s == seq!['w', 'a', 'r', 'n'] {
        Some(Keyword::Warn)
    } else if s == seq!['d', 'i', 's', 'a', 'b', 'l', 'e'] {
        Some(Keyword::Disable)
    } else if s == seq!['r', 'e', 'a', 'd', 'o', 'n', 'l', 'y'] {
        Some(Keyword::Readonly)
    } else if s == seq!['w', 'r', 'i', 't', 'e', 'o', 'n', 'l', 'y'] {
        Some(Keyword::Writeonly)
    } else if s == seq!['s', 't', 'd', '1', '4', '0'] {
        Some(Keyword::STD140)
    } else if s == seq!['s', 't', 'd', '4', '3', '0'] {
        Some(Keyword::STD430)
    } else if s == seq!['f', 'n'] {
        Some(Keyword::Fn)
    } else if s == seq!['s', 't', 'r', 'u', 'c', 't'] {
        Some(Keyword::Struct)
    } else if s == seq!['i', 'f'] {
        Some(Keyword::If)
    } else if s == seq!['e', 'l', 's', 'e'] {
        Some(Keyword::Else)
    } else if s == seq!['w', 'h', 'i', 'l', 'e'] {
        Some(Keyword::While)
    } else if s == seq!['f', 'o', 'r'] {
        Some(Keyword::For)
    } else if s == seq!['r', 'e', 't', 'u', 'r', 'n'] {
        Some(Keyword::Return)
    } else if s == seq!['y', 'i', 'e', 'l', 'd'] {
        Some(Keyword::Yield)
    } else if s == seq!['l', 'e', 't'] {
        Some(Keyword::Let)
    } else if s == seq!['c', 'o', 'n', 's', 't'] {
        Some(Keyword::Const)
    } else if s == seq!['i', 'n', 'c', 'l', 'u', 'd', 'e'] {
        Some(Keyword::Include)
    } else if s == seq!['e', 'x', 't', 'e', 'n', 's', 'i', 'o', 'n'] {
        Some(Keyword::Extension)
    } else if s == seq!['i', 'n', 'p', 'u', 't'] {
        Some(Keyword::Input)
    } else if s == seq!['o', 'u', 't', 'p', 'u', 't'] {
        Some(Keyword::Output)
    } else if s == seq!['p', 'r', 'o', 'v', 'i', 'd', 'e'] {
        Some(Keyword::Provide)
    } else if s == seq!['p', 'u', 's', 'h', '_', 'c', 'o', 'n', 's', 't', 'a', 'n', 't', 's'] {
        Some(Keyword::PushConstants)
    } else if s == seq!['u', 'n', 'i', 'f', 'o', 'r', 'm'] {
        Some(Keyword::Uniform)
    } else if s == seq!['b', 'u', 'f', 'f', 'e', 'r'] {
        Some(Keyword::Buffer)
    } else if s == seq!['b', 'r', 'e', 'a', 'k'] {
        Some(Keyword::Break)
    } else if s == seq!['c', 'o', 'n', 't', 'i', 'n', 'u', 'e'] {
        Some(Keyword::Continue)
    } else if s == seq!['n', 'o', 'n', 'u', 'n', 'i', 'f', 'o', 'r', 'm'] {
        Some(Keyword::Nonuniform)
    } else if s == seq!['t', 'h', 'i', 's'] {
        Some(Keyword::This)
    } else if s == seq!['a', 's'] {
        Some(Keyword::As)
    } else {
        None
    }
}

/// The name of a keyword's variant, as debugging output shows it.
pub open spec fn keyword_name(k: Keyword) -> Seq<char> {
    match k {
        Keyword::Flat => "Flat"@,
        Keyword::Smooth => "Smooth"@,
        Keyword::Noperspective => "Noperspective"@,
        Keyword::Enable => "Enable"@,
        Keyword::Require => "Require"@,
        Keyword::Warn => "Warn"@,
        Keyword::Disable => "Disable"@,
        Keyword::Readonly => "Readonly"@,
        Keyword::Writeonly => "Writeonly"@,
        Keyword::STD140 => "STD140"@,
        Keyword::STD430 => "STD430"@,
        Keyword::Fn => "Fn"@,
        Keyword::Struct => "Struct"@,
        Keyword::If => "If"@,
        Keyword::Else => "Else"@,
        Keyword::While => "While"@,
        Keyword::For => "For"@,
        Keyword::Return => "Return"@,
        Keyword::Yield => "Yield"@,
        Keyword::Let => "Let"@,
        Keyword::Const => "Const"@,
        Keyword::Include => "Include"@,
        Keyword::Extension => "Extension"@,
        Keyword::Input => "Input"@,
        Keyword::Output => "Output"@,
        Keyword::Provide => "Provide"@,
        Keyword::PushConstants => "PushConstants"@,
        Keyword::Uniform => "Uniform"@,
        Keyword::Buffer => "Buffer"@,
        Keyword::Break => "Break"@,
        Keyword::Continue => "Continue"@,
        Keyword::Nonuniform => "Nonuniform"@,
        Keyword::This => "This"@,
        Keyword::As => "As"@,
    }
}

impl Keyword {
    /// Appends the name of this keyword's variant.
    pub fn push_name(&self, v: &mut Vec<char>)
        ensures
            final(v)@ == old(v)@ + keyword_name(*self),
    {
        match self {
            Keyword::Flat => crate::text::push_lit(v, "Flat"),
            Keyword::Smooth => crate::text::push_lit(v, "Smooth"),
            Keyword::Noperspective => crate::text::push_lit(v, "Noperspective"),
            Keyword::Enable => crate::text::push_lit(v, "Enable"),
            Keyword::Require => crate::text::push_lit(v, "Require"),
            Keyword::Warn => crate::text::push_lit(v, "Warn"),
            Keyword::Disable => crate::text::push_lit(v, "Disable"),
            Keyword::Readonly => crate::text::push_lit(v, "Readonly"),
            Keyword::Writeonly => crate::text::push_lit(v, "Writeonly"),
            Keyword::STD140 => crate::text::push_lit(v, "STD140"),
            Keyword::STD430 => crate::text::push_lit(v, "STD430"),
            Keyword::Fn => crate::text::push_lit(v, "Fn"),
            Keyword::Struct => crate::text::push_lit(v, "Struct"),
            Keyword::If => crate::text::push_lit(v, "If"),
            Keyword::Else => crate::text::push_lit(v, "Else"),
            Keyword::While => crate::text::push_lit(v, "While"),
            Keyword::For => crate::text::push_lit(v, "For"),
            Keyword::Return => crate::text::push_lit(v, "Return"),
            Keyword::Yield => crate::text::push_lit(v, "Yield"),
            Keyword::Let => crate::text::push_lit(v, "Let"),
            Keyword::Const => crate::text::push_lit(v, "Const"),
            Keyword::Include => crate::text::push_lit(v, "Include"),
            Keyword::Extension => crate::text::push_lit(v, "Extension"),
            Keyword::Input => crate::text::push_lit(v, "Input"),
            Keyword::Output => crate::text::push_lit(v, "Output"),
            Keyword::Provide => crate::text::push_lit(v, "Provide"),
            Keyword::PushConstants => crate::text::push_lit(v, "PushConstants"),
            Keyword::Uniform => crate::text::push_lit(v, "Uniform"),
            Keyword::Buffer => crate::text::push_lit(v, "Buffer"),
            Keyword::Break => crate::text::push_lit(v, "Break"),
            Keyword::Continue => crate::text::push_lit(v, "Continue"),
            Keyword::Nonuniform => crate::text::push_lit(v, "Nonuniform"),
            Keyword::This => crate::text::push_lit(v, "This"),
            Keyword::As => crate::text::push_lit(v, "As"),
        }
    }

    /// The characters of this keyword's spelling.
    pub fn text_chars(&self) -> (r: Vec<char>)
        ensures
            r@ == keyword_text(*self),
    {
        match self {
            Keyword::Flat => vec!['f', 'l', 'a', 't'],
            Keyword::Smooth => vec!['s', 'm', 'o', 'o', 't', 'h'],
            Keyword::Noperspective => vec!['n', 'o', 'p', 'e', 'r', 's', 'p', 'e', 'c', 't', 'i', 'v', 'e'],
            Keyword::Enable => vec!['e', 'n', 'a', 'b', 'l', 'e'],
            Keyword::Require => vec!['r', 'e', 'q', 'u', 'i', 'r', 'e'],
            Keyword::Warn => vec!['w', 'a', 'r', 'n'],
            Keyword::Disable => vec!['d', 'i', 's', 'a', 'b', 'l', 'e'],
            Keyword::Readonly => vec!['r', 'e', 'a', 'd', 'o', 'n', 'l', 'y'],
            Keyword::Writeonly => vec!['w', 'r', 'i', 't', 'e', 'o', 'n', 'l', 'y'],
            Keyword::STD140 => vec!['s', 't', 'd', '1', '4', '0'],
            Keyword::STD430 => vec!['s', 't', 'd', '4', '3', '0'],
            Keyword::Fn => vec!['f', 'n'],
            Keyword::Struct => vec!['s', 't', 'r', 'u', 'c', 't'],
            Keyword::If => vec!['i', 'f'],
            Keyword::Else => vec!['e', 'l', 's', 'e'],
            Keyword::While => vec!['w', 'h', 'i', 'l', 'e'],
            Keyword::For => vec!['f', 'o', 'r'],
            Keyword::Return => vec!['r', 'e', 't', 'u', 'r', 'n'],
            Keyword::Yield => vec!['y', 'i', 'e', 'l', 'd'],
            Keyword::Let => vec!['l', 'e', 't'],
            Keyword::Const => vec!['c', 'o', 'n', 's', 't'],
            Keyword::Include => vec!['i', 'n', 'c', 'l', 'u', 'd', 'e'],
            Keyword::Extension => vec!['e', 'x', 't', 'e', 'n', 's', 'i', 'o', 'n'],
            Keyword::Input => vec!['i', 'n', 'p', 'u', 't'],
            Keyword::Output => vec!['o', 'u', 't', 'p', 'u', 't'],
            Keyword::Provide => vec!['p', 'r', 'o', 'v', 'i', 'd', 'e'],
            Keyword::PushConstants => vec!['p', 'u', 's', 'h', '_', 'c', 'o', 'n', 's', 't', 'a', 'n', 't', 's'],
            Keyword::Uniform => vec!['u', 'n', 'i', 'f', 'o', 'r', 'm'],
            Keyword::Buffer => vec!['b', 'u', 'f', 'f', 'e', 'r'],
            Keyword::Break => vec!['b', 'r', 'e', 'a', 'k'],
            Keyword::Continue => vec!['c', 'o', 'n', 't', 'i', 'n', 'u', 'e'],
            Keyword::Nonuniform => vec!['n', 'o', 'n', 'u', 'n', 'i', 'f', 'o', 'r', 'm'],
            Keyword::This => vec!['t', 'h', 'i', 's'],
            Keyword::As => vec!['a', 's'],
        }
    }

    /// Looks up the keyword spelled by `s` (what `str::parse` gives for keywords).
    pub fn from_chars(s: &Vec<char>) -> (r: Option<Keyword>)
        ensures
            r == keyword_of(s@),
    {
        if chars_eq(s, &vec!['f', 'l', 'a', 't']) {
            return Some(Keyword::Flat);
        }
        if chars_eq(s, &vec!['s', 'm', 'o', 'o', 't', 'h']) {
            return Some(Keyword::Smooth);
        }
        if chars_eq(s, &vec!['n', 'o', 'p', 'e', 'r', 's', 'p', 'e', 'c', 't', 'i', 'v', 'e']) {
            return Some(Keyword::Noperspective);
        }
        if chars_eq(s, &vec!['e', 'n', 'a', 'b', 'l', 'e']) {
            return Some(Keyword::Enable);
        }
        if chars_eq(s, &vec!['r', 'e', 'q', 'u', 'i', 'r', 'e']) {
            return Some(Keyword::Require);
        }
        if chars_eq(s, &vec!['w', 'a', 'r', 'n']) {
            return Some(Keyword::Warn);
        }
        if chars_eq(s, &vec!['d', 'i', 's', 'a', 'b', 'l', 'e']) {
            return Some(Keyword::Disable);
        }
        if chars_eq(s, &vec!['r', 'e', 'a', 'd', 'o', 'n', 'l', 'y']) {
            return Some(Keyword::Readonly);
        }
        if chars_eq(s, &vec!['w', 'r', 'i', 't', 'e', 'o', 'n', 'l', 'y']) {
            return Some(Keyword::Writeonly);
        }
        if chars_eq(s, &vec!['s', 't', 'd', '1', '4', '0']) {
            return Some(Keyword::STD140);
        }
        if chars_eq(s, &vec!['s', 't', 'd', '4', '3', '0']) {
            return Some(Keyword::STD430);
        }
        if chars_eq(s, &vec!['f', 'n']) {
            return Some(Keyword::Fn);
        }
        if chars_eq(s, &vec!['s', 't', 'r', 'u', 'c', 't']) {
            return Some(Keyword::Struct);
        }
        if chars_eq(s, &vec!['i', 'f']) {
            return Some(Keyword::If);
        }
        if chars_eq(s, &vec!['e', 'l', 's', 'e']) {
            return Some(Keyword::Else);
        }
        if chars_eq(s, &vec!['w', 'h', 'i', 'l', 'e']) {
            return Some(Keyword::While);
        }
        if chars_eq(s, &vec!['f', 'o', 'r']) {
            return Some(Keyword::For);
        }
        if chars_eq(s, &vec!['r', 'e', 't', 'u', 'r', 'n']) {
            return Some(Keyword::Return);
        }
        if chars_eq(s, &vec!['y', 'i', 'e', 'l', 'd']) {
            return Some(Keyword::Yield);
        }
        if chars_eq(s, &vec!['l', 'e', 't']) {
            return Some(Keyword::Let);
        }
        if chars_eq(s, &vec!['c', 'o', 'n', 's', 't']) {
            return Some(Keyword::Const);
        }
        if chars_eq(s, &vec!['i', 'n', 'c', 'l', 'u', 'd', 'e']) {
            return Some(Keyword::Include);
        }
        if chars_eq(s, &vec!['e', 'x', 't', 'e', 'n', 's', 'i', 'o', 'n']) {
            return Some(Keyword::Extension);
        }
        if chars_eq(s, &vec!['i', 'n', 'p', 'u', 't']) {
            return Some(Keyword::Input);
        }
        if chars_eq(s, &vec!['o', 'u', 't', 'p', 'u', 't']) {
            return Some(Keyword::Output);
        }
        if chars_eq(s, &vec!['p', 'r', 'o', 'v', 'i', 'd', 'e']) {
            return Some(Keyword::Provide);
        }
        if chars_eq(s, &vec!['p', 'u', 's', 'h', '_', 'c', 'o', 'n', 's', 't', 'a', 'n', 't', 's']) {
            return Some(Keyword::PushConstants);
        }
        if chars_eq(s, &vec!['u', 'n', 'i', 'f', 'o', 'r', 'm']) {
            return Some(Keyword::Uniform);
        }
        if chars_eq(s, &vec!['b', 'u', 'f', 'f', 'e', 'r']) {
            return Some(Keyword::Buffer);
        }
        if chars_eq(s, &vec!['b', 'r', 'e', 'a', 'k']) {
            return Some(Keyword::Break);
        }
        if chars_eq(s, &vec!['c', 'o', 'n', 't', 'i', 'n', 'u', 'e']) {
            return Some(Keyword::Continue);
        }
        if chars_eq(s, &vec!['n', 'o', 'n', 'u', 'n', 'i', 'f', 'o', 'r', 'm']) {
            return Some(Keyword::Nonuniform);
        }
        if chars_eq(s, &vec!['t', 'h', 'i', 's']) {
            return Some(Keyword::This);
        }
        if chars_eq(s, &vec!['a', 's']) {
            return Some(Keyword::As);
        }
        None
    }
}
/// The text an operator is displayed as.
pub open spec fn operator_text(op: Operator) -> Seq<char> {
    match op {
        Operator::Assign => seq!['='],
        Operator::Plus => seq!['+'],
        Operator::Minus => seq!['_'],
        Operator::Mul => seq!['*'],
        Operator::Div => seq!['/'],
        Operator::Dot => seq!['.'],
        Operator::Modulo => seq!['%'],
        Operator::PlusPlus => seq!['+', '+'],
        Operator::MinusMinus => seq!['-', '-'],
        Operator::BitOr => seq!['|'],
        Operator::BitAnd => seq!['&'],
        Operator::BitXor => seq!['^'],
        Operator::BitNegate => seq!['~'],
        Operator::Greater => seq!['>'],
        Operator::GreaterEq => seq!['>', '='],
        Operator::Less => seq!['<'],
        Operator::LessEq => seq!['>', '='],
        Operator::And => seq!['&', '&'],
        Operator::Or => seq!['|', '|'],
        Operator::EqEq => seq!['=', '='],
        Operator::Neq => seq!['!', '='],
        Operator::Not => seq!['!'],
        Operator::Lsh => seq!['<', '<'],
        Operator::Rsh => seq!['>', '>'],
        Operator::LogicalRsh => seq!['>', '>', '>'],
        Operator::Merge => seq!['-', '>'],
    }
}

/// The name an operator is shown by in messages (its variant name).
pub open spec fn operator_name(op: Operator) -> Seq<char> {
    match op {
        Operator::Assign => seq!['A', 's', 's', 'i', 'g', 'n'],
        Operator::Plus => seq!['P', 'l', 'u', 's'],
        Operator::Minus => seq!['M', 'i', 'n', 'u', 's'],
        Operator::Mul => seq!['M', 'u', 'l'],
        Operator::Div => seq!['D', 'i', 'v'],
        Operator::Dot => seq!['D', 'o', 't'],
        Operator::Modulo => seq!['M', 'o', 'd', 'u', 'l', 'o'],
        Operator::PlusPlus => seq!['P', 'l', 'u', 's', 'P', 'l', 'u', 's'],
        Operator::MinusMinus => seq!['M', 'i', 'n', 'u', 's', 'M', 'i', 'n', 'u', 's'],
        Operator::BitOr => seq!['B', 'i', 't', 'O', 'r'],
        Operator::BitAnd => seq!['B', 'i', 't', 'A', 'n', 'd'],
        Operator::BitXor => seq!['B', 'i', 't', 'X', 'o', 'r'],
        Operator::BitNegate => seq!['B', 'i', 't', 'N', 'e', 'g', 'a', 't', 'e'],
        Operator::Greater => seq!['G', 'r', 'e', 'a', 't', 'e', 'r'],
        Operator::GreaterEq => seq!['G', 'r', 'e', 'a', 't', 'e', 'r', 'E', 'q'],
        Operator::Less => seq!['L', 'e', 's', 's'],
        Operator::LessEq => seq!['L', 'e', 's', 's', 'E', 'q'],
        Operator::And => seq!['A', 'n', 'd'],
        Operator::Or => seq!['O', 'r'],
        Operator::EqEq => seq!['E', 'q', 'E', 'q'],
        Operator::Neq => seq!['N', 'e', 'q'],
        Operator::Not => seq!['N', 'o', 't'],
        Operator::Lsh => seq!['L', 's', 'h'],
        Operator::Rsh => seq!['R', 's', 'h'],
        Operator::LogicalRsh => seq!['L', 'o', 'g', 'i', 'c', 'a', 'l', 'R', 's', 'h'],
        Operator::Merge => seq!['M', 'e', 'r', 'g', 'e'],
    }
}

impl Operator {
    /// The characters this operator is displayed as.
    pub fn text_chars(&self) -> (r: Vec<char>)
        ensures
            r@ == operator_text(*self),
    {
        match self {
            Operator::Assign => vec!['='],
            Operator::Plus => vec!['+'],
            Operator::Minus => vec!['_'],
            Operator::Mul => vec!['*'],
            Operator::Div => vec!['/'],
            Operator::Dot => vec!['.'],
            Operator::Modulo => vec!['%'],
            Operator::PlusPlus => vec!['+', '+'],
            Operator::MinusMinus => vec!['-', '-'],
            Operator::BitOr => vec!['|'],
            Operator::BitAnd => vec!['&'],
            Operator::BitXor => vec!['^'],
            Operator::BitNegate => vec!['~'],
            Operator::Greater => vec!['>'],
            Operator::GreaterEq => vec!['>', '='],
            Operator::Less => vec!['<'],
            Operator::LessEq => vec!['>', '='],
            Operator::And => vec!['&', '&'],
            Operator::Or => vec!['|', '|'],
            Operator::EqEq => vec!['=', '='],
            Operator::Neq => vec!['!', '='],
            Operator::Not => vec!['!'],
            Operator::Lsh => vec!['<', '<'],
            Operator::Rsh => vec!['>', '>'],
            Operator::LogicalRsh => vec!['>', '>', '>'],
            Operator::Merge => vec!['-', '>'],
        }
    }

    /// The characters of this operator's variant name.
    pub fn name_chars(&self) -> (r: Vec<char>)
        ensures
            r@ == operator_name(*self),
    {
        match self {
            Operator::Assign => vec!['A', 's', 's', 'i', 'g', 'n'],
            Operator::Plus => vec!['P', 'l', 'u', 's'],
            Operator::Minus => vec!['M', 'i', 'n', 'u', 's'],
            Operator::Mul => vec!['M', 'u', 'l'],
            Operator::Div => vec!['D', 'i', 'v'],
            Operator::Dot => vec!['D', 'o', 't'],
            Operator::Modulo => vec!['M', 'o', 'd', 'u', 'l', 'o'],
            Operator::PlusPlus => vec!['P', 'l', 'u', 's', 'P', 'l', 'u', 's'],
            Operator::MinusMinus => vec!['M', 'i', 'n', 'u', 's', 'M', 'i', 'n', 'u', 's'],
            Operator::BitOr => vec!['B', 'i', 't', 'O', 'r'],
            Operator::BitAnd => vec!['B', 'i', 't', 'A', 'n', 'd'],
            Operator::BitXor => vec!['B', 'i', 't', 'X', 'o', 'r'],
            Operator::BitNegate => vec!['B', 'i', 't', 'N', 'e', 'g', 'a', 't', 'e'],
            Operator::Greater => vec!['G', 'r', 'e', 'a', 't', 'e', 'r'],
            Operator::GreaterEq => vec!['G', 'r', 'e', 'a', 't', 'e', 'r', 'E', 'q'],
            Operator::Less => vec!['L', 'e', 's', 's'],
            Operator::LessEq => vec!['L', 'e', 's', 's', 'E', 'q'],
            Operator::And => vec!['A', 'n', 'd'],
            Operator::Or => vec!['O', 'r'],
            Operator::EqEq => vec!['E', 'q', 'E', 'q'],
            Operator::Neq => vec!['N', 'e', 'q'],
            Operator::Not => vec!['N', 'o', 't'],
            Operator::Lsh => vec!['L', 's', 'h'],
            Operator::Rsh => vec!['R', 's', 'h'],
            Operator::LogicalRsh => vec!['L', 'o', 'g', 'i', 'c', 'a', 'l', 'R', 's', 'h'],
            Operator::Merge => vec!['M', 'e', 'r', 'g', 'e'],
        }
    }
}
impl Operator {
    /// Binding strength of this operator between two operands. An operator
    /// that cannot stand there is an error at `ctx`, with the text that
    /// `tail_gen` gives (called only then) and, for `=`, a hint.
    pub fn precedence(&self, ctx: &TokCtx, tail_gen: impl FnOnce() -> String) -> (r: Result<u8, crate::parser::err::ParseErr>)
        requires
            tail_gen.requires(()),
        ensures
            binary_precedence(*self) matches Some(p) ==> r == Ok::<u8, crate::parser::err::ParseErr>(p),
            binary_precedence(*self) is None ==> {
                &&& r matches Err(e)
                &&& e.ty == crate::parser::err::ParseErrType::NonBinaryCompatibleOperator(*self)
                &&& tail_gen.ensures((), e.tail)
                &&& e.ctx.line == ctx.line
                &&& e.ctx.start_pos == ctx.start_pos
                &&& e.ctx.end_pos == ctx.end_pos
                &&& e.ctx.file == ctx.file
                &&& e.ctx.history.window() == ctx.history.window()
                &&& e.ctx.history.capacity() == ctx.history.capacity()
                &&& (*self == Operator::Assign ==> (e.hint matches Some(h) && h@
                    == "Consider moving variable assignment to it's own statement"@))
                &&& (*self != Operator::Assign ==> e.hint is None)
            },
    {
        match self.binary_precedence() {
            Some(p) => Ok(p),
            None => {
                let hint = if *self == Operator::Assign {
                    Some(crate::text::string_from_chars(&crate::text::lit_chars("Consider moving variable assignment to it's own statement")))
                } else {
                    None
                };
                Err(crate::parser::err::ParseErr {
                    ty: crate::parser::err::ParseErrType::NonBinaryCompatibleOperator(*self),
                    ctx: ctx.dup(),
                    tail: tail_gen(),
                    hint,
                })
            },
        }
    }
}

} // verus!

verus! {

/// Reading a keyword's spelling gives back that keyword.
pub proof fn law_keyword_spelling(k: Keyword)
    ensures
        keyword_of(keyword_text(k)) == Some(k),
{
}

} // verus!

verus! {

/// How tightly the binary operators bind, loosest first: merging `->`; the
/// logical `&&` `||`; the bitwise `&` `|` `^` `~`; the equalities `==` `!=`;
/// the comparisons `<` `>` `<=` `>=`; the shifts; the additive `+` `-`; the
/// multiplicative `*` `/` `%`; and, tightest, `!` `++` `--`. Operators of one
/// group bind alike, and assignment and `.` join no two operands.
pub proof fn law_precedence_order()
    ensures
        binary_precedence(Operator::Merge) matches Some(m) && binary_precedence(Operator::And) matches Some(l)
            && binary_precedence(Operator::BitAnd) matches Some(b) && binary_precedence(Operator::EqEq) matches Some(e)
            && binary_precedence(Operator::Less) matches Some(c) && binary_precedence(Operator::Lsh) matches Some(s)
            && binary_precedence(Operator::Plus) matches Some(a) && binary_precedence(Operator::Mul) matches Some(x)
            && binary_precedence(Operator::Not) matches Some(u) && m < l < b < e < c < s < a < x < u,
        binary_precedence(Operator::Or) == binary_precedence(Operator::And),
        binary_precedence(Operator::BitOr) == binary_precedence(Operator::BitAnd),
        binary_precedence(Operator::BitXor) == binary_precedence(Operator::BitAnd),
        binary_precedence(Operator::BitNegate) == binary_precedence(Operator::BitAnd),
        binary_precedence(Operator::Neq) == binary_precedence(Operator::EqEq),
        binary_precedence(Operator::Greater) == binary_precedence(Operator::Less),
        binary_precedence(Operator::LessEq) == binary_precedence(Operator::Less),
        binary_precedence(Operator::GreaterEq) == binary_precedence(Operator::Less),
        binary_precedence(Operator::Rsh) == binary_precedence(Operator::Lsh),
        binary_precedence(Operator::LogicalRsh) == binary_precedence(Operator::Lsh),
        binary_precedence(Operator::Minus) == binary_precedence(Operator::Plus),
        binary_precedence(Operator::Div) == binary_precedence(Operator::Mul),
        binary_precedence(Operator::Modulo) == binary_precedence(Operator::Mul),
        binary_precedence(Operator::PlusPlus) == binary_precedence(Operator::Not),
        binary_precedence(Operator::MinusMinus) == binary_precedence(Operator::Not),
        binary_precedence(Operator::Assign) is None,
        binary_precedence(Operator::Dot) is None,
{
}

} // verus!
