//! The object filter language: `SOURCE`/`TARGET` property reads (`size`,
//! `last_modified`), numeric literals, arithmetic (`+ - * / %`),
//! comparisons (`> >= < <= == !=`), boolean logic (`&& || !`) and
//! parentheses.
//!
//! The parser works on the expression's UTF-8 bytes and is specified by a
//! family of spec functions (`p_or` .. `p_primary`) that read like the
//! grammar; every executable parsing method returns exactly what its spec
//! function gives for the same position and depth. Integer evaluation is
//! specified by `eval_v`. A float literal is kept as its text: the library
//! holds no floating-point arithmetic, so an expression that contains one is
//! parsed and checked here and evaluated by the application.
use crate::objects::ObjectProps;
use crate::text::{dec, owned, push_dec, string_from_chars};
use vstd::prelude::*;
use vstd::string::StringSliceAdditionalSpecFns;

verus! {

/// Deepest nesting of grammar levels that a filter may reach.
pub const MAX_EXPR_DEPTH: usize = 24;

// ── Syntax tree ────────────────────────────────────────────

#[derive(Debug, Clone, Copy, PartialEq, Eq, Structural)]
pub enum Prop {
    Size,
    LastModified,
}

#[derive(Debug, Clone, Copy, PartialEq, Eq, Structural)]
pub enum Var {
    Source,
    Target,
}

#[derive(Debug, Clone, Copy, PartialEq, Eq, Structural)]
pub enum BinOp {
    Add,
    Sub,
    Mul,
    Div,
    Rem,
    Lt,
    Le,
    Gt,
    Ge,
    Eq,
    Ne,
    And,
    Or,
}

#[derive(Debug, Clone, Copy, PartialEq, Eq, Structural)]
pub enum UnOp {
    Not,
    Neg,
    Plus,
}

/// A parsed filter expression. A float literal keeps its digits (without
/// `_` separators) as bytes.
#[derive(Debug)]
pub enum Node {
    Bool(bool),
    Int(i64),
    Float(Vec<u8>),
    Prop(Var, Prop),
    Unary(UnOp, Box<Node>),
    Binary(BinOp, Box<Node>, Box<Node>),
}

/// The mathematical form of a `Node`.
pub enum NodeV {
    Bool(bool),
    Int(i64),
    Float(Seq<u8>),
    Prop(Var, Prop),
    Unary(UnOp, Box<NodeV>),
    Binary(BinOp, Box<NodeV>, Box<NodeV>),
}

impl View for Node {
    type V = NodeV;

    open spec fn view(&self) -> NodeV
        decreases self,
    {
        match self {
            Node::Bool(b) => NodeV::Bool(*b),
            Node::Int(i) => NodeV::Int(*i),
            Node::Float(t) => NodeV::Float(t@),
            Node::Prop(v, p) => NodeV::Prop(*v, *p),
            Node::Unary(op, inner) => NodeV::Unary(*op, Box::new((**inner).view())),
            Node::Binary(op, l, r) => NodeV::Binary(
                *op,
                Box::new((**l).view()),
                Box::new((**r).view()),
            ),
        }
    }
}

/// Whether the tree reads `TARGET`.
pub open spec fn uses_target_v(n: NodeV) -> bool
    decreases n,
{
    match n {
        NodeV::Prop(v, _) => v == Var::Target,
        NodeV::Unary(_, inner) => uses_target_v(*inner),
        NodeV::Binary(_, l, r) => uses_target_v(*l) || uses_target_v(*r),
        _ => false,
    }
}

/// Whether the tree holds a float literal.
pub open spec fn has_float_v(n: NodeV) -> bool
    decreases n,
{
    match n {
        NodeV::Float(_) => true,
        NodeV::Unary(_, inner) => has_float_v(*inner),
        NodeV::Binary(_, l, r) => has_float_v(*l) || has_float_v(*r),
        _ => false,
    }
}

// ── Parse errors ───────────────────────────────────────────

/// Why an expression does not parse. Names and literals are the bytes of
/// the input they came from.
#[derive(Debug, Clone)]
pub enum ParseError {
    TrailingInput(usize),
    DepthLimit,
    MissingParen,
    QuoteLiteral,
    UnexpectedChar(u8),
    UnexpectedEnd,
    BadFloat(Vec<u8>),
    BadInt(Vec<u8>),
    FunctionCall(Vec<u8>),
    UnknownVariable(Vec<u8>),
    NotPropertyAccess(Vec<u8>),
    MissingProperty(Vec<u8>, usize),
    MethodCall(Vec<u8>),
    UnknownProperty(Vec<u8>),
}

pub enum PErr {
    TrailingInput(int),
    DepthLimit,
    MissingParen,
    QuoteLiteral,
    UnexpectedChar(u8),
    UnexpectedEnd,
    BadFloat(Seq<u8>),
    BadInt(Seq<u8>),
    FunctionCall(Seq<u8>),
    UnknownVariable(Seq<u8>),
    NotPropertyAccess(Seq<u8>),
    MissingProperty(Seq<u8>, int),
    MethodCall(Seq<u8>),
    UnknownProperty(Seq<u8>),
}

impl View for ParseError {
    type V = PErr;

    open spec fn view(&self) -> PErr {
        match self {
            ParseError::TrailingInput(p) => PErr::TrailingInput(*p as int),
            ParseError::DepthLimit => PErr::DepthLimit,
            ParseError::MissingParen => PErr::MissingParen,
            ParseError::QuoteLiteral => PErr::QuoteLiteral,
            ParseError::UnexpectedChar(c) => PErr::UnexpectedChar(*c),
            ParseError::UnexpectedEnd => PErr::UnexpectedEnd,
            ParseError::BadFloat(t) => PErr::BadFloat(t@),
            ParseError::BadInt(t) => PErr::BadInt(t@),
            ParseError::FunctionCall(t) => PErr::FunctionCall(t@),
            ParseError::UnknownVariable(t) => PErr::UnknownVariable(t@),
            ParseError::NotPropertyAccess(t) => PErr::NotPropertyAccess(t@),
            ParseError::MissingProperty(t, p) => PErr::MissingProperty(t@, *p as int),
            ParseError::MethodCall(t) => PErr::MethodCall(t@),
            ParseError::UnknownProperty(t) => PErr::UnknownProperty(t@),
        }
    }
}

/// Bytes read as characters, one for one (Latin-1), as `b as char` does.
pub open spec fn byte_text(b: Seq<u8>) -> Seq<char> {
    Seq::new(b.len(), |i: int| b[i] as char)
}

pub open spec fn quoted(b: Seq<u8>) -> Seq<char> {
    "\""@ + byte_text(b) + "\""@
}

/// The message for each parse error.
pub open spec fn perr_text(e: PErr) -> Seq<char> {
    match e {
        PErr::TrailingInput(p) => "unexpected trailing input at byte "@ + dec(p as nat)
            + " in filter expression"@,
        PErr::DepthLimit => "filter expression nesting exceeds depth limit "@ + dec(
            MAX_EXPR_DEPTH as nat,
        ),
        PErr::MissingParen => "missing closing parenthesis in filter expression"@,
        PErr::QuoteLiteral => "string and character literals are not supported in filters"@,
        PErr::UnexpectedChar(c) => "unexpected character '"@ + seq![c as char]
            + "' in filter expression"@,
        PErr::UnexpectedEnd => "unexpected end of filter expression"@,
        PErr::BadFloat(t) => "invalid float literal "@ + quoted(t) + " in filter expression"@,
        PErr::BadInt(t) => "invalid integer literal "@ + quoted(t) + " in filter expression"@,
        PErr::FunctionCall(t) => "function call "@ + quoted(t) + " not allowed in filter"@,
        PErr::UnknownVariable(t) => "variable "@ + quoted(t) + " not allowed in filter"@,
        PErr::NotPropertyAccess(t) => "variable "@ + quoted(t)
            + " must be used as a property access (e.g. "@ + byte_text(t) + ".size)"@,
        PErr::MissingProperty(t, p) => "missing property name after \""@ + byte_text(t)
            + ".\" at byte "@ + dec(p as nat),
        PErr::MethodCall(t) => "method call "@ + quoted(t) + " not allowed in filter"@,
        PErr::UnknownProperty(t) => "object property "@ + quoted(t) + " not allowed in filter"@,
    }
}

// ── Lexical level ──────────────────────────────────────────

/// `u8::is_ascii_whitespace`: space, tab, line feed, form feed, carriage
/// return.
pub open spec fn is_ws_byte(b: u8) -> bool {
    b == 32 || b == 9 || b == 10 || b == 12 || b == 13
}

pub open spec fn is_digit_byte(b: u8) -> bool {
    48 <= b <= 57
}

pub open spec fn is_alpha_byte(b: u8) -> bool {
    (65 <= b <= 90) || (97 <= b <= 122)
}

pub open spec fn is_word_byte(b: u8) -> bool {
    is_digit_byte(b) || is_alpha_byte(b) || b == 95
}

/// The first position at or after `p` that is not whitespace.
pub open spec fn ws_end(s: Seq<u8>, p: int) -> int
    decreases s.len() - p,
{
    if 0 <= p < s.len() && is_ws_byte(s[p]) {
        ws_end(s, p + 1)
    } else {
        p
    }
}

/// The first position at or after `p` that is not a word byte.
pub open spec fn word_end(s: Seq<u8>, p: int) -> int
    decreases s.len() - p,
{
    if 0 <= p < s.len() && is_word_byte(s[p]) {
        word_end(s, p + 1)
    } else {
        p
    }
}

/// Whether operator `op` stands at `q`. A one-byte `!`, `>`, `<` or `=`
/// does not match where `=` follows it.
pub open spec fn op_at(s: Seq<u8>, q: int, op: Seq<u8>) -> bool {
    &&& 0 <= q
    &&& q + op.len() <= s.len()
    &&& s.subrange(q, q + op.len()) == op
    &&& !(op.len() == 1 && (op[0] == 33 || op[0] == 62 || op[0] == 60 || op[0] == 61) && q + 1
        < s.len() && s[q + 1] == 61)
}

/// Skipping whitespace, then consuming `op` where it stands: whether it
/// did, and the position after.
pub open spec fn eat(s: Seq<u8>, p: int, op: Seq<u8>) -> (bool, int) {
    let q = ws_end(s, p);
    if op_at(s, q, op) {
        (true, q + op.len())
    } else {
        (false, q)
    }
}

proof fn lemma_ws_end(s: Seq<u8>, p: int)
    requires
        0 <= p <= s.len(),
    ensures
        p <= ws_end(s, p) <= s.len(),
        ws_end(s, p) < s.len() ==> !is_ws_byte(s[ws_end(s, p)]),
        ws_end(s, ws_end(s, p)) == ws_end(s, p),
        forall|k: int| p <= k < ws_end(s, p) ==> is_ws_byte(#[trigger] s[k]),
    decreases s.len() - p,
{
    if p < s.len() && is_ws_byte(s[p]) {
        lemma_ws_end(s, p + 1);
    }
}

proof fn lemma_word_end(s: Seq<u8>, p: int)
    requires
        0 <= p <= s.len(),
    ensures
        p <= word_end(s, p) <= s.len(),
        word_end(s, p) < s.len() ==> !is_word_byte(s[word_end(s, p)]),
        forall|k: int| p <= k < word_end(s, p) ==> is_word_byte(#[trigger] s[k]),
    decreases s.len() - p,
{
    if p < s.len() && is_word_byte(s[p]) {
        lemma_word_end(s, p + 1);
    }
}

pub struct Parser<'a> {
    input: &'a [u8],
    pos: usize,
    depth: usize,
}

impl<'a> Parser<'a> {
    pub closed spec fn bytes(&self) -> Seq<u8> {
        self.input@
    }

    pub closed spec fn at(&self) -> int {
        self.pos as int
    }

    pub closed spec fn level(&self) -> int {
        self.depth as int
    }

    pub closed spec fn wf(&self) -> bool {
        self.pos <= self.input@.len() && self.depth <= MAX_EXPR_DEPTH
    }

    pub fn new(expr: &'a str) -> (r: Self)
        ensures
            r.wf(),
            r.bytes() == expr.spec_bytes(),
            r.at() == 0,
            r.level() == 0,
    {
        Parser { input: expr.as_bytes(), pos: 0, depth: 0 }
    }

    fn peek(&self) -> (r: Option<u8>)
        requires
            self.wf(),
        ensures
            r == (if self.at() < self.bytes().len() {
                Some(self.bytes()[self.at()])
            } else {
                None::<u8>
            }),
    {
        if self.pos < self.input.len() {
            Some(self.input[self.pos])
        } else {
            None
        }
    }

    fn skip_ws(&mut self)
        requires
            old(self).wf(),
        ensures
            final(self).wf(),
            final(self).bytes() == old(self).bytes(),
            final(self).level() == old(self).level(),
            final(self).at() == ws_end(old(self).bytes(), old(self).at()),
            old(self).at() <= final(self).at(),
    {
        proof {
            lemma_ws_end(self.input@, self.pos as int);
        }
        while self.pos < self.input.len() && is_ascii_ws(self.input[self.pos])
            invariant
                self.input == old(self).input,
                self.depth == old(self).depth,
                old(self).pos <= self.pos <= self.input@.len(),
                ws_end(self.input@, self.pos as int) == ws_end(
                    old(self).input@,
                    old(self).pos as int,
                ),
            decreases self.input.len() - self.pos,
        {
            self.pos += 1;
        }
    }

    fn eat_byte(&mut self, b: u8) -> (r: bool)
        requires
            old(self).wf(),
        ensures
            final(self).wf(),
            final(self).bytes() == old(self).bytes(),
            final(self).level() == old(self).level(),
            r == (old(self).at() < old(self).bytes().len() && old(self).bytes()[old(self).at()]
                == b),
            final(self).at() == if r {
                old(self).at() + 1
            } else {
                old(self).at()
            },
    {
        if self.pos < self.input.len() && self.input[self.pos] == b {
            self.pos += 1;
            true
        } else {
            false
        }
    }

    /// Skips whitespace and consumes the one-byte operator `a` where it
    /// stands.
    fn eat_op1(&mut self, a: u8) -> (r: bool)
        requires
            old(self).wf(),
        ensures
            final(self).wf(),
            final(self).bytes() == old(self).bytes(),
            final(self).level() == old(self).level(),
            (r, final(self).at()) == eat(old(self).bytes(), old(self).at(), seq![a]),
            old(self).at() <= final(self).at(),
    {
        self.skip_ws();
        let ghost q = self.pos as int;
        let ghost s = self.input@;
        if self.pos < self.input.len() && self.input[self.pos] == a {
            if (a == 33 || a == 62 || a == 60 || a == 61) && self.pos + 1
                < self.input.len() && self.input[self.pos + 1] == 61 {
                return false;
            }
            self.pos += 1;
            assert(s.subrange(q, q + 1) =~= seq![a]);
            true
        } else {
            proof {
                if q + 1 <= s.len() {
                    assert(s.subrange(q, q + 1)[0] == s[q]);
                }
            }
            false
        }
    }

    /// Skips whitespace and consumes the two-byte operator `a b` where it
    /// stands.
    fn eat_op2(&mut self, a: u8, b: u8) -> (r: bool)
        requires
            old(self).wf(),
        ensures
            final(self).wf(),
            final(self).bytes() == old(self).bytes(),
            final(self).level() == old(self).level(),
            (r, final(self).at()) == eat(old(self).bytes(), old(self).at(), seq![a, b]),
            old(self).at() <= final(self).at(),
    {
        self.skip_ws();
        let ghost q = self.pos as int;
        let ghost s = self.input@;
        if self.input.len() - self.pos >= 2 && self.input[self.pos] == a && self.input[self.pos
            + 1] == b {
            self.pos += 2;
            assert(s.subrange(q, q + 2) =~= seq![a, b]);
            true
        } else {
            proof {
                if q + 2 <= s.len() {
                    assert(s.subrange(q, q + 2)[0] == s[q]);
                    assert(s.subrange(q, q + 2)[1] == s[q + 1]);
                }
            }
            false
        }
    }

    /// Consumes a run of word bytes (ASCII alphanumerics and `_`).
    fn read_word(&mut self) -> (r: (usize, usize))
        requires
            old(self).wf(),
        ensures
            final(self).wf(),
            final(self).bytes() == old(self).bytes(),
            final(self).level() == old(self).level(),
            r.0 == old(self).at(),
            r.1 == final(self).at(),
            final(self).at() == word_end(old(self).bytes(), old(self).at()),
    {
        proof {
            lemma_word_end(self.input@, self.pos as int);
        }
        let start = self.pos;
        while self.pos < self.input.len() && is_word(self.input[self.pos])
            invariant
                self.input == old(self).input,
                self.depth == old(self).depth,
                start == old(self).pos,
                start <= self.pos <= self.input@.len(),
                word_end(self.input@, self.pos as int) == word_end(
                    old(self).input@,
                    start as int,
                ),
            decreases self.input.len() - self.pos,
        {
            self.pos += 1;
        }
        (start, self.pos)
    }
}

fn is_ascii_ws(b: u8) -> (r: bool)
    ensures
        r == is_ws_byte(b),
{
    b == 32 || b == 9 || b == 10 || b == 12 || b == 13
}

fn is_digit(b: u8) -> (r: bool)
    ensures
        r == is_digit_byte(b),
{
    48 <= b && b <= 57
}

fn is_alpha(b: u8) -> (r: bool)
    ensures
        r == is_alpha_byte(b),
{
    (65 <= b && b <= 90) || (97 <= b && b <= 122)
}

fn is_word(b: u8) -> (r: bool)
    ensures
        r == is_word_byte(b),
{
    is_digit(b) || is_alpha(b) || b == 95
}

// ── Grammar ────────────────────────────────────────────────

/// A parse step's outcome: the tree and the position after it, or an error.
pub type Parsed = Result<(NodeV, int), PErr>;

/// The operator that continues level `lvl` at `p` (after whitespace) and
/// the position after it, or the position after the whitespace. Levels:
/// 0 `||`, 1 `&&`, 2 comparisons (two-byte forms first), 3 `+ -`,
/// 4 `* / %`.
pub open spec fn bin_step(s: Seq<u8>, p: int, lvl: int) -> (Option<BinOp>, int) {
    let q = ws_end(s, p);
    if lvl == 0 {
        if op_at(s, q, seq![124u8, 124u8]) {
            (Some(BinOp::Or), q + 2)
        } else {
            (None, q)
        }
    } else if lvl == 1 {
        if op_at(s, q, seq![38u8, 38u8]) {
            (Some(BinOp::And), q + 2)
        } else {
            (None, q)
        }
    } else if lvl == 2 {
        if op_at(s, q, seq![62u8, 61u8]) {
            (Some(BinOp::Ge), q + 2)
        } else if op_at(s, q, seq![60u8, 61u8]) {
            (Some(BinOp::Le), q + 2)
        } else if op_at(s, q, seq![61u8, 61u8]) {
            (Some(BinOp::Eq), q + 2)
        } else if op_at(s, q, seq![33u8, 61u8]) {
            (Some(BinOp::Ne), q + 2)
        } else if op_at(s, q, seq![62u8]) {
            (Some(BinOp::Gt), q + 1)
        } else if op_at(s, q, seq![60u8]) {
            (Some(BinOp::Lt), q + 1)
        } else {
            (None, q)
        }
    } else if lvl == 3 {
        if op_at(s, q, seq![43u8]) {
            (Some(BinOp::Add), q + 1)
        } else if op_at(s, q, seq![45u8]) {
            (Some(BinOp::Sub), q + 1)
        } else {
            (None, q)
        }
    } else {
        if op_at(s, q, seq![42u8]) {
            (Some(BinOp::Mul), q + 1)
        } else if op_at(s, q, seq![47u8]) {
            (Some(BinOp::Div), q + 1)
        } else if op_at(s, q, seq![37u8]) {
            (Some(BinOp::Rem), q + 1)
        } else {
            (None, q)
        }
    }
}

/// A binary level `lvl` at `p`, entered at depth `d`: an operand, then
/// operators of this level with their operands, folded to the left.
pub open spec fn p_level(s: Seq<u8>, p: int, d: int, lvl: int) -> Parsed
    decreases s.len() - p, 30 - 3 * lvl,
{
    if !(0 <= p <= s.len() && 0 <= lvl <= 4) {
        Err(PErr::UnexpectedEnd)
    } else if d >= MAX_EXPR_DEPTH {
        Err(PErr::DepthLimit)
    } else {
        match p_operand(s, p, d + 1, lvl) {
            Err(e) => Err(e),
            Ok((n, p2)) => if p <= p2 <= s.len() {
                p_tail(s, p2, d + 1, lvl, n)
            } else {
                Err(PErr::UnexpectedEnd)
            },
        }
    }
}

/// The rest of level `lvl` after the tree `acc`.
pub open spec fn p_tail(s: Seq<u8>, p: int, d: int, lvl: int, acc: NodeV) -> Parsed
    decreases s.len() - p, 29 - 3 * lvl,
{
    if !(0 <= p <= s.len() && 0 <= lvl <= 4) {
        Err(PErr::UnexpectedEnd)
    } else {
        let (op, m) = bin_step(s, p, lvl);
        match op {
            None => Ok((acc, m)),
            Some(o) => if p < m <= s.len() {
                match p_operand(s, m, d, lvl) {
                    Err(e) => Err(e),
                    Ok((rhs, p3)) => if m <= p3 <= s.len() {
                        p_tail(s, p3, d, lvl, NodeV::Binary(o, Box::new(acc), Box::new(rhs)))
                    } else {
                        Err(PErr::UnexpectedEnd)
                    },
                }
            } else {
                Err(PErr::UnexpectedEnd)
            },
        }
    }
}

/// An operand of level `lvl`: the next level down, or a unary expression
/// below the multiplicative level.
pub open spec fn p_operand(s: Seq<u8>, p: int, d: int, lvl: int) -> Parsed
    decreases s.len() - p, 28 - 3 * lvl,
{
    if !(0 <= p <= s.len() && 0 <= lvl <= 4) {
        Err(PErr::UnexpectedEnd)
    } else if lvl < 4 {
        p_level(s, p, d, lvl + 1)
    } else {
        p_unary(s, p, d)
    }
}

/// `!`, `-` or `+` applied to a unary expression, or a primary one.
pub open spec fn p_unary(s: Seq<u8>, p: int, d: int) -> Parsed
    decreases s.len() - p, 5int,
{
    if !(0 <= p <= s.len()) {
        Err(PErr::UnexpectedEnd)
    } else if d >= MAX_EXPR_DEPTH {
        Err(PErr::DepthLimit)
    } else {
        let q = ws_end(s, p);
        if !(p <= q <= s.len()) {
            Err(PErr::UnexpectedEnd)
        } else {
            let op = if op_at(s, q, seq![33u8]) {
                Some(UnOp::Not)
            } else if op_at(s, q, seq![45u8]) {
                Some(UnOp::Neg)
            } else if op_at(s, q, seq![43u8]) {
                Some(UnOp::Plus)
            } else {
                None
            };
            match op {
                Some(o) => if q + 1 <= s.len() {
                    match p_unary(s, q + 1, d + 1) {
                        Err(e) => Err(e),
                        Ok((n, p2)) => Ok((NodeV::Unary(o, Box::new(n)), p2)),
                    }
                } else {
                    Err(PErr::UnexpectedEnd)
                },
                None => p_primary(s, q, d + 1),
            }
        }
    }
}

/// A parenthesised expression, a number, an identifier, or an error.
pub open spec fn p_primary(s: Seq<u8>, p: int, d: int) -> Parsed
    decreases s.len() - p, 4int,
{
    if !(0 <= p <= s.len()) {
        Err(PErr::UnexpectedEnd)
    } else if d >= MAX_EXPR_DEPTH {
        Err(PErr::DepthLimit)
    } else {
        let q = ws_end(s, p);
        if !(p <= q <= s.len()) || q == s.len() {
            Err(PErr::UnexpectedEnd)
        } else if s[q] == 40 {
            match p_level(s, q + 1, d + 1, 0) {
                Err(e) => Err(e),
                Ok((n, p2)) => {
                    let r = ws_end(s, p2);
                    if 0 <= r < s.len() && s[r] == 41 {
                        Ok((n, r + 1))
                    } else {
                        Err(PErr::MissingParen)
                    }
                },
            }
        } else if is_digit_byte(s[q]) {
            p_number(s, q)
        } else if is_alpha_byte(s[q]) || s[q] == 95 {
            p_ident(s, q)
        } else if s[q] == 34 || s[q] == 39 {
            Err(PErr::QuoteLiteral)
        } else {
            Err(PErr::UnexpectedChar(s[q]))
        }
    }
}

/// Where a number starting at `p` ends, and whether it is a float: digits
/// and `_`, a `.` followed by a digit, an `e`/`E` (with an optional sign)
/// followed by a digit.
pub open spec fn num_scan(s: Seq<u8>, p: int, f: bool) -> (int, bool)
    decreases s.len() - p,
{
    if !(0 <= p < s.len()) {
        (p, f)
    } else if is_digit_byte(s[p]) || s[p] == 95 {
        num_scan(s, p + 1, f)
    } else if s[p] == 46 {
        if p + 1 < s.len() && is_digit_byte(s[p + 1]) {
            num_scan(s, p + 1, true)
        } else {
            (p, f)
        }
    } else if s[p] == 101 || s[p] == 69 {
        let next = if p + 1 < s.len() && (s[p + 1] == 43 || s[p + 1] == 45) {
            p + 2
        } else {
            p + 1
        };
        if next < s.len() && is_digit_byte(s[next]) {
            num_scan(s, next, true)
        } else {
            (p, f)
        }
    } else {
        (p, f)
    }
}

/// The bytes without `_` separators.
pub open spec fn strip_us(b: Seq<u8>) -> Seq<u8>
    decreases b.len(),
{
    if b.len() == 0 {
        b
    } else {
        let rest = strip_us(b.drop_last());
        if b.last() == 95 {
            rest
        } else {
            rest.push(b.last())
        }
    }
}

/// The value of a run of decimal digits.
pub open spec fn dec_value(b: Seq<u8>) -> int
    decreases b.len(),
{
    if b.len() == 0 {
        0
    } else {
        dec_value(b.drop_last()) * 10 + (b.last() - 48)
    }
}

/// What `f64::from_str` accepts, for text that starts with a digit and
/// holds digits, `.`, `e`/`E` and signs: digits, at most one `.` before
/// any exponent, and at most one exponent with at least one digit.
/// `stage` is 0 in the integer part, 1 after the `.`, 2 in exponent
/// digits, 3 right after the exponent marker.
pub open spec fn float_from(r: Seq<u8>, i: int, stage: int) -> bool
    decreases r.len() - i,
{
    if !(0 <= i < r.len()) {
        stage != 3
    } else if is_digit_byte(r[i]) {
        float_from(r, i + 1, if stage == 3 { 2 } else { stage })
    } else if r[i] == 46 {
        stage == 0 && float_from(r, i + 1, 1)
    } else if r[i] == 101 || r[i] == 69 {
        (stage == 0 || stage == 1) && if i + 1 < r.len() && (r[i + 1] == 43 || r[i + 1] == 45) {
            float_from(r, i + 2, 3)
        } else {
            float_from(r, i + 1, 3)
        }
    } else {
        false
    }
}

pub open spec fn p_number(s: Seq<u8>, p: int) -> Parsed {
    let (e, fl) = num_scan(s, p, false);
    let raw = strip_us(s.subrange(p, e));
    if fl {
        if float_from(raw, 0, 0) {
            Ok((NodeV::Float(raw), e))
        } else {
            Err(PErr::BadFloat(raw))
        }
    } else if dec_value(raw) <= i64::MAX {
        Ok((NodeV::Int(dec_value(raw) as i64), e))
    } else {
        Err(PErr::BadInt(raw))
    }
}

pub open spec fn kw_true() -> Seq<u8> {
    seq![116u8, 114u8, 117u8, 101u8]
}

pub open spec fn kw_false() -> Seq<u8> {
    seq![102u8, 97u8, 108u8, 115u8, 101u8]
}

pub open spec fn kw_source() -> Seq<u8> {
    seq![83u8, 79u8, 85u8, 82u8, 67u8, 69u8]
}

pub open spec fn kw_target() -> Seq<u8> {
    seq![84u8, 65u8, 82u8, 71u8, 69u8, 84u8]
}

pub open spec fn kw_size() -> Seq<u8> {
    seq![115u8, 105u8, 122u8, 101u8]
}

pub open spec fn kw_last_modified() -> Seq<u8> {
    seq![108u8, 97u8, 115u8, 116u8, 95u8, 109u8, 111u8, 100u8, 105u8, 102u8, 105u8, 101u8, 100u8]
}

/// `true`, `false`, or `SOURCE.` / `TARGET.` followed by `size` or
/// `last_modified` (whitespace allowed around the dot).
pub open spec fn p_ident(s: Seq<u8>, p: int) -> Parsed {
    let e = word_end(s, p);
    let name = s.subrange(p, e);
    if name == kw_true() {
        Ok((NodeV::Bool(true), e))
    } else if name == kw_false() {
        Ok((NodeV::Bool(false), e))
    } else if name != kw_source() && name != kw_target() {
        let q = ws_end(s, e);
        if 0 <= q < s.len() && s[q] == 40 {
            Err(PErr::FunctionCall(name))
        } else {
            Err(PErr::UnknownVariable(name))
        }
    } else {
        let var = if name == kw_source() {
            Var::Source
        } else {
            Var::Target
        };
        let q = ws_end(s, e);
        if !(0 <= q < s.len() && s[q] == 46) {
            Err(PErr::NotPropertyAccess(name))
        } else {
            let r = ws_end(s, q + 1);
            let pe = word_end(s, r);
            let prop = s.subrange(r, pe);
            if prop == kw_size() {
                Ok((NodeV::Prop(var, Prop::Size), pe))
            } else if prop == kw_last_modified() {
                Ok((NodeV::Prop(var, Prop::LastModified), pe))
            } else if prop.len() == 0 {
                Err(PErr::MissingProperty(name, r))
            } else {
                let t = ws_end(s, pe);
                if 0 <= t < s.len() && s[t] == 40 {
                    Err(PErr::MethodCall(prop))
                } else {
                    Err(PErr::UnknownProperty(prop))
                }
            }
        }
    }
}

/// The whole expression: an `||`-level expression, then only whitespace.
pub open spec fn parse_spec(s: Seq<u8>) -> Result<NodeV, PErr> {
    match p_level(s, 0, 0, 0) {
        Err(e) => Err(e),
        Ok((n, p)) => {
            let q = ws_end(s, p);
            if q < s.len() {
                Err(PErr::TrailingInput(q))
            } else {
                Ok(n)
            }
        },
    }
}

pub open spec fn outcome(r: Result<Node, ParseError>, pos: int) -> Parsed {
    match r {
        Ok(n) => Ok((n@, pos)),
        Err(e) => Err(e@),
    }
}

// ── Parser ─────────────────────────────────────────────────

proof fn lemma_num_scan(s: Seq<u8>, p: int, f: bool)
    requires
        0 <= p <= s.len(),
    ensures
        p <= num_scan(s, p, f).0 <= s.len(),
        !num_scan(s, p, f).1 ==> !f && forall|k: int|
            p <= k < num_scan(s, p, f).0 ==> is_digit_byte(#[trigger] s[k]) || s[k] == 95,
        p < s.len() && is_digit_byte(s[p]) ==> p < num_scan(s, p, f).0,
    decreases s.len() - p,
{
    if p < s.len() {
        if is_digit_byte(s[p]) || s[p] == 95 {
            lemma_num_scan(s, p + 1, f);
        } else if s[p] == 46 {
            if p + 1 < s.len() && is_digit_byte(s[p + 1]) {
                lemma_num_scan(s, p + 1, true);
            }
        } else if s[p] == 101 || s[p] == 69 {
            let next = if p + 1 < s.len() && (s[p + 1] == 43 || s[p + 1] == 45) {
                p + 2
            } else {
                p + 1
            };
            if next < s.len() && is_digit_byte(s[next]) {
                lemma_num_scan(s, next, true);
            }
        }
    }
}

proof fn lemma_strip_digits(b: Seq<u8>)
    requires
        forall|k: int| 0 <= k < b.len() ==> is_digit_byte(#[trigger] b[k]) || b[k] == 95,
    ensures
        forall|k: int| 0 <= k < strip_us(b).len() ==> is_digit_byte(#[trigger] strip_us(b)[k]),
    decreases b.len(),
{
    if b.len() > 0 {
        let d = b.drop_last();
        assert forall|k: int| 0 <= k < d.len() implies is_digit_byte(#[trigger] d[k]) || d[k]
            == 95 by {
            assert(d[k] == b[k]);
        }
        lemma_strip_digits(d);
        let rest = strip_us(d);
        assert(b.last() == b[b.len() - 1]);
        if b.last() != 95 {
            assert forall|k: int| 0 <= k < strip_us(b).len() implies is_digit_byte(
                #[trigger] strip_us(b)[k],
            ) by {
                if k < rest.len() {
                    assert(strip_us(b)[k] == rest[k]);
                }
            }
        }
    }
}

proof fn lemma_dec_value_prefix(b: Seq<u8>, i: int)
    requires
        0 <= i <= b.len(),
        forall|k: int| 0 <= k < b.len() ==> is_digit_byte(#[trigger] b[k]),
    ensures
        0 <= dec_value(b.take(i)) <= dec_value(b),
    decreases b.len(),
{
    if i < b.len() {
        let d = b.drop_last();
        assert forall|k: int| 0 <= k < d.len() implies is_digit_byte(#[trigger] d[k]) by {
            assert(d[k] == b[k]);
        }
        lemma_dec_value_prefix(d, i);
        assert(d.take(i) =~= b.take(i));
        lemma_dec_value_prefix(d, d.len() as int);
        assert(d.take(d.len() as int) =~= d);
    } else {
        assert(b.take(i) =~= b);
        lemma_dec_value_nonneg(b);
    }
}

proof fn lemma_dec_value_nonneg(b: Seq<u8>)
    requires
        forall|k: int| 0 <= k < b.len() ==> is_digit_byte(#[trigger] b[k]),
    ensures
        0 <= dec_value(b),
    decreases b.len(),
{
    if b.len() > 0 {
        let d = b.drop_last();
        assert forall|k: int| 0 <= k < d.len() implies is_digit_byte(#[trigger] d[k]) by {
            assert(d[k] == b[k]);
        }
        lemma_dec_value_nonneg(d);
    }
}

fn copy_region(s: &[u8], start: usize, end: usize) -> (r: Vec<u8>)
    requires
        start <= end <= s.len(),
    ensures
        r@ == s@.subrange(start as int, end as int),
{
    let mut out: Vec<u8> = Vec::new();
    let mut i = start;
    while i < end
        invariant
            start <= i <= end <= s.len(),
            out@ =~= s@.subrange(start as int, i as int),
        decreases end - i,
    {
        out.push(s[i]);
        i += 1;
        assert(out@ =~= s@.subrange(start as int, i as int));
    }
    out
}

fn region_eq(s: &[u8], start: usize, end: usize, kw: &[u8]) -> (r: bool)
    requires
        start <= end <= s.len(),
    ensures
        r == (s@.subrange(start as int, end as int) == kw@),
{
    if end - start != kw.len() {
        assert(s@.subrange(start as int, end as int).len() != kw@.len());
        return false;
    }
    let mut i: usize = 0;
    while i < kw.len()
        invariant
            start <= end <= s.len(),
            end - start == kw.len(),
            i <= kw.len(),
            forall|k: int| 0 <= k < i ==> s@[start + k] == kw@[k],
        decreases kw.len() - i,
    {
        if s[start + i] != kw[i] {
            assert(s@.subrange(start as int, end as int)[i as int] != kw@[i as int]);
            return false;
        }
        i += 1;
    }
    assert(s@.subrange(start as int, end as int) =~= kw@);
    true
}

fn strip_underscores(b: &[u8]) -> (r: Vec<u8>)
    ensures
        r@ == strip_us(b@),
{
    let mut out: Vec<u8> = Vec::new();
    let mut i: usize = 0;
    while i < b.len()
        invariant
            i <= b.len(),
            out@ == strip_us(b@.take(i as int)),
        decreases b.len() - i,
    {
        assert(b@.take(i + 1).drop_last() =~= b@.take(i as int));
        if b[i] != 95 {
            out.push(b[i]);
        }
        i += 1;
    }
    assert(b@.take(b.len() as int) =~= b@);
    out
}

fn float_text_ok(r: &[u8]) -> (ok: bool)
    ensures
        ok == float_from(r@, 0, 0),
{
    let mut i: usize = 0;
    let mut stage: u8 = 0;
    while i < r.len()
        invariant
            i <= r.len(),
            stage <= 3,
            float_from(r@, i as int, stage as int) == float_from(r@, 0, 0),
        decreases r.len() - i,
    {
        let c = r[i];
        if is_digit(c) {
            if stage == 3 {
                stage = 2;
            }
            i += 1;
        } else if c == 46 {
            if stage != 0 {
                return false;
            }
            stage = 1;
            i += 1;
        } else if c == 101 || c == 69 {
            if stage != 0 && stage != 1 {
                return false;
            }
            stage = 3;
            if i + 1 < r.len() && (r[i + 1] == 43 || r[i + 1] == 45) {
                i += 2;
            } else {
                i += 1;
            }
        } else {
            return false;
        }
    }
    stage != 3
}

/// The value of a digit run, where it fits in `i64`.
fn parse_i64_digits(r: &[u8]) -> (v: Option<i64>)
    requires
        forall|k: int| 0 <= k < r@.len() ==> is_digit_byte(#[trigger] r@[k]),
    ensures
        match v {
            Some(x) => x as int == dec_value(r@) && dec_value(r@) <= i64::MAX,
            None => dec_value(r@) > i64::MAX,
        },
{
    let mut acc: u64 = 0;
    let mut i: usize = 0;
    while i < r.len()
        invariant
            i <= r.len(),
            forall|k: int| 0 <= k < r@.len() ==> is_digit_byte(#[trigger] r@[k]),
            acc as int == dec_value(r@.take(i as int)),
            acc <= i64::MAX,
        decreases r.len() - i,
    {
        assert(r@.take(i + 1).drop_last() =~= r@.take(i as int));
        let d = (r[i] - 48) as u64;
        if acc > 922337203685477580 || (acc == 922337203685477580 && d > 7) {
            proof {
                lemma_dec_value_prefix(r@, i + 1);
            }
            return None;
        }
        acc = acc * 10 + d;
        i += 1;
    }
    assert(r@.take(r.len() as int) =~= r@);
    Some(acc as i64)
}


impl<'a> Parser<'a> {
    fn enter(&mut self) -> (r: Result<(), ParseError>)
        requires
            old(self).wf(),
        ensures
            final(self).wf(),
            final(self).bytes() == old(self).bytes(),
            final(self).at() == old(self).at(),
            old(self).level() >= MAX_EXPR_DEPTH ==> r is Err && r->Err_0@ == PErr::DepthLimit,
            old(self).level() < MAX_EXPR_DEPTH ==> r is Ok && final(self).level() == old(self).level() + 1,
    {
        if self.depth >= MAX_EXPR_DEPTH {
            return Err(ParseError::DepthLimit);
        }
        self.depth += 1;
        Ok(())
    }

    fn leave(&mut self)
        requires
            old(self).wf(),
            old(self).level() > 0,
        ensures
            final(self).wf(),
            final(self).bytes() == old(self).bytes(),
            final(self).at() == old(self).at(),
            final(self).level() == old(self).level() - 1,
    {
        self.depth -= 1;
    }

    /// The operator that continues level `lvl`, consumed where it stands.
    fn next_op(&mut self, lvl: u8) -> (r: Option<BinOp>)
        requires
            old(self).wf(),
            lvl <= 4,
        ensures
            final(self).wf(),
            final(self).bytes() == old(self).bytes(),
            final(self).level() == old(self).level(),
            (r, final(self).at()) == bin_step(old(self).bytes(), old(self).at(), lvl as int),
            old(self).at() <= final(self).at(),
    {
        proof {
            lemma_ws_end(self.input@, self.pos as int);
        }
        if lvl == 0 {
            if self.eat_op2(124, 124) {
                Some(BinOp::Or)
            } else {
                None
            }
        } else if lvl == 1 {
            if self.eat_op2(38, 38) {
                Some(BinOp::And)
            } else {
                None
            }
        } else if lvl == 2 {
            if self.eat_op2(62, 61) {
                Some(BinOp::Ge)
            } else if self.eat_op2(60, 61) {
                Some(BinOp::Le)
            } else if self.eat_op2(61, 61) {
                Some(BinOp::Eq)
            } else if self.eat_op2(33, 61) {
                Some(BinOp::Ne)
            } else if self.eat_op1(62) {
                Some(BinOp::Gt)
            } else if self.eat_op1(60) {
                Some(BinOp::Lt)
            } else {
                None
            }
        } else if lvl == 3 {
            if self.eat_op1(43) {
                Some(BinOp::Add)
            } else if self.eat_op1(45) {
                Some(BinOp::Sub)
            } else {
                None
            }
        } else {
            if self.eat_op1(42) {
                Some(BinOp::Mul)
            } else if self.eat_op1(47) {
                Some(BinOp::Div)
            } else if self.eat_op1(37) {
                Some(BinOp::Rem)
            } else {
                None
            }
        }
    }

    /// One binary level (`lvl` 0 is `||`, 1 `&&`, 2 the comparisons, 3
    /// `+ -`, 4 `* / %`): an operand, then as many `op operand` as follow,
    /// folded to the left.
    fn parse_level(&mut self, lvl: u8) -> (r: Result<Node, ParseError>)
        requires
            old(self).wf(),
            lvl <= 4,
        ensures
            final(self).wf(),
            final(self).bytes() == old(self).bytes(),
            outcome(r, final(self).at()) == p_level(
                old(self).bytes(),
                old(self).at(),
                old(self).level(),
                lvl as int,
            ),
            r is Ok ==> final(self).level() == old(self).level() && old(self).at() <= final(self).at(),
        decreases old(self).bytes().len() - old(self).at(), 30 - 3 * lvl,
    {
        let ghost s = self.input@;
        let ghost p0 = self.pos as int;
        let ghost d0 = self.depth as int;
        match self.enter() {
            Err(e) => return Err(e),
            Ok(()) => {},
        }
        let mut node = match self.parse_operand(lvl) {
            Err(e) => return Err(e),
            Ok(n) => n,
        };
        let mut done = false;
        while !done
            invariant
                self.wf(),
                self.input@ == s,
                s == old(self).bytes(),
                p0 == old(self).at(),
                d0 == old(self).level(),
                self.depth == d0 + 1,
                lvl <= 4,
                p0 <= self.pos <= s.len(),
                !done ==> p_level(s, p0, d0, lvl as int) == p_tail(
                    s,
                    self.pos as int,
                    d0 + 1,
                    lvl as int,
                    node@,
                ),
                done ==> p_level(s, p0, d0, lvl as int) == Ok::<(NodeV, int), PErr>(
                    (node@, self.pos as int),
                ),
            decreases s.len() - self.pos, if done {
                0int
            } else {
                1int
            },
        {
            let ghost before = self.pos as int;
            proof {
                lemma_ws_end(s, before);
            }
            match self.next_op(lvl) {
                None => {
                    done = true;
                },
                Some(op) => {
                    let rhs = match self.parse_operand(lvl) {
                        Err(e) => return Err(e),
                        Ok(n) => n,
                    };
                    node = Node::Binary(op, Box::new(node), Box::new(rhs));
                },
            }
        }
        self.leave();
        Ok(node)
    }

    fn parse_operand(&mut self, lvl: u8) -> (r: Result<Node, ParseError>)
        requires
            old(self).wf(),
            lvl <= 4,
        ensures
            final(self).wf(),
            final(self).bytes() == old(self).bytes(),
            outcome(r, final(self).at()) == p_operand(
                old(self).bytes(),
                old(self).at(),
                old(self).level(),
                lvl as int,
            ),
            r is Ok ==> final(self).level() == old(self).level() && old(self).at() <= final(self).at(),
        decreases old(self).bytes().len() - old(self).at(), 28 - 3 * lvl,
    {
        if lvl < 4 {
            self.parse_level(lvl + 1)
        } else {
            self.parse_unary()
        }
    }

    fn parse_unary(&mut self) -> (r: Result<Node, ParseError>)
        requires
            old(self).wf(),
        ensures
            final(self).wf(),
            final(self).bytes() == old(self).bytes(),
            outcome(r, final(self).at()) == p_unary(
                old(self).bytes(),
                old(self).at(),
                old(self).level(),
            ),
            r is Ok ==> final(self).level() == old(self).level() && old(self).at() <= final(self).at(),
        decreases old(self).bytes().len() - old(self).at(), 5int,
    {
        let ghost s = self.input@;
        let ghost p0 = self.pos as int;
        proof {
            lemma_ws_end(s, p0);
        }
        match self.enter() {
            Err(e) => return Err(e),
            Ok(()) => {},
        }
        self.skip_ws();
        let op = if self.eat_op1(33) {
            Some(UnOp::Not)
        } else if self.eat_op1(45) {
            Some(UnOp::Neg)
        } else if self.eat_op1(43) {
            Some(UnOp::Plus)
        } else {
            None
        };
        let node = match op {
            Some(o) => match self.parse_unary() {
                Err(e) => return Err(e),
                Ok(inner) => Node::Unary(o, Box::new(inner)),
            },
            None => match self.parse_primary() {
                Err(e) => return Err(e),
                Ok(n) => n,
            },
        };
        self.leave();
        Ok(node)
    }

    fn parse_primary(&mut self) -> (r: Result<Node, ParseError>)
        requires
            old(self).wf(),
        ensures
            final(self).wf(),
            final(self).bytes() == old(self).bytes(),
            outcome(r, final(self).at()) == p_primary(
                old(self).bytes(),
                old(self).at(),
                old(self).level(),
            ),
            r is Ok ==> final(self).level() == old(self).level() && old(self).at() <= final(self).at(),
        decreases old(self).bytes().len() - old(self).at(), 4int,
    {
        let ghost s = self.input@;
        let ghost p0 = self.pos as int;
        proof {
            lemma_ws_end(s, p0);
        }
        match self.enter() {
            Err(e) => return Err(e),
            Ok(()) => {},
        }
        self.skip_ws();
        let next = self.peek();
        let node = match next {
            None => return Err(ParseError::UnexpectedEnd),
            Some(c) => if c == 40 {
                assert(self.pos < self.input.len());
                self.pos += 1;
                let inner = match self.parse_level(0) {
                    Err(e) => return Err(e),
                    Ok(n) => n,
                };
                self.skip_ws();
                if !self.eat_byte(41) {
                    return Err(ParseError::MissingParen);
                }
                inner
            } else if is_digit(c) {
                match self.parse_number() {
                    Err(e) => return Err(e),
                    Ok(n) => n,
                }
            } else if is_alpha(c) || c == 95 {
                match self.parse_identifier() {
                    Err(e) => return Err(e),
                    Ok(n) => n,
                }
            } else if c == 34 || c == 39 {
                return Err(ParseError::QuoteLiteral);
            } else {
                return Err(ParseError::UnexpectedChar(c));
            },
        };
        self.leave();
        Ok(node)
    }

    fn parse_number(&mut self) -> (r: Result<Node, ParseError>)
        requires
            old(self).wf(),
            old(self).at() < old(self).bytes().len(),
            is_digit_byte(old(self).bytes()[old(self).at()]),
        ensures
            final(self).wf(),
            final(self).bytes() == old(self).bytes(),
            final(self).level() == old(self).level(),
            outcome(r, final(self).at()) == p_number(old(self).bytes(), old(self).at()),
            r is Ok ==> old(self).at() <= final(self).at(),
    {
        let ghost s = self.input@;
        let start = self.pos;
        proof {
            lemma_num_scan(s, start as int, false);
        }
        let mut is_float = false;
        let mut done = false;
        while !done && self.pos < self.input.len()
            invariant
                self.wf(),
                self.input@ == s,
                self.depth == old(self).depth,
                start <= self.pos <= s.len(),
                num_scan(s, self.pos as int, is_float) == num_scan(s, start as int, false),
                done ==> num_scan(s, self.pos as int, is_float) == (self.pos as int, is_float),
            decreases s.len() - self.pos, if done {
                0int
            } else {
                1int
            },
        {
            let c = self.input[self.pos];
            if is_digit(c) || c == 95 {
                self.pos += 1;
            } else if c == 46 {
                if self.pos + 1 < self.input.len() && is_digit(self.input[self.pos + 1]) {
                    is_float = true;
                    self.pos += 1;
                } else {
                    done = true;
                }
            } else if c == 101 || c == 69 {
                let mut next = self.pos + 1;
                if next < self.input.len() && (self.input[next] == 43 || self.input[next] == 45) {
                    next += 1;
                }
                if next < self.input.len() && is_digit(self.input[next]) {
                    is_float = true;
                    self.pos = next;
                } else {
                    done = true;
                }
            } else {
                done = true;
            }
        }
        let region = copy_region(self.input, start, self.pos);
        let raw = strip_underscores(region.as_slice());
        if is_float {
            if float_text_ok(raw.as_slice()) {
                Ok(Node::Float(raw))
            } else {
                Err(ParseError::BadFloat(raw))
            }
        } else {
            proof {
                lemma_strip_digits(region@);
            }
            match parse_i64_digits(raw.as_slice()) {
                Some(v) => Ok(Node::Int(v)),
                None => Err(ParseError::BadInt(raw)),
            }
        }
    }

    fn parse_identifier(&mut self) -> (r: Result<Node, ParseError>)
        requires
            old(self).wf(),
        ensures
            final(self).wf(),
            final(self).bytes() == old(self).bytes(),
            final(self).level() == old(self).level(),
            outcome(r, final(self).at()) == p_ident(old(self).bytes(), old(self).at()),
            r is Ok ==> old(self).at() <= final(self).at(),
    {
        let ghost s = self.input@;
        proof {
            lemma_word_end(s, self.pos as int);
        }
        let (start, end) = self.read_word();
        let kw_true: Vec<u8> = vec![116, 114, 117, 101];
        let kw_false: Vec<u8> = vec![102, 97, 108, 115, 101];
        let kw_source: Vec<u8> = vec![83, 79, 85, 82, 67, 69];
        let kw_target: Vec<u8> = vec![84, 65, 82, 71, 69, 84];
        if region_eq(self.input, start, end, kw_true.as_slice()) {
            return Ok(Node::Bool(true));
        }
        if region_eq(self.input, start, end, kw_false.as_slice()) {
            return Ok(Node::Bool(false));
        }
        let is_source = region_eq(self.input, start, end, kw_source.as_slice());
        let is_target = region_eq(self.input, start, end, kw_target.as_slice());
        let name = copy_region(self.input, start, end);
        proof {
            lemma_ws_end(s, end as int);
        }
        if !is_source && !is_target {
            self.skip_ws();
            if self.peek() == Some(40u8) {
                return Err(ParseError::FunctionCall(name));
            }
            return Err(ParseError::UnknownVariable(name));
        }
        let var = if is_source {
            Var::Source
        } else {
            Var::Target
        };
        self.skip_ws();
        if !self.eat_byte(46) {
            return Err(ParseError::NotPropertyAccess(name));
        }
        proof {
            lemma_ws_end(s, self.pos as int);
        }
        self.skip_ws();
        proof {
            lemma_word_end(s, self.pos as int);
        }
        let (pstart, pend) = self.read_word();
        let kw_size: Vec<u8> = vec![115, 105, 122, 101];
        let kw_lm: Vec<u8> = vec![108, 97, 115, 116, 95, 109, 111, 100, 105, 102, 105, 101, 100];
        if region_eq(self.input, pstart, pend, kw_size.as_slice()) {
            return Ok(Node::Prop(var, Prop::Size));
        }
        if region_eq(self.input, pstart, pend, kw_lm.as_slice()) {
            return Ok(Node::Prop(var, Prop::LastModified));
        }
        if pstart == pend {
            return Err(ParseError::MissingProperty(name, pstart));
        }
        let prop = copy_region(self.input, pstart, pend);
        proof {
            lemma_ws_end(s, pend as int);
        }
        self.skip_ws();
        if self.peek() == Some(40u8) {
            return Err(ParseError::MethodCall(prop));
        }
        Err(ParseError::UnknownProperty(prop))
    }

    /// The whole expression, with only whitespace after it.
    fn parse(&mut self) -> (r: Result<Node, ParseError>)
        requires
            old(self).wf(),
            old(self).at() == 0,
            old(self).level() == 0,
        ensures
            match r {
                Ok(n) => parse_spec(old(self).bytes()) == Ok::<NodeV, PErr>(n@),
                Err(e) => parse_spec(old(self).bytes()) == Err::<NodeV, PErr>(e@),
            },
    {
        let ghost s = self.input@;
        let node = match self.parse_level(0) {
            Err(e) => return Err(e),
            Ok(n) => n,
        };
        proof {
            lemma_ws_end(s, self.pos as int);
        }
        self.skip_ws();
        if self.pos < self.input.len() {
            return Err(ParseError::TrailingInput(self.pos));
        }
        Ok(node)
    }
}

// ── Messages ───────────────────────────────────────────────

fn push_str_chars(out: &mut Vec<char>, t: &str)
    ensures
        final(out)@ == old(out)@ + t@,
{
    crate::text::append_str(out, t);
}

fn push_byte_text(out: &mut Vec<char>, b: &[u8])
    ensures
        final(out)@ == old(out)@ + byte_text(b@),
{
    let ghost start = out@;
    let mut i: usize = 0;
    while i < b.len()
        invariant
            i <= b.len(),
            out@ =~= start + byte_text(b@.take(i as int)),
        decreases b.len() - i,
    {
        out.push(b[i] as char);
        i += 1;
        assert(out@ =~= start + byte_text(b@.take(i as int)));
    }
    assert(b@.take(b.len() as int) =~= b@);
}

fn push_quoted(out: &mut Vec<char>, b: &[u8])
    ensures
        final(out)@ == old(out)@ + quoted(b@),
{
    let ghost start = out@;
    push_str_chars(out, "\"");
    push_byte_text(out, b);
    push_str_chars(out, "\"");
    assert(out@ =~= start + quoted(b@));
}

impl ParseError {
    /// The message for this error.
    pub fn message(&self) -> (r: String)
        ensures
            r@ == perr_text(self@),
    {
        let mut out: Vec<char> = Vec::new();
        match self {
            ParseError::TrailingInput(p) => {
                push_str_chars(&mut out, "unexpected trailing input at byte ");
                push_dec(&mut out, *p as u64);
                push_str_chars(&mut out, " in filter expression");
            },
            ParseError::DepthLimit => {
                push_str_chars(&mut out, "filter expression nesting exceeds depth limit ");
                push_dec(&mut out, MAX_EXPR_DEPTH as u64);
            },
            ParseError::MissingParen => {
                push_str_chars(&mut out, "missing closing parenthesis in filter expression");
            },
            ParseError::QuoteLiteral => {
                push_str_chars(
                    &mut out,
                    "string and character literals are not supported in filters",
                );
            },
            ParseError::UnexpectedChar(c) => {
                push_str_chars(&mut out, "unexpected character '");
                out.push(*c as char);
                push_str_chars(&mut out, "' in filter expression");
            },
            ParseError::UnexpectedEnd => {
                push_str_chars(&mut out, "unexpected end of filter expression");
            },
            ParseError::BadFloat(t) => {
                push_str_chars(&mut out, "invalid float literal ");
                push_quoted(&mut out, t.as_slice());
                push_str_chars(&mut out, " in filter expression");
            },
            ParseError::BadInt(t) => {
                push_str_chars(&mut out, "invalid integer literal ");
                push_quoted(&mut out, t.as_slice());
                push_str_chars(&mut out, " in filter expression");
            },
            ParseError::FunctionCall(t) => {
                push_str_chars(&mut out, "function call ");
                push_quoted(&mut out, t.as_slice());
                push_str_chars(&mut out, " not allowed in filter");
            },
            ParseError::UnknownVariable(t) => {
                push_str_chars(&mut out, "variable ");
                push_quoted(&mut out, t.as_slice());
                push_str_chars(&mut out, " not allowed in filter");
            },
            ParseError::NotPropertyAccess(t) => {
                push_str_chars(&mut out, "variable ");
                push_quoted(&mut out, t.as_slice());
                push_str_chars(&mut out, " must be used as a property access (e.g. ");
                push_byte_text(&mut out, t.as_slice());
                push_str_chars(&mut out, ".size)");
            },
            ParseError::MissingProperty(t, p) => {
                push_str_chars(&mut out, "missing property name after \"");
                push_byte_text(&mut out, t.as_slice());
                push_str_chars(&mut out, ".\" at byte ");
                push_dec(&mut out, *p as u64);
            },
            ParseError::MethodCall(t) => {
                push_str_chars(&mut out, "method call ");
                push_quoted(&mut out, t.as_slice());
                push_str_chars(&mut out, " not allowed in filter");
            },
            ParseError::UnknownProperty(t) => {
                push_str_chars(&mut out, "object property ");
                push_quoted(&mut out, t.as_slice());
                push_str_chars(&mut out, " not allowed in filter");
            },
        }
        proof {
            assert(out@ =~= perr_text(self@));
        }
        string_from_chars(out.as_slice())
    }
}

// ── Integer evaluation ─────────────────────────────────────

/// A value of the integer fragment.
#[derive(Debug, Clone, Copy, PartialEq, Eq, Structural)]
pub enum Value {
    Int(i64),
    Bool(bool),
}

/// The `(size, last_modified)` that the filter reads from an object.
pub open spec fn props_pair(p: ObjectProps) -> (u64, u64) {
    (p.size, p.last_modified)
}

pub open spec fn opt_pair(t: Option<&ObjectProps>) -> Option<(u64, u64)> {
    match t {
        Some(p) => Some(props_pair(*p)),
        None => None,
    }
}

/// A property read: absent without the object, an error where the value
/// exceeds `i64::MAX`.
pub open spec fn read_prop(
    source: (u64, u64),
    target: Option<(u64, u64)>,
    v: Var,
    p: Prop,
) -> Option<Value> {
    let obj = match v {
        Var::Source => Some(source),
        Var::Target => target,
    };
    match obj {
        None => None,
        Some(o) => {
            let raw = if p == Prop::Size {
                o.0
            } else {
                o.1
            };
            if raw <= i64::MAX {
                Some(Value::Int(raw as i64))
            } else {
                None
            }
        },
    }
}

pub open spec fn int_result(r: Option<i64>) -> Option<Value> {
    match r {
        Some(x) => Some(Value::Int(x)),
        None => None,
    }
}

/// A non-short-circuit binary operator on two values: equality across
/// kinds is `false`; arithmetic is checked (`/` and `%` truncate toward
/// zero); anything else is an error.
pub open spec fn eval_bin_v(op: BinOp, l: Value, r: Value) -> Option<Value> {
    if op == BinOp::Eq || op == BinOp::Ne {
        let equal = match (l, r) {
            (Value::Bool(a), Value::Bool(b)) => a == b,
            (Value::Int(a), Value::Int(b)) => a == b,
            _ => false,
        };
        Some(Value::Bool(if op == BinOp::Eq { equal } else { !equal }))
    } else {
        match (l, r) {
            (Value::Int(a), Value::Int(b)) => match op {
                BinOp::Add => int_result(a.checked_add(b)),
                BinOp::Sub => int_result(a.checked_sub(b)),
                BinOp::Mul => int_result(a.checked_mul(b)),
                BinOp::Div => int_result(a.checked_div(b)),
                BinOp::Rem => int_result(a.checked_rem(b)),
                BinOp::Lt => Some(Value::Bool(a < b)),
                BinOp::Le => Some(Value::Bool(a <= b)),
                BinOp::Gt => Some(Value::Bool(a > b)),
                BinOp::Ge => Some(Value::Bool(a >= b)),
                _ => None,
            },
            _ => None,
        }
    }
}

/// On two integers the comparison operators mean what they mean on the
/// integers: `<`, `<=`, `>`, `>=`, `==` and `!=` give the truth of that
/// comparison. So `<=` and `>=` are the non-strict orders (they hold of
/// equal operands), `<` and `>` the strict ones, and `<=` is exactly `<` or
/// `==`.
pub proof fn law_int_comparisons(a: i64, b: i64)
    ensures
        eval_bin_v(BinOp::Lt, Value::Int(a), Value::Int(b)) == Some(Value::Bool(a < b)),
        eval_bin_v(BinOp::Le, Value::Int(a), Value::Int(b)) == Some(Value::Bool(a <= b)),
        eval_bin_v(BinOp::Gt, Value::Int(a), Value::Int(b)) == Some(Value::Bool(a > b)),
        eval_bin_v(BinOp::Ge, Value::Int(a), Value::Int(b)) == Some(Value::Bool(a >= b)),
        eval_bin_v(BinOp::Eq, Value::Int(a), Value::Int(b)) == Some(Value::Bool(a == b)),
        eval_bin_v(BinOp::Ne, Value::Int(a), Value::Int(b)) == Some(Value::Bool(a != b)),
        eval_bin_v(BinOp::Le, Value::Int(a), Value::Int(b)) == Some(Value::Bool(
            eval_bin_v(BinOp::Lt, Value::Int(a), Value::Int(b)) == Some(Value::Bool(true))
                || eval_bin_v(BinOp::Eq, Value::Int(a), Value::Int(b)) == Some(Value::Bool(true)),
        )),
        eval_bin_v(BinOp::Le, Value::Int(a), Value::Int(b)) == eval_bin_v(
            BinOp::Ge,
            Value::Int(b),
            Value::Int(a),
        ),
        eval_bin_v(BinOp::Lt, Value::Int(a), Value::Int(b)) == eval_bin_v(
            BinOp::Gt,
            Value::Int(b),
            Value::Int(a),
        ),
{
}

/// On two integers `+`, `-` and `*` give the exact sum, difference and
/// product where it fits in 64 bits and an error otherwise; `/` and `%` by
/// zero are errors, and on non-negative operands they give the quotient and
/// remainder.
pub proof fn law_int_arithmetic(a: i64, b: i64)
    ensures
        eval_bin_v(BinOp::Add, Value::Int(a), Value::Int(b)) == (if i64::MIN <= a + b <= i64::MAX {
            Some(Value::Int((a + b) as i64))
        } else {
            None
        }),
        eval_bin_v(BinOp::Sub, Value::Int(a), Value::Int(b)) == (if i64::MIN <= a - b <= i64::MAX {
            Some(Value::Int((a - b) as i64))
        } else {
            None
        }),
        eval_bin_v(BinOp::Mul, Value::Int(a), Value::Int(b)) == (if i64::MIN <= a * b <= i64::MAX {
            Some(Value::Int((a * b) as i64))
        } else {
            None
        }),
        b == 0 ==> eval_bin_v(BinOp::Div, Value::Int(a), Value::Int(b)) is None,
        b == 0 ==> eval_bin_v(BinOp::Rem, Value::Int(a), Value::Int(b)) is None,
        a >= 0 && b > 0 ==> eval_bin_v(BinOp::Div, Value::Int(a), Value::Int(b)) == Some(
            Value::Int((a / b) as i64),
        ),
        a >= 0 && b > 0 ==> eval_bin_v(BinOp::Rem, Value::Int(a), Value::Int(b)) == Some(
            Value::Int((a % b) as i64),
        ),
{
    if a >= 0 && b > 0 {
        let x = a as int;
        let d = b as int;
        assert(0 <= x % d < d) by (nonlinear_arith)
            requires
                d > 0,
        ;
        assert(x == 0 ==> x % d == 0) by (nonlinear_arith)
            requires
                d > 0,
        ;
        assert(a % b == x % d);
        assert(a.checked_rem(b) == Some((x % d) as i64));
        assert(0 <= x / d <= x) by (nonlinear_arith)
            requires
                d > 0,
                x >= 0,
        ;
    }
}

/// Equality compares values of one kind and is false across kinds; `!=`
/// is its negation; no operator but `==` and `!=` applies to booleans.
pub proof fn law_equality_and_kinds(l: Value, r: Value, op: BinOp)
    ensures
        eval_bin_v(BinOp::Eq, l, r) == Some(Value::Bool(l == r)),
        eval_bin_v(BinOp::Ne, l, r) == Some(Value::Bool(l != r)),
        op != BinOp::Eq && op != BinOp::Ne && (l is Bool || r is Bool) ==> eval_bin_v(op, l, r)
            is None,
{
}

/// An expression compared with itself by a non-strict order is true, and by
/// a strict one false, wherever it has an integer value: `X <= X` and
/// `X >= X` hold and `X < X`, `X > X` do not.
pub proof fn law_self_comparison(
    n: NodeV,
    source: (u64, u64),
    target: Option<(u64, u64)>,
)
    requires
        eval_v(n, source, target) matches Some(Value::Int(_)),
    ensures
        eval_v(NodeV::Binary(BinOp::Le, Box::new(n), Box::new(n)), source, target) == Some(
            Value::Bool(true),
        ),
        eval_v(NodeV::Binary(BinOp::Ge, Box::new(n), Box::new(n)), source, target) == Some(
            Value::Bool(true),
        ),
        eval_v(NodeV::Binary(BinOp::Lt, Box::new(n), Box::new(n)), source, target) == Some(
            Value::Bool(false),
        ),
        eval_v(NodeV::Binary(BinOp::Gt, Box::new(n), Box::new(n)), source, target) == Some(
            Value::Bool(false),
        ),
{
}

/// The value of a float-free tree for one object (and its counterpart in
/// diff mode); `None` is a runtime error. `&&` and `||` short-circuit and
/// need booleans on both sides. A float literal has no value here: such a
/// tree is evaluated by the application.
pub open spec fn eval_v(n: NodeV, source: (u64, u64), target: Option<(u64, u64)>) -> Option<
    Value,
>
    decreases n,
{
    match n {
        NodeV::Bool(b) => Some(Value::Bool(b)),
        NodeV::Int(i) => Some(Value::Int(i)),
        NodeV::Float(_) => None,
        NodeV::Prop(v, p) => read_prop(source, target, v, p),
        NodeV::Unary(op, inner) => match eval_v(*inner, source, target) {
            None => None,
            Some(v) => match (op, v) {
                (UnOp::Not, Value::Bool(b)) => Some(Value::Bool(!b)),
                (UnOp::Neg, Value::Int(i)) => if i == i64::MIN {
                    None
                } else {
                    Some(Value::Int(-i as i64))
                },
                (UnOp::Plus, Value::Int(i)) => Some(Value::Int(i)),
                _ => None,
            },
        },
        NodeV::Binary(op, l, r) => if op == BinOp::And || op == BinOp::Or {
            match eval_v(*l, source, target) {
                Some(Value::Bool(lb)) => if (op == BinOp::And && !lb) || (op == BinOp::Or && lb) {
                    Some(Value::Bool(lb))
                } else {
                    match eval_v(*r, source, target) {
                        Some(Value::Bool(rb)) => Some(Value::Bool(rb)),
                        _ => None,
                    }
                },
                _ => None,
            }
        } else {
            match (eval_v(*l, source, target), eval_v(*r, source, target)) {
                (Some(a), Some(b)) => eval_bin_v(op, a, b),
                _ => None,
            }
        },
    }
}

fn read_prop_exec(source: &ObjectProps, target: Option<&ObjectProps>, v: Var, p: Prop) -> (r:
    Option<Value>)
    ensures
        r == read_prop(props_pair(*source), opt_pair(target), v, p),
{
    let obj = match v {
        Var::Source => source,
        Var::Target => match target {
            Some(t) => t,
            None => return None,
        },
    };
    let raw = match p {
        Prop::Size => obj.size,
        Prop::LastModified => obj.last_modified,
    };
    if raw <= 9223372036854775807u64 {
        Some(Value::Int(raw as i64))
    } else {
        None
    }
}

fn eval_binary(op: BinOp, l: Value, r: Value) -> (v: Option<Value>)
    ensures
        v == eval_bin_v(op, l, r),
{
    match op {
        BinOp::Eq | BinOp::Ne => {
            let equal = match (l, r) {
                (Value::Bool(a), Value::Bool(b)) => a == b,
                (Value::Int(a), Value::Int(b)) => a == b,
                _ => false,
            };
            let out = match op {
                BinOp::Eq => equal,
                _ => !equal,
            };
            Some(Value::Bool(out))
        },
        _ => match (l, r) {
            (Value::Int(a), Value::Int(b)) => match op {
                BinOp::Add => match a.checked_add(b) {
                    Some(x) => Some(Value::Int(x)),
                    None => None,
                },
                BinOp::Sub => match a.checked_sub(b) {
                    Some(x) => Some(Value::Int(x)),
                    None => None,
                },
                BinOp::Mul => match a.checked_mul(b) {
                    Some(x) => Some(Value::Int(x)),
                    None => None,
                },
                BinOp::Div => match a.checked_div(b) {
                    Some(x) => Some(Value::Int(x)),
                    None => None,
                },
                BinOp::Rem => match a.checked_rem(b) {
                    Some(x) => Some(Value::Int(x)),
                    None => None,
                },
                BinOp::Lt => Some(Value::Bool(a < b)),
                BinOp::Le => Some(Value::Bool(a <= b)),
                BinOp::Gt => Some(Value::Bool(a > b)),
                BinOp::Ge => Some(Value::Bool(a >= b)),
                _ => None,
            },
            _ => None,
        },
    }
}

fn eval(node: &Node, source: &ObjectProps, target: Option<&ObjectProps>) -> (r: Option<Value>)
    requires
        !has_float_v(node@),
    ensures
        r == eval_v(node@, props_pair(*source), opt_pair(target)),
    decreases node,
{
    match node {
        Node::Bool(b) => Some(Value::Bool(*b)),
        Node::Int(i) => Some(Value::Int(*i)),
        Node::Float(_) => None,
        Node::Prop(v, p) => read_prop_exec(source, target, *v, *p),
        Node::Unary(op, inner) => {
            let v = match eval(inner, source, target) {
                Some(v) => v,
                None => return None,
            };
            match (op, v) {
                (UnOp::Not, Value::Bool(b)) => Some(Value::Bool(!b)),
                (UnOp::Neg, Value::Int(i)) => if i == i64::MIN {
                    None
                } else {
                    Some(Value::Int(-i))
                },
                (UnOp::Plus, Value::Int(i)) => Some(Value::Int(i)),
                _ => None,
            }
        },
        Node::Binary(op, lhs, rhs) => {
            let is_and = match op {
                BinOp::And => true,
                _ => false,
            };
            let is_or = match op {
                BinOp::Or => true,
                _ => false,
            };
            if is_and || is_or {
                let l = match eval(lhs, source, target) {
                    Some(Value::Bool(b)) => b,
                    _ => return None,
                };
                if (is_and && !l) || (is_or && l) {
                    return Some(Value::Bool(l));
                }
                match eval(rhs, source, target) {
                    Some(Value::Bool(b)) => Some(Value::Bool(b)),
                    _ => None,
                }
            } else {
                let l = match eval(lhs, source, target) {
                    Some(v) => v,
                    None => return None,
                };
                let r = match eval(rhs, source, target) {
                    Some(v) => v,
                    None => return None,
                };
                eval_binary(*op, l, r)
            }
        },
    }
}

fn uses_target(node: &Node) -> (r: bool)
    ensures
        r == uses_target_v(node@),
    decreases node,
{
    match node {
        Node::Prop(v, _) => match v {
            Var::Target => true,
            Var::Source => false,
        },
        Node::Unary(_, inner) => uses_target(inner),
        Node::Binary(_, l, r) => uses_target(l) || uses_target(r),
        _ => false,
    }
}

fn has_float(node: &Node) -> (r: bool)
    ensures
        r == has_float_v(node@),
    decreases node,
{
    match node {
        Node::Float(_) => true,
        Node::Unary(_, inner) => has_float(inner),
        Node::Binary(_, l, r) => has_float(l) || has_float(r),
        _ => false,
    }
}

// ── Compiled filters ───────────────────────────────────────

pub open spec fn target_in_list_text() -> Seq<char> {
    "variable \"TARGET\" is only available in diff mode"@
}

pub open spec fn not_boolean_text() -> Seq<char> {
    "filter expression must evaluate to a boolean"@
}

pub open spec fn eval_failed_text() -> Seq<char> {
    "filter expression failed to evaluate"@
}

/// The probe environment: an all-zero object, and an all-zero counterpart
/// where the tree reads `TARGET`.
pub open spec fn probe_target(n: NodeV) -> Option<(u64, u64)> {
    if uses_target_v(n) {
        Some((0u64, 0u64))
    } else {
        None
    }
}

/// What compiling an expression gives: the parse, the rule that `TARGET`
/// needs diff mode, and a probe evaluation against all-zero objects that
/// must give a boolean. The probe of a tree with a float literal is left to
/// the application (`FilterExpr::has_float_literal`).
pub open spec fn compile_spec(s: Seq<u8>, allow_target: bool) -> Result<NodeV, Seq<char>> {
    match parse_spec(s) {
        Err(e) => Err(perr_text(e)),
        Ok(n) => if uses_target_v(n) && !allow_target {
            Err(target_in_list_text())
        } else if has_float_v(n) {
            Ok(n)
        } else {
            match eval_v(n, (0u64, 0u64), probe_target(n)) {
                Some(Value::Bool(_)) => Ok(n),
                Some(_) => Err(not_boolean_text()),
                None => Err(eval_failed_text()),
            }
        },
    }
}

/// A filter accepted in list mode is accepted in diff mode as the same
/// expression, and never reads `TARGET`.
pub proof fn law_list_filter_holds_in_diff_mode(s: Seq<u8>)
    requires
        compile_spec(s, false) is Ok,
    ensures
        compile_spec(s, true) == compile_spec(s, false),
        !uses_target_v(compile_spec(s, false)->Ok_0),
{
}

/// A filter that reads `TARGET` is refused in list mode with the same
/// message, whatever else it holds.
pub proof fn law_target_refused_in_list_mode(s: Seq<u8>)
    requires
        parse_spec(s) is Ok,
        uses_target_v(parse_spec(s)->Ok_0),
    ensures
        compile_spec(s, false) == Err::<NodeV, Seq<char>>(target_in_list_text()),
{
}

/// What evaluating a float-free tree for an object pair gives.
pub open spec fn evaluate_spec(n: NodeV, source: (u64, u64), target: Option<(u64, u64)>) -> Option<
    bool,
> {
    if uses_target_v(n) && target is None {
        None
    } else {
        match eval_v(n, source, target) {
            Some(Value::Bool(b)) => Some(b),
            _ => None,
        }
    }
}

/// A compiled filter expression.
#[derive(Debug)]
pub struct FilterExpr {
    root: Node,
    uses_target: bool,
}

pub open spec fn compiled(r: Result<FilterExpr, String>) -> Result<NodeV, Seq<char>> {
    match r {
        Ok(f) => Ok(f.tree()),
        Err(m) => Err(m@),
    }
}

impl FilterExpr {
    #[verifier::type_invariant]
    spec fn inv(&self) -> bool {
        self.uses_target == uses_target_v(self.root@)
    }

    pub closed spec fn tree(&self) -> NodeV {
        self.root@
    }

    /// Parses and checks an expression; `allow_target` is false in list
    /// mode, where there is no target object.
    pub fn compile(expr: &str, allow_target: bool) -> (r: Result<Self, String>)
        ensures
            compiled(r) == compile_spec(expr.spec_bytes(), allow_target),
    {
        let mut parser = Parser::new(expr);
        let root = match parser.parse() {
            Ok(n) => n,
            Err(e) => return Err(e.message()),
        };
        let uses = uses_target(&root);
        if uses && !allow_target {
            return Err(owned("variable \"TARGET\" is only available in diff mode"));
        }
        if has_float(&root) {
            return Ok(FilterExpr { root, uses_target: uses });
        }
        let probe = ObjectProps::default();
        let target_probe = if uses {
            Some(&probe)
        } else {
            None
        };
        match eval(&root, &probe, target_probe) {
            Some(Value::Bool(_)) => Ok(FilterExpr { root, uses_target: uses }),
            Some(_) => Err(owned("filter expression must evaluate to a boolean")),
            None => Err(owned("filter expression failed to evaluate")),
        }
    }

    /// Evaluates the filter for an object (and its counterpart in diff
    /// mode); `None` is a runtime error, such as a division by zero or a
    /// `TARGET` read without a target.
    pub fn evaluate(&self, source: &ObjectProps, target: Option<&ObjectProps>) -> (r: Option<bool>)
        requires
            !has_float_v(self.tree()),
        ensures
            r == evaluate_spec(self.tree(), props_pair(*source), opt_pair(target)),
    {
        proof {
            use_type_invariant(self);
        }
        if self.uses_target && target.is_none() {
            return None;
        }
        match eval(&self.root, source, target) {
            Some(Value::Bool(b)) => Some(b),
            _ => None,
        }
    }

    /// Whether the expression holds a float literal, whose arithmetic the
    /// application carries out.
    pub fn has_float_literal(&self) -> (r: bool)
        ensures
            r == has_float_v(self.tree()),
    {
        has_float(&self.root)
    }

    pub fn reads_target(&self) -> (r: bool)
        ensures
            r == uses_target_v(self.tree()),
    {
        proof {
            use_type_invariant(self);
        }
        self.uses_target
    }

    pub fn root(&self) -> (r: &Node)
        ensures
            r@ == self.tree(),
    {
        &self.root
    }
}

} // verus!
