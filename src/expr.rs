use vstd::prelude::*;
use crate::literal::{i64_literal, is_decimal, is_decimal_literal, read_integer};
use crate::token::{collect_chars, views, Token, TokenView};

verus! {

/// A parsed s-expression. A decimal number is kept as the text that writes
/// it.
#[derive(Debug, PartialEq)]
pub enum Expr {
    Nil,
    Symbol(String),
    Num(i64),
    Float(String),
    Cons(Box<Expr>, Box<Expr>),
}

/// What an expression stands for, with each text as its characters.
pub enum ExprView {
    Nil,
    Symbol(Seq<char>),
    Num(i64),
    Float(Seq<char>),
    Cons(Box<ExprView>, Box<ExprView>),
}

pub open spec fn expr_view(e: Expr) -> ExprView
    decreases e,
{
    match e {
        Expr::Nil => ExprView::Nil,
        Expr::Symbol(s) => ExprView::Symbol(s@),
        Expr::Num(n) => ExprView::Num(n),
        Expr::Float(s) => ExprView::Float(s@),
        Expr::Cons(a, b) => ExprView::Cons(Box::new(expr_view(*a)), Box::new(expr_view(*b))),
    }
}

impl View for Expr {
    type V = ExprView;

    open spec fn view(&self) -> ExprView {
        expr_view(*self)
    }
}

/// The views of a sequence of expressions.
pub open spec fn expr_views(es: Seq<Expr>) -> Seq<ExprView> {
    es.map_values(|e: Expr| e@)
}

/// The head of a pair, or nil for anything else.
pub open spec fn car_of(e: ExprView) -> ExprView {
    match e {
        ExprView::Cons(a, _) => *a,
        _ => ExprView::Nil,
    }
}

/// The tail of a pair, or nil for anything else.
pub open spec fn cdr_of(e: ExprView) -> ExprView {
    match e {
        ExprView::Cons(_, b) => *b,
        _ => ExprView::Nil,
    }
}

impl Expr {
    /// A copy of this expression.
    pub fn duplicate(&self) -> (r: Expr)
        ensures
            r@ == self@,
        decreases self,
    {
        match self {
            Expr::Nil => Expr::Nil,
            Expr::Symbol(s) => Expr::Symbol(s.clone()),
            Expr::Num(n) => Expr::Num(*n),
            Expr::Float(s) => Expr::Float(s.clone()),
            Expr::Cons(a, b) => {
                let a2 = a.duplicate();
                let b2 = b.duplicate();
                Expr::Cons(Box::new(a2), Box::new(b2))
            },
        }
    }
}

/// The head of a pair, or nil for anything else.
pub fn car(cons: &Expr) -> (r: Expr)
    ensures
        r@ == car_of(cons@),
{
    match cons {
        Expr::Cons(c1, _c2) => c1.duplicate(),
        _ => Expr::Nil,
    }
}

/// The tail of a pair, or nil for anything else.
pub fn cdr(cons: &Expr) -> (r: Expr)
    ensures
        r@ == cdr_of(cons@),
{
    match cons {
        Expr::Cons(_c1, c2) => c2.duplicate(),
        _ => Expr::Nil,
    }
}

/// The atom that a word stands for: an integer when it writes a 64-bit
/// integer, else a decimal number when it writes one, else a symbol.
pub open spec fn atom_of(w: Seq<char>) -> ExprView {
    match i64_literal(w) {
        Some(n) => ExprView::Num(n),
        None => if is_decimal_literal(w) {
            ExprView::Float(w)
        } else {
            ExprView::Symbol(w)
        },
    }
}

/// The expression at the start of the tokens `t`, with the number of tokens
/// it takes. An opening parenthesis starts a list (and may not be followed by
/// a dot); a word is an atom; anything else is no expression.
pub open spec fn parse_expr_spec(t: Seq<TokenView>) -> Option<(ExprView, int)>
    decreases t.len(), 0int,
{
    if t.len() == 0 {
        None
    } else {
        match t[0] {
            TokenView::Lpar => if t.len() < 2 || t[1] is Dot {
                None
            } else {
                match parse_list_spec(t.skip(1)) {
                    Some((e, n)) => Some((e, n + 1)),
                    None => None,
                }
            },
            TokenView::Word(w) => Some((atom_of(w), 1)),
            _ => None,
        }
    }
}

/// The rest of a list whose opening parenthesis is already read, with the
/// number of tokens it takes: nil at a closing parenthesis; after a dot, one
/// expression and the closing parenthesis; else an element and the rest.
pub open spec fn parse_list_spec(t: Seq<TokenView>) -> Option<(ExprView, int)>
    decreases t.len(), 1int,
{
    if t.len() == 0 {
        None
    } else {
        match t[0] {
            TokenView::Rpar => Some((ExprView::Nil, 1)),
            TokenView::Dot => match parse_expr_spec(t.skip(1)) {
                Some((e, n)) => if 1 + n < t.len() && t[1 + n] is Rpar {
                    Some((e, n + 2))
                } else {
                    None
                },
                None => None,
            },
            _ => match parse_expr_spec(t) {
                Some((head, n)) => if 0 < n <= t.len() {
                    match parse_list_spec(t.skip(n)) {
                        Some((tail, m)) => Some(
                            (ExprView::Cons(Box::new(head), Box::new(tail)), n + m),
                        ),
                        None => None,
                    }
                } else {
                    None
                },
                None => None,
            },
        }
    }
}

/// All the expressions of the tokens `t`, one after the other, or `None`
/// when some part of them is no expression.
pub open spec fn parse_all_spec(t: Seq<TokenView>) -> Option<Seq<ExprView>>
    decreases t.len(),
{
    if t.len() == 0 {
        Some(Seq::empty())
    } else {
        match parse_expr_spec(t) {
            Some((e, n)) => if 0 < n <= t.len() {
                match parse_all_spec(t.skip(n)) {
                    Some(es) => Some(seq![e] + es),
                    None => None,
                }
            } else {
                None
            },
            None => None,
        }
    }
}

/// `r` is the outcome `s` of a parse of `tokens`: the same expression, and
/// the tokens after the `n` it takes.
pub open spec fn parsed_as(
    tokens: Seq<Token>,
    r: Option<(Expr, &[Token])>,
    s: Option<(ExprView, int)>,
) -> bool {
    match (r, s) {
        (None, None) => true,
        (Some((e, rest)), Some((v, n))) => e@ == v && 0 < n <= tokens.len() && rest@ == tokens.skip(
            n,
        ),
        _ => false,
    }
}

proof fn lemma_views_skip(t: Seq<Token>, n: int)
    requires
        0 <= n <= t.len(),
    ensures
        views(t.skip(n)) == views(t).skip(n),
{
    assert(views(t.skip(n)) =~= views(t).skip(n));
}

fn tail(tokens: &[Token], n: usize) -> (r: &[Token])
    requires
        n <= tokens@.len(),
    ensures
        r@ == tokens@.skip(n as int),
        views(r@) == views(tokens@).skip(n as int),
{
    proof {
        lemma_views_skip(tokens@, n as int);
    }
    let r = &tokens[n..tokens.len()];
    assert(r@ =~= tokens@.skip(n as int));
    r
}

/// Reads the rest of a list whose opening parenthesis is already read.
fn parse_list(tokens: &[Token]) -> (r: Option<(Expr, &[Token])>)
    ensures
        parsed_as(tokens@, r, parse_list_spec(views(tokens@))),
    decreases tokens@.len(), 1int,
{
    if tokens.len() < 1 {
        return None;
    }
    let ghost t = views(tokens@);
    assert(t[0] == tokens@[0]@);
    match &tokens[0] {
        Token::Rpar => Some((Expr::Nil, tail(tokens, 1))),
        Token::Dot => {
            let inner = tail(tokens, 1);
            match parse_expr(inner) {
                Some((cdr, rest)) => {
                    let ghost n = tokens@.len() - 1 - rest@.len();
                    if rest.len() > 0 {
                        assert(t[1 + n] == rest@[0]@);
                        match &rest[0] {
                            Token::Rpar => {
                                let after = tail(rest, 1);
                                assert(after@ =~= tokens@.skip(n + 2));
                                Some((cdr, after))
                            },
                            _ => None,
                        }
                    } else {
                        None
                    }
                },
                None => None,
            }
        },
        _ => match parse_expr(tokens) {
            Some((car, rest)) => {
                let ghost n = tokens@.len() - rest@.len();
                proof {
                    lemma_views_skip(tokens@, n);
                }
                match parse_list(rest) {
                    Some((cdr, rest2)) => {
                        assert(rest2@ =~= tokens@.skip(tokens@.len() - rest2@.len()));
                        Some((Expr::Cons(Box::new(car), Box::new(cdr)), rest2))
                    },
                    None => None,
                }
            },
            None => None,
        },
    }
}

/// Reads one expression from the start of `tokens`, and returns it with the
/// tokens after it.
pub fn parse_expr(tokens: &[Token]) -> (r: Option<(Expr, &[Token])>)
    ensures
        parsed_as(tokens@, r, parse_expr_spec(views(tokens@))),
    decreases tokens@.len(), 0int,
{
    if tokens.len() < 1 {
        return None;
    }
    let ghost t = views(tokens@);
    assert(t[0] == tokens@[0]@);
    match &tokens[0] {
        Token::Lpar => {
            if tokens.len() < 2 {
                return None;
            }
            assert(t[1] == tokens@[1]@);
            if let Token::Dot = &tokens[1] {
                return None;
            }
            match parse_list(tail(tokens, 1)) {
                Some((e, rest)) => {
                    assert(rest@ =~= tokens@.skip(tokens@.len() - rest@.len()));
                    Some((e, rest))
                },
                None => None,
            }
        },
        Token::Rpar => None,
        Token::Dot => None,
        Token::Word(w) => {
            let atom = match read_integer(w.as_str()) {
                Some(n) => Expr::Num(n),
                None => if is_decimal(w.as_str()) {
                    Expr::Float(w.clone())
                } else {
                    Expr::Symbol(w.clone())
                },
            };
            Some((atom, tail(tokens, 1)))
        },
    }
}

/// Reads every expression of `tokens`, in order, or `None` when some part of
/// them is no expression.
pub fn parse_all(tokens: &[Token]) -> (r: Option<Vec<Expr>>)
    ensures
        match (r, parse_all_spec(views(tokens@))) {
            (None, None) => true,
            (Some(es), Some(vs)) => expr_views(es@) == vs,
            _ => false,
        },
{
    let mut exprs: Vec<Expr> = Vec::new();
    let mut rest: &[Token] = tokens;
    while rest.len() > 0
        invariant
            parse_all_spec(views(tokens@)) == match parse_all_spec(views(rest@)) {
                Some(es) => Some(expr_views(exprs@) + es),
                None => None,
            },
        decreases rest@.len(),
    {
        match parse_expr(rest) {
            Some((e, next)) => {
                let ghost n = rest@.len() - next@.len();
                proof {
                    lemma_views_skip(rest@, n);
                }
                let ghost before = exprs@;
                exprs.push(e);
                assert(expr_views(exprs@) =~= expr_views(before).push(e@));
                proof {
                    match parse_all_spec(views(next@)) {
                        Some(es) => {
                            assert(expr_views(before) + (seq![e@] + es) =~= expr_views(exprs@)
                                + es);
                        },
                        None => {},
                    }
                }
                rest = next;
            },
            None => {
                return None;
            },
        }
    }
    assert(expr_views(exprs@) + Seq::<ExprView>::empty() =~= expr_views(exprs@));
    Some(exprs)
}

// ---------------------------------------------------------------------------
// Printing.
// ---------------------------------------------------------------------------

/// The decimal digits of `n`, without leading zeros.
pub open spec fn digits_text(n: nat) -> Seq<char>
    decreases n,
{
    if n < 10 {
        seq![('0' as nat + n) as char]
    } else {
        digits_text(n / 10).push(('0' as nat + n % 10) as char)
    }
}

/// An integer in decimal, with a leading `-` when negative.
pub open spec fn int_text(n: int) -> Seq<char> {
    if n < 0 {
        seq!['-'] + digits_text((-n) as nat)
    } else {
        digits_text(n as nat)
    }
}

/// How an expression is written: `()` for nil, atoms as their text, and a
/// pair as a parenthesised list whose improper end follows a ` . `.
pub open spec fn text_of(e: ExprView) -> Seq<char>
    decreases e, 0int,
{
    match e {
        ExprView::Nil => seq!['(', ')'],
        ExprView::Symbol(s) => s,
        ExprView::Num(n) => int_text(n as int),
        ExprView::Float(s) => s,
        ExprView::Cons(a, b) => seq!['('] + text_of(*a) + list_tail_text(*b) + seq![')'],
    }
}

/// How the rest of a list is written after its first element.
pub open spec fn list_tail_text(e: ExprView) -> Seq<char>
    decreases e, 1int,
{
    match e {
        ExprView::Nil => Seq::empty(),
        ExprView::Cons(a, b) => seq![' '] + text_of(*a) + list_tail_text(*b),
        _ => seq![' ', '.', ' '] + text_of(e),
    }
}

fn push_digits(out: &mut Vec<char>, n: u64)
    ensures
        final(out)@ == old(out)@ + digits_text(n as nat),
    decreases n,
{
    if n >= 10 {
        push_digits(out, n / 10);
    }
    let d = (n % 10) as u32;
    out.push(char_of_digit(d));
}

fn char_of_digit(d: u32) -> (c: char)
    requires
        d < 10,
    ensures
        c == ('0' as nat + d) as char,
{
    match d {
        0 => '0',
        1 => '1',
        2 => '2',
        3 => '3',
        4 => '4',
        5 => '5',
        6 => '6',
        7 => '7',
        8 => '8',
        _ => '9',
    }
}

fn push_str(out: &mut Vec<char>, s: &String)
    ensures
        final(out)@ == old(out)@ + s@,
{
    let cs = crate::literal::chars_of(s.as_str());
    let mut i: usize = 0;
    while i < cs.len()
        invariant
            i <= cs@.len(),
            cs@ == s@,
            out@ == old(out)@ + cs@.take(i as int),
        decreases cs@.len() - i,
    {
        out.push(cs[i]);
        i = i + 1;
        assert(out@ =~= old(out)@ + cs@.take(i as int));
    }
    assert(cs@.take(i as int) =~= cs@);
}

fn write_expr(e: &Expr, out: &mut Vec<char>)
    ensures
        final(out)@ == old(out)@ + text_of(e@),
    decreases e, 0int,
{
    match e {
        Expr::Nil => {
            out.push('(');
            out.push(')');
            assert(out@ =~= old(out)@ + seq!['(', ')']);
        },
        Expr::Symbol(s) => push_str(out, s),
        Expr::Num(n) => {
            if *n < 0 {
                out.push('-');
                let m: u64 = (0i128 - *n as i128) as u64;
                push_digits(out, m);
                assert(out@ =~= old(out)@ + int_text(*n as int));
            } else {
                push_digits(out, *n as u64);
            }
        },
        Expr::Float(s) => push_str(out, s),
        Expr::Cons(a, b) => {
            out.push('(');
            write_expr(a, out);
            write_list_tail(b, out);
            out.push(')');
            assert(out@ =~= old(out)@ + text_of(e@));
        },
    }
}

fn write_list_tail(e: &Expr, out: &mut Vec<char>)
    ensures
        final(out)@ == old(out)@ + list_tail_text(e@),
    decreases e, 1int,
{
    match e {
        Expr::Nil => {
            assert(out@ =~= old(out)@ + list_tail_text(e@));
        },
        Expr::Cons(a, b) => {
            out.push(' ');
            write_expr(a, out);
            write_list_tail(b, out);
            assert(out@ =~= old(out)@ + list_tail_text(e@));
        },
        _ => {
            out.push(' ');
            out.push('.');
            out.push(' ');
            write_expr(e, out);
            assert(out@ =~= old(out)@ + list_tail_text(e@));
        },
    }
}

impl Expr {
    /// The expression as text: see `text_of`.
    pub fn to_text(&self) -> (r: String)
        ensures
            r@ == text_of(self@),
    {
        let mut out: Vec<char> = Vec::new();
        write_expr(self, &mut out);
        assert(out@ =~= text_of(self@));
        collect_chars(&out)
    }
}

} // verus!
