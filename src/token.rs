use vstd::prelude::*;

verus! {

/// A lexical token of the scene language.
#[derive(Clone, Debug, PartialEq)]
pub enum Token {
    Lpar,
    Rpar,
    Dot,
    Word(String),
}

/// What a token stands for, with a word as its characters.
pub enum TokenView {
    Lpar,
    Rpar,
    Dot,
    Word(Seq<char>),
}

impl View for Token {
    type V = TokenView;

    open spec fn view(&self) -> TokenView {
        match self {
            Token::Lpar => TokenView::Lpar,
            Token::Rpar => TokenView::Rpar,
            Token::Dot => TokenView::Dot,
            Token::Word(w) => TokenView::Word(w@),
        }
    }
}

/// The views of a sequence of tokens.
pub open spec fn views(toks: Seq<Token>) -> Seq<TokenView> {
    toks.map_values(|t: Token| t@)
}

/// The characters that end a word.
pub open spec fn is_separator(c: char) -> bool {
    c == '(' || c == ')' || c == ' ' || c == '\t' || c == '\n' || c == '\''
}

/// The characters that separate tokens and are themselves dropped.
pub open spec fn is_blank(c: char) -> bool {
    c == ' ' || c == '\t' || c == '\n'
}

/// One step of the scanner on character `c`, from the tokens emitted so far
/// and the word being read. A separator first ends the pending word.
/// Parentheses then become tokens, blanks are dropped, and every other
/// character (a quote too) extends the word.
pub open spec fn scan_step(state: (Seq<TokenView>, Seq<char>), c: char) -> (
    Seq<TokenView>,
    Seq<char>,
) {
    let (toks, word) = if is_separator(c) && state.1.len() > 0 {
        (state.0.push(TokenView::Word(state.1)), Seq::<char>::empty())
    } else {
        state
    };
    if c == '(' {
        (toks.push(TokenView::Lpar), word)
    } else if c == ')' {
        (toks.push(TokenView::Rpar), word)
    } else if is_blank(c) {
        (toks, word)
    } else {
        (toks, word.push(c))
    }
}

/// The scanner's state after reading all of `s`.
pub open spec fn scan(s: Seq<char>) -> (Seq<TokenView>, Seq<char>)
    decreases s.len(),
{
    if s.len() == 0 {
        (Seq::empty(), Seq::empty())
    } else {
        scan_step(scan(s.drop_last()), s.last())
    }
}

/// The tokens of the text `s`: those of the scan, then the word left over at
/// the end, if any.
pub open spec fn tokens_of(s: Seq<char>) -> Seq<TokenView> {
    let (toks, word) = scan(s);
    if word.len() > 0 {
        toks.push(TokenView::Word(word))
    } else {
        toks
    }
}

/// Relies on `String`'s `FromIterator<&char>`: the string holds the
/// characters in order.
#[verifier::external_body]
pub(crate) fn collect_chars(chars: &Vec<char>) -> (r: String)
    ensures
        r@ == chars@,
{
    chars.iter().collect()
}

/// The word token made of the characters `tok`.
pub fn new_word(tok: &Vec<char>) -> (r: Token)
    ensures
        r@ == TokenView::Word(tok@),
{
    Token::Word(collect_chars(tok))
}

/// Whether `c` ends a word.
pub fn is_sep(c: char) -> (r: bool)
    ensures
        r == is_separator(c),
{
    match c {
        '(' | ')' | ' ' | '\t' | '\n' | '\'' => true,
        _ => false,
    }
}

/// Splits the text `input` into tokens.
pub fn tokenize(input: &str) -> (r: Vec<Token>)
    ensures
        views(r@) == tokens_of(input@),
{
    let mut vec: Vec<Token> = Vec::new();
    let mut tok: Vec<char> = Vec::new();
    let ghost mut read: Seq<char> = Seq::empty();
    for c in it: input.chars()
        invariant
            it.seq() == input@,
            read == input@.take(it.index() as int),
            (views(vec@), tok@) == scan(read),
    {
        proof {
            let next = read.push(c);
            assert(next.drop_last() =~= read);
            read = next;
        }
        if is_sep(c) && tok.len() > 0 {
            vec.push(new_word(&tok));
            tok.clear();
        }
        match c {
            '(' => vec.push(Token::Lpar),
            ')' => vec.push(Token::Rpar),
            ' ' | '\t' | '\n' => {},
            _ => tok.push(c),
        }
        assert(views(vec@) =~= scan(read).0);
        assert(tok@ =~= scan(read).1);
    }
    assert(read =~= input@);
    if tok.len() > 0 {
        vec.push(new_word(&tok));
    }
    assert(views(vec@) =~= tokens_of(input@));
    vec
}

} // verus!
