//! A small tokenizer for stylesheet text.

use vstd::prelude::*;
use crate::text::{char_is_whitespace, is_whitespace, to_chars, views};

verus! {

/// A token of a stylesheet.
#[derive(Debug, PartialEq, Eq)]
pub enum Token {
    Selector(String),
    Property(String, String),
    Comment(String),
    OpenBrace,
    CloseBrace,
    Semicolon,
    Colon,
    Other(String),
}

/// The mathematical model of [`Token`].
pub enum TokenView {
    Selector(Seq<char>),
    Property(Seq<char>, Seq<char>),
    Comment(Seq<char>),
    OpenBrace,
    CloseBrace,
    Semicolon,
    Colon,
    Other(Seq<char>),
}

impl View for Token {
    type V = TokenView;

    open spec fn view(&self) -> TokenView {
        match self {
            Token::Selector(s) => TokenView::Selector(s@),
            Token::Property(n, v) => TokenView::Property(n@, v@),
            Token::Comment(s) => TokenView::Comment(s@),
            Token::OpenBrace => TokenView::OpenBrace,
            Token::CloseBrace => TokenView::CloseBrace,
            Token::Semicolon => TokenView::Semicolon,
            Token::Colon => TokenView::Colon,
            Token::Other(s) => TokenView::Other(s@),
        }
    }
}

impl Clone for Token {
    fn clone(&self) -> (r: Token)
        ensures
            r@ == self@,
    {
        match self {
            Token::Selector(s) => Token::Selector(s.clone()),
            Token::Property(n, v) => Token::Property(n.clone(), v.clone()),
            Token::Comment(s) => Token::Comment(s.clone()),
            Token::OpenBrace => Token::OpenBrace,
            Token::CloseBrace => Token::CloseBrace,
            Token::Semicolon => Token::Semicolon,
            Token::Colon => Token::Colon,
            Token::Other(s) => Token::Other(s.clone()),
        }
    }
}

/// `String::push` appends the character to the end of the string.
pub assume_specification[ String::push ](s: &mut String, c: char)
    ensures
        final(s)@ == old(s)@.push(c),
;

/// The characters that are tokens by themselves.
pub open spec fn is_punctuation(c: char) -> bool {
    c == '{' || c == '}' || c == ':' || c == ';'
}

/// The first place from `i` on that holds no white space.
pub open spec fn skip_whitespace(cs: Seq<char>, i: int) -> int
    decreases cs.len() - i,
{
    if 0 <= i < cs.len() && is_whitespace(cs[i]) {
        skip_whitespace(cs, i + 1)
    } else {
        i
    }
}

/// The first place from `i` on where a comment closes, or the last place of
/// the text where none does.
pub open spec fn comment_close(cs: Seq<char>, i: int) -> int
    decreases cs.len() - i,
{
    if 0 <= i && i + 1 < cs.len() && !(cs[i] == '*' && cs[i + 1] == '/') {
        comment_close(cs, i + 1)
    } else {
        i
    }
}

/// The place behind the comment that opens at `start`. A comment that is
/// not closed ends before the last character of the text.
pub open spec fn comment_end(cs: Seq<char>, start: int) -> int {
    let close = comment_close(cs, start + 2);
    if close + 1 < cs.len() {
        close + 2
    } else {
        close
    }
}

/// The first place from `i` on that holds white space or punctuation.
pub open spec fn word_end(cs: Seq<char>, i: int) -> int
    decreases cs.len() - i,
{
    if 0 <= i < cs.len() && !is_whitespace(cs[i]) && !is_punctuation(cs[i]) {
        word_end(cs, i + 1)
    } else {
        i
    }
}

/// The place behind the token that starts at `j`, a place that holds no
/// white space.
pub open spec fn token_end(cs: Seq<char>, j: int) -> int {
    if j + 1 < cs.len() && cs[j] == '/' && cs[j + 1] == '*' {
        comment_end(cs, j)
    } else if is_punctuation(cs[j]) {
        j + 1
    } else {
        word_end(cs, j)
    }
}

/// The token that starts at `j` and ends before `end`.
pub open spec fn token_at(cs: Seq<char>, j: int, end: int) -> TokenView {
    if j + 1 < cs.len() && cs[j] == '/' && cs[j + 1] == '*' {
        TokenView::Comment(cs.subrange(j, if end <= cs.len() { end } else { cs.len() as int }))
    } else if cs[j] == '{' {
        TokenView::OpenBrace
    } else if cs[j] == '}' {
        TokenView::CloseBrace
    } else if cs[j] == ';' {
        TokenView::Semicolon
    } else if cs[j] == ':' {
        TokenView::Colon
    } else {
        TokenView::Other(cs.subrange(j, end))
    }
}

/// The tokens of the text from place `i` on: white space separates tokens,
/// `/*` opens a comment, each of `{ } : ;` is a token, and any other run of
/// characters up to white space or punctuation is one token.
pub open spec fn scanned(cs: Seq<char>, i: int) -> Seq<TokenView>
    decreases cs.len() - i,
{
    let j = skip_whitespace(cs, i);
    if 0 <= i <= j < cs.len() {
        let end = token_end(cs, j);
        if j < end <= cs.len() {
            seq![token_at(cs, j, end)] + scanned(cs, end)
        } else {
            Seq::empty()
        }
    } else {
        Seq::empty()
    }
}

/// How many tokens the token at place `i` takes up once read in its
/// context, and what it becomes. A word before `{` is a selector. A word
/// before `:` and another word is a property with its value, and takes up
/// all three. Any other token stays as it is.
pub open spec fn classified_at(ts: Seq<TokenView>, i: int) -> (TokenView, int) {
    match ts[i] {
        TokenView::Other(text) => if i + 1 < ts.len() && ts[i + 1] is OpenBrace {
            (TokenView::Selector(text), 1)
        } else if i + 2 < ts.len() && ts[i + 1] is Colon && ts[i + 2] is Other {
            (TokenView::Property(text, ts[i + 2]->Other_0), 3)
        } else {
            (ts[i], 1)
        },
        _ => (ts[i], 1),
    }
}

/// The tokens from place `i` on, read in their context.
pub open spec fn classified(ts: Seq<TokenView>, i: int) -> Seq<TokenView>
    decreases ts.len() - i,
{
    if 0 <= i < ts.len() {
        let (token, width) = classified_at(ts, i);
        seq![token] + classified(ts, i + width)
    } else {
        Seq::empty()
    }
}

/// The tokens of a stylesheet text.
pub open spec fn tokens_of(css: Seq<char>) -> Seq<TokenView> {
    classified(scanned(css, 0), 0)
}

/// The text that the characters from `start` up to `end` make.
pub(crate) fn text_between(chars: &Vec<char>, start: usize, end: usize) -> (r: String)
    requires
        start <= end <= chars.len(),
    ensures
        r@ == chars@.subrange(start as int, end as int),
{
    let mut out = String::new();
    let mut i: usize = start;
    while i < end
        invariant
            start <= i <= end <= chars.len(),
            out@ == chars@.subrange(start as int, i as int),
        decreases end - i,
    {
        out.push(chars[i]);
        assert(chars@.subrange(start as int, i + 1) =~= chars@.subrange(start as int, i as int).push(
            chars@[i as int],
        ));
        i += 1;
    }
    out
}

fn is_punctuation_char(c: char) -> (r: bool)
    ensures
        r == is_punctuation(c),
{
    c == '{' || c == '}' || c == ':' || c == ';'
}

/// Splits a text into tokens, none of them read in its context yet.
pub fn scan_tokens(chars: &Vec<char>) -> (r: Vec<Token>)
    ensures
        views(r@) == scanned(chars@, 0),
{
    let ghost cs = chars@;
    let ghost goal = scanned(cs, 0);
    let mut tokens: Vec<Token> = Vec::new();
    let mut i: usize = 0;
    assert(views(tokens@) + scanned(cs, 0) =~= goal);
    while i < chars.len()
        invariant
            cs == chars@,
            0 <= i <= chars.len(),
            views(tokens@) + scanned(cs, i as int) == goal,
        decreases chars.len() - i,
    {
        let ghost from = i;
        while i < chars.len() && char_is_whitespace(chars[i])
            invariant
                cs == chars@,
                from <= i <= chars.len(),
                skip_whitespace(cs, i as int) == skip_whitespace(cs, from as int),
            decreases chars.len() - i,
        {
            i += 1;
        }
        if i < chars.len() {
            let j = i;
            assert(skip_whitespace(cs, from as int) == j);
            let ghost before = views(tokens@);
            if i + 1 < chars.len() && chars[i] == '/' && chars[i + 1] == '*' {
                i += 2;
                let last = chars.len() - 1;
                while i < last && !(chars[i] == '*' && chars[i + 1] == '/')
                    invariant
                        cs == chars@,
                        j + 2 <= i <= chars.len(),
                        last == chars.len() - 1,
                        comment_close(cs, i as int) == comment_close(cs, j + 2),
                    decreases chars.len() - i,
                {
                    i += 1;
                }
                if i < last {
                    i += 2;
                }
                let comment = text_between(chars, j, i);
                tokens.push(Token::Comment(comment));
            } else if chars[i] == '{' {
                tokens.push(Token::OpenBrace);
                i += 1;
            } else if chars[i] == '}' {
                tokens.push(Token::CloseBrace);
                i += 1;
            } else if chars[i] == ';' {
                tokens.push(Token::Semicolon);
                i += 1;
            } else if chars[i] == ':' {
                tokens.push(Token::Colon);
                i += 1;
            } else {
                while i < chars.len() && !char_is_whitespace(chars[i]) && !is_punctuation_char(chars[i])
                    invariant
                        cs == chars@,
                        j <= i <= chars.len(),
                        word_end(cs, i as int) == word_end(cs, j as int),
                    decreases chars.len() - i,
                {
                    i += 1;
                }
                let text = text_between(chars, j, i);
                tokens.push(Token::Other(text));
            }
            proof {
                assert(i == token_end(cs, j as int));
                assert(j < i);
                assert(views(tokens@) =~= before + seq![token_at(cs, j as int, i as int)]);
                assert((before + seq![token_at(cs, j as int, i as int)]) + scanned(cs, i as int) =~= before + (
                seq![token_at(cs, j as int, i as int)] + scanned(cs, i as int)));
            }
        }
    }
    proof {
        assert(views(tokens@) + Seq::<TokenView>::empty() =~= views(tokens@));
    }
    tokens
}

/// Reads each token in its context: selectors and properties are told from
/// other words.
pub fn classify_tokens(tokens: &Vec<Token>) -> (r: Vec<Token>)
    ensures
        views(r@) == classified(views(tokens@), 0),
{
    let ghost ts = views(tokens@);
    let ghost goal = classified(ts, 0);
    let mut processed: Vec<Token> = Vec::new();
    let mut i: usize = 0;
    assert(views(processed@) + classified(ts, 0) =~= goal);
    while i < tokens.len()
        invariant
            ts == views(tokens@),
            0 <= i <= tokens.len(),
            views(processed@) + classified(ts, i as int) == goal,
        decreases tokens.len() - i,
    {
        let ghost before = views(processed@);
        let ghost at = i;
        proof {
            assert(ts[i as int] == tokens[i as int]@);
            if i + 1 < tokens.len() {
                assert(ts[i + 1] == tokens[i + 1]@);
            }
            if i + 2 < tokens.len() {
                assert(ts[i + 2] == tokens[i + 2]@);
            }
        }
        let mut width: usize = 1;
        match &tokens[i] {
            Token::Other(text) => {
                if i + 1 < tokens.len() && matches!(tokens[i + 1], Token::OpenBrace) {
                    processed.push(Token::Selector(text.clone()));
                } else if i + 1 < tokens.len() && matches!(tokens[i + 1], Token::Colon) {
                    if i + 2 < tokens.len() {
                        if let Token::Other(value) = &tokens[i + 2] {
                            processed.push(Token::Property(text.clone(), value.clone()));
                            width = 3;
                        } else {
                            processed.push(tokens[i].clone());
                        }
                    } else {
                        processed.push(tokens[i].clone());
                    }
                } else {
                    processed.push(tokens[i].clone());
                }
            },
            _ => {
                processed.push(tokens[i].clone());
            },
        }
        i += width;
        proof {
            let (token, w) = classified_at(ts, at as int);
            assert(w == width);
            assert(views(processed@) =~= before + seq![token]);
            assert((before + seq![token]) + classified(ts, i as int) =~= before + (seq![token] + classified(
                ts,
                i as int,
            )));
        }
    }
    proof {
        assert(views(processed@) + Seq::<TokenView>::empty() =~= views(processed@));
    }
    processed
}

/// Splits a stylesheet text into tokens.
pub fn tokenize_css(css: &str) -> (r: Vec<Token>)
    ensures
        views(r@) == tokens_of(css@),
{
    let chars = to_chars(css);
    let tokens = scan_tokens(&chars);
    classify_tokens(&tokens)
}

/// How many rules, properties and comments a stylesheet holds.
#[derive(Debug, Clone, Copy, PartialEq, Eq, Structural)]
pub struct Statistics {
    pub rules: usize,
    pub properties: usize,
    pub comments: usize,
}

/// How many of the first `n` tokens are selectors, properties and comments.
pub open spec fn counted(ts: Seq<TokenView>, n: int) -> (int, int, int)
    decreases n,
{
    if n <= 0 {
        (0, 0, 0)
    } else {
        let (rules, properties, comments) = counted(ts, n - 1);
        match ts[n - 1] {
            TokenView::Selector(_) => (rules + 1, properties, comments),
            TokenView::Property(_, _) => (rules, properties + 1, comments),
            TokenView::Comment(_) => (rules, properties, comments + 1),
            _ => (rules, properties, comments),
        }
    }
}

proof fn lemma_counted_bounds(ts: Seq<TokenView>, n: int)
    requires
        0 <= n,
    ensures
        0 <= counted(ts, n).0 <= n,
        0 <= counted(ts, n).1 <= n,
        0 <= counted(ts, n).2 <= n,
    decreases n,
{
    if n > 0 {
        lemma_counted_bounds(ts, n - 1);
    }
}

/// Counts the rules, the properties and the comments among the tokens: a
/// selector counts as a rule.
pub fn statistics(tokens: &Vec<Token>) -> (r: Statistics)
    ensures
        r.rules == counted(views(tokens@), tokens.len() as int).0,
        r.properties == counted(views(tokens@), tokens.len() as int).1,
        r.comments == counted(views(tokens@), tokens.len() as int).2,
{
    let ghost ts = views(tokens@);
    let mut rules: usize = 0;
    let mut properties: usize = 0;
    let mut comments: usize = 0;
    let mut i: usize = 0;
    while i < tokens.len()
        invariant
            ts == views(tokens@),
            0 <= i <= tokens.len(),
            rules == counted(ts, i as int).0,
            properties == counted(ts, i as int).1,
            comments == counted(ts, i as int).2,
        decreases tokens.len() - i,
    {
        proof {
            lemma_counted_bounds(ts, i as int);
            assert(ts[i as int] == tokens[i as int]@);
        }
        match &tokens[i] {
            Token::Selector(_) => {
                rules += 1;
            },
            Token::Property(_, _) => {
                properties += 1;
            },
            Token::Comment(_) => {
                comments += 1;
            },
            _ => {},
        }
        i += 1;
    }
    Statistics { rules, properties, comments }
}

} // verus!
