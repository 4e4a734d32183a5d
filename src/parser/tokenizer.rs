use vstd::prelude::*;

use std::collections::VecDeque;

use crate::decimal::{
    decimal_from_hex_text, decimal_from_text, parse_decimal, parse_hex_decimal, Decimal,
    DecimalError,
};

verus! {

#[derive(Clone, Copy, Debug, PartialEq, Eq, Structural)]
pub enum Token {
    Value(Decimal),
    Operator(Operator),
    GroupStart,
    GroupEnd,
}

#[derive(Clone, Copy, Debug, PartialEq, Eq, Structural)]
pub enum Operator {
    Add,
    Sub,
    Mul,
    Div,
}

/// What reading one token gives: a token, or why a literal could not be read.
pub type TokenResult = Result<Token, DecimalError>;

pub open spec fn is_separator_spec(c: char) -> bool {
    c == '+' || c == '-' || c == '*' || c == '/' || c == '(' || c == ')'
}

/// Unicode's `White_Space` property.
pub open spec fn is_whitespace_spec(c: char) -> bool {
    let u = c as u32;
    (0x9 <= u && u <= 0xD) || u == 0x20 || u == 0x85 || u == 0xA0 || u == 0x1680 || (0x2000 <= u
        && u <= 0x200A) || u == 0x2028 || u == 0x2029 || u == 0x202F || u == 0x205F || u == 0x3000
}

/// A literal: base 16 after a `0x` prefix, else base 10.
pub open spec fn number_of(w: Seq<char>) -> Result<Decimal, DecimalError> {
    if w.len() >= 2 && w[0] == '0' && w[1] == 'x' {
        decimal_from_hex_text(w.skip(2))
    } else {
        decimal_from_text(w)
    }
}

/// The token that one chunk of text stands for.
pub open spec fn token_of(w: Seq<char>) -> TokenResult {
    if w.len() == 1 && w[0] == '+' {
        Ok(Token::Operator(Operator::Add))
    } else if w.len() == 1 && w[0] == '-' {
        Ok(Token::Operator(Operator::Sub))
    } else if w.len() == 1 && w[0] == '*' {
        Ok(Token::Operator(Operator::Mul))
    } else if w.len() == 1 && w[0] == '/' {
        Ok(Token::Operator(Operator::Div))
    } else if w.len() == 1 && w[0] == '(' {
        Ok(Token::GroupStart)
    } else if w.len() == 1 && w[0] == ')' {
        Ok(Token::GroupEnd)
    } else {
        match number_of(w) {
            Ok(d) => Ok(Token::Value(d)),
            Err(e) => Err(e),
        }
    }
}

/// Ends the pending chunk, if it is not empty.
pub open spec fn flush(tokens: Seq<TokenResult>, word: Seq<char>) -> Seq<TokenResult> {
    if word.len() == 0 {
        tokens
    } else {
        tokens.push(token_of(word))
    }
}

/// The tokens of the chunks that `s` completes, and the chunk still pending at its end.
/// A separator is a chunk of its own, whitespace ends a chunk, anything else extends one.
pub open spec fn scan(s: Seq<char>) -> (Seq<TokenResult>, Seq<char>)
    decreases s.len(),
{
    if s.len() == 0 {
        (seq![], seq![])
    } else {
        let (tokens, word) = scan(s.drop_last());
        let c = s.last();
        if is_separator_spec(c) {
            (flush(tokens, word).push(token_of(seq![c])), seq![])
        } else if is_whitespace_spec(c) {
            (flush(tokens, word), seq![])
        } else {
            (tokens, word.push(c))
        }
    }
}

/// The tokens of a text, left to right.
pub open spec fn tokens_of(s: Seq<char>) -> Seq<TokenResult> {
    flush(scan(s).0, scan(s).1)
}

/// Every value read is a well-formed decimal.
pub open spec fn tokens_wf(tokens: Seq<TokenResult>) -> bool {
    forall|i: int| 0 <= i < tokens.len() ==> (#[trigger] tokens[i] matches Ok(Token::Value(d))
        ==> d.wf())
}

/// Scanning goes by the state that a prefix leaves: two prefixes that leave the same
/// state leave the same state after any common continuation.
proof fn lemma_scan_continues(x: Seq<char>, y: Seq<char>, rest: Seq<char>)
    requires
        scan(x) == scan(y),
    ensures
        scan(x + rest) == scan(y + rest),
    decreases rest.len(),
{
    if rest.len() == 0 {
        assert(x + rest =~= x);
        assert(y + rest =~= y);
    } else {
        lemma_scan_continues(x, y, rest.drop_last());
        assert((x + rest).drop_last() =~= x + rest.drop_last());
        assert((y + rest).drop_last() =~= y + rest.drop_last());
        assert((x + rest).last() == rest.last());
        assert((y + rest).last() == rest.last());
    }
}

/// Every character is whitespace.
pub open spec fn all_whitespace(ws: Seq<char>) -> bool {
    forall|i: int| 0 <= i < ws.len() ==> is_whitespace_spec(#[trigger] ws[i])
}

/// A run of whitespace ends the pending chunk and does nothing more.
proof fn lemma_scan_whitespace(a: Seq<char>, ws: Seq<char>)
    requires
        all_whitespace(ws),
    ensures
        ws.len() > 0 ==> scan(a + ws) == (flush(scan(a).0, scan(a).1), Seq::<char>::empty()),
        scan(a).1.len() == 0 ==> scan(a + ws) == scan(a),
    decreases ws.len(),
{
    if ws.len() == 0 {
        assert(a + ws =~= a);
    } else {
        let init = ws.drop_last();
        let c = ws.last();
        assert(is_whitespace_spec(ws[ws.len() - 1]));
        assert(!is_separator_spec(c));
        lemma_scan_whitespace(a, init);
        assert((a + ws).drop_last() =~= a + init);
        assert((a + ws).last() == c);
        if init.len() == 0 {
            assert(a + init =~= a);
        }
        let (t, word) = scan(a);
        assert(flush(flush(t, word), Seq::<char>::empty()) == flush(t, word));
    }
}

/// Whitespace only ends chunks. A run of it between two pieces of text acts as one space,
/// and a run at the start or the end of the text changes no token.
pub proof fn lemma_whitespace_runs(a: Seq<char>, ws: Seq<char>, b: Seq<char>)
    requires
        all_whitespace(ws),
        ws.len() > 0,
    ensures
        tokens_of(a + ws + b) == tokens_of(a + seq![' '] + b),
        tokens_of(ws + b) == tokens_of(b),
        tokens_of(a + ws) == tokens_of(a),
{
    let space = seq![' '];
    assert(is_whitespace_spec(space[0]));
    lemma_scan_whitespace(a, ws);
    lemma_scan_whitespace(a, space);
    lemma_scan_continues(a + ws, a + space, b);
    let empty = Seq::<char>::empty();
    lemma_scan_whitespace(empty, ws);
    assert(empty + ws =~= ws);
    lemma_scan_continues(ws, empty, b);
    assert(empty + b =~= b);
    let (t, word) = scan(a);
    assert(flush(flush(t, word), Seq::<char>::empty()) == flush(t, word));
}

/// A run of whitespace right before or right after a separator changes no token.
pub proof fn lemma_whitespace_beside_separator(a: Seq<char>, ws: Seq<char>, c: char, b: Seq<char>)
    requires
        all_whitespace(ws),
        is_separator_spec(c),
    ensures
        tokens_of(a + ws + seq![c] + b) == tokens_of(a + seq![c] + b),
        tokens_of(a + seq![c] + ws + b) == tokens_of(a + seq![c] + b),
{
    let plain = a + seq![c];
    let before = a + ws + seq![c];
    assert(before.drop_last() =~= a + ws);
    assert(plain.drop_last() =~= a);
    assert(before.last() == c && plain.last() == c);
    lemma_scan_whitespace(a, ws);
    if ws.len() == 0 {
        assert(a + ws =~= a);
    }
    let (t, word) = scan(a);
    assert(flush(flush(t, word), Seq::<char>::empty()) == flush(t, word));
    assert(scan(before) == scan(plain));
    lemma_scan_continues(before, plain, b);
    lemma_scan_whitespace(plain, ws);
    lemma_scan_continues(plain + ws, plain, b);
}

/// Determine whether a character is a token separator.
pub fn is_separator(value: char) -> (r: bool)
    ensures
        r == is_separator_spec(value),
{
    value == '+' || value == '-' || value == '*' || value == '/' || value == '(' || value == ')'
}

fn is_whitespace(value: char) -> (r: bool)
    ensures
        r == is_whitespace_spec(value),
{
    let u = value as u32;
    (0x9 <= u && u <= 0xD) || u == 0x20 || u == 0x85 || u == 0xA0 || u == 0x1680 || (0x2000 <= u
        && u <= 0x200A) || u == 0x2028 || u == 0x2029 || u == 0x202F || u == 0x205F || u == 0x3000
}

/// Try converting a chunk into a decimal.
pub fn parse_number(value: &str) -> (r: Result<Decimal, DecimalError>)
    ensures
        r == number_of(value@),
        r matches Ok(d) ==> d.wf(),
{
    let len = value.unicode_len();
    if len >= 2 && value.get_char(0) == '0' && value.get_char(1) == 'x' {
        let digits = value.substring_char(2, len);
        assert(digits@ =~= value@.skip(2));
        parse_hex_decimal(digits)
    } else {
        parse_decimal(value)
    }
}

/// The token of one chunk.
fn token_of_chunk(chunk: &str) -> (r: TokenResult)
    ensures
        r == token_of(chunk@),
        r matches Ok(Token::Value(d)) ==> d.wf(),
{
    if chunk.unicode_len() == 1 {
        let c = chunk.get_char(0);
        if c == '+' {
            return Ok(Token::Operator(Operator::Add));
        } else if c == '-' {
            return Ok(Token::Operator(Operator::Sub));
        } else if c == '*' {
            return Ok(Token::Operator(Operator::Mul));
        } else if c == '/' {
            return Ok(Token::Operator(Operator::Div));
        } else if c == '(' {
            return Ok(Token::GroupStart);
        } else if c == ')' {
            return Ok(Token::GroupEnd);
        }
    }
    match parse_number(chunk) {
        Ok(d) => Ok(Token::Value(d)),
        Err(e) => Err(e),
    }
}

/// Split an input string into a sequence of tokens, left to right.
pub fn tokenize(input: &str) -> (r: VecDeque<TokenResult>)
    ensures
        r@ == tokens_of(input@),
        tokens_wf(r@),
{
    let n = input.unicode_len();
    let mut tokens: VecDeque<TokenResult> = VecDeque::new();
    let mut start: usize = 0;
    let mut i: usize = 0;
    while i < n
        invariant
            n == input@.len(),
            start <= i <= n,
            scan(input@.take(i as int)) == (tokens@, input@.subrange(start as int, i as int)),
            tokens_wf(tokens@),
        decreases n - i,
    {
        let c = input.get_char(i);
        let ghost prefix = input@.take(i as int + 1);
        assert(prefix.drop_last() =~= input@.take(i as int));
        assert(prefix.last() == c);
        if is_separator(c) || is_whitespace(c) {
            if start < i {
                let chunk = input.substring_char(start, i);
                let t = token_of_chunk(chunk);
                tokens.push_back(t);
            }
            if is_separator(c) {
                let ghost single = seq![c];
                let t = token_of_chunk(input.substring_char(i, i + 1));
                assert(input@.subrange(i as int, i as int + 1) =~= single);
                tokens.push_back(t);
            }
            start = i + 1;
        }
        assert(input@.subrange(start as int, i as int + 1) =~= scan(prefix).1);
        i = i + 1;
    }
    assert(input@.take(n as int) =~= input@);
    if start < n {
        let chunk = input.substring_char(start, n);
        let t = token_of_chunk(chunk);
        tokens.push_back(t);
    }
    tokens
}

} // verus!
