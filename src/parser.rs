pub mod ast;
pub mod error;
pub mod tokenizer;

use vstd::prelude::*;

use std::collections::VecDeque;

use self::ast::{fold_buffer, push_node, push_operator, Builder, Element};
use self::error::Error;
use self::tokenizer::{tokenize, tokens_of, tokens_wf, Token, TokenResult};
use crate::engine::Node;

verus! {

/// Reads tokens into the buffer `buf` up to the group's terminator: the tree the group
/// builds (or the first error met), and the tokens left after it.
/// A group start reads a nested group, whose tree then arrives like a value. The outermost
/// group (`nested` false) may only be closed by the last token: a terminator before it
/// matches no group start.
#[verifier::opaque]
pub open spec fn parse_group(tokens: Seq<TokenResult>, buf: Seq<Element>, nested: bool) -> (
    Result<Node, Error>,
    Seq<TokenResult>,
)
    decreases tokens.len(),
{
    if tokens.len() == 0 {
        (Err(Error::UnterminatedGroup), tokens)
    } else {
        let rest = tokens.skip(1);
        match tokens[0] {
            Err(e) => (Err(Error::Value(e)), rest),
            Ok(Token::Value(d)) => match push_node(buf, Node::Value(d)) {
                Ok(b) => parse_group(rest, b, nested),
                Err(e) => (Err(e), rest),
            },
            Ok(Token::Operator(op)) => match push_operator(buf, op) {
                Ok(b) => parse_group(rest, b, nested),
                Err(e) => (Err(e), rest),
            },
            Ok(Token::GroupStart) => {
                let (inner, after) = parse_group(rest, seq![], true);
                match inner {
                    Err(e) => (Err(e), after),
                    Ok(n) => if after.len() < tokens.len() {
                        match push_node(buf, n) {
                            Ok(b) => parse_group(after, b, nested),
                            Err(e) => (Err(e), after),
                        }
                    } else {
                        (Err(Error::UnterminatedGroup), after)
                    },
                }
            },
            Ok(Token::GroupEnd) => if !nested && rest.len() > 0 {
                (Err(Error::UninitializedGroup), rest)
            } else {
                (fold_buffer(buf), rest)
            },
        }
    }
}

/// The tree of a text: its tokens read as the outermost group, which a terminator
/// after the last token closes.
pub open spec fn parse_text(s: Seq<char>) -> Result<Node, Error> {
    parse_group(tokens_of(s).push(Ok(Token::GroupEnd)), seq![], false).0
}

/// Construct a tree of value or expression nodes to be evaluated by the engine.
pub fn parse(input: &str) -> (r: Result<Node, Error>)
    ensures
        r == parse_text(input@),
        r matches Ok(n) ==> n.wf(),
{
    let mut tokens = tokenize(input);
    tokens.push_back(Ok(Token::GroupEnd));
    proof {
        assert(tokens_wf(tokens@)) by {
            assert forall|i: int| 0 <= i < tokens@.len() - 1 implies tokens@[i] == tokens_of(
                input@,
            )[i] by {}
        }
    }
    parse_tokens(&mut tokens, false)
}

/// Convert a stream of tokens, up to its group terminator, into a root tree node.
fn parse_tokens(tokens: &mut VecDeque<TokenResult>, nested: bool) -> (r: Result<
    Node,
    Error,
>)
    requires
        tokens_wf(old(tokens)@),
    ensures
        r == parse_group(old(tokens)@, seq![], nested).0,
        final(tokens)@ == parse_group(old(tokens)@, seq![], nested).1,
        r is Ok ==> final(tokens)@.len() < old(tokens)@.len(),
        tokens_wf(final(tokens)@),
        r matches Ok(n) ==> n.wf(),
    decreases old(tokens)@.len(),
{
    let ghost orig = tokens@;
    let mut builder = Builder::new();
    loop
        invariant
            orig == old(tokens)@,
            builder.wf(),
            tokens_wf(tokens@),
            tokens@.len() <= orig.len(),
            parse_group(tokens@, builder@, nested) == parse_group(orig, seq![], nested),
        decreases tokens@.len(),
    {
        let ghost before = tokens@;
        let ghost buf = builder@;
        let token = tokens.pop_front();
        proof {
            if before.len() > 0 {
                assert(tokens@ =~= before.skip(1));
                assert forall|i: int| 0 <= i < tokens@.len() implies tokens@[i] == before[i
                    + 1] by {}
                assert(tokens_wf(tokens@));
            }
        }
        match token {
            None => {
                assert(parse_group(before, buf, nested) == (Result::<Node, Error>::Err(
                    Error::UnterminatedGroup,
                ), tokens@)) by {
                    reveal(parse_group);
                }
                return Err(Error::UnterminatedGroup);
            },
            Some(Err(e)) => {
                assert(parse_group(before, buf, nested) == (Result::<Node, Error>::Err(Error::Value(e)), tokens@))
                    by {
                    reveal(parse_group);
                }
                return Err(Error::Value(e));
            },
            Some(Ok(Token::Value(value))) => {
                assert(tokens_wf(before) && before[0] == TokenResult::Ok(Token::Value(value)));
                match builder.add_node(Node::Value(value)) {
                    Ok(()) => {
                        assert(parse_group(before, buf, nested) == parse_group(tokens@, builder@, nested)) by {
                            reveal(parse_group);
                        }
                    },
                    Err(e) => {
                        assert(parse_group(before, buf, nested) == (Result::<Node, Error>::Err(e), tokens@)) by {
                    reveal(parse_group);
                }
                        return Err(e);
                    },
                }
            },
            Some(Ok(Token::Operator(operator))) => {
                match builder.add_operator(operator) {
                    Ok(()) => {
                        assert(parse_group(before, buf, nested) == parse_group(tokens@, builder@, nested)) by {
                            reveal(parse_group);
                        }
                    },
                    Err(e) => {
                        assert(parse_group(before, buf, nested) == (Result::<Node, Error>::Err(e), tokens@)) by {
                    reveal(parse_group);
                }
                        return Err(e);
                    },
                }
            },
            Some(Ok(Token::GroupStart)) => {
                let node = match parse_tokens(tokens, true) {
                    Ok(n) => n,
                    Err(e) => {
                        assert(parse_group(before, buf, nested) == (Result::<Node, Error>::Err(e), tokens@)) by {
                    reveal(parse_group);
                }
                        return Err(e);
                    },
                };
                match builder.add_node(node) {
                    Ok(()) => {
                        assert(parse_group(before, buf, nested) == parse_group(tokens@, builder@, nested)) by {
                            reveal(parse_group);
                        }
                    },
                    Err(e) => {
                        assert(parse_group(before, buf, nested) == (Result::<Node, Error>::Err(e), tokens@)) by {
                    reveal(parse_group);
                }
                        return Err(e);
                    },
                }
            },
            Some(Ok(Token::GroupEnd)) => {
                if !nested && tokens.len() > 0 {
                    assert(parse_group(before, buf, nested) == (Result::<Node, Error>::Err(
                        Error::UninitializedGroup,
                    ), tokens@)) by {
                        reveal(parse_group);
                    }
                    return Err(Error::UninitializedGroup);
                }
                assert(parse_group(before, buf, nested) == (fold_buffer(buf), tokens@)) by {
                    reveal(parse_group);
                }
                return builder.build();
            },
        }
    }
}

} // verus!
