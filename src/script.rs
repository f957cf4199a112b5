use vstd::prelude::*;
use std::collections::VecDeque;
use crate::lexer::{lexed, tokenize};
use crate::parser::{ParseError, Parser, Statement, parse_script};
use crate::tokens::Token;

verus! {

/// Reads the lines of a script into its statements: the lines are split into
/// tokens and the tokens parsed.
pub fn read_script(lines: &Vec<String>) -> (r: Result<Vec<Statement>, ParseError>)
    ensures
        match parse_script(lexed(lines@.map_values(|l: String| l@), lines@.len())) {
            Ok(sts) => r is Ok && r->Ok_0@.map_values(|s: Statement| s@) == sts,
            Err(e) => r == Err::<Vec<Statement>, ParseError>(e),
        },
{
    let mut tokens = tokenize(lines);
    let mut queue: VecDeque<Token> = VecDeque::new();
    let ghost v = tokens@;
    // move the tokens, front first, into the queue
    let mut rest: Vec<Token> = Vec::new();
    while tokens.len() > 0
        invariant
            tokens@ == v.take(tokens@.len() as int),
            tokens@.len() <= v.len(),
            rest@ == v.skip(tokens@.len() as int).reverse(),
        decreases tokens@.len(),
    {
        let ghost k = tokens@.len();
        match tokens.pop() {
            Some(t) => {
                rest.push(t);
                assert(tokens@ =~= v.take(k - 1));
                assert(rest@ =~= v.skip(k - 1).reverse());
            },
            None => {},
        }
    }
    while rest.len() > 0
        invariant
            queue@ + rest@.reverse() == v,
        decreases rest@.len(),
    {
        let ghost before = rest@;
        match rest.pop() {
            Some(t) => {
                queue.push_back(t);
                assert(before.reverse() =~= seq![before.last()] + rest@.reverse());
            },
            None => {},
        }
    }
    assert(queue@ =~= v);
    let mut parser = Parser::new();
    parser.create_syntax_tree(queue)
}

} // verus!
