use vstd::prelude::*;
use crate::error::PengError;
use crate::parser::ast::{PengPositionedStatement, PengStatement};

verus! {

/// A statement that is a block with nothing in it.
pub open spec fn is_empty_block(s: PengPositionedStatement) -> bool {
    match s.value {
        PengStatement::Block(statements) => statements@.len() == 0,
        _ => false,
    }
}

pub open spec fn not_empty_block() -> spec_fn(PengPositionedStatement) -> bool {
    |s: PengPositionedStatement| !is_empty_block(s)
}

/// Dropping the empty blocks from what has none left changes nothing.
pub proof fn lemma_empty_block_removal_idempotent(s: Seq<PengPositionedStatement>)
    ensures
        s.filter(not_empty_block()).filter(not_empty_block()) == s.filter(not_empty_block()),
    decreases s.len(),
{
    reveal(Seq::filter);
    if s.len() > 0 {
        lemma_empty_block_removal_idempotent(s.drop_last());
        let t = s.drop_last().filter(not_empty_block());
        if !is_empty_block(s.last()) {
            assert(t.push(s.last()).drop_last() =~= t);
        }
    }
}

/// Drops the statements that are empty blocks, keeping the others in order.
pub fn remove_empty_block_statements(statements: Vec<PengPositionedStatement>) -> (res: Result<
    Vec<PengPositionedStatement>,
    PengError,
>)
    ensures
        res matches Ok(x) && x@ == statements@.filter(not_empty_block()),
{
    let ghost input = statements@;
    let mut cleaned: Vec<PengPositionedStatement> = Vec::new();
    assert(input.len() == statements.len());
    let mut pending = statements;
    let mut rest: Vec<PengPositionedStatement> = Vec::new();
    while pending.len() > 0
        invariant
            pending@ == input.take(pending@.len() as int),
            pending@.len() + rest@.len() == input.len(),
            forall|j: int| 0 <= j < rest@.len() ==> #[trigger] rest@[j] == input[input.len() - 1 - j],
        decreases pending@.len(),
    {
        let ghost p0 = pending@;
        let statement = pending.pop().unwrap();
        assert(pending@ =~= input.take(pending@.len() as int));
        rest.push(statement);
    }
    let mut i: usize = 0;
    while rest.len() > 0
        invariant
            input.len() <= usize::MAX,
            i + rest@.len() == input.len(),
            forall|j: int| 0 <= j < rest@.len() ==> #[trigger] rest@[j] == input[input.len() - 1 - j],
            cleaned@ == input.take(i as int).filter(not_empty_block()),
        decreases rest@.len(),
    {
        let ghost r0 = rest@;
        let statement = rest.pop().unwrap();
        assert(statement == input[i as int]);
        proof {
            reveal(Seq::filter);
            assert(input.take(i + 1).drop_last() =~= input.take(i as int));
            assert(input.take(i + 1).last() == input[i as int]);
        }
        if !statement_is_empty_block(&statement) {
            cleaned.push(statement);
        }
        i = i + 1;
    }
    assert(input.take(i as int) =~= input);
    Ok(cleaned)
}

/// An empty list of statements becomes `None`.
pub fn empty_statements_to_none(statements: Option<Vec<PengPositionedStatement>>) -> (res: Result<
    Option<Vec<PengPositionedStatement>>,
    PengError,
>)
    ensures
        res matches Ok(x) && match statements {
            Some(s) => if s@.len() == 0 {
                x is None
            } else {
                x == Some(s)
            },
            None => x is None,
        },
{
    match statements {
        Some(statements) => {
            if statements.len() == 0 {
                Ok(None)
            } else {
                Ok(Some(statements))
            }
        },
        None => Ok(None),
    }
}

pub fn statement_is_empty_block(statement: &PengPositionedStatement) -> (res: bool)
    ensures
        res == is_empty_block(*statement),
{
    match &statement.value {
        PengStatement::Block(statements) => statements.len() == 0,
        _ => false,
    }
}

pub fn statements_are_empty(statements: &Vec<PengPositionedStatement>) -> (res: bool)
    ensures
        res == (statements@.len() == 0),
{
    statements.len() == 0
}

} // verus!
