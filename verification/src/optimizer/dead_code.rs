use vstd::prelude::*;
use crate::error::PengError;
use crate::parser::ast::{PengMatchArm, PengPositionedStatement, PengStatement};

verus! {

/// After this statement, control never reaches the next one in the same block: it
/// returns, breaks or continues, or it is a block, an `if` with both branches, or a
/// `match` with arms and an `else`, all of whose ways end so.
pub open spec fn stops_flow(s: PengPositionedStatement) -> bool
    decreases s, 2nat,
{
    match s.value {
        PengStatement::Return(_) => true,
        PengStatement::Break => true,
        PengStatement::Continue => true,
        PengStatement::Block(statements) => block_stops(statements@),
        PengStatement::If(st) => block_stops(st.then_branch@) && match st.else_branch {
            Some(b) => block_stops(b@),
            None => false,
        },
        PengStatement::Match(st) => st.arms@.len() > 0 && match st.elsing {
            Some(b) => block_stops(b@),
            None => false,
        } && arms_stop(st.arms@),
        _ => false,
    }
}

/// A block stops the flow when its last statement does.
pub open spec fn block_stops(s: Seq<PengPositionedStatement>) -> bool
    decreases s, 1nat,
{
    s.len() > 0 && stops_flow(s.last())
}

/// Every arm's body stops the flow.
pub open spec fn arms_stop(arms: Seq<PengMatchArm>) -> bool
    decreases arms, 0nat,
{
    if arms.len() == 0 {
        true
    } else {
        block_stops(arms.last().body@) && arms_stop(arms.drop_last())
    }
}

#[verifier::loop_isolation(false)]
pub fn statement_stops_flow(statement: &PengPositionedStatement) -> (res: bool)
    ensures
        res == stops_flow(*statement),
    decreases statement, 2nat,
{
    match &statement.value {
        PengStatement::Return(_) => true,
        PengStatement::Break => true,
        PengStatement::Continue => true,
        PengStatement::Block(statements) => block_stops_flow(statements),
        PengStatement::If(st) => {
            let then_stops = block_stops_flow(&st.then_branch);
            let else_stops = match &st.else_branch {
                Some(statements) => block_stops_flow(statements),
                None => false,
            };
            then_stops && else_stops
        },
        PengStatement::Match(st) => {
            if st.arms.len() == 0 {
                return false;
            }
            let elsing = match &st.elsing {
                Some(statements) => statements,
                None => return false,
            };
            if !block_stops_flow(elsing) {
                return false;
            }
            let mut i: usize = st.arms.len();
            assert(st.arms@.take(i as int) =~= st.arms@);
            while i > 0
                invariant
                    i <= st.arms@.len(),
                    arms_stop(st.arms@) == arms_stop(st.arms@.take(i as int)),
                decreases i,
            {
                let ghost t = st.arms@.take(i as int);
                assert(t.drop_last() =~= st.arms@.take(i - 1));
                assert(t.last() == st.arms@[i - 1]);
                proof {
                    assert(decreases_to!(*statement => statement.value));
                    assert(decreases_to!(statement.value => statement.value->Match_0));
                    assert(decreases_to!(statement.value->Match_0 => st.arms));
                    assert(decreases_to!(st.arms => st.arms@));
                    assert(decreases_to!(st.arms@ => st.arms@[i - 1]));
                    assert(decreases_to!(st.arms@[i - 1] => st.arms@[i - 1].body));
                }
                if !block_stops_flow(&st.arms[i - 1].body) {
                    assert(!arms_stop(t));
                    return false;
                }
                i = i - 1;
            }
            true
        },
        _ => false,
    }
}

pub fn block_stops_flow(statements: &Vec<PengPositionedStatement>) -> (res: bool)
    ensures
        res == block_stops(statements@),
    decreases statements, 1nat,
{
    if statements.len() == 0 {
        return false;
    }
    statement_stops_flow(&statements[statements.len() - 1])
}

/// `x` is `s` up to and including its first statement that stops the flow, or all of
/// `s` if none does.
pub open spec fn reachable_part(s: Seq<PengPositionedStatement>, x: Seq<PengPositionedStatement>) -> bool {
    &&& x.len() <= s.len()
    &&& x == s.take(x.len() as int)
    &&& forall|i: int| 0 <= i < x.len() - 1 ==> !stops_flow(#[trigger] x[i])
    &&& x.len() < s.len() ==> x.len() > 0 && stops_flow(x.last())
}

/// Removing the unreachable statements twice gives what removing them once gave: the
/// second time there is nothing left to remove.
pub proof fn lemma_unreachable_removal_idempotent(
    s: Seq<PengPositionedStatement>,
    x: Seq<PengPositionedStatement>,
    y: Seq<PengPositionedStatement>,
)
    requires
        reachable_part(s, x),
        reachable_part(x, y),
    ensures
        y == x,
{
    if y.len() < x.len() {
        assert(y.last() == x[y.len() - 1]);
        assert(!stops_flow(x[y.len() - 1]));
    }
    assert(x.take(x.len() as int) =~= x);
}

/// The statements of a block up to and including the first one that stops the flow:
/// those after it can never run.
pub fn remove_unreachable_statements(statements: Vec<PengPositionedStatement>) -> (res: Result<
    Vec<PengPositionedStatement>,
    PengError,
>)
    ensures
        res matches Ok(x) && reachable_part(statements@, x@),
{
    let mut statements = statements;
    let mut i: usize = 0;
    let mut stopped = false;
    while i < statements.len() && !stopped
        invariant
            i <= statements@.len(),
            forall|j: int| 0 <= j < i - 1 ==> !stops_flow(#[trigger] statements@[j]),
            stopped ==> i > 0 && stops_flow(statements@[i - 1]),
            !stopped && i > 0 ==> !stops_flow(statements@[i - 1]),
        decreases statements@.len() - i,
    {
        stopped = statement_stops_flow(&statements[i]);
        i = i + 1;
    }
    let ghost before = statements@;
    statements.truncate(i);
    assert(statements@ =~= before.take(i as int));
    Ok(statements)
}

} // verus!
