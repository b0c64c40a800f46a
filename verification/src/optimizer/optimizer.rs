use vstd::prelude::*;
use crate::binding::PengBinded;
use crate::error::PengError;
use crate::optimizer::boolean_simplification::{simplify_expression, simplify_spec};
use crate::optimizer::config::PengOptimizerConfig;
use crate::optimizer::optimized::{
    block_scope, fresh_scope, lemma_optimized_expression_intro, optimized_arguments, optimized_arms, optimized_assignment, optimized_ast,
    optimized_binded_declaration, optimized_boxed_expression, optimized_boxed_statement, optimized_declaration,
    optimized_declarations, optimized_expression, optimized_expressions, optimized_fields, optimized_functions,
    optimized_literal, optimized_optional_block, optimized_optional_expression, optimized_run, optimized_statement,
    optimized_statements, optimized_target, optimized_variables, rebuilt_expression, run_ends, scope_after,
    scope_after_declarations, without_empty_blocks,
};
use crate::optimizer::constant_folding::{fold_expression, folds_to, literal_expression_spec};
use crate::optimizer::constant_propagation::{
    assigned_name, declaration_entry, declaration_name, lookup_spec, PengConstantPropagationEntry,
    PengConstantPropagationScope,
};
use crate::optimizer::dead_code::{remove_unreachable_statements, statement_stops_flow, stops_flow};
use crate::optimizer::empty_blocks::{
    empty_statements_to_none, is_empty_block, not_empty_block, remove_empty_block_statements,
};
use crate::parser::ast::{
    PengAST, PengAsDeclaration, PengAssignStatement, PengAttributeAccessExpression,
    PengBindedDeclaration, PengDeclaration, PengExpression, PengForStatement, PengFuncCallExpression,
    PengFunctionCallArg, PengFunctionDeclaration, PengFunctionLiteral, PengIfStatement,
    PengIndexExpression, PengLiteral, PengMatchArm, PengMatchStatement, PengMemberAccessExpression,
    PengMethodCallExpression, PengModuleDeclaration, PengModuleLiteral, PengObjectConstructionExpression,
    PengObjectFieldLiteral, PengOperationDeclaration, PengOperationLiteral,
    PengPositionedExpression, PengPositionedFunctionCallArg, PengPositionedFunctionDeclaration,
    PengPositionedLiteral, PengPositionedStatement, PengPositionedVariableDeclaration, PengStatement,
    PengTypeDeclaration, PengTypeLiteral, PengVariableDeclaration, PengWhileStatement,
};
use crate::positioned::PengPositioned;
use crate::optimizer::unchanged::{
    no_passes, same_optional_boxed_expression, same_arguments, same_arms, same_assignment, same_ast, same_binded_declaration,
    same_declaration, same_declarations, same_expression, same_expressions, same_fields,
    same_functions, same_literal, same_optional_expression, same_optional_statements, same_statement,
    same_statements, same_variables, same_variable, same_function, lemma_same_expression_refl,
};

verus! {

/// What a name stands for after replacement: a literal from the scope, or itself.
pub open spec fn replaced(e: PengPositionedExpression, scope: Seq<Map<Seq<char>, crate::optimizer::constant_propagation::PengConstantPropagationEntry>>) -> PengPositionedExpression {
    match e.value {
        PengExpression::Identifier(name) => match lookup_spec(scope, name.value@) {
            Some(l) => literal_expression_spec(l, e.position),
            None => e,
        },
        _ => e,
    }
}

/// `x` is what the enabled expression passes give on `e`, in this order: replacing a
/// name by its literal, simplifying, folding, simplifying again.
pub open spec fn passes_give(
    e: PengPositionedExpression,
    config: PengOptimizerConfig,
    scope: Seq<Map<Seq<char>, crate::optimizer::constant_propagation::PengConstantPropagationEntry>>,
    x: PengPositionedExpression,
) -> bool {
    let e1 = if config.constant_propagation { replaced(e, scope) } else { e };
    let e2 = if config.boolean_simplification { simplify_spec(e1) } else { e1 };
    exists|e3: PengPositionedExpression| {
        &&& (if config.constant_folding { folds_to(e2, e3) } else { e3 == e2 })
        &&& x == (if config.boolean_simplification { simplify_spec(e3) } else { e3 })
    }
}

/// `b` is `a` with at most its contents optimized: the same kind of declaration at the
/// same place, with the same name and whatever else the optimizer does not look into.
pub open spec fn same_outline(a: PengDeclaration, b: PengDeclaration) -> bool {
    match (a, b) {
        (PengDeclaration::Var(x), PengDeclaration::Var(y)) => x.position == y.position && x.value.name
            == y.value.name && x.value.type_hint == y.value.type_hint && (x.value.value is Some
            == y.value.value is Some),
        (PengDeclaration::As(x), PengDeclaration::As(y)) => x.position == y.position && x.value.name
            == y.value.name && x.value.type_hint == y.value.type_hint,
        (PengDeclaration::Function(x), PengDeclaration::Function(y)) => x.position == y.position && x.value.name
            == y.value.name && x.value.params == y.value.params && x.value.return_type == y.value.return_type,
        (PengDeclaration::Type(x), PengDeclaration::Type(y)) => x.position == y.position && x.value.name
            == y.value.name && x.value.value == y.value.value && x.value.supers == y.value.supers
            && x.value.fields@.len() == y.value.fields@.len() && x.value.functions@.len()
            == y.value.functions@.len(),
        (PengDeclaration::Module(x), PengDeclaration::Module(y)) => x.position == y.position && x.value.name
            == y.value.name && x.value.body@.len() == y.value.body@.len(),
        (PengDeclaration::Operation(x), PengDeclaration::Operation(y)) => x.position == y.position
            && x.value.name == y.value.name && x.value.params == y.value.params && x.value.return_type
            == y.value.return_type,
        _ => false,
    }
}

/// The same binding, and `same_outline` of what is bound.
pub open spec fn same_binded_outline(a: PengBindedDeclaration, b: PengBindedDeclaration) -> bool {
    match (a, b) {
        (PengBinded::Mutable(x), PengBinded::Mutable(y)) => same_outline(x, y),
        (PengBinded::Immutable(x), PengBinded::Immutable(y)) => same_outline(x, y),
        _ => false,
    }
}

/// Only the last statement, if any, stops the flow: nothing stands after a `return`,
/// `break` or `continue` that would never run.
pub open spec fn flow_stops_only_last(s: Seq<PengPositionedStatement>) -> bool {
    forall|i: int| 0 <= i < s.len() - 1 ==> !stops_flow(#[trigger] s[i])
}

/// No statement is an empty block.
pub open spec fn no_empty_blocks(s: Seq<PengPositionedStatement>) -> bool {
    forall|i: int| 0 <= i < s.len() ==> !is_empty_block(#[trigger] s[i])
}

/// What the statement passes leave at the top of a list of statements: with dead code
/// removal nothing after a flow stop, with empty block removal no empty block.
pub open spec fn clean_top(s: Seq<PengPositionedStatement>, config: PengOptimizerConfig) -> bool {
    &&& config.dead_code ==> flow_stops_only_last(s)
    &&& config.empty_blocks ==> no_empty_blocks(s)
}

/// A list of statements is clean at its top and in every statement.
pub open spec fn clean_statements(s: Seq<PengPositionedStatement>, config: PengOptimizerConfig) -> bool
    decreases s, 1nat,
{
    clean_top(s, config) && clean_each(s, config)
}

/// Every statement of the list is clean.
pub open spec fn clean_each(s: Seq<PengPositionedStatement>, config: PengOptimizerConfig) -> bool
    decreases s, 0nat,
{
    s.len() == 0 || (clean_each(s.drop_last(), config) && clean_statement(s.last(), config))
}

/// Every list of statements nested in a statement (block, branches, arms, loop bodies,
/// and the bodies a declaration holds) is clean.
pub open spec fn clean_statement(st: PengPositionedStatement, config: PengOptimizerConfig) -> bool
    decreases st, 2nat,
{
    match st.value {
        PengStatement::Block(b) => clean_statements(b@, config),
        PengStatement::Declaration(d) => clean_bodies(d.bound(), config),
        PengStatement::If(x) => clean_statements(x.then_branch@, config) && clean_optional(x.else_branch, config),
        PengStatement::Match(x) => clean_arms(x.arms@, config) && clean_optional(x.elsing, config),
        PengStatement::While(x) => clean_statements(x.body@, config),
        PengStatement::For(x) => clean_boxed(x.initializer, config) && clean_boxed(x.increment, config)
            && clean_statements(x.body@, config),
        PengStatement::Loop(b) => clean_statements(b@, config),
        _ => true,
    }
}

pub open spec fn clean_optional(o: Option<Vec<PengPositionedStatement>>, config: PengOptimizerConfig) -> bool
    decreases o, 3nat,
{
    match o {
        Some(b) => clean_statements(b@, config),
        None => true,
    }
}

pub open spec fn clean_boxed(o: Option<Box<PengPositionedStatement>>, config: PengOptimizerConfig) -> bool
    decreases o, 3nat,
{
    match o {
        Some(b) => clean_statement(*b, config),
        None => true,
    }
}

pub open spec fn clean_arms(arms: Seq<PengMatchArm>, config: PengOptimizerConfig) -> bool
    decreases arms, 0nat,
{
    arms.len() == 0 || (clean_arms(arms.drop_last(), config) && clean_statements(arms.last().body@, config))
}

/// Every function and operation body a declaration holds, in its type's functions and in
/// the declarations of its module too, is clean.
pub open spec fn clean_bodies(d: PengDeclaration, config: PengOptimizerConfig) -> bool
    decreases d, 2nat,
{
    match d {
        PengDeclaration::Function(x) => clean_statements(x.value.body@, config),
        PengDeclaration::Operation(x) => clean_statements(x.value.body@, config),
        PengDeclaration::Type(x) => clean_functions(x.value.functions@, config),
        PengDeclaration::Module(x) => clean_declarations(x.value.body@, config),
        _ => true,
    }
}

pub open spec fn clean_functions(
    s: Seq<PengBinded<PengPositionedFunctionDeclaration>>,
    config: PengOptimizerConfig,
) -> bool
    decreases s, 0nat,
{
    s.len() == 0 || (clean_functions(s.drop_last(), config) && clean_statements(
        s.last().bound().value.body@,
        config,
    ))
}

/// `clean_bodies` of every declaration.
pub open spec fn clean_declarations(s: Seq<PengBindedDeclaration>, config: PengOptimizerConfig) -> bool
    decreases s, 0nat,
{
    s.len() == 0 || (clean_declarations(s.drop_last(), config) && clean_bodies(s.last().bound(), config))
}

/// A run in which no statement but the last stops the flow is reachable as a whole.
proof fn lemma_reachable_part_whole(s: Seq<PengPositionedStatement>, x: Seq<PengPositionedStatement>)
    requires
        crate::optimizer::dead_code::reachable_part(s, x),
        forall|j: int| 0 <= j < s.len() - 1 ==> !stops_flow(#[trigger] s[j]),
    ensures
        x == s,
{
    if x.len() < s.len() {
        assert(x.last() == s[x.len() - 1]);
    }
    assert(x =~= s);
}

proof fn lemma_clean_each_forall(s: Seq<PengPositionedStatement>, config: PengOptimizerConfig)
    ensures
        clean_each(s, config) <==> forall|i: int| 0 <= i < s.len() ==> clean_statement(#[trigger] s[i], config),
    decreases s.len(),
{
    if s.len() > 0 {
        lemma_clean_each_forall(s.drop_last(), config);
        if forall|i: int| 0 <= i < s.len() ==> clean_statement(#[trigger] s[i], config) {
            assert forall|i: int| 0 <= i < s.drop_last().len() implies clean_statement(
                #[trigger] s.drop_last()[i],
                config,
            ) by {
                assert(s.drop_last()[i] == s[i]);
            }
            assert(clean_statement(s[s.len() - 1], config));
        }
        if clean_each(s, config) {
            assert forall|i: int| 0 <= i < s.len() implies clean_statement(#[trigger] s[i], config) by {
                if i < s.len() - 1 {
                    assert(s.drop_last()[i] == s[i]);
                }
            }
        }
    }
}

proof fn lemma_filter_keeps_clean(s: Seq<PengPositionedStatement>, config: PengOptimizerConfig)
    requires
        clean_each(s, config),
    ensures
        clean_each(s.filter(not_empty_block()), config),
    decreases s.len(),
{
    reveal(Seq::filter);
    if s.len() > 0 {
        lemma_filter_keeps_clean(s.drop_last(), config);
        let fd = s.drop_last().filter(not_empty_block());
        if not_empty_block()(s.last()) {
            assert(s.filter(not_empty_block()) == fd.push(s.last()));
            assert(fd.push(s.last()).drop_last() =~= fd);
        } else {
            assert(s.filter(not_empty_block()) == fd);
        }
    }
}

proof fn lemma_filter_none_stop(s: Seq<PengPositionedStatement>)
    requires
        forall|i: int| 0 <= i < s.len() ==> !stops_flow(#[trigger] s[i]),
    ensures
        forall|i: int| 0 <= i < s.filter(not_empty_block()).len() ==> !stops_flow(#[trigger] s.filter(not_empty_block())[i]),
    decreases s.len(),
{
    reveal(Seq::filter);
    if s.len() > 0 {
        let d = s.drop_last();
        assert forall|i: int| 0 <= i < d.len() implies !stops_flow(#[trigger] d[i]) by {
            assert(d[i] == s[i]);
        }
        lemma_filter_none_stop(d);
        assert(!stops_flow(s[s.len() - 1]));
        let fd = d.filter(not_empty_block());
        if not_empty_block()(s.last()) {
            assert(s.filter(not_empty_block()) == fd.push(s.last()));
            assert forall|i: int| 0 <= i < fd.push(s.last()).len() implies !stops_flow(
                #[trigger] fd.push(s.last())[i],
            ) by {
                if i < fd.len() {
                    assert(fd.push(s.last())[i] == fd[i]);
                }
            }
        } else {
            assert(s.filter(not_empty_block()) == fd);
        }
    }
}

/// Dropping empty blocks keeps a flow stop last.
proof fn lemma_filter_keeps_flow_stop_last(s: Seq<PengPositionedStatement>)
    requires
        flow_stops_only_last(s),
    ensures
        flow_stops_only_last(s.filter(not_empty_block())),
{
    reveal(Seq::filter);
    if s.len() > 0 {
        let d = s.drop_last();
        assert forall|i: int| 0 <= i < d.len() implies !stops_flow(#[trigger] d[i]) by {
            assert(d[i] == s[i]);
        }
        lemma_filter_none_stop(d);
        let fd = d.filter(not_empty_block());
        if not_empty_block()(s.last()) {
            assert forall|i: int| 0 <= i < fd.push(s.last()).len() - 1 implies !stops_flow(
                #[trigger] fd.push(s.last())[i],
            ) by {
                assert(fd.push(s.last())[i] == fd[i]);
            }
        }
    }
}

proof fn lemma_filter_no_empty_blocks(s: Seq<PengPositionedStatement>)
    ensures
        no_empty_blocks(s.filter(not_empty_block())),
{
    assert forall|i: int| 0 <= i < s.filter(not_empty_block()).len() implies !is_empty_block(
        #[trigger] s.filter(not_empty_block())[i],
    ) by {
        s.lemma_filter_pred(not_empty_block(), i);
    }
}

/// The items of `v`, last first.
fn reversed<T>(v: Vec<T>) -> (res: Vec<T>)
    ensures
        res@.len() == v@.len(),
        forall|j: int| 0 <= j < res@.len() ==> #[trigger] res@[j] == v@[v@.len() - 1 - j],
{
    let ghost input = v@;
    let mut pending = v;
    let mut out: Vec<T> = Vec::new();
    while pending.len() > 0
        invariant
            pending@ == input.take(pending@.len() as int),
            pending@.len() + out@.len() == input.len(),
            forall|j: int| 0 <= j < out@.len() ==> #[trigger] out@[j] == input[input.len() - 1 - j],
        decreases pending@.len(),
    {
        let x = pending.pop().unwrap();
        assert(pending@ =~= input.take(pending@.len() as int));
        out.push(x);
    }
    out
}

/// Optimizes a whole source with the passes `config` enables. It always succeeds, and the
/// result is what `optimized_ast` describes: every expression rebuilt from its optimized
/// parts and put through the enabled expression passes in the scope of the names known
/// where it stands, every list of statements optimized in order. A
/// program keeps its declarations one for one, each with its kind, place and name; a
/// script stays a script. In every list of statements of the result (a script, a block,
/// a branch, an arm, a loop body, a function or operation body of a declaration), no
/// statement follows one that stops the flow when dead code is removed, and none is an
/// empty block when empty blocks are removed. With no pass enabled the source comes back
/// as it was.
pub fn optimize_ast(ast: PengAST, config: PengOptimizerConfig) -> (res: Result<PengAST, PengError>)
    ensures
        res matches Ok(x) && optimized_ast(ast, x, config),
        no_passes(config) ==> (res matches Ok(a) && same_ast(ast, a)),
        match ast {
            PengAST::Program(ds) => res matches Ok(PengAST::Program(x)) && x@.len() == ds@.len() && (forall|i: int|
                0 <= i < ds@.len() ==> same_binded_outline(#[trigger] ds@[i], x@[i])) && clean_declarations(x@, config),
            PengAST::Script(_) => res matches Ok(PengAST::Script(x)) && clean_statements(x@, config),
        },
{
    let mut constants = PengConstantPropagationScope::new();
    match ast {
        PengAST::Program(declarations) => {
            let declarations = optimize_declarations(declarations, &config, &mut constants);
            Ok(PengAST::Program(declarations))
        },
        PengAST::Script(statements) => {
            let statements = optimize_statements(statements, &config, &mut constants);
            Ok(PengAST::Script(statements))
        },
    }
}

#[verifier::loop_isolation(false)]
fn optimize_declarations(
    declarations: Vec<PengBindedDeclaration>,
    config: &PengOptimizerConfig,
    constants: &mut PengConstantPropagationScope,
) -> (res: Vec<PengBindedDeclaration>)
    requires
        old(constants).wf(),
    ensures
        no_passes(*config) ==> same_declarations(declarations@, res@),
        final(constants).wf(),
        res@.len() == declarations@.len(),
        forall|i: int| 0 <= i < declarations@.len() ==> same_binded_outline(#[trigger] declarations@[i], res@[i]),
        clean_declarations(res@, *config),
        optimized_declarations(declarations@, res@, *config, old(constants)@),
    decreases declarations, 0nat,
{
    let ghost input = declarations;
    let ghost sc = constants@;
    let n = declarations.len();
    let mut rest = reversed(declarations);
    let mut optimized: Vec<PengBindedDeclaration> = Vec::new();
    while rest.len() > 0
        invariant
            constants.wf(),
            n == input@.len(),
            no_passes(*config) ==> same_declarations(input@.take(optimized@.len() as int), optimized@),
            forall|i: int| 0 <= i < optimized@.len() ==> same_binded_outline(#[trigger] input@[i], optimized@[i]),
            clean_declarations(optimized@, *config),
            constants@ == scope_after_declarations(optimized@, *config, sc),
            forall|j: int| 0 <= j < optimized@.len() ==> optimized_binded_declaration(
                #[trigger] input@[j],
                optimized@[j],
                *config,
                scope_after_declarations(optimized@.take(j), *config, sc),
            ),
            optimized@.len() + rest@.len() == n,
            forall|j: int| 0 <= j < rest@.len() ==> #[trigger] rest@[j] == input@[n - 1 - j],
        decreases rest@.len(),
    {
        let ghost before = optimized@;
        let ghost k = optimized@.len() as int;
        let declaration = rest.pop().unwrap();
        proof {
            assert(declaration == input@[k]);
            assert(decreases_to!(input => input@[k]));
        }
        let declaration = optimize_binded_declaration(declaration, config, constants);
        record_declaration_effects(&declaration, config, constants);
        optimized.push(declaration);
        proof {
            assert(input@.take(k + 1).drop_last() =~= input@.take(k));
            assert(optimized@.drop_last() =~= before);
            assert(optimized@.take(k) =~= before);
            assert forall|j: int| 0 <= j < k implies optimized@.take(j) =~= before.take(j) by {}
        }
    }
    assert(input@.take(n as int) =~= input@);
    proof {
        assert forall|j: int| 0 <= j < input@.len() implies optimized_binded_declaration(
            #[trigger] input@[j],
            optimized@[j],
            *config,
            scope_after_declarations(optimized@.take(j), *config, sc),
        ) by {}
    }
    optimized
}

fn optimize_binded_declaration(
    declaration: PengBindedDeclaration,
    config: &PengOptimizerConfig,
    constants: &mut PengConstantPropagationScope,
) -> (res: PengBindedDeclaration)
    requires
        old(constants).wf(),
    ensures
        no_passes(*config) ==> same_binded_declaration(declaration, res),
        final(constants).wf(),
        same_binded_outline(declaration, res),
        clean_bodies(res.bound(), *config),
        final(constants)@ == old(constants)@,
        optimized_binded_declaration(declaration, res, *config, old(constants)@),
    decreases declaration, 0nat,
{
    match declaration {
        PengBinded::Mutable(d) => PengBinded::Mutable(optimize_declaration(d, config, constants)),
        PengBinded::Immutable(d) => PengBinded::Immutable(optimize_declaration(d, config, constants)),
    }
}

fn optimize_optional(
    value: Option<PengPositionedExpression>,
    config: &PengOptimizerConfig,
    constants: &mut PengConstantPropagationScope,
) -> (res: Option<PengPositionedExpression>)
    requires
        old(constants).wf(),
    ensures
        no_passes(*config) ==> same_optional_expression(value, res),
        final(constants).wf(),
        res is Some == value is Some,
        final(constants)@ == old(constants)@,
        optimized_optional_expression(value, res, *config, old(constants)@),
    decreases value, 0nat,
{
    match value {
        Some(expression) => Some(optimize_expression(expression, config, constants)),
        None => None,
    }
}

fn optimize_declaration(
    declaration: PengDeclaration,
    config: &PengOptimizerConfig,
    constants: &mut PengConstantPropagationScope,
) -> (res: PengDeclaration)
    requires
        old(constants).wf(),
    ensures
        no_passes(*config) ==> same_declaration(declaration, res),
        final(constants).wf(),
        same_outline(declaration, res),
        clean_bodies(res, *config),
        final(constants)@ == old(constants)@,
        optimized_declaration(declaration, res, *config, old(constants)@),
    decreases declaration, 0nat,
{
    match declaration {
        PengDeclaration::Var(d) => {
            let value = optimize_optional(d.value.value, config, constants);
            PengDeclaration::Var(
                PengPositioned {
                    position: d.position,
                    value: PengVariableDeclaration { name: d.value.name, type_hint: d.value.type_hint, value },
                },
            )
        },
        PengDeclaration::As(d) => {
            let value = optimize_expression(d.value.value, config, constants);
            PengDeclaration::As(
                PengPositioned {
                    position: d.position,
                    value: PengAsDeclaration { name: d.value.name, type_hint: d.value.type_hint, value },
                },
            )
        },
        PengDeclaration::Function(d) => {
            let body = optimize_function_body(d.value.body, config);
            PengDeclaration::Function(
                PengPositioned {
                    position: d.position,
                    value: PengFunctionDeclaration {
                        name: d.value.name,
                        params: d.value.params,
                        return_type: d.value.return_type,
                        body,
                    },
                },
            )
        },
        PengDeclaration::Type(d) => {
            let fields = optimize_variable_declarations(d.value.fields, config, constants);
            let functions = optimize_function_declarations(d.value.functions, config);
            PengDeclaration::Type(
                PengPositioned {
                    position: d.position,
                    value: PengTypeDeclaration {
                        name: d.value.name,
                        value: d.value.value,
                        supers: d.value.supers,
                        fields,
                        functions,
                    },
                },
            )
        },
        PengDeclaration::Module(d) => {
            let mut module_constants = PengConstantPropagationScope::new();
            let body = optimize_declarations(d.value.body, config, &mut module_constants);
            PengDeclaration::Module(
                PengPositioned { position: d.position, value: PengModuleDeclaration { name: d.value.name, body } },
            )
        },
        PengDeclaration::Operation(d) => {
            let body = optimize_function_body(d.value.body, config);
            PengDeclaration::Operation(
                PengPositioned {
                    position: d.position,
                    value: PengOperationDeclaration {
                        name: d.value.name,
                        params: d.value.params,
                        return_type: d.value.return_type,
                        body,
                    },
                },
            )
        },
    }
}

#[verifier::loop_isolation(false)]
fn optimize_variable_declarations(
    declarations: Vec<PengBinded<PengPositionedVariableDeclaration>>,
    config: &PengOptimizerConfig,
    constants: &mut PengConstantPropagationScope,
) -> (res: Vec<PengBinded<PengPositionedVariableDeclaration>>)
    requires
        old(constants).wf(),
    ensures
        no_passes(*config) ==> same_variables(declarations@, res@),
        final(constants).wf(),
        res@.len() == declarations@.len(),
        final(constants)@ == old(constants)@,
        optimized_variables(declarations@, res@, *config, old(constants)@),
    decreases declarations, 0nat,
{
    let ghost input = declarations;
    let ghost sc = constants@;
    let n = declarations.len();
    let mut rest = reversed(declarations);
    let mut optimized: Vec<PengBinded<PengPositionedVariableDeclaration>> = Vec::new();
    while rest.len() > 0
        invariant
            constants.wf(),
            n == input@.len(),
            no_passes(*config) ==> same_variables(input@.take(optimized@.len() as int), optimized@),
            constants@ == sc,
            forall|i: int|
                0 <= i < optimized@.len() ==> ((#[trigger] input@[i]) is Mutable) == (optimized@[i] is Mutable)
                    && input@[i].bound().position == optimized@[i].bound().position && input@[i].bound().value.name
                    == optimized@[i].bound().value.name && input@[i].bound().value.type_hint
                    == optimized@[i].bound().value.type_hint && optimized_optional_expression(
                    input@[i].bound().value.value,
                    optimized@[i].bound().value.value,
                    *config,
                    sc,
                ),
            optimized@.len() + rest@.len() == n,
            forall|j: int| 0 <= j < rest@.len() ==> #[trigger] rest@[j] == input@[n - 1 - j],
        decreases rest@.len(),
    {
        let ghost before = optimized@;
        let ghost k = optimized@.len() as int;
        let binded = rest.pop().unwrap();
        proof {
            assert(binded == input@[k]);
            assert(decreases_to!(input => input@[k]));
        }
        let (declaration, immutable) = match binded {
            PengBinded::Mutable(d) => (d, false),
            PengBinded::Immutable(d) => (d, true),
        };
        let value = optimize_optional(declaration.value.value, config, constants);
        let declaration = PengPositioned {
            position: declaration.position,
            value: PengVariableDeclaration {
                name: declaration.value.name,
                type_hint: declaration.value.type_hint,
                value,
            },
        };
        optimized.push(
            if immutable {
                PengBinded::Immutable(declaration)
            } else {
                PengBinded::Mutable(declaration)
            },
        );
        proof {
            assert(input@.take(k + 1).drop_last() =~= input@.take(k));
            assert(optimized@.last() == optimized@[k]);
            if no_passes(*config) {
                assert(same_variable(input@[k], optimized@[k]));
            }
            assert(optimized@.drop_last() =~= before);
        }
    }
    assert(input@.take(n as int) =~= input@);
    optimized
}

#[verifier::loop_isolation(false)]
fn optimize_function_declarations(
    declarations: Vec<PengBinded<PengPositionedFunctionDeclaration>>,
    config: &PengOptimizerConfig,
) -> (res: Vec<PengBinded<PengPositionedFunctionDeclaration>>)
    ensures
        no_passes(*config) ==> same_functions(declarations@, res@),
        res@.len() == declarations@.len(),
        clean_functions(res@, *config),
        optimized_functions(declarations@, res@, *config),
    decreases declarations, 0nat,
{
    let ghost input = declarations;
    let n = declarations.len();
    let mut rest = reversed(declarations);
    let mut optimized: Vec<PengBinded<PengPositionedFunctionDeclaration>> = Vec::new();
    while rest.len() > 0
        invariant
            n == input@.len(),
            no_passes(*config) ==> same_functions(input@.take(optimized@.len() as int), optimized@),
            clean_functions(optimized@, *config),
            forall|i: int|
                0 <= i < optimized@.len() ==> ((#[trigger] input@[i]) is Mutable) == (optimized@[i] is Mutable)
                    && input@[i].bound().position == optimized@[i].bound().position && input@[i].bound().value.name
                    == optimized@[i].bound().value.name && input@[i].bound().value.params
                    == optimized@[i].bound().value.params && input@[i].bound().value.return_type
                    == optimized@[i].bound().value.return_type && optimized_statements(
                    input@[i].bound().value.body@,
                    optimized@[i].bound().value.body@,
                    *config,
                    fresh_scope(),
                ),
            optimized@.len() + rest@.len() == n,
            forall|j: int| 0 <= j < rest@.len() ==> #[trigger] rest@[j] == input@[n - 1 - j],
        decreases rest@.len(),
    {
        let ghost before = optimized@;
        let ghost k = optimized@.len() as int;
        let binded = rest.pop().unwrap();
        proof {
            assert(binded == input@[k]);
            assert(decreases_to!(input => input@[k]));
        }
        let (declaration, immutable) = match binded {
            PengBinded::Mutable(d) => (d, false),
            PengBinded::Immutable(d) => (d, true),
        };
        let body = optimize_function_body(declaration.value.body, config);
        let declaration = PengPositioned {
            position: declaration.position,
            value: PengFunctionDeclaration {
                name: declaration.value.name,
                params: declaration.value.params,
                return_type: declaration.value.return_type,
                body,
            },
        };
        optimized.push(
            if immutable {
                PengBinded::Immutable(declaration)
            } else {
                PengBinded::Mutable(declaration)
            },
        );
        proof {
            assert(input@.take(k + 1).drop_last() =~= input@.take(k));
            assert(optimized@.last() == optimized@[k]);
            if no_passes(*config) {
                assert(same_function(input@[k], optimized@[k]));
            }
            assert(optimized@.drop_last() =~= before);
        }
    }
    assert(input@.take(n as int) =~= input@);
    optimized
}

/// A function body starts a fresh scope: a name outside it never stands for a literal
/// inside, so a global does not replace a parameter of the same name.
fn optimize_function_body(body: Vec<PengPositionedStatement>, config: &PengOptimizerConfig) -> (res: Vec<
    PengPositionedStatement,
>)
    ensures
        no_passes(*config) ==> same_statements(body@, res@),
        clean_statements(res@, *config),
        optimized_statements(body@, res@, *config, fresh_scope()),
    decreases body, 1nat,
{
    let mut constants = PengConstantPropagationScope::new();
    optimize_statements(body, config, &mut constants)
}

#[verifier::loop_isolation(false)]
fn optimize_statements(
    statements: Vec<PengPositionedStatement>,
    config: &PengOptimizerConfig,
    constants: &mut PengConstantPropagationScope,
) -> (res: Vec<PengPositionedStatement>)
    requires
        old(constants).wf(),
    ensures
        no_passes(*config) ==> same_statements(statements@, res@),
        clean_statements(res@, *config),
        final(constants).wf(),
        optimized_statements(statements@, res@, *config, old(constants)@),
    decreases statements, 0nat,
{
    let ghost input = statements;
    let ghost sc = constants@;
    let n = statements.len();
    let mut rest = reversed(statements);
    let mut optimized: Vec<PengPositionedStatement> = Vec::new();
    let mut stopped = false;
    while rest.len() > 0 && !stopped
        invariant
            constants.wf(),
            n == input@.len(),
            optimized@.len() + rest@.len() == n,
            no_passes(*config) ==> same_statements(input@.take(optimized@.len() as int), optimized@),
            clean_each(optimized@, *config),
            constants@ == scope_after(optimized@, *config, sc),
            optimized_run(input@, optimized@, *config, sc),
            !stopped ==> (config.dead_code ==> forall|j: int|
                0 <= j < optimized@.len() ==> !stops_flow(#[trigger] optimized@[j])),
            stopped ==> config.dead_code && optimized@.len() > 0 && stops_flow(optimized@.last()) && forall|j: int|
                0 <= j < optimized@.len() - 1 ==> !stops_flow(#[trigger] optimized@[j]),
            forall|j: int| 0 <= j < rest@.len() ==> #[trigger] rest@[j] == input@[n - rest@.len() + (rest@.len() - 1 - j)],
        decreases rest@.len(),
    {
        let ghost k = n - rest@.len();
        let ghost before = optimized@;
        let statement = rest.pop().unwrap();
        proof {
            assert(statement == input@[k]);
            assert(decreases_to!(input => input@[k]));
        }
        let statement = optimize_statement(statement, config, constants);
        record_statement_effects(&statement, config, constants);
        let stops = if config.dead_code {
            statement_stops_flow(&statement)
        } else {
            false
        };
        optimized.push(statement);
        proof {
            assert(input@.take(k + 1).drop_last() =~= input@.take(k));
            assert(optimized@.drop_last() =~= before);
            assert(optimized@.take(k) =~= before);
            assert forall|j: int| 0 <= j < k implies optimized@.take(j) =~= before.take(j) by {}
            assert forall|j: int| 0 <= j < optimized@.len() implies optimized_statement(
                #[trigger] input@[j],
                optimized@[j],
                *config,
                scope_after(optimized@.take(j), *config, sc),
            ) by {
                if j < k {
                    assert(optimized@.take(j) =~= before.take(j));
                }
            }
        }
        if stops {
            stopped = true;
        }
    }
    let ghost run = optimized@;
    proof {
        if no_passes(*config) {
            assert(input@.take(n as int) =~= input@);
        }
        assert(run_ends(input@, run, *config));
    }
    if config.dead_code {
        let ghost before = optimized@;
        optimized = match remove_unreachable_statements(optimized) {
            Ok(v) => v,
            Err(_) => vstd::pervasive::unreached(),
        };
        proof {
            lemma_reachable_part_whole(before, optimized@);
            lemma_clean_each_forall(before, *config);
            lemma_clean_each_forall(optimized@, *config);
            assert forall|i: int| 0 <= i < optimized@.len() implies clean_statement(
                #[trigger] optimized@[i],
                *config,
            ) by {
                assert(optimized@[i] == before.take(optimized@.len() as int)[i]);
            }
        }
    }
    if config.empty_blocks {
        let ghost before = optimized@;
        optimized = match remove_empty_block_statements(optimized) {
            Ok(v) => v,
            Err(_) => vstd::pervasive::unreached(),
        };
        proof {
            lemma_filter_no_empty_blocks(before);
            if config.dead_code {
                lemma_filter_keeps_flow_stop_last(before);
            }
            lemma_filter_keeps_clean(before, *config);
        }
    }
    proof {
        assert(optimized@ == without_empty_blocks(run, *config));
        assert(optimized_run(input@, run, *config, sc) && run_ends(input@, run, *config));
    }
    optimized
}

/// Optimizes the statements of a nested block, in a frame of its own on a copy of the
/// scope: what the block declares stays in it.
fn optimize_block(
    statements: Vec<PengPositionedStatement>,
    config: &PengOptimizerConfig,
    constants: &PengConstantPropagationScope,
) -> (res: Vec<PengPositionedStatement>)
    requires
        constants.wf(),
    ensures
        no_passes(*config) ==> same_statements(statements@, res@),
        clean_statements(res@, *config),
        optimized_statements(statements@, res@, *config, block_scope(constants@)),
    decreases statements, 1nat,
{
    let mut block_constants = constants.duplicate();
    block_constants.push_frame();
    optimize_statements(statements, config, &mut block_constants)
}

fn optimize_optional_block(
    statements: Option<Vec<PengPositionedStatement>>,
    config: &PengOptimizerConfig,
    constants: &PengConstantPropagationScope,
) -> (res: Option<Vec<PengPositionedStatement>>)
    requires
        constants.wf(),
    ensures
        no_passes(*config) ==> same_optional_statements(statements, res),
        clean_optional(res, *config),
        optimized_optional_block(statements, res, *config, constants@),
    decreases statements, 1nat,
{
    let optimized = match statements {
        Some(statements) => Some(optimize_block(statements, config, constants)),
        None => None,
    };
    proof {
        if optimized is Some && optimized->0@.len() == 0 {
            assert(optimized->0@ =~= Seq::<PengPositionedStatement>::empty());
        }
    }
    if config.empty_blocks {
        match empty_statements_to_none(optimized) {
            Ok(v) => v,
            Err(_) => vstd::pervasive::unreached(),
        }
    } else {
        optimized
    }
}

#[verifier::loop_isolation(false)]
fn optimize_statement(
    statement: PengPositionedStatement,
    config: &PengOptimizerConfig,
    constants: &mut PengConstantPropagationScope,
) -> (res: PengPositionedStatement)
    requires
        old(constants).wf(),
    ensures
        no_passes(*config) ==> same_statement(statement, res),
        final(constants).wf(),
        res.position == statement.position,
        clean_statement(res, *config),
        final(constants)@ == old(constants)@,
        optimized_statement(statement, res, *config, old(constants)@),
    decreases statement, 0nat,
{
    let position = statement.position;
    let value = match statement.value {
        PengStatement::Block(statements) => PengStatement::Block(optimize_block(statements, config, constants)),
        PengStatement::Declaration(declaration) => PengStatement::Declaration(
            optimize_binded_declaration(declaration, config, constants),
        ),
        PengStatement::Return(value) => PengStatement::Return(optimize_optional(value, config, constants)),
        PengStatement::If(st) => {
            let condition = optimize_expression(st.condition, config, constants);
            let then_branch = optimize_block(st.then_branch, config, constants);
            let else_branch = optimize_optional_block(st.else_branch, config, constants);
            PengStatement::If(PengIfStatement { condition, then_branch, else_branch })
        },
        PengStatement::Match(st) => {
            let value = optimize_expression(st.value, config, constants);
            let ghost arms_in = st.arms;
            let n = st.arms.len();
            let mut rest = reversed(st.arms);
            let mut arms: Vec<PengMatchArm> = Vec::new();
            while rest.len() > 0
                invariant
                    constants.wf(),
                    n == arms_in@.len(),
                    arms@.len() + rest@.len() == n,
                    no_passes(*config) ==> same_arms(arms_in@.take(arms@.len() as int), arms@),
                    clean_arms(arms@, *config),
                    constants@ == old(constants)@,
                    forall|j: int|
                        0 <= j < arms@.len() ==> optimized_expression(
                            (#[trigger] arms_in@[j]).pattern,
                            arms@[j].pattern,
                            *config,
                            old(constants)@,
                        ) && optimized_statements(arms_in@[j].body@, arms@[j].body@, *config, block_scope(old(constants)@)),
                    forall|j: int| 0 <= j < rest@.len() ==> #[trigger] rest@[j] == arms_in@[n - 1 - j],
                decreases rest@.len(),
            {
                let ghost k = arms@.len() as int;
                let ghost before = arms@;
                let arm = rest.pop().unwrap();
                proof {
                    assert(arm == arms_in@[k]);
                    assert(decreases_to!(statement => statement.value));
                    assert(decreases_to!(statement.value => statement.value->Match_0));
                    assert(decreases_to!(statement.value->Match_0 => arms_in));
                    assert(decreases_to!(arms_in => arms_in@[k]));
                }
                let pattern = optimize_expression(arm.pattern, config, constants);
                let body = optimize_block(arm.body, config, constants);
                arms.push(PengMatchArm { pattern, body });
                proof {
                    assert(arms_in@.take(k + 1).drop_last() =~= arms_in@.take(k));
                    assert(arms@.drop_last() =~= before);
                }
            }
            assert(arms_in@.take(n as int) =~= arms_in@);
            let elsing = optimize_optional_block(st.elsing, config, constants);
            PengStatement::Match(PengMatchStatement { value, arms, elsing })
        },
        PengStatement::While(st) => {
            let condition = optimize_expression(st.condition, config, constants);
            let body = optimize_block(st.body, config, constants);
            PengStatement::While(PengWhileStatement { condition, body })
        },
        PengStatement::For(st) => {
            let mut for_constants = constants.duplicate();
            for_constants.push_frame();
            let initializer = match st.initializer {
                Some(s) => {
                    let s = optimize_statement(*s, config, &mut for_constants);
                    record_statement_effects(&s, config, &mut for_constants);
                    Some(Box::new(s))
                },
                None => None,
            };
            let condition = optimize_optional(st.condition, config, &mut for_constants);
            let increment = match st.increment {
                Some(s) => Some(Box::new(optimize_statement(*s, config, &mut for_constants))),
                None => None,
            };
            let body = optimize_block(st.body, config, &for_constants);
            PengStatement::For(PengForStatement { initializer, condition, increment, body })
        },
        PengStatement::Loop(statements) => PengStatement::Loop(optimize_block(statements, config, constants)),
        PengStatement::Assign(assignment) => PengStatement::Assign(
            optimize_assignment(assignment, config, constants),
        ),
        PengStatement::Expression(expression) => PengStatement::Expression(
            optimize_expression(expression, config, constants),
        ),
        PengStatement::Break => PengStatement::Break,
        PengStatement::Continue => PengStatement::Continue,
    };
    PengPositioned { position, value }
}

fn optimize_assignment(
    assignment: PengAssignStatement,
    config: &PengOptimizerConfig,
    constants: &mut PengConstantPropagationScope,
) -> (res: PengAssignStatement)
    requires
        old(constants).wf(),
    ensures
        no_passes(*config) ==> same_assignment(assignment, res),
        final(constants).wf(),
        final(constants)@ == old(constants)@,
        optimized_assignment(assignment, res, *config, old(constants)@),
    decreases assignment, 0nat,
{
    match assignment {
        PengAssignStatement::Assign { target, value } => {
            let target = optimize_assignment_target(target, config, constants);
            let value = optimize_expression(value, config, constants);
            PengAssignStatement::Assign { target, value }
        },
        PengAssignStatement::AddAssign { target, value } => {
            let target = optimize_assignment_target(target, config, constants);
            let value = optimize_expression(value, config, constants);
            PengAssignStatement::AddAssign { target, value }
        },
        PengAssignStatement::SubtractAssign { target, value } => {
            let target = optimize_assignment_target(target, config, constants);
            let value = optimize_expression(value, config, constants);
            PengAssignStatement::SubtractAssign { target, value }
        },
        PengAssignStatement::MultiplyAssign { target, value } => {
            let target = optimize_assignment_target(target, config, constants);
            let value = optimize_expression(value, config, constants);
            PengAssignStatement::MultiplyAssign { target, value }
        },
        PengAssignStatement::DivideAssign { target, value } => {
            let target = optimize_assignment_target(target, config, constants);
            let value = optimize_expression(value, config, constants);
            PengAssignStatement::DivideAssign { target, value }
        },
        PengAssignStatement::PowerAssign { target, value } => {
            let target = optimize_assignment_target(target, config, constants);
            let value = optimize_expression(value, config, constants);
            PengAssignStatement::PowerAssign { target, value }
        },
        PengAssignStatement::RemainderAssign { target, value } => {
            let target = optimize_assignment_target(target, config, constants);
            let value = optimize_expression(value, config, constants);
            PengAssignStatement::RemainderAssign { target, value }
        },
    }
}

/// The place an assignment writes to: its root name is never replaced (else `x = 2`
/// could become `10 = 2`), only the expressions inside it are optimized.
fn optimize_assignment_target(
    target: PengPositionedExpression,
    config: &PengOptimizerConfig,
    constants: &mut PengConstantPropagationScope,
) -> (res: PengPositionedExpression)
    requires
        old(constants).wf(),
    ensures
        no_passes(*config) ==> same_expression(target, res),
        final(constants).wf(),
        res.position == target.position,
        target.value is Identifier ==> res == target,
        final(constants)@ == old(constants)@,
        optimized_target(target, res, *config, old(constants)@),
    decreases target, 0nat,
{
    let position = target.position;
    match target.value {
        PengExpression::AttributeAccess(access) => {
            let object = optimize_expression(*access.object, config, constants);
            let ghost o = object;
            let r = PengPositioned {
                position,
                value: PengExpression::AttributeAccess(
                    PengAttributeAccessExpression { object: Box::new(object), name: access.name },
                ),
            };
            proof {
                if no_passes(*config) {
                    assert(same_expression(*access.object, o));
                    assert(r.value->AttributeAccess_0.object == Box::new(o));
                    assert(same_expression(target, r));
                }
            }
            r
        },
        PengExpression::MemberAccess(access) => {
            let object = optimize_expression(*access.object, config, constants);
            PengPositioned {
                position,
                value: PengExpression::MemberAccess(
                    PengMemberAccessExpression { object: Box::new(object), name: access.name },
                ),
            }
        },
        PengExpression::Index(index) => {
            let object = optimize_expression(*index.object, config, constants);
            let index_value = optimize_expression(*index.index, config, constants);
            PengPositioned {
                position,
                value: PengExpression::Index(
                    PengIndexExpression { object: Box::new(object), index: Box::new(index_value) },
                ),
            }
        },
        value => {
            proof {
                lemma_same_expression_refl(target);
            }
            PengPositioned { position, value }
        },
    }
}

fn optimize_expression(
    expression: PengPositionedExpression,
    config: &PengOptimizerConfig,
    constants: &mut PengConstantPropagationScope,
) -> (res: PengPositionedExpression)
    requires
        old(constants).wf(),
    ensures
        no_passes(*config) ==> same_expression(expression, res),
        final(constants).wf(),
        final(constants)@ == old(constants)@,
        optimized_expression(expression, res, *config, old(constants)@),
    decreases expression, 0nat,
{
    let ghost given = expression;
    let position = expression.position;
    let rebuilt = match expression.value {
        PengExpression::Literal(literal) => PengPositioned {
            position,
            value: PengExpression::Literal(optimize_literal(literal, config, constants)),
        },
        PengExpression::Identifier(name) => PengPositioned { position, value: PengExpression::Identifier(name) },
        PengExpression::Type(type_expression) => PengPositioned {
            position,
            value: PengExpression::Type(type_expression),
        },
        PengExpression::Unary { operator, value } => {
            let value = optimize_expression(*value, config, constants);
            PengPositioned { position, value: PengExpression::Unary { operator, value: Box::new(value) } }
        },
        PengExpression::Binary { left, operator, right } => {
            let left = optimize_expression(*left, config, constants);
            let right = optimize_expression(*right, config, constants);
            PengPositioned {
                position,
                value: PengExpression::Binary { left: Box::new(left), operator, right: Box::new(right) },
            }
        },
        PengExpression::FuncCall(call) => {
            let function = optimize_expression(*call.function, config, constants);
            let args = optimize_call_args(call.args, config, constants);
            PengPositioned {
                position,
                value: PengExpression::FuncCall(PengFuncCallExpression { function: Box::new(function), args }),
            }
        },
        PengExpression::MethodCall(call) => {
            let object = optimize_expression(*call.object, config, constants);
            let args = optimize_call_args(call.args, config, constants);
            PengPositioned {
                position,
                value: PengExpression::MethodCall(
                    PengMethodCallExpression { object: Box::new(object), method: call.method, args },
                ),
            }
        },
        PengExpression::AttributeAccess(access) => {
            let object = optimize_expression(*access.object, config, constants);
            PengPositioned {
                position,
                value: PengExpression::AttributeAccess(
                    PengAttributeAccessExpression { object: Box::new(object), name: access.name },
                ),
            }
        },
        PengExpression::MemberAccess(access) => {
            let object = optimize_expression(*access.object, config, constants);
            PengPositioned {
                position,
                value: PengExpression::MemberAccess(
                    PengMemberAccessExpression { object: Box::new(object), name: access.name },
                ),
            }
        },
        PengExpression::Index(index) => {
            let object = optimize_expression(*index.object, config, constants);
            let index_value = optimize_expression(*index.index, config, constants);
            PengPositioned {
                position,
                value: PengExpression::Index(
                    PengIndexExpression { object: Box::new(object), index: Box::new(index_value) },
                ),
            }
        },
        PengExpression::ObjectConstruction(construction) => {
            let object_type = optimize_expression(*construction.object_type, config, constants);
            let fields = optimize_object_fields(construction.fields, config, constants);
            PengPositioned {
                position,
                value: PengExpression::ObjectConstruction(
                    PengObjectConstructionExpression { object_type: Box::new(object_type), fields },
                ),
            }
        },
        PengExpression::OperationCall { left, operation, right } => {
            let left = optimize_expression(*left, config, constants);
            let operation = optimize_expression(*operation, config, constants);
            let right = optimize_expression(*right, config, constants);
            PengPositioned {
                position,
                value: PengExpression::OperationCall {
                    left: Box::new(left),
                    operation: Box::new(operation),
                    right: Box::new(right),
                },
            }
        },
        PengExpression::Try { value, elsing } => {
            let value = optimize_expression(*value, config, constants);
            let ghost elsing_in = elsing;
            let elsing = match elsing {
                Some(e) => Some(Box::new(optimize_expression(*e, config, constants))),
                None => None,
            };
            proof {
                if no_passes(*config) {
                    assert(same_optional_boxed_expression(elsing_in, elsing));
                }
                assert(optimized_boxed_expression(elsing_in, elsing, *config, constants@));
            }
            PengPositioned { position, value: PengExpression::Try { value: Box::new(value), elsing } }
        },
    };
    proof {
        if no_passes(*config) {
            assert(same_expression(given, rebuilt));
        }
        assert(rebuilt_expression(given, rebuilt, *config, constants@));
    }
    let res = apply_expression_passes(rebuilt, config, constants);
    proof {
        lemma_optimized_expression_intro(given, rebuilt, res, *config, constants@);
    }
    res
}

/// Runs the enabled expression passes on an expression whose parts are done.
fn apply_expression_passes(
    expression: PengPositionedExpression,
    config: &PengOptimizerConfig,
    constants: &PengConstantPropagationScope,
) -> (res: PengPositionedExpression)
    requires
        constants.wf(),
    ensures
        no_passes(*config) ==> res == expression,
        passes_give(expression, *config, constants@, res),
{
    let ghost given = expression;
    let mut expression = expression;
    if config.constant_propagation {
        expression = match constants.replace_identifier(expression) {
            Ok(v) => v,
            Err(_) => vstd::pervasive::unreached(),
        };
    }
    if config.boolean_simplification {
        expression = match simplify_expression(expression) {
            Ok(v) => v,
            Err(_) => vstd::pervasive::unreached(),
        };
    }
    if config.constant_folding {
        expression = match fold_expression(expression) {
            Ok(v) => v,
            Err(_) => vstd::pervasive::unreached(),
        };
    }
    let ghost e3 = expression;
    if config.boolean_simplification {
        expression = match simplify_expression(expression) {
            Ok(v) => v,
            Err(_) => vstd::pervasive::unreached(),
        };
    }
    expression
}

#[verifier::loop_isolation(false)]
fn optimize_call_args(
    args: Vec<PengPositionedFunctionCallArg>,
    config: &PengOptimizerConfig,
    constants: &mut PengConstantPropagationScope,
) -> (res: Vec<PengPositionedFunctionCallArg>)
    requires
        old(constants).wf(),
    ensures
        no_passes(*config) ==> same_arguments(args@, res@),
        final(constants).wf(),
        res@.len() == args@.len(),
        final(constants)@ == old(constants)@,
        optimized_arguments(args@, res@, *config, old(constants)@),
    decreases args, 0nat,
{
    let ghost input = args;
    let ghost sc = constants@;
    let n = args.len();
    let mut rest = reversed(args);
    let mut optimized: Vec<PengPositionedFunctionCallArg> = Vec::new();
    while rest.len() > 0
        invariant
            constants.wf(),
            n == input@.len(),
            no_passes(*config) ==> same_arguments(input@.take(optimized@.len() as int), optimized@),
            constants@ == sc,
            forall|j: int| 0 <= j < optimized@.len() ==> (#[trigger] input@[j]).position == optimized@[j].position
                && input@[j].value.variadic == optimized@[j].value.variadic && optimized_expression(
                input@[j].value.expression,
                optimized@[j].value.expression,
                *config,
                sc,
            ),
            optimized@.len() + rest@.len() == n,
            forall|j: int| 0 <= j < rest@.len() ==> #[trigger] rest@[j] == input@[n - 1 - j],
        decreases rest@.len(),
    {
        let ghost before = optimized@;
        let ghost k = optimized@.len() as int;
        let arg = rest.pop().unwrap();
        proof {
            assert(arg == input@[k]);
            assert(decreases_to!(input => input@[k]));
        }
        let expression = optimize_expression(arg.value.expression, config, constants);
        optimized.push(
            PengPositioned {
                position: arg.position,
                value: PengFunctionCallArg { expression, variadic: arg.value.variadic },
            },
        );
        proof {
            assert(input@.take(k + 1).drop_last() =~= input@.take(k));
            assert(optimized@.drop_last() =~= before);
        }
    }
    assert(input@.take(n as int) =~= input@);
    optimized
}

#[verifier::loop_isolation(false)]
fn optimize_object_fields(
    fields: Vec<PengObjectFieldLiteral>,
    config: &PengOptimizerConfig,
    constants: &mut PengConstantPropagationScope,
) -> (res: Vec<PengObjectFieldLiteral>)
    requires
        old(constants).wf(),
    ensures
        no_passes(*config) ==> same_fields(fields@, res@),
        final(constants).wf(),
        res@.len() == fields@.len(),
        final(constants)@ == old(constants)@,
        optimized_fields(fields@, res@, *config, old(constants)@),
    decreases fields, 0nat,
{
    let ghost input = fields;
    let ghost sc = constants@;
    let n = fields.len();
    let mut rest = reversed(fields);
    let mut optimized: Vec<PengObjectFieldLiteral> = Vec::new();
    while rest.len() > 0
        invariant
            constants.wf(),
            n == input@.len(),
            no_passes(*config) ==> same_fields(input@.take(optimized@.len() as int), optimized@),
            constants@ == sc,
            forall|j: int| 0 <= j < optimized@.len() ==> (#[trigger] input@[j]).name == optimized@[j].name
                && optimized_expression(input@[j].value, optimized@[j].value, *config, sc),
            optimized@.len() + rest@.len() == n,
            forall|j: int| 0 <= j < rest@.len() ==> #[trigger] rest@[j] == input@[n - 1 - j],
        decreases rest@.len(),
    {
        let ghost before = optimized@;
        let ghost k = optimized@.len() as int;
        let field = rest.pop().unwrap();
        proof {
            assert(field == input@[k]);
            assert(decreases_to!(input => input@[k]));
        }
        let value = optimize_expression(field.value, config, constants);
        optimized.push(PengObjectFieldLiteral { name: field.name, value });
        proof {
            assert(input@.take(k + 1).drop_last() =~= input@.take(k));
            assert(optimized@.drop_last() =~= before);
        }
    }
    assert(input@.take(n as int) =~= input@);
    optimized
}

#[verifier::loop_isolation(false)]
fn optimize_expressions(
    expressions: Vec<PengPositionedExpression>,
    config: &PengOptimizerConfig,
    constants: &mut PengConstantPropagationScope,
) -> (res: Vec<PengPositionedExpression>)
    requires
        old(constants).wf(),
    ensures
        no_passes(*config) ==> same_expressions(expressions@, res@),
        final(constants).wf(),
        res@.len() == expressions@.len(),
        final(constants)@ == old(constants)@,
        optimized_expressions(expressions@, res@, *config, old(constants)@),
    decreases expressions, 0nat,
{
    let ghost input = expressions;
    let ghost sc = constants@;
    let n = expressions.len();
    let mut rest = reversed(expressions);
    let mut optimized: Vec<PengPositionedExpression> = Vec::new();
    while rest.len() > 0
        invariant
            constants.wf(),
            n == input@.len(),
            no_passes(*config) ==> same_expressions(input@.take(optimized@.len() as int), optimized@),
            constants@ == sc,
            forall|j: int| 0 <= j < optimized@.len() ==> optimized_expression(
                #[trigger] input@[j],
                optimized@[j],
                *config,
                sc,
            ),
            optimized@.len() + rest@.len() == n,
            forall|j: int| 0 <= j < rest@.len() ==> #[trigger] rest@[j] == input@[n - 1 - j],
        decreases rest@.len(),
    {
        let ghost before = optimized@;
        let ghost k = optimized@.len() as int;
        let expression = rest.pop().unwrap();
        proof {
            assert(expression == input@[k]);
            assert(decreases_to!(input => input@[k]));
        }
        optimized.push(optimize_expression(expression, config, constants));
        proof {
            assert(input@.take(k + 1).drop_last() =~= input@.take(k));
            assert(optimized@.drop_last() =~= before);
        }
    }
    assert(input@.take(n as int) =~= input@);
    optimized
}

fn optimize_literal(
    literal: PengPositionedLiteral,
    config: &PengOptimizerConfig,
    constants: &mut PengConstantPropagationScope,
) -> (res: PengPositionedLiteral)
    requires
        old(constants).wf(),
    ensures
        no_passes(*config) ==> same_literal(literal, res),
        final(constants).wf(),
        res.position == literal.position,
        final(constants)@ == old(constants)@,
        optimized_literal(literal, res, *config, old(constants)@),
    decreases literal, 0nat,
{
    let position = literal.position;
    let value = match literal.value {
        PengLiteral::Vector(values) => PengLiteral::Vector(optimize_expressions(values, config, constants)),
        PengLiteral::Object(fields) => PengLiteral::Object(optimize_object_fields(fields, config, constants)),
        PengLiteral::Function(function) => {
            let body = optimize_function_body(function.body, config);
            PengLiteral::Function(
                PengFunctionLiteral { params: function.params, return_type: function.return_type, body },
            )
        },
        PengLiteral::Module(module) => {
            let mut module_constants = PengConstantPropagationScope::new();
            let body = optimize_declarations(module.body, config, &mut module_constants);
            PengLiteral::Module(PengModuleLiteral { body })
        },
        PengLiteral::Operation(operation) => {
            let body = optimize_function_body(operation.body, config);
            PengLiteral::Operation(
                PengOperationLiteral { params: operation.params, return_type: operation.return_type, body },
            )
        },
        PengLiteral::Type(type_literal) => {
            let fields = optimize_variable_declarations(type_literal.fields, config, constants);
            let functions = optimize_function_declarations(type_literal.functions, config);
            PengLiteral::Type(PengTypeLiteral { supers: type_literal.supers, fields, functions })
        },
        other => other,
    };
    PengPositioned { position, value }
}

/// The scope after a declaration is recorded: its name stands, in the innermost frame,
/// for what the declaration makes it stand for.
pub open spec fn declaration_recorded(
    frames: Seq<Map<Seq<char>, PengConstantPropagationEntry>>,
    declaration: PengBindedDeclaration,
) -> Seq<Map<Seq<char>, PengConstantPropagationEntry>> {
    frames.update(
        frames.len() - 1,
        frames.last().insert(declaration_name(declaration.bound()), declaration_entry(declaration)),
    )
}

/// The scope after an assignment is recorded: a plain name assigned to is blocked in every
/// frame; any other target changes nothing.
pub open spec fn assignment_recorded(
    frames: Seq<Map<Seq<char>, PengConstantPropagationEntry>>,
    assignment: PengAssignStatement,
) -> Seq<Map<Seq<char>, PengConstantPropagationEntry>> {
    match assigned_name(assignment) {
        Some(name) => Seq::new(frames.len(), |i: int| frames[i].insert(name, PengConstantPropagationEntry::Blocked)),
        None => frames,
    }
}

/// The scope after the declarations `ds` are recorded one after the other.
pub open spec fn declarations_recorded(
    frames: Seq<Map<Seq<char>, PengConstantPropagationEntry>>,
    ds: Seq<PengBindedDeclaration>,
) -> Seq<Map<Seq<char>, PengConstantPropagationEntry>>
    decreases ds.len(),
{
    if ds.len() == 0 {
        frames
    } else {
        declaration_recorded(declarations_recorded(frames, ds.drop_last()), ds.last())
    }
}

/// Declarations recorded in a frame entered on top of `frames` are forgotten when it is
/// left: every name is replaced afterwards as it was before the frame was entered.
pub proof fn lemma_declarations_forgotten_after_pop(
    frames: Seq<Map<Seq<char>, PengConstantPropagationEntry>>,
    ds: Seq<PengBindedDeclaration>,
    e: PengPositionedExpression,
)
    ensures
        declarations_recorded(frames.push(Map::empty()), ds).len() == frames.len() + 1,
        declarations_recorded(frames.push(Map::empty()), ds).drop_last() == frames,
        replaced(e, declarations_recorded(frames.push(Map::empty()), ds).drop_last()) == replaced(e, frames),
    decreases ds.len(),
{
    if ds.len() > 0 {
        lemma_declarations_forgotten_after_pop(frames, ds.drop_last(), e);
        let before = declarations_recorded(frames.push(Map::empty()), ds.drop_last());
        let after = declarations_recorded(frames.push(Map::empty()), ds);
        assert(after.drop_last() =~= before.drop_last());
    } else {
        assert(frames.push(Map::empty()).drop_last() =~= frames);
    }
}

/// After a declaration is recorded, its name written at `position` becomes the literal it
/// was declared with, when it is an immutable variable or alias set to a propagable
/// literal; otherwise the name stays. An expression that is no name always stays.
pub proof fn lemma_declaration_replaces(
    frames: Seq<Map<Seq<char>, PengConstantPropagationEntry>>,
    d: PengBindedDeclaration,
    e: PengPositionedExpression,
)
    requires
        frames.len() >= 1,
    ensures
        e.value matches PengExpression::Identifier(name) && name.value@ == declaration_name(d.bound()) ==> replaced(
            e,
            declaration_recorded(frames, d),
        ) == match declaration_entry(d) {
            PengConstantPropagationEntry::Value(l) => literal_expression_spec(l, e.position),
            PengConstantPropagationEntry::Blocked => e,
        },
        !(e.value is Identifier) ==> replaced(e, declaration_recorded(frames, d)) == e,
{
    crate::optimizer::constant_propagation::lemma_lookup_after_record(
        frames,
        declaration_name(d.bound()),
        declaration_entry(d),
    );
}

/// After an assignment to a name, the name is replaced by nothing, in the scope and in
/// every scope left from it by leaving frames.
pub proof fn lemma_assignment_blocks(
    frames: Seq<Map<Seq<char>, PengConstantPropagationEntry>>,
    a: PengAssignStatement,
    e: PengPositionedExpression,
    left: nat,
)
    requires
        left <= frames.len(),
    ensures
        e.value matches PengExpression::Identifier(name) && assigned_name(a) == Some(name.value@) ==> replaced(
            e,
            assignment_recorded(frames, a).take(frames.len() - left),
        ) == e,
        assigned_name(a) is None ==> assignment_recorded(frames, a) == frames,
{
    if let PengExpression::Identifier(name) = e.value {
        if assigned_name(a) == Some(name.value@) {
            let blocked = assignment_recorded(frames, a).take(frames.len() - left);
            let sub = frames.take(frames.len() - left);
            assert(blocked =~= Seq::new(
                sub.len(),
                |i: int| sub[i].insert(name.value@, PengConstantPropagationEntry::Blocked),
            ));
            crate::optimizer::constant_propagation::lemma_lookup_after_block(sub, name.value@);
        }
    }
}

/// The scope after a statement is recorded: declarations and assignments are, other
/// statements change nothing.
pub open spec fn statement_recorded(
    frames: Seq<Map<Seq<char>, PengConstantPropagationEntry>>,
    statement: PengPositionedStatement,
) -> Seq<Map<Seq<char>, PengConstantPropagationEntry>> {
    match statement.value {
        PengStatement::Declaration(declaration) => declaration_recorded(frames, declaration),
        PengStatement::Assign(assignment) => assignment_recorded(frames, assignment),
        _ => frames,
    }
}

/// After a statement, the scope learns what it declares or assigns, when constant
/// propagation is on.
fn record_statement_effects(
    statement: &PengPositionedStatement,
    config: &PengOptimizerConfig,
    constants: &mut PengConstantPropagationScope,
)
    requires
        old(constants).wf(),
    ensures
        final(constants).wf(),
        final(constants)@ == if config.constant_propagation {
            statement_recorded(old(constants)@, *statement)
        } else {
            old(constants)@
        },
{
    if !config.constant_propagation {
        return;
    }
    match &statement.value {
        PengStatement::Declaration(declaration) => {
            let _ = constants.record_binded_declaration(declaration);
        },
        PengStatement::Assign(assignment) => {
            let _ = constants.record_assignment(assignment);
        },
        _ => {},
    }
}

fn record_declaration_effects(
    declaration: &PengBindedDeclaration,
    config: &PengOptimizerConfig,
    constants: &mut PengConstantPropagationScope,
)
    requires
        old(constants).wf(),
    ensures
        final(constants).wf(),
        final(constants)@ == if config.constant_propagation {
            declaration_recorded(old(constants)@, *declaration)
        } else {
            old(constants)@
        },
{
    if !config.constant_propagation {
        return;
    }
    let _ = constants.record_binded_declaration(declaration);
}

} // verus!
