use vstd::prelude::*;
use crate::ast::{
    BinaryOperator, EnumVariantDefinition, Expression, LoopKind, MatchArm, Pattern, Program,
    Statement, StringPart,
};
use crate::text::{
    spec_declare, spec_inc, spec_indentation, spec_is_declared, spec_push_scope, Scopes,
};
use crate::lowering::{
    spec_arms_from, spec_binop, spec_body_from, spec_call, spec_expr, spec_exprs_from,
    spec_field_values_from, spec_first_arg, spec_parts_from, spec_pattern_cond,
    spec_pattern_conds_from, spec_program, spec_stmt, spec_stmts_from, spec_variant_line,
};

verus! {

// === Determinism ===

/// Determinism: the lowering is a pure function of the tree and the engine's
/// starting state, so two engines started alike — in particular two fresh
/// ones — produce byte-identical text for the same tree.  `emit_program` is
/// proved to return exactly this function's first component.
pub proof fn lemma_determinism(p: Program, ind1: nat, sc1: Scopes, ind2: nat, sc2: Scopes)
    requires
        ind1 == ind2,
        sc1 == sc2,
    ensures
        spec_program(p, ind1, sc1) == spec_program(p, ind2, sc2),
{
}

// === Scope monotonicity: statements and expressions never unbind a name ===

pub proof fn lemma_declare_keeps(sc: Scopes, n: Seq<char>, m: Seq<char>)
    requires
        spec_is_declared(sc, n),
    ensures
        spec_is_declared(spec_declare(sc, m), n),
{
    let i0 = choose|i: int| 0 <= i < sc.len() && sc[i].contains(n);
    if i0 == sc.len() - 1 {
        let j0 = choose|j: int| 0 <= j < sc[i0].len() && sc[i0][j] == n;
        assert(sc.last().push(m)[j0] == n);
        assert(spec_declare(sc, m)[i0].contains(n));
    } else {
        assert(spec_declare(sc, m)[i0].contains(n));
    }
}

pub proof fn lemma_declare_adds(sc: Scopes, m: Seq<char>)
    requires
        sc.len() > 0,
    ensures
        spec_is_declared(spec_declare(sc, m), m),
{
    let k = sc.len() - 1;
    assert(spec_declare(sc, m)[k] == sc.last().push(m));
    assert(spec_declare(sc, m)[k][sc.last().len() as int] == m);
    assert(spec_declare(sc, m)[k].contains(m));
}

pub proof fn lemma_push_keeps(sc: Scopes, n: Seq<char>)
    requires
        spec_is_declared(sc, n),
    ensures
        spec_is_declared(spec_push_scope(sc), n),
{
    let i0 = choose|i: int| 0 <= i < sc.len() && sc[i].contains(n);
    assert(spec_push_scope(sc)[i0].contains(n));
}

pub proof fn lemma_expr_keeps(e: Expression, ind: nat, sc: Scopes, n: Seq<char>)
    requires
        spec_is_declared(sc, n),
    ensures
        spec_is_declared(spec_expr(e, ind, sc).1, n),
    decreases e, 1nat, 0int,
{
    match e {
        Expression::SomeValue(inner) => {
            lemma_expr_keeps(*inner, ind, sc, n);
        },
        Expression::BinaryOp { left, op: _, right } => {
            lemma_expr_keeps(*left, ind, sc, n);
            lemma_expr_keeps(*right, ind, spec_expr(*left, ind, sc).1, n);
        },
        Expression::FunctionCall { name, args } => {
            lemma_call_keeps(name@, args@, ind, sc, n);
        },
        Expression::MethodCall { object, method, args } => {
            match *object {
                Expression::Identifier(obj_name) => {
                    let q = obj_name@ + "."@ + method@;
                    if q == "io.println"@ {
                        lemma_exprs_keeps(args@, 0, ind, sc, n);
                    } else if q == "io.print"@ {
                        lemma_first_arg_keeps(args@, ind, sc, n);
                    } else if q == "io.read_line"@ {
                    } else if q == "JSON.parse"@ || q == "JSON.stringify"@
                        || q == "document.getElementById"@ || q == "document.createElement"@
                        || q == "document.querySelector"@ || q == "document.querySelectorAll"@ {
                        lemma_first_arg_keeps(args@, ind, sc, n);
                    } else if q == "Math.floor"@ || q == "Math.ceil"@ || q == "Math.round"@
                        || q == "Math.random"@ || q == "Math.min"@ || q == "Math.max"@
                        || q == "Math.abs"@ || q == "Math.sqrt"@ || q == "Math.pow"@ {
                        lemma_exprs_keeps(args@, 0, ind, sc, n);
                    } else {
                        lemma_expr_keeps(*object, ind, sc, n);
                        lemma_exprs_keeps(args@, 0, ind, spec_expr(*object, ind, sc).1, n);
                    }
                },
                _ => {
                    lemma_expr_keeps(*object, ind, sc, n);
                    lemma_exprs_keeps(args@, 0, ind, spec_expr(*object, ind, sc).1, n);
                },
            }
        },
        Expression::MemberAccess { object, member: _ } => {
            lemma_expr_keeps(*object, ind, sc, n);
        },
        Expression::ArrayLiteral(elements) => {
            lemma_exprs_keeps(elements@, 0, ind, sc, n);
        },
        Expression::ArrayIndex { array, index } => {
            lemma_expr_keeps(*array, ind, sc, n);
            lemma_expr_keeps(*index, ind, spec_expr(*array, ind, sc).1, n);
        },
        Expression::StructLiteral { name: _, fields } => {
            lemma_fields_keeps(fields@, 0, ind, sc, n);
        },
        Expression::StringInterpolation { parts } => {
            lemma_parts_keeps(parts@, 0, ind, sc, n);
        },
        Expression::QuestionMatch { scrutinee, arms } => {
            lemma_arms_keeps(arms@, 0, true, spec_inc(ind), sc, n);
            lemma_expr_keeps(
                *scrutinee,
                ind,
                spec_arms_from(arms@, 0, true, spec_inc(ind), sc).1,
                n,
            );
        },
        Expression::Closure { params: _, body } => {
            lemma_expr_keeps(*body, ind, sc, n);
        },
        Expression::Block(stmts) => {
            lemma_body_keeps(stmts@, 0, spec_inc(ind), sc, n);
        },
        Expression::Return(inner) => {
            lemma_expr_keeps(*inner, ind, sc, n);
        },
        Expression::EnumVariant { enum_name: _, variant: _, payload } => {
            match payload {
                Option::Some(p) => {
                    lemma_expr_keeps(*p, ind, sc, n);
                },
                Option::None => {},
            }
        },
        Expression::EnumLiteral { variant: _, payload } => {
            match payload {
                Option::Some(p) => {
                    lemma_expr_keeps(*p, ind, sc, n);
                },
                Option::None => {},
            }
        },
        Expression::Range { start, end, inclusive: _ } => {
            lemma_expr_keeps(*end, ind, sc, n);
            let sc1 = spec_expr(*end, ind, sc).1;
            lemma_expr_keeps(*start, ind, sc1, n);
            let sc2 = spec_expr(*start, ind, sc1).1;
            lemma_expr_keeps(*start, ind, sc2, n);
        },
        Expression::Loop { body } => {
            lemma_expr_keeps(*body, ind, sc, n);
        },
        Expression::CollectionLoop { collection, param: _, index_param: _, body } => {
            lemma_expr_keeps(*collection, ind, sc, n);
            lemma_expr_keeps(*body, ind, spec_expr(*collection, ind, sc).1, n);
        },
        Expression::Raise(inner) => {
            lemma_expr_keeps(*inner, ind, sc, n);
        },
        Expression::Comptime(inner) => {
            lemma_expr_keeps(*inner, ind, sc, n);
        },
        _ => {},
    }
}

pub proof fn lemma_exprs_keeps(es: Seq<Expression>, i: int, ind: nat, sc: Scopes, n: Seq<char>)
    requires
        spec_is_declared(sc, n),
    ensures
        spec_is_declared(spec_exprs_from(es, i, ind, sc).1, n),
    decreases es, 0nat, es.len() - i,
{
    if 0 <= i < es.len() {
        lemma_expr_keeps(es[i], ind, sc, n);
        lemma_exprs_keeps(es, i + 1, ind, spec_expr(es[i], ind, sc).1, n);
    }
}

pub proof fn lemma_first_arg_keeps(es: Seq<Expression>, ind: nat, sc: Scopes, n: Seq<char>)
    requires
        spec_is_declared(sc, n),
    ensures
        spec_is_declared(spec_first_arg(es, ind, sc).1, n),
    decreases es, 1nat, 0int,
{
    if es.len() > 0 {
        lemma_expr_keeps(es[0], ind, sc, n);
    }
}

pub proof fn lemma_call_keeps(nm: Seq<char>, args: Seq<Expression>, ind: nat, sc: Scopes, n: Seq<char>)
    requires
        spec_is_declared(sc, n),
    ensures
        spec_is_declared(spec_call(nm, args, ind, sc).1, n),
    decreases args, 2nat, 0int,
{
    if nm == "io.println"@ || nm == "println"@ {
        lemma_exprs_keeps(args, 0, ind, sc, n);
    } else if nm == "io.print"@ || nm == "print"@ {
        lemma_first_arg_keeps(args, ind, sc, n);
    } else if nm == "cast"@ {
        lemma_first_arg_keeps(args, ind, sc, n);
    } else {
        lemma_exprs_keeps(args, 0, ind, sc, n);
    }
}

pub proof fn lemma_fields_keeps(fields: Seq<(String, Expression)>, i: int, ind: nat, sc: Scopes, n: Seq<char>)
    requires
        spec_is_declared(sc, n),
    ensures
        spec_is_declared(spec_field_values_from(fields, i, ind, sc).1, n),
    decreases fields, 0nat, fields.len() - i,
{
    if 0 <= i < fields.len() {
        lemma_expr_keeps(fields[i].1, ind, sc, n);
        lemma_fields_keeps(fields, i + 1, ind, spec_expr(fields[i].1, ind, sc).1, n);
    }
}

pub proof fn lemma_parts_keeps(parts: Seq<StringPart>, i: int, ind: nat, sc: Scopes, n: Seq<char>)
    requires
        spec_is_declared(sc, n),
    ensures
        spec_is_declared(spec_parts_from(parts, i, ind, sc).1, n),
    decreases parts, 0nat, parts.len() - i,
{
    if 0 <= i < parts.len() {
        match parts[i] {
            StringPart::Literal(_) => {
                lemma_parts_keeps(parts, i + 1, ind, sc, n);
            },
            StringPart::Interpolation(e) => {
                lemma_expr_keeps(e, ind, sc, n);
                lemma_parts_keeps(parts, i + 1, ind, spec_expr(e, ind, sc).1, n);
            },
        }
    }
}

pub proof fn lemma_arms_keeps(arms: Seq<MatchArm>, i: int, first: bool, ind: nat, sc: Scopes, n: Seq<char>)
    requires
        spec_is_declared(sc, n),
    ensures
        spec_is_declared(spec_arms_from(arms, i, first, ind, sc).1, n),
    decreases arms, 0nat, arms.len() - i,
{
    if 0 <= i < arms.len() {
        lemma_pattern_cond_keeps("__match"@, arms[i].pattern, ind, sc, n);
        let sc1 = spec_pattern_cond("__match"@, arms[i].pattern, ind, sc).1;
        let sc2 = match arms[i].guard {
            Option::Some(g) => spec_expr(g, ind, sc1).1,
            Option::None => sc1,
        };
        match arms[i].guard {
            Option::Some(g) => {
                lemma_expr_keeps(g, ind, sc1, n);
            },
            Option::None => {},
        }
        lemma_expr_keeps(arms[i].body, spec_inc(ind), sc2, n);
        let sc3 = spec_expr(arms[i].body, spec_inc(ind), sc2).1;
        lemma_arms_keeps(arms, i + 1, false, ind, sc3, n);
    }
}

pub proof fn lemma_pattern_cond_keeps(var: Seq<char>, p: Pattern, ind: nat, sc: Scopes, n: Seq<char>)
    requires
        spec_is_declared(sc, n),
    ensures
        spec_is_declared(spec_pattern_cond(var, p, ind, sc).1, n),
    decreases p, 1nat, 0int,
{
    match p {
        Pattern::Literal(e) => {
            lemma_expr_keeps(e, ind, sc, n);
        },
        Pattern::Or(patterns) => {
            lemma_pattern_conds_keeps(var, patterns@, 0, ind, sc, n);
        },
        Pattern::Range { start, end, inclusive: _ } => {
            lemma_expr_keeps(start, ind, sc, n);
            lemma_expr_keeps(end, ind, spec_expr(start, ind, sc).1, n);
        },
        _ => {},
    }
}

pub proof fn lemma_pattern_conds_keeps(var: Seq<char>, ps: Seq<Pattern>, i: int, ind: nat, sc: Scopes, n: Seq<char>)
    requires
        spec_is_declared(sc, n),
    ensures
        spec_is_declared(spec_pattern_conds_from(var, ps, i, ind, sc).1, n),
    decreases ps, 0nat, ps.len() - i,
{
    if 0 <= i < ps.len() {
        lemma_pattern_cond_keeps(var, ps[i], ind, sc, n);
        lemma_pattern_conds_keeps(var, ps, i + 1, ind, spec_pattern_cond(var, ps[i], ind, sc).1, n);
    }
}

pub proof fn lemma_stmt_keeps(s: Statement, ind: nat, sc: Scopes, n: Seq<char>)
    requires
        spec_is_declared(sc, n),
    ensures
        spec_is_declared(spec_stmt(s, ind, sc).1, n),
    decreases s, 1nat, 0int,
{
    match s {
        Statement::Expression { expr } => {
            lemma_expr_keeps(expr, ind, sc, n);
        },
        Statement::Return { expr } => {
            lemma_expr_keeps(expr, ind, sc, n);
        },
        Statement::VariableDeclaration { name, initializer, is_mutable: _ } => {
            if spec_is_declared(sc, name@) {
                match initializer {
                    Option::Some(init) => {
                        lemma_expr_keeps(init, ind, sc, n);
                    },
                    Option::None => {},
                }
            } else {
                lemma_declare_keeps(sc, n, name@);
                match initializer {
                    Option::Some(init) => {
                        lemma_expr_keeps(init, ind, spec_declare(sc, name@), n);
                    },
                    Option::None => {},
                }
            }
        },
        Statement::VariableAssignment { name: _, value } => {
            lemma_expr_keeps(value, ind, sc, n);
        },
        Statement::Loop { kind, body } => {
            let sc1 = match kind {
                LoopKind::Infinite => sc,
                LoopKind::Condition(cond) => spec_expr(cond, ind, sc).1,
            };
            match kind {
                LoopKind::Infinite => {},
                LoopKind::Condition(cond) => {
                    lemma_expr_keeps(cond, ind, sc, n);
                },
            }
            lemma_stmts_keeps(body@, 0, spec_inc(ind), sc1, n);
        },
        Statement::Block { statements } => {
            lemma_stmts_keeps(statements@, 0, spec_inc(ind), sc, n);
        },
        Statement::DestructuringImport { names: _, source } => {
            lemma_expr_keeps(source, ind, sc, n);
        },
        Statement::Defer { statement } => {
            lemma_stmt_keeps(*statement, spec_inc(ind), sc, n);
        },
        Statement::PointerAssignment { pointer, value } => {
            lemma_expr_keeps(pointer, ind, sc, n);
            lemma_expr_keeps(value, ind, spec_expr(pointer, ind, sc).1, n);
        },
        _ => {},
    }
}

pub proof fn lemma_stmts_keeps(ss: Seq<Statement>, i: int, ind: nat, sc: Scopes, n: Seq<char>)
    requires
        spec_is_declared(sc, n),
    ensures
        spec_is_declared(spec_stmts_from(ss, i, ind, sc).1, n),
    decreases ss, 0nat, ss.len() - i,
{
    if 0 <= i < ss.len() {
        lemma_stmt_keeps(ss[i], ind, sc, n);
        lemma_stmts_keeps(ss, i + 1, ind, spec_stmt(ss[i], ind, sc).1, n);
    }
}

pub proof fn lemma_body_keeps(ss: Seq<Statement>, i: int, ind: nat, sc: Scopes, n: Seq<char>)
    requires
        spec_is_declared(sc, n),
    ensures
        spec_is_declared(spec_body_from(ss, i, ind, sc).1, n),
    decreases ss, 0nat, ss.len() - i,
{
    if 0 <= i < ss.len() {
        if i == ss.len() - 1 {
            match ss[i] {
                Statement::Expression { expr } => {
                    lemma_expr_keeps(expr, ind, sc, n);
                },
                _ => {
                    lemma_stmt_keeps(ss[i], ind, sc, n);
                },
            }
        } else {
            lemma_stmt_keeps(ss[i], ind, sc, n);
            lemma_body_keeps(ss, i + 1, ind, spec_stmt(ss[i], ind, sc).1, n);
        }
    }
}

// === Re-binding ===

/// N consecutive writes of one mutable name, each as the parser hands them
/// over: a declaration node per write.
pub open spec fn decl_run(name: String, inits: Seq<Expression>) -> Seq<Statement> {
    Seq::new(
        inits.len(),
        |j: int|
            Statement::VariableDeclaration {
                name: name,
                initializer: Option::Some(inits[j]),
                is_mutable: true,
            },
    )
}

/// The plain-assignment lines for the writes from position `i` on.
pub open spec fn spec_assignments(name: String, inits: Seq<Expression>, i: int, ind: nat, sc: Scopes) -> (
    Seq<char>,
    Scopes,
)
    decreases inits.len() - i,
{
    if i < 0 || i >= inits.len() {
        (Seq::<char>::empty(), sc)
    } else {
        let (t, sc1) = spec_expr(inits[i], ind, sc);
        let (rest, sc2) = spec_assignments(name, inits, i + 1, ind, sc1);
        (spec_indentation(ind) + name@ + " = "@ + t + ";\n"@ + rest, sc2)
    }
}

#[verifier::rlimit(100)]
#[verifier::spinoff_prover]
pub proof fn lemma_assignment_run(name: String, inits: Seq<Expression>, i: int, ind: nat, sc: Scopes)
    requires
        spec_is_declared(sc, name@),
    ensures
        spec_stmts_from(decl_run(name, inits), i, ind, sc).0 == spec_assignments(name, inits, i, ind, sc).0,
        spec_stmts_from(decl_run(name, inits), i, ind, sc).1 == spec_assignments(name, inits, i, ind, sc).1,
    decreases inits.len() - i,
{
    if 0 <= i < inits.len() {
        let s0 = decl_run(name, inits)[i];
        assert(s0 == Statement::VariableDeclaration {
            name: name,
            initializer: Option::Some(inits[i]),
            is_mutable: true,
        });
        lemma_expr_keeps(inits[i], ind, sc, name@);
        let t = spec_expr(inits[i], ind, sc).0;
        let sc1 = spec_expr(inits[i], ind, sc).1;
        assert(spec_stmt(s0, ind, sc).0 == spec_indentation(ind) + name@ + " = "@ + t + ";\n"@);
        assert(spec_stmt(s0, ind, sc).1 == sc1);
        lemma_assignment_run(name, inits, i + 1, ind, sc1);
        let rest = spec_assignments(name, inits, i + 1, ind, sc1).0;
        assert(spec_stmts_from(decl_run(name, inits), i, ind, sc).0 == spec_stmt(s0, ind, sc).0
            + rest);
        assert(spec_assignments(name, inits, i, ind, sc).0 == spec_indentation(ind) + name@
            + " = "@ + t + ";\n"@ + rest);
        assert(spec_stmts_from(decl_run(name, inits), i, ind, sc).0 =~= spec_assignments(
            name,
            inits,
            i,
            ind,
            sc,
        ).0);
    }
}

/// Re-binding: a mutable name declared once and then written again N-1 times
/// under the same name produces exactly one binding statement — the first,
/// under the mutable-binding keyword — and a plain assignment for every later
/// write.
#[verifier::rlimit(100)]
pub proof fn lemma_rebinding(name: String, inits: Seq<Expression>, ind: nat, sc: Scopes)
    requires
        sc.len() > 0,
        !spec_is_declared(sc, name@),
        inits.len() >= 1,
    ensures
        spec_stmts_from(decl_run(name, inits), 0, ind, sc).0 == spec_indentation(ind) + "let"@
            + " "@ + name@ + " = "@ + spec_expr(inits[0], ind, spec_declare(sc, name@)).0 + ";\n"@
            + spec_assignments(
            name,
            inits,
            1,
            ind,
            spec_expr(inits[0], ind, spec_declare(sc, name@)).1,
        ).0,
{
    let sc1 = spec_declare(sc, name@);
    lemma_declare_adds(sc, name@);
    lemma_expr_keeps(inits[0], ind, sc1, name@);
    let sc2 = spec_expr(inits[0], ind, sc1).1;
    lemma_assignment_run(name, inits, 1, ind, sc2);
    assert(decl_run(name, inits)[0] == Statement::VariableDeclaration {
        name: name,
        initializer: Option::Some(inits[0]),
        is_mutable: true,
    });
    let run = decl_run(name, inits);
    assert(spec_stmt(run[0], ind, sc).0 =~= spec_indentation(ind) + "let"@ + " "@ + name@ + " = "@
        + spec_expr(inits[0], ind, sc1).0 + ";\n"@);
    assert(spec_stmt(run[0], ind, sc).1 == sc2);
    assert(spec_stmts_from(run, 0, ind, sc).0 == spec_stmt(run[0], ind, sc).0 + spec_stmts_from(
        run,
        1,
        ind,
        sc2,
    ).0);
    assert(spec_stmts_from(run, 1, ind, sc2).0 == spec_assignments(name, inits, 1, ind, sc2).0);
    assert(spec_stmts_from(run, 0, ind, sc).0 =~= spec_indentation(ind) + "let"@ + " "@ + name@
        + " = "@ + spec_expr(inits[0], ind, sc1).0 + ";\n"@ + spec_assignments(
        name,
        inits,
        1,
        ind,
        sc2,
    ).0);
}

// === Scope non-shadowing ===

/// A name declared in an outer scope and "redeclared" inside a freshly pushed
/// inner scope is treated as a reassignment: the emitted statement is the
/// plain-assignment form, with no binding keyword, and the scope stack gains
/// nothing new for it.
pub proof fn lemma_scope_non_shadowing(name: String, init: Expression, is_mutable: bool, ind: nat, sc: Scopes)
    requires
        spec_is_declared(sc, name@),
    ensures
        spec_is_declared(spec_push_scope(sc), name@),
        spec_stmt(
            Statement::VariableDeclaration {
                name: name,
                initializer: Option::Some(init),
                is_mutable: is_mutable,
            },
            ind,
            spec_push_scope(sc),
        ).0 == spec_indentation(ind) + name@ + " = "@ + spec_expr(init, ind, spec_push_scope(sc)).0
            + ";\n"@,
        spec_stmt(
            Statement::VariableDeclaration {
                name: name,
                initializer: Option::Some(init),
                is_mutable: is_mutable,
            },
            ind,
            spec_push_scope(sc),
        ).1 == spec_expr(init, ind, spec_push_scope(sc)).1,
{
    lemma_push_keeps(sc, name@);
}

// === Equality fidelity ===

pub open spec fn bin_left(e: Expression) -> Expression {
    match e {
        Expression::BinaryOp { left, op: _, right: _ } => *left,
        _ => Expression::Other,
    }
}

pub open spec fn bin_right(e: Expression) -> Expression {
    match e {
        Expression::BinaryOp { left: _, op: _, right } => *right,
        _ => Expression::Other,
    }
}

pub open spec fn bin_op(e: Expression) -> BinaryOperator {
    match e {
        Expression::BinaryOp { left: _, op, right: _ } => op,
        _ => BinaryOperator::Add,
    }
}

/// Equality fidelity: the source equality and inequality operators always
/// lower to the target's strict comparison forms, never to its coercing ones,
/// and an equality node's whole lowering embeds exactly that strict symbol.
pub proof fn lemma_equality_fidelity(e: Expression, ind: nat, sc: Scopes)
    requires
        e matches Expression::BinaryOp { .. },
        bin_op(e) == BinaryOperator::Equals || bin_op(e) == BinaryOperator::NotEquals,
    ensures
        spec_binop(BinaryOperator::Equals) == "==="@,
        spec_binop(BinaryOperator::NotEquals) == "!=="@,
        spec_binop(bin_op(e)) != "=="@,
        spec_binop(bin_op(e)) != "!="@,
        spec_expr(e, ind, sc).0 == "("@ + spec_expr(bin_left(e), ind, sc).0 + " "@ + spec_binop(
            bin_op(e),
        ) + " "@ + spec_expr(bin_right(e), ind, spec_expr(bin_left(e), ind, sc).1).0 + ")"@,
{
    reveal_strlit("===");
    reveal_strlit("!==");
    reveal_strlit("==");
    reveal_strlit("!=");
    assert("==="@.len() == 3);
    assert("!=="@.len() == 3);
    assert("=="@.len() == 2);
    assert("!="@.len() == 2);
}

// === Enum round trip ===

pub open spec fn pattern_variant(p: Pattern) -> Seq<char> {
    match p {
        Pattern::EnumLiteral { variant, payload: _ } => variant@,
        Pattern::EnumVariant { enum_name: _, variant } => variant@,
        _ => Seq::<char>::empty(),
    }
}

/// Enum round trip: a payload-less variant lowers to a frozen tag-only
/// marker and a payload-bearing one to a constructor function of a frozen
/// tag+value marker, both carrying the variant's own name as the tag; a
/// pattern naming that variant lowers to an equality test against exactly the
/// same tag, so matching either form recovers the original tag.
pub proof fn lemma_enum_round_trip(v: EnumVariantDefinition, p: Pattern, var: Seq<char>, ind: nat, ind2: nat, sc: Scopes)
    requires
        p matches Pattern::EnumLiteral { .. } || p matches Pattern::EnumVariant { .. },
        pattern_variant(p) == v.name@,
    ensures
        v.payload matches Option::None ==> spec_variant_line(v, ind) == spec_indentation(ind)
            + v.name@ + ": Object.freeze({ tag: \""@ + v.name@ + "\" }),"@ + "\n"@,
        v.payload matches Option::Some(_) ==> spec_variant_line(v, ind) == spec_indentation(ind)
            + v.name@ + ": (value) => Object.freeze({ tag: \""@ + v.name@ + "\", value }),"@
            + "\n"@,
        spec_pattern_cond(var, p, ind2, sc).0 == var + ".tag === \""@ + v.name@ + "\""@,
        spec_pattern_cond(var, p, ind2, sc).1 == sc,
{
}

// === Match fallthrough ===

pub open spec fn match_scrutinee(e: Expression) -> Expression {
    match e {
        Expression::QuestionMatch { scrutinee, arms: _ } => *scrutinee,
        _ => Expression::Other,
    }
}

pub open spec fn match_arms(e: Expression) -> Seq<MatchArm> {
    match e {
        Expression::QuestionMatch { scrutinee: _, arms } => arms@,
        _ => Seq::<MatchArm>::empty(),
    }
}

/// Match fallthrough: the lowering of a match is the if/else-if chain of its
/// arms followed immediately by the closing of the immediately-invoked
/// function and its invocation on the scrutinee — past the last arm the chain
/// contributes nothing, so no terminal branch exists and an unmatched value
/// runs off the end of the function, which then yields the target's
/// "no value".
pub proof fn lemma_match_fallthrough(e: Expression, ind: nat, sc: Scopes)
    requires
        e matches Expression::QuestionMatch { .. },
    ensures
        spec_expr(e, ind, sc).0 == "((__match) => {\n"@ + spec_arms_from(
            match_arms(e),
            0,
            true,
            spec_inc(ind),
            sc,
        ).0 + spec_indentation(spec_inc(ind)) + "}"@ + "\n"@ + spec_indentation(ind) + "})("@
            + spec_expr(
            match_scrutinee(e),
            ind,
            spec_arms_from(match_arms(e), 0, true, spec_inc(ind), sc).1,
        ).0 + ")"@,
        forall|i: int, first: bool, sc2: Scopes|
            i >= match_arms(e).len() ==> #[trigger] spec_arms_from(
                match_arms(e),
                i,
                first,
                spec_inc(ind),
                sc2,
            ).0 == Seq::<char>::empty(),
{
}

} // verus!
