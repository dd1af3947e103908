use vstd::prelude::*;
use crate::ast::{
    AstType, BinaryOperator, Declaration, EnumDefinition, EnumVariantDefinition, Expression,
    Function, ImplBlockDefinition, LoopKind, MatchArm, Pattern, Program, Statement, StringPart,
    StructDefinition, StructField,
};
use crate::text::{
    spec_declare, spec_decimal, spec_escaped, spec_inc, spec_indentation, spec_int_text,
    spec_is_declared, spec_mangled, spec_pop_scope, spec_push_scope, Scopes,
};

verus! {

// === Lowering tables: stateless lookups ===

/// The target operator for every source operator.  Equality and inequality
/// are lowered to the strict, non-coercing comparison forms.
pub open spec fn spec_binop(op: BinaryOperator) -> Seq<char> {
    match op {
        BinaryOperator::Add => "+"@,
        BinaryOperator::Subtract => "-"@,
        BinaryOperator::Multiply => "*"@,
        BinaryOperator::Divide => "/"@,
        BinaryOperator::Modulo => "%"@,
        BinaryOperator::Equals => "==="@,
        BinaryOperator::NotEquals => "!=="@,
        BinaryOperator::LessThan => "<"@,
        BinaryOperator::GreaterThan => ">"@,
        BinaryOperator::LessThanEquals => "<="@,
        BinaryOperator::GreaterThanEquals => ">="@,
        BinaryOperator::And => "&&"@,
        BinaryOperator::Or => "||"@,
        BinaryOperator::BitwiseAnd => "&"@,
        BinaryOperator::BitwiseOr => "|"@,
        BinaryOperator::BitwiseXor => "^"@,
        BinaryOperator::ShiftLeft => "<<"@,
        BinaryOperator::ShiftRight => ">>"@,
        BinaryOperator::StringConcat => "+"@,
    }
}

/// The target's runtime-type name for a primitive type name.
pub open spec fn spec_typeof_name(name: Seq<char>) -> Seq<char> {
    if name == "i8"@ || name == "i16"@ || name == "i32"@ || name == "u8"@ || name == "u16"@
        || name == "u32"@ || name == "f32"@ || name == "f64"@ {
        "number"@
    } else if name == "i64"@ || name == "u64"@ {
        "bigint"@
    } else if name == "bool"@ {
        "boolean"@
    } else if name == "String"@ || name == "string"@ {
        "string"@
    } else {
        "object"@
    }
}

/// The documentation-annotation name of a type.
pub open spec fn spec_jsdoc(t: AstType) -> Seq<char>
    decreases t, 1nat, 0int,
{
    match t {
        AstType::I8 => "number"@,
        AstType::I16 => "number"@,
        AstType::I32 => "number"@,
        AstType::U8 => "number"@,
        AstType::U16 => "number"@,
        AstType::U32 => "number"@,
        AstType::F32 => "number"@,
        AstType::F64 => "number"@,
        AstType::Usize => "number"@,
        AstType::I64 => "bigint"@,
        AstType::U64 => "bigint"@,
        AstType::Bool => "boolean"@,
        AstType::StaticString => "string"@,
        AstType::StaticLiteral => "string"@,
        AstType::Void => "void"@,
        AstType::Slice(inner) => "Array<"@ + spec_jsdoc(*inner) + ">"@,
        AstType::FixedArray { element_type, size } => "Array<"@ + spec_jsdoc(*element_type)
            + "> /* ["@ + spec_decimal(size as nat) + "] */"@,
        AstType::Struct { name } => name@,
        AstType::Generic { name, type_args } => if type_args.len() == 0 {
            name@
        } else {
            name@ + "<"@ + spec_jsdoc_list(type_args@, 0) + ">"@
        },
        AstType::Function { args, return_type } => "function("@ + spec_jsdoc_list(args@, 0)
            + ") : "@ + spec_jsdoc(*return_type),
        AstType::Ref(inner) => spec_jsdoc(*inner),
        AstType::Other => "*"@,
    }
}

pub open spec fn spec_jsdoc_list(ts: Seq<AstType>, i: int) -> Seq<char>
    decreases ts, 0nat, ts.len() - i,
{
    if i < 0 || i >= ts.len() {
        Seq::<char>::empty()
    } else if i == ts.len() - 1 {
        spec_jsdoc(ts[i])
    } else {
        spec_jsdoc(ts[i]) + ", "@ + spec_jsdoc_list(ts, i + 1)
    }
}

// === Small joins over name lists ===

pub open spec fn spec_joined_names(items: Seq<String>, i: int) -> Seq<char>
    decreases items.len() - i,
{
    if i < 0 || i >= items.len() {
        Seq::<char>::empty()
    } else if i == items.len() - 1 {
        items[i]@
    } else {
        items[i]@ + ", "@ + spec_joined_names(items, i + 1)
    }
}

/// All parameter names, in order, comma-separated; types are erased.
pub open spec fn spec_param_names(args: Seq<(String, AstType)>, i: int) -> Seq<char>
    decreases args.len() - i,
{
    if i < 0 || i >= args.len() {
        Seq::<char>::empty()
    } else if i == args.len() - 1 {
        args[i].0@
    } else {
        args[i].0@ + ", "@ + spec_param_names(args, i + 1)
    }
}

/// Parameter names with every `self`-shaped parameter elided.
pub open spec fn spec_param_names_no_self(args: Seq<(String, AstType)>, i: int, first: bool) -> Seq<char>
    decreases args.len() - i,
{
    if i < 0 || i >= args.len() {
        Seq::<char>::empty()
    } else if args[i].0@ == "self"@ {
        spec_param_names_no_self(args, i + 1, first)
    } else if first {
        args[i].0@ + spec_param_names_no_self(args, i + 1, false)
    } else {
        ", "@ + args[i].0@ + spec_param_names_no_self(args, i + 1, false)
    }
}

pub open spec fn spec_field_names(fields: Seq<StructField>, i: int) -> Seq<char>
    decreases fields.len() - i,
{
    if i < 0 || i >= fields.len() {
        Seq::<char>::empty()
    } else if i == fields.len() - 1 {
        fields[i].name@
    } else {
        fields[i].name@ + ", "@ + spec_field_names(fields, i + 1)
    }
}

/// Pre-declares every parameter name into the innermost scope.
pub open spec fn spec_declare_params(sc: Scopes, args: Seq<(String, AstType)>, i: int) -> Scopes
    decreases args.len() - i,
{
    if i < 0 || i >= args.len() {
        sc
    } else {
        spec_declare_params(spec_declare(sc, args[i].0@), args, i + 1)
    }
}

// === Statements ===

/// The text a statement appends at nesting level `ind`, with the scope stack
/// it leaves behind.
pub open spec fn spec_stmt(s: Statement, ind: nat, sc: Scopes) -> (Seq<char>, Scopes)
    decreases s, 1nat, 0int,
{
    match s {
        Statement::Expression { expr } => {
            let (t, sc1) = spec_expr(expr, ind, sc);
            (spec_indentation(ind) + t + ";\n"@, sc1)
        },
        Statement::Return { expr } => {
            let (t, sc1) = spec_expr(expr, ind, sc);
            (spec_indentation(ind) + "return "@ + t + ";\n"@, sc1)
        },
        Statement::VariableDeclaration { name, initializer, is_mutable } => {
            if spec_is_declared(sc, name@) {
                match initializer {
                    Option::Some(init) => {
                        let (t, sc1) = spec_expr(init, ind, sc);
                        (spec_indentation(ind) + name@ + " = "@ + t + ";\n"@, sc1)
                    },
                    Option::None => (spec_indentation(ind), sc),
                }
            } else {
                let sc1 = spec_declare(sc, name@);
                let kw = if is_mutable { "let"@ } else { "const"@ };
                match initializer {
                    Option::Some(init) => {
                        let (t, sc2) = spec_expr(init, ind, sc1);
                        (spec_indentation(ind) + kw + " "@ + name@ + " = "@ + t + ";\n"@, sc2)
                    },
                    Option::None => (spec_indentation(ind) + kw + " "@ + name@ + ";\n"@, sc1),
                }
            }
        },
        Statement::VariableAssignment { name, value } => {
            let (t, sc1) = spec_expr(value, ind, sc);
            (spec_indentation(ind) + name@ + " = "@ + t + ";\n"@, sc1)
        },
        Statement::Loop { kind, body } => {
            let (head, sc1) = match kind {
                LoopKind::Infinite => (spec_indentation(ind) + "while (true) {"@ + "\n"@, sc),
                LoopKind::Condition(cond) => {
                    let (ct, sc1) = spec_expr(cond, ind, sc);
                    (spec_indentation(ind) + "while ("@ + ct + ") {\n"@, sc1)
                },
            };
            let (bt, sc2) = spec_stmts_from(body@, 0, spec_inc(ind), sc1);
            (head + bt + spec_indentation(ind) + "}"@ + "\n"@, sc2)
        },
        Statement::Break => (spec_indentation(ind) + "break;"@ + "\n"@, sc),
        Statement::Continue => (spec_indentation(ind) + "continue;"@ + "\n"@, sc),
        Statement::Block { statements } => {
            let (bt, sc1) = spec_stmts_from(statements@, 0, spec_inc(ind), sc);
            (spec_indentation(ind) + "{"@ + "\n"@ + bt + spec_indentation(ind) + "}"@ + "\n"@, sc1)
        },
        Statement::DestructuringImport { names, source } => {
            let (t, sc1) = spec_expr(source, ind, sc);
            (spec_indentation(ind) + "// { "@ + spec_joined_names(names@, 0) + " } = "@ + t
                + "\n"@, sc1)
        },
        Statement::Defer { statement } => {
            let (t, sc1) = spec_stmt(*statement, spec_inc(ind), sc);
            (spec_indentation(ind) + "// defer {"@ + "\n"@ + t + spec_indentation(ind) + "// }"@
                + "\n"@, sc1)
        },
        Statement::PointerAssignment { pointer, value } => {
            let (pt, sc1) = spec_expr(pointer, ind, sc);
            let (vt, sc2) = spec_expr(value, ind, sc1);
            (spec_indentation(ind) + pt + " = "@ + vt + ";\n"@, sc2)
        },
        Statement::Other => (spec_indentation(ind) + "// [unsupported statement]"@ + "\n"@, sc),
    }
}

pub open spec fn spec_stmts_from(ss: Seq<Statement>, i: int, ind: nat, sc: Scopes) -> (
    Seq<char>,
    Scopes,
)
    decreases ss, 0nat, ss.len() - i,
{
    if i < 0 || i >= ss.len() {
        (Seq::<char>::empty(), sc)
    } else {
        let (t, sc1) = spec_stmt(ss[i], ind, sc);
        let (rest, sc2) = spec_stmts_from(ss, i + 1, ind, sc1);
        (t + rest, sc2)
    }
}

/// A statement list whose final bare expression statement is promoted to an
/// explicit return, so the surrounding callable yields that value.
pub open spec fn spec_body_from(ss: Seq<Statement>, i: int, ind: nat, sc: Scopes) -> (
    Seq<char>,
    Scopes,
)
    decreases ss, 0nat, ss.len() - i,
{
    if i < 0 || i >= ss.len() {
        (Seq::<char>::empty(), sc)
    } else if i == ss.len() - 1 {
        match ss[i] {
            Statement::Expression { expr } => {
                let (t, sc1) = spec_expr(expr, ind, sc);
                (spec_indentation(ind) + "return "@ + t + ";\n"@, sc1)
            },
            _ => spec_stmt(ss[i], ind, sc),
        }
    } else {
        let (t, sc1) = spec_stmt(ss[i], ind, sc);
        let (rest, sc2) = spec_body_from(ss, i + 1, ind, sc1);
        (t + rest, sc2)
    }
}

// === Expressions ===

pub open spec fn spec_expr(e: Expression, ind: nat, sc: Scopes) -> (Seq<char>, Scopes)
    decreases e, 1nat, 0int,
{
    match e {
        Expression::Integer8(v) => (spec_int_text(v as int), sc),
        Expression::Integer16(v) => (spec_int_text(v as int), sc),
        Expression::Integer32(v) => (spec_int_text(v as int), sc),
        Expression::Integer64(v) => (spec_int_text(v as int) + "n"@, sc),
        Expression::Unsigned8(v) => (spec_decimal(v as nat), sc),
        Expression::Unsigned16(v) => (spec_decimal(v as nat), sc),
        Expression::Unsigned32(v) => (spec_decimal(v as nat), sc),
        Expression::Unsigned64(v) => (spec_decimal(v as nat) + "n"@, sc),
        Expression::Float32(t) => (t@, sc),
        Expression::Float64(t) => (t@, sc),
        Expression::Boolean(v) => (if v { "true"@ } else { "false"@ }, sc),
        Expression::StringLiteral(s) => ("\""@ + spec_escaped(s@, '"', 0) + "\""@, sc),
        Expression::Identifier(name) => (spec_mangled(name@, 0), sc),
        Expression::Unit => ("undefined"@, sc),
        Expression::NoneValue => ("null"@, sc),
        Expression::SomeValue(inner) => spec_expr(*inner, ind, sc),
        Expression::BinaryOp { left, op, right } => {
            let (lt, sc1) = spec_expr(*left, ind, sc);
            let (rt, sc2) = spec_expr(*right, ind, sc1);
            ("("@ + lt + " "@ + spec_binop(op) + " "@ + rt + ")"@, sc2)
        },
        Expression::FunctionCall { name, args } => spec_call(name@, args@, ind, sc),
        Expression::MethodCall { object, method, args } => {
            match *object {
                Expression::Identifier(obj_name) => {
                    let q = obj_name@ + "."@ + method@;
                    if q == "io.println"@ {
                        let (at, sc1) = spec_exprs_from(args@, 0, ind, sc);
                        ("console.log("@ + at + ")"@, sc1)
                    } else if q == "io.print"@ {
                        let (at, sc1) = spec_first_arg(args@, ind, sc);
                        ("process.stdout.write(String("@ + at + "))"@, sc1)
                    } else if q == "io.read_line"@ {
                        ("prompt(\"\")"@, sc)
                    } else if q == "JSON.parse"@ || q == "JSON.stringify"@
                        || q == "document.getElementById"@ || q == "document.createElement"@
                        || q == "document.querySelector"@ || q == "document.querySelectorAll"@ {
                        let (at, sc1) = spec_first_arg(args@, ind, sc);
                        (q + "("@ + at + ")"@, sc1)
                    } else if q == "Math.floor"@ || q == "Math.ceil"@ || q == "Math.round"@
                        || q == "Math.random"@ || q == "Math.min"@ || q == "Math.max"@
                        || q == "Math.abs"@ || q == "Math.sqrt"@ || q == "Math.pow"@ {
                        let (at, sc1) = spec_exprs_from(args@, 0, ind, sc);
                        (q + "("@ + at + ")"@, sc1)
                    } else {
                        let (ot, sc1) = spec_expr(*object, ind, sc);
                        let (at, sc2) = spec_exprs_from(args@, 0, ind, sc1);
                        (ot + "."@ + method@ + "("@ + at + ")"@, sc2)
                    }
                },
                _ => {
                    let (ot, sc1) = spec_expr(*object, ind, sc);
                    let (at, sc2) = spec_exprs_from(args@, 0, ind, sc1);
                    (ot + "."@ + method@ + "("@ + at + ")"@, sc2)
                },
            }
        },
        Expression::MemberAccess { object, member } => {
            let (ot, sc1) = spec_expr(*object, ind, sc);
            (ot + "."@ + member@, sc1)
        },
        Expression::ArrayLiteral(elements) => {
            let (at, sc1) = spec_exprs_from(elements@, 0, ind, sc);
            ("["@ + at + "]"@, sc1)
        },
        Expression::ArrayIndex { array, index } => {
            let (at, sc1) = spec_expr(*array, ind, sc);
            let (it, sc2) = spec_expr(*index, ind, sc1);
            (at + "["@ + it + "]"@, sc2)
        },
        Expression::StructLiteral { name, fields } => {
            let (ft, sc1) = spec_field_values_from(fields@, 0, ind, sc);
            ("new "@ + name@ + "("@ + ft + ")"@, sc1)
        },
        Expression::StringInterpolation { parts } => {
            let (pt, sc1) = spec_parts_from(parts@, 0, ind, sc);
            ("`"@ + pt + "`"@, sc1)
        },
        Expression::QuestionMatch { scrutinee, arms } => {
            let (at, sc1) = spec_arms_from(arms@, 0, true, spec_inc(ind), sc);
            let (st, sc2) = spec_expr(*scrutinee, ind, sc1);
            ("((__match) => {\n"@ + at + spec_indentation(spec_inc(ind)) + "}"@ + "\n"@
                + spec_indentation(ind) + "})("@ + st + ")"@, sc2)
        },
        Expression::Closure { params, body } => {
            let (bt, sc1) = spec_expr(*body, ind, sc);
            ("("@ + spec_param_names(params@, 0) + ") => "@ + bt, sc1)
        },
        Expression::Block(stmts) => {
            let (bt, sc1) = spec_body_from(stmts@, 0, spec_inc(ind), sc);
            ("(() => {\n"@ + bt + spec_indentation(ind) + "})()"@, sc1)
        },
        Expression::Return(inner) => {
            let (t, sc1) = spec_expr(*inner, ind, sc);
            ("return "@ + t, sc1)
        },
        Expression::EnumVariant { enum_name, variant, payload } => {
            match payload {
                Option::Some(p) => {
                    let (t, sc1) = spec_expr(*p, ind, sc);
                    (enum_name@ + "."@ + variant@ + "("@ + t + ")"@, sc1)
                },
                Option::None => (enum_name@ + "."@ + variant@, sc),
            }
        },
        Expression::EnumLiteral { variant, payload } => {
            match payload {
                Option::Some(p) => {
                    let (t, sc1) = spec_expr(*p, ind, sc);
                    ("{ tag: \""@ + variant@ + "\", value: "@ + t + " }"@, sc1)
                },
                Option::None => ("{ tag: \""@ + variant@ + "\" }"@, sc),
            }
        },
        Expression::Range { start, end, inclusive } => {
            let (et, sc1) = spec_expr(*end, ind, sc);
            let (st1, sc2) = spec_expr(*start, ind, sc1);
            let (st2, sc3) = spec_expr(*start, ind, sc2);
            ("Array.from({ length: "@ + et + " - "@ + st1 + (if inclusive {
                " + 1"@
            } else {
                Seq::<char>::empty()
            }) + " }, (_, i) => "@ + st2 + " + i)"@, sc3)
        },
        Expression::Loop { body } => {
            let (bt, sc1) = spec_expr(*body, ind, sc);
            ("(() => { while (true) { "@ + bt + " } })()"@, sc1)
        },
        Expression::CollectionLoop { collection, param, index_param, body } => {
            let (ct, sc1) = spec_expr(*collection, ind, sc);
            let head = match index_param {
                Option::Some(ip) => ".forEach(("@ + param.0@ + ", "@ + ip.0@ + ") => "@,
                Option::None => ".forEach(("@ + param.0@ + ") => "@,
            };
            let (bt, sc2) = spec_expr(*body, ind, sc1);
            (ct + head + bt + ")"@, sc2)
        },
        Expression::Break => ("break"@, sc),
        Expression::Continue => ("continue"@, sc),
        Expression::Raise(inner) => {
            let (t, sc1) = spec_expr(*inner, ind, sc);
            ("throw "@ + t, sc1)
        },
        Expression::Comptime(inner) => {
            let (t, sc1) = spec_expr(*inner, ind, sc);
            ("/* comptime */ "@ + t, sc1)
        },
        Expression::StdReference => ("globalThis.__std"@, sc),
        Expression::ThisReference => ("this"@, sc),
        Expression::Other => ("/* unsupported expression */"@, sc),
    }
}

pub open spec fn spec_exprs_from(es: Seq<Expression>, i: int, ind: nat, sc: Scopes) -> (
    Seq<char>,
    Scopes,
)
    decreases es, 0nat, es.len() - i,
{
    if i < 0 || i >= es.len() {
        (Seq::<char>::empty(), sc)
    } else {
        let (t, sc1) = spec_expr(es[i], ind, sc);
        let (rest, sc2) = spec_exprs_from(es, i + 1, ind, sc1);
        if i == es.len() - 1 {
            (t, sc1)
        } else {
            (t + ", "@ + rest, sc2)
        }
    }
}

/// The first argument alone, where a rewritten call forwards only it.
pub open spec fn spec_first_arg(es: Seq<Expression>, ind: nat, sc: Scopes) -> (Seq<char>, Scopes)
    decreases es, 1nat, 0int,
{
    if es.len() > 0 {
        spec_expr(es[0], ind, sc)
    } else {
        (Seq::<char>::empty(), sc)
    }
}

/// A qualified standard-library call is rewritten to the target runtime's
/// native equivalent; a `cast` pseudo-call is erased; anything else becomes an
/// ordinary call under a flattened name.
pub open spec fn spec_call(name: Seq<char>, args: Seq<Expression>, ind: nat, sc: Scopes) -> (
    Seq<char>,
    Scopes,
)
    decreases args, 2nat, 0int,
{
    if name == "io.println"@ || name == "println"@ {
        let (at, sc1) = spec_exprs_from(args, 0, ind, sc);
        ("console.log("@ + at + ")"@, sc1)
    } else if name == "io.print"@ || name == "print"@ {
        let (at, sc1) = spec_first_arg(args, ind, sc);
        ("process.stdout.write("@ + at + ")"@, sc1)
    } else if name == "cast"@ {
        spec_first_arg(args, ind, sc)
    } else {
        let (at, sc1) = spec_exprs_from(args, 0, ind, sc);
        (spec_mangled(name, 0) + "("@ + at + ")"@, sc1)
    }
}

pub open spec fn spec_field_values_from(fields: Seq<(String, Expression)>, i: int, ind: nat, sc: Scopes) -> (
    Seq<char>,
    Scopes,
)
    decreases fields, 0nat, fields.len() - i,
{
    if i < 0 || i >= fields.len() {
        (Seq::<char>::empty(), sc)
    } else {
        let (t, sc1) = spec_expr(fields[i].1, ind, sc);
        let (rest, sc2) = spec_field_values_from(fields, i + 1, ind, sc1);
        if i == fields.len() - 1 {
            (t, sc1)
        } else {
            (t + ", "@ + rest, sc2)
        }
    }
}

pub open spec fn spec_parts_from(parts: Seq<StringPart>, i: int, ind: nat, sc: Scopes) -> (
    Seq<char>,
    Scopes,
)
    decreases parts, 0nat, parts.len() - i,
{
    if i < 0 || i >= parts.len() {
        (Seq::<char>::empty(), sc)
    } else {
        let (t, sc1) = match parts[i] {
            StringPart::Literal(s) => (spec_escaped(s@, '`', 0), sc),
            StringPart::Interpolation(e) => {
                let (et, sc1) = spec_expr(e, ind, sc);
                ("${"@ + et + "}"@, sc1)
            },
        };
        let (rest, sc2) = spec_parts_from(parts, i + 1, ind, sc1);
        (t + rest, sc2)
    }
}

// === Pattern-match lowering ===

/// The condition under which `var` matches the pattern, as one target
/// expression.
pub open spec fn spec_pattern_cond(var: Seq<char>, p: Pattern, ind: nat, sc: Scopes) -> (
    Seq<char>,
    Scopes,
)
    decreases p, 1nat, 0int,
{
    match p {
        Pattern::Wildcard => ("true"@, sc),
        Pattern::Literal(e) => {
            let (t, sc1) = spec_expr(e, ind, sc);
            (var + " === "@ + t, sc1)
        },
        Pattern::Identifier(_) => ("true"@, sc),
        Pattern::EnumLiteral { variant, payload: _ } => (
            var + ".tag === \""@ + variant@ + "\""@,
            sc,
        ),
        Pattern::EnumVariant { enum_name: _, variant } => (
            var + ".tag === \""@ + variant@ + "\""@,
            sc,
        ),
        Pattern::Type { ty_name } => {
            if ty_name@ == "true"@ {
                (var + " === true"@, sc)
            } else if ty_name@ == "false"@ {
                (var + " === false"@, sc)
            } else {
                ("typeof "@ + var + " === \""@ + spec_typeof_name(ty_name@) + "\""@, sc)
            }
        },
        Pattern::Or(patterns) => {
            let (t, sc1) = spec_pattern_conds_from(var, patterns@, 0, ind, sc);
            ("("@ + t + ")"@, sc1)
        },
        Pattern::Range { start, end, inclusive } => {
            let (st, sc1) = spec_expr(start, ind, sc);
            let (et, sc2) = spec_expr(end, ind, sc1);
            ("("@ + var + " >= "@ + st + (if inclusive {
                " && "@ + var + " <= "@
            } else {
                " && "@ + var + " < "@
            }) + et + ")"@, sc2)
        },
        Pattern::Other => ("true /* unsupported pattern */"@, sc),
    }
}

pub open spec fn spec_pattern_conds_from(var: Seq<char>, ps: Seq<Pattern>, i: int, ind: nat, sc: Scopes) -> (
    Seq<char>,
    Scopes,
)
    decreases ps, 0nat, ps.len() - i,
{
    if i < 0 || i >= ps.len() {
        (Seq::<char>::empty(), sc)
    } else {
        let (t, sc1) = spec_pattern_cond(var, ps[i], ind, sc);
        let (rest, sc2) = spec_pattern_conds_from(var, ps, i + 1, ind, sc1);
        if i == ps.len() - 1 {
            (t, sc1)
        } else {
            (t + " || "@ + rest, sc2)
        }
    }
}

/// The alias bindings a pattern emits at the top of a matching branch.
pub open spec fn spec_pattern_bindings(var: Seq<char>, p: Pattern, ind: nat) -> Seq<char>
    decreases p,
{
    match p {
        Pattern::Identifier(name) => spec_indentation(ind) + "const "@ + name@ + " = "@ + var
            + ";"@ + "\n"@,
        Pattern::EnumLiteral { variant: _, payload } => match payload {
            Option::Some(inner) => spec_pattern_bindings(var + ".value"@, *inner, ind),
            Option::None => Seq::<char>::empty(),
        },
        _ => Seq::<char>::empty(),
    }
}

/// One branch of the if/else-if chain per arm, top to bottom; no terminal
/// `else` branch follows the last arm.
pub open spec fn spec_arms_from(arms: Seq<MatchArm>, i: int, first: bool, ind: nat, sc: Scopes) -> (
    Seq<char>,
    Scopes,
)
    decreases arms, 0nat, arms.len() - i,
{
    if i < 0 || i >= arms.len() {
        (Seq::<char>::empty(), sc)
    } else {
        let head = spec_indentation(ind) + (if first {
            "if ("@
        } else {
            "} else if ("@
        });
        let (ct, sc1) = spec_pattern_cond("__match"@, arms[i].pattern, ind, sc);
        let (gt, sc2) = match arms[i].guard {
            Option::Some(g) => {
                let (t, sc2) = spec_expr(g, ind, sc1);
                (" && ("@ + t + ")"@, sc2)
            },
            Option::None => (Seq::<char>::empty(), sc1),
        };
        let bindings = spec_pattern_bindings("__match"@, arms[i].pattern, spec_inc(ind));
        let (bt, sc3) = spec_expr(arms[i].body, spec_inc(ind), sc2);
        let (rest, sc4) = spec_arms_from(arms, i + 1, false, ind, sc3);
        (head + ct + gt + ") {\n"@ + bindings + spec_indentation(spec_inc(ind)) + "return "@ + bt
            + ";\n"@ + rest, sc4)
    }
}

// === Declarations ===

/// The documentation block, header, re-scoped body and closing of a function.
pub open spec fn spec_function(f: Function, ind: nat, sc: Scopes) -> (Seq<char>, Scopes) {
    let doc = if f.args.len() > 0 || f.return_type != AstType::Void {
        spec_indentation(ind) + "/**\n"@ + spec_jsdoc_params_from(f.args@, 0, ind) + (
        if f.return_type != AstType::Void {
            spec_indentation(ind) + " * @returns {"@ + spec_jsdoc(f.return_type) + "}\n"@
        } else {
            Seq::<char>::empty()
        }) + spec_indentation(ind) + " */\n"@
    } else {
        Seq::<char>::empty()
    };
    let head = spec_indentation(ind) + "function "@ + spec_mangled(f.name@, 0) + "("@
        + spec_param_names(f.args@, 0) + ") {\n"@;
    let sc1 = spec_declare_params(spec_push_scope(sc), f.args@, 0);
    let (bt, sc2) = spec_body_from(f.body@, 0, spec_inc(ind), sc1);
    let sc3 = spec_pop_scope(sc2);
    (doc + head + bt + spec_indentation(ind) + "}"@ + "\n"@, sc3)
}

pub open spec fn spec_jsdoc_params_from(args: Seq<(String, AstType)>, i: int, ind: nat) -> Seq<char>
    decreases args.len() - i,
{
    if i < 0 || i >= args.len() {
        Seq::<char>::empty()
    } else {
        spec_indentation(ind) + " * @param {"@ + spec_jsdoc(args[i].1) + "} "@ + args[i].0@
            + "\n"@ + spec_jsdoc_params_from(args, i + 1, ind)
    }
}

/// A struct becomes a constructor-bearing record type: the constructor takes
/// the field names in declaration order, and each method becomes an instance
/// operation with `self`-shaped parameters elided.
pub open spec fn spec_struct(s: StructDefinition, ind: nat, sc: Scopes) -> (Seq<char>, Scopes) {
    let i1 = spec_inc(ind);
    let head = spec_indentation(ind) + "class "@ + s.name@ + " {"@ + "\n"@ + spec_indentation(i1)
        + "constructor("@ + spec_field_names(s.fields@, 0) + ") {\n"@;
    let (ft, sc1) = spec_ctor_fields_from(s.fields@, 0, spec_inc(i1), sc);
    let ctor_tail = spec_indentation(i1) + "}"@ + "\n"@;
    let (mt, sc2) = spec_struct_methods_from(s.methods@, 0, i1, sc1);
    (head + ft + ctor_tail + mt + spec_indentation(ind) + "}"@ + "\n"@, sc2)
}

/// One field assignment per field, a null-coalescing fallback where the field
/// declares a default value.
pub open spec fn spec_ctor_fields_from(fields: Seq<StructField>, i: int, ind: nat, sc: Scopes) -> (
    Seq<char>,
    Scopes,
)
    decreases fields.len() - i,
{
    if i < 0 || i >= fields.len() {
        (Seq::<char>::empty(), sc)
    } else {
        let (t, sc1) = match fields[i].default_value {
            Option::Some(d) => {
                let (dt, sc1) = spec_expr(d, ind, sc);
                (spec_indentation(ind) + "this."@ + fields[i].name@ + " = "@ + fields[i].name@
                    + " ?? "@ + dt + ";\n"@, sc1)
            },
            Option::None => (spec_indentation(ind) + "this."@ + fields[i].name@ + " = "@
                + fields[i].name@ + ";"@ + "\n"@, sc),
        };
        let (rest, sc2) = spec_ctor_fields_from(fields, i + 1, ind, sc1);
        (t + rest, sc2)
    }
}

pub open spec fn spec_struct_methods_from(methods: Seq<Function>, i: int, ind: nat, sc: Scopes) -> (
    Seq<char>,
    Scopes,
)
    decreases methods.len() - i,
{
    if i < 0 || i >= methods.len() {
        (Seq::<char>::empty(), sc)
    } else {
        let head = "\n"@ + spec_indentation(ind) + methods[i].name@ + "("@
            + spec_param_names_no_self(methods[i].args@, 0, true) + ") {\n"@;
        let (bt, sc1) = spec_stmts_from(methods[i].body@, 0, spec_inc(ind), sc);
        let (rest, sc2) = spec_struct_methods_from(methods, i + 1, ind, sc1);
        (head + bt + spec_indentation(ind) + "}"@ + "\n"@ + rest, sc2)
    }
}

/// An enum becomes a frozen record: a tag-only frozen marker per payload-less
/// variant, a one-argument constructor of a frozen tag+value marker per
/// payload-bearing variant; its methods become free functions.
pub open spec fn spec_enum(e: EnumDefinition, ind: nat, sc: Scopes) -> (Seq<char>, Scopes) {
    let head = spec_indentation(ind) + "// enum "@ + e.name@ + "\n"@ + spec_indentation(ind)
        + "const "@ + e.name@ + " = Object.freeze({"@ + "\n"@;
    let vt = spec_variants_from(e.variants@, 0, spec_inc(ind));
    let table_tail = spec_indentation(ind) + "});"@ + "\n"@;
    let (mt, sc1) = spec_enum_methods_from(e.methods@, 0, e.name@, ind, sc);
    (head + vt + table_tail + mt, sc1)
}

/// The frozen-table line of one variant.
pub open spec fn spec_variant_line(v: EnumVariantDefinition, ind: nat) -> Seq<char> {
    match v.payload {
        Option::None => spec_indentation(ind) + v.name@ + ": Object.freeze({ tag: \""@ + v.name@
            + "\" }),"@ + "\n"@,
        Option::Some(_) => spec_indentation(ind) + v.name@ + ": (value) => Object.freeze({ tag: \""@
            + v.name@ + "\", value }),"@ + "\n"@,
    }
}

pub open spec fn spec_variants_from(vs: Seq<EnumVariantDefinition>, i: int, ind: nat) -> Seq<char>
    decreases vs.len() - i,
{
    if i < 0 || i >= vs.len() {
        Seq::<char>::empty()
    } else {
        spec_variant_line(vs[i], ind) + spec_variants_from(vs, i + 1, ind)
    }
}

pub open spec fn spec_enum_methods_from(methods: Seq<Function>, i: int, enum_name: Seq<char>, ind: nat, sc: Scopes) -> (
    Seq<char>,
    Scopes,
)
    decreases methods.len() - i,
{
    if i < 0 || i >= methods.len() {
        (Seq::<char>::empty(), sc)
    } else {
        let head = "\n"@ + spec_indentation(ind) + "function "@ + enum_name + "__"@
            + methods[i].name@ + "("@ + spec_param_names(methods[i].args@, 0) + ") {\n"@;
        let (bt, sc1) = spec_stmts_from(methods[i].body@, 0, spec_inc(ind), sc);
        let (rest, sc2) = spec_enum_methods_from(methods, i + 1, enum_name, ind, sc1);
        (head + bt + spec_indentation(ind) + "}"@ + "\n"@ + rest, sc2)
    }
}

/// Every method of an impl block is attached to the named type's shared
/// method table, with `self`-shaped parameters elided.
pub open spec fn spec_impl(imp: ImplBlockDefinition, ind: nat, sc: Scopes) -> (Seq<char>, Scopes) {
    let head = spec_indentation(ind) + "// impl "@ + imp.ty_name@ + " {"@ + "\n"@;
    let (mt, sc1) = spec_impl_methods_from(imp.methods@, 0, imp.ty_name@, ind, sc);
    (head + mt + spec_indentation(ind) + "// }"@ + "\n"@, sc1)
}

pub open spec fn spec_impl_methods_from(methods: Seq<Function>, i: int, ty: Seq<char>, ind: nat, sc: Scopes) -> (
    Seq<char>,
    Scopes,
)
    decreases methods.len() - i,
{
    if i < 0 || i >= methods.len() {
        (Seq::<char>::empty(), sc)
    } else {
        let head = spec_indentation(ind) + ty + ".prototype."@ + methods[i].name@ + " = function("@
            + spec_param_names_no_self(methods[i].args@, 0, true) + ") {"@ + "\n"@;
        let (bt, sc1) = spec_stmts_from(methods[i].body@, 0, spec_inc(ind), sc);
        let (rest, sc2) = spec_impl_methods_from(methods, i + 1, ty, ind, sc1);
        (head + bt + spec_indentation(ind) + "};"@ + "\n"@ + "\n"@ + rest, sc2)
    }
}

pub open spec fn spec_decl(d: Declaration, ind: nat, sc: Scopes) -> (Seq<char>, Scopes) {
    match d {
        Declaration::Function(f) => spec_function(f, ind, sc),
        Declaration::Struct(s) => spec_struct(s, ind, sc),
        Declaration::Enum(e) => spec_enum(e, ind, sc),
        Declaration::Constant { name, value } => {
            let (t, sc1) = spec_expr(value, ind, sc);
            (spec_indentation(ind) + "const "@ + name@ + " = "@ + t + ";\n"@, sc1)
        },
        Declaration::TypeAlias(ta) => (spec_indentation(ind) + "/** @typedef {"@
            + spec_jsdoc(ta.target_type) + "} "@ + ta.name@ + " */"@ + "\n"@, sc),
        Declaration::ImplBlock(imp) => spec_impl(imp, ind, sc),
        Declaration::Export { symbols } => (spec_indentation(ind) + "export { "@
            + spec_joined_names(symbols@, 0) + " };"@ + "\n"@, sc),
        Declaration::ModuleImport { alias: _, origin: _ } => (Seq::<char>::empty(), sc),
        Declaration::ComptimeBlock(_) => (spec_indentation(ind) + "// [comptime block elided]"@
            + "\n"@, sc),
        Declaration::Other => (spec_indentation(ind) + "// [unsupported declaration]"@ + "\n"@, sc),
    }
}

pub open spec fn spec_decls_from(ds: Seq<Declaration>, i: int, ind: nat, sc: Scopes) -> (
    Seq<char>,
    Scopes,
)
    decreases ds.len() - i,
{
    if i < 0 || i >= ds.len() {
        (Seq::<char>::empty(), sc)
    } else {
        let (t, sc1) = spec_decl(ds[i], ind, sc);
        let (rest, sc2) = spec_decls_from(ds, i + 1, ind, sc1);
        (t + "\n"@ + rest, sc2)
    }
}

/// The informational comment surfaced once per module import.
pub open spec fn spec_imports_from(ds: Seq<Declaration>, i: int, ind: nat) -> Seq<char>
    decreases ds.len() - i,
{
    if i < 0 || i >= ds.len() {
        Seq::<char>::empty()
    } else {
        (match ds[i] {
            Declaration::ModuleImport { alias, origin } => spec_indentation(ind) + "// import "@
                + alias@ + " from \""@ + origin@ + "\";"@ + "\n"@,
            _ => Seq::<char>::empty(),
        }) + spec_imports_from(ds, i + 1, ind)
    }
}

/// Whether a declaration is a function named `main`.
pub open spec fn spec_is_main(d: Declaration) -> bool {
    d matches Declaration::Function(f) && f.name@ == "main"@
}

/// Whether a function named `main` is declared at the top level.
pub open spec fn spec_has_main(ds: Seq<Declaration>) -> bool {
    exists|i: int| 0 <= i < ds.len() && #[trigger] spec_is_main(ds[i])
}

/// The whole program: import comments, then all declarations, then top-level
/// statements, then a trailing invocation of `main` where one is declared.
/// The result is a pure function of the program and the starting state, so
/// one program always lowers to one text.
pub open spec fn spec_program(p: Program, ind: nat, sc: Scopes) -> (Seq<char>, Scopes) {
    let imports = spec_imports_from(p.declarations@, 0, ind);
    let (dt, sc1) = spec_decls_from(p.declarations@, 0, ind, sc);
    let (st, sc2) = spec_stmts_from(p.statements@, 0, ind, sc1);
    let tail = if spec_has_main(p.declarations@) {
        "\n"@ + spec_indentation(ind) + "// Entry point"@ + "\n"@ + spec_indentation(ind)
            + "main();"@ + "\n"@
    } else {
        Seq::<char>::empty()
    };
    (imports + dt + st + tail, sc2)
}

} // verus!
