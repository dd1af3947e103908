use zen_js::ast::{
    AstType, BinaryOperator, Declaration, EnumDefinition, EnumVariantDefinition, Expression,
    Function, ImplBlockDefinition, LoopKind, MatchArm, Pattern, Program, Statement, StringPart,
    StructDefinition, StructField, TypeAliasDefinition,
};
use zen_js::emitter::JsEmitter;

fn transpile_program(p: &Program) -> String {
    let mut emitter = JsEmitter::new();
    emitter.emit_program(p)
}

fn ident(name: &str) -> Expression {
    Expression::Identifier(name.to_string())
}

fn int32(v: i32) -> Expression {
    Expression::Integer32(v)
}

fn string_lit(s: &str) -> Expression {
    Expression::StringLiteral(s.to_string())
}

fn expr_stmt(e: Expression) -> Statement {
    Statement::Expression { expr: e }
}

fn program(declarations: Vec<Declaration>, statements: Vec<Statement>) -> Program {
    Program { declarations, statements }
}

fn binop(l: Expression, op: BinaryOperator, r: Expression) -> Expression {
    Expression::BinaryOp { left: Box::new(l), op, right: Box::new(r) }
}

fn var_decl(name: &str, init: Expression, mutable: bool) -> Statement {
    Statement::VariableDeclaration {
        name: name.to_string(),
        initializer: Some(init),
        is_mutable: mutable,
    }
}

fn question_match(scrutinee: Expression, arms: Vec<MatchArm>) -> Expression {
    Expression::QuestionMatch { scrutinee: Box::new(scrutinee), arms }
}

fn arm(pattern: Pattern, body: Expression) -> MatchArm {
    MatchArm { pattern, guard: None, body }
}

fn hello_world_program() -> Program {
    program(
        vec![Declaration::Function(Function {
            name: "main".to_string(),
            args: vec![],
            return_type: AstType::I32,
            body: vec![
                expr_stmt(Expression::MethodCall {
                    object: Box::new(ident("io")),
                    method: "println".to_string(),
                    args: vec![string_lit("Hello, world!")],
                }),
                Statement::Return { expr: int32(0) },
            ],
        })],
        vec![],
    )
}

#[test]
fn test_determinism_two_runs() {
    let p = hello_world_program();
    let first = transpile_program(&p);
    let second = transpile_program(&p);
    assert_eq!(first, second, "the same tree must yield byte-identical output");
}

#[test]
fn test_hello_world_exact_output() {
    let p = hello_world_program();
    let js = transpile_program(&p);
    let expected = "/**\n * @returns {number}\n */\nfunction main() {\n  console.log(\"Hello, world!\");\n  return 0;\n}\n\n\n// Entry point\nmain();\n";
    assert_eq!(js, expected);
}

#[test]
fn test_rebinding_three_writes() {
    let p = program(
        vec![],
        vec![
            var_decl("count", int32(0), true),
            var_decl("count", int32(1), true),
            var_decl("count", int32(2), true),
        ],
    );
    let js = transpile_program(&p);
    assert_eq!(js.matches("let count = ").count(), 1);
    assert_eq!(js.matches("count = ").count(), 3);
    assert_eq!(js, "let count = 0;\ncount = 1;\ncount = 2;\n");
}

#[test]
fn test_scope_non_shadowing_inner_block() {
    let p = program(
        vec![],
        vec![
            var_decl("x", int32(1), true),
            Statement::Block { statements: vec![var_decl("x", int32(2), true)] },
        ],
    );
    let js = transpile_program(&p);
    assert_eq!(js.matches("let x").count(), 1, "an inner redeclaration is a reassignment");
    assert!(js.contains("x = 2;"));
    assert!(!js.contains("let x = 2"));
}

#[test]
fn test_parameter_not_redeclared() {
    let p = program(
        vec![Declaration::Function(Function {
            name: "f".to_string(),
            args: vec![("a".to_string(), AstType::I32)],
            return_type: AstType::Void,
            body: vec![var_decl("a", int32(5), true), Statement::Return { expr: ident("a") }],
        })],
        vec![],
    );
    let js = transpile_program(&p);
    assert!(js.contains("a = 5;"), "a write to a parameter is a plain assignment");
    assert!(!js.contains("let a"), "a parameter name cannot be re-declared");
}

#[test]
fn test_strict_inequality() {
    let p = program(
        vec![],
        vec![expr_stmt(binop(ident("a"), BinaryOperator::NotEquals, ident("b")))],
    );
    let js = transpile_program(&p);
    assert!(js.contains("(a !== b)"));
}

#[test]
fn test_enum_payload_variant() {
    let p = program(
        vec![Declaration::Enum(EnumDefinition {
            name: "State".to_string(),
            variants: vec![
                EnumVariantDefinition { name: "Idle".to_string(), payload: None },
                EnumVariantDefinition { name: "Loaded".to_string(), payload: Some(AstType::I32) },
            ],
            methods: vec![],
        })],
        vec![],
    );
    let js = transpile_program(&p);
    assert!(js.contains("Idle: Object.freeze({ tag: \"Idle\" }),"));
    assert!(js.contains("Loaded: (value) => Object.freeze({ tag: \"Loaded\", value }),"));
}

#[test]
fn test_enum_method_free_function() {
    let p = program(
        vec![Declaration::Enum(EnumDefinition {
            name: "Color".to_string(),
            variants: vec![EnumVariantDefinition { name: "Red".to_string(), payload: None }],
            methods: vec![Function {
                name: "label".to_string(),
                args: vec![("c".to_string(), AstType::Other)],
                return_type: AstType::StaticString,
                body: vec![Statement::Return { expr: string_lit("red") }],
            }],
        })],
        vec![],
    );
    let js = transpile_program(&p);
    assert!(js.contains("function Color__label(c)"));
}

#[test]
fn test_match_fallthrough_no_terminal_else() {
    let p = program(
        vec![],
        vec![expr_stmt(question_match(
            ident("v"),
            vec![arm(Pattern::Literal(int32(1)), string_lit("one"))],
        ))],
    );
    let js = transpile_program(&p);
    assert!(js.contains("((__match) => {"));
    assert!(js.contains("if (__match === 1) {"));
    assert!(!js.contains("} else {"), "no terminal branch may follow the last arm");
    assert!(js.contains("})(v)"));
}

#[test]
fn test_match_guard_and_binding() {
    let p = program(
        vec![],
        vec![expr_stmt(question_match(
            ident("v"),
            vec![MatchArm {
                pattern: Pattern::Identifier("n".to_string()),
                guard: Some(binop(ident("n"), BinaryOperator::GreaterThan, int32(0))),
                body: ident("n"),
            }],
        ))],
    );
    let js = transpile_program(&p);
    assert!(js.contains("if (true && ((n > 0))) {"));
    assert!(js.contains("const n = __match;"));
}

#[test]
fn test_or_and_range_patterns() {
    let p = program(
        vec![],
        vec![expr_stmt(question_match(
            ident("v"),
            vec![
                arm(
                    Pattern::Or(vec![Pattern::Literal(int32(1)), Pattern::Literal(int32(2))]),
                    string_lit("small"),
                ),
                arm(
                    Pattern::Range { start: int32(3), end: int32(9), inclusive: false },
                    string_lit("mid"),
                ),
                arm(
                    Pattern::Range { start: int32(9), end: int32(20), inclusive: true },
                    string_lit("big"),
                ),
            ],
        ))],
    );
    let js = transpile_program(&p);
    assert!(js.contains("(__match === 1 || __match === 2)"));
    assert!(js.contains("(__match >= 3 && __match < 9)"));
    assert!(js.contains("(__match >= 9 && __match <= 20)"));
}

#[test]
fn test_typeof_pattern() {
    let p = program(
        vec![],
        vec![expr_stmt(question_match(
            ident("v"),
            vec![arm(Pattern::Type { ty_name: "i32".to_string() }, string_lit("int"))],
        ))],
    );
    let js = transpile_program(&p);
    assert!(js.contains("typeof __match === \"number\""));
}

#[test]
fn test_enum_payload_pattern_binding() {
    let p = program(
        vec![],
        vec![expr_stmt(question_match(
            ident("v"),
            vec![arm(
                Pattern::EnumLiteral {
                    variant: "Loaded".to_string(),
                    payload: Some(Box::new(Pattern::Identifier("n".to_string()))),
                },
                ident("n"),
            )],
        ))],
    );
    let js = transpile_program(&p);
    assert!(js.contains("__match.tag === \"Loaded\""));
    assert!(js.contains("const n = __match.value;"));
}

#[test]
fn test_integer_literals() {
    let p = program(
        vec![],
        vec![
            expr_stmt(Expression::Integer64(5)),
            expr_stmt(Expression::Unsigned64(7)),
            expr_stmt(Expression::Integer32(-3)),
            expr_stmt(Expression::Unsigned8(255)),
        ],
    );
    let js = transpile_program(&p);
    assert!(js.contains("5n;"), "a 64-bit literal carries the arbitrary-precision suffix");
    assert!(js.contains("7n;"));
    assert!(js.contains("-3;"));
    assert!(js.contains("255;"));
}

#[test]
fn test_name_mangling() {
    let p = program(
        vec![],
        vec![expr_stmt(Expression::FunctionCall {
            name: "math.utils.add".to_string(),
            args: vec![int32(1), int32(2)],
        })],
    );
    let js = transpile_program(&p);
    assert!(js.contains("math_utils_add(1, 2)"));
    let emitter = JsEmitter::new();
    assert_eq!(emitter.mangle_name("a.b.c"), "a_b_c");
}

#[test]
fn test_string_escaping() {
    let p = program(vec![], vec![expr_stmt(string_lit("say \"hi\""))]);
    let js = transpile_program(&p);
    assert!(js.contains("\"say \\\"hi\\\"\""));
}

#[test]
fn test_backtick_escaping_in_template() {
    let p = program(
        vec![],
        vec![expr_stmt(Expression::StringInterpolation {
            parts: vec![StringPart::Literal("a`b".to_string())],
        })],
    );
    let js = transpile_program(&p);
    assert!(js.contains("`a\\`b`"));
}

#[test]
fn test_range_lowering() {
    let p = program(
        vec![],
        vec![
            expr_stmt(Expression::Range {
                start: Box::new(int32(1)),
                end: Box::new(int32(5)),
                inclusive: false,
            }),
            expr_stmt(Expression::Range {
                start: Box::new(int32(1)),
                end: Box::new(int32(5)),
                inclusive: true,
            }),
        ],
    );
    let js = transpile_program(&p);
    assert!(js.contains("Array.from({ length: 5 - 1 }, (_, i) => 1 + i)"));
    assert!(js.contains("Array.from({ length: 5 - 1 + 1 }, (_, i) => 1 + i)"));
}

#[test]
fn test_loops_and_control() {
    let p = program(
        vec![],
        vec![
            Statement::Loop { kind: LoopKind::Infinite, body: vec![Statement::Break] },
            Statement::Loop {
                kind: LoopKind::Condition(binop(ident("a"), BinaryOperator::LessThan, ident("b"))),
                body: vec![Statement::Continue],
            },
        ],
    );
    let js = transpile_program(&p);
    assert!(js.contains("while (true) {\n  break;\n}"));
    assert!(js.contains("while ((a < b)) {\n  continue;\n}"));
}

#[test]
fn test_collection_loop() {
    let with_index = Expression::CollectionLoop {
        collection: Box::new(ident("items")),
        param: ("item".to_string(), AstType::Other),
        index_param: Some(("i".to_string(), AstType::Usize)),
        body: Box::new(ident("item")),
    };
    let without_index = Expression::CollectionLoop {
        collection: Box::new(ident("items")),
        param: ("item".to_string(), AstType::Other),
        index_param: None,
        body: Box::new(ident("item")),
    };
    let p = program(vec![], vec![expr_stmt(with_index), expr_stmt(without_index)]);
    let js = transpile_program(&p);
    assert!(js.contains("items.forEach((item, i) => item)"));
    assert!(js.contains("items.forEach((item) => item)"));
}

#[test]
fn test_block_iife_promotes_last_expression() {
    let p = program(
        vec![],
        vec![var_decl(
            "v",
            Expression::Block(vec![var_decl("t", int32(1), false), expr_stmt(ident("t"))]),
            false,
        )],
    );
    let js = transpile_program(&p);
    assert!(js.contains("(() => {"));
    assert!(js.contains("return t;"));
    assert!(js.contains("})()"));
}

#[test]
fn test_closure_lowering() {
    let p = program(
        vec![],
        vec![expr_stmt(Expression::Closure {
            params: vec![("x".to_string(), AstType::I32)],
            body: Box::new(binop(ident("x"), BinaryOperator::Add, int32(1))),
        })],
    );
    let js = transpile_program(&p);
    assert!(js.contains("(x) => (x + 1)"));
}

#[test]
fn test_method_call_default_and_interceptions() {
    let p = program(
        vec![],
        vec![
            expr_stmt(Expression::MethodCall {
                object: Box::new(ident("list")),
                method: "push".to_string(),
                args: vec![int32(1)],
            }),
            expr_stmt(Expression::MethodCall {
                object: Box::new(ident("Math")),
                method: "abs".to_string(),
                args: vec![int32(-4)],
            }),
            expr_stmt(Expression::MethodCall {
                object: Box::new(ident("JSON")),
                method: "parse".to_string(),
                args: vec![ident("raw")],
            }),
            expr_stmt(Expression::MethodCall {
                object: Box::new(ident("io")),
                method: "read_line".to_string(),
                args: vec![],
            }),
        ],
    );
    let js = transpile_program(&p);
    assert!(js.contains("list.push(1)"));
    assert!(js.contains("Math.abs(-4)"));
    assert!(js.contains("JSON.parse(raw)"));
    assert!(js.contains("prompt(\"\")"));
}

#[test]
fn test_cast_is_erased() {
    let p = program(
        vec![],
        vec![expr_stmt(Expression::FunctionCall {
            name: "cast".to_string(),
            args: vec![ident("x")],
        })],
    );
    let js = transpile_program(&p);
    assert!(js.contains("x;"));
    assert!(!js.contains("cast"));
}

#[test]
fn test_some_none_unit() {
    let p = program(
        vec![],
        vec![
            expr_stmt(Expression::SomeValue(Box::new(int32(1)))),
            expr_stmt(Expression::NoneValue),
            expr_stmt(Expression::Unit),
        ],
    );
    let js = transpile_program(&p);
    assert!(js.contains("1;"), "a present optional is unwrapped to its value");
    assert!(js.contains("null;"));
    assert!(js.contains("undefined;"));
}

#[test]
fn test_struct_default_field_fallback() {
    let p = program(
        vec![Declaration::Struct(StructDefinition {
            name: "Point".to_string(),
            fields: vec![
                StructField { name: "x".to_string(), default_value: None },
                StructField { name: "y".to_string(), default_value: Some(int32(0)) },
            ],
            methods: vec![],
        })],
        vec![],
    );
    let js = transpile_program(&p);
    assert!(js.contains("this.y = y ?? 0;"));
    assert!(js.contains("this.x = x;"));
}

#[test]
fn test_struct_method_elides_self() {
    let p = program(
        vec![Declaration::Struct(StructDefinition {
            name: "Point".to_string(),
            fields: vec![StructField { name: "x".to_string(), default_value: None }],
            methods: vec![Function {
                name: "shift".to_string(),
                args: vec![("self".to_string(), AstType::Other), ("d".to_string(), AstType::I32)],
                return_type: AstType::Void,
                body: vec![],
            }],
        })],
        vec![],
    );
    let js = transpile_program(&p);
    assert!(js.contains("shift(d) {"), "self-shaped parameters are elided");
}

#[test]
fn test_impl_block_prototype_methods() {
    let p = program(
        vec![Declaration::ImplBlock(ImplBlockDefinition {
            ty_name: "Point".to_string(),
            methods: vec![Function {
                name: "norm".to_string(),
                args: vec![("self".to_string(), AstType::Other)],
                return_type: AstType::F64,
                body: vec![],
            }],
        })],
        vec![],
    );
    let js = transpile_program(&p);
    assert!(js.contains("// impl Point {"));
    assert!(js.contains("Point.prototype.norm = function() {"));
}

#[test]
fn test_module_import_and_export() {
    let p = program(
        vec![
            Declaration::ModuleImport { alias: "io".to_string(), origin: "@std".to_string() },
            Declaration::Export { symbols: vec!["a".to_string(), "b".to_string()] },
        ],
        vec![],
    );
    let js = transpile_program(&p);
    assert!(js.contains("// import io from \"@std\";"));
    assert!(js.contains("export { a, b };"));
}

#[test]
fn test_type_alias_and_constant() {
    let p = program(
        vec![
            Declaration::TypeAlias(TypeAliasDefinition {
                name: "MyInt".to_string(),
                target_type: AstType::I32,
            }),
            Declaration::Constant { name: "LIMIT".to_string(), value: int32(10) },
        ],
        vec![],
    );
    let js = transpile_program(&p);
    assert!(js.contains("/** @typedef {number} MyInt */"));
    assert!(js.contains("const LIMIT = 10;"));
}

#[test]
fn test_fail_soft_placeholders() {
    let p = program(
        vec![Declaration::Other, Declaration::ComptimeBlock(vec![])],
        vec![
            Statement::Other,
            expr_stmt(Expression::Other),
            Statement::Defer { statement: Box::new(Statement::Return { expr: int32(1) }) },
            Statement::DestructuringImport {
                names: vec!["a".to_string(), "b".to_string()],
                source: ident("m"),
            },
        ],
    );
    let js = transpile_program(&p);
    assert!(js.contains("// [unsupported declaration]"));
    assert!(js.contains("// [comptime block elided]"));
    assert!(js.contains("// [unsupported statement]"));
    assert!(js.contains("/* unsupported expression */"));
    assert!(js.contains("// defer {"));
    assert!(js.contains("// }"));
    assert!(js.contains("// { a, b } = m"));
}

#[test]
fn test_raise_and_this_and_std_refs() {
    let p = program(
        vec![],
        vec![
            expr_stmt(Expression::Raise(Box::new(string_lit("boom")))),
            expr_stmt(Expression::ThisReference),
            expr_stmt(Expression::StdReference),
            expr_stmt(Expression::Comptime(Box::new(int32(1)))),
        ],
    );
    let js = transpile_program(&p);
    assert!(js.contains("throw \"boom\";"));
    assert!(js.contains("this;"));
    assert!(js.contains("globalThis.__std;"));
    assert!(js.contains("/* comptime */ 1;"));
}

#[test]
fn test_member_index_array_struct_literal() {
    let p = program(
        vec![],
        vec![
            expr_stmt(Expression::MemberAccess {
                object: Box::new(ident("obj")),
                member: "field".to_string(),
            }),
            expr_stmt(Expression::ArrayIndex {
                array: Box::new(ident("xs")),
                index: Box::new(int32(2)),
            }),
            expr_stmt(Expression::ArrayLiteral(vec![int32(1), int32(2), int32(3)])),
            expr_stmt(Expression::StructLiteral {
                name: "Point".to_string(),
                fields: vec![("x".to_string(), int32(1)), ("y".to_string(), int32(2))],
            }),
        ],
    );
    let js = transpile_program(&p);
    assert!(js.contains("obj.field;"));
    assert!(js.contains("xs[2];"));
    assert!(js.contains("[1, 2, 3];"));
    assert!(js.contains("new Point(1, 2);"));
}

#[test]
fn test_pointer_assignment() {
    let p = program(
        vec![],
        vec![Statement::PointerAssignment {
            pointer: Expression::MemberAccess {
                object: Box::new(ident("obj")),
                member: "x".to_string(),
            },
            value: int32(5),
        }],
    );
    let js = transpile_program(&p);
    assert!(js.contains("obj.x = 5;"));
}

#[test]
fn test_float_literal_text() {
    let p = program(
        vec![],
        vec![
            expr_stmt(Expression::Float64("3.25".to_string())),
            expr_stmt(Expression::Float32("1.5".to_string())),
        ],
    );
    let js = transpile_program(&p);
    assert!(js.contains("3.25;"));
    assert!(js.contains("1.5;"));
}

#[test]
fn test_jsdoc_compound_types() {
    let p = program(
        vec![Declaration::Function(Function {
            name: "f".to_string(),
            args: vec![
                (
                    "xs".to_string(),
                    AstType::Slice(Box::new(AstType::I64)),
                ),
                (
                    "m".to_string(),
                    AstType::Generic {
                        name: "Map".to_string(),
                        type_args: vec![AstType::StaticString, AstType::Bool],
                    },
                ),
            ],
            return_type: AstType::Void,
            body: vec![],
        })],
        vec![],
    );
    let js = transpile_program(&p);
    assert!(js.contains("@param {Array<bigint>} xs"));
    assert!(js.contains("@param {Map<string, boolean>} m"));
}

#[test]
fn test_scope_helpers() {
    let mut e = JsEmitter::new();
    assert!(!e.is_var_declared("x"));
    e.declare_var("x");
    assert!(e.is_var_declared("x"));
    e.push_scope();
    assert!(e.is_var_declared("x"), "the search spans every scope on the stack");
    e.declare_var("y");
    e.pop_scope();
    assert!(!e.is_var_declared("y"), "a popped scope releases its names");
    assert_eq!(e.type_name_to_js_typeof("bool"), "boolean");
    assert_eq!(e.type_name_to_js_typeof("Point"), "object");
}
