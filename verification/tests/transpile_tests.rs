use zen_js::ast::{
    AstType, BinaryOperator, Declaration, EnumDefinition, EnumVariantDefinition, Expression,
    Function, Pattern, MatchArm, Program, Statement, StringPart, StructDefinition, StructField,
};
use zen_js::emitter::JsEmitter;

fn transpile_program(p: &Program) -> String {
    let mut emitter = JsEmitter::new();
    emitter.emit_program(p)
}

fn ident(name: &str) -> Expression {
    Expression::Identifier(name.to_string())
}

fn int32(v: i32) -> Expression {
    Expression::Integer32(v)
}

fn string_lit(s: &str) -> Expression {
    Expression::StringLiteral(s.to_string())
}

fn expr_stmt(e: Expression) -> Statement {
    Statement::Expression { expr: e }
}

fn fn_decl(
    name: &str,
    args: Vec<(String, AstType)>,
    return_type: AstType,
    body: Vec<Statement>,
) -> Declaration {
    Declaration::Function(Function { name: name.to_string(), args, return_type, body })
}

fn program(declarations: Vec<Declaration>, statements: Vec<Statement>) -> Program {
    Program { declarations, statements }
}

fn binop(l: Expression, op: BinaryOperator, r: Expression) -> Expression {
    Expression::BinaryOp { left: Box::new(l), op, right: Box::new(r) }
}

fn var_decl(name: &str, init: Expression, mutable: bool) -> Statement {
    Statement::VariableDeclaration {
        name: name.to_string(),
        initializer: Some(init),
        is_mutable: mutable,
    }
}

fn io_println(arg: Expression) -> Expression {
    Expression::MethodCall {
        object: Box::new(ident("io")),
        method: "println".to_string(),
        args: vec![arg],
    }
}

fn question_match(scrutinee: Expression, arms: Vec<MatchArm>) -> Expression {
    Expression::QuestionMatch { scrutinee: Box::new(scrutinee), arms }
}

fn arm(pattern: Pattern, body: Expression) -> MatchArm {
    MatchArm { pattern, guard: None, body }
}

#[test]
fn test_hello_world() {
    let p = program(
        vec![fn_decl(
            "main",
            vec![],
            AstType::I32,
            vec![
                expr_stmt(io_println(string_lit("Hello, world!"))),
                Statement::Return { expr: int32(0) },
            ],
        )],
        vec![],
    );
    let js = transpile_program(&p);
    assert!(js.contains("console.log(\"Hello, world!\")"), "println should map to console.log");
    assert!(js.contains("main();"), "a trailing invocation of main is expected");
}

#[test]
fn test_function_declaration() {
    let p = program(
        vec![fn_decl(
            "add",
            vec![("a".to_string(), AstType::I32), ("b".to_string(), AstType::I32)],
            AstType::I32,
            vec![Statement::Return { expr: binop(ident("a"), BinaryOperator::Add, ident("b")) }],
        )],
        vec![],
    );
    let js = transpile_program(&p);
    assert!(js.contains("function add(a, b)"), "parameters appear without type tokens");
    assert!(js.contains("return (a + b)"), "the sum is returned parenthesized");
}

#[test]
fn test_string_interpolation() {
    let p = program(
        vec![],
        vec![expr_stmt(Expression::StringInterpolation {
            parts: vec![
                StringPart::Literal("Hello, ".to_string()),
                StringPart::Interpolation(ident("name")),
                StringPart::Literal("!".to_string()),
            ],
        })],
    );
    let js = transpile_program(&p);
    assert!(js.contains("`Hello, ${name}!`"), "interpolation becomes a template literal");
}

#[test]
fn test_enum_definition() {
    let p = program(
        vec![Declaration::Enum(EnumDefinition {
            name: "Color".to_string(),
            variants: vec![
                EnumVariantDefinition { name: "Red".to_string(), payload: None },
                EnumVariantDefinition { name: "Green".to_string(), payload: None },
                EnumVariantDefinition { name: "Blue".to_string(), payload: None },
            ],
            methods: vec![],
        })],
        vec![],
    );
    let js = transpile_program(&p);
    assert!(js.contains("const Color = Object.freeze({"));
    assert!(js.contains("Red: Object.freeze({ tag: \"Red\" })"));
    assert!(js.contains("Green: Object.freeze({ tag: \"Green\" })"));
    assert!(js.contains("Blue: Object.freeze({ tag: \"Blue\" })"));
}

#[test]
fn test_pattern_matching_enum() {
    let p = program(
        vec![],
        vec![expr_stmt(question_match(
            ident("status"),
            vec![
                arm(
                    Pattern::EnumLiteral { variant: "Active".to_string(), payload: None },
                    string_lit("on"),
                ),
                arm(
                    Pattern::EnumLiteral { variant: "Inactive".to_string(), payload: None },
                    string_lit("off"),
                ),
            ],
        ))],
    );
    let js = transpile_program(&p);
    assert!(js.contains("__match.tag === \"Active\""));
    assert!(js.contains("__match.tag === \"Inactive\""));
}

#[test]
fn test_pattern_matching_bool() {
    let p = program(
        vec![],
        vec![expr_stmt(question_match(
            ident("flag"),
            vec![
                arm(Pattern::Type { ty_name: "true".to_string() }, int32(1)),
                arm(Pattern::Type { ty_name: "false".to_string() }, int32(0)),
            ],
        ))],
    );
    let js = transpile_program(&p);
    assert!(js.contains("__match === true"));
    assert!(js.contains("__match === false"));
}

#[test]
fn test_struct_definition() {
    let p = program(
        vec![Declaration::Struct(StructDefinition {
            name: "Point".to_string(),
            fields: vec![
                StructField { name: "x".to_string(), default_value: None },
                StructField { name: "y".to_string(), default_value: None },
            ],
            methods: vec![],
        })],
        vec![],
    );
    let js = transpile_program(&p);
    assert!(js.contains("class Point"));
    assert!(js.contains("constructor(x, y)"));
    assert!(js.contains("this.x = x"));
    assert!(js.contains("this.y = y"));
}

#[test]
fn test_mutable_variable() {
    let p = program(
        vec![],
        vec![var_decl("count", int32(0), true), var_decl("count", int32(1), true)],
    );
    let js = transpile_program(&p);
    assert!(js.contains("let count = 0"));
    assert!(js.contains("count = 1;"));
    assert!(
        js.matches("let count").count() == 1,
        "count should only be declared once"
    );
}

#[test]
fn test_immutable_variable() {
    let p = program(
        vec![fn_decl(
            "main",
            vec![],
            AstType::I32,
            vec![
                var_decl("x", int32(42), false),
                Statement::Return { expr: ident("x") },
            ],
        )],
        vec![],
    );
    let js = transpile_program(&p);
    assert!(js.contains("const x = 42"));
}

#[test]
fn test_io_println_mapping() {
    let p = program(vec![], vec![expr_stmt(io_println(string_lit("test")))]);
    let js = transpile_program(&p);
    assert!(js.contains("console.log(\"test\")"));
    assert!(!js.contains("io.println"), "the qualified source name must be rewritten away");
}

#[test]
fn test_enum_literal_in_call() {
    let p = program(
        vec![],
        vec![expr_stmt(Expression::FunctionCall {
            name: "set_status".to_string(),
            args: vec![Expression::EnumLiteral { variant: "Active".to_string(), payload: None }],
        })],
    );
    let js = transpile_program(&p);
    assert!(js.contains("{ tag: \"Active\" }"));
}

#[test]
fn test_jsdoc_params() {
    let p = program(
        vec![fn_decl(
            "add",
            vec![("a".to_string(), AstType::I32), ("b".to_string(), AstType::I32)],
            AstType::I32,
            vec![Statement::Return { expr: binop(ident("a"), BinaryOperator::Add, ident("b")) }],
        )],
        vec![],
    );
    let js = transpile_program(&p);
    assert!(js.contains("@param {number} a"));
    assert!(js.contains("@param {number} b"));
    assert!(js.contains("@returns {number}"));
}

#[test]
fn test_comparison_operators() {
    let p = program(
        vec![],
        vec![expr_stmt(binop(ident("a"), BinaryOperator::Equals, ident("b")))],
    );
    let js = transpile_program(&p);
    assert!(js.contains("==="), "== should map to ===");
}
