use vstd::prelude::*;
use vstd::string::StringExecFns;
use crate::ast::{
    AstType, BinaryOperator, Declaration, EnumDefinition, EnumVariantDefinition, Expression,
    Function, ImplBlockDefinition, LoopKind, MatchArm, Pattern, Program, Statement, StringPart,
    StructDefinition, StructField,
};
use crate::text::{
    push_decimal, push_escaped, push_int, push_mangled, spec_declare, spec_inc, spec_indentation,
    spec_is_declared, spec_mangled, spec_pop_scope, spec_push_scope, str_eq, Scopes,
};
use crate::lowering::{
    spec_arms_from, spec_binop, spec_body_from, spec_call, spec_ctor_fields_from, spec_decl,
    spec_declare_params, spec_decls_from, spec_enum, spec_enum_methods_from, spec_expr,
    spec_exprs_from, spec_field_names, spec_field_values_from, spec_first_arg, spec_function,
    spec_has_main, spec_impl, spec_impl_methods_from, spec_imports_from, spec_is_main, spec_jsdoc,
    spec_jsdoc_list, spec_jsdoc_params_from, spec_joined_names, spec_param_names,
    spec_param_names_no_self, spec_parts_from, spec_pattern_bindings, spec_pattern_cond,
    spec_pattern_conds_from, spec_program, spec_stmt, spec_stmts_from, spec_struct,
    spec_struct_methods_from, spec_typeof_name, spec_variants_from,
};

verus! {

/// The emission engine: one output buffer, one indentation counter, and the
/// stack of scopes of names bound so far.  A fresh instance is constructed per
/// transpilation; nothing persists across instances.
pub struct JsEmitter {
    pub indent: usize,
    pub output: String,
    /// The scope tracker: the names bound so far, one list per active scope.
    pub declared_vars: Vec<Vec<String>>,
}

/// The scope stack of an emitter, seen abstractly.
pub open spec fn sc_of(e: JsEmitter) -> Scopes {
    e.declared_vars.deep_view()
}

/// The indentation level of an emitter, seen abstractly.
pub open spec fn ind_of(e: JsEmitter) -> nat {
    e.indent as nat
}

/// What every emission step guarantees: the indentation level is restored,
/// the given text is appended to the output, and the scope stack becomes the
/// given stack.
pub open spec fn appended(pre: JsEmitter, post: JsEmitter, r: (Seq<char>, Scopes)) -> bool {
    &&& post.indent == pre.indent
    &&& post.output@ == pre.output@ + r.0
    &&& post.declared_vars.deep_view() == r.1
}

impl JsEmitter {
    /// A fresh engine: empty output, no indentation, one empty scope.
    pub fn new() -> (e: JsEmitter)
        ensures
            e.indent == 0,
            e.output@ == Seq::<char>::empty(),
            sc_of(e) == seq![Seq::<Seq<char>>::empty()],
    {
        let mut scopes: Vec<Vec<String>> = Vec::new();
        scopes.push(Vec::new());
        let e = JsEmitter { indent: 0, output: String::new(), declared_vars: scopes };
        proof {
            assert(sc_of(e) =~~= seq![Seq::<Seq<char>>::empty()]);
        }
        e
    }

    /// Whether `name` is bound in any scope on the stack.
    pub fn is_var_declared(&self, name: &str) -> (r: bool)
        ensures
            r == spec_is_declared(sc_of(*self), name@),
    {
        let mut i: usize = 0;
        while i < self.declared_vars.len()
            invariant
                i <= self.declared_vars.len(),
                forall|k: int| 0 <= k < i ==> !sc_of(*self)[k].contains(name@),
            decreases self.declared_vars.len() - i,
        {
            if scope_contains(&self.declared_vars[i], name) {
                proof {
                    assert(sc_of(*self)[i as int].contains(name@));
                }
                return true;
            }
            i = i + 1;
        }
        false
    }

    /// Binds `name` in the innermost scope.
    pub fn declare_var(&mut self, name: &str)
        ensures
            final(self).indent == old(self).indent,
            final(self).output == old(self).output,
            sc_of(*final(self)) == spec_declare(sc_of(*old(self)), name@),
    {
        let ghost pre = self.declared_vars.deep_view();
        match self.declared_vars.pop() {
            Option::Some(mut top) => {
                top.push(name.to_owned());
                self.declared_vars.push(top);
                proof {
                    assert(sc_of(*self) =~~= spec_declare(pre, name@));
                }
            },
            Option::None => {
                proof {
                    assert(sc_of(*self) =~~= spec_declare(pre, name@));
                }
            },
        }
    }

    /// Opens a fresh scope on entry to a function body.
    pub fn push_scope(&mut self)
        ensures
            final(self).indent == old(self).indent,
            final(self).output == old(self).output,
            sc_of(*final(self)) == spec_push_scope(sc_of(*old(self))),
    {
        let ghost pre = self.declared_vars.deep_view();
        self.declared_vars.push(Vec::new());
        proof {
            assert(sc_of(*self) =~~= spec_push_scope(pre));
        }
    }

    /// Closes the innermost scope on exit.
    pub fn pop_scope(&mut self)
        ensures
            final(self).indent == old(self).indent,
            final(self).output == old(self).output,
            sc_of(*final(self)) == spec_pop_scope(sc_of(*old(self))),
    {
        let ghost pre = self.declared_vars.deep_view();
        let _ = self.declared_vars.pop();
        proof {
            assert(sc_of(*self) =~~= spec_pop_scope(pre));
        }
    }

    /// One nesting level deeper; the counter never moves past the machine
    /// limit.
    fn inc_indent(&mut self)
        ensures
            ind_of(*final(self)) == spec_inc(ind_of(*old(self))),
            final(self).output == old(self).output,
            final(self).declared_vars == old(self).declared_vars,
    {
        if self.indent < usize::MAX {
            self.indent = self.indent + 1;
        }
    }

    fn set_indent(&mut self, v: usize)
        ensures
            final(self).indent == v,
            final(self).output == old(self).output,
            final(self).declared_vars == old(self).declared_vars,
    {
        self.indent = v;
    }

    /// Two spaces per nesting level.
    pub fn push_indent(&mut self)
        ensures
            final(self).indent == old(self).indent,
            final(self).output@ == old(self).output@ + spec_indentation(ind_of(*old(self))),
            final(self).declared_vars == old(self).declared_vars,
    {
        let mut i: usize = 0;
        while i < self.indent
            invariant
                i <= self.indent,
                self.indent == old(self).indent,
                self.declared_vars == old(self).declared_vars,
                self.output@ == old(self).output@ + spec_indentation(i as nat),
            decreases self.indent - i,
        {
            self.output.append("  ");
            i = i + 1;
            proof {
                assert(self.output@ =~= old(self).output@ + spec_indentation(i as nat));
            }
        }
    }

    /// A full line: indentation, the text, a line terminator.
    pub fn emit_line(&mut self, s: &str)
        ensures
            final(self).indent == old(self).indent,
            final(self).output@ == old(self).output@ + spec_indentation(ind_of(*old(self))) + s@
                + "\n"@,
            final(self).declared_vars == old(self).declared_vars,
    {
        self.push_indent();
        self.output.append(s);
        self.output.append("\n");
    }

    pub fn emit_newline(&mut self)
        ensures
            final(self).indent == old(self).indent,
            final(self).output@ == old(self).output@ + "\n"@,
            final(self).declared_vars == old(self).declared_vars,
    {
        self.output.append("\n");
    }

    /// A qualified name flattened to a single token.
    pub fn mangle_name(&self, name: &str) -> (r: String)
        ensures
            r@ == spec_mangled(name@, 0),
    {
        let mut out = String::new();
        push_mangled(&mut out, name, 0);
        out
    }

    /// The fixed operator table; equality and inequality map to the strict
    /// comparison forms.
    pub fn binary_op_to_js(&self, op: &BinaryOperator) -> (r: &'static str)
        ensures
            r@ == spec_binop(*op),
    {
        match op {
            BinaryOperator::Add => "+",
            BinaryOperator::Subtract => "-",
            BinaryOperator::Multiply => "*",
            BinaryOperator::Divide => "/",
            BinaryOperator::Modulo => "%",
            BinaryOperator::Equals => "===",
            BinaryOperator::NotEquals => "!==",
            BinaryOperator::LessThan => "<",
            BinaryOperator::GreaterThan => ">",
            BinaryOperator::LessThanEquals => "<=",
            BinaryOperator::GreaterThanEquals => ">=",
            BinaryOperator::And => "&&",
            BinaryOperator::Or => "||",
            BinaryOperator::BitwiseAnd => "&",
            BinaryOperator::BitwiseOr => "|",
            BinaryOperator::BitwiseXor => "^",
            BinaryOperator::ShiftLeft => "<<",
            BinaryOperator::ShiftRight => ">>",
            BinaryOperator::StringConcat => "+",
        }
    }

    /// The target's runtime-type name for a primitive type name.
    pub fn type_name_to_js_typeof(&self, name: &str) -> (r: &'static str)
        ensures
            r@ == spec_typeof_name(name@),
    {
        if str_eq(name, "i8") || str_eq(name, "i16") || str_eq(name, "i32") || str_eq(name, "u8")
            || str_eq(name, "u16") || str_eq(name, "u32") || str_eq(name, "f32")
            || str_eq(name, "f64") {
            "number"
        } else if str_eq(name, "i64") || str_eq(name, "u64") {
            "bigint"
        } else if str_eq(name, "bool") {
            "boolean"
        } else if str_eq(name, "String") || str_eq(name, "string") {
            "string"
        } else {
            "object"
        }
    }

    /// The documentation-annotation name of a type.
    pub fn type_to_jsdoc(&self, ty: &AstType) -> (r: String)
        ensures
            r@ == spec_jsdoc(*ty),
    {
        let mut out = String::new();
        push_jsdoc(&mut out, ty);
        out
    }
}

/// Whether one scope binds `name`.
fn scope_contains(scope: &Vec<String>, name: &str) -> (r: bool)
    ensures
        r == scope.deep_view().contains(name@),
{
    let mut j: usize = 0;
    while j < scope.len()
        invariant
            j <= scope.len(),
            forall|k: int| 0 <= k < j ==> scope.deep_view()[k] != name@,
        decreases scope.len() - j,
    {
        if str_eq(scope[j].as_str(), name) {
            proof {
                assert(scope.deep_view()[j as int] == name@);
            }
            return true;
        }
        j = j + 1;
    }
    proof {
        assert(!scope.deep_view().contains(name@));
    }
    false
}

fn is_void(t: &AstType) -> (r: bool)
    ensures
        r == (*t == AstType::Void),
{
    match t {
        AstType::Void => true,
        _ => false,
    }
}

fn push_jsdoc(out: &mut String, ty: &AstType)
    ensures
        final(out)@ == old(out)@ + spec_jsdoc(*ty),
    decreases *ty, 1nat, 0int,
{
    match ty {
        AstType::I8 => out.append("number"),
        AstType::I16 => out.append("number"),
        AstType::I32 => out.append("number"),
        AstType::U8 => out.append("number"),
        AstType::U16 => out.append("number"),
        AstType::U32 => out.append("number"),
        AstType::F32 => out.append("number"),
        AstType::F64 => out.append("number"),
        AstType::Usize => out.append("number"),
        AstType::I64 => out.append("bigint"),
        AstType::U64 => out.append("bigint"),
        AstType::Bool => out.append("boolean"),
        AstType::StaticString => out.append("string"),
        AstType::StaticLiteral => out.append("string"),
        AstType::Void => out.append("void"),
        AstType::Slice(inner) => {
            out.append("Array<");
            push_jsdoc(out, inner);
            out.append(">");
            assert(final(out)@ =~= old(out)@ + spec_jsdoc(*ty));
        },
        AstType::FixedArray { element_type, size } => {
            out.append("Array<");
            push_jsdoc(out, element_type);
            out.append("> /* [");
            push_decimal(out, *size);
            out.append("] */");
            assert(final(out)@ =~= old(out)@ + spec_jsdoc(*ty));
        },
        AstType::Struct { name } => out.append(name.as_str()),
        AstType::Generic { name, type_args } => {
            if type_args.len() == 0 {
                out.append(name.as_str());
            } else {
                out.append(name.as_str());
                out.append("<");
                push_jsdoc_list(out, type_args, 0);
                out.append(">");
                assert(final(out)@ =~= old(out)@ + spec_jsdoc(*ty));
            }
        },
        AstType::Function { args, return_type } => {
            out.append("function(");
            push_jsdoc_list(out, args, 0);
            out.append(") : ");
            push_jsdoc(out, return_type);
            assert(final(out)@ =~= old(out)@ + spec_jsdoc(*ty));
        },
        AstType::Ref(inner) => push_jsdoc(out, inner),
        AstType::Other => out.append("*"),
    }
}

fn push_jsdoc_list(out: &mut String, ts: &Vec<AstType>, i: usize)
    ensures
        final(out)@ == old(out)@ + spec_jsdoc_list(ts@, i as int),
    decreases ts@, 0nat, ts@.len() - i,
{
    if i >= ts.len() {
        assert(final(out)@ =~= old(out)@ + spec_jsdoc_list(ts@, i as int));
        return ;
    }
    push_jsdoc(out, &ts[i]);
    if i + 1 < ts.len() {
        out.append(", ");
        push_jsdoc_list(out, ts, i + 1);
        assert(final(out)@ =~= old(out)@ + spec_jsdoc_list(ts@, i as int));
    } else {
        assert(final(out)@ =~= old(out)@ + spec_jsdoc_list(ts@, i as int));
    }
}

fn push_joined_names(out: &mut String, items: &Vec<String>, i: usize)
    ensures
        final(out)@ == old(out)@ + spec_joined_names(items@, i as int),
    decreases items@.len() - i,
{
    if i >= items.len() {
        assert(final(out)@ =~= old(out)@ + spec_joined_names(items@, i as int));
        return ;
    }
    out.append(items[i].as_str());
    if i + 1 < items.len() {
        out.append(", ");
        push_joined_names(out, items, i + 1);
        assert(final(out)@ =~= old(out)@ + spec_joined_names(items@, i as int));
    } else {
        assert(final(out)@ =~= old(out)@ + spec_joined_names(items@, i as int));
    }
}

fn push_param_names(out: &mut String, args: &Vec<(String, AstType)>, i: usize)
    ensures
        final(out)@ == old(out)@ + spec_param_names(args@, i as int),
    decreases args@.len() - i,
{
    if i >= args.len() {
        assert(final(out)@ =~= old(out)@ + spec_param_names(args@, i as int));
        return ;
    }
    out.append(args[i].0.as_str());
    if i + 1 < args.len() {
        out.append(", ");
        push_param_names(out, args, i + 1);
        assert(final(out)@ =~= old(out)@ + spec_param_names(args@, i as int));
    } else {
        assert(final(out)@ =~= old(out)@ + spec_param_names(args@, i as int));
    }
}

fn push_param_names_no_self(out: &mut String, args: &Vec<(String, AstType)>, i: usize, first: bool)
    ensures
        final(out)@ == old(out)@ + spec_param_names_no_self(args@, i as int, first),
    decreases args@.len() - i,
{
    if i >= args.len() {
        assert(final(out)@ =~= old(out)@ + spec_param_names_no_self(args@, i as int, first));
        return ;
    }
    if str_eq(args[i].0.as_str(), "self") {
        push_param_names_no_self(out, args, i + 1, first);
        assert(final(out)@ =~= old(out)@ + spec_param_names_no_self(args@, i as int, first));
    } else {
        if !first {
            out.append(", ");
        }
        out.append(args[i].0.as_str());
        push_param_names_no_self(out, args, i + 1, false);
        assert(final(out)@ =~= old(out)@ + spec_param_names_no_self(args@, i as int, first));
    }
}

fn push_field_names(out: &mut String, fields: &Vec<StructField>, i: usize)
    ensures
        final(out)@ == old(out)@ + spec_field_names(fields@, i as int),
    decreases fields@.len() - i,
{
    if i >= fields.len() {
        assert(final(out)@ =~= old(out)@ + spec_field_names(fields@, i as int));
        return ;
    }
    out.append(fields[i].name.as_str());
    if i + 1 < fields.len() {
        out.append(", ");
        push_field_names(out, fields, i + 1);
        assert(final(out)@ =~= old(out)@ + spec_field_names(fields@, i as int));
    } else {
        assert(final(out)@ =~= old(out)@ + spec_field_names(fields@, i as int));
    }
}

/// Whether a function named `main` stands among the declarations.
fn has_main(ds: &Vec<Declaration>) -> (r: bool)
    ensures
        r == spec_has_main(ds@),
{
    let mut i: usize = 0;
    while i < ds.len()
        invariant
            i <= ds.len(),
            forall|k: int| 0 <= k < i ==> !#[trigger] spec_is_main(ds@[k]),
        decreases ds.len() - i,
    {
        let found = match &ds[i] {
            Declaration::Function(f) => str_eq(f.name.as_str(), "main"),
            _ => false,
        };
        if found {
            proof {
                assert(spec_is_main(ds@[i as int]));
            }
            return true;
        }
        i = i + 1;
    }
    false
}

} // verus!

verus! {

impl JsEmitter {
    /// One statement: its text is appended at the current level, and any name
    /// it declares joins the innermost scope.
    #[verifier::rlimit(100)]
    #[verifier::spinoff_prover]
    pub fn emit_statement(&mut self, stmt: &Statement)
        ensures
            appended(*old(self), *final(self), spec_stmt(*stmt, ind_of(*old(self)), sc_of(*old(self)))),
        decreases *stmt, 1nat, 0int,
    {
        let ghost r = spec_stmt(*stmt, ind_of(*old(self)), sc_of(*old(self)));
        match stmt {
            Statement::Expression { expr } => {
                self.push_indent();
                self.emit_expression(expr);
                self.output.append(";\n");
                proof {
                    assert(self.output@ =~= old(self).output@ + r.0);
                }
            },
            Statement::Return { expr } => {
                self.push_indent();
                self.output.append("return ");
                self.emit_expression(expr);
                self.output.append(";\n");
                proof {
                    assert(self.output@ =~= old(self).output@ + r.0);
                }
            },
            Statement::VariableDeclaration { name, initializer, is_mutable } => {
                self.push_indent();
                if self.is_var_declared(name.as_str()) {
                    match initializer {
                        Option::Some(init) => {
                            self.output.append(name.as_str());
                            self.output.append(" = ");
                            self.emit_expression(init);
                            self.output.append(";\n");
                        },
                        Option::None => {},
                    }
                } else {
                    self.declare_var(name.as_str());
                    let kw: &str = if *is_mutable {
                        "let"
                    } else {
                        "const"
                    };
                    match initializer {
                        Option::Some(init) => {
                            self.output.append(kw);
                            self.output.append(" ");
                            self.output.append(name.as_str());
                            self.output.append(" = ");
                            self.emit_expression(init);
                            self.output.append(";\n");
                        },
                        Option::None => {
                            self.output.append(kw);
                            self.output.append(" ");
                            self.output.append(name.as_str());
                            self.output.append(";\n");
                        },
                    }
                }
                proof {
                    assert(self.output@ =~= old(self).output@ + r.0);
                }
            },
            Statement::VariableAssignment { name, value } => {
                self.push_indent();
                self.output.append(name.as_str());
                self.output.append(" = ");
                self.emit_expression(value);
                self.output.append(";\n");
                proof {
                    assert(self.output@ =~= old(self).output@ + r.0);
                }
            },
            Statement::Loop { kind, body } => {
                match kind {
                    LoopKind::Infinite => {
                        self.emit_line("while (true) {");
                    },
                    LoopKind::Condition(cond) => {
                        self.push_indent();
                        self.output.append("while (");
                        self.emit_expression(cond);
                        self.output.append(") {\n");
                    },
                }
                let saved = self.indent;
                self.inc_indent();
                self.emit_statements(body, 0);
                self.set_indent(saved);
                self.emit_line("}");
                proof {
                    assert(self.output@ =~= old(self).output@ + r.0);
                }
            },
            Statement::Break => {
                self.emit_line("break;");
                proof {
                    assert(self.output@ =~= old(self).output@ + r.0);
                }
            },
            Statement::Continue => {
                self.emit_line("continue;");
                proof {
                    assert(self.output@ =~= old(self).output@ + r.0);
                }
            },
            Statement::Block { statements } => {
                self.emit_line("{");
                let saved = self.indent;
                self.inc_indent();
                self.emit_statements(statements, 0);
                self.set_indent(saved);
                self.emit_line("}");
                proof {
                    assert(self.output@ =~= old(self).output@ + r.0);
                }
            },
            Statement::DestructuringImport { names, source } => {
                self.push_indent();
                self.output.append("// { ");
                push_joined_names(&mut self.output, names, 0);
                self.output.append(" } = ");
                self.emit_expression(source);
                self.output.append("\n");
                proof {
                    assert(self.output@ =~= old(self).output@ + r.0);
                }
            },
            Statement::Defer { statement } => {
                self.emit_line("// defer {");
                let saved = self.indent;
                self.inc_indent();
                self.emit_statement(&**statement);
                self.set_indent(saved);
                self.emit_line("// }");
                proof {
                    assert(self.output@ =~= old(self).output@ + r.0);
                }
            },
            Statement::PointerAssignment { pointer, value } => {
                self.push_indent();
                self.emit_expression(pointer);
                self.output.append(" = ");
                self.emit_expression(value);
                self.output.append(";\n");
                proof {
                    assert(self.output@ =~= old(self).output@ + r.0);
                }
            },
            Statement::Other => {
                self.emit_line("// [unsupported statement]");
                proof {
                    assert(self.output@ =~= old(self).output@ + r.0);
                }
            },
        }
    }

    /// The statements of a list, in order, from position `i` on.
    pub fn emit_statements(&mut self, stmts: &Vec<Statement>, i: usize)
        ensures
            appended(*old(self), *final(self), spec_stmts_from(stmts@, i as int, ind_of(*old(self)), sc_of(*old(self)))),
        decreases stmts@, 0nat, stmts@.len() - i,
    {
        let ghost r = spec_stmts_from(stmts@, i as int, ind_of(*old(self)), sc_of(*old(self)));
        if i >= stmts.len() {
            proof {
                assert(self.output@ =~= old(self).output@ + r.0);
            }
            return ;
        }
        self.emit_statement(&stmts[i]);
        self.emit_statements(stmts, i + 1);
        proof {
            assert(self.output@ =~= old(self).output@ + r.0);
        }
    }

    /// A statement list whose final bare expression statement is promoted to
    /// an explicit return.
    pub fn emit_body(&mut self, stmts: &Vec<Statement>, i: usize)
        ensures
            appended(*old(self), *final(self), spec_body_from(stmts@, i as int, ind_of(*old(self)), sc_of(*old(self)))),
        decreases stmts@, 0nat, stmts@.len() - i,
    {
        let ghost r = spec_body_from(stmts@, i as int, ind_of(*old(self)), sc_of(*old(self)));
        if i >= stmts.len() {
            proof {
                assert(self.output@ =~= old(self).output@ + r.0);
            }
            return ;
        }
        if i + 1 == stmts.len() {
            match &stmts[i] {
                Statement::Expression { expr } => {
                    self.push_indent();
                    self.output.append("return ");
                    self.emit_expression(expr);
                    self.output.append(";\n");
                    proof {
                        assert(self.output@ =~= old(self).output@ + r.0);
                    }
                },
                _ => {
                    self.emit_statement(&stmts[i]);
                },
            }
        } else {
            self.emit_statement(&stmts[i]);
            self.emit_body(stmts, i + 1);
            proof {
                assert(self.output@ =~= old(self).output@ + r.0);
            }
        }
    }

    /// One expression, as one contiguous span of output text.
    pub fn emit_expression(&mut self, expr: &Expression)
        ensures
            appended(*old(self), *final(self), spec_expr(*expr, ind_of(*old(self)), sc_of(*old(self)))),
        decreases *expr, 1nat, 0int,
    {
        let ghost r = spec_expr(*expr, ind_of(*old(self)), sc_of(*old(self)));
        match expr {
            Expression::Integer8(v) => {
                push_int(&mut self.output, *v as i64);
            },
            Expression::Integer16(v) => {
                push_int(&mut self.output, *v as i64);
            },
            Expression::Integer32(v) => {
                push_int(&mut self.output, *v as i64);
            },
            Expression::Integer64(v) => {
                push_int(&mut self.output, *v);
                self.output.append("n");
                proof {
                    assert(self.output@ =~= old(self).output@ + r.0);
                }
            },
            Expression::Unsigned8(v) => {
                push_decimal(&mut self.output, *v as u64);
            },
            Expression::Unsigned16(v) => {
                push_decimal(&mut self.output, *v as u64);
            },
            Expression::Unsigned32(v) => {
                push_decimal(&mut self.output, *v as u64);
            },
            Expression::Unsigned64(v) => {
                push_decimal(&mut self.output, *v);
                self.output.append("n");
                proof {
                    assert(self.output@ =~= old(self).output@ + r.0);
                }
            },
            Expression::Float32(t) => {
                self.output.append(t.as_str());
            },
            Expression::Float64(t) => {
                self.output.append(t.as_str());
            },
            Expression::Boolean(v) => {
                self.output.append(if *v {
                    "true"
                } else {
                    "false"
                });
            },
            Expression::StringLiteral(s) => {
                self.output.append("\"");
                push_escaped(&mut self.output, s.as_str(), '"', 0);
                self.output.append("\"");
                proof {
                    assert(self.output@ =~= old(self).output@ + r.0);
                }
            },
            Expression::Identifier(name) => {
                push_mangled(&mut self.output, name.as_str(), 0);
            },
            Expression::Unit => {
                self.output.append("undefined");
            },
            Expression::NoneValue => {
                self.output.append("null");
            },
            Expression::SomeValue(inner) => {
                self.emit_expression(&**inner);
            },
            Expression::BinaryOp { left: _, op: _, right: _ } => {
                self.emit_compound(expr);
            },
            Expression::FunctionCall { name, args } => {
                self.emit_function_call(name.as_str(), args);
            },
            Expression::MethodCall { object: _, method: _, args: _ } => {
                self.emit_method_call(expr);
            },
            Expression::MemberAccess { object: _, member: _ } => {
                self.emit_compound(expr);
            },
            Expression::ArrayLiteral(_) => {
                self.emit_compound(expr);
            },
            Expression::ArrayIndex { array: _, index: _ } => {
                self.emit_compound(expr);
            },
            Expression::StructLiteral { name: _, fields: _ } => {
                self.emit_compound(expr);
            },
            Expression::StringInterpolation { parts: _ } => {
                self.emit_compound(expr);
            },
            Expression::QuestionMatch { scrutinee: _, arms: _ } => {
                self.emit_match(expr);
            },
            Expression::Closure { params: _, body: _ } => {
                self.emit_wrapped(expr);
            },
            Expression::Block(_) => {
                self.emit_wrapped(expr);
            },
            Expression::Return(inner) => {
                self.output.append("return ");
                self.emit_expression(&**inner);
                proof {
                    assert(self.output@ =~= old(self).output@ + r.0);
                }
            },
            Expression::EnumVariant { enum_name: _, variant: _, payload: _ } => {
                self.emit_enum_expr(expr);
            },
            Expression::EnumLiteral { variant: _, payload: _ } => {
                self.emit_enum_expr(expr);
            },
            Expression::Range { start: _, end: _, inclusive: _ } => {
                self.emit_sequence_expr(expr);
            },
            Expression::Loop { body: _ } => {
                self.emit_wrapped(expr);
            },
            Expression::CollectionLoop { collection: _, param: _, index_param: _, body: _ } => {
                self.emit_sequence_expr(expr);
            },
            Expression::Break => {
                self.output.append("break");
            },
            Expression::Continue => {
                self.output.append("continue");
            },
            Expression::Raise(inner) => {
                self.output.append("throw ");
                self.emit_expression(&**inner);
                proof {
                    assert(self.output@ =~= old(self).output@ + r.0);
                }
            },
            Expression::Comptime(inner) => {
                self.output.append("/* comptime */ ");
                self.emit_expression(&**inner);
                proof {
                    assert(self.output@ =~= old(self).output@ + r.0);
                }
            },
            Expression::StdReference => {
                self.output.append("globalThis.__std");
            },
            Expression::ThisReference => {
                self.output.append("this");
            },
            Expression::Other => {
                self.output.append("/* unsupported expression */");
            },
        }
    }

    /// The direct structural expression forms: operator applications, member
    /// and index access, array and struct literals, interpolated strings.
    #[verifier::rlimit(100)]
    #[verifier::spinoff_prover]
    pub fn emit_compound(&mut self, expr: &Expression)
        requires
            *expr matches Expression::BinaryOp { .. } || *expr matches Expression::MemberAccess {
                ..
            } || *expr matches Expression::ArrayLiteral(_) || *expr matches Expression::ArrayIndex {
                ..
            } || *expr matches Expression::StructLiteral { .. }
                || *expr matches Expression::StringInterpolation { .. },
        ensures
            appended(*old(self), *final(self), spec_expr(*expr, ind_of(*old(self)), sc_of(*old(self)))),
        decreases *expr, 0nat, 0int,
    {
        let ghost r = spec_expr(*expr, ind_of(*old(self)), sc_of(*old(self)));
        match expr {
            Expression::BinaryOp { left, op, right } => {
                self.output.append("(");
                self.emit_expression(&**left);
                let ghost t1 = self.output@;
                self.output.append(" ");
                let o = self.binary_op_to_js(op);
                self.output.append(o);
                self.output.append(" ");
                let ghost t2 = self.output@;
                proof {
                    assert(t2 =~= t1 + " "@ + spec_binop(*op) + " "@);
                }
                self.emit_expression(&**right);
                self.output.append(")");
                proof {
                    assert(self.output@ =~= old(self).output@ + r.0);
                }
            },
            Expression::MemberAccess { object, member } => {
                self.emit_expression(&**object);
                self.output.append(".");
                self.output.append(member.as_str());
                proof {
                    assert(self.output@ =~= old(self).output@ + r.0);
                }
            },
            Expression::ArrayLiteral(elements) => {
                self.output.append("[");
                self.emit_expressions(elements, 0);
                self.output.append("]");
                proof {
                    assert(self.output@ =~= old(self).output@ + r.0);
                }
            },
            Expression::ArrayIndex { array, index } => {
                self.emit_expression(&**array);
                self.output.append("[");
                self.emit_expression(&**index);
                self.output.append("]");
                proof {
                    assert(self.output@ =~= old(self).output@ + r.0);
                }
            },
            Expression::StructLiteral { name, fields } => {
                self.output.append("new ");
                self.output.append(name.as_str());
                self.output.append("(");
                self.emit_field_values(fields, 0);
                self.output.append(")");
                proof {
                    assert(self.output@ =~= old(self).output@ + r.0);
                }
            },
            Expression::StringInterpolation { parts } => {
                self.output.append("`");
                self.emit_parts(parts, 0);
                self.output.append("`");
                proof {
                    assert(self.output@ =~= old(self).output@ + r.0);
                }
            },
            _ => {
                proof {
                    assert(false);
                }
            },
        }
    }

    /// The forms wrapped in an anonymous callable: closures, blocks used as
    /// expressions, loops used as expressions.
    #[verifier::rlimit(100)]
    #[verifier::spinoff_prover]
    pub fn emit_wrapped(&mut self, expr: &Expression)
        requires
            *expr matches Expression::Closure { .. } || *expr matches Expression::Block(_)
                || *expr matches Expression::Loop { .. },
        ensures
            appended(*old(self), *final(self), spec_expr(*expr, ind_of(*old(self)), sc_of(*old(self)))),
        decreases *expr, 0nat, 0int,
    {
        let ghost r = spec_expr(*expr, ind_of(*old(self)), sc_of(*old(self)));
        match expr {
            Expression::Closure { params, body } => {
                self.output.append("(");
                push_param_names(&mut self.output, params, 0);
                self.output.append(") => ");
                self.emit_expression(&**body);
                proof {
                    assert(self.output@ =~= old(self).output@ + r.0);
                }
            },
            Expression::Block(stmts) => {
                self.output.append("(() => {\n");
                let saved = self.indent;
                self.inc_indent();
                self.emit_body(stmts, 0);
                self.set_indent(saved);
                self.push_indent();
                self.output.append("})()");
                proof {
                    assert(self.output@ =~= old(self).output@ + r.0);
                }
            },
            Expression::Loop { body } => {
                self.output.append("(() => { while (true) { ");
                self.emit_expression(&**body);
                self.output.append(" } })()");
                proof {
                    assert(self.output@ =~= old(self).output@ + r.0);
                }
            },
            _ => {
                proof {
                    assert(false);
                }
            },
        }
    }

    /// Enum-variant construction and pattern-derived enum literals: the
    /// tag-only or tag+payload record matching the declaration's chosen
    /// representation.
    #[verifier::rlimit(100)]
    #[verifier::spinoff_prover]
    pub fn emit_enum_expr(&mut self, expr: &Expression)
        requires
            *expr matches Expression::EnumVariant { .. } || *expr matches Expression::EnumLiteral {
                ..
            },
        ensures
            appended(*old(self), *final(self), spec_expr(*expr, ind_of(*old(self)), sc_of(*old(self)))),
        decreases *expr, 0nat, 0int,
    {
        let ghost r = spec_expr(*expr, ind_of(*old(self)), sc_of(*old(self)));
        match expr {
            Expression::EnumVariant { enum_name, variant, payload } => {
                match payload {
                    Option::Some(p) => {
                        self.output.append(enum_name.as_str());
                        self.output.append(".");
                        self.output.append(variant.as_str());
                        self.output.append("(");
                        self.emit_expression(&**p);
                        self.output.append(")");
                    },
                    Option::None => {
                        self.output.append(enum_name.as_str());
                        self.output.append(".");
                        self.output.append(variant.as_str());
                    },
                }
                proof {
                    assert(self.output@ =~= old(self).output@ + r.0);
                }
            },
            Expression::EnumLiteral { variant, payload } => {
                match payload {
                    Option::Some(p) => {
                        self.output.append("{ tag: \"");
                        self.output.append(variant.as_str());
                        self.output.append("\", value: ");
                        self.emit_expression(&**p);
                        self.output.append(" }");
                    },
                    Option::None => {
                        self.output.append("{ tag: \"");
                        self.output.append(variant.as_str());
                        self.output.append("\" }");
                    },
                }
                proof {
                    assert(self.output@ =~= old(self).output@ + r.0);
                }
            },
            _ => {
                proof {
                    assert(false);
                }
            },
        }
    }

    /// Ranges, eagerly materialized as finite index-mapped sequences, and
    /// collection iteration as a per-element callback invocation.
    #[verifier::rlimit(100)]
    #[verifier::spinoff_prover]
    pub fn emit_sequence_expr(&mut self, expr: &Expression)
        requires
            *expr matches Expression::Range { .. } || *expr matches Expression::CollectionLoop {
                ..
            },
        ensures
            appended(*old(self), *final(self), spec_expr(*expr, ind_of(*old(self)), sc_of(*old(self)))),
        decreases *expr, 0nat, 0int,
    {
        let ghost r = spec_expr(*expr, ind_of(*old(self)), sc_of(*old(self)));
        match expr {
            Expression::Range { start, end, inclusive } => {
                self.output.append("Array.from({ length: ");
                self.emit_expression(&**end);
                self.output.append(" - ");
                self.emit_expression(&**start);
                if *inclusive {
                    self.output.append(" + 1");
                }
                self.output.append(" }, (_, i) => ");
                self.emit_expression(&**start);
                self.output.append(" + i)");
                proof {
                    assert(self.output@ =~= old(self).output@ + r.0);
                }
            },
            Expression::CollectionLoop { collection, param, index_param, body } => {
                self.emit_expression(&**collection);
                match index_param {
                    Option::Some(ip) => {
                        self.output.append(".forEach((");
                        self.output.append(param.0.as_str());
                        self.output.append(", ");
                        self.output.append(ip.0.as_str());
                        self.output.append(") => ");
                    },
                    Option::None => {
                        self.output.append(".forEach((");
                        self.output.append(param.0.as_str());
                        self.output.append(") => ");
                    },
                }
                self.emit_expression(&**body);
                self.output.append(")");
                proof {
                    assert(self.output@ =~= old(self).output@ + r.0);
                }
            },
            _ => {
                proof {
                    assert(false);
                }
            },
        }
    }

    /// A method call: when the receiver is a bare identifier forming a
    /// recognized qualified standard-library name, the call is rewritten to
    /// the target runtime's native equivalent; otherwise an ordinary
    /// receiver-dot-method call is emitted.
    #[verifier::rlimit(100)]
    #[verifier::spinoff_prover]
    pub fn emit_method_call(&mut self, expr: &Expression)
        requires
            *expr matches Expression::MethodCall { .. },
        ensures
            appended(*old(self), *final(self), spec_expr(*expr, ind_of(*old(self)), sc_of(*old(self)))),
        decreases *expr, 0nat, 0int,
    {
        let ghost r = spec_expr(*expr, ind_of(*old(self)), sc_of(*old(self)));
        let ghost ind0 = ind_of(*old(self));
        let ghost sc0 = sc_of(*old(self));
        match expr {
            Expression::MethodCall { object, method, args } => {
                match &**object {
                    Expression::Identifier(obj_name) => {
                        let mut q = String::new();
                        q.append(obj_name.as_str());
                        q.append(".");
                        q.append(method.as_str());
                        proof {
                            assert(q@ =~= obj_name@ + "."@ + method@);
                        }
                        if str_eq(q.as_str(), "io.println") {
                            self.output.append("console.log(");
                            let ghost t1 = self.output@;
                            self.emit_expressions(args, 0);
                            let ghost t2 = self.output@;
                            self.output.append(")");
                            proof {
                                assert(t2 == t1 + spec_exprs_from(args@, 0, ind0, sc0).0);
                                assert(self.output@ =~= old(self).output@ + r.0);
                            }
                        } else if str_eq(q.as_str(), "io.print") {
                            self.output.append("process.stdout.write(String(");
                            let ghost t1 = self.output@;
                            if args.len() > 0 {
                                self.emit_expression(&args[0]);
                            }
                            let ghost t2 = self.output@;
                            self.output.append("))");
                            proof {
                                assert(t2 =~= t1 + spec_first_arg(args@, ind0, sc0).0);
                                assert(self.output@ =~= old(self).output@ + r.0);
                            }
                        } else if str_eq(q.as_str(), "io.read_line") {
                            self.output.append("prompt(\"\")");
                            proof {
                                assert(self.output@ =~= old(self).output@ + r.0);
                            }
                        } else if str_eq(q.as_str(), "JSON.parse") || str_eq(
                            q.as_str(),
                            "JSON.stringify",
                        ) || str_eq(q.as_str(), "document.getElementById") || str_eq(
                            q.as_str(),
                            "document.createElement",
                        ) || str_eq(q.as_str(), "document.querySelector") || str_eq(
                            q.as_str(),
                            "document.querySelectorAll",
                        ) {
                            self.output.append(q.as_str());
                            self.output.append("(");
                            let ghost t1 = self.output@;
                            proof {
                                assert(t1 =~= old(self).output@ + q@ + "("@);
                            }
                            if args.len() > 0 {
                                self.emit_expression(&args[0]);
                            }
                            let ghost t2 = self.output@;
                            self.output.append(")");
                            proof {
                                assert(t2 =~= t1 + spec_first_arg(args@, ind0, sc0).0);
                                assert(self.output@ =~= old(self).output@ + r.0);
                            }
                        } else if str_eq(q.as_str(), "Math.floor") || str_eq(q.as_str(), "Math.ceil")
                            || str_eq(q.as_str(), "Math.round") || str_eq(q.as_str(), "Math.random")
                            || str_eq(q.as_str(), "Math.min") || str_eq(q.as_str(), "Math.max")
                            || str_eq(q.as_str(), "Math.abs") || str_eq(q.as_str(), "Math.sqrt")
                            || str_eq(q.as_str(), "Math.pow") {
                            self.output.append(q.as_str());
                            self.output.append("(");
                            let ghost t1 = self.output@;
                            proof {
                                assert(t1 =~= old(self).output@ + q@ + "("@);
                            }
                            self.emit_expressions(args, 0);
                            let ghost t2 = self.output@;
                            self.output.append(")");
                            proof {
                                assert(t2 == t1 + spec_exprs_from(args@, 0, ind0, sc0).0);
                                assert(self.output@ =~= old(self).output@ + r.0);
                            }
                        } else {
                            self.emit_expression(&**object);
                            let ghost t1 = self.output@;
                            self.output.append(".");
                            self.output.append(method.as_str());
                            self.output.append("(");
                            let ghost t2 = self.output@;
                            proof {
                                assert(t2 =~= t1 + "."@ + method@ + "("@);
                            }
                            self.emit_expressions(args, 0);
                            self.output.append(")");
                            proof {
                                assert(self.output@ =~= old(self).output@ + r.0);
                            }
                        }
                    },
                    _ => {
                        self.emit_expression(&**object);
                        let ghost t1 = self.output@;
                        self.output.append(".");
                        self.output.append(method.as_str());
                        self.output.append("(");
                        let ghost t2 = self.output@;
                        proof {
                            assert(t2 =~= t1 + "."@ + method@ + "("@);
                        }
                        self.emit_expressions(args, 0);
                        self.output.append(")");
                        proof {
                            assert(self.output@ =~= old(self).output@ + r.0);
                        }
                    },
                }
            },
            _ => {
                proof {
                    assert(false);
                }
            },
        }
    }

    /// The expressions of a list, comma-separated, from position `i` on.
    pub fn emit_expressions(&mut self, es: &Vec<Expression>, i: usize)
        ensures
            appended(*old(self), *final(self), spec_exprs_from(es@, i as int, ind_of(*old(self)), sc_of(*old(self)))),
        decreases es@, 0nat, es@.len() - i,
    {
        let ghost r = spec_exprs_from(es@, i as int, ind_of(*old(self)), sc_of(*old(self)));
        if i >= es.len() {
            proof {
                assert(self.output@ =~= old(self).output@ + r.0);
            }
            return ;
        }
        self.emit_expression(&es[i]);
        if i + 1 < es.len() {
            self.output.append(", ");
            self.emit_expressions(es, i + 1);
            proof {
                assert(self.output@ =~= old(self).output@ + r.0);
            }
        }
    }

    /// The field values of a struct literal, in declaration order.
    pub fn emit_field_values(&mut self, fields: &Vec<(String, Expression)>, i: usize)
        ensures
            appended(*old(self), *final(self), spec_field_values_from(fields@, i as int, ind_of(*old(self)), sc_of(*old(self)))),
        decreases fields@, 0nat, fields@.len() - i,
    {
        let ghost r = spec_field_values_from(fields@, i as int, ind_of(*old(self)), sc_of(*old(self)));
        if i >= fields.len() {
            proof {
                assert(self.output@ =~= old(self).output@ + r.0);
            }
            return ;
        }
        self.emit_expression(&fields[i].1);
        if i + 1 < fields.len() {
            self.output.append(", ");
            self.emit_field_values(fields, i + 1);
            proof {
                assert(self.output@ =~= old(self).output@ + r.0);
            }
        }
    }

    /// The spans of an interpolated string, literal text alternating with
    /// embedded expressions, in source order.
    pub fn emit_parts(&mut self, parts: &Vec<StringPart>, i: usize)
        ensures
            appended(*old(self), *final(self), spec_parts_from(parts@, i as int, ind_of(*old(self)), sc_of(*old(self)))),
        decreases parts@, 0nat, parts@.len() - i,
    {
        let ghost r = spec_parts_from(parts@, i as int, ind_of(*old(self)), sc_of(*old(self)));
        if i >= parts.len() {
            proof {
                assert(self.output@ =~= old(self).output@ + r.0);
            }
            return ;
        }
        match &parts[i] {
            StringPart::Literal(s) => {
                push_escaped(&mut self.output, s.as_str(), '`', 0);
            },
            StringPart::Interpolation(e) => {
                self.output.append("${");
                self.emit_expression(e);
                self.output.append("}");
            },
        }
        self.emit_parts(parts, i + 1);
        proof {
            assert(self.output@ =~= old(self).output@ + r.0);
        }
    }

    /// A qualified standard-library call is rewritten to its native
    /// equivalent; a `cast` pseudo-call is erased; anything else becomes an
    /// ordinary call under a flattened name, arguments left to right.
    pub fn emit_function_call(&mut self, name: &str, args: &Vec<Expression>)
        ensures
            appended(*old(self), *final(self), spec_call(name@, args@, ind_of(*old(self)), sc_of(*old(self)))),
        decreases args@, 2nat, 0int,
    {
        let ghost r = spec_call(name@, args@, ind_of(*old(self)), sc_of(*old(self)));
        if str_eq(name, "io.println") || str_eq(name, "println") {
            self.output.append("console.log(");
            self.emit_expressions(args, 0);
            self.output.append(")");
        } else if str_eq(name, "io.print") || str_eq(name, "print") {
            self.output.append("process.stdout.write(");
            if args.len() > 0 {
                self.emit_expression(&args[0]);
            }
            self.output.append(")");
        } else if str_eq(name, "cast") {
            if args.len() > 0 {
                self.emit_expression(&args[0]);
            }
        } else {
            push_mangled(&mut self.output, name, 0);
            self.output.append("(");
            self.emit_expressions(args, 0);
            self.output.append(")");
        }
        proof {
            assert(self.output@ =~= old(self).output@ + r.0);
        }
    }

    /// A pattern match, lowered to an immediately-invoked single-parameter
    /// function over an if/else-if chain, one branch per arm, first match
    /// wins; no terminal branch follows the last arm.
    #[verifier::rlimit(100)]
    #[verifier::spinoff_prover]
    pub fn emit_match(&mut self, expr: &Expression)
        requires
            *expr matches Expression::QuestionMatch { .. },
        ensures
            appended(*old(self), *final(self), spec_expr(*expr, ind_of(*old(self)), sc_of(*old(self)))),
        decreases *expr, 0nat, 0int,
    {
        let ghost r = spec_expr(*expr, ind_of(*old(self)), sc_of(*old(self)));
        match expr {
            Expression::QuestionMatch { scrutinee, arms } => {
                self.output.append("((__match) => {\n");
                let saved = self.indent;
                self.inc_indent();
                self.emit_arms(arms, 0, true);
                self.emit_line("}");
                self.set_indent(saved);
                self.push_indent();
                self.output.append("})(");
                self.emit_expression(&**scrutinee);
                self.output.append(")");
                proof {
                    assert(self.output@ =~= old(self).output@ + r.0);
                }
            },
            _ => {
                proof {
                    assert(false);
                }
            },
        }
    }

    /// The branches of a match, from arm `i` on.
    #[verifier::rlimit(100)]
    #[verifier::spinoff_prover]
    pub fn emit_arms(&mut self, arms: &Vec<MatchArm>, i: usize, first: bool)
        ensures
            appended(*old(self), *final(self), spec_arms_from(arms@, i as int, first, ind_of(*old(self)), sc_of(*old(self)))),
        decreases arms@, 0nat, arms@.len() - i,
    {
        let ghost r = spec_arms_from(arms@, i as int, first, ind_of(*old(self)), sc_of(*old(self)));
        let ghost ind0 = ind_of(*old(self));
        let ghost sc0 = sc_of(*old(self));
        if i >= arms.len() {
            proof {
                assert(self.output@ =~= old(self).output@ + r.0);
            }
            return ;
        }
        self.push_indent();
        self.output.append(if first {
            "if ("
        } else {
            "} else if ("
        });
        let ghost t1 = self.output@;
        proof {
            assert(t1 =~= old(self).output@ + (spec_indentation(ind0) + (if first {
                "if ("@
            } else {
                "} else if ("@
            })));
        }
        self.emit_pattern_condition("__match", &arms[i].pattern);
        let ghost cpair = spec_pattern_cond("__match"@, arms@[i as int].pattern, ind0, sc0);
        let ghost t2 = self.output@;
        match &arms[i].guard {
            Option::Some(g) => {
                self.output.append(" && (");
                self.emit_expression(g);
                self.output.append(")");
                proof {
                    assert(self.output@ =~= t2 + (" && ("@ + spec_expr(
                        arms@[i as int].guard->0,
                        ind0,
                        cpair.1,
                    ).0 + ")"@));
                }
            },
            Option::None => {},
        }
        let ghost t3 = self.output@;
        self.output.append(") {\n");
        let saved = self.indent;
        self.inc_indent();
        self.emit_pattern_bindings("__match", &arms[i].pattern);
        self.push_indent();
        self.output.append("return ");
        let ghost t4 = self.output@;
        proof {
            assert(t4 =~= t3 + ") {\n"@ + spec_pattern_bindings(
                "__match"@,
                arms@[i as int].pattern,
                spec_inc(ind0),
            ) + spec_indentation(spec_inc(ind0)) + "return "@);
        }
        self.emit_expression(&arms[i].body);
        self.output.append(";\n");
        self.set_indent(saved);
        self.emit_arms(arms, i + 1, false);
        proof {
            assert(self.output@ =~= old(self).output@ + r.0);
        }
    }

    /// The condition under which `var` matches the pattern.
    #[verifier::rlimit(100)]
    #[verifier::spinoff_prover]
    pub fn emit_pattern_condition(&mut self, var: &str, pattern: &Pattern)
        ensures
            appended(*old(self), *final(self), spec_pattern_cond(var@, *pattern, ind_of(*old(self)), sc_of(*old(self)))),
        decreases *pattern, 1nat, 0int,
    {
        let ghost r = spec_pattern_cond(var@, *pattern, ind_of(*old(self)), sc_of(*old(self)));
        match pattern {
            Pattern::Wildcard => {
                self.output.append("true");
            },
            Pattern::Literal(e) => {
                self.output.append(var);
                self.output.append(" === ");
                self.emit_expression(e);
                proof {
                    assert(self.output@ =~= old(self).output@ + r.0);
                }
            },
            Pattern::Identifier(_) => {
                self.output.append("true");
            },
            Pattern::EnumLiteral { variant, payload: _ } => {
                self.output.append(var);
                self.output.append(".tag === \"");
                self.output.append(variant.as_str());
                self.output.append("\"");
                proof {
                    assert(self.output@ =~= old(self).output@ + r.0);
                }
            },
            Pattern::EnumVariant { enum_name: _, variant } => {
                self.output.append(var);
                self.output.append(".tag === \"");
                self.output.append(variant.as_str());
                self.output.append("\"");
                proof {
                    assert(self.output@ =~= old(self).output@ + r.0);
                }
            },
            Pattern::Type { ty_name } => {
                if str_eq(ty_name.as_str(), "true") {
                    self.output.append(var);
                    self.output.append(" === true");
                    proof {
                        assert(self.output@ =~= old(self).output@ + r.0);
                    }
                } else if str_eq(ty_name.as_str(), "false") {
                    self.output.append(var);
                    self.output.append(" === false");
                    proof {
                        assert(self.output@ =~= old(self).output@ + r.0);
                    }
                } else {
                    self.output.append("typeof ");
                    self.output.append(var);
                    self.output.append(" === \"");
                    let t = self.type_name_to_js_typeof(ty_name.as_str());
                    self.output.append(t);
                    self.output.append("\"");
                    proof {
                        assert(self.output@ =~= old(self).output@ + r.0);
                    }
                }
            },
            Pattern::Or(patterns) => {
                self.output.append("(");
                self.emit_pattern_conditions(var, patterns, 0);
                self.output.append(")");
                proof {
                    assert(self.output@ =~= old(self).output@ + r.0);
                }
            },
            Pattern::Range { start, end, inclusive } => {
                self.output.append("(");
                self.output.append(var);
                self.output.append(" >= ");
                let ghost t1 = self.output@;
                proof {
                    assert(t1 =~= old(self).output@ + ("("@ + var@ + " >= "@));
                }
                self.emit_expression(start);
                let ghost t2 = self.output@;
                if *inclusive {
                    self.output.append(" && ");
                    self.output.append(var);
                    self.output.append(" <= ");
                    proof {
                        assert(self.output@ =~= t2 + (" && "@ + var@ + " <= "@));
                    }
                } else {
                    self.output.append(" && ");
                    self.output.append(var);
                    self.output.append(" < ");
                    proof {
                        assert(self.output@ =~= t2 + (" && "@ + var@ + " < "@));
                    }
                }
                self.emit_expression(end);
                self.output.append(")");
                proof {
                    assert(self.output@ =~= old(self).output@ + r.0);
                }
            },
            Pattern::Other => {
                self.output.append("true /* unsupported pattern */");
            },
        }
    }

    /// The sub-conditions of an or-pattern, joined by logical OR.
    pub fn emit_pattern_conditions(&mut self, var: &str, ps: &Vec<Pattern>, i: usize)
        ensures
            appended(*old(self), *final(self), spec_pattern_conds_from(var@, ps@, i as int, ind_of(*old(self)), sc_of(*old(self)))),
        decreases ps@, 0nat, ps@.len() - i,
    {
        let ghost r = spec_pattern_conds_from(var@, ps@, i as int, ind_of(*old(self)), sc_of(*old(self)));
        if i >= ps.len() {
            proof {
                assert(self.output@ =~= old(self).output@ + r.0);
            }
            return ;
        }
        self.emit_pattern_condition(var, &ps[i]);
        if i + 1 < ps.len() {
            self.output.append(" || ");
            self.emit_pattern_conditions(var, ps, i + 1);
            proof {
                assert(self.output@ =~= old(self).output@ + r.0);
            }
        }
    }

    /// The alias bindings a pattern emits at the top of a matching branch; a
    /// payload-bearing pattern recurses against the payload field.
    pub fn emit_pattern_bindings(&mut self, var: &str, pattern: &Pattern)
        ensures
            final(self).indent == old(self).indent,
            final(self).output@ == old(self).output@ + spec_pattern_bindings(var@, *pattern, ind_of(*old(self))),
            final(self).declared_vars == old(self).declared_vars,
        decreases *pattern,
    {
        let ghost r = spec_pattern_bindings(var@, *pattern, ind_of(*old(self)));
        match pattern {
            Pattern::Identifier(name) => {
                self.push_indent();
                self.output.append("const ");
                self.output.append(name.as_str());
                self.output.append(" = ");
                self.output.append(var);
                self.output.append(";");
                self.output.append("\n");
                proof {
                    assert(self.output@ =~= old(self).output@ + r);
                }
            },
            Pattern::EnumLiteral { variant: _, payload } => {
                match payload {
                    Option::Some(inner) => {
                        let mut q = var.to_owned();
                        q.append(".value");
                        self.emit_pattern_bindings(q.as_str(), &**inner);
                        proof {
                            assert(self.output@ =~= old(self).output@ + r);
                        }
                    },
                    Option::None => {},
                }
            },
            _ => {},
        }
    }
}

} // verus!

verus! {

impl JsEmitter {
    /// One documentation line per parameter, with its runtime-type tag.
    pub fn emit_jsdoc_params(&mut self, args: &Vec<(String, AstType)>, i: usize)
        ensures
            final(self).indent == old(self).indent,
            final(self).output@ == old(self).output@ + spec_jsdoc_params_from(args@, i as int, ind_of(*old(self))),
            final(self).declared_vars == old(self).declared_vars,
        decreases args@.len() - i,
    {
        let ghost r = spec_jsdoc_params_from(args@, i as int, ind_of(*old(self)));
        if i >= args.len() {
            proof {
                assert(self.output@ =~= old(self).output@ + r);
            }
            return ;
        }
        self.push_indent();
        self.output.append(" * @param {");
        push_jsdoc(&mut self.output, &args[i].1);
        self.output.append("} ");
        self.output.append(args[i].0.as_str());
        self.output.append("\n");
        self.emit_jsdoc_params(args, i + 1);
        proof {
            assert(self.output@ =~= old(self).output@ + r);
        }
    }

    /// Pre-declares every parameter name into the innermost scope, so a body
    /// cannot re-declare a parameter as a fresh binding.
    pub fn declare_params(&mut self, args: &Vec<(String, AstType)>, i: usize)
        ensures
            final(self).indent == old(self).indent,
            final(self).output == old(self).output,
            sc_of(*final(self)) == spec_declare_params(sc_of(*old(self)), args@, i as int),
        decreases args@.len() - i,
    {
        if i >= args.len() {
            return ;
        }
        self.declare_var(args[i].0.as_str());
        self.declare_params(args, i + 1);
    }

    /// A function declaration: documentation block, header with mangled name
    /// and type-erased parameters, re-scoped body with the final bare
    /// expression promoted to a return, closing brace.
    #[verifier::rlimit(100)]
    #[verifier::spinoff_prover]
    pub fn emit_function(&mut self, f: &Function)
        ensures
            appended(*old(self), *final(self), spec_function(*f, ind_of(*old(self)), sc_of(*old(self)))),
    {
        let ghost r = spec_function(*f, ind_of(*old(self)), sc_of(*old(self)));
        let ghost ind0 = ind_of(*old(self));
        if f.args.len() > 0 || !is_void(&f.return_type) {
            self.push_indent();
            self.output.append("/**\n");
            self.emit_jsdoc_params(&f.args, 0);
            if !is_void(&f.return_type) {
                self.push_indent();
                self.output.append(" * @returns {");
                push_jsdoc(&mut self.output, &f.return_type);
                self.output.append("}\n");
                proof {
                    assert(self.output@ =~= old(self).output@ + (spec_indentation(ind0) + "/**\n"@
                        + spec_jsdoc_params_from(f.args@, 0, ind0) + (spec_indentation(ind0)
                        + " * @returns {"@ + spec_jsdoc(f.return_type) + "}\n"@)));
                }
            }
            self.push_indent();
            self.output.append(" */\n");
        }
        let ghost t1 = self.output@;
        self.push_indent();
        self.output.append("function ");
        push_mangled(&mut self.output, f.name.as_str(), 0);
        self.output.append("(");
        push_param_names(&mut self.output, &f.args, 0);
        self.output.append(") {\n");
        let ghost t2 = self.output@;
        proof {
            assert(t2 =~= t1 + (spec_indentation(ind0) + "function "@ + spec_mangled(f.name@, 0)
                + "("@ + spec_param_names(f.args@, 0) + ") {\n"@));
        }
        self.push_scope();
        self.declare_params(&f.args, 0);
        let saved = self.indent;
        self.inc_indent();
        self.emit_body(&f.body, 0);
        self.set_indent(saved);
        self.pop_scope();
        self.emit_line("}");
        proof {
            assert(self.output@ =~= old(self).output@ + r.0);
        }
    }

    /// One field assignment per constructor parameter, in declaration order.
    pub fn emit_ctor_fields(&mut self, fields: &Vec<StructField>, i: usize)
        ensures
            appended(*old(self), *final(self), spec_ctor_fields_from(fields@, i as int, ind_of(*old(self)), sc_of(*old(self)))),
        decreases fields@.len() - i,
    {
        let ghost r = spec_ctor_fields_from(fields@, i as int, ind_of(*old(self)), sc_of(*old(self)));
        if i >= fields.len() {
            proof {
                assert(self.output@ =~= old(self).output@ + r.0);
            }
            return ;
        }
        match &fields[i].default_value {
            Option::Some(d) => {
                self.push_indent();
                self.output.append("this.");
                self.output.append(fields[i].name.as_str());
                self.output.append(" = ");
                self.output.append(fields[i].name.as_str());
                self.output.append(" ?? ");
                self.emit_expression(d);
                self.output.append(";\n");
            },
            Option::None => {
                self.push_indent();
                self.output.append("this.");
                self.output.append(fields[i].name.as_str());
                self.output.append(" = ");
                self.output.append(fields[i].name.as_str());
                self.output.append(";");
                self.output.append("\n");
            },
        }
        self.emit_ctor_fields(fields, i + 1);
        proof {
            assert(self.output@ =~= old(self).output@ + r.0);
        }
    }

    /// The instance operations of a struct, `self`-shaped parameters elided.
    #[verifier::rlimit(100)]
    pub fn emit_struct_methods(&mut self, methods: &Vec<Function>, i: usize)
        ensures
            appended(*old(self), *final(self), spec_struct_methods_from(methods@, i as int, ind_of(*old(self)), sc_of(*old(self)))),
        decreases methods@.len() - i,
    {
        let ghost r = spec_struct_methods_from(methods@, i as int, ind_of(*old(self)), sc_of(*old(self)));
        if i >= methods.len() {
            proof {
                assert(self.output@ =~= old(self).output@ + r.0);
            }
            return ;
        }
        self.emit_newline();
        self.push_indent();
        self.output.append(methods[i].name.as_str());
        self.output.append("(");
        push_param_names_no_self(&mut self.output, &methods[i].args, 0, true);
        self.output.append(") {\n");
        let saved = self.indent;
        self.inc_indent();
        self.emit_statements(&methods[i].body, 0);
        self.set_indent(saved);
        self.emit_line("}");
        self.emit_struct_methods(methods, i + 1);
        proof {
            assert(self.output@ =~= old(self).output@ + r.0);
        }
    }

    /// A struct declaration: a constructor-bearing record type.
    #[verifier::rlimit(100)]
    #[verifier::spinoff_prover]
    pub fn emit_struct(&mut self, s: &StructDefinition)
        ensures
            appended(*old(self), *final(self), spec_struct(*s, ind_of(*old(self)), sc_of(*old(self)))),
    {
        let ghost r = spec_struct(*s, ind_of(*old(self)), sc_of(*old(self)));
        let ghost ind0 = ind_of(*old(self));
        self.push_indent();
        self.output.append("class ");
        self.output.append(s.name.as_str());
        self.output.append(" {");
        self.output.append("\n");
        let saved = self.indent;
        self.inc_indent();
        self.push_indent();
        self.output.append("constructor(");
        push_field_names(&mut self.output, &s.fields, 0);
        self.output.append(") {\n");
        let ghost t1 = self.output@;
        proof {
            assert(t1 =~= old(self).output@ + (spec_indentation(ind0) + "class "@ + s.name@
                + " {"@ + "\n"@ + spec_indentation(spec_inc(ind0)) + "constructor("@
                + spec_field_names(s.fields@, 0) + ") {\n"@));
        }
        let saved1 = self.indent;
        self.inc_indent();
        self.emit_ctor_fields(&s.fields, 0);
        self.set_indent(saved1);
        self.emit_line("}");
        self.emit_struct_methods(&s.methods, 0);
        self.set_indent(saved);
        self.emit_line("}");
        proof {
            assert(self.output@ =~= old(self).output@ + r.0);
        }
    }

    /// One frozen-table line per variant.
    pub fn emit_variant_lines(&mut self, vs: &Vec<EnumVariantDefinition>, i: usize)
        ensures
            final(self).indent == old(self).indent,
            final(self).output@ == old(self).output@ + spec_variants_from(vs@, i as int, ind_of(*old(self))),
            final(self).declared_vars == old(self).declared_vars,
        decreases vs@.len() - i,
    {
        let ghost r = spec_variants_from(vs@, i as int, ind_of(*old(self)));
        if i >= vs.len() {
            proof {
                assert(self.output@ =~= old(self).output@ + r);
            }
            return ;
        }
        match &vs[i].payload {
            Option::None => {
                self.push_indent();
                self.output.append(vs[i].name.as_str());
                self.output.append(": Object.freeze({ tag: \"");
                self.output.append(vs[i].name.as_str());
                self.output.append("\" }),");
                self.output.append("\n");
            },
            Option::Some(_) => {
                self.push_indent();
                self.output.append(vs[i].name.as_str());
                self.output.append(": (value) => Object.freeze({ tag: \"");
                self.output.append(vs[i].name.as_str());
                self.output.append("\", value }),");
                self.output.append("\n");
            },
        }
        self.emit_variant_lines(vs, i + 1);
        proof {
            assert(self.output@ =~= old(self).output@ + r);
        }
    }

    /// The methods of an enum, emitted as free functions taking all declared
    /// parameters explicitly.
    #[verifier::rlimit(100)]
    pub fn emit_enum_methods(&mut self, methods: &Vec<Function>, i: usize, enum_name: &str)
        ensures
            appended(*old(self), *final(self), spec_enum_methods_from(methods@, i as int, enum_name@, ind_of(*old(self)), sc_of(*old(self)))),
        decreases methods@.len() - i,
    {
        let ghost r = spec_enum_methods_from(methods@, i as int, enum_name@, ind_of(*old(self)), sc_of(*old(self)));
        if i >= methods.len() {
            proof {
                assert(self.output@ =~= old(self).output@ + r.0);
            }
            return ;
        }
        self.emit_newline();
        self.push_indent();
        self.output.append("function ");
        self.output.append(enum_name);
        self.output.append("__");
        self.output.append(methods[i].name.as_str());
        self.output.append("(");
        push_param_names(&mut self.output, &methods[i].args, 0);
        self.output.append(") {\n");
        let saved = self.indent;
        self.inc_indent();
        self.emit_statements(&methods[i].body, 0);
        self.set_indent(saved);
        self.emit_line("}");
        self.emit_enum_methods(methods, i + 1, enum_name);
        proof {
            assert(self.output@ =~= old(self).output@ + r.0);
        }
    }

    /// An enum declaration: a frozen record mapping each variant name to its
    /// marker or constructor.
    #[verifier::rlimit(100)]
    #[verifier::spinoff_prover]
    pub fn emit_enum(&mut self, e: &EnumDefinition)
        ensures
            appended(*old(self), *final(self), spec_enum(*e, ind_of(*old(self)), sc_of(*old(self)))),
    {
        let ghost r = spec_enum(*e, ind_of(*old(self)), sc_of(*old(self)));
        let ghost ind0 = ind_of(*old(self));
        self.push_indent();
        self.output.append("// enum ");
        self.output.append(e.name.as_str());
        self.output.append("\n");
        self.push_indent();
        self.output.append("const ");
        self.output.append(e.name.as_str());
        self.output.append(" = Object.freeze({");
        self.output.append("\n");
        let ghost t1 = self.output@;
        proof {
            assert(t1 =~= old(self).output@ + (spec_indentation(ind0) + "// enum "@ + e.name@
                + "\n"@ + spec_indentation(ind0) + "const "@ + e.name@ + " = Object.freeze({"@
                + "\n"@));
        }
        let saved = self.indent;
        self.inc_indent();
        self.emit_variant_lines(&e.variants, 0);
        self.set_indent(saved);
        self.emit_line("});");
        self.emit_enum_methods(&e.methods, 0, e.name.as_str());
        proof {
            assert(self.output@ =~= old(self).output@ + r.0);
        }
    }

    /// The methods of an impl block, attached to the named type's shared
    /// method table.
    #[verifier::rlimit(100)]
    pub fn emit_impl_methods(&mut self, methods: &Vec<Function>, i: usize, ty: &str)
        ensures
            appended(*old(self), *final(self), spec_impl_methods_from(methods@, i as int, ty@, ind_of(*old(self)), sc_of(*old(self)))),
        decreases methods@.len() - i,
    {
        let ghost r = spec_impl_methods_from(methods@, i as int, ty@, ind_of(*old(self)), sc_of(*old(self)));
        if i >= methods.len() {
            proof {
                assert(self.output@ =~= old(self).output@ + r.0);
            }
            return ;
        }
        self.push_indent();
        self.output.append(ty);
        self.output.append(".prototype.");
        self.output.append(methods[i].name.as_str());
        self.output.append(" = function(");
        push_param_names_no_self(&mut self.output, &methods[i].args, 0, true);
        self.output.append(") {");
        self.output.append("\n");
        let saved = self.indent;
        self.inc_indent();
        self.emit_statements(&methods[i].body, 0);
        self.set_indent(saved);
        self.emit_line("};");
        self.emit_newline();
        self.emit_impl_methods(methods, i + 1, ty);
        proof {
            assert(self.output@ =~= old(self).output@ + r.0);
        }
    }

    /// One declaration, lowered by its kind; an unrecognized kind degrades to
    /// a marked comment and emission continues.
    #[verifier::rlimit(100)]
    #[verifier::spinoff_prover]
    pub fn emit_declaration(&mut self, decl: &Declaration)
        ensures
            appended(*old(self), *final(self), spec_decl(*decl, ind_of(*old(self)), sc_of(*old(self)))),
    {
        let ghost r = spec_decl(*decl, ind_of(*old(self)), sc_of(*old(self)));
        match decl {
            Declaration::Function(f) => {
                self.emit_function(f);
            },
            Declaration::Struct(s) => {
                self.emit_struct(s);
            },
            Declaration::Enum(e) => {
                self.emit_enum(e);
            },
            Declaration::Constant { name, value } => {
                self.push_indent();
                self.output.append("const ");
                self.output.append(name.as_str());
                self.output.append(" = ");
                self.emit_expression(value);
                self.output.append(";\n");
                proof {
                    assert(self.output@ =~= old(self).output@ + r.0);
                }
            },
            Declaration::TypeAlias(ta) => {
                self.push_indent();
                self.output.append("/** @typedef {");
                push_jsdoc(&mut self.output, &ta.target_type);
                self.output.append("} ");
                self.output.append(ta.name.as_str());
                self.output.append(" */");
                self.output.append("\n");
                proof {
                    assert(self.output@ =~= old(self).output@ + r.0);
                }
            },
            Declaration::ImplBlock(imp) => {
                self.push_indent();
                self.output.append("// impl ");
                self.output.append(imp.ty_name.as_str());
                self.output.append(" {");
                self.output.append("\n");
                self.emit_impl_methods(&imp.methods, 0, imp.ty_name.as_str());
                self.emit_line("// }");
                proof {
                    assert(self.output@ =~= old(self).output@ + r.0);
                }
            },
            Declaration::Export { symbols } => {
                self.push_indent();
                self.output.append("export { ");
                push_joined_names(&mut self.output, symbols, 0);
                self.output.append(" };");
                self.output.append("\n");
                proof {
                    assert(self.output@ =~= old(self).output@ + r.0);
                }
            },
            Declaration::ModuleImport { alias: _, origin: _ } => {
                proof {
                    assert(self.output@ =~= old(self).output@ + r.0);
                }
            },
            Declaration::ComptimeBlock(_) => {
                self.emit_line("// [comptime block elided]");
                proof {
                    assert(self.output@ =~= old(self).output@ + r.0);
                }
            },
            Declaration::Other => {
                self.emit_line("// [unsupported declaration]");
                proof {
                    assert(self.output@ =~= old(self).output@ + r.0);
                }
            },
        }
    }

    /// All declarations in order, one blank line after each.
    pub fn emit_declarations(&mut self, ds: &Vec<Declaration>, i: usize)
        ensures
            appended(*old(self), *final(self), spec_decls_from(ds@, i as int, ind_of(*old(self)), sc_of(*old(self)))),
        decreases ds@.len() - i,
    {
        let ghost r = spec_decls_from(ds@, i as int, ind_of(*old(self)), sc_of(*old(self)));
        if i >= ds.len() {
            proof {
                assert(self.output@ =~= old(self).output@ + r.0);
            }
            return ;
        }
        self.emit_declaration(&ds[i]);
        self.emit_newline();
        self.emit_declarations(ds, i + 1);
        proof {
            assert(self.output@ =~= old(self).output@ + r.0);
        }
    }

    /// The informational comment surfaced once per module import.
    pub fn emit_import_comments(&mut self, ds: &Vec<Declaration>, i: usize)
        ensures
            final(self).indent == old(self).indent,
            final(self).output@ == old(self).output@ + spec_imports_from(ds@, i as int, ind_of(*old(self))),
            final(self).declared_vars == old(self).declared_vars,
        decreases ds@.len() - i,
    {
        let ghost r = spec_imports_from(ds@, i as int, ind_of(*old(self)));
        if i >= ds.len() {
            proof {
                assert(self.output@ =~= old(self).output@ + r);
            }
            return ;
        }
        match &ds[i] {
            Declaration::ModuleImport { alias, origin } => {
                self.push_indent();
                self.output.append("// import ");
                self.output.append(alias.as_str());
                self.output.append(" from \"");
                self.output.append(origin.as_str());
                self.output.append("\";");
                self.output.append("\n");
            },
            _ => {},
        }
        self.emit_import_comments(ds, i + 1);
        proof {
            assert(self.output@ =~= old(self).output@ + r);
        }
    }

    /// One whole program, emitted into a fresh buffer: import comments, all
    /// declarations, top-level statements, and a trailing invocation of
    /// `main` where a function of that name is declared.  The result is
    /// exactly `spec_program` of the input and the engine's starting state,
    /// so the same tree always yields byte-identical text.
    #[verifier::rlimit(100)]
    #[verifier::spinoff_prover]
    pub fn emit_program(&mut self, program: &Program) -> (r: String)
        ensures
            final(self).indent == old(self).indent,
            r@ == spec_program(*program, ind_of(*old(self)), sc_of(*old(self))).0,
            final(self).output@ == r@,
            final(self).declared_vars.deep_view() == spec_program(*program, ind_of(*old(self)), sc_of(*old(self))).1,
    {
        let ghost rr = spec_program(*program, ind_of(*old(self)), sc_of(*old(self)));
        self.output = String::new();
        self.emit_import_comments(&program.declarations, 0);
        self.emit_declarations(&program.declarations, 0);
        self.emit_statements(&program.statements, 0);
        if has_main(&program.declarations) {
            self.emit_newline();
            self.emit_line("// Entry point");
            self.emit_line("main();");
        }
        proof {
            assert(self.output@ =~= rr.0);
        }
        self.output.clone()
    }
}

} // verus!

