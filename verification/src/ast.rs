use vstd::prelude::*;

verus! {

/// The abstract syntax tree that the emitter consumes.  It is handed in,
/// already parsed and validated, by an upstream front end; the emitter never
/// mutates it.  Every node kind carries exactly the fields that its lowering
/// rule reads.  Numeric literals of floating-point width carry their decimal
/// text, produced upstream, since the emitter only reprints them.
pub struct Program {
    pub declarations: Vec<Declaration>,
    pub statements: Vec<Statement>,
}

pub enum Declaration {
    Function(Function),
    Struct(StructDefinition),
    Enum(EnumDefinition),
    Constant { name: String, value: Expression },
    TypeAlias(TypeAliasDefinition),
    ImplBlock(ImplBlockDefinition),
    Export { symbols: Vec<String> },
    ModuleImport { alias: String, origin: String },
    ComptimeBlock(Vec<Statement>),
    Other,
}

pub struct Function {
    pub name: String,
    pub args: Vec<(String, AstType)>,
    pub return_type: AstType,
    pub body: Vec<Statement>,
}

pub struct StructDefinition {
    pub name: String,
    pub fields: Vec<StructField>,
    pub methods: Vec<Function>,
}

pub struct StructField {
    pub name: String,
    pub default_value: Option<Expression>,
}

pub struct EnumDefinition {
    pub name: String,
    pub variants: Vec<EnumVariantDefinition>,
    pub methods: Vec<Function>,
}

pub struct EnumVariantDefinition {
    pub name: String,
    pub payload: Option<AstType>,
}

pub struct TypeAliasDefinition {
    pub name: String,
    pub target_type: AstType,
}

pub struct ImplBlockDefinition {
    pub ty_name: String,
    pub methods: Vec<Function>,
}

pub enum Statement {
    Expression { expr: Expression },
    Return { expr: Expression },
    VariableDeclaration { name: String, initializer: Option<Expression>, is_mutable: bool },
    VariableAssignment { name: String, value: Expression },
    Loop { kind: LoopKind, body: Vec<Statement> },
    Break,
    Continue,
    Block { statements: Vec<Statement> },
    DestructuringImport { names: Vec<String>, source: Expression },
    Defer { statement: Box<Statement> },
    PointerAssignment { pointer: Expression, value: Expression },
    Other,
}

pub enum LoopKind {
    Infinite,
    Condition(Expression),
}

pub enum Expression {
    Integer8(i8),
    Integer16(i16),
    Integer32(i32),
    Integer64(i64),
    Unsigned8(u8),
    Unsigned16(u16),
    Unsigned32(u32),
    Unsigned64(u64),
    /// A 32-bit floating-point literal, carried as its decimal text.
    Float32(String),
    /// A 64-bit floating-point literal, carried as its decimal text.
    Float64(String),
    Boolean(bool),
    StringLiteral(String),
    Identifier(String),
    Unit,
    NoneValue,
    SomeValue(Box<Expression>),
    BinaryOp { left: Box<Expression>, op: BinaryOperator, right: Box<Expression> },
    FunctionCall { name: String, args: Vec<Expression> },
    MethodCall { object: Box<Expression>, method: String, args: Vec<Expression> },
    MemberAccess { object: Box<Expression>, member: String },
    ArrayLiteral(Vec<Expression>),
    ArrayIndex { array: Box<Expression>, index: Box<Expression> },
    StructLiteral { name: String, fields: Vec<(String, Expression)> },
    StringInterpolation { parts: Vec<StringPart> },
    QuestionMatch { scrutinee: Box<Expression>, arms: Vec<MatchArm> },
    Closure { params: Vec<(String, AstType)>, body: Box<Expression> },
    Block(Vec<Statement>),
    Return(Box<Expression>),
    EnumVariant { enum_name: String, variant: String, payload: Option<Box<Expression>> },
    EnumLiteral { variant: String, payload: Option<Box<Expression>> },
    Range { start: Box<Expression>, end: Box<Expression>, inclusive: bool },
    Loop { body: Box<Expression> },
    CollectionLoop {
        collection: Box<Expression>,
        param: (String, AstType),
        index_param: Option<(String, AstType)>,
        body: Box<Expression>,
    },
    Break,
    Continue,
    Raise(Box<Expression>),
    Comptime(Box<Expression>),
    StdReference,
    ThisReference,
    Other,
}

pub enum StringPart {
    Literal(String),
    Interpolation(Expression),
}

pub struct MatchArm {
    pub pattern: Pattern,
    pub guard: Option<Expression>,
    pub body: Expression,
}

pub enum Pattern {
    Wildcard,
    Literal(Expression),
    Identifier(String),
    EnumLiteral { variant: String, payload: Option<Box<Pattern>> },
    EnumVariant { enum_name: String, variant: String },
    Type { ty_name: String },
    Or(Vec<Pattern>),
    Range { start: Expression, end: Expression, inclusive: bool },
    Other,
}

pub enum BinaryOperator {
    Add,
    Subtract,
    Multiply,
    Divide,
    Modulo,
    Equals,
    NotEquals,
    LessThan,
    GreaterThan,
    LessThanEquals,
    GreaterThanEquals,
    And,
    Or,
    BitwiseAnd,
    BitwiseOr,
    BitwiseXor,
    ShiftLeft,
    ShiftRight,
    StringConcat,
}

pub enum AstType {
    I8,
    I16,
    I32,
    I64,
    U8,
    U16,
    U32,
    U64,
    F32,
    F64,
    Usize,
    Bool,
    StaticString,
    StaticLiteral,
    Void,
    Slice(Box<AstType>),
    FixedArray { element_type: Box<AstType>, size: u64 },
    Struct { name: String },
    Generic { name: String, type_args: Vec<AstType> },
    Function { args: Vec<AstType>, return_type: Box<AstType> },
    Ref(Box<AstType>),
    Other,
}

} // verus!
