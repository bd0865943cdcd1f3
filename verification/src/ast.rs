//! Abstract syntax of the managed language's source form, reduced to the
//! constructs the semantic checker handles: functions, structs, statements
//! and expressions over the built-in types.

use vstd::prelude::*;

verus! {

/// Identity of one syntax node.
#[derive(PartialEq, Eq, Copy, Clone, Structural, Debug)]
pub struct NodeId(pub usize);

/// A line/column source position.
#[derive(PartialEq, Eq, Copy, Clone, Structural, Debug)]
pub struct Position {
    pub line: u32,
    pub column: u32,
}

impl Position {
    pub fn new(line: u32, column: u32) -> (r: Position)
        ensures
            r.line == line,
            r.column == column,
    {
        Position { line, column }
    }
}

/// An interned identifier.
#[derive(PartialEq, Eq, Copy, Clone, Structural, Debug)]
pub struct Name(pub usize);

/// A unary operator.
#[derive(PartialEq, Eq, Copy, Clone, Structural, Debug)]
pub enum UnOp {
    Plus,
    Neg,
    Not,
}

impl UnOp {
    pub fn as_str(&self) -> (r: &'static str)
        ensures
            r@ == match *self {
                UnOp::Plus => "+"@,
                UnOp::Neg => "-"@,
                UnOp::Not => "!"@,
            },
    {
        match *self {
            UnOp::Plus => "+",
            UnOp::Neg => "-",
            UnOp::Not => "!",
        }
    }
}

/// A comparison operator.
#[derive(PartialEq, Eq, Copy, Clone, Structural, Debug)]
pub enum CmpOp {
    Eq,
    Ne,
    Lt,
    Le,
    Gt,
    Ge,
    Is,
    IsNot,
}

impl CmpOp {
    pub fn as_str(&self) -> (r: &'static str)
        ensures
            r@ == match *self {
                CmpOp::Eq => "=="@,
                CmpOp::Ne => "!="@,
                CmpOp::Lt => "<"@,
                CmpOp::Le => "<="@,
                CmpOp::Gt => ">"@,
                CmpOp::Ge => ">="@,
                CmpOp::Is => "==="@,
                CmpOp::IsNot => "!=="@,
            },
    {
        match *self {
            CmpOp::Eq => "==",
            CmpOp::Ne => "!=",
            CmpOp::Lt => "<",
            CmpOp::Le => "<=",
            CmpOp::Gt => ">",
            CmpOp::Ge => ">=",
            CmpOp::Is => "===",
            CmpOp::IsNot => "!==",
        }
    }
}

/// A binary operator.
#[derive(PartialEq, Eq, Copy, Clone, Structural, Debug)]
pub enum BinOp {
    Add,
    Sub,
    Mul,
    Div,
    Mod,
    Cmp(CmpOp),
    Or,
    And,
    BitOr,
    BitAnd,
    BitXor,
}

impl BinOp {
    pub fn as_str(&self) -> (r: &'static str)
        ensures
            (*self == BinOp::Add ==> r@ == "+"@)
                && (*self == BinOp::Sub ==> r@ == "-"@)
                && (*self == BinOp::Mul ==> r@ == "*"@)
                && (*self == BinOp::Div ==> r@ == "/"@)
                && (*self == BinOp::Mod ==> r@ == "%"@),
    {
        match *self {
            BinOp::Add => "+",
            BinOp::Sub => "-",
            BinOp::Mul => "*",
            BinOp::Div => "/",
            BinOp::Mod => "%",
            BinOp::Cmp(op) => op.as_str(),
            BinOp::Or => "||",
            BinOp::And => "&&",
            BinOp::BitOr => "|",
            BinOp::BitAnd => "&",
            BinOp::BitXor => "^",
        }
    }

    /// Whether the operator is an ordering/equality comparison (identity
    /// comparisons are not).
    pub fn is_compare(&self) -> (r: bool)
        ensures
            r == match *self {
                BinOp::Cmp(cmp) => cmp != CmpOp::Is && cmp != CmpOp::IsNot,
                _ => false,
            },
    {
        match *self {
            BinOp::Cmp(cmp) => cmp != CmpOp::Is && cmp != CmpOp::IsNot,
            _ => false,
        }
    }
}

/// Whether a delegation targets the own class or the superclass.
#[derive(PartialEq, Eq, Copy, Clone, Structural, Debug)]
pub enum DelegationType {
    This,
    Super,
}

impl DelegationType {
    pub fn is_this(&self) -> (r: bool)
        ensures
            r == (*self == DelegationType::This),
    {
        match *self {
            DelegationType::This => true,
            _ => false,
        }
    }

    pub fn is_super(&self) -> (r: bool)
        ensures
            r == (*self == DelegationType::Super),
    {
        match *self {
            DelegationType::Super => true,
            _ => false,
        }
    }
}

/// A declaration modifier.
#[derive(PartialEq, Eq, Copy, Clone, Structural, Debug)]
pub enum Modifier {
    Abstract,
    Override,
    Open,
    Final,
    Internal,
    Pub,
    Static,
}

impl Modifier {
    pub fn name(&self) -> (r: &'static str)
        ensures
            (*self == Modifier::Abstract ==> r@ == "abstract"@)
                && (*self == Modifier::Open ==> r@ == "open"@)
                && (*self == Modifier::Override ==> r@ == "override"@)
                && (*self == Modifier::Final ==> r@ == "final"@),
    {
        match *self {
            Modifier::Abstract => "abstract",
            Modifier::Open => "open",
            Modifier::Override => "override",
            Modifier::Final => "final",
            Modifier::Internal => "internal",
            Modifier::Pub => "pub",
            Modifier::Static => "static",
        }
    }
}

/// One modifier occurrence with its position.
#[derive(PartialEq, Eq, Copy, Clone, Structural, Debug)]
pub struct ModifierElement {
    pub value: Modifier,
    pub pos: Position,
}

/// The modifiers attached to one declaration.
pub struct Modifiers(pub Vec<ModifierElement>);

impl Modifiers {
    pub fn new() -> (r: Modifiers)
        ensures
            r.0@.len() == 0,
    {
        Modifiers(Vec::new())
    }

    pub fn contains(&self, modifier: Modifier) -> (r: bool)
        ensures
            r == exists|i: int| 0 <= i < self.0@.len()
                && (#[trigger] self.0@[i]).value == modifier,
    {
        let n = self.0.len();
        let mut i: usize = 0;
        while i < n
            invariant
                i <= n,
                n == self.0@.len(),
                forall|k: int| 0 <= k < i ==> (#[trigger] self.0@[k]).value != modifier,
            decreases n - i,
        {
            if self.0[i].value == modifier {
                return true;
            }
            i = i + 1;
        }
        false
    }

    pub fn add(&mut self, modifier: Modifier, pos: Position)
        ensures
            final(self).0@ == old(self).0@.push(ModifierElement { value: modifier, pos }),
    {
        self.0.push(ModifierElement { value: modifier, pos });
    }

    /// The recorded modifier occurrences, in order.
    pub fn iter(&self) -> (r: &Vec<ModifierElement>)
        ensures
            r@ == self.0@,
    {
        &self.0
    }
}

/// A type as written in source.
pub enum Type {
    TypeSelf(TypeSelfType),
    TypeBasic(TypeBasicType),
    TypeTuple(TypeTupleType),
    TypeLambda(TypeLambdaType),
}

pub struct TypeSelfType {
    pub id: NodeId,
    pub pos: Position,
}

pub struct TypeBasicType {
    pub id: NodeId,
    pub pos: Position,
    pub name: Name,
    pub params: Vec<Type>,
}

pub struct TypeTupleType {
    pub id: NodeId,
    pub pos: Position,
    pub subtypes: Vec<Type>,
}

pub struct TypeLambdaType {
    pub id: NodeId,
    pub pos: Position,
    pub params: Vec<Type>,
    pub ret: Box<Type>,
}

impl Type {
    pub fn create_self(id: NodeId, pos: Position) -> (r: Type)
        ensures
            r matches Type::TypeSelf(s) && s.id == id && s.pos == pos,
    {
        Type::TypeSelf(TypeSelfType { id, pos })
    }

    pub fn create_basic(id: NodeId, pos: Position, name: Name, params: Vec<Type>) -> (r: Type)
        ensures
            r matches Type::TypeBasic(b) && b.id == id && b.pos == pos && b.name == name,
    {
        Type::TypeBasic(TypeBasicType { id, pos, name, params })
    }

    pub fn create_fct(id: NodeId, pos: Position, params: Vec<Type>, ret: Box<Type>) -> (r: Type)
        ensures
            r matches Type::TypeLambda(l) && l.id == id && l.pos == pos,
    {
        Type::TypeLambda(TypeLambdaType { id, pos, params, ret })
    }

    pub fn create_tuple(id: NodeId, pos: Position, subtypes: Vec<Type>) -> (r: Type)
        ensures
            r matches Type::TypeTuple(t) && t.id == id && t.pos == pos,
    {
        Type::TypeTuple(TypeTupleType { id, pos, subtypes })
    }

    pub fn to_basic(&self) -> (r: Option<&TypeBasicType>)
        ensures
            match *self {
                Type::TypeBasic(_) => r is Some,
                _ => r is None,
            },
    {
        match self {
            Type::TypeBasic(b) => Some(b),
            _ => None,
        }
    }

    /// The bare name of a basic type written without type parameters.
    pub fn to_basic_without_type_params(&self) -> (r: Option<Name>)
        ensures
            r == match *self {
                Type::TypeBasic(b) => if b.params@.len() == 0 {
                    Some(b.name)
                } else {
                    None::<Name>
                },
                _ => None::<Name>,
            },
    {
        match self {
            Type::TypeBasic(b) => {
                if b.params.len() == 0 {
                    Some(b.name)
                } else {
                    None
                }
            },
            _ => None,
        }
    }

    pub fn to_tuple(&self) -> (r: Option<&TypeTupleType>)
        ensures
            match *self {
                Type::TypeTuple(_) => r is Some,
                _ => r is None,
            },
    {
        match self {
            Type::TypeTuple(t) => Some(t),
            _ => None,
        }
    }

    pub fn to_fct(&self) -> (r: Option<&TypeLambdaType>)
        ensures
            match *self {
                Type::TypeLambda(_) => r is Some,
                _ => r is None,
            },
    {
        match self {
            Type::TypeLambda(l) => Some(l),
            _ => None,
        }
    }

    /// Whether the type is the empty tuple.
    pub fn is_unit(&self) -> (r: bool)
        ensures
            r == match *self {
                Type::TypeTuple(t) => t.subtypes@.len() == 0,
                _ => false,
            },
    {
        match self {
            Type::TypeTuple(t) => t.subtypes.len() == 0,
            _ => false,
        }
    }

    pub fn pos(&self) -> (r: Position)
        ensures
            r == match *self {
                Type::TypeSelf(s) => s.pos,
                Type::TypeBasic(b) => b.pos,
                Type::TypeTuple(t) => t.pos,
                Type::TypeLambda(l) => l.pos,
            },
    {
        match self {
            Type::TypeSelf(s) => s.pos,
            Type::TypeBasic(b) => b.pos,
            Type::TypeTuple(t) => t.pos,
            Type::TypeLambda(l) => l.pos,
        }
    }

    pub fn id(&self) -> (r: NodeId)
        ensures
            r == match *self {
                Type::TypeSelf(s) => s.id,
                Type::TypeBasic(b) => b.id,
                Type::TypeTuple(t) => t.id,
                Type::TypeLambda(l) => l.id,
            },
    {
        match self {
            Type::TypeSelf(s) => s.id,
            Type::TypeBasic(b) => b.id,
            Type::TypeTuple(t) => t.id,
            Type::TypeLambda(l) => l.id,
        }
    }
}

/// A struct declaration.
pub struct Struct {
    pub id: NodeId,
    pub pos: Position,
    pub name: Name,
    pub fields: Vec<StructField>,
}

/// One field of a struct declaration.
pub struct StructField {
    pub id: NodeId,
    pub name: Name,
    pub pos: Position,
    pub data_type: Type,
}

/// A type parameter of a generic declaration.
pub struct TypeParam {
    pub name: Name,
    pub pos: Position,
    pub bounds: Vec<Type>,
}

/// A primary-constructor parameter.
pub struct ConstructorParam {
    pub name: Name,
    pub pos: Position,
    pub data_type: Type,
    pub field: bool,
    pub reassignable: bool,
}

/// A function parameter.
pub struct Param {
    pub id: NodeId,
    pub idx: u32,
    pub reassignable: bool,
    pub name: Name,
    pub pos: Position,
    pub data_type: Type,
}

/// A break statement.
pub struct StmtBreakType {
    pub id: NodeId,
    pub pos: Position,
}

/// A continue statement.
pub struct StmtContinueType {
    pub id: NodeId,
    pub pos: Position,
}

/// A character literal.
pub struct ExprLitCharType {
    pub id: NodeId,
    pub pos: Position,
    pub value: char,
}

/// An integer literal (`long` suffix noted by the lexer).
pub struct ExprLitIntType {
    pub id: NodeId,
    pub pos: Position,
    pub value: u64,
    pub long: bool,
}

/// A string literal; the content is interned like an identifier.
pub struct ExprLitStrType {
    pub id: NodeId,
    pub pos: Position,
    pub value: Name,
}

/// A boolean literal.
pub struct ExprLitBoolType {
    pub id: NodeId,
    pub pos: Position,
    pub value: bool,
}

/// The `super` expression.
pub struct ExprSuperType {
    pub id: NodeId,
    pub pos: Position,
}

/// The `self` expression.
pub struct ExprSelfType {
    pub id: NodeId,
    pub pos: Position,
}

/// The `nil` literal.
pub struct ExprNilType {
    pub id: NodeId,
    pub pos: Position,
}

/// An identifier expression.
pub struct ExprIdentType {
    pub id: NodeId,
    pub pos: Position,
    pub name: Name,
}

/// An expression.
pub enum Expr {
    ExprLitChar(ExprLitCharType),
    ExprLitInt(ExprLitIntType),
    ExprLitStr(ExprLitStrType),
    ExprLitBool(ExprLitBoolType),
    ExprNil(ExprNilType),
    ExprIdent(ExprIdentType),
    ExprBin(ExprBinType),
    ExprAssign(ExprAssignType),
    ExprCall(ExprCallType),
    ExprMethodCall(ExprMethodCallType),
    ExprTry(ExprTryType),
}

/// A binary operation.
pub struct ExprBinType {
    pub id: NodeId,
    pub pos: Position,
    pub op: BinOp,
    pub lhs: Box<Expr>,
    pub rhs: Box<Expr>,
}

/// An assignment to an identifier.
pub struct ExprAssignType {
    pub id: NodeId,
    pub pos: Position,
    pub name: Name,
    pub rhs: Box<Expr>,
}

/// A call of a free function.
pub struct ExprCallType {
    pub id: NodeId,
    pub pos: Position,
    pub name: Name,
    pub args: Vec<Expr>,
}

/// A method call on an object expression.
pub struct ExprMethodCallType {
    pub id: NodeId,
    pub pos: Position,
    pub object: Box<Expr>,
    pub name: Name,
    pub args: Vec<Expr>,
}

/// A `try` expression marking a throwing call.
pub struct ExprTryType {
    pub id: NodeId,
    pub pos: Position,
    pub expr: Box<Expr>,
}

/// A statement.
pub enum Stmt {
    StmtVar(StmtVarType),
    StmtExpr(StmtExprType),
    StmtReturn(StmtReturnType),
    StmtDo(StmtDoType),
    StmtBlock(StmtBlockType),
}

/// A `let`/`var` binding.
pub struct StmtVarType {
    pub id: NodeId,
    pub pos: Position,
    pub name: Name,
    pub reassignable: bool,
    pub data_type: Option<Type>,
    pub expr: Option<Box<Expr>>,
}

/// An expression statement.
pub struct StmtExprType {
    pub id: NodeId,
    pub pos: Position,
    pub expr: Box<Expr>,
}

/// A return statement.
pub struct StmtReturnType {
    pub id: NodeId,
    pub pos: Position,
    pub expr: Option<Box<Expr>>,
}

/// A `do` block with its catch clauses.
pub struct StmtDoType {
    pub id: NodeId,
    pub pos: Position,
    pub do_block: Vec<Stmt>,
    pub catch_blocks: Vec<CatchClause>,
}

/// One catch clause of a `do` statement.
pub struct CatchClause {
    pub name: Name,
    pub pos: Position,
    pub data_type: Type,
    pub block: Vec<Stmt>,
}

/// A nested block statement.
pub struct StmtBlockType {
    pub id: NodeId,
    pub pos: Position,
    pub stmts: Vec<Stmt>,
}

/// A function declaration.
pub struct Function {
    pub id: NodeId,
    pub name: Name,
    pub pos: Position,
    pub params: Vec<Param>,
    pub throws: bool,
    pub return_type: Option<Type>,
    pub block: Vec<Stmt>,
}

/// One top-level declaration.
pub enum Elem {
    ElemFunction(Function),
    ElemStruct(Struct),
}

/// A parsed source file.
pub struct File {
    pub elements: Vec<Elem>,
}

} // verus!
