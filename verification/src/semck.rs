//! Semantic checking for the managed language's source form: name
//! resolution, struct definitions, and expression typing.

use vstd::prelude::*;
use crate::ast::{
    CatchClause, Elem, Expr, ExprCallType, ExprMethodCallType, File, Name, Position, Stmt, Type,
};
use crate::error::Msg;
use crate::lexer::{lex, Interner};
use crate::parser::Parser;

verus! {

broadcast use vstd::seq::axiom_seq_index_decreases;

/// A resolved (semantic) type.
#[derive(PartialEq, Eq, Copy, Clone, Structural, Debug)]
pub enum BuiltinType {
    Unit,
    Bool,
    Int,
    Long,
    Str,
    IntArray,
    Nil,
    Struct(usize),
    Error,
}

impl BuiltinType {
    /// Whether a value of type `rhs` can be bound to a slot of type `self`.
    /// `Error` silences follow-up diagnostics; `nil` fits reference types.
    pub fn allows(&self, rhs: BuiltinType) -> (r: bool)
        ensures
            r == (*self == rhs || *self == BuiltinType::Error || rhs == BuiltinType::Error
                || (rhs == BuiltinType::Nil && self.spec_is_reference())),
    {
        *self == rhs || *self == BuiltinType::Error || rhs == BuiltinType::Error
            || (rhs == BuiltinType::Nil && self.is_reference())
    }

    /// Whether values of the type live on the heap.
    pub open spec fn spec_is_reference(self) -> bool {
        self == BuiltinType::Str || self == BuiltinType::IntArray || self == BuiltinType::Nil
    }

    pub fn is_reference(&self) -> (r: bool)
        ensures
            r == self.spec_is_reference(),
    {
        *self == BuiltinType::Str || *self == BuiltinType::IntArray || *self == BuiltinType::Nil
    }
}

/// The built-in words the checker recognizes by spelling.
#[derive(PartialEq, Eq, Copy, Clone, Structural, Debug)]
pub enum BuiltinWord {
    TyInt,
    TyLong,
    TyBool,
    TyStr,
    TyIntArray,
    FnAssert,
    FnPrint,
    FnPrintln,
    MethodLen,
    Other,
}

/// Classifies an interned name by its spelling: the built-in type names
/// (in both their historic lower-case and capitalized spellings), the
/// built-in functions, and the `len` method.
pub fn builtin_word(interner: &Interner, name: Name) -> (r: BuiltinWord)
    requires
        interner.wf(),
        name.0 < interner.names@.len(),
{
    let n = interner.name_len(name);
    if n == 3 {
        let b0 = interner.name_byte(name, 0);
        let b1 = interner.name_byte(name, 1);
        let b2 = interner.name_byte(name, 2);
        if (b0 == 105 || b0 == 73) && b1 == 110 && b2 == 116 {
            BuiltinWord::TyInt
        } else if b0 == 83 && b1 == 116 && b2 == 114 {
            BuiltinWord::TyStr
        } else if b0 == 108 && b1 == 101 && b2 == 110 {
            BuiltinWord::MethodLen
        } else {
            BuiltinWord::Other
        }
    } else if n == 4 {
        let b0 = interner.name_byte(name, 0);
        let b1 = interner.name_byte(name, 1);
        let b2 = interner.name_byte(name, 2);
        let b3 = interner.name_byte(name, 3);
        if (b0 == 108 || b0 == 76) && b1 == 111 && b2 == 110 && b3 == 103 {
            BuiltinWord::TyLong
        } else if (b0 == 98 || b0 == 66) && b1 == 111 && b2 == 111 && b3 == 108 {
            BuiltinWord::TyBool
        } else {
            BuiltinWord::Other
        }
    } else if n == 5 {
        if interner.name_byte(name, 0) == 112 && interner.name_byte(name, 1) == 114
            && interner.name_byte(name, 2) == 105 && interner.name_byte(name, 3) == 110
            && interner.name_byte(name, 4) == 116 {
            BuiltinWord::FnPrint
        } else {
            BuiltinWord::Other
        }
    } else if n == 6 {
        if interner.name_byte(name, 0) == 97 && interner.name_byte(name, 1) == 115
            && interner.name_byte(name, 2) == 115 && interner.name_byte(name, 3) == 101
            && interner.name_byte(name, 4) == 114 && interner.name_byte(name, 5) == 116 {
            BuiltinWord::FnAssert
        } else {
            BuiltinWord::Other
        }
    } else if n == 7 {
        if interner.name_byte(name, 0) == 112 && interner.name_byte(name, 1) == 114
            && interner.name_byte(name, 2) == 105 && interner.name_byte(name, 3) == 110
            && interner.name_byte(name, 4) == 116 && interner.name_byte(name, 5) == 108
            && interner.name_byte(name, 6) == 110 {
            BuiltinWord::FnPrintln
        } else {
            BuiltinWord::Other
        }
    } else if n == 8 {
        if interner.name_byte(name, 0) == 73 && interner.name_byte(name, 1) == 110
            && interner.name_byte(name, 2) == 116 && interner.name_byte(name, 3) == 65
            && interner.name_byte(name, 4) == 114 && interner.name_byte(name, 5) == 114
            && interner.name_byte(name, 6) == 97 && interner.name_byte(name, 7) == 121 {
            BuiltinWord::TyIntArray
        } else {
            BuiltinWord::Other
        }
    } else {
        BuiltinWord::Other
    }
}

/// A registered struct: its name and its resolved fields.
pub struct StructData {
    pub name: Name,
    pub fields: Vec<(Name, BuiltinType)>,
}

/// A registered function signature.
pub struct FctData {
    pub name: Name,
    pub params: Vec<BuiltinType>,
    pub ret: BuiltinType,
    pub throws: bool,
}

/// One variable in scope.
pub struct VarData {
    pub name: Name,
    pub ty: BuiltinType,
    pub reassignable: bool,
}

/// The checking context: the parsed file with its interner, the collected
/// definition tables, and the diagnostics found so far.
pub struct VM {
    pub interner: Interner,
    pub file: File,
    pub structs: Vec<StructData>,
    pub fcts: Vec<FctData>,
    pub diag: Vec<(Position, Msg)>,
}

impl VM {
    /// Whether the interner covers every name (the parser only produces
    /// interned names).
    pub open spec fn wf(self) -> bool {
        self.interner.wf()
    }
}

/// Parses a program and wraps it for checking; a parse failure is recorded
/// as the single diagnostic.
pub fn assemble(source: &str) -> (r: VM)
    ensures
        r.wf(),
{
    let bytes_slice = source.as_bytes();
    let bytes = vstd::slice::slice_to_vec(bytes_slice);
    let mut interner = Interner::new(bytes);
    let tokens = lex(&mut interner);
    let mut parser = Parser::new(tokens);
    let parsed = parser.parse_file();
    match parsed {
        Ok(file) => VM {
            interner,
            file,
            structs: Vec::new(),
            fcts: Vec::new(),
            diag: Vec::new(),
        },
        Err(err) => {
            let mut diag: Vec<(Position, Msg)> = Vec::new();
            diag.push(err);
            VM {
                interner,
                file: File { elements: Vec::new() },
                structs: Vec::new(),
                fcts: Vec::new(),
                diag,
            }
        },
    }
}

/// Resolves a written type against the definition tables: the built-in
/// types by spelling, then the declared structs. `None` is an unknown type;
/// the caller reports it.
pub fn read_type(vm: &VM, t: &Type) -> (r: Option<BuiltinType>)
    requires
        vm.wf(),
{
    read_type_parts(&vm.interner, &vm.structs, t)
}

/// The resolution behind [`read_type`], over the tables it reads.
pub fn read_type_parts(interner: &Interner, structs: &Vec<StructData>, t: &Type)
    -> (r: Option<BuiltinType>)
    requires
        interner.wf(),
{
    match t {
        Type::TypeBasic(b) => {
            if b.params.len() > 0 {
                return None;
            }
            if b.name.0 >= interner.names.len() {
                return None;
            }
            match builtin_word(interner, b.name) {
                BuiltinWord::TyInt => Some(BuiltinType::Int),
                BuiltinWord::TyLong => Some(BuiltinType::Long),
                BuiltinWord::TyBool => Some(BuiltinType::Bool),
                BuiltinWord::TyStr => Some(BuiltinType::Str),
                BuiltinWord::TyIntArray => Some(BuiltinType::IntArray),
                _ => {
                    let n = structs.len();
                    let mut k: usize = 0;
                    while k < n
                        invariant
                            k <= n,
                            n == structs@.len(),
                        decreases n - k,
                    {
                        if structs[k].name == b.name {
                            return Some(BuiltinType::Struct(k));
                        }
                        k = k + 1;
                    }
                    None
                },
            }
        },
        Type::TypeTuple(t) => {
            if t.subtypes.len() == 0 {
                Some(BuiltinType::Unit)
            } else {
                None
            }
        },
        _ => None,
    }
}

/// Looks a variable up in the scope stack, innermost binding first.
fn lookup_var(vars: &Vec<VarData>, name: Name) -> (r: Option<usize>)
    ensures
        r matches Some(i) ==> i < vars@.len() && vars@[i as int].name == name,
{
    let mut k = vars.len();
    while k > 0
        invariant
            k <= vars@.len(),
        decreases k,
    {
        k = k - 1;
        if vars[k].name == name {
            return Some(k);
        }
    }
    None
}

/// Looks a function up by name.
fn lookup_fct(fcts: &Vec<FctData>, name: Name) -> (r: Option<usize>)
    ensures
        r matches Some(i) ==> i < fcts@.len(),
{
    let n = fcts.len();
    let mut k: usize = 0;
    while k < n
        invariant
            k <= n,
            n == fcts@.len(),
        decreases n - k,
    {
        if fcts[k].name == name {
            return Some(k);
        }
        k = k + 1;
    }
    None
}

/// The state the expression/statement checker threads through one function
/// body.
pub struct TypeCheck {
    pub interner: Interner,
    pub structs: Vec<StructData>,
    pub fcts: Vec<FctData>,
    pub vars: Vec<VarData>,
    pub ret: BuiltinType,
    pub diag: Vec<(Position, Msg)>,
}

impl TypeCheck {
    pub open spec fn wf(self) -> bool {
        self.interner.wf()
    }

    /// Checks the arguments of a call against a parameter list.
    fn check_args(&mut self, pos: Position, fname: Name, args: &Vec<Expr>,
        params: &Vec<BuiltinType>)
        requires
            old(self).wf(),
        ensures
            final(self).wf(),
        decreases args@,
    {
        let n = args.len();
        if n != params.len() {
            self.diag.push((pos, Msg::ParamTypesIncompatible(fname)));
            return;
        }
        let mut k: usize = 0;
        while k < n
            invariant
                self.wf(),
                k <= n,
                n == args@.len(),
                n == params@.len(),
            decreases n - k,
        {
            let ty = self.check_expr(&args[k], false);
            if !params[k].allows(ty) {
                self.diag.push((pos, Msg::ParamTypesIncompatible(fname)));
            }
            k = k + 1;
        }
    }

    /// Checks a call of a free function: the declared functions first, then
    /// the built-ins. Returns the result type and whether the callee throws.
    fn check_call(&mut self, c: &ExprCallType) -> (r: (BuiltinType, bool))
        requires
            old(self).wf(),
        ensures
            final(self).wf(),
        decreases *c,
    {
        match lookup_fct(&self.fcts, c.name) {
            Some(k) => {
                let params = copy_types(&self.fcts[k].params);
                let ret = self.fcts[k].ret;
                let throws = self.fcts[k].throws;
                self.check_args(c.pos, c.name, &c.args, &params);
                (ret, throws)
            },
            None => {
                let word = if c.name.0 < self.interner.names.len() {
                    builtin_word(&self.interner, c.name)
                } else {
                    BuiltinWord::Other
                };
                let expected = match word {
                    BuiltinWord::FnAssert => Some(BuiltinType::Bool),
                    BuiltinWord::FnPrint => Some(BuiltinType::Str),
                    BuiltinWord::FnPrintln => Some(BuiltinType::Str),
                    _ => None,
                };
                match expected {
                    Some(param) => {
                        let mut params: Vec<BuiltinType> = Vec::new();
                        params.push(param);
                        self.check_args(c.pos, c.name, &c.args, &params);
                        (BuiltinType::Unit, false)
                    },
                    None => {
                        self.diag.push((c.pos, Msg::UnknownFunction(c.name)));
                        (BuiltinType::Error, false)
                    },
                }
            },
        }
    }

    /// Checks a method call; the built-in `len` methods of strings and
    /// arrays are the methods the reduced object model has.
    fn check_method_call(&mut self, m: &ExprMethodCallType) -> (r: (BuiltinType, bool))
        requires
            old(self).wf(),
        ensures
            final(self).wf(),
        decreases *m,
    {
        let obj_ty = self.check_expr(&m.object, false);
        let word = if m.name.0 < self.interner.names.len() {
            builtin_word(&self.interner, m.name)
        } else {
            BuiltinWord::Other
        };
        if m.args.len() == 0 && word == BuiltinWord::MethodLen
            && (obj_ty == BuiltinType::Str || obj_ty == BuiltinType::IntArray) {
            (BuiltinType::Int, false)
        } else if obj_ty == BuiltinType::Error {
            (BuiltinType::Error, false)
        } else {
            self.diag.push((m.pos, Msg::UnknownMethod(m.name)));
            (BuiltinType::Error, false)
        }
    }

    /// Computes an expression's type, reporting any rule the expression
    /// breaks. `allow_throwing` is set under a `try` marker.
    fn check_expr(&mut self, e: &Expr, allow_throwing: bool) -> (r: BuiltinType)
        requires
            old(self).wf(),
        ensures
            final(self).wf(),
        decreases *e,
    {
        match e {
            Expr::ExprLitChar(_) => BuiltinType::Int,
            Expr::ExprLitInt(lit) => {
                if lit.long {
                    BuiltinType::Long
                } else {
                    BuiltinType::Int
                }
            },
            Expr::ExprLitStr(_) => BuiltinType::Str,
            Expr::ExprLitBool(_) => BuiltinType::Bool,
            Expr::ExprNil(_) => BuiltinType::Nil,
            Expr::ExprIdent(id) => {
                match lookup_var(&self.vars, id.name) {
                    Some(k) => self.vars[k].ty,
                    None => {
                        self.diag.push((id.pos, Msg::UnknownIdentifier(id.name)));
                        BuiltinType::Error
                    },
                }
            },
            Expr::ExprAssign(a) => {
                let rhs_ty = self.check_expr(&a.rhs, false);
                match lookup_var(&self.vars, a.name) {
                    Some(k) => {
                        if !self.vars[k].reassignable {
                            self.diag.push((a.pos, Msg::LetReassigned));
                        } else if !self.vars[k].ty.allows(rhs_ty) {
                            self.diag.push((a.pos, Msg::AssignType(a.name)));
                        }
                    },
                    None => {
                        self.diag.push((a.pos, Msg::UnknownIdentifier(a.name)));
                    },
                }
                BuiltinType::Unit
            },
            Expr::ExprBin(b) => {
                let lhs = self.check_expr(&b.lhs, false);
                let rhs = self.check_expr(&b.rhs, false);
                self.check_bin(b.pos, b.op, lhs, rhs)
            },
            Expr::ExprCall(c) => {
                let (ty, throws) = self.check_call(c);
                if throws && !allow_throwing {
                    self.diag.push((c.pos, Msg::TryNeeded));
                }
                ty
            },
            Expr::ExprMethodCall(m) => {
                let (ty, throws) = self.check_method_call(m);
                if throws && !allow_throwing {
                    self.diag.push((m.pos, Msg::TryNeeded));
                }
                ty
            },
            Expr::ExprTry(t) => {
                match &*t.expr {
                    Expr::ExprCall(c) => {
                        let (ty, throws) = self.check_call(c);
                        if !throws {
                            self.diag.push((t.pos, Msg::TryCallsNonThrowing));
                        }
                        ty
                    },
                    Expr::ExprMethodCall(m) => {
                        let (ty, throws) = self.check_method_call(m);
                        if !throws {
                            self.diag.push((t.pos, Msg::TryCallsNonThrowing));
                        }
                        ty
                    },
                    _ => {
                        self.diag.push((t.pos, Msg::TryNeeded));
                        self.check_expr(&t.expr, false)
                    },
                }
            },
        }
    }

    /// Types a binary operation.
    fn check_bin(&mut self, pos: Position, op: crate::ast::BinOp, lhs: BuiltinType,
        rhs: BuiltinType) -> (r: BuiltinType)
        requires
            old(self).wf(),
        ensures
            final(self).wf(),
    {
        match op {
            crate::ast::BinOp::Add | crate::ast::BinOp::Sub | crate::ast::BinOp::Mul
                | crate::ast::BinOp::Div | crate::ast::BinOp::Mod => {
                if lhs == BuiltinType::Int && rhs == BuiltinType::Int {
                    BuiltinType::Int
                } else if lhs == BuiltinType::Long && rhs == BuiltinType::Long {
                    BuiltinType::Long
                } else if lhs == BuiltinType::Error || rhs == BuiltinType::Error {
                    BuiltinType::Error
                } else {
                    self.diag.push((pos, Msg::BinOpType));
                    BuiltinType::Error
                }
            },
            crate::ast::BinOp::Cmp(cmp) => {
                match cmp {
                    crate::ast::CmpOp::Is | crate::ast::CmpOp::IsNot => {
                        let l_ok = lhs.is_reference() || lhs == BuiltinType::Error;
                        let r_ok = rhs.is_reference() || rhs == BuiltinType::Error;
                        if !l_ok || !r_ok {
                            self.diag.push((pos, Msg::IdentityOperandsNeedReferences));
                        }
                        BuiltinType::Bool
                    },
                    _ => {
                        if lhs == rhs || lhs == BuiltinType::Error || rhs == BuiltinType::Error {
                            BuiltinType::Bool
                        } else {
                            self.diag.push((pos, Msg::BinOpType));
                            BuiltinType::Bool
                        }
                    },
                }
            },
            _ => {
                if lhs == BuiltinType::Bool && rhs == BuiltinType::Bool {
                    BuiltinType::Bool
                } else {
                    self.diag.push((pos, Msg::BinOpType));
                    BuiltinType::Error
                }
            },
        }
    }

    /// Checks one statement.
    fn check_stmt(&mut self, s: &Stmt)
        requires
            old(self).wf(),
        ensures
            final(self).wf(),
        decreases *s,
    {
        match s {
            Stmt::StmtVar(v) => {
                let defined: Option<BuiltinType> = match &v.data_type {
                    Some(t) => {
                        match read_type_parts(&self.interner, &self.structs, t) {
                            Some(ty) => Some(ty),
                            None => {
                                self.diag.push((t.pos(), Msg::UnknownType(v.name)));
                                Some(BuiltinType::Error)
                            },
                        }
                    },
                    None => None,
                };
                let expr_ty: Option<BuiltinType> = match &v.expr {
                    Some(e) => Some(self.check_expr(e, false)),
                    None => None,
                };
                let ty = match (defined, expr_ty) {
                    (Some(d), Some(et)) => {
                        if !d.allows(et) {
                            self.diag.push((v.pos, Msg::AssignType(v.name)));
                        }
                        d
                    },
                    (Some(d), None) => {
                        if !v.reassignable {
                            self.diag.push((v.pos, Msg::LetMissingInitialization));
                        }
                        d
                    },
                    (None, Some(et)) => et,
                    (None, None) => {
                        self.diag.push((v.pos, Msg::VarNeedsTypeInfo(v.name)));
                        BuiltinType::Error
                    },
                };
                self.vars.push(VarData { name: v.name, ty, reassignable: v.reassignable });
            },
            Stmt::StmtExpr(e) => {
                let _ = self.check_expr(&e.expr, false);
            },
            Stmt::StmtReturn(r) => {
                let ty = match &r.expr {
                    Some(e) => self.check_expr(e, false),
                    None => BuiltinType::Unit,
                };
                let expected = self.ret;
                if !expected.allows(ty) {
                    self.diag.push((r.pos, Msg::ReturnType));
                }
            },
            Stmt::StmtDo(d) => {
                let depth = self.vars.len();
                self.check_stmts(&d.do_block);
                self.vars.truncate(depth);
                let n = d.catch_blocks.len();
                let mut k: usize = 0;
                while k < n
                    invariant
                        self.wf(),
                        k <= n,
                        n == d.catch_blocks@.len(),
                        *s == Stmt::StmtDo(*d),
                    decreases n - k,
                {
                    proof {
                        assert(decreases_to!(*s => s->StmtDo_0));
                        assert(s->StmtDo_0 == *d);
                        assert(decreases_to!(*d => d.catch_blocks@[k as int]));
                        assert(decreases_to!(*s => d.catch_blocks@[k as int]));
                    }
                    self.check_catch(&d.catch_blocks[k]);
                    k = k + 1;
                }
            },
            Stmt::StmtBlock(b) => {
                let depth = self.vars.len();
                self.check_stmts(&b.stmts);
                self.vars.truncate(depth);
            },
        }
    }

    /// Checks one catch clause: the caught variable is scoped to the block.
    fn check_catch(&mut self, c: &CatchClause)
        requires
            old(self).wf(),
        ensures
            final(self).wf(),
        decreases *c,
    {
        let ty = match read_type_parts(&self.interner, &self.structs, &c.data_type) {
            Some(ty) => ty,
            None => {
                self.diag.push((c.pos, Msg::UnknownType(c.name)));
                BuiltinType::Error
            },
        };
        let depth = self.vars.len();
        self.vars.push(VarData { name: c.name, ty, reassignable: false });
        self.check_stmts(&c.block);
        self.vars.truncate(depth);
    }

    /// Checks a statement list in order.
    fn check_stmts(&mut self, stmts: &Vec<Stmt>)
        requires
            old(self).wf(),
        ensures
            final(self).wf(),
        decreases stmts@,
    {
        let n = stmts.len();
        let mut k: usize = 0;
        while k < n
            invariant
                self.wf(),
                k <= n,
                n == stmts@.len(),
            decreases n - k,
        {
            self.check_stmt(&stmts[k]);
            k = k + 1;
        }
    }
}

/// A copy of a type list.
fn copy_types(ts: &Vec<BuiltinType>) -> (r: Vec<BuiltinType>)
    ensures
        r@ == ts@,
{
    let mut out: Vec<BuiltinType> = Vec::new();
    let n = ts.len();
    let mut k: usize = 0;
    while k < n
        invariant
            k <= n,
            n == ts@.len(),
            out@ == ts@.take(k as int),
        decreases n - k,
    {
        out.push(ts[k]);
        k = k + 1;
    }
    proof {
        assert(out@ =~= ts@);
    }
    out
}

/// Runs the semantic passes over the parsed file: collects the struct and
/// function definitions, resolves the struct fields and function
/// signatures, then checks every function body. All findings land in
/// `vm.diag`.
pub fn check(vm: &mut VM)
    requires
        old(vm).wf(),
    ensures
        final(vm).wf(),
{
    let n = vm.file.elements.len();
    let mut k: usize = 0;
    while k < n
        invariant
            vm.wf(),
            k <= n,
            n == vm.file.elements@.len(),
        decreases n - k,
    {
        match &vm.file.elements[k] {
            Elem::ElemStruct(st) => {
                let mut dup = false;
                let m = vm.structs.len();
                let mut j: usize = 0;
                while j < m
                    invariant
                        j <= m,
                        m == vm.structs@.len(),
                        k < vm.file.elements@.len(),
                        vm.file.elements@[k as int] matches Elem::ElemStruct(_),
                    decreases m - j,
                {
                    proof {
                        assert(vm.structs@[j as int].name == vm.structs@[j as int].name);
                    }
                    let same = match &vm.file.elements[k] {
                        Elem::ElemStruct(st2) => vm.structs[j].name == st2.name,
                        _ => false,
                    };
                    if same {
                        dup = true;
                    }
                    j = j + 1;
                }
                let (name, pos) = match &vm.file.elements[k] {
                    Elem::ElemStruct(st2) => (st2.name, st2.pos),
                    _ => (Name(0), Position { line: 0, column: 0 }),
                };
                if dup {
                    vm.diag.push((pos, Msg::ShadowStruct(name)));
                }
                vm.structs.push(StructData { name, fields: Vec::new() });
            },
            Elem::ElemFunction(_) => {},
        }
        k = k + 1;
    }
    check_struct_fields(vm);
    collect_functions(vm);
    check_function_bodies(vm);
}

/// Resolves every struct's fields against the completed struct table,
/// reporting unknown field types and shadowed field names.
fn check_struct_fields(vm: &mut VM)
    requires
        old(vm).wf(),
    ensures
        final(vm).wf(),
{
    let n = vm.file.elements.len();
    let mut k: usize = 0;
    let mut sidx: usize = 0;
    while k < n
        invariant
            vm.wf(),
            k <= n,
            sidx <= k,
            n == vm.file.elements@.len(),
        decreases n - k,
    {
        let is_struct = match &vm.file.elements[k] {
            Elem::ElemStruct(_) => true,
            _ => false,
        };
        if is_struct {
            let mut fields: Vec<(Name, BuiltinType)> = Vec::new();
            let m = match &vm.file.elements[k] {
                Elem::ElemStruct(st) => st.fields.len(),
                _ => 0,
            };
            let mut f: usize = 0;
            while f < m
                invariant
                    vm.wf(),
                    f <= m,
                    k < n,
                    n == vm.file.elements@.len(),
                    vm.file.elements@[k as int] matches Elem::ElemStruct(st)
                        && st.fields@.len() == m,
                decreases m - f,
            {
                let (fname, fpos) = match &vm.file.elements[k] {
                    Elem::ElemStruct(st) => (st.fields[f].name, st.fields[f].pos),
                    _ => (Name(0), Position { line: 0, column: 0 }),
                };
                let resolved = match &vm.file.elements[k] {
                    Elem::ElemStruct(st) => read_type_parts(
                        &vm.interner, &vm.structs, &st.fields[f].data_type),
                    _ => None,
                };
                let mut shadow = false;
                let fn_count = fields.len();
                let mut q: usize = 0;
                while q < fn_count
                    invariant
                        q <= fn_count,
                        fn_count == fields@.len(),
                    decreases fn_count - q,
                {
                    if fields[q].0 == fname {
                        shadow = true;
                    }
                    q = q + 1;
                }
                if shadow {
                    vm.diag.push((fpos, Msg::ShadowField(fname)));
                }
                match resolved {
                    Some(ty) => {
                        fields.push((fname, ty));
                    },
                    None => {
                        let tpos = match &vm.file.elements[k] {
                            Elem::ElemStruct(st) => st.fields[f].data_type.pos(),
                            _ => fpos,
                        };
                        vm.diag.push((tpos, Msg::UnknownType(fname)));
                        fields.push((fname, BuiltinType::Error));
                    },
                }
                f = f + 1;
            }
            if sidx < vm.structs.len() {
                let name = vm.structs[sidx].name;
                vm.structs.set(sidx, StructData { name, fields });
            }
            sidx = sidx + 1;
        }
        k = k + 1;
    }
}

/// Collects every function's resolved signature, reporting duplicates and
/// unknown parameter or return types.
fn collect_functions(vm: &mut VM)
    requires
        old(vm).wf(),
    ensures
        final(vm).wf(),
{
    let n = vm.file.elements.len();
    let mut k: usize = 0;
    while k < n
        invariant
            vm.wf(),
            k <= n,
            n == vm.file.elements@.len(),
        decreases n - k,
    {
        let is_fct = match &vm.file.elements[k] {
            Elem::ElemFunction(_) => true,
            _ => false,
        };
        if is_fct {
            let (name, pos, throws, nparams) = match &vm.file.elements[k] {
                Elem::ElemFunction(f) => (f.name, f.pos, f.throws, f.params.len()),
                _ => (Name(0), Position { line: 0, column: 0 }, false, 0),
            };
            let mut dup = false;
            let m = vm.fcts.len();
            let mut j: usize = 0;
            while j < m
                invariant
                    j <= m,
                    m == vm.fcts@.len(),
                decreases m - j,
            {
                if vm.fcts[j].name == name {
                    dup = true;
                }
                j = j + 1;
            }
            if dup {
                vm.diag.push((pos, Msg::ShadowFunction(name)));
            }
            let mut params: Vec<BuiltinType> = Vec::new();
            let mut f: usize = 0;
            while f < nparams
                invariant
                    vm.wf(),
                    f <= nparams,
                    k < n,
                    n == vm.file.elements@.len(),
                    vm.file.elements@[k as int] matches Elem::ElemFunction(fct)
                        && fct.params@.len() == nparams,
                decreases nparams - f,
            {
                let resolved = match &vm.file.elements[k] {
                    Elem::ElemFunction(fct) => read_type_parts(
                        &vm.interner, &vm.structs, &fct.params[f].data_type),
                    _ => None,
                };
                let (pname, ppos) = match &vm.file.elements[k] {
                    Elem::ElemFunction(fct) => (fct.params[f].name, fct.params[f].pos),
                    _ => (Name(0), pos),
                };
                match resolved {
                    Some(ty) => {
                        params.push(ty);
                    },
                    None => {
                        vm.diag.push((ppos, Msg::UnknownType(pname)));
                        params.push(BuiltinType::Error);
                    },
                }
                f = f + 1;
            }
            let ret = match &vm.file.elements[k] {
                Elem::ElemFunction(fct) => match &fct.return_type {
                    Some(t) => match read_type_parts(&vm.interner, &vm.structs, t) {
                        Some(ty) => ty,
                        None => {
                            vm.diag.push((t.pos(), Msg::UnknownType(name)));
                            BuiltinType::Error
                        },
                    },
                    None => BuiltinType::Unit,
                },
                _ => BuiltinType::Unit,
            };
            vm.fcts.push(FctData { name, params, ret, throws });
        }
        k = k + 1;
    }
}

/// Type-checks every function body against the collected signatures.
fn check_function_bodies(vm: &mut VM)
    requires
        old(vm).wf(),
    ensures
        final(vm).wf(),
{
    let n = vm.file.elements.len();
    let mut k: usize = 0;
    while k < n
        invariant
            vm.wf(),
            k <= n,
            n == vm.file.elements@.len(),
        decreases n - k,
    {
        let is_fct = match &vm.file.elements[k] {
            Elem::ElemFunction(_) => true,
            _ => false,
        };
        if is_fct {
            let mut vars: Vec<VarData> = Vec::new();
            let nparams = match &vm.file.elements[k] {
                Elem::ElemFunction(f) => f.params.len(),
                _ => 0,
            };
            let mut f: usize = 0;
            while f < nparams
                invariant
                    vm.wf(),
                    f <= nparams,
                    k < n,
                    n == vm.file.elements@.len(),
                    vm.file.elements@[k as int] matches Elem::ElemFunction(fct)
                        && fct.params@.len() == nparams,
                decreases nparams - f,
            {
                let resolved = match &vm.file.elements[k] {
                    Elem::ElemFunction(fct) => read_type_parts(
                        &vm.interner, &vm.structs, &fct.params[f].data_type),
                    _ => None,
                };
                let (pname, reassignable) = match &vm.file.elements[k] {
                    Elem::ElemFunction(fct) => (fct.params[f].name, fct.params[f].reassignable),
                    _ => (Name(0), false),
                };
                let ty = match resolved {
                    Some(ty) => ty,
                    None => BuiltinType::Error,
                };
                vars.push(VarData { name: pname, ty, reassignable });
                f = f + 1;
            }
            let ret = match &vm.file.elements[k] {
                Elem::ElemFunction(fct) => match &fct.return_type {
                    Some(t) => match read_type_parts(&vm.interner, &vm.structs, t) {
                        Some(ty) => ty,
                        None => BuiltinType::Error,
                    },
                    None => BuiltinType::Unit,
                },
                _ => BuiltinType::Unit,
            };
            let mut tc = TypeCheck {
                interner: Interner { src: Vec::new(), names: Vec::new() },
                structs: Vec::new(),
                fcts: Vec::new(),
                vars,
                ret,
                diag: Vec::new(),
            };
            core::mem::swap(&mut tc.interner, &mut vm.interner);
            core::mem::swap(&mut tc.structs, &mut vm.structs);
            core::mem::swap(&mut tc.fcts, &mut vm.fcts);
            core::mem::swap(&mut tc.diag, &mut vm.diag);
            match &vm.file.elements[k] {
                Elem::ElemFunction(fct) => {
                    tc.check_stmts(&fct.block);
                },
                _ => {},
            }
            core::mem::swap(&mut tc.interner, &mut vm.interner);
            core::mem::swap(&mut tc.structs, &mut vm.structs);
            core::mem::swap(&mut tc.fcts, &mut vm.fcts);
            core::mem::swap(&mut tc.diag, &mut vm.diag);
        }
        k = k + 1;
    }
}

/// Parses and checks a whole program, returning its diagnostics — empty
/// exactly when the program is well-formed under the implemented rules.
pub fn check_program(source: &str) -> (r: Vec<(Position, Msg)>)
{
    let mut vm = assemble(source);
    if vm.diag.len() == 0 {
        check(&mut vm);
    }
    vm.diag
}

} // verus!
