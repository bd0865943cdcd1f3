//! Recursive-descent parser for the managed language's source form.

use vstd::prelude::*;
use crate::ast::{
    CatchClause, Elem, Expr, ExprAssignType, ExprBinType, ExprCallType, ExprIdentType,
    ExprLitBoolType, ExprLitIntType, ExprLitStrType, ExprMethodCallType, ExprNilType,
    ExprTryType, BinOp, CmpOp, File, Function, Name, NodeId, Param, Position, Stmt,
    StmtBlockType, StmtDoType, StmtExprType, StmtReturnType, StmtVarType, Struct, StructField,
    Type,
};
use crate::error::Msg;
use crate::lexer::{Token, TokenKind};

verus! {

/// One reported parse failure.
pub type ParseError = (Position, Msg);

/// Parser state: the token list and a cursor into it. The list always ends
/// with an `End` token that is never consumed, so the cursor stays in range.
pub struct Parser {
    pub tokens: Vec<Token>,
    pub pos: usize,
    pub next_id: usize,
}

impl Parser {
    pub open spec fn wf(self) -> bool {
        &&& self.tokens@.len() > 0
        &&& self.pos < self.tokens@.len()
        &&& self.tokens@.last().kind == TokenKind::End
    }

    /// How many tokens are left; every parse step's termination measure.
    pub open spec fn left(self) -> int {
        self.tokens@.len() - self.pos
    }

    pub fn new(tokens: Vec<Token>) -> (r: Parser)
        requires
            tokens@.len() > 0,
            tokens@.last().kind == TokenKind::End,
        ensures
            r.wf(),
            r.tokens == tokens,
    {
        Parser { tokens, pos: 0, next_id: 1 }
    }

    fn peek(&self) -> (k: TokenKind)
        requires
            self.wf(),
        ensures
            k == self.tokens@[self.pos as int].kind,
    {
        self.tokens[self.pos].kind
    }

    fn at(&self) -> (p: Position)
        requires
            self.wf(),
    {
        self.tokens[self.pos].pos
    }

    /// Consumes the current token; never consumes the final `End`.
    fn advance(&mut self)
        requires
            old(self).wf(),
            old(self).tokens@[old(self).pos as int].kind != TokenKind::End,
        ensures
            final(self).wf(),
            final(self).tokens == old(self).tokens,
            final(self).pos == old(self).pos + 1,
            final(self).next_id == old(self).next_id,
    {
        let n = self.tokens.len();
        self.pos = self.pos + 1;
    }

    fn fresh_id(&mut self) -> (r: NodeId)
        ensures
            final(self).tokens == old(self).tokens,
            final(self).pos == old(self).pos,
    {
        let id = self.next_id;
        self.next_id = if self.next_id < usize::MAX { self.next_id + 1 } else { self.next_id };
        NodeId(id)
    }

    /// Consumes the expected token kind or fails.
    fn eat(&mut self, k: TokenKind) -> (r: Result<(), ParseError>)
        requires
            old(self).wf(),
            k != TokenKind::End,
        ensures
            final(self).wf(),
            final(self).tokens == old(self).tokens,
            r is Ok ==> final(self).pos == old(self).pos + 1,
            r is Err ==> final(self).pos == old(self).pos,
    {
        if self.peek() == k {
            self.advance();
            Ok(())
        } else {
            Err((self.at(), Msg::ExpectedToken))
        }
    }

    /// Consumes an identifier token and yields its name.
    fn eat_ident(&mut self) -> (r: Result<Name, ParseError>)
        requires
            old(self).wf(),
        ensures
            final(self).wf(),
            final(self).tokens == old(self).tokens,
            r is Ok ==> final(self).pos == old(self).pos + 1,
            r is Err ==> final(self).pos == old(self).pos,
    {
        match self.peek() {
            TokenKind::Ident(name) => {
                self.advance();
                Ok(name)
            },
            _ => Err((self.at(), Msg::ExpectedIdentifier)),
        }
    }

    /// Parses a type: a basic named type.
    fn parse_type(&mut self) -> (r: Result<Type, ParseError>)
        requires
            old(self).wf(),
        ensures
            final(self).wf(),
            final(self).tokens == old(self).tokens,
            old(self).pos <= final(self).pos,
            r is Ok ==> final(self).pos > old(self).pos,
        decreases old(self).left(), 0int,
    {
        let pos = self.at();
        match self.peek() {
            TokenKind::Ident(name) => {
                self.advance();
                let id = self.fresh_id();
                Ok(Type::create_basic(id, pos, name, Vec::new()))
            },
            _ => Err((pos, Msg::ExpectedType)),
        }
    }

    /// Parses a parenthesized argument list (the opening parenthesis is
    /// still unconsumed).
    fn parse_args(&mut self) -> (r: Result<Vec<Expr>, ParseError>)
        requires
            old(self).wf(),
        ensures
            final(self).wf(),
            final(self).tokens == old(self).tokens,
            old(self).pos <= final(self).pos,
            r is Ok ==> final(self).pos > old(self).pos,
        decreases old(self).left(), 9int,
    {
        let e = self.eat(TokenKind::LParen);
        if let Err(err) = e {
            return Err(err);
        }
        let mut args: Vec<Expr> = Vec::new();
        if self.peek() == TokenKind::RParen {
            self.advance();
            return Ok(args);
        }
        loop
            invariant
                self.wf(),
                self.tokens == old(self).tokens,
                old(self).pos < self.pos,
            ensures
                self.wf(),
                self.tokens == old(self).tokens,
                old(self).pos < self.pos,
            decreases self.left(),
        {
            let a = match self.parse_expr() {
                Ok(a) => a,
                Err(err) => {
                    return Err(err);
                },
            };
            args.push(a);
            if self.peek() == TokenKind::Comma {
                self.advance();
            } else {
                let e = self.eat(TokenKind::RParen);
                if let Err(err) = e {
                    return Err(err);
                }
                return Ok(args);
            }
        }
    }

    /// Parses a primary expression: a literal, `nil`, an identifier, a call,
    /// or a parenthesized expression.
    fn parse_primary(&mut self) -> (r: Result<Expr, ParseError>)
        requires
            old(self).wf(),
        ensures
            final(self).wf(),
            final(self).tokens == old(self).tokens,
            old(self).pos <= final(self).pos,
            r is Ok ==> final(self).pos > old(self).pos,
        decreases old(self).left(), 10int,
    {
        let pos = self.at();
        match self.peek() {
            TokenKind::LitInt(value, long) => {
                self.advance();
                let id = self.fresh_id();
                Ok(Expr::ExprLitInt(ExprLitIntType { id, pos, value, long }))
            },
            TokenKind::LitStr(value) => {
                self.advance();
                let id = self.fresh_id();
                Ok(Expr::ExprLitStr(ExprLitStrType { id, pos, value }))
            },
            TokenKind::True => {
                self.advance();
                let id = self.fresh_id();
                Ok(Expr::ExprLitBool(ExprLitBoolType { id, pos, value: true }))
            },
            TokenKind::False => {
                self.advance();
                let id = self.fresh_id();
                Ok(Expr::ExprLitBool(ExprLitBoolType { id, pos, value: false }))
            },
            TokenKind::Nil => {
                self.advance();
                let id = self.fresh_id();
                Ok(Expr::ExprNil(ExprNilType { id, pos }))
            },
            TokenKind::Ident(name) => {
                self.advance();
                if self.peek() == TokenKind::LParen {
                    let args = match self.parse_args() {
                        Ok(a) => a,
                        Err(err) => {
                            return Err(err);
                        },
                    };
                    let id = self.fresh_id();
                    Ok(Expr::ExprCall(ExprCallType { id, pos, name, args }))
                } else {
                    let id = self.fresh_id();
                    Ok(Expr::ExprIdent(ExprIdentType { id, pos, name }))
                }
            },
            TokenKind::LParen => {
                self.advance();
                let inner = match self.parse_expr() {
                    Ok(e) => e,
                    Err(err) => {
                        return Err(err);
                    },
                };
                let e = self.eat(TokenKind::RParen);
                if let Err(err) = e {
                    return Err(err);
                }
                Ok(inner)
            },
            _ => Err((pos, Msg::UnexpectedToken)),
        }
    }

    /// Parses postfix method calls: `expr.name(args)...`.
    fn parse_postfix(&mut self) -> (r: Result<Expr, ParseError>)
        requires
            old(self).wf(),
        ensures
            final(self).wf(),
            final(self).tokens == old(self).tokens,
            old(self).pos <= final(self).pos,
            r is Ok ==> final(self).pos > old(self).pos,
        decreases old(self).left(), 11int,
    {
        let mut e = match self.parse_primary() {
            Ok(e) => e,
            Err(err) => {
                return Err(err);
            },
        };
        while self.peek() == TokenKind::Dot
            invariant
                self.wf(),
                self.tokens == old(self).tokens,
                old(self).pos < self.pos,
            decreases self.left(),
        {
            let pos = self.at();
            self.advance();
            let name = match self.eat_ident() {
                Ok(n) => n,
                Err(err) => {
                    return Err(err);
                },
            };
            let args = match self.parse_args() {
                Ok(a) => a,
                Err(err) => {
                    return Err(err);
                },
            };
            let id = self.fresh_id();
            e = Expr::ExprMethodCall(ExprMethodCallType {
                id,
                pos,
                object: Box::new(e),
                name,
                args,
            });
        }
        Ok(e)
    }

    /// Parses multiplicative chains.
    fn parse_mul(&mut self) -> (r: Result<Expr, ParseError>)
        requires
            old(self).wf(),
        ensures
            final(self).wf(),
            final(self).tokens == old(self).tokens,
            old(self).pos <= final(self).pos,
            r is Ok ==> final(self).pos > old(self).pos,
        decreases old(self).left(), 12int,
    {
        let mut e = match self.parse_postfix() {
            Ok(e) => e,
            Err(err) => {
                return Err(err);
            },
        };
        while self.peek() == TokenKind::Star || self.peek() == TokenKind::Slash
            || self.peek() == TokenKind::Percent
            invariant
                self.wf(),
                self.tokens == old(self).tokens,
                old(self).pos < self.pos,
            decreases self.left(),
        {
            let pos = self.at();
            let op = if self.peek() == TokenKind::Star {
                BinOp::Mul
            } else if self.peek() == TokenKind::Slash {
                BinOp::Div
            } else {
                BinOp::Mod
            };
            self.advance();
            let rhs = match self.parse_postfix() {
                Ok(e) => e,
                Err(err) => {
                    return Err(err);
                },
            };
            let id = self.fresh_id();
            e = Expr::ExprBin(ExprBinType {
                id,
                pos,
                op,
                lhs: Box::new(e),
                rhs: Box::new(rhs),
            });
        }
        Ok(e)
    }

    /// Parses additive chains.
    fn parse_add(&mut self) -> (r: Result<Expr, ParseError>)
        requires
            old(self).wf(),
        ensures
            final(self).wf(),
            final(self).tokens == old(self).tokens,
            old(self).pos <= final(self).pos,
            r is Ok ==> final(self).pos > old(self).pos,
        decreases old(self).left(), 13int,
    {
        let mut e = match self.parse_mul() {
            Ok(e) => e,
            Err(err) => {
                return Err(err);
            },
        };
        while self.peek() == TokenKind::Plus || self.peek() == TokenKind::Minus
            invariant
                self.wf(),
                self.tokens == old(self).tokens,
                old(self).pos < self.pos,
            decreases self.left(),
        {
            let pos = self.at();
            let op = if self.peek() == TokenKind::Plus {
                BinOp::Add
            } else {
                BinOp::Sub
            };
            self.advance();
            let rhs = match self.parse_mul() {
                Ok(e) => e,
                Err(err) => {
                    return Err(err);
                },
            };
            let id = self.fresh_id();
            e = Expr::ExprBin(ExprBinType {
                id,
                pos,
                op,
                lhs: Box::new(e),
                rhs: Box::new(rhs),
            });
        }
        Ok(e)
    }

    /// Parses one comparison (`==`, `===`).
    fn parse_cmp(&mut self) -> (r: Result<Expr, ParseError>)
        requires
            old(self).wf(),
        ensures
            final(self).wf(),
            final(self).tokens == old(self).tokens,
            old(self).pos <= final(self).pos,
            r is Ok ==> final(self).pos > old(self).pos,
        decreases old(self).left(), 14int,
    {
        let e = match self.parse_add() {
            Ok(e) => e,
            Err(err) => {
                return Err(err);
            },
        };
        if self.peek() == TokenKind::EqEqEq || self.peek() == TokenKind::EqEq {
            let pos = self.at();
            let op = if self.peek() == TokenKind::EqEqEq {
                BinOp::Cmp(CmpOp::Is)
            } else {
                BinOp::Cmp(CmpOp::Eq)
            };
            self.advance();
            let rhs = match self.parse_add() {
                Ok(e) => e,
                Err(err) => {
                    return Err(err);
                },
            };
            let id = self.fresh_id();
            Ok(Expr::ExprBin(ExprBinType {
                id,
                pos,
                op,
                lhs: Box::new(e),
                rhs: Box::new(rhs),
            }))
        } else {
            Ok(e)
        }
    }

    /// Parses an assignment (`name = expr`) or a plain expression.
    fn parse_assign(&mut self) -> (r: Result<Expr, ParseError>)
        requires
            old(self).wf(),
        ensures
            final(self).wf(),
            final(self).tokens == old(self).tokens,
            old(self).pos <= final(self).pos,
            r is Ok ==> final(self).pos > old(self).pos,
        decreases old(self).left(), 15int,
    {
        let e = match self.parse_cmp() {
            Ok(e) => e,
            Err(err) => {
                return Err(err);
            },
        };
        if self.peek() == TokenKind::Assign {
            let pos = self.at();
            self.advance();
            let rhs = match self.parse_cmp() {
                Ok(e) => e,
                Err(err) => {
                    return Err(err);
                },
            };
            match e {
                Expr::ExprIdent(id_expr) => {
                    let id = self.fresh_id();
                    Ok(Expr::ExprAssign(ExprAssignType {
                        id,
                        pos,
                        name: id_expr.name,
                        rhs: Box::new(rhs),
                    }))
                },
                _ => Err((pos, Msg::LvalueExpected)),
            }
        } else {
            Ok(e)
        }
    }

    /// Parses an expression; `try` marks a throwing call.
    fn parse_expr(&mut self) -> (r: Result<Expr, ParseError>)
        requires
            old(self).wf(),
        ensures
            final(self).wf(),
            final(self).tokens == old(self).tokens,
            old(self).pos <= final(self).pos,
            r is Ok ==> final(self).pos > old(self).pos,
        decreases old(self).left(), 16int,
    {
        if self.peek() == TokenKind::Try {
            let pos = self.at();
            self.advance();
            let inner = match self.parse_assign() {
                Ok(e) => e,
                Err(err) => {
                    return Err(err);
                },
            };
            let id = self.fresh_id();
            Ok(Expr::ExprTry(ExprTryType { id, pos, expr: Box::new(inner) }))
        } else {
            self.parse_assign()
        }
    }

    /// Parses a braced statement block.
    fn parse_block(&mut self) -> (r: Result<Vec<Stmt>, ParseError>)
        requires
            old(self).wf(),
        ensures
            final(self).wf(),
            final(self).tokens == old(self).tokens,
            old(self).pos <= final(self).pos,
            r is Ok ==> final(self).pos > old(self).pos,
        decreases old(self).left(), 18int,
    {
        let e = self.eat(TokenKind::LBrace);
        if let Err(err) = e {
            return Err(err);
        }
        let mut stmts: Vec<Stmt> = Vec::new();
        loop
            invariant
                self.wf(),
                self.tokens == old(self).tokens,
                old(self).pos < self.pos,
            ensures
                self.wf(),
                self.tokens == old(self).tokens,
                old(self).pos < self.pos,
            decreases self.left(),
        {
            if self.peek() == TokenKind::RBrace {
                self.advance();
                return Ok(stmts);
            }
            if self.peek() == TokenKind::End {
                return Err((self.at(), Msg::ExpectedToken));
            }
            let st = match self.parse_stmt() {
                Ok(s) => s,
                Err(err) => {
                    return Err(err);
                },
            };
            stmts.push(st);
        }
    }

    /// Parses one statement.
    fn parse_stmt(&mut self) -> (r: Result<Stmt, ParseError>)
        requires
            old(self).wf(),
        ensures
            final(self).wf(),
            final(self).tokens == old(self).tokens,
            old(self).pos <= final(self).pos,
            r is Ok ==> final(self).pos > old(self).pos,
        decreases old(self).left(), 19int,
    {
        let pos = self.at();
        match self.peek() {
            TokenKind::Let | TokenKind::Var => {
                let reassignable = self.peek() == TokenKind::Var;
                self.advance();
                let name = match self.eat_ident() {
                    Ok(n) => n,
                    Err(err) => {
                        return Err(err);
                    },
                };
                let mut data_type: Option<Type> = None;
                if self.peek() == TokenKind::Colon {
                    self.advance();
                    let t = match self.parse_type() {
                        Ok(t) => t,
                        Err(err) => {
                            return Err(err);
                        },
                    };
                    data_type = Some(t);
                }
                let mut expr: Option<Box<Expr>> = None;
                if self.peek() == TokenKind::Assign {
                    self.advance();
                    let e = match self.parse_expr() {
                        Ok(e) => e,
                        Err(err) => {
                            return Err(err);
                        },
                    };
                    expr = Some(Box::new(e));
                }
                let e = self.eat(TokenKind::Semicolon);
                if let Err(err) = e {
                    return Err(err);
                }
                let id = self.fresh_id();
                Ok(Stmt::StmtVar(StmtVarType { id, pos, name, reassignable, data_type, expr }))
            },
            TokenKind::Return => {
                self.advance();
                let mut expr: Option<Box<Expr>> = None;
                if self.peek() != TokenKind::Semicolon {
                    let e = match self.parse_expr() {
                        Ok(e) => e,
                        Err(err) => {
                            return Err(err);
                        },
                    };
                    expr = Some(Box::new(e));
                }
                let e = self.eat(TokenKind::Semicolon);
                if let Err(err) = e {
                    return Err(err);
                }
                let id = self.fresh_id();
                Ok(Stmt::StmtReturn(StmtReturnType { id, pos, expr }))
            },
            TokenKind::Do => {
                self.advance();
                let do_block = match self.parse_block() {
                    Ok(b) => b,
                    Err(err) => {
                        return Err(err);
                    },
                };
                let mut catch_blocks: Vec<CatchClause> = Vec::new();
                while self.peek() == TokenKind::Catch
                    invariant
                        self.wf(),
                        self.tokens == old(self).tokens,
                        old(self).pos < self.pos,
                    decreases self.left(),
                {
                    let cpos = self.at();
                    self.advance();
                    let name = match self.eat_ident() {
                        Ok(n) => n,
                        Err(err) => {
                            return Err(err);
                        },
                    };
                    let e = self.eat(TokenKind::Colon);
                    if let Err(err) = e {
                        return Err(err);
                    }
                    let data_type = match self.parse_type() {
                        Ok(t) => t,
                        Err(err) => {
                            return Err(err);
                        },
                    };
                    let block = match self.parse_block() {
                        Ok(b) => b,
                        Err(err) => {
                            return Err(err);
                        },
                    };
                    catch_blocks.push(CatchClause { name, pos: cpos, data_type, block });
                }
                let id = self.fresh_id();
                Ok(Stmt::StmtDo(StmtDoType { id, pos, do_block, catch_blocks }))
            },
            TokenKind::LBrace => {
                let stmts = match self.parse_block() {
                    Ok(b) => b,
                    Err(err) => {
                        return Err(err);
                    },
                };
                let id = self.fresh_id();
                Ok(Stmt::StmtBlock(StmtBlockType { id, pos, stmts }))
            },
            _ => {
                let e = match self.parse_expr() {
                    Ok(e) => e,
                    Err(err) => {
                        return Err(err);
                    },
                };
                let semi = self.eat(TokenKind::Semicolon);
                if let Err(err) = semi {
                    return Err(err);
                }
                let id = self.fresh_id();
                Ok(Stmt::StmtExpr(StmtExprType { id, pos, expr: Box::new(e) }))
            },
        }
    }

    /// Parses a function declaration (the `fun` keyword is consumed already).
    fn parse_function(&mut self, pos: Position) -> (r: Result<Function, ParseError>)
        requires
            old(self).wf(),
        ensures
            final(self).wf(),
            final(self).tokens == old(self).tokens,
            old(self).pos <= final(self).pos,
        decreases old(self).left(), 21int,
    {
        let name = match self.eat_ident() {
            Ok(n) => n,
            Err(err) => {
                return Err(err);
            },
        };
        let e = self.eat(TokenKind::LParen);
        if let Err(err) = e {
            return Err(err);
        }
        let mut params: Vec<Param> = Vec::new();
        let mut idx: u32 = 0;
        if self.peek() != TokenKind::RParen {
            loop
                invariant
                    self.wf(),
                    self.tokens == old(self).tokens,
                    old(self).pos < self.pos,
                ensures
                    self.wf(),
                    self.tokens == old(self).tokens,
                    old(self).pos < self.pos,
                decreases self.left(),
            {
                let ppos = self.at();
                let mut reassignable = false;
                if self.peek() == TokenKind::Var {
                    reassignable = true;
                    self.advance();
                }
                let pname = match self.eat_ident() {
                    Ok(n) => n,
                    Err(err) => {
                        return Err(err);
                    },
                };
                let e = self.eat(TokenKind::Colon);
                if let Err(err) = e {
                    return Err(err);
                }
                let data_type = match self.parse_type() {
                    Ok(t) => t,
                    Err(err) => {
                        return Err(err);
                    },
                };
                let id = self.fresh_id();
                params.push(Param { id, idx, reassignable, name: pname, pos: ppos, data_type });
                idx = if idx < u32::MAX { idx + 1 } else { idx };
                if self.peek() == TokenKind::Comma {
                    self.advance();
                } else {
                    break;
                }
            }
        }
        let e = self.eat(TokenKind::RParen);
        if let Err(err) = e {
            return Err(err);
        }
        let mut throws = false;
        if self.peek() == TokenKind::Throws {
            throws = true;
            self.advance();
        }
        let mut return_type: Option<Type> = None;
        if self.peek() == TokenKind::Arrow {
            self.advance();
            let t = match self.parse_type() {
                Ok(t) => t,
                Err(err) => {
                    return Err(err);
                },
            };
            return_type = Some(t);
        }
        let block = match self.parse_block() {
            Ok(b) => b,
            Err(err) => {
                return Err(err);
            },
        };
        let id = self.fresh_id();
        Ok(Function { id, name, pos, params, throws, return_type, block })
    }

    /// Parses a struct declaration (the `struct` keyword is consumed
    /// already).
    fn parse_struct(&mut self, pos: Position) -> (r: Result<Struct, ParseError>)
        requires
            old(self).wf(),
        ensures
            final(self).wf(),
            final(self).tokens == old(self).tokens,
            old(self).pos <= final(self).pos,
        decreases old(self).left(), 21int,
    {
        let name = match self.eat_ident() {
            Ok(n) => n,
            Err(err) => {
                return Err(err);
            },
        };
        let e = self.eat(TokenKind::LBrace);
        if let Err(err) = e {
            return Err(err);
        }
        let mut fields: Vec<StructField> = Vec::new();
        if self.peek() != TokenKind::RBrace {
            loop
                invariant
                    self.wf(),
                    self.tokens == old(self).tokens,
                    old(self).pos < self.pos,
                ensures
                    self.wf(),
                    self.tokens == old(self).tokens,
                    old(self).pos < self.pos,
                decreases self.left(),
            {
                let fpos = self.at();
                let fname = match self.eat_ident() {
                    Ok(n) => n,
                    Err(err) => {
                        return Err(err);
                    },
                };
                let e = self.eat(TokenKind::Colon);
                if let Err(err) = e {
                    return Err(err);
                }
                let data_type = match self.parse_type() {
                    Ok(t) => t,
                    Err(err) => {
                        return Err(err);
                    },
                };
                let id = self.fresh_id();
                fields.push(StructField { id, name: fname, pos: fpos, data_type });
                if self.peek() == TokenKind::Comma {
                    self.advance();
                } else {
                    break;
                }
            }
        }
        let e = self.eat(TokenKind::RBrace);
        if let Err(err) = e {
            return Err(err);
        }
        let id = self.fresh_id();
        Ok(Struct { id, pos, name, fields })
    }

    /// Parses the whole file: a list of functions and structs.
    pub fn parse_file(&mut self) -> (r: Result<File, ParseError>)
        requires
            old(self).wf(),
        ensures
            final(self).wf(),
            final(self).tokens == old(self).tokens,
    {
        let mut elements: Vec<Elem> = Vec::new();
        loop
            invariant
                self.wf(),
                self.tokens == old(self).tokens,
            ensures
                self.wf(),
                self.tokens == old(self).tokens,
            decreases self.left(),
        {
            let pos = self.at();
            match self.peek() {
                TokenKind::End => {
                    return Ok(File { elements });
                },
                TokenKind::Fun => {
                    self.advance();
                    let f = match self.parse_function(pos) {
                        Ok(f) => f,
                        Err(err) => {
                            return Err(err);
                        },
                    };
                    elements.push(Elem::ElemFunction(f));
                },
                TokenKind::Struct => {
                    self.advance();
                    let st = match self.parse_struct(pos) {
                        Ok(s) => s,
                        Err(err) => {
                            return Err(err);
                        },
                    };
                    elements.push(Elem::ElemStruct(st));
                },
                _ => {
                    return Err((pos, Msg::ExpectedTopLevelElement));
                },
            }
        }
    }
}

} // verus!
