//! The recursive-descent parser: one method per grammar rule, each proved to
//! read exactly what the rule of the same name in [`crate::grammar`] reads.

use vstd::prelude::*;
use crate::ast::{ASTNode, Ast, SyntaxError, names_view, nodes_view};
use crate::grammar::{
    Parsed, Rule, accept_at, actual_parameters, actual_parameters_tail, after, assignment,
    begin_command, call, command, command_tail, const_form, declaration_sequence,
    declaration_tail, expression, formal_parameter, formal_parameters, formal_parameters_tail,
    func_form, identifier_at, if_command, if_expression, let_command, let_expression,
    parenthesized, primary_expression, second_expression, second_expression_tail,
    single_command, single_declaration, token_readable, typed_name, unexpected,
    well_formed_stream, while_command,
};
use crate::numbers::parse_i64;
use crate::token::{Token, TokenType, TokenView, tokens_view};

verus! {

/// A cursor over a token sequence. `current_token` is a copy of the token at
/// `index`; the index only moves forward and never leaves the sequence.
pub struct Parser {
    pub current_token: Token,
    pub tokens: Vec<Token>,
    pub index: usize,
}

/// The value of a parsed node or the error, for comparison with the grammar.
pub open spec fn node_outcome(r: Result<ASTNode, SyntaxError>) -> Result<Ast, SyntaxError> {
    match r {
        Ok(node) => Ok(node@),
        Err(e) => Err(e),
    }
}

/// The values of a parsed node list or the error.
pub open spec fn list_outcome(r: Result<Vec<ASTNode>, SyntaxError>) -> Result<
    Seq<Ast>,
    SyntaxError,
> {
    match r {
        Ok(list) => Ok(nodes_view(list@)),
        Err(e) => Err(e),
    }
}

/// The value of a parsed name or the error.
pub open spec fn name_outcome(r: Result<String, SyntaxError>) -> Result<Seq<char>, SyntaxError> {
    match r {
        Ok(name) => Ok(name@),
        Err(e) => Err(e),
    }
}

/// The error `e` names the kind and position of the token `t`.
pub open spec fn error_at(e: SyntaxError, t: TokenView) -> bool {
    e->found == t.token_type && e->row == t.row && e->col == t.col
}

/// Pushing a node onto a list pushes its value onto the list's values.
pub proof fn lemma_nodes_view_push(list: Seq<ASTNode>, node: ASTNode)
    ensures
        nodes_view(list.push(node)) == nodes_view(list).push(node@),
{
    assert(nodes_view(list.push(node)) =~= nodes_view(list).push(node@));
}

impl Parser {
    /// The token sequence as the grammar sees it.
    pub open spec fn stream(&self) -> Seq<TokenView> {
        tokens_view(self.tokens@)
    }

    /// The cursor stands on a token of a well-formed sequence and
    /// `current_token` is that token.
    pub open spec fn wf(&self) -> bool {
        &&& self.index < self.tokens.len()
        &&& self.current_token@ == self.tokens[self.index as int]@
        &&& well_formed_stream(self.stream())
    }

    /// `self` is what `before` becomes when a rule reads `step` there and
    /// returns `got`: the same tokens, the cursor `step.used` tokens further,
    /// the result that of the rule, and an error that points at the token
    /// under the cursor.
    pub open spec fn follows<T>(
        &self,
        before: &Parser,
        step: Parsed<T>,
        got: Result<T, SyntaxError>,
    ) -> bool {
        &&& self.wf()
        &&& self.tokens == before.tokens
        &&& self.index == before.index + step.used
        &&& got == step.result
        &&& got matches Err(e) ==> error_at(e, self.current_token@)
    }

    /// A parser at the first token. The sequence must not be empty.
    pub fn new(tokens: Vec<Token>) -> (p: Self)
        requires
            tokens.len() > 0,
        ensures
            p.tokens == tokens,
            p.index == 0,
            p.current_token@ == tokens[0]@,
            well_formed_stream(tokens_view(tokens@)) ==> p.wf(),
    {
        let current_token = tokens[0].clone();
        Parser { current_token, tokens, index: 0 }
    }

    /// Moves to the next token, unless the cursor is on the last one.
    fn next_token(&mut self)
        requires
            old(self).wf(),
        ensures
            final(self).wf(),
            final(self).tokens == old(self).tokens,
            final(self).index == if old(self).index + 1 < old(self).tokens.len() {
                old(self).index + 1
            } else {
                old(self).index as int
            },
    {
        if self.index < self.tokens.len() - 1 {
            self.index += 1;
            self.current_token = self.tokens[self.index].clone();
        }
    }

    /// The error for the token under the cursor, where one of kind
    /// `expected` had to be.
    fn unexpected_here(&self, expected: TokenType) -> (e: SyntaxError)
        requires
            self.wf(),
        ensures
            e == unexpected(expected, self.stream()[self.index as int]),
            error_at(e, self.current_token@),
    {
        SyntaxError::UnexpectedToken {
            expected,
            found: self.current_token.token_type,
            row: self.current_token.row,
            col: self.current_token.col,
        }
    }

    /// Moves past a token of kind `expected`, or reports the token found in
    /// its place and stays.
    fn accept(&mut self, expected: TokenType) -> (r: Result<(), SyntaxError>)
        requires
            old(self).wf(),
            expected != TokenType::EOF,
        ensures
            final(self).follows(
                old(self),
                accept_at(old(self).stream(), old(self).index as int, expected),
                r,
            ),
    {
        if self.current_token.token_type == expected {
            self.next_token();
            Ok(())
        } else {
            Err(self.unexpected_here(expected))
        }
    }

    /// Identifier: moves past it and gives its name.
    fn parse_identifier(&mut self) -> (r: Result<String, SyntaxError>)
        requires
            old(self).wf(),
        ensures
            final(self).follows(
                old(self),
                identifier_at(old(self).stream(), old(self).index as int),
                name_outcome(r),
            ),
    {
        if let TokenType::Identifier = self.current_token.token_type {
            let name = self.current_token.lexeme.clone();
            self.next_token();
            Ok(name)
        } else {
            Err(self.unexpected_here(TokenType::Identifier))
        }
    }

    /// FormalParam.
    fn parse_formal_parameter(&mut self) -> (r: Result<ASTNode, SyntaxError>)
        requires
            old(self).wf(),
        ensures
            final(self).follows(
                old(self),
                formal_parameter(old(self).stream(), old(self).index as int),
                node_outcome(r),
            ),
    {
        proof {
            reveal(formal_parameter);
        }
        if self.current_token.token_type == TokenType::Var {
            self.next_token();
            self.parse_typed_name()
        } else {
            self.parse_typed_name()
        }
    }

    /// FormalParams.
    fn parse_formal_parameter_sequence(&mut self) -> (r: Result<Vec<ASTNode>, SyntaxError>)
        requires
            old(self).wf(),
        ensures
            final(self).follows(
                old(self),
                formal_parameters(old(self).stream(), old(self).index as int),
                list_outcome(r),
            ),
    {
        proof {
            reveal(formal_parameters);
        }
        let mut params: Vec<ASTNode> = Vec::new();
        let ghost toks = self.stream();
        let ghost start = self.index as int;
        if self.current_token.token_type != TokenType::RightParen {
            let first = self.parse_formal_parameter()?;
            params.push(first);
            proof {
                assert(nodes_view(params@) =~= seq![first@]);
            }
            while self.current_token.token_type == TokenType::Comma
                invariant
                    self.wf(),
                    self.tokens == old(self).tokens,
                    toks == self.stream(),
                    start == old(self).index,
                    start <= self.index,
                    formal_parameters(toks, start) == after(
                        (self.index - start) as nat,
                        formal_parameters_tail(toks, self.index as int, nodes_view(params@)),
                    ),
                decreases self.tokens.len() - self.index,
            {
                self.next_token();
                let next = self.parse_formal_parameter()?;
                proof {
                    lemma_nodes_view_push(params@, next);
                }
                params.push(next);
            }
        } else {
            proof {
                assert(nodes_view(params@) =~= Seq::<Ast>::empty());
            }
        }
        Ok(params)
    }

    /// `id : id`, in a `Var` node.
    fn parse_typed_name(&mut self) -> (r: Result<ASTNode, SyntaxError>)
        requires
            old(self).wf(),
        ensures
            final(self).follows(
                old(self),
                typed_name(old(self).stream(), old(self).index as int),
                node_outcome(r),
            ),
    {
        proof {
            reveal(typed_name);
        }
        let name = self.parse_identifier()?;
        self.accept(TokenType::Colon)?;
        let of_type = self.parse_identifier()?;
        Ok(ASTNode::Var(name, of_type))
    }

    /// What follows `const`: `id ~ Expr`.
    fn parse_const_form(&mut self) -> (r: Result<ASTNode, SyntaxError>)
        requires
            old(self).wf(),
        ensures
            final(self).follows(
                old(self),
                const_form(old(self).stream(), old(self).index as int),
                node_outcome(r),
            ),
        decreases old(self).tokens.len() - old(self).index, Rule::ConstForm.rank(),
    {
        let name = self.parse_identifier()?;
        self.accept(TokenType::Tilde)?;
        let expr = self.parse_expression()?;
        Ok(ASTNode::Const(name, Box::new(expr)))
    }

    /// What follows `func`: `id ( FormalParams ) : id ~ Expr`.
    fn parse_func_form(&mut self) -> (r: Result<ASTNode, SyntaxError>)
        requires
            old(self).wf(),
        ensures
            final(self).follows(
                old(self),
                func_form(old(self).stream(), old(self).index as int),
                node_outcome(r),
            ),
        decreases old(self).tokens.len() - old(self).index, Rule::FuncForm.rank(),
    {
        let name = self.parse_identifier()?;
        self.accept(TokenType::LeftParen)?;
        let params = self.parse_formal_parameter_sequence()?;
        self.accept(TokenType::RightParen)?;
        self.accept(TokenType::Colon)?;
        let return_type = self.parse_identifier()?;
        self.accept(TokenType::Tilde)?;
        let body = self.parse_expression()?;
        Ok(ASTNode::Func(name, params, return_type, Box::new(body)))
    }

    /// What follows `name (`: `ActualParams )`.
    fn parse_call(&mut self, name: String) -> (r: Result<ASTNode, SyntaxError>)
        requires
            old(self).wf(),
        ensures
            final(self).follows(
                old(self),
                call(old(self).stream(), old(self).index as int, name@),
                node_outcome(r),
            ),
        decreases old(self).tokens.len() - old(self).index, Rule::Call(name@).rank(),
    {
        let params = self.parse_actual_parameter_sequence()?;
        self.accept(TokenType::RightParen)?;
        Ok(ASTNode::Call(name, params))
    }

    /// What follows `(`: `Expr )`.
    fn parse_parenthesized(&mut self) -> (r: Result<ASTNode, SyntaxError>)
        requires
            old(self).wf(),
        ensures
            final(self).follows(
                old(self),
                parenthesized(old(self).stream(), old(self).index as int),
                node_outcome(r),
            ),
        decreases old(self).tokens.len() - old(self).index, Rule::Parenthesized.rank(),
    {
        let expr = self.parse_expression()?;
        self.accept(TokenType::RightParen)?;
        Ok(ASTNode::Expression(Box::new(expr)))
    }

    /// PrimaryExpr.
    fn parse_primary_expression(&mut self) -> (r: Result<ASTNode, SyntaxError>)
        requires
            old(self).wf(),
        ensures
            final(self).follows(
                old(self),
                primary_expression(old(self).stream(), old(self).index as int),
                node_outcome(r),
            ),
        decreases old(self).tokens.len() - old(self).index, Rule::PrimaryExpression.rank(),
    {
        proof {
            reveal(token_readable);
        }
        match self.current_token.token_type {
            TokenType::IntegerLiteral => {
                let value = parse_i64(self.current_token.lexeme.as_str()).unwrap();
                self.next_token();
                Ok(ASTNode::Number(value))
            },
            TokenType::CharLiteral => {
                let value = self.current_token.lexeme.as_str().get_char(0);
                self.next_token();
                Ok(ASTNode::Char(value))
            },
            TokenType::Identifier => {
                let name = self.parse_identifier()?;
                if self.current_token.token_type == TokenType::LeftParen {
                    self.next_token();
                    self.parse_call(name)
                } else {
                    Ok(ASTNode::Identifier(name))
                }
            },
            TokenType::LeftParen => {
                self.next_token();
                self.parse_parenthesized()
            },
            _ => Err(self.unexpected_here(TokenType::Identifier)),
        }
    }

    /// SecondExpr.
    fn parse_second_expression(&mut self) -> (r: Result<ASTNode, SyntaxError>)
        requires
            old(self).wf(),
        ensures
            final(self).follows(
                old(self),
                second_expression(old(self).stream(), old(self).index as int),
                node_outcome(r),
            ),
        decreases old(self).tokens.len() - old(self).index, Rule::SecondExpression.rank(),
    {
        let primary = self.parse_primary_expression()?;
        self.parse_second_expression_prime(primary)
    }

    /// The operators and operands that follow the operand `left`.
    fn parse_second_expression_prime(&mut self, left: ASTNode) -> (r: Result<
        ASTNode,
        SyntaxError,
    >)
        requires
            old(self).wf(),
        ensures
            final(self).follows(
                old(self),
                second_expression_tail(old(self).stream(), old(self).index as int, left@),
                node_outcome(r),
            ),
        decreases old(self).tokens.len() - old(self).index, Rule::SecondExpressionTail(left@).rank(),
    {
        if self.current_token.token_type == TokenType::Operator {
            let op = self.current_token.lexeme.clone();
            self.next_token();
            let right = self.parse_primary_expression()?;
            let expr = ASTNode::Operator(op, Box::new(left), Box::new(right));
            self.parse_second_expression_prime(expr)
        } else {
            Ok(left)
        }
    }

    /// What follows `let` in an expression: `DeclSeq in Expr`.
    fn parse_let_expression(&mut self) -> (r: Result<ASTNode, SyntaxError>)
        requires
            old(self).wf(),
        ensures
            final(self).follows(
                old(self),
                let_expression(old(self).stream(), old(self).index as int),
                node_outcome(r),
            ),
        decreases old(self).tokens.len() - old(self).index, Rule::LetExpression.rank(),
    {
        let decls = self.parse_declaration_sequence()?;
        self.accept(TokenType::In)?;
        let expr = self.parse_expression()?;
        Ok(ASTNode::Let(Box::new(decls), Box::new(expr)))
    }

    /// What follows `if` in an expression: `Expr then Expr else Expr`.
    fn parse_if_expression(&mut self) -> (r: Result<ASTNode, SyntaxError>)
        requires
            old(self).wf(),
        ensures
            final(self).follows(
                old(self),
                if_expression(old(self).stream(), old(self).index as int),
                node_outcome(r),
            ),
        decreases old(self).tokens.len() - old(self).index, Rule::IfExpression.rank(),
    {
        let condition = self.parse_expression()?;
        self.accept(TokenType::Then)?;
        let first = self.parse_expression()?;
        self.accept(TokenType::Else)?;
        let second = self.parse_expression()?;
        Ok(ASTNode::If(Box::new(condition), Box::new(first), Box::new(second)))
    }

    /// Expr.
    fn parse_expression(&mut self) -> (r: Result<ASTNode, SyntaxError>)
        requires
            old(self).wf(),
        ensures
            final(self).follows(
                old(self),
                expression(old(self).stream(), old(self).index as int),
                node_outcome(r),
            ),
        decreases old(self).tokens.len() - old(self).index, Rule::Expression.rank(),
    {
        match self.current_token.token_type {
            TokenType::Let => {
                self.next_token();
                self.parse_let_expression()
            },
            TokenType::If => {
                self.next_token();
                self.parse_if_expression()
            },
            _ => self.parse_second_expression(),
        }
    }

    /// ActualParams.
    fn parse_actual_parameter_sequence(&mut self) -> (r: Result<Vec<ASTNode>, SyntaxError>)
        requires
            old(self).wf(),
        ensures
            final(self).follows(
                old(self),
                actual_parameters(old(self).stream(), old(self).index as int),
                list_outcome(r),
            ),
        decreases old(self).tokens.len() - old(self).index, Rule::ActualParameters.rank(),
    {
        let mut params: Vec<ASTNode> = Vec::new();
        let ghost toks = self.stream();
        let ghost start = self.index as int;
        if self.current_token.token_type != TokenType::RightParen {
            let first = self.parse_expression()?;
            params.push(first);
            proof {
                assert(nodes_view(params@) =~= seq![first@]);
            }
            while self.current_token.token_type == TokenType::Comma
                invariant
                    self.wf(),
                    self.tokens == old(self).tokens,
                    toks == self.stream(),
                    start == old(self).index,
                    start <= self.index,
                    actual_parameters(toks, start) == after(
                        (self.index - start) as nat,
                        actual_parameters_tail(toks, self.index as int, nodes_view(params@)),
                    ),
                decreases self.tokens.len() - self.index,
            {
                self.next_token();
                let next = self.parse_expression()?;
                proof {
                    lemma_nodes_view_push(params@, next);
                }
                params.push(next);
            }
        } else {
            proof {
                assert(nodes_view(params@) =~= Seq::<Ast>::empty());
            }
        }
        Ok(params)
    }

    /// SingleDecl.
    fn parse_single_declaration(&mut self) -> (r: Result<ASTNode, SyntaxError>)
        requires
            old(self).wf(),
        ensures
            final(self).follows(
                old(self),
                single_declaration(old(self).stream(), old(self).index as int),
                node_outcome(r),
            ),
        decreases old(self).tokens.len() - old(self).index, Rule::SingleDeclaration.rank(),
    {
        match self.current_token.token_type {
            TokenType::Const => {
                self.next_token();
                self.parse_const_form()
            },
            TokenType::Var => {
                self.next_token();
                self.parse_typed_name()
            },
            TokenType::Func => {
                self.next_token();
                self.parse_func_form()
            },
            _ => Err(self.unexpected_here(TokenType::Const)),
        }
    }

    /// DeclSeq.
    fn parse_declaration_sequence(&mut self) -> (r: Result<ASTNode, SyntaxError>)
        requires
            old(self).wf(),
        ensures
            final(self).follows(
                old(self),
                declaration_sequence(old(self).stream(), old(self).index as int),
                node_outcome(r),
            ),
        decreases old(self).tokens.len() - old(self).index, Rule::DeclarationSequence.rank(),
    {
        let ghost toks = self.stream();
        let ghost start = self.index as int;
        let first = self.parse_single_declaration()?;
        let mut declarations: Vec<ASTNode> = Vec::new();
        declarations.push(first);
        proof {
            assert(nodes_view(declarations@) =~= seq![first@]);
        }
        while self.current_token.token_type == TokenType::Semicolon
            invariant
                self.wf(),
                self.tokens == old(self).tokens,
                toks == self.stream(),
                start == old(self).index,
                start <= self.index,
                declarations.len() >= 1,
                declaration_sequence(toks, start) == after(
                    (self.index - start) as nat,
                    declaration_tail(toks, self.index as int, nodes_view(declarations@)),
                ),
            decreases self.tokens.len() - self.index,
        {
            self.next_token();
            let next = self.parse_single_declaration()?;
            proof {
                lemma_nodes_view_push(declarations@, next);
            }
            declarations.push(next);
        }
        if declarations.len() == 1 {
            Ok(declarations.pop().unwrap())
        } else {
            Ok(ASTNode::Declaration(declarations))
        }
    }

    /// What follows `let` in a command: `DeclSeq in Command`.
    fn parse_let_command(&mut self) -> (r: Result<ASTNode, SyntaxError>)
        requires
            old(self).wf(),
        ensures
            final(self).follows(
                old(self),
                let_command(old(self).stream(), old(self).index as int),
                node_outcome(r),
            ),
        decreases old(self).tokens.len() - old(self).index, Rule::LetCommand.rank(),
    {
        let decl = self.parse_declaration_sequence()?;
        self.accept(TokenType::In)?;
        let cmd = self.parse_command()?;
        Ok(ASTNode::Let(Box::new(decl), Box::new(cmd)))
    }

    /// What follows `if` in a command: `Expr then Command else Command`.
    fn parse_if_command(&mut self) -> (r: Result<ASTNode, SyntaxError>)
        requires
            old(self).wf(),
        ensures
            final(self).follows(
                old(self),
                if_command(old(self).stream(), old(self).index as int),
                node_outcome(r),
            ),
        decreases old(self).tokens.len() - old(self).index, Rule::IfCommand.rank(),
    {
        let condition = self.parse_expression()?;
        self.accept(TokenType::Then)?;
        let first = self.parse_command()?;
        self.accept(TokenType::Else)?;
        let second = self.parse_command()?;
        Ok(ASTNode::If(Box::new(condition), Box::new(first), Box::new(second)))
    }

    /// What follows `while`: `Expr do Command`.
    fn parse_while_command(&mut self) -> (r: Result<ASTNode, SyntaxError>)
        requires
            old(self).wf(),
        ensures
            final(self).follows(
                old(self),
                while_command(old(self).stream(), old(self).index as int),
                node_outcome(r),
            ),
        decreases old(self).tokens.len() - old(self).index, Rule::WhileCommand.rank(),
    {
        let condition = self.parse_expression()?;
        self.accept(TokenType::Do)?;
        let body = self.parse_command()?;
        Ok(ASTNode::While(Box::new(condition), Box::new(body)))
    }

    /// What follows `begin`: `Command end`. Gives the inner command itself.
    fn parse_begin_command(&mut self) -> (r: Result<ASTNode, SyntaxError>)
        requires
            old(self).wf(),
        ensures
            final(self).follows(
                old(self),
                begin_command(old(self).stream(), old(self).index as int),
                node_outcome(r),
            ),
        decreases old(self).tokens.len() - old(self).index, Rule::BeginCommand.rank(),
    {
        let commands = self.parse_command()?;
        self.accept(TokenType::End)?;
        Ok(commands)
    }

    /// What follows `name :=`: `Expr`.
    fn parse_assignment(&mut self, name: String) -> (r: Result<ASTNode, SyntaxError>)
        requires
            old(self).wf(),
        ensures
            final(self).follows(
                old(self),
                assignment(old(self).stream(), old(self).index as int, name@),
                node_outcome(r),
            ),
        decreases old(self).tokens.len() - old(self).index, Rule::Assignment(name@).rank(),
    {
        let expr = self.parse_expression()?;
        let mut path: Vec<String> = Vec::new();
        path.push(name);
        proof {
            assert(names_view(path@) =~= seq![name@]);
        }
        Ok(ASTNode::Assign(path, Box::new(expr)))
    }

    /// SingleCommand.
    fn parse_single_command(&mut self) -> (r: Result<ASTNode, SyntaxError>)
        requires
            old(self).wf(),
        ensures
            final(self).follows(
                old(self),
                single_command(old(self).stream(), old(self).index as int),
                node_outcome(r),
            ),
        decreases old(self).tokens.len() - old(self).index, Rule::SingleCommand.rank(),
    {
        match self.current_token.token_type {
            TokenType::Let => {
                self.next_token();
                self.parse_let_command()
            },
            TokenType::Const => {
                self.next_token();
                self.parse_const_form()
            },
            TokenType::Var => {
                self.next_token();
                self.parse_typed_name()
            },
            TokenType::Func => {
                self.next_token();
                self.parse_func_form()
            },
            TokenType::If => {
                self.next_token();
                self.parse_if_command()
            },
            TokenType::While => {
                self.next_token();
                self.parse_while_command()
            },
            TokenType::Begin => {
                self.next_token();
                self.parse_begin_command()
            },
            TokenType::Identifier => {
                let name = self.parse_identifier()?;
                if self.current_token.token_type == TokenType::Assign {
                    self.next_token();
                    self.parse_assignment(name)
                } else if self.current_token.token_type == TokenType::LeftParen {
                    self.next_token();
                    self.parse_call(name)
                } else {
                    Err(self.unexpected_here(TokenType::Assign))
                }
            },
            _ => Err(self.unexpected_here(TokenType::Identifier)),
        }
    }

    /// Command.
    fn parse_command(&mut self) -> (r: Result<ASTNode, SyntaxError>)
        requires
            old(self).wf(),
        ensures
            final(self).follows(
                old(self),
                command(old(self).stream(), old(self).index as int),
                node_outcome(r),
            ),
        decreases old(self).tokens.len() - old(self).index, Rule::Command.rank(),
    {
        let ghost toks = self.stream();
        let ghost start = self.index as int;
        let first = self.parse_single_command()?;
        let mut commands: Vec<ASTNode> = Vec::new();
        commands.push(first);
        proof {
            assert(nodes_view(commands@) =~= seq![first@]);
        }
        while self.current_token.token_type == TokenType::Semicolon
            invariant
                self.wf(),
                self.tokens == old(self).tokens,
                toks == self.stream(),
                start == old(self).index,
                start <= self.index,
                commands.len() >= 1,
                command(toks, start) == after(
                    (self.index - start) as nat,
                    command_tail(toks, self.index as int, nodes_view(commands@)),
                ),
            decreases self.tokens.len() - self.index,
        {
            self.next_token();
            let next = self.parse_single_command()?;
            proof {
                lemma_nodes_view_push(commands@, next);
            }
            commands.push(next);
        }
        if commands.len() == 1 {
            Ok(commands.pop().unwrap())
        } else {
            Ok(ASTNode::Command(commands))
        }
    }

    /// Reads the command that starts under the cursor: the tree that the
    /// grammar's top rule gives for the token sequence from there, or the
    /// first syntax error, which names the token that the cursor is then on.
    pub fn parse(&mut self) -> (r: Result<ASTNode, SyntaxError>)
        requires
            old(self).wf(),
        ensures
            final(self).follows(
                old(self),
                command(old(self).stream(), old(self).index as int),
                node_outcome(r),
            ),
    {
        self.parse_command()
    }
}

/// Whether the parser can take `tokens`: whether they are a well-formed
/// sequence.
pub fn is_well_formed(tokens: &Vec<Token>) -> (ok: bool)
    ensures
        ok == well_formed_stream(tokens_view(tokens@)),
{
    let n = tokens.len();
    if n == 0 {
        return false;
    }
    if tokens[n - 1].token_type != TokenType::EOF {
        return false;
    }
    let mut i: usize = 0;
    while i < n
        invariant
            i <= n,
            n == tokens.len(),
            forall|k: int| 0 <= k < i ==> token_readable(#[trigger] tokens_view(tokens@)[k]),
        decreases n - i,
    {
        proof {
            reveal(token_readable);
            assert(tokens_view(tokens@)[i as int] == tokens[i as int]@);
        }
        let token = &tokens[i];
        let readable = match token.token_type {
            TokenType::IntegerLiteral => parse_i64(token.lexeme.as_str()).is_some(),
            TokenType::CharLiteral => token.lexeme.as_str().unicode_len() > 0,
            _ => true,
        };
        if !readable {
            return false;
        }
        i = i + 1;
    }
    true
}

} // verus!
