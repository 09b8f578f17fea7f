//! The grammar, as a mathematical function: [`reads`] takes a rule, a token
//! sequence and a position and gives what the rule reads there, a tree or the
//! first syntax error, together with the number of tokens it moves past.
//!
//! Every rule looks at one token only before it decides. An expression is a
//! chain of primaries joined by operators, all of one strength, grouped from
//! the left. A sequence of one command or declaration is that command or
//! declaration itself; only two or more are wrapped in a list node.
//!
//! The rules call one another, so they are the cases of one recursive
//! function; the functions named after them ([`command`], [`expression`] and
//! the others) pick a case. A proof that reasons about one rule then sees the
//! definition of that rule and no other.

use vstd::prelude::*;
use crate::ast::{Ast, SyntaxError};
use crate::numbers::signed_value;
use crate::token::{TokenType, TokenView};

verus! {

/// What a rule read: its value or the error it met, and how many tokens the
/// cursor moved. After an error the cursor stays on the offending token.
pub struct Parsed<T> {
    pub result: Result<T, SyntaxError>,
    pub used: nat,
}

/// A rule that read `value` and moved `used` tokens.
pub open spec fn parsed<T>(value: T, used: nat) -> Parsed<T> {
    Parsed { result: Ok(value), used }
}

/// A rule that met `error` after it had moved `used` tokens.
pub open spec fn failed<T>(error: SyntaxError, used: nat) -> Parsed<T> {
    Parsed { result: Err(error), used }
}

/// `step`, read after `n` tokens that came before it.
pub open spec fn after<T>(n: nat, step: Parsed<T>) -> Parsed<T> {
    Parsed { result: step.result, used: n + step.used }
}

/// The error for a token `at` that stands where one of kind `expected` had
/// to be.
pub open spec fn unexpected(expected: TokenType, at: TokenView) -> SyntaxError {
    SyntaxError::UnexpectedToken { expected, found: at.token_type, row: at.row, col: at.col }
}

/// How many tokens lie at or behind `pos`.
pub open spec fn remaining(toks: Seq<TokenView>, pos: int) -> nat {
    if pos < toks.len() {
        (toks.len() - pos) as nat
    } else {
        0
    }
}

/// The number that an integer literal's text denotes.
pub open spec fn literal_number(lexeme: Seq<char>) -> i64 {
    match signed_value(lexeme) {
        Some(value) => value,
        None => 0,
    }
}

/// The character that a character literal's text denotes: its first.
pub open spec fn literal_char(lexeme: Seq<char>) -> char {
    if lexeme.len() > 0 {
        lexeme[0]
    } else {
        '\0'
    }
}

/// A token that the parser can take: an integer literal denotes a number
/// that fits 64 bits, a character literal holds a character.
#[verifier::opaque]
pub open spec fn token_readable(t: TokenView) -> bool {
    &&& t.token_type == TokenType::IntegerLiteral ==> signed_value(t.lexeme) is Some
    &&& t.token_type == TokenType::CharLiteral ==> t.lexeme.len() > 0
}

/// A token sequence that the parser can take: not empty, closed by an
/// end-of-input token, every token readable.
pub open spec fn well_formed_stream(toks: Seq<TokenView>) -> bool {
    &&& toks.len() > 0
    &&& toks.last().token_type == TokenType::EOF
    &&& forall|i: int| 0 <= i < toks.len() ==> token_readable(#[trigger] toks[i])
}

/// One command for a list of one, a `Command` node for any other list.
pub open spec fn collapse_commands(list: Seq<Ast>) -> Ast {
    if list.len() == 1 {
        list[0]
    } else {
        Ast::Command(list)
    }
}

/// One declaration for a list of one, a `Declaration` node for any other
/// list.
pub open spec fn collapse_declarations(list: Seq<Ast>) -> Ast {
    if list.len() == 1 {
        list[0]
    } else {
        Ast::Declaration(list)
    }
}

/// A token of kind `expected`, or the error.
pub open spec fn accept_at(toks: Seq<TokenView>, pos: int, expected: TokenType) -> Parsed<()> {
    if toks[pos].token_type == expected {
        parsed((), 1)
    } else {
        failed(unexpected(expected, toks[pos]), 0)
    }
}

/// An identifier: its name.
pub open spec fn identifier_at(toks: Seq<TokenView>, pos: int) -> Parsed<Seq<char>> {
    if toks[pos].token_type == TokenType::Identifier {
        parsed(toks[pos].lexeme, 1)
    } else {
        failed(unexpected(TokenType::Identifier, toks[pos]), 0)
    }
}

/// `id : id`, a name with its type.
#[verifier::opaque]
pub open spec fn typed_name(toks: Seq<TokenView>, pos: int) -> Parsed<Ast> {
    match identifier_at(toks, pos).result {
        Err(e) => failed(e, 0),
        Ok(name) => if toks[pos + 1].token_type != TokenType::Colon {
            failed(unexpected(TokenType::Colon, toks[pos + 1]), 1)
        } else {
            match identifier_at(toks, pos + 2).result {
                Err(e) => failed(e, 2),
                Ok(of_type) => parsed(Ast::Var(name, of_type), 3),
            }
        },
    }
}

/// FormalParam: `id : id` or `var id : id`. Both give the same `Var` node.
#[verifier::opaque]
pub open spec fn formal_parameter(toks: Seq<TokenView>, pos: int) -> Parsed<Ast> {
    if toks[pos].token_type == TokenType::Var {
        after(1, typed_name(toks, pos + 1))
    } else {
        typed_name(toks, pos)
    }
}

/// The formal parameters that follow the ones in `acc`: (`,` FormalParam)*.
pub open spec fn formal_parameters_tail(toks: Seq<TokenView>, pos: int, acc: Seq<Ast>) -> Parsed<
    Seq<Ast>,
>
    decreases remaining(toks, pos),
    when 0 <= pos < toks.len()
{
    if toks[pos].token_type == TokenType::Comma {
        let next = formal_parameter(toks, pos + 1);
        match next.result {
            Err(e) => failed(e, 1 + next.used),
            Ok(p) => after(
                1 + next.used,
                formal_parameters_tail(toks, pos + 1 + next.used, acc.push(p)),
            ),
        }
    } else {
        parsed(acc, 0)
    }
}

/// FormalParams: nothing before a `)`, else FormalParam (`,` FormalParam)*.
#[verifier::opaque]
pub open spec fn formal_parameters(toks: Seq<TokenView>, pos: int) -> Parsed<Seq<Ast>> {
    if toks[pos].token_type == TokenType::RightParen {
        parsed(Seq::empty(), 0)
    } else {
        let first = formal_parameter(toks, pos);
        match first.result {
            Err(e) => failed(e, first.used),
            Ok(p) => after(first.used, formal_parameters_tail(toks, pos + first.used, seq![p])),
        }
    }
}

/// A rule of the grammar, or what is left of a rule once its first tokens
/// are read. A rule that continues a list or an operand carries what was
/// read before it.
pub enum Rule {
    /// `SingleCommand (; SingleCommand)*`, collapsed.
    Command,
    /// `(; SingleCommand)*` after the commands given, collapsed.
    CommandTail(Seq<Ast>),
    /// One command, chosen by its first token.
    SingleCommand,
    /// After `let`: `DeclSeq in Command`.
    LetCommand,
    /// After `if`: `Expr then Command else Command`.
    IfCommand,
    /// After `while`: `Expr do Command`.
    WhileCommand,
    /// After `begin`: `Command end`.
    BeginCommand,
    /// After `name :=`: `Expr`.
    Assignment(Seq<char>),
    /// After `name (`: `ActualParams )`.
    Call(Seq<char>),
    /// `SingleDecl (; SingleDecl)*`, collapsed.
    DeclarationSequence,
    /// `(; SingleDecl)*` after the declarations given, collapsed.
    DeclarationTail(Seq<Ast>),
    /// One declaration, chosen by its first token.
    SingleDeclaration,
    /// After `const`: `id ~ Expr`.
    ConstForm,
    /// After `func`: `id ( FormalParams ) : id ~ Expr`.
    FuncForm,
    /// `let ...`, `if ...`, or SecondExpr.
    Expression,
    /// After `let`: `DeclSeq in Expr`.
    LetExpression,
    /// After `if`: `Expr then Expr else Expr`.
    IfExpression,
    /// `PrimaryExpr (operator PrimaryExpr)*`.
    SecondExpression,
    /// `(operator PrimaryExpr)*` after the operand given.
    SecondExpressionTail(Ast),
    /// A literal, a name, a call or a parenthesised expression.
    PrimaryExpression,
    /// After `(`: `Expr )`.
    Parenthesized,
    /// Nothing before a `)`, else `Expr (, Expr)*`. Reads a list.
    ActualParameters,
    /// `(, Expr)*` after the parameters given. Reads a list.
    ActualParametersTail(Seq<Ast>),
}

impl Rule {
    /// Orders the rules that may start at one position: a rule only calls,
    /// at its own position, rules of lower rank.
    pub open spec fn rank(self) -> nat {
        match self {
            Rule::PrimaryExpression => 0,
            Rule::SecondExpressionTail(_) => 1,
            Rule::SecondExpression => 2,
            Rule::Expression => 3,
            Rule::ActualParametersTail(_) => 4,
            Rule::ActualParameters => 5,
            Rule::SingleDeclaration => 6,
            Rule::DeclarationTail(_) => 7,
            Rule::DeclarationSequence => 8,
            Rule::SingleCommand => 9,
            Rule::CommandTail(_) => 10,
            Rule::Command => 11,
            _ => 12,
        }
    }
}

/// A reading of one node, as a reading of a list of one.
pub open spec fn listed(step: Parsed<Ast>) -> Parsed<Seq<Ast>> {
    match step.result {
        Ok(node) => parsed(seq![node], step.used),
        Err(e) => failed(e, step.used),
    }
}

/// The one node of a reading.
pub open spec fn single(step: Parsed<Seq<Ast>>) -> Parsed<Ast> {
    match step.result {
        Ok(list) => parsed(list[0], step.used),
        Err(e) => failed(e, step.used),
    }
}

/// The `Let` node of declarations and what was read as the body.
pub open spec fn let_node(decls: Ast, body: Parsed<Ast>) -> Parsed<Ast> {
    match body.result {
        Err(e) => failed(e, body.used),
        Ok(b) => parsed(Ast::Let(Box::new(decls), Box::new(b)), body.used),
    }
}

/// The `If` node of a condition, a first branch and what was read as the
/// second.
pub open spec fn if_node(condition: Ast, first: Ast, second: Parsed<Ast>) -> Parsed<Ast> {
    match second.result {
        Err(e) => failed(e, second.used),
        Ok(s) => parsed(
            Ast::If(Box::new(condition), Box::new(first), Box::new(s)),
            second.used,
        ),
    }
}

/// The node that `wrap` makes of what was read, or its error.
pub open spec fn wrapped(inner: Parsed<Ast>, wrap: spec_fn(Ast) -> Ast) -> Parsed<Ast> {
    match inner.result {
        Err(e) => failed(e, inner.used),
        Ok(node) => parsed(wrap(node), inner.used),
    }
}

/// What `rule` reads at `pos`: a list of nodes, of exactly one node for
/// every rule but the two of actual parameters.
pub open spec fn reads(rule: Rule, toks: Seq<TokenView>, pos: int) -> Parsed<Seq<Ast>>
    decreases remaining(toks, pos), rule.rank(),
    when 0 <= pos < toks.len()
{
    match rule {
        Rule::Command => {
            let first = single(reads(Rule::SingleCommand, toks, pos));
            match first.result {
                Err(e) => failed(e, first.used),
                Ok(c) => after(
                    first.used,
                    reads(Rule::CommandTail(seq![c]), toks, pos + first.used),
                ),
            }
        },
        Rule::CommandTail(acc) => if toks[pos].token_type == TokenType::Semicolon {
            let next = single(reads(Rule::SingleCommand, toks, pos + 1));
            match next.result {
                Err(e) => failed(e, 1 + next.used),
                Ok(c) => after(
                    1 + next.used,
                    reads(Rule::CommandTail(acc.push(c)), toks, pos + 1 + next.used),
                ),
            }
        } else {
            parsed(seq![collapse_commands(acc)], 0)
        },
        Rule::SingleCommand => match toks[pos].token_type {
            TokenType::Let => after(1, reads(Rule::LetCommand, toks, pos + 1)),
            TokenType::Const => after(1, reads(Rule::ConstForm, toks, pos + 1)),
            TokenType::Var => after(1, listed(typed_name(toks, pos + 1))),
            TokenType::Func => after(1, reads(Rule::FuncForm, toks, pos + 1)),
            TokenType::If => after(1, reads(Rule::IfCommand, toks, pos + 1)),
            TokenType::While => after(1, reads(Rule::WhileCommand, toks, pos + 1)),
            TokenType::Begin => after(1, reads(Rule::BeginCommand, toks, pos + 1)),
            TokenType::Identifier => if toks[pos + 1].token_type == TokenType::Assign {
                after(2, reads(Rule::Assignment(toks[pos].lexeme), toks, pos + 2))
            } else if toks[pos + 1].token_type == TokenType::LeftParen {
                after(2, reads(Rule::Call(toks[pos].lexeme), toks, pos + 2))
            } else {
                failed(unexpected(TokenType::Assign, toks[pos + 1]), 1)
            },
            _ => failed(unexpected(TokenType::Identifier, toks[pos]), 0),
        },
        Rule::LetCommand => {
            let d = single(reads(Rule::DeclarationSequence, toks, pos));
            match d.result {
                Err(e) => failed(e, d.used),
                Ok(decls) => {
                    let p = pos + d.used;
                    if toks[p].token_type != TokenType::In {
                        failed(unexpected(TokenType::In, toks[p]), d.used)
                    } else {
                        after(
                            1 + d.used,
                            listed(let_node(decls, single(reads(Rule::Command, toks, p + 1)))),
                        )
                    }
                },
            }
        },
        Rule::IfCommand => {
            let c = single(reads(Rule::Expression, toks, pos));
            match c.result {
                Err(e) => failed(e, c.used),
                Ok(condition) => {
                    let p = pos + c.used;
                    if toks[p].token_type != TokenType::Then {
                        failed(unexpected(TokenType::Then, toks[p]), c.used)
                    } else {
                        let a = single(reads(Rule::Command, toks, p + 1));
                        match a.result {
                            Err(e) => failed(e, 1 + c.used + a.used),
                            Ok(first) => {
                                let q = p + 1 + a.used;
                                if toks[q].token_type != TokenType::Else {
                                    failed(
                                        unexpected(TokenType::Else, toks[q]),
                                        1 + c.used + a.used,
                                    )
                                } else {
                                    after(
                                        2 + c.used + a.used,
                                        listed(
                                            if_node(
                                                condition,
                                                first,
                                                single(reads(Rule::Command, toks, q + 1)),
                                            ),
                                        ),
                                    )
                                }
                            },
                        }
                    }
                },
            }
        },
        Rule::WhileCommand => {
            let c = single(reads(Rule::Expression, toks, pos));
            match c.result {
                Err(e) => failed(e, c.used),
                Ok(condition) => {
                    let p = pos + c.used;
                    if toks[p].token_type != TokenType::Do {
                        failed(unexpected(TokenType::Do, toks[p]), c.used)
                    } else {
                        after(
                            1 + c.used,
                            listed(
                                wrapped(
                                    single(reads(Rule::Command, toks, p + 1)),
                                    |body: Ast| Ast::While(Box::new(condition), Box::new(body)),
                                ),
                            ),
                        )
                    }
                },
            }
        },
        Rule::BeginCommand => {
            let b = reads(Rule::Command, toks, pos);
            match b.result {
                Err(e) => failed(e, b.used),
                Ok(body) => {
                    let p = pos + b.used;
                    if toks[p].token_type != TokenType::End {
                        failed(unexpected(TokenType::End, toks[p]), b.used)
                    } else {
                        parsed(body, 1 + b.used)
                    }
                },
            }
        },
        Rule::Assignment(name) => listed(
            wrapped(
                single(reads(Rule::Expression, toks, pos)),
                |value: Ast| Ast::Assign(seq![name], Box::new(value)),
            ),
        ),
        Rule::Call(name) => {
            let args = reads(Rule::ActualParameters, toks, pos);
            match args.result {
                Err(e) => failed(e, args.used),
                Ok(list) => {
                    let close = pos + args.used;
                    if toks[close].token_type != TokenType::RightParen {
                        failed(unexpected(TokenType::RightParen, toks[close]), args.used)
                    } else {
                        parsed(seq![Ast::Call(name, list)], 1 + args.used)
                    }
                },
            }
        },
        Rule::DeclarationSequence => {
            let first = single(reads(Rule::SingleDeclaration, toks, pos));
            match first.result {
                Err(e) => failed(e, first.used),
                Ok(d) => after(
                    first.used,
                    reads(Rule::DeclarationTail(seq![d]), toks, pos + first.used),
                ),
            }
        },
        Rule::DeclarationTail(acc) => if toks[pos].token_type == TokenType::Semicolon {
            let next = single(reads(Rule::SingleDeclaration, toks, pos + 1));
            match next.result {
                Err(e) => failed(e, 1 + next.used),
                Ok(d) => after(
                    1 + next.used,
                    reads(Rule::DeclarationTail(acc.push(d)), toks, pos + 1 + next.used),
                ),
            }
        } else {
            parsed(seq![collapse_declarations(acc)], 0)
        },
        Rule::SingleDeclaration => match toks[pos].token_type {
            TokenType::Const => after(1, reads(Rule::ConstForm, toks, pos + 1)),
            TokenType::Var => after(1, listed(typed_name(toks, pos + 1))),
            TokenType::Func => after(1, reads(Rule::FuncForm, toks, pos + 1)),
            _ => failed(unexpected(TokenType::Const, toks[pos]), 0),
        },
        Rule::ConstForm => match identifier_at(toks, pos).result {
            Err(e) => failed(e, 0),
            Ok(name) => if toks[pos + 1].token_type != TokenType::Tilde {
                failed(unexpected(TokenType::Tilde, toks[pos + 1]), 1)
            } else {
                after(
                    2,
                    listed(
                        wrapped(
                            single(reads(Rule::Expression, toks, pos + 2)),
                            |value: Ast| Ast::Const(name, Box::new(value)),
                        ),
                    ),
                )
            },
        },
        Rule::FuncForm => match identifier_at(toks, pos).result {
            Err(e) => failed(e, 0),
            Ok(name) => if toks[pos + 1].token_type != TokenType::LeftParen {
                failed(unexpected(TokenType::LeftParen, toks[pos + 1]), 1)
            } else {
                let ps = formal_parameters(toks, pos + 2);
                match ps.result {
                    Err(e) => failed(e, 2 + ps.used),
                    Ok(params) => {
                        let p = pos + 2 + ps.used;
                        if toks[p].token_type != TokenType::RightParen {
                            failed(unexpected(TokenType::RightParen, toks[p]), 2 + ps.used)
                        } else if toks[p + 1].token_type != TokenType::Colon {
                            failed(unexpected(TokenType::Colon, toks[p + 1]), 3 + ps.used)
                        } else {
                            match identifier_at(toks, p + 2).result {
                                Err(e) => failed(e, 4 + ps.used),
                                Ok(return_type) => if toks[p + 3].token_type
                                    != TokenType::Tilde {
                                    failed(
                                        unexpected(TokenType::Tilde, toks[p + 3]),
                                        5 + ps.used,
                                    )
                                } else {
                                    after(
                                        6 + ps.used,
                                        listed(
                                            wrapped(
                                                single(reads(Rule::Expression, toks, p + 4)),
                                                |body: Ast|
                                                    Ast::Func(
                                                        name,
                                                        params,
                                                        return_type,
                                                        Box::new(body),
                                                    ),
                                            ),
                                        ),
                                    )
                                },
                            }
                        }
                    },
                }
            },
        },
        Rule::Expression => match toks[pos].token_type {
            TokenType::Let => after(1, reads(Rule::LetExpression, toks, pos + 1)),
            TokenType::If => after(1, reads(Rule::IfExpression, toks, pos + 1)),
            _ => reads(Rule::SecondExpression, toks, pos),
        },
        Rule::LetExpression => {
            let d = single(reads(Rule::DeclarationSequence, toks, pos));
            match d.result {
                Err(e) => failed(e, d.used),
                Ok(decls) => {
                    let p = pos + d.used;
                    if toks[p].token_type != TokenType::In {
                        failed(unexpected(TokenType::In, toks[p]), d.used)
                    } else {
                        after(
                            1 + d.used,
                            listed(
                                let_node(decls, single(reads(Rule::Expression, toks, p + 1))),
                            ),
                        )
                    }
                },
            }
        },
        Rule::IfExpression => {
            let c = single(reads(Rule::Expression, toks, pos));
            match c.result {
                Err(e) => failed(e, c.used),
                Ok(condition) => {
                    let p = pos + c.used;
                    if toks[p].token_type != TokenType::Then {
                        failed(unexpected(TokenType::Then, toks[p]), c.used)
                    } else {
                        let a = single(reads(Rule::Expression, toks, p + 1));
                        match a.result {
                            Err(e) => failed(e, 1 + c.used + a.used),
                            Ok(first) => {
                                let q = p + 1 + a.used;
                                if toks[q].token_type != TokenType::Else {
                                    failed(
                                        unexpected(TokenType::Else, toks[q]),
                                        1 + c.used + a.used,
                                    )
                                } else {
                                    after(
                                        2 + c.used + a.used,
                                        listed(
                                            if_node(
                                                condition,
                                                first,
                                                single(reads(Rule::Expression, toks, q + 1)),
                                            ),
                                        ),
                                    )
                                }
                            },
                        }
                    }
                },
            }
        },
        Rule::SecondExpression => {
            let first = single(reads(Rule::PrimaryExpression, toks, pos));
            match first.result {
                Err(e) => failed(e, first.used),
                Ok(left) => after(
                    first.used,
                    reads(Rule::SecondExpressionTail(left), toks, pos + first.used),
                ),
            }
        },
        Rule::SecondExpressionTail(left) => if toks[pos].token_type == TokenType::Operator {
            let right = single(reads(Rule::PrimaryExpression, toks, pos + 1));
            match right.result {
                Err(e) => failed(e, 1 + right.used),
                Ok(r) => after(
                    1 + right.used,
                    reads(
                        Rule::SecondExpressionTail(
                            Ast::Operator(toks[pos].lexeme, Box::new(left), Box::new(r)),
                        ),
                        toks,
                        pos + 1 + right.used,
                    ),
                ),
            }
        } else {
            parsed(seq![left], 0)
        },
        Rule::PrimaryExpression => match toks[pos].token_type {
            TokenType::IntegerLiteral => parsed(
                seq![Ast::Number(literal_number(toks[pos].lexeme))],
                1,
            ),
            TokenType::CharLiteral => parsed(seq![Ast::Char(literal_char(toks[pos].lexeme))], 1),
            TokenType::Identifier => if toks[pos + 1].token_type == TokenType::LeftParen {
                after(2, reads(Rule::Call(toks[pos].lexeme), toks, pos + 2))
            } else {
                parsed(seq![Ast::Identifier(toks[pos].lexeme)], 1)
            },
            TokenType::LeftParen => after(1, reads(Rule::Parenthesized, toks, pos + 1)),
            _ => failed(unexpected(TokenType::Identifier, toks[pos]), 0),
        },
        Rule::Parenthesized => {
            let inner = single(reads(Rule::Expression, toks, pos));
            match inner.result {
                Err(e) => failed(e, inner.used),
                Ok(e) => {
                    let close = pos + inner.used;
                    if toks[close].token_type != TokenType::RightParen {
                        failed(unexpected(TokenType::RightParen, toks[close]), inner.used)
                    } else {
                        parsed(seq![Ast::Expression(Box::new(e))], 1 + inner.used)
                    }
                },
            }
        },
        Rule::ActualParameters => if toks[pos].token_type == TokenType::RightParen {
            parsed(Seq::empty(), 0)
        } else {
            let first = single(reads(Rule::Expression, toks, pos));
            match first.result {
                Err(e) => failed(e, first.used),
                Ok(arg) => after(
                    first.used,
                    reads(Rule::ActualParametersTail(seq![arg]), toks, pos + first.used),
                ),
            }
        },
        Rule::ActualParametersTail(acc) => if toks[pos].token_type == TokenType::Comma {
            let next = single(reads(Rule::Expression, toks, pos + 1));
            match next.result {
                Err(e) => failed(e, 1 + next.used),
                Ok(arg) => after(
                    1 + next.used,
                    reads(Rule::ActualParametersTail(acc.push(arg)), toks, pos + 1 + next.used),
                ),
            }
        } else {
            parsed(acc, 0)
        },
    }
}

/// Command, the top rule: `SingleCommand (; SingleCommand)*`. One command
/// stands for itself, two or more make a `Command` node.
pub open spec fn command(toks: Seq<TokenView>, pos: int) -> Parsed<Ast> {
    single(reads(Rule::Command, toks, pos))
}

/// The commands that follow the ones in `acc`, with them, collapsed.
pub open spec fn command_tail(toks: Seq<TokenView>, pos: int, acc: Seq<Ast>) -> Parsed<Ast> {
    single(reads(Rule::CommandTail(acc), toks, pos))
}

/// SingleCommand: `let DeclSeq in Command`, a declaration form,
/// `if Expr then Command else Command`, `while Expr do Command`,
/// `begin Command end` (the inner command itself), `id := Expr`, or
/// `id ( ActualParams )`. An identifier followed by anything else is an
/// error that asks for `:=`.
pub open spec fn single_command(toks: Seq<TokenView>, pos: int) -> Parsed<Ast> {
    single(reads(Rule::SingleCommand, toks, pos))
}

/// What follows the keyword `let` in a command: `DeclSeq in Command`.
pub open spec fn let_command(toks: Seq<TokenView>, pos: int) -> Parsed<Ast> {
    single(reads(Rule::LetCommand, toks, pos))
}

/// What follows the keyword `if` in a command:
/// `Expr then Command else Command`.
pub open spec fn if_command(toks: Seq<TokenView>, pos: int) -> Parsed<Ast> {
    single(reads(Rule::IfCommand, toks, pos))
}

/// What follows the keyword `while`: `Expr do Command`.
pub open spec fn while_command(toks: Seq<TokenView>, pos: int) -> Parsed<Ast> {
    single(reads(Rule::WhileCommand, toks, pos))
}

/// What follows the keyword `begin`: `Command end`.
pub open spec fn begin_command(toks: Seq<TokenView>, pos: int) -> Parsed<Ast> {
    single(reads(Rule::BeginCommand, toks, pos))
}

/// What follows `name :=`: the value, in an `Assign` node.
pub open spec fn assignment(toks: Seq<TokenView>, pos: int, name: Seq<char>) -> Parsed<Ast> {
    single(reads(Rule::Assignment(name), toks, pos))
}

/// What follows `name (`: the parameters and the `)`, in a `Call` node.
pub open spec fn call(toks: Seq<TokenView>, pos: int, name: Seq<char>) -> Parsed<Ast> {
    single(reads(Rule::Call(name), toks, pos))
}

/// DeclSeq: `SingleDecl (; SingleDecl)*`. One declaration stands for
/// itself, two or more make a `Declaration` node.
pub open spec fn declaration_sequence(toks: Seq<TokenView>, pos: int) -> Parsed<Ast> {
    single(reads(Rule::DeclarationSequence, toks, pos))
}

/// The declarations that follow the ones in `acc`, with them, collapsed.
pub open spec fn declaration_tail(toks: Seq<TokenView>, pos: int, acc: Seq<Ast>) -> Parsed<Ast> {
    single(reads(Rule::DeclarationTail(acc), toks, pos))
}

/// SingleDecl: `const id ~ Expr`, `var id : id`, or
/// `func id ( FormalParams ) : id ~ Expr`.
pub open spec fn single_declaration(toks: Seq<TokenView>, pos: int) -> Parsed<Ast> {
    single(reads(Rule::SingleDeclaration, toks, pos))
}

/// What follows the keyword `const`: `id ~ Expr`.
pub open spec fn const_form(toks: Seq<TokenView>, pos: int) -> Parsed<Ast> {
    single(reads(Rule::ConstForm, toks, pos))
}

/// What follows the keyword `func`: `id ( FormalParams ) : id ~ Expr`.
pub open spec fn func_form(toks: Seq<TokenView>, pos: int) -> Parsed<Ast> {
    single(reads(Rule::FuncForm, toks, pos))
}

/// Expr: `let DeclSeq in Expr`, `if Expr then Expr else Expr`, or
/// SecondExpr.
pub open spec fn expression(toks: Seq<TokenView>, pos: int) -> Parsed<Ast> {
    single(reads(Rule::Expression, toks, pos))
}

/// What follows the keyword `let` in an expression: `DeclSeq in Expr`.
pub open spec fn let_expression(toks: Seq<TokenView>, pos: int) -> Parsed<Ast> {
    single(reads(Rule::LetExpression, toks, pos))
}

/// What follows the keyword `if` in an expression:
/// `Expr then Expr else Expr`.
pub open spec fn if_expression(toks: Seq<TokenView>, pos: int) -> Parsed<Ast> {
    single(reads(Rule::IfExpression, toks, pos))
}

/// SecondExpr: `PrimaryExpr (operator PrimaryExpr)*`, grouped from the left
/// whatever the operators are.
pub open spec fn second_expression(toks: Seq<TokenView>, pos: int) -> Parsed<Ast> {
    single(reads(Rule::SecondExpression, toks, pos))
}

/// What follows the operand `left`: `(operator PrimaryExpr)*`. Each operator
/// takes everything read so far as its left operand.
pub open spec fn second_expression_tail(toks: Seq<TokenView>, pos: int, left: Ast) -> Parsed<Ast> {
    single(reads(Rule::SecondExpressionTail(left), toks, pos))
}

/// PrimaryExpr: a literal, an identifier, a call `id ( ActualParams )`, or
/// `( Expr )`.
pub open spec fn primary_expression(toks: Seq<TokenView>, pos: int) -> Parsed<Ast> {
    single(reads(Rule::PrimaryExpression, toks, pos))
}

/// What follows the `(` of a parenthesised expression: `Expr )`, in an
/// `Expression` node.
pub open spec fn parenthesized(toks: Seq<TokenView>, pos: int) -> Parsed<Ast> {
    single(reads(Rule::Parenthesized, toks, pos))
}

/// ActualParams: nothing before a `)`, else `Expr (, Expr)*`.
pub open spec fn actual_parameters(toks: Seq<TokenView>, pos: int) -> Parsed<Seq<Ast>> {
    reads(Rule::ActualParameters, toks, pos)
}

/// The actual parameters that follow the ones in `acc`, with them.
pub open spec fn actual_parameters_tail(toks: Seq<TokenView>, pos: int, acc: Seq<Ast>) -> Parsed<
    Seq<Ast>,
> {
    reads(Rule::ActualParametersTail(acc), toks, pos)
}

} // verus!
