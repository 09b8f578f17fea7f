//! What holds of everything the grammar reads from a token sequence that
//! ends with the end-of-input token: the cursor stays inside the sequence,
//! and no list node has fewer than two members.

use vstd::prelude::*;
use crate::ast::Ast;
use crate::grammar::{
    Rule, command, declaration_sequence, formal_parameter, formal_parameters,
    formal_parameters_tail, reads, remaining, typed_name,
};
use crate::token::{TokenType, TokenView};

verus! {

/// A token sequence that ends with the end-of-input token.
pub open spec fn closed_stream(toks: Seq<TokenView>) -> bool {
    toks.len() > 0 && toks.last().token_type == TokenType::EOF
}

/// A `Command` or `Declaration` node with fewer than two members.
pub open spec fn is_short_list(node: Ast) -> bool {
    match node {
        Ast::Command(list) => list.len() < 2,
        Ast::Declaration(list) => list.len() < 2,
        _ => false,
    }
}

/// What a rule carries is itself well made: a list that is not empty and, if
/// it has one member, holds no short list; an operand that is no short
/// list.
pub open spec fn carries_no_short_list(rule: Rule) -> bool {
    match rule {
        Rule::CommandTail(acc) => acc.len() >= 1 && (acc.len() == 1 ==> !is_short_list(acc[0])),
        Rule::DeclarationTail(acc) => acc.len() >= 1 && (acc.len() == 1 ==> !is_short_list(
            acc[0],
        )),
        Rule::SecondExpressionTail(left) => !is_short_list(left),
        _ => true,
    }
}

/// The rule reads a list; every other rule reads one node.
pub open spec fn reads_a_list(rule: Rule) -> bool {
    rule is ActualParameters || rule is ActualParametersTail
}

/// What was read stayed before the end of the sequence and is, for a rule
/// that reads one node, one node that is no short list.
pub open spec fn well_read(rule: Rule, toks: Seq<TokenView>, pos: int) -> bool {
    let step = reads(rule, toks, pos);
    &&& pos + step.used < toks.len()
    &&& step.result matches Ok(list) ==> reads_a_list(rule) || (list.len() == 1 && !is_short_list(
        list[0],
    ))
}

/// `id : id` stays before the end of the sequence.
proof fn lemma_typed_name_stays(toks: Seq<TokenView>, pos: int)
    requires
        closed_stream(toks),
        0 <= pos < toks.len(),
    ensures
        pos + typed_name(toks, pos).used < toks.len(),
        typed_name(toks, pos).result matches Ok(node) ==> !is_short_list(node),
{
    reveal(typed_name);
}

/// The formal parameters behind `acc` stay before the end of the sequence.
proof fn lemma_formal_parameters_tail_stays(toks: Seq<TokenView>, pos: int, acc: Seq<Ast>)
    requires
        closed_stream(toks),
        0 <= pos < toks.len(),
    ensures
        pos + formal_parameters_tail(toks, pos, acc).used < toks.len(),
    decreases remaining(toks, pos),
{
    reveal(formal_parameter);
    if toks[pos].token_type == TokenType::Comma {
        let next = formal_parameter(toks, pos + 1);
        lemma_typed_name_stays(toks, pos + 1);
        if toks[pos + 1].token_type == TokenType::Var {
            lemma_typed_name_stays(toks, pos + 2);
        }
        if next.result is Ok {
            lemma_formal_parameters_tail_stays(
                toks,
                pos + 1 + next.used,
                acc.push(next.result->Ok_0),
            );
        }
    }
}

/// The formal parameters stay before the end of the sequence.
proof fn lemma_formal_parameters_stay(toks: Seq<TokenView>, pos: int)
    requires
        closed_stream(toks),
        0 <= pos < toks.len(),
    ensures
        pos + formal_parameters(toks, pos).used < toks.len(),
{
    reveal(formal_parameters);
    reveal(formal_parameter);
    if toks[pos].token_type != TokenType::RightParen {
        let first = formal_parameter(toks, pos);
        lemma_typed_name_stays(toks, pos);
        if toks[pos].token_type == TokenType::Var {
            lemma_typed_name_stays(toks, pos + 1);
        }
        if first.result is Ok {
            lemma_formal_parameters_tail_stays(
                toks,
                pos + first.used,
                seq![first.result->Ok_0],
            );
        }
    }
}

/// A command is well read.
proof fn lemma_read_command(toks: Seq<TokenView>, pos: int)
    requires
        closed_stream(toks),
        0 <= pos < toks.len(),
    ensures
        well_read(Rule::Command, toks, pos),
    decreases remaining(toks, pos), Rule::Command.rank(),
{
    lemma_read_single_command(toks, pos);
    let first = reads(Rule::SingleCommand, toks, pos);
    if first.result is Ok {
        lemma_read_command_tail(toks, pos + first.used, seq![first.result->Ok_0[0]]);
    }
}

/// The commands behind `acc` are well read.
proof fn lemma_read_command_tail(toks: Seq<TokenView>, pos: int, acc: Seq<Ast>)
    requires
        closed_stream(toks),
        0 <= pos < toks.len(),
        carries_no_short_list(Rule::CommandTail(acc)),
    ensures
        well_read(Rule::CommandTail(acc), toks, pos),
    decreases remaining(toks, pos), Rule::CommandTail(acc).rank(),
{
    if toks[pos].token_type == TokenType::Semicolon {
        lemma_read_single_command(toks, pos + 1);
        let next = reads(Rule::SingleCommand, toks, pos + 1);
        if next.result is Ok {
            lemma_read_command_tail(toks, pos + 1 + next.used, acc.push(next.result->Ok_0[0]));
        }
    }
}

/// A single command is well read.
proof fn lemma_read_single_command(toks: Seq<TokenView>, pos: int)
    requires
        closed_stream(toks),
        0 <= pos < toks.len(),
    ensures
        well_read(Rule::SingleCommand, toks, pos),
    decreases remaining(toks, pos), Rule::SingleCommand.rank(),
{
    match toks[pos].token_type {
        TokenType::Let => lemma_read_let_command(toks, pos + 1),
        TokenType::Const => lemma_read_const_form(toks, pos + 1),
        TokenType::Var => lemma_typed_name_stays(toks, pos + 1),
        TokenType::Func => lemma_read_func_form(toks, pos + 1),
        TokenType::If => lemma_read_if_command(toks, pos + 1),
        TokenType::While => lemma_read_while_command(toks, pos + 1),
        TokenType::Begin => lemma_read_begin_command(toks, pos + 1),
        TokenType::Identifier => {
            if toks[pos + 1].token_type == TokenType::Assign {
                lemma_read_assignment(toks, pos + 2, toks[pos].lexeme);
            } else if toks[pos + 1].token_type == TokenType::LeftParen {
                lemma_read_call(toks, pos + 2, toks[pos].lexeme);
            }
        },
        _ => {},
    }
}

/// What follows `let` in a command is well read.
proof fn lemma_read_let_command(toks: Seq<TokenView>, pos: int)
    requires
        closed_stream(toks),
        0 <= pos < toks.len(),
    ensures
        well_read(Rule::LetCommand, toks, pos),
    decreases remaining(toks, pos), Rule::LetCommand.rank(),
{
    lemma_read_declaration_sequence(toks, pos);
    let d = reads(Rule::DeclarationSequence, toks, pos);
    if d.result is Ok && toks[pos + d.used].token_type == TokenType::In {
        lemma_read_command(toks, pos + d.used + 1);
    }
}

/// What follows `if` in a command is well read.
proof fn lemma_read_if_command(toks: Seq<TokenView>, pos: int)
    requires
        closed_stream(toks),
        0 <= pos < toks.len(),
    ensures
        well_read(Rule::IfCommand, toks, pos),
    decreases remaining(toks, pos), Rule::IfCommand.rank(),
{
    lemma_read_expression(toks, pos);
    let c = reads(Rule::Expression, toks, pos);
    let p = pos + c.used;
    if c.result is Ok && toks[p].token_type == TokenType::Then {
        lemma_read_command(toks, p + 1);
        let a = reads(Rule::Command, toks, p + 1);
        let q = p + 1 + a.used;
        if a.result is Ok && toks[q].token_type == TokenType::Else {
            lemma_read_command(toks, q + 1);
        }
    }
}

/// What follows `while` is well read.
proof fn lemma_read_while_command(toks: Seq<TokenView>, pos: int)
    requires
        closed_stream(toks),
        0 <= pos < toks.len(),
    ensures
        well_read(Rule::WhileCommand, toks, pos),
    decreases remaining(toks, pos), Rule::WhileCommand.rank(),
{
    lemma_read_expression(toks, pos);
    let c = reads(Rule::Expression, toks, pos);
    if c.result is Ok && toks[pos + c.used].token_type == TokenType::Do {
        lemma_read_command(toks, pos + c.used + 1);
    }
}

/// What follows `begin` is well read.
proof fn lemma_read_begin_command(toks: Seq<TokenView>, pos: int)
    requires
        closed_stream(toks),
        0 <= pos < toks.len(),
    ensures
        well_read(Rule::BeginCommand, toks, pos),
    decreases remaining(toks, pos), Rule::BeginCommand.rank(),
{
    lemma_read_command(toks, pos);
}

/// What follows `name :=` is well read.
proof fn lemma_read_assignment(toks: Seq<TokenView>, pos: int, name: Seq<char>)
    requires
        closed_stream(toks),
        0 <= pos < toks.len(),
    ensures
        well_read(Rule::Assignment(name), toks, pos),
    decreases remaining(toks, pos), Rule::Assignment(name).rank(),
{
    lemma_read_expression(toks, pos);
}

/// What follows `name (` is well read.
proof fn lemma_read_call(toks: Seq<TokenView>, pos: int, name: Seq<char>)
    requires
        closed_stream(toks),
        0 <= pos < toks.len(),
    ensures
        well_read(Rule::Call(name), toks, pos),
    decreases remaining(toks, pos), Rule::Call(name).rank(),
{
    lemma_read_actual_parameters(toks, pos);
}

/// A declaration sequence is well read.
proof fn lemma_read_declaration_sequence(toks: Seq<TokenView>, pos: int)
    requires
        closed_stream(toks),
        0 <= pos < toks.len(),
    ensures
        well_read(Rule::DeclarationSequence, toks, pos),
    decreases remaining(toks, pos), Rule::DeclarationSequence.rank(),
{
    lemma_read_single_declaration(toks, pos);
    let first = reads(Rule::SingleDeclaration, toks, pos);
    if first.result is Ok {
        lemma_read_declaration_tail(toks, pos + first.used, seq![first.result->Ok_0[0]]);
    }
}

/// The declarations behind `acc` are well read.
proof fn lemma_read_declaration_tail(toks: Seq<TokenView>, pos: int, acc: Seq<Ast>)
    requires
        closed_stream(toks),
        0 <= pos < toks.len(),
        carries_no_short_list(Rule::DeclarationTail(acc)),
    ensures
        well_read(Rule::DeclarationTail(acc), toks, pos),
    decreases remaining(toks, pos), Rule::DeclarationTail(acc).rank(),
{
    if toks[pos].token_type == TokenType::Semicolon {
        lemma_read_single_declaration(toks, pos + 1);
        let next = reads(Rule::SingleDeclaration, toks, pos + 1);
        if next.result is Ok {
            lemma_read_declaration_tail(toks, pos + 1 + next.used, acc.push(next.result->Ok_0[0]));
        }
    }
}

/// A single declaration is well read.
proof fn lemma_read_single_declaration(toks: Seq<TokenView>, pos: int)
    requires
        closed_stream(toks),
        0 <= pos < toks.len(),
    ensures
        well_read(Rule::SingleDeclaration, toks, pos),
    decreases remaining(toks, pos), Rule::SingleDeclaration.rank(),
{
    match toks[pos].token_type {
        TokenType::Const => lemma_read_const_form(toks, pos + 1),
        TokenType::Var => lemma_typed_name_stays(toks, pos + 1),
        TokenType::Func => lemma_read_func_form(toks, pos + 1),
        _ => {},
    }
}

/// What follows `const` is well read.
proof fn lemma_read_const_form(toks: Seq<TokenView>, pos: int)
    requires
        closed_stream(toks),
        0 <= pos < toks.len(),
    ensures
        well_read(Rule::ConstForm, toks, pos),
    decreases remaining(toks, pos), Rule::ConstForm.rank(),
{
    if toks[pos].token_type == TokenType::Identifier && toks[pos + 1].token_type
        == TokenType::Tilde {
        lemma_read_expression(toks, pos + 2);
    }
}

/// What follows `func` is well read.
proof fn lemma_read_func_form(toks: Seq<TokenView>, pos: int)
    requires
        closed_stream(toks),
        0 <= pos < toks.len(),
    ensures
        well_read(Rule::FuncForm, toks, pos),
    decreases remaining(toks, pos), Rule::FuncForm.rank(),
{
    if toks[pos].token_type == TokenType::Identifier && toks[pos + 1].token_type
        == TokenType::LeftParen {
        lemma_formal_parameters_stay(toks, pos + 2);
        let ps = formal_parameters(toks, pos + 2);
        let p = pos + 2 + ps.used;
        if ps.result is Ok && toks[p].token_type == TokenType::RightParen && toks[p
            + 1].token_type == TokenType::Colon && toks[p + 2].token_type
            == TokenType::Identifier && toks[p + 3].token_type == TokenType::Tilde {
            lemma_read_expression(toks, p + 4);
        }
    }
}

/// An expression is well read.
proof fn lemma_read_expression(toks: Seq<TokenView>, pos: int)
    requires
        closed_stream(toks),
        0 <= pos < toks.len(),
    ensures
        well_read(Rule::Expression, toks, pos),
    decreases remaining(toks, pos), Rule::Expression.rank(),
{
    match toks[pos].token_type {
        TokenType::Let => lemma_read_let_expression(toks, pos + 1),
        TokenType::If => lemma_read_if_expression(toks, pos + 1),
        _ => lemma_read_second_expression(toks, pos),
    }
}

/// What follows `let` in an expression is well read.
proof fn lemma_read_let_expression(toks: Seq<TokenView>, pos: int)
    requires
        closed_stream(toks),
        0 <= pos < toks.len(),
    ensures
        well_read(Rule::LetExpression, toks, pos),
    decreases remaining(toks, pos), Rule::LetExpression.rank(),
{
    lemma_read_declaration_sequence(toks, pos);
    let d = reads(Rule::DeclarationSequence, toks, pos);
    if d.result is Ok && toks[pos + d.used].token_type == TokenType::In {
        lemma_read_expression(toks, pos + d.used + 1);
    }
}

/// What follows `if` in an expression is well read.
proof fn lemma_read_if_expression(toks: Seq<TokenView>, pos: int)
    requires
        closed_stream(toks),
        0 <= pos < toks.len(),
    ensures
        well_read(Rule::IfExpression, toks, pos),
    decreases remaining(toks, pos), Rule::IfExpression.rank(),
{
    lemma_read_expression(toks, pos);
    let c = reads(Rule::Expression, toks, pos);
    let p = pos + c.used;
    if c.result is Ok && toks[p].token_type == TokenType::Then {
        lemma_read_expression(toks, p + 1);
        let a = reads(Rule::Expression, toks, p + 1);
        let q = p + 1 + a.used;
        if a.result is Ok && toks[q].token_type == TokenType::Else {
            lemma_read_expression(toks, q + 1);
        }
    }
}

/// A chain of operands and operators is well read.
proof fn lemma_read_second_expression(toks: Seq<TokenView>, pos: int)
    requires
        closed_stream(toks),
        0 <= pos < toks.len(),
    ensures
        well_read(Rule::SecondExpression, toks, pos),
    decreases remaining(toks, pos), Rule::SecondExpression.rank(),
{
    lemma_read_primary_expression(toks, pos);
    let first = reads(Rule::PrimaryExpression, toks, pos);
    if first.result is Ok {
        lemma_read_second_expression_tail(toks, pos + first.used, first.result->Ok_0[0]);
    }
}

/// The operators and operands behind `left` are well read.
proof fn lemma_read_second_expression_tail(toks: Seq<TokenView>, pos: int, left: Ast)
    requires
        closed_stream(toks),
        0 <= pos < toks.len(),
        carries_no_short_list(Rule::SecondExpressionTail(left)),
    ensures
        well_read(Rule::SecondExpressionTail(left), toks, pos),
    decreases remaining(toks, pos), Rule::SecondExpressionTail(left).rank(),
{
    if toks[pos].token_type == TokenType::Operator {
        lemma_read_primary_expression(toks, pos + 1);
        let right = reads(Rule::PrimaryExpression, toks, pos + 1);
        if right.result is Ok {
            lemma_read_second_expression_tail(toks, pos + 1 + right.used, Ast::Operator( toks[pos].lexeme, Box::new(left), Box::new(right.result->Ok_0[0]), ),);
        }
    }
}

/// A primary expression is well read.
proof fn lemma_read_primary_expression(toks: Seq<TokenView>, pos: int)
    requires
        closed_stream(toks),
        0 <= pos < toks.len(),
    ensures
        well_read(Rule::PrimaryExpression, toks, pos),
    decreases remaining(toks, pos), Rule::PrimaryExpression.rank(),
{
    match toks[pos].token_type {
        TokenType::Identifier => {
            if toks[pos + 1].token_type == TokenType::LeftParen {
                lemma_read_call(toks, pos + 2, toks[pos].lexeme);
            }
        },
        TokenType::LeftParen => lemma_read_parenthesized(toks, pos + 1),
        _ => {},
    }
}

/// What follows `(` is well read.
proof fn lemma_read_parenthesized(toks: Seq<TokenView>, pos: int)
    requires
        closed_stream(toks),
        0 <= pos < toks.len(),
    ensures
        well_read(Rule::Parenthesized, toks, pos),
    decreases remaining(toks, pos), Rule::Parenthesized.rank(),
{
    lemma_read_expression(toks, pos);
}

/// Actual parameters are well read.
proof fn lemma_read_actual_parameters(toks: Seq<TokenView>, pos: int)
    requires
        closed_stream(toks),
        0 <= pos < toks.len(),
    ensures
        well_read(Rule::ActualParameters, toks, pos),
    decreases remaining(toks, pos), Rule::ActualParameters.rank(),
{
    if toks[pos].token_type != TokenType::RightParen {
        lemma_read_expression(toks, pos);
        let first = reads(Rule::Expression, toks, pos);
        if first.result is Ok {
            lemma_read_actual_parameters_tail(toks, pos + first.used, seq![first.result->Ok_0[0]]);
        }
    }
}

/// The actual parameters behind `acc` are well read.
proof fn lemma_read_actual_parameters_tail(toks: Seq<TokenView>, pos: int, acc: Seq<Ast>)
    requires
        closed_stream(toks),
        0 <= pos < toks.len(),
    ensures
        well_read(Rule::ActualParametersTail(acc), toks, pos),
    decreases remaining(toks, pos), Rule::ActualParametersTail(acc).rank(),
{
    if toks[pos].token_type == TokenType::Comma {
        lemma_read_expression(toks, pos + 1);
        let next = reads(Rule::Expression, toks, pos + 1);
        if next.result is Ok {
            lemma_read_actual_parameters_tail(toks, pos + 1 + next.used, acc.push(next.result->Ok_0[0]));
        }
    }
}

/// The cursor never leaves the token sequence: what a command reads ends
/// before the end of a sequence that the end-of-input token closes.
pub proof fn lemma_command_stays_inside(toks: Seq<TokenView>, pos: int)
    requires
        closed_stream(toks),
        0 <= pos < toks.len(),
    ensures
        pos + command(toks, pos).used < toks.len(),
{
    lemma_read_command(toks, pos);
}

/// A sequence of one command is that command: no command that is read is a
/// `Command` node of fewer than two commands.
pub proof fn lemma_command_is_collapsed(toks: Seq<TokenView>, pos: int)
    requires
        closed_stream(toks),
        0 <= pos < toks.len(),
    ensures
        command(toks, pos).result matches Ok(Ast::Command(list)) ==> list.len() >= 2,
{
    lemma_read_command(toks, pos);
}

/// A sequence of one declaration is that declaration: no declaration
/// sequence that is read is a `Declaration` node of fewer than two
/// declarations.
pub proof fn lemma_declarations_are_collapsed(toks: Seq<TokenView>, pos: int)
    requires
        closed_stream(toks),
        0 <= pos < toks.len(),
    ensures
        declaration_sequence(toks, pos).result matches Ok(Ast::Declaration(list)) ==> list.len()
            >= 2,
{
    lemma_read_declaration_sequence(toks, pos);
}

} // verus!
