//! Properties relating the stages, proved over their specifications.
use vstd::prelude::*;
use crate::lexer::TokenV;
use crate::ir::ActionV;
use crate::parser::{spec_stmt, spec_body, spec_args, spec_arg_list, spec_single_arg, leaf_arity, leaf_action, braced, tok};
use crate::codegen::{action_json, actions_json, element, end_element, jstr, param, program_json};
use crate::json::{JsonV, json_view};

verus! {

/// A token that forms one argument on its own.
pub open spec fn plain_arg(x: TokenV) -> bool {
    match x {
        TokenV::StringLiteral(_) => true,
        TokenV::Number(_) => true,
        TokenV::Word(w) => w != "object"@,
        _ => false,
    }
}

/// The operand text a plain argument token gives: strings and numbers
/// verbatim, a word as a braced reference.
pub open spec fn arg_text(x: TokenV) -> Seq<char> {
    match x {
        TokenV::StringLiteral(s) => s,
        TokenV::Number(n) => n,
        TokenV::Word(w) => braced(w),
        _ => Seq::empty(),
    }
}

/// A well-formed one-operand builtin call `w(a);` parses to the builtin's
/// action holding the argument's operand text, and consumes the whole call.
pub proof fn lemma_unary_call_parses(w: Seq<char>, a: TokenV)
    requires
        leaf_arity(w) == 1,
        plain_arg(a),
    ensures
        spec_stmt(seq![TokenV::Word(w), TokenV::LeftParen, a, TokenV::RightParen, TokenV::Semicolon], 0)
            == Ok::<(ActionV, int), crate::ir::CompileError>((leaf_action(w, seq![arg_text(a)]), 5)),
{
    let t = seq![TokenV::Word(w), TokenV::LeftParen, a, TokenV::RightParen, TokenV::Semicolon];
    assert(tok(t, 2) == Some(a));
    assert(spec_single_arg(t, 2) == Ok::<(Seq<char>, int), crate::ir::CompileError>((arg_text(a), 3)));
    assert(spec_arg_list(t, 2) == Ok::<(Seq<Seq<char>>, int), crate::ir::CompileError>((seq![arg_text(a)], 4)));
    assert(spec_args(t, 1) == Ok::<(Seq<Seq<char>>, int), crate::ir::CompileError>((seq![arg_text(a)], 4)));
}

/// A well-formed two-operand builtin call `w(a, b);` parses to the builtin's
/// action holding both operand texts in order, and consumes the whole call.
pub proof fn lemma_binary_call_parses(w: Seq<char>, a: TokenV, b: TokenV)
    requires
        leaf_arity(w) == 2,
        plain_arg(a),
        plain_arg(b),
    ensures
        spec_stmt(seq![TokenV::Word(w), TokenV::LeftParen, a, TokenV::Comma, b, TokenV::RightParen, TokenV::Semicolon], 0)
            == Ok::<(ActionV, int), crate::ir::CompileError>((leaf_action(w, seq![arg_text(a), arg_text(b)]), 7)),
{
    let t = seq![TokenV::Word(w), TokenV::LeftParen, a, TokenV::Comma, b, TokenV::RightParen, TokenV::Semicolon];
    assert(tok(t, 2) == Some(a));
    assert(tok(t, 4) == Some(b));
    assert(spec_single_arg(t, 2) == Ok::<(Seq<char>, int), crate::ir::CompileError>((arg_text(a), 3)));
    assert(spec_single_arg(t, 4) == Ok::<(Seq<char>, int), crate::ir::CompileError>((arg_text(b), 5)));
    assert(spec_arg_list(t, 4) == Ok::<(Seq<Seq<char>>, int), crate::ir::CompileError>((seq![arg_text(b)], 6)));
    assert(seq![arg_text(a)] + seq![arg_text(b)] =~= seq![arg_text(a), arg_text(b)]);
    assert(spec_arg_list(t, 2) == Ok::<(Seq<Seq<char>>, int), crate::ir::CompileError>((seq![arg_text(a), arg_text(b)], 6)));
}

/// The summed lengths of what each action of a body generates.
pub open spec fn generated_lengths(s: Seq<ActionV>) -> int
    decreases s.len(),
{
    if s.len() == 0 {
        0
    } else {
        generated_lengths(s.subrange(0, s.len() - 1)) + action_json(s[s.len() - 1])->0.len()
    }
}

/// A body's generated elements number the sum of its actions' own.
pub proof fn lemma_body_length(s: Seq<ActionV>)
    requires
        actions_json(s) is Some,
    ensures
        actions_json(s)->0.len() == generated_lengths(s),
    decreases s.len(),
{
    if s.len() > 0 {
        lemma_body_length(s.subrange(0, s.len() - 1));
    }
}

/// A block action generates its begin element, its body's elements and its
/// end element: two more than the sum over the body, at any nesting depth.
pub proof fn lemma_block_length(a: ActionV)
    requires
        a is RepeatTimes || a is RepeatForever,
        action_json(a) is Some,
    ensures
        match a {
            ActionV::RepeatTimes(_, body) => action_json(a)->0.len() == 2 + generated_lengths(body),
            ActionV::RepeatForever(body) => action_json(a)->0.len() == 2 + generated_lengths(body),
            _ => true,
        },
{
    match a {
        ActionV::RepeatTimes(_, body) => lemma_body_length(body),
        ActionV::RepeatForever(body) => lemma_body_length(body),
        _ => {},
    }
}

/// Generation is a function of the IR: two values generated for the same
/// program are the same JSON value.
pub proof fn lemma_regeneration_identical(p: crate::ir::ProgramV, v1: serde_json::Value, v2: serde_json::Value)
    requires
        program_json(p) == Ok::<JsonV, crate::ir::CompileError>(json_view(v1)),
        program_json(p) == Ok::<JsonV, crate::ir::CompileError>(json_view(v2)),
    ensures
        json_view(v1) == json_view(v2),
{
}

/// An empty braced body `{ }` parses to no actions, consuming both braces.
pub proof fn lemma_empty_body_parses(t: Seq<TokenV>, p: int)
    requires
        tok(t, p) == Some(TokenV::LeftBrace),
        tok(t, p + 1) == Some(TokenV::RightBrace),
    ensures
        spec_body(t, p) == Ok::<(Seq<ActionV>, int), crate::ir::CompileError>((Seq::empty(), p + 2)),
{
}

/// A block with an empty body still generates its begin and end elements,
/// with nothing between them.
pub proof fn lemma_empty_block_brackets(n: Seq<char>)
    ensures
        action_json(ActionV::RepeatTimes(n, Seq::empty())) == Some(seq![
            element("22"@, seq![jstr("Repeat"@), param(n, None, "number"@), jstr("times"@)]),
            end_element(),
        ]),
        action_json(ActionV::RepeatForever(Seq::empty())) == Some(seq![
            element("23"@, seq![jstr("Repeat forever"@)]),
            end_element(),
        ]),
{
    assert(actions_json(Seq::empty()) == Some(Seq::<JsonV>::empty()));
    assert(seq![element("22"@, seq![jstr("Repeat"@), param(n, None, "number"@), jstr("times"@)])]
        + Seq::<JsonV>::empty() + seq![end_element()] =~= seq![
            element("22"@, seq![jstr("Repeat"@), param(n, None, "number"@), jstr("times"@)]),
            end_element(),
        ]);
    assert(seq![element("23"@, seq![jstr("Repeat forever"@)])] + Seq::<JsonV>::empty() + seq![end_element()]
        =~= seq![element("23"@, seq![jstr("Repeat forever"@)]), end_element()]);
}

} // verus!
