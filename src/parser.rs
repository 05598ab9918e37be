//! The recursive-descent parser: a token sequence to the program IR, or the
//! first structural error.
use vstd::prelude::*;
use crate::lexer::{Token, TokenV, tokens_view};
use crate::ir::{Events, EventsV, Actions, ActionV, EventNode, EventNodeV, CompileTimeAppIR, ProgramV, CompileError, action_view, actions_view};
use crate::text::{push_char, string_of};

verus! {

/// The token at position `p`, if any.
pub open spec fn tok(t: Seq<TokenV>, p: int) -> Option<TokenV> {
    if 0 <= p < t.len() { Some(t[p]) } else { None }
}

/// A variable reference: the name wrapped in braces.
pub open spec fn braced(s: Seq<char>) -> Seq<char> {
    seq!['{'] + s + seq!['}']
}

/// One argument at `p`: a string or number is taken verbatim, `object` and
/// a following string or word, or any other word, give a braced reference.
pub open spec fn spec_single_arg(t: Seq<TokenV>, p: int) -> Result<(Seq<char>, int), CompileError> {
    match tok(t, p) {
        Some(TokenV::StringLiteral(s)) => Ok((s, p + 1)),
        Some(TokenV::Number(n)) => Ok((n, p + 1)),
        Some(TokenV::Word(w)) => if w == "object"@ {
            match tok(t, p + 1) {
                Some(TokenV::StringLiteral(s)) => Ok((braced(s), p + 2)),
                Some(TokenV::Word(s)) => Ok((braced(s), p + 2)),
                _ => Err(CompileError::ExpectedObjectName),
            }
        } else {
            Ok((braced(w), p + 1))
        },
        _ => Err(CompileError::InvalidArgument),
    }
}

/// `arg { "," arg } ")"` from `p`.
pub open spec fn spec_arg_list(t: Seq<TokenV>, p: int) -> Result<(Seq<Seq<char>>, int), CompileError>
    decreases t.len() - p,
{
    match spec_single_arg(t, p) {
        Err(e) => Err(e),
        Ok((a, q)) => match tok(t, q) {
            Some(TokenV::RightParen) => Ok((seq![a], q + 1)),
            Some(TokenV::Comma) => match spec_arg_list(t, q + 1) {
                Err(e) => Err(e),
                Ok((rest, r)) => Ok((seq![a] + rest, r)),
            },
            None => Err(CompileError::UnclosedArguments),
            _ => Err(CompileError::UnexpectedTokenInArguments),
        },
    }
}

/// `"(" [ arg { "," arg } ] ")"` from `p`.
pub open spec fn spec_args(t: Seq<TokenV>, p: int) -> Result<(Seq<Seq<char>>, int), CompileError> {
    match tok(t, p) {
        Some(TokenV::LeftParen) => match tok(t, p + 1) {
            Some(TokenV::RightParen) => Ok((Seq::empty(), p + 2)),
            None => Err(CompileError::UnclosedArguments),
            _ => spec_arg_list(t, p + 1),
        },
        _ => Err(CompileError::ExpectedArguments),
    }
}

/// The number of arguments a leaf builtin takes, or 0 for a word that is
/// no leaf builtin.
pub open spec fn leaf_arity(w: Seq<char>) -> nat {
    if w == "log"@ || w == "warn"@ || w == "err"@ || w == "wait"@ {
        1
    } else if w == "set"@ || w == "add"@ || w == "sub"@ {
        2
    } else {
        0
    }
}

/// The action a leaf builtin builds from its arguments.
pub open spec fn leaf_action(w: Seq<char>, args: Seq<Seq<char>>) -> ActionV {
    if w == "log"@ {
        ActionV::Log(args[0])
    } else if w == "warn"@ {
        ActionV::Warn(args[0])
    } else if w == "err"@ {
        ActionV::Error(args[0])
    } else if w == "wait"@ {
        ActionV::Wait(args[0])
    } else if w == "set"@ {
        ActionV::SetVariable(args[0], args[1])
    } else if w == "add"@ {
        ActionV::Add(args[0], args[1])
    } else {
        ActionV::Subtract(args[0], args[1])
    }
}

/// One statement from `p`, with the position after it.
pub open spec fn spec_stmt(t: Seq<TokenV>, p: int) -> Result<(ActionV, int), CompileError>
    decreases t.len() - p, 0nat,
{
    match tok(t, p) {
        Some(TokenV::Word(w)) => if leaf_arity(w) > 0 {
            match spec_args(t, p + 1) {
                Err(e) => Err(e),
                Ok((args, q)) => if args.len() == leaf_arity(w) && tok(t, q) == Some(TokenV::Semicolon) {
                    Ok((leaf_action(w, args), q + 1))
                } else {
                    Err(CompileError::WrongArity)
                },
            }
        } else if w == "loop"@ {
            match spec_body(t, p + 1) {
                Err(e) => Err(e),
                Ok((body, q)) => Ok((ActionV::RepeatForever(body), q)),
            }
        } else if w == "repeat"@ {
            match spec_single_arg(t, p + 1) {
                Err(e) => Err(e),
                Ok((n, q)) => match spec_body(t, q) {
                    Err(e) => Err(e),
                    Ok((body, r)) => Ok((ActionV::RepeatTimes(n, body), r)),
                },
            }
        } else if w == "break"@ {
            if tok(t, p + 1) == Some(TokenV::Semicolon) {
                Ok((ActionV::Break, p + 2))
            } else {
                Err(CompileError::MissingSemicolon)
            }
        } else {
            Err(CompileError::UnknownBuiltin)
        },
        _ => Err(CompileError::UnknownBuiltin),
    }
}

/// A body from `p`: a braced list of statements, or one statement.
pub open spec fn spec_body(t: Seq<TokenV>, p: int) -> Result<(Seq<ActionV>, int), CompileError>
    decreases t.len() - p, 2nat,
{
    if tok(t, p) == Some(TokenV::LeftBrace) {
        spec_block(t, p + 1)
    } else {
        match spec_stmt(t, p) {
            Err(e) => Err(e),
            Ok((a, q)) => Ok((seq![a], q)),
        }
    }
}

/// The statements of a braced body from `p` up to and including its `}`.
pub open spec fn spec_block(t: Seq<TokenV>, p: int) -> Result<(Seq<ActionV>, int), CompileError>
    decreases t.len() - p, 1nat,
{
    match tok(t, p) {
        None => Err(CompileError::UnclosedBlock),
        Some(TokenV::RightBrace) => Ok((Seq::empty(), p + 1)),
        _ => match spec_stmt(t, p) {
            Err(e) => Err(e),
            Ok((a, q)) => if p < q <= t.len() {
                match spec_block(t, q) {
                    Err(e) => Err(e),
                    Ok((rest, r)) => Ok((seq![a] + rest, r)),
                }
            } else {
                Err(CompileError::UnclosedBlock)
            },
        },
    }
}

/// The event kind for a name and its arguments.
pub open spec fn event_kind(name: Seq<char>, args: Seq<Seq<char>>) -> Option<EventsV> {
    if name == "WhenWebsiteLoaded"@ && args.len() == 0 {
        Some(EventsV::WhenWebsiteLoaded)
    } else if name == "WhenButtonPressed"@ && args.len() == 1 {
        Some(EventsV::WhenButtonPressed(args[0]))
    } else {
        None
    }
}

/// An event declaration after its `event` keyword: name, arguments, `:`, body.
pub open spec fn spec_event(t: Seq<TokenV>, p: int) -> Result<(EventNodeV, int), CompileError> {
    match tok(t, p) {
        Some(TokenV::Word(name)) => match spec_args(t, p + 1) {
            Err(e) => Err(e),
            Ok((args, q)) => match event_kind(name, args) {
                None => Err(CompileError::UnknownEvent),
                Some(kind) => if tok(t, q) == Some(TokenV::Colon) {
                    match spec_body(t, q + 1) {
                        Err(e) => Err(e),
                        Ok((body, r)) => Ok((EventNodeV { event: kind, actions: body, local_variables: Seq::empty() }, r)),
                    }
                } else {
                    Err(CompileError::MissingColon)
                },
            },
        },
        _ => Err(CompileError::ExpectedEventName),
    }
}

/// The event declarations from `p` to the end.
pub open spec fn spec_events(t: Seq<TokenV>, p: int) -> Result<Seq<EventNodeV>, CompileError>
    decreases t.len() - p,
{
    match tok(t, p) {
        None => Ok(Seq::empty()),
        Some(TokenV::Word(w)) => if w == "event"@ {
            match spec_event(t, p + 1) {
                Err(e) => Err(e),
                Ok((ev, q)) => if p < q <= t.len() {
                    match spec_events(t, q) {
                        Err(e) => Err(e),
                        Ok(rest) => Ok(seq![ev] + rest),
                    }
                } else {
                    Err(CompileError::UnknownTopLevel)
                },
            }
        } else {
            Err(CompileError::UnknownTopLevel)
        },
        _ => Err(CompileError::UnknownTopLevel),
    }
}

/// The program a token sequence denotes.
pub open spec fn parse_program(t: Seq<TokenV>) -> Result<ProgramV, CompileError> {
    match spec_events(t, 0) {
        Err(e) => Err(e),
        Ok(events) => Ok(ProgramV { events, globals: Seq::empty() }),
    }
}

pub open spec fn strings_view(v: Seq<String>) -> Seq<Seq<char>> {
    v.map_values(|s: String| s@)
}

pub open spec fn prepend_args(
    pre: Seq<Seq<char>>,
    r: Result<(Seq<Seq<char>>, int), CompileError>,
) -> Result<(Seq<Seq<char>>, int), CompileError> {
    match r {
        Err(e) => Err(e),
        Ok((rest, q)) => Ok((pre + rest, q)),
    }
}

pub open spec fn prepend_actions(
    pre: Seq<ActionV>,
    r: Result<(Seq<ActionV>, int), CompileError>,
) -> Result<(Seq<ActionV>, int), CompileError> {
    match r {
        Err(e) => Err(e),
        Ok((rest, q)) => Ok((pre + rest, q)),
    }
}

pub open spec fn prepend_events(
    pre: Seq<EventNodeV>,
    r: Result<Seq<EventNodeV>, CompileError>,
) -> Result<Seq<EventNodeV>, CompileError> {
    match r {
        Err(e) => Err(e),
        Ok(rest) => Ok(pre + rest),
    }
}

proof fn lemma_actions_view_push(s: Seq<Actions>, a: Actions)
    ensures
        actions_view(s.push(a)) == actions_view(s).push(action_view(a)),
{
    assert(s.push(a).subrange(0, s.len() as int) =~= s);
}

/// Whether `w` holds the text `lit`.
fn word_is(w: &String, lit: &str) -> (r: bool)
    ensures
        r == (w@ == lit@),
{
    let l = string_of(lit);
    w.eq(&l)
}

/// `s` wrapped in braces.
fn brace(s: &String) -> (r: String)
    ensures
        r@ == braced(s@),
{
    let cs = crate::text::chars_of(s.as_str());
    let mut out = String::new();
    push_char(&mut out, '{');
    let mut k: usize = 0;
    while k < cs.len()
        invariant
            k <= cs@.len(),
            cs@ == s@,
            out@ == seq!['{'] + cs@.subrange(0, k as int),
        decreases cs@.len() - k,
    {
        push_char(&mut out, cs[k]);
        assert(cs@.subrange(0, k + 1) =~= cs@.subrange(0, k as int).push(cs@[k as int]));
        k = k + 1;
    }
    push_char(&mut out, '}');
    assert(cs@.subrange(0, k as int) =~= s@);
    out
}

/// Parses one argument at `p`.
fn parse_single_arg(t: &Vec<Token>, p: usize) -> (r: Result<(String, usize), CompileError>)
    ensures
        match (r, spec_single_arg(tokens_view(t@), p as int)) {
            (Ok((s, q)), Ok((sv, qv))) => s@ == sv && q == qv && p < q <= t@.len(),
            (Err(e), Err(ev)) => e == ev,
            _ => false,
        },
{
    let ghost tv = tokens_view(t@);
    if p >= t.len() {
        return Err(CompileError::InvalidArgument);
    }
    assert(tv[p as int] == t@[p as int]@);
    match &t[p] {
        Token::StringLiteral(s) => Ok((s.clone(), p + 1)),
        Token::Number(n) => Ok((n.clone(), p + 1)),
        Token::Word(w) => {
            if word_is(w, "object") {
                if p + 1 >= t.len() {
                    return Err(CompileError::ExpectedObjectName);
                }
                assert(tv[p + 1] == t@[p + 1]@);
                match &t[p + 1] {
                    Token::StringLiteral(s) => Ok((brace(s), p + 2)),
                    Token::Word(s) => Ok((brace(s), p + 2)),
                    _ => Err(CompileError::ExpectedObjectName),
                }
            } else {
                Ok((brace(w), p + 1))
            }
        },
        _ => Err(CompileError::InvalidArgument),
    }
}

/// Parses a parenthesised, comma-separated argument list at `p`.
fn parse_args(t: &Vec<Token>, p: usize) -> (r: Result<(Vec<String>, usize), CompileError>)
    ensures
        match (r, spec_args(tokens_view(t@), p as int)) {
            (Ok((a, q)), Ok((av, qv))) => strings_view(a@) == av && q == qv && p < q <= t@.len(),
            (Err(e), Err(ev)) => e == ev,
            _ => false,
        },
{
    let ghost tv = tokens_view(t@);
    if p >= t.len() || !matches!(t[p], Token::LeftParen) {
        return Err(CompileError::ExpectedArguments);
    }
    assert(tv[p as int] == t@[p as int]@);
    if p + 1 >= t.len() {
        return Err(CompileError::UnclosedArguments);
    }
    assert(tv[p + 1] == t@[p + 1]@);
    if matches!(t[p + 1], Token::RightParen) {
        assert(strings_view(Seq::<String>::empty()) =~= Seq::<Seq<char>>::empty());
        return Ok((Vec::new(), p + 2));
    }
    let mut args: Vec<String> = Vec::new();
    let mut cur = p + 1;
    assert(strings_view(args@) + Seq::<Seq<char>>::empty() =~= Seq::<Seq<char>>::empty());
    assert(spec_arg_list(tv, cur as int) == prepend_args(strings_view(args@), spec_arg_list(tv, cur as int))) by {
        match spec_arg_list(tv, cur as int) {
            Ok((rest, q)) => { assert(strings_view(args@) + rest =~= rest); },
            Err(_) => {},
        }
    }
    loop
        invariant
            p < cur <= t@.len(),
            tv == tokens_view(t@),
            spec_args(tv, p as int) == spec_arg_list(tv, p + 1),
            spec_arg_list(tv, p + 1) == prepend_args(strings_view(args@), spec_arg_list(tv, cur as int)),
        decreases t@.len() - cur,
    {
        let (a, q) = match parse_single_arg(t, cur) {
            Err(e) => { return Err(e); },
            Ok(x) => x,
        };
        if q >= t.len() {
            return Err(CompileError::UnclosedArguments);
        }
        assert(tv[q as int] == t@[q as int]@);
        let ghost pre = strings_view(args@);
        if matches!(t[q], Token::RightParen) {
            args.push(a);
            assert(strings_view(args@) =~= pre + seq![a@]);
            return Ok((args, q + 1));
        } else if matches!(t[q], Token::Comma) {
            args.push(a);
            assert(strings_view(args@) =~= pre + seq![a@]);
            proof {
                match spec_arg_list(tv, q + 1) {
                    Ok((rest, r)) => { assert(pre + (seq![a@] + rest) =~= strings_view(args@) + rest); },
                    Err(_) => {},
                }
            }
            cur = q + 1;
        } else {
            return Err(CompileError::UnexpectedTokenInArguments);
        }
    }
}

/// The number of arguments the leaf builtin `w` takes, 0 if it is none.
fn leaf_arity_of(w: &String) -> (r: usize)
    ensures
        r == leaf_arity(w@),
{
    if word_is(w, "log") || word_is(w, "warn") || word_is(w, "err") || word_is(w, "wait") {
        1
    } else if word_is(w, "set") || word_is(w, "add") || word_is(w, "sub") {
        2
    } else {
        0
    }
}

/// Builds the leaf action of builtin `w` from its arguments.
fn leaf_of(w: &String, args: &Vec<String>) -> (r: Actions)
    requires
        leaf_arity(w@) > 0,
        args@.len() == leaf_arity(w@),
    ensures
        action_view(r) == leaf_action(w@, strings_view(args@)),
{
    let ghost av = strings_view(args@);
    assert(av[0] == args@[0]@);
    if word_is(w, "log") {
        Actions::Log(args[0].clone())
    } else if word_is(w, "warn") {
        Actions::Warn(args[0].clone())
    } else if word_is(w, "err") {
        Actions::Error(args[0].clone())
    } else if word_is(w, "wait") {
        Actions::Wait(args[0].clone())
    } else {
        assert(av[1] == args@[1]@);
        if word_is(w, "set") {
            Actions::SetVariable(args[0].clone(), args[1].clone())
        } else if word_is(w, "add") {
            Actions::Add(args[0].clone(), args[1].clone())
        } else {
            Actions::Subtract(args[0].clone(), args[1].clone())
        }
    }
}

/// Parses one statement at `p`.
fn parse_base(t: &Vec<Token>, p: usize) -> (r: Result<(Actions, usize), CompileError>)
    ensures
        match (r, spec_stmt(tokens_view(t@), p as int)) {
            (Ok((a, q)), Ok((av, qv))) => action_view(a) == av && q == qv && p < q <= t@.len(),
            (Err(e), Err(ev)) => e == ev,
            _ => false,
        },
    decreases t@.len() - p, 0nat,
{
    let ghost tv = tokens_view(t@);
    if p >= t.len() {
        return Err(CompileError::UnknownBuiltin);
    }
    assert(tv[p as int] == t@[p as int]@);
    let w = match &t[p] {
        Token::Word(w) => w,
        _ => { return Err(CompileError::UnknownBuiltin); },
    };
    let arity = leaf_arity_of(w);
    if arity > 0 {
        let (args, q) = match parse_args(t, p + 1) {
            Err(e) => { return Err(e); },
            Ok(x) => x,
        };
        if args.len() != arity || q >= t.len() || !matches!(t[q], Token::Semicolon) {
            proof {
                if q < t@.len() {
                    assert(tv[q as int] == t@[q as int]@);
                }
            }
            return Err(CompileError::WrongArity);
        }
        assert(tv[q as int] == t@[q as int]@);
        Ok((leaf_of(w, &args), q + 1))
    } else if word_is(w, "loop") {
        match parse_inside(t, p + 1) {
            Err(e) => Err(e),
            Ok((body, q)) => Ok((Actions::RepeatForever(body), q)),
        }
    } else if word_is(w, "repeat") {
        let (n, q) = match parse_single_arg(t, p + 1) {
            Err(e) => { return Err(e); },
            Ok(x) => x,
        };
        match parse_inside(t, q) {
            Err(e) => Err(e),
            Ok((body, r)) => Ok((Actions::RepeatTimes(n, body), r)),
        }
    } else if word_is(w, "break") {
        if p + 1 < t.len() && matches!(t[p + 1], Token::Semicolon) {
            assert(tv[p + 1] == t@[p + 1]@);
            Ok((Actions::Break, p + 2))
        } else {
            proof {
                if p + 1 < t@.len() {
                    assert(tv[p + 1] == t@[p + 1]@);
                }
            }
            Err(CompileError::MissingSemicolon)
        }
    } else {
        Err(CompileError::UnknownBuiltin)
    }
}

/// Parses a body at `p`: a braced list of statements, or one statement.
fn parse_inside(t: &Vec<Token>, p: usize) -> (r: Result<(Vec<Actions>, usize), CompileError>)
    ensures
        match (r, spec_body(tokens_view(t@), p as int)) {
            (Ok((a, q)), Ok((av, qv))) => actions_view(a@) == av && q == qv && p < q <= t@.len(),
            (Err(e), Err(ev)) => e == ev,
            _ => false,
        },
    decreases t@.len() - p, 1nat,
{
    let ghost tv = tokens_view(t@);
    let mut code: Vec<Actions> = Vec::new();
    if p < t.len() && matches!(t[p], Token::LeftBrace) {
        assert(tv[p as int] == t@[p as int]@);
        let mut cur = p + 1;
        proof {
            assert(actions_view(code@) =~= Seq::<ActionV>::empty());
            match spec_block(tv, cur as int) {
                Ok((rest, q)) => { assert(actions_view(code@) + rest =~= rest); },
                Err(_) => {},
            }
        }
        loop
            invariant
                p < cur <= t@.len(),
                tv == tokens_view(t@),
                spec_body(tv, p as int) == spec_block(tv, p + 1),
                spec_block(tv, p + 1) == prepend_actions(actions_view(code@), spec_block(tv, cur as int)),
            decreases t@.len() - cur,
        {
            if cur >= t.len() {
                return Err(CompileError::UnclosedBlock);
            }
            assert(tv[cur as int] == t@[cur as int]@);
            if matches!(t[cur], Token::RightBrace) {
                assert(actions_view(code@) + Seq::<ActionV>::empty() =~= actions_view(code@));
                return Ok((code, cur + 1));
            }
            let (a, q) = match parse_base(t, cur) {
                Err(e) => { return Err(e); },
                Ok(x) => x,
            };
            let ghost pre = actions_view(code@);
            proof { lemma_actions_view_push(code@, a); }
            code.push(a);
            proof {
                match spec_block(tv, q as int) {
                    Ok((rest, r)) => { assert(pre + (seq![action_view(a)] + rest) =~= actions_view(code@) + rest); },
                    Err(_) => {},
                }
            }
            cur = q;
        }
    } else {
        proof {
            if p < t@.len() {
                assert(tv[p as int] == t@[p as int]@);
            }
        }
        match parse_base(t, p) {
            Err(e) => Err(e),
            Ok((a, q)) => {
                proof { lemma_actions_view_push(code@, a); }
                code.push(a);
                assert(actions_view(code@) =~= seq![action_view(a)]);
                Ok((code, q))
            },
        }
    }
}

/// The event kind for a name and its arguments, if there is one.
fn event_of(name: &String, args: &Vec<String>) -> (r: Option<Events>)
    ensures
        match (r, event_kind(name@, strings_view(args@))) {
            (Some(e), Some(ev)) => e@ == ev,
            (None, None) => true,
            _ => false,
        },
{
    if word_is(name, "WhenWebsiteLoaded") && args.len() == 0 {
        Some(Events::WhenWebsiteLoaded)
    } else if word_is(name, "WhenButtonPressed") && args.len() == 1 {
        assert(strings_view(args@)[0] == args@[0]@);
        Some(Events::WhenButtonPressed(args[0].clone()))
    } else {
        None
    }
}

/// Parses an event declaration after its `event` keyword, at `p`.
fn parse_event(t: &Vec<Token>, p: usize) -> (r: Result<(EventNode, usize), CompileError>)
    ensures
        match (r, spec_event(tokens_view(t@), p as int)) {
            (Ok((e, q)), Ok((ev, qv))) => e@ == ev && q == qv && p < q <= t@.len(),
            (Err(e), Err(ev)) => e == ev,
            _ => false,
        },
{
    let ghost tv = tokens_view(t@);
    if p >= t.len() {
        return Err(CompileError::ExpectedEventName);
    }
    assert(tv[p as int] == t@[p as int]@);
    let name = match &t[p] {
        Token::Word(w) => w,
        _ => { return Err(CompileError::ExpectedEventName); },
    };
    let (args, q) = match parse_args(t, p + 1) {
        Err(e) => { return Err(e); },
        Ok(x) => x,
    };
    let event = match event_of(name, &args) {
        None => { return Err(CompileError::UnknownEvent); },
        Some(e) => e,
    };
    if q >= t.len() || !matches!(t[q], Token::Colon) {
        proof {
            if q < t@.len() {
                assert(tv[q as int] == t@[q as int]@);
            }
        }
        return Err(CompileError::MissingColon);
    }
    assert(tv[q as int] == t@[q as int]@);
    match parse_inside(t, q + 1) {
        Err(e) => Err(e),
        Ok((actions, r)) => {
            let node = EventNode { event, actions, local_variables: Vec::new() };
            assert(node.local_variables@ =~= Seq::<u64>::empty());
            Ok((node, r))
        },
    }
}

/// Parses a whole token sequence into the program IR; fails with the first
/// structural error.
pub fn parse_code(code: Vec<Token>) -> (r: Result<CompileTimeAppIR, CompileError>)
    ensures
        match (r, parse_program(tokens_view(code@))) {
            (Ok(app), Ok(pv)) => app@ == pv,
            (Err(e), Err(ev)) => e == ev,
            _ => false,
        },
{
    let ghost tv = tokens_view(code@);
    let t = &code;
    let mut events: Vec<EventNode> = Vec::new();
    let mut cur: usize = 0;
    proof {
        match spec_events(tv, 0) {
            Ok(rest) => { assert(events@.map_values(|e: EventNode| e@) + rest =~= rest); },
            Err(_) => {},
        }
    }
    while cur < t.len()
        invariant
            cur <= t@.len(),
            t@ == code@,
            tv == tokens_view(t@),
            spec_events(tv, 0) == prepend_events(events@.map_values(|e: EventNode| e@), spec_events(tv, cur as int)),
        decreases t@.len() - cur,
    {
        assert(tv[cur as int] == t@[cur as int]@);
        let is_event = match &t[cur] {
            Token::Word(w) => word_is(w, "event"),
            _ => false,
        };
        if !is_event {
            return Err(CompileError::UnknownTopLevel);
        }
        let (ev, q) = match parse_event(t, cur + 1) {
            Err(e) => { return Err(e); },
            Ok(x) => x,
        };
        let ghost pre = events@.map_values(|e: EventNode| e@);
        events.push(ev);
        assert(events@.map_values(|e: EventNode| e@) =~= pre.push(ev@));
        proof {
            match spec_events(tv, q as int) {
                Ok(rest) => { assert(pre + (seq![ev@] + rest) =~= events@.map_values(|e: EventNode| e@) + rest); },
                Err(_) => {},
            }
        }
        cur = q;
    }
    let app = CompileTimeAppIR { events, globals: Vec::new() };
    assert(app.events@.map_values(|e: EventNode| e@) + Seq::<EventNodeV>::empty() =~= app.events@.map_values(|e: EventNode| e@));
    assert(app.globals@ =~= Seq::<u64>::empty());
    Ok(app)
}

} // verus!
