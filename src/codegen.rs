//! The code generator: the program IR to the editor's JSON script value.
//! Nested blocks are flattened into a begin element, the body's elements and
//! an end element.
use vstd::prelude::*;
use crate::ir::{Actions, ActionV, Events, EventsV, EventNode, EventNodeV, CompileTimeAppIR, ProgramV, CompileError, action_view, actions_view};
use crate::json::{JsonV, json_view, values_view, json_string, json_array, json_map_new, json_map_insert, json_object, json_text};
use crate::text::string_of;

verus! {

/// Horizontal position of the first handler, and the step between handlers.
pub const EVENT_X: usize = 4780;
pub const EVENT_X_STEP: usize = 410;

pub open spec fn jstr(s: Seq<char>) -> JsonV {
    JsonV::Str(s)
}

/// A parameter descriptor: the operand, an optional display label, a value kind.
pub open spec fn param(value: Seq<char>, label: Option<Seq<char>>, kind: Seq<char>) -> JsonV {
    let m = Map::empty().insert("value"@, jstr(value));
    let m = match label {
        Some(l) => m.insert("l"@, jstr(l)),
        None => m,
    };
    JsonV::Obj(m.insert("t"@, jstr(kind)))
}

/// An element with its opcode, type tag `0` and display template.
pub open spec fn element(id: Seq<char>, text: Seq<JsonV>) -> JsonV {
    JsonV::Obj(Map::empty().insert("id"@, jstr(id)).insert("t"@, jstr("0"@)).insert("text"@, JsonV::Arr(text)))
}

pub open spec fn break_element() -> JsonV {
    JsonV::Obj(Map::empty().insert("id"@, jstr("24"@)).insert("text"@, JsonV::Arr(seq![jstr("Break"@)])))
}

pub open spec fn end_element() -> JsonV {
    element("25"@, seq![jstr("end"@)])
}

/// A leaf element whose template is a caption and one operand.
pub open spec fn unary(id: Seq<char>, caption: Seq<char>, x: Seq<char>, kind: Seq<char>) -> JsonV {
    element(id, seq![jstr(caption), param(x, None, kind)])
}

/// A leaf element `caption <variable> word <operand>`.
pub open spec fn binary(id: Seq<char>, caption: Seq<char>, var: Seq<char>, word: Seq<char>, x: Seq<char>, label: Option<Seq<char>>, kind: Seq<char>) -> JsonV {
    element(id, seq![jstr(caption), param(var, Some("variable"@), "string"@), jstr(word), param(x, label, kind)])
}

/// The elements an action generates, or `None` when it has no mapping.
pub open spec fn action_json(a: ActionV) -> Option<Seq<JsonV>>
    decreases a, 0nat,
{
    match a {
        ActionV::Log(x) => Some(seq![unary("0"@, "Log"@, x, "any"@)]),
        ActionV::Warn(x) => Some(seq![unary("1"@, "Warn"@, x, "any"@)]),
        ActionV::Error(x) => Some(seq![unary("2"@, "Error"@, x, "any"@)]),
        ActionV::Wait(x) => Some(seq![unary("3"@, "Wait"@, x, "number"@)]),
        ActionV::SetVariable(v, x) => Some(seq![binary("11"@, "Set"@, v, "to"@, x, Some("any"@), "string"@)]),
        ActionV::Add(v, x) => Some(seq![binary("12"@, "Increase"@, v, "by"@, x, None, "number"@)]),
        ActionV::Subtract(v, x) => Some(seq![binary("13"@, "Decrease"@, v, "by"@, x, None, "number"@)]),
        ActionV::RepeatForever(body) => match actions_json(body) {
            Some(inner) => Some(seq![element("23"@, seq![jstr("Repeat forever"@)])] + inner + seq![end_element()]),
            None => None,
        },
        ActionV::RepeatTimes(n, body) => match actions_json(body) {
            Some(inner) => Some(seq![element("22"@, seq![jstr("Repeat"@), param(n, None, "number"@), jstr("times"@)])] + inner + seq![end_element()]),
            None => None,
        },
        ActionV::Break => Some(seq![break_element()]),
        _ => None,
    }
}

/// The elements of a sequence of actions, in order, or `None` when one of
/// them has no mapping.
pub open spec fn actions_json(s: Seq<ActionV>) -> Option<Seq<JsonV>>
    decreases s, s.len(),
{
    if s.len() == 0 {
        Some(Seq::empty())
    } else {
        match (actions_json(s.subrange(0, s.len() - 1)), action_json(s[s.len() - 1])) {
            (Some(a), Some(b)) => Some(a + b),
            _ => None,
        }
    }
}

pub open spec fn digit(d: nat) -> char {
    if d == 0 { '0' } else if d == 1 { '1' } else if d == 2 { '2' } else if d == 3 { '3' }
    else if d == 4 { '4' } else if d == 5 { '5' } else if d == 6 { '6' } else if d == 7 { '7' }
    else if d == 8 { '8' } else { '9' }
}

/// Decimal digits of `n`.
pub open spec fn decimal(n: nat) -> Seq<char>
    decreases n,
{
    if n < 10 { seq![digit(n)] } else { decimal(n / 10).push(digit(n % 10)) }
}

/// The display template and id of an event kind, if it has a mapping.
pub open spec fn event_header(e: EventsV) -> Option<(Seq<JsonV>, Seq<char>)> {
    match e {
        EventsV::WhenWebsiteLoaded => Some((seq![jstr("When website loaded..."@)], "0"@)),
        EventsV::WhenButtonPressed(b) => Some((seq![jstr("When"@), param(b, Some("button"@), "object"@), jstr("pressed..."@)], "1"@)),
        _ => None,
    }
}

/// The script block of the handler at index `i`.
pub open spec fn event_json(i: nat, e: EventNodeV) -> Result<JsonV, CompileError> {
    match event_header(e.event) {
        None => Err(CompileError::UnsupportedEvent),
        Some((text, id)) => match actions_json(e.actions) {
            None => Err(CompileError::UnsupportedAction),
            Some(acts) => Ok(JsonV::Obj(Map::empty()
                .insert("id"@, jstr(id))
                .insert("x"@, jstr(decimal((EVENT_X + i * EVENT_X_STEP) as nat)))
                .insert("y"@, jstr("4780"@))
                .insert("width"@, jstr("400"@))
                .insert("text"@, JsonV::Arr(text))
                .insert("actions"@, JsonV::Arr(acts)))),
        },
    }
}

/// The script blocks of the handlers, or the error of the first that fails.
pub open spec fn events_json(s: Seq<EventNodeV>) -> Result<Seq<JsonV>, CompileError>
    decreases s.len(),
{
    if s.len() == 0 {
        Ok(Seq::empty())
    } else {
        match events_json(s.subrange(0, s.len() - 1)) {
            Err(e) => Err(e),
            Ok(a) => match event_json((s.len() - 1) as nat, s[s.len() - 1]) {
                Err(e) => Err(e),
                Ok(b) => Ok(a.push(b)),
            },
        }
    }
}

/// The wire value of a program.
pub open spec fn program_json(p: ProgramV) -> Result<JsonV, CompileError> {
    match events_json(p.events) {
        Err(e) => Err(e),
        Ok(content) => Ok(JsonV::Arr(seq![JsonV::Obj(Map::empty()
            .insert("class"@, jstr("script"@))
            .insert("content"@, JsonV::Arr(content)))])),
    }
}

/// Relies on `usize`'s `to_string`: its decimal digits.
#[verifier::external_body]
fn decimal_string(n: usize) -> (r: String)
    ensures
        r@ == decimal(n as nat),
{
    n.to_string()
}

proof fn lemma_actions_json_push(s: Seq<ActionV>, a: ActionV)
    ensures
        actions_json(s.push(a)) == match (actions_json(s), action_json(a)) {
            (Some(x), Some(y)) => Some(x + y),
            _ => None::<Seq<JsonV>>,
        },
{
    assert(s.push(a).subrange(0, s.len() as int) =~= s);
}

proof fn lemma_actions_view_prefix(s: Seq<Actions>, i: int)
    requires
        0 <= i < s.len(),
    ensures
        actions_view(s.subrange(0, i + 1)) == actions_view(s.subrange(0, i)).push(action_view(s[i])),
{
    assert(s.subrange(0, i + 1).subrange(0, i) =~= s.subrange(0, i));
}

pub open spec fn opt_view(label: Option<&str>) -> Option<Seq<char>> {
    match label {
        Some(l) => Some(l@),
        None => None,
    }
}

fn push_json(out: &mut Vec<serde_json::Value>, v: serde_json::Value)
    ensures
        values_view(final(out)@) == values_view(old(out)@).push(json_view(v)),
{
    out.push(v);
    assert(values_view(out@) =~= values_view(old(out)@).push(json_view(v)));
}

/// A parameter descriptor for `value`.
fn param_json(value: String, label: Option<&str>, kind: &str) -> (r: serde_json::Value)
    ensures
        json_view(r) == param(value@, opt_view(label), kind@),
{
    let mut m = json_map_new();
    json_map_insert(&mut m, string_of("value"), json_string(value));
    match label {
        Some(l) => json_map_insert(&mut m, string_of("l"), json_text(l)),
        None => {},
    }
    json_map_insert(&mut m, string_of("t"), json_text(kind));
    json_object(m)
}

/// An element with opcode `id` and display template `text`.
fn element_json(id: &str, text: Vec<serde_json::Value>) -> (r: serde_json::Value)
    ensures
        json_view(r) == element(id@, values_view(text@)),
{
    let mut m = json_map_new();
    json_map_insert(&mut m, string_of("id"), json_text(id));
    json_map_insert(&mut m, string_of("t"), json_text("0"));
    json_map_insert(&mut m, string_of("text"), json_array(text));
    json_object(m)
}

fn unary_json(id: &str, caption: &str, x: &String, kind: &str) -> (r: serde_json::Value)
    ensures
        json_view(r) == unary(id@, caption@, x@, kind@),
{
    let mut text: Vec<serde_json::Value> = Vec::new();
    push_json(&mut text, json_text(caption));
    push_json(&mut text, param_json(x.clone(), None, kind));
    assert(values_view(text@) =~= seq![jstr(caption@), param(x@, None, kind@)]);
    element_json(id, text)
}

fn binary_json(id: &str, caption: &str, var: &String, word: &str, x: &String, label: Option<&str>, kind: &str) -> (r: serde_json::Value)
    ensures
        json_view(r) == binary(id@, caption@, var@, word@, x@, opt_view(label), kind@),
{
    let mut text: Vec<serde_json::Value> = Vec::new();
    push_json(&mut text, json_text(caption));
    push_json(&mut text, param_json(var.clone(), Some("variable"), "string"));
    push_json(&mut text, json_text(word));
    push_json(&mut text, param_json(x.clone(), label, kind));
    assert(values_view(text@) =~= seq![
        jstr(caption@),
        param(var@, Some("variable"@), "string"@),
        jstr(word@),
        param(x@, opt_view(label), kind@),
    ]);
    element_json(id, text)
}

/// Appends the elements of `a` to `out`; fails on an action with no mapping.
fn jsonify_action(a: &Actions, out: &mut Vec<serde_json::Value>) -> (r: Result<(), CompileError>)
    ensures
        match action_json(action_view(*a)) {
            Some(js) => r is Ok && values_view(final(out)@) == values_view(old(out)@) + js,
            None => r == Err::<(), CompileError>(CompileError::UnsupportedAction),
        },
    decreases a, 0nat,
{
    let ghost start = values_view(out@);
    match a {
        Actions::Log(x) => { push_json(out, unary_json("0", "Log", x, "any")); },
        Actions::Warn(x) => { push_json(out, unary_json("1", "Warn", x, "any")); },
        Actions::Error(x) => { push_json(out, unary_json("2", "Error", x, "any")); },
        Actions::Wait(x) => { push_json(out, unary_json("3", "Wait", x, "number")); },
        Actions::SetVariable(v, x) => { push_json(out, binary_json("11", "Set", v, "to", x, Some("any"), "string")); },
        Actions::Add(v, x) => { push_json(out, binary_json("12", "Increase", v, "by", x, None, "number")); },
        Actions::Subtract(v, x) => { push_json(out, binary_json("13", "Decrease", v, "by", x, None, "number")); },
        Actions::RepeatForever(body) => {
            let mut text: Vec<serde_json::Value> = Vec::new();
            push_json(&mut text, json_text("Repeat forever"));
            assert(values_view(text@) =~= seq![jstr("Repeat forever"@)]);
            push_json(out, element_json("23", text));
            match jsonify_actions(body, out) {
                Err(e) => { return Err(e); },
                Ok(()) => {},
            }
            let ghost inner = actions_json(actions_view(body@))->0;
            push_json(out, end_json());
            assert(values_view(out@) =~= start + (seq![element("23"@, seq![jstr("Repeat forever"@)])] + inner + seq![end_element()]));
        },
        Actions::RepeatTimes(n, body) => {
            let mut text: Vec<serde_json::Value> = Vec::new();
            push_json(&mut text, json_text("Repeat"));
            push_json(&mut text, param_json(n.clone(), None, "number"));
            push_json(&mut text, json_text("times"));
            assert(values_view(text@) =~= seq![jstr("Repeat"@), param(n@, None, "number"@), jstr("times"@)]);
            push_json(out, element_json("22", text));
            match jsonify_actions(body, out) {
                Err(e) => { return Err(e); },
                Ok(()) => {},
            }
            let ghost inner = actions_json(actions_view(body@))->0;
            push_json(out, end_json());
            assert(values_view(out@) =~= start + (seq![element("22"@, seq![jstr("Repeat"@), param(n@, None, "number"@), jstr("times"@)])] + inner + seq![end_element()]));
        },
        Actions::Break => {
            let mut m = json_map_new();
            json_map_insert(&mut m, string_of("id"), json_text("24"));
            let mut text: Vec<serde_json::Value> = Vec::new();
            push_json(&mut text, json_text("Break"));
            assert(values_view(text@) =~= seq![jstr("Break"@)]);
            json_map_insert(&mut m, string_of("text"), json_array(text));
            push_json(out, json_object(m));
        },
        _ => { return Err(CompileError::UnsupportedAction); },
    }
    Ok(())
}

fn end_json() -> (r: serde_json::Value)
    ensures
        json_view(r) == end_element(),
{
    let mut text: Vec<serde_json::Value> = Vec::new();
    push_json(&mut text, json_text("end"));
    assert(values_view(text@) =~= seq![jstr("end"@)]);
    element_json("25", text)
}

/// Appends the elements of each action of `body`, in order.
fn jsonify_actions(body: &Vec<Actions>, out: &mut Vec<serde_json::Value>) -> (r: Result<(), CompileError>)
    ensures
        match actions_json(actions_view(body@)) {
            Some(js) => r is Ok && values_view(final(out)@) == values_view(old(out)@) + js,
            None => r == Err::<(), CompileError>(CompileError::UnsupportedAction),
        },
    decreases body, 1nat,
{
    let ghost start = values_view(out@);
    let mut i: usize = 0;
    assert(body@.subrange(0, 0) =~= Seq::<Actions>::empty());
    assert(start + Seq::<JsonV>::empty() =~= start);
    while i < body.len()
        invariant
            i <= body@.len(),
            actions_json(actions_view(body@.subrange(0, i as int))) is Some,
            values_view(out@) == start + actions_json(actions_view(body@.subrange(0, i as int)))->0,
        decreases body@.len() - i,
    {
        proof {
            lemma_actions_view_prefix(body@, i as int);
            lemma_actions_json_push(actions_view(body@.subrange(0, i as int)), action_view(body@[i as int]));
        }
        match jsonify_action(&body[i], out) {
            Err(e) => {
                proof { lemma_actions_json_none_extends(body@, i as int + 1); }
                return Err(e);
            },
            Ok(()) => {},
        }
        assert(values_view(out@) =~= start + actions_json(actions_view(body@.subrange(0, i + 1)))->0);
        i = i + 1;
    }
    assert(body@.subrange(0, i as int) =~= body@);
    Ok(())
}

/// Once a prefix of a body has no mapping, the whole body has none.
proof fn lemma_actions_json_none_extends(s: Seq<Actions>, k: int)
    requires
        0 <= k <= s.len(),
        actions_json(actions_view(s.subrange(0, k))) is None,
    ensures
        actions_json(actions_view(s)) is None,
    decreases s.len() - k,
{
    if k < s.len() {
        lemma_actions_view_prefix(s, k);
        lemma_actions_json_push(actions_view(s.subrange(0, k)), action_view(s[k]));
        lemma_actions_json_none_extends(s, k + 1);
    } else {
        assert(s.subrange(0, k) =~= s);
    }
}

proof fn lemma_events_json_prefix(s: Seq<EventNodeV>, i: int)
    requires
        0 <= i < s.len(),
    ensures
        events_json(s.subrange(0, i + 1)) == match events_json(s.subrange(0, i)) {
            Err(e) => Err(e),
            Ok(a) => match event_json(i as nat, s[i]) {
                Err(e) => Err(e),
                Ok(b) => Ok(a.push(b)),
            },
        },
{
    assert(s.subrange(0, i + 1).subrange(0, i) =~= s.subrange(0, i));
}

/// Once a prefix of the handlers fails, the whole program fails the same way.
proof fn lemma_events_json_err_extends(s: Seq<EventNodeV>, k: int, e: CompileError)
    requires
        0 <= k <= s.len(),
        events_json(s.subrange(0, k)) == Err::<Seq<JsonV>, CompileError>(e),
    ensures
        events_json(s) == Err::<Seq<JsonV>, CompileError>(e),
    decreases s.len() - k,
{
    if k < s.len() {
        lemma_events_json_prefix(s, k);
        lemma_events_json_err_extends(s, k + 1, e);
    } else {
        assert(s.subrange(0, k) =~= s);
    }
}

/// The script block of handler `e` at index `i`.
fn jsonify_event(i: usize, e: &EventNode) -> (r: Result<serde_json::Value, CompileError>)
    requires
        EVENT_X + i * EVENT_X_STEP <= usize::MAX,
    ensures
        match (r, event_json(i as nat, e@)) {
            (Ok(v), Ok(j)) => json_view(v) == j,
            (Err(x), Err(y)) => x == y,
            _ => false,
        },
{
    let mut text: Vec<serde_json::Value> = Vec::new();
    let id: &str;
    match &e.event {
        Events::WhenWebsiteLoaded => {
            push_json(&mut text, json_text("When website loaded..."));
            assert(values_view(text@) =~= seq![jstr("When website loaded..."@)]);
            id = "0";
        },
        Events::WhenButtonPressed(b) => {
            push_json(&mut text, json_text("When"));
            push_json(&mut text, param_json(b.clone(), Some("button"), "object"));
            push_json(&mut text, json_text("pressed..."));
            assert(values_view(text@) =~= seq![jstr("When"@), param(b@, Some("button"@), "object"@), jstr("pressed..."@)]);
            id = "1";
        },
        _ => { return Err(CompileError::UnsupportedEvent); },
    }
    let mut acts: Vec<serde_json::Value> = Vec::new();
    match jsonify_actions(&e.actions, &mut acts) {
        Err(_) => { return Err(CompileError::UnsupportedAction); },
        Ok(()) => {},
    }
    assert(values_view(acts@) =~= Seq::<JsonV>::empty() + actions_json(e@.actions)->0);
    let x = EVENT_X + i * EVENT_X_STEP;
    let mut m = json_map_new();
    json_map_insert(&mut m, string_of("id"), json_text(id));
    json_map_insert(&mut m, string_of("x"), json_string(decimal_string(x)));
    json_map_insert(&mut m, string_of("y"), json_text("4780"));
    json_map_insert(&mut m, string_of("width"), json_text("400"));
    json_map_insert(&mut m, string_of("text"), json_array(text));
    json_map_insert(&mut m, string_of("actions"), json_array(acts));
    Ok(json_object(m))
}

/// Generates the editor's script value for a program: one script whose
/// content holds a block per handler, in order.
pub fn jsonify(app: CompileTimeAppIR) -> (r: Result<serde_json::Value, CompileError>)
    requires
        EVENT_X + app@.events.len() * EVENT_X_STEP <= usize::MAX,
    ensures
        match (r, program_json(app@)) {
            (Ok(v), Ok(j)) => json_view(v) == j,
            (Err(x), Err(y)) => x == y,
            _ => false,
        },
{
    let ghost evs = app@.events;
    let mut content: Vec<serde_json::Value> = Vec::new();
    let mut i: usize = 0;
    assert(evs.subrange(0, 0) =~= Seq::<EventNodeV>::empty());
    assert(values_view(content@) =~= Seq::<JsonV>::empty());
    while i < app.events.len()
        invariant
            i <= evs.len(),
            evs == app@.events,
            evs.len() == app.events@.len(),
            EVENT_X + evs.len() * EVENT_X_STEP <= usize::MAX,
            events_json(evs.subrange(0, i as int)) == Ok::<Seq<JsonV>, CompileError>(values_view(content@)),
        decreases evs.len() - i,
    {
        assert(EVENT_X + i * EVENT_X_STEP <= EVENT_X + evs.len() * EVENT_X_STEP) by (nonlinear_arith)
            requires i < evs.len();
        proof { lemma_events_json_prefix(evs, i as int); }
        assert(evs[i as int] == app.events@[i as int]@);
        match jsonify_event(i, &app.events[i]) {
            Err(e) => {
                proof { lemma_events_json_err_extends(evs, i + 1, e); }
                return Err(e);
            },
            Ok(v) => {
                push_json(&mut content, v);
            },
        }
        i = i + 1;
    }
    assert(evs.subrange(0, i as int) =~= evs);
    let mut top = json_map_new();
    json_map_insert(&mut top, string_of("class"), json_text("script"));
    json_map_insert(&mut top, string_of("content"), json_array(content));
    let mut outer: Vec<serde_json::Value> = Vec::new();
    let script = json_object(top);
    push_json(&mut outer, script);
    assert(values_view(outer@) =~= seq![json_view(script)]);
    Ok(json_array(outer))
}

} // verus!
