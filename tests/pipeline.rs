use catasm::codegen::jsonify;
use catasm::ir::{Actions, CompileError, CompileTimeAppIR, EventNode, Events};
use catasm::lexer::{tokenize, Token};
use catasm::parser::parse_code;

fn parse(src: &str) -> Result<CompileTimeAppIR, CompileError> {
    parse_code(tokenize(src.to_string()))
}

fn compile(src: &str) -> Result<String, CompileError> {
    let app = parse(src)?;
    let v = jsonify(app)?;
    Ok(serde_json::to_string(&v).unwrap())
}

fn word(s: &str) -> Token {
    Token::Word(s.to_string())
}

fn only_action(app: &CompileTimeAppIR) -> &Actions {
    assert_eq!(app.events.len(), 1);
    assert_eq!(app.events[0].actions.len(), 1);
    &app.events[0].actions[0]
}

#[test]
fn tokenize_punctuation_and_words() {
    let t = tokenize("event Foo_1-x(): { } ;,".to_string());
    let expected = vec![
        word("event"),
        word("Foo_1-x"),
        Token::LeftParen,
        Token::RightParen,
        Token::Colon,
        Token::LeftBrace,
        Token::RightBrace,
        Token::Semicolon,
        Token::Comma,
    ];
    assert!(t == expected);
}

#[test]
fn tokenize_numbers_are_canonical() {
    let t = tokenize("1.50 007 3. 0.0 12 0.25".to_string());
    let expected: Vec<Token> = ["1.5", "7", "3", "0", "12", "0.25"]
        .iter()
        .map(|s| Token::Number(s.to_string()))
        .collect();
    assert!(t == expected);
}

#[test]
fn tokenize_number_takes_one_dot() {
    let t = tokenize("1.2.3".to_string());
    assert!(t == vec![Token::Number("1.2".to_string()), Token::Number("3".to_string())]);
}

#[test]
fn tokenize_strings_and_escapes() {
    let t = tokenize(r#""a\"b" 'it''s' "x\\y" "open"#.to_string());
    let expected = vec![
        Token::StringLiteral("a\"b".to_string()),
        Token::StringLiteral("it".to_string()),
        Token::StringLiteral("s".to_string()),
        Token::StringLiteral("x\\y".to_string()),
        Token::StringLiteral("open".to_string()),
    ];
    assert!(t == expected);
}

#[test]
fn tokenize_skips_unknown_characters() {
    let t = tokenize("a # b\t\n@ c".to_string());
    assert!(t == vec![word("a"), word("b"), word("c")]);
}

#[test]
fn tokenize_empty_source() {
    assert!(tokenize(String::new()).is_empty());
}

#[test]
fn scenario_single_log() {
    let out = compile("event WhenWebsiteLoaded(): log(\"hello\");").unwrap();
    assert_eq!(
        out,
        r#"[{"class":"script","content":[{"actions":[{"id":"0","t":"0","text":["Log",{"t":"any","value":"hello"}]}],"id":"0","text":["When website loaded..."],"width":"400","x":"4780","y":"4780"}]}]"#
    );
}

#[test]
fn scenario_repeat_block() {
    let src = "event WhenWebsiteLoaded(): repeat 3 { wait(1); log(\"x\"); break; }";
    let app = parse(src).unwrap();
    match only_action(&app) {
        Actions::RepeatTimes(n, body) => {
            assert_eq!(n, "3");
            assert_eq!(body.len(), 3);
            assert!(matches!(&body[0], Actions::Wait(d) if d == "1"));
            assert!(matches!(&body[1], Actions::Log(m) if m == "x"));
            assert!(matches!(&body[2], Actions::Break));
        }
        _ => panic!("expected a repeat block"),
    }
    let out = compile(src).unwrap();
    assert_eq!(
        out,
        [
            r#"[{"class":"script","content":[{"actions":["#,
            r#"{"id":"22","t":"0","text":["Repeat",{"t":"number","value":"3"},"times"]},"#,
            r#"{"id":"3","t":"0","text":["Wait",{"t":"number","value":"1"}]},"#,
            r#"{"id":"0","t":"0","text":["Log",{"t":"any","value":"x"}]},"#,
            r#"{"id":"24","text":["Break"]},"#,
            r#"{"id":"25","t":"0","text":["end"]}"#,
            r#"],"id":"0","text":["When website loaded..."],"width":"400","x":"4780","y":"4780"}]}]"#,
        ]
        .concat()
    );
}

#[test]
fn scenario_two_events() {
    let src = "event WhenWebsiteLoaded(): log(\"a\"); event WhenWebsiteLoaded(): warn(\"b\");";
    let v = jsonify(parse(src).unwrap()).unwrap();
    let content = &v[0]["content"];
    assert_eq!(content.as_array().unwrap().len(), 2);
    assert_eq!(content[0]["x"], "4780");
    assert_eq!(content[1]["x"], "5190");
    assert_eq!(content[0]["y"], content[1]["y"]);
    assert_eq!(content[0]["id"], "0");
    assert_eq!(content[1]["id"], "0");
    assert_eq!(content[0]["actions"][0]["id"], "0");
    assert_eq!(content[1]["actions"][0]["id"], "1");
    assert_eq!(content[1]["actions"][0]["text"][1]["value"], "b");
}

#[test]
fn scenario_unknown_builtin_fails() {
    let r = parse("event WhenWebsiteLoaded(): unknownthing();");
    assert!(matches!(r, Err(CompileError::UnknownBuiltin)));
    assert_eq!(compile("event WhenWebsiteLoaded(): unknownthing();"), Err(CompileError::UnknownBuiltin));
}

#[test]
fn leaf_operands_keep_their_forms() {
    let app = parse("event WhenWebsiteLoaded(): set(counter, 5);").unwrap();
    assert!(matches!(only_action(&app), Actions::SetVariable(a, b) if a == "{counter}" && b == "5"));
    let app = parse("event WhenWebsiteLoaded(): add(x, \"y\");").unwrap();
    assert!(matches!(only_action(&app), Actions::Add(a, b) if a == "{x}" && b == "y"));
    let app = parse("event WhenWebsiteLoaded(): sub(x, 2.50);").unwrap();
    assert!(matches!(only_action(&app), Actions::Subtract(a, b) if a == "{x}" && b == "2.5"));
    let app = parse("event WhenWebsiteLoaded(): warn(msg);").unwrap();
    assert!(matches!(only_action(&app), Actions::Warn(a) if a == "{msg}"));
    let app = parse("event WhenWebsiteLoaded(): err('bad');").unwrap();
    assert!(matches!(only_action(&app), Actions::Error(a) if a == "bad"));
}

#[test]
fn object_arguments_are_braced() {
    let app = parse("event WhenButtonPressed(object \"btn\"): log(object name);").unwrap();
    assert!(matches!(&app.events[0].event, Events::WhenButtonPressed(b) if b == "{btn}"));
    assert!(matches!(only_action(&app), Actions::Log(a) if a == "{name}"));
}

#[test]
fn button_event_template() {
    let out = compile("event WhenButtonPressed(b1): break;").unwrap();
    assert_eq!(
        out,
        r#"[{"class":"script","content":[{"actions":[{"id":"24","text":["Break"]}],"id":"1","text":["When",{"l":"button","t":"object","value":"{b1}"},"pressed..."],"width":"400","x":"4780","y":"4780"}]}]"#
    );
}

#[test]
fn set_add_sub_templates() {
    let v = jsonify(parse("event WhenWebsiteLoaded(): { set(v, 1); add(v, 2); sub(v, 3); }").unwrap()).unwrap();
    let acts = &v[0]["content"][0]["actions"];
    assert_eq!(
        serde_json::to_string(&acts[0]).unwrap(),
        r#"{"id":"11","t":"0","text":["Set",{"l":"variable","t":"string","value":"{v}"},"to",{"l":"any","t":"string","value":"1"}]}"#
    );
    assert_eq!(
        serde_json::to_string(&acts[1]).unwrap(),
        r#"{"id":"12","t":"0","text":["Increase",{"l":"variable","t":"string","value":"{v}"},"by",{"t":"number","value":"2"}]}"#
    );
    assert_eq!(
        serde_json::to_string(&acts[2]).unwrap(),
        r#"{"id":"13","t":"0","text":["Decrease",{"l":"variable","t":"string","value":"{v}"},"by",{"t":"number","value":"3"}]}"#
    );
}

#[test]
fn nested_block_length_is_two_plus_body() {
    let src = "event WhenWebsiteLoaded(): loop { repeat n { log(1); } warn(2); }";
    let v = jsonify(parse(src).unwrap()).unwrap();
    let acts = v[0]["content"][0]["actions"].as_array().unwrap();
    // inner repeat: 2 + 1, warn: 1, outer loop: 2 + 4
    assert_eq!(acts.len(), 6);
    assert_eq!(acts[0]["id"], "23");
    assert_eq!(acts[0]["text"][0], "Repeat forever");
    assert_eq!(acts[1]["id"], "22");
    assert_eq!(acts[1]["text"][1]["value"], "{n}");
    assert_eq!(acts[2]["id"], "0");
    assert_eq!(acts[3]["id"], "25");
    assert_eq!(acts[4]["id"], "1");
    assert_eq!(acts[5]["id"], "25");
}

#[test]
fn generation_is_repeatable() {
    let src = "event WhenWebsiteLoaded(): repeat 2 { set(a, b); } event WhenButtonPressed(\"k\"): wait(0.5);";
    let first = compile(src).unwrap();
    let second = compile(src).unwrap();
    assert_eq!(first, second);
}

#[test]
fn empty_braced_body() {
    let app = parse("event WhenWebsiteLoaded(): { }").unwrap();
    assert!(app.events[0].actions.is_empty());
    let app = parse("event WhenWebsiteLoaded(): repeat 4 { }").unwrap();
    assert!(matches!(only_action(&app), Actions::RepeatTimes(n, b) if n == "4" && b.is_empty()));
    let v = jsonify(app).unwrap();
    let acts = v[0]["content"][0]["actions"].as_array().unwrap();
    assert_eq!(acts.len(), 2);
    assert_eq!(acts[0]["id"], "22");
    assert_eq!(acts[1]["id"], "25");
}

#[test]
fn empty_program() {
    assert_eq!(compile("").unwrap(), r#"[{"class":"script","content":[]}]"#);
}

#[test]
fn error_expected_arguments() {
    assert!(matches!(parse("event WhenWebsiteLoaded: log(1);"), Err(CompileError::ExpectedArguments)));
}

#[test]
fn error_invalid_argument() {
    assert!(matches!(parse("event WhenWebsiteLoaded(): log(;);"), Err(CompileError::InvalidArgument)));
}

#[test]
fn error_expected_object_name() {
    assert!(matches!(parse("event WhenWebsiteLoaded(): log(object 3);"), Err(CompileError::ExpectedObjectName)));
}

#[test]
fn error_unexpected_token_in_arguments() {
    assert!(matches!(parse("event WhenWebsiteLoaded(): log(a b);"), Err(CompileError::UnexpectedTokenInArguments)));
    assert!(matches!(parse("event WhenWebsiteLoaded(): set(a,,b);"), Err(CompileError::InvalidArgument)));
    assert!(matches!(parse("event WhenWebsiteLoaded(): log(a,);"), Err(CompileError::InvalidArgument)));
}

#[test]
fn error_unclosed_arguments() {
    assert!(matches!(parse("event WhenWebsiteLoaded(): log(a"), Err(CompileError::UnclosedArguments)));
    assert!(matches!(parse("event WhenWebsiteLoaded("), Err(CompileError::UnclosedArguments)));
}

#[test]
fn error_wrong_arity() {
    assert!(matches!(parse("event WhenWebsiteLoaded(): log(a, b);"), Err(CompileError::WrongArity)));
    assert!(matches!(parse("event WhenWebsiteLoaded(): set(a);"), Err(CompileError::WrongArity)));
    assert!(matches!(parse("event WhenWebsiteLoaded(): log(a)"), Err(CompileError::WrongArity)));
}

#[test]
fn error_missing_semicolon_after_break() {
    assert!(matches!(parse("event WhenWebsiteLoaded(): break"), Err(CompileError::MissingSemicolon)));
}

#[test]
fn error_unclosed_block() {
    assert!(matches!(parse("event WhenWebsiteLoaded(): { log(1);"), Err(CompileError::UnclosedBlock)));
}

#[test]
fn error_expected_event_name() {
    assert!(matches!(parse("event (): log(1);"), Err(CompileError::ExpectedEventName)));
}

#[test]
fn error_unknown_event() {
    assert!(matches!(parse("event WhenWebsiteLoaded(x): log(1);"), Err(CompileError::UnknownEvent)));
    assert!(matches!(parse("event WhenKeyPressed(\"k\"): log(1);"), Err(CompileError::UnknownEvent)));
}

#[test]
fn error_missing_colon() {
    assert!(matches!(parse("event WhenWebsiteLoaded() log(1);"), Err(CompileError::MissingColon)));
}

#[test]
fn error_unknown_top_level() {
    assert!(matches!(parse("log(1);"), Err(CompileError::UnknownTopLevel)));
}

#[test]
fn error_unsupported_action() {
    let app = CompileTimeAppIR {
        events: vec![EventNode {
            event: Events::WhenWebsiteLoaded,
            actions: vec![Actions::RepeatForever(vec![Actions::Round("x".to_string())])],
            local_variables: vec![],
        }],
        globals: vec![],
    };
    assert!(matches!(jsonify(app), Err(CompileError::UnsupportedAction)));
}

#[test]
fn error_unsupported_event() {
    let app = CompileTimeAppIR {
        events: vec![EventNode {
            event: Events::WhenMessageReceived,
            actions: vec![Actions::Round("x".to_string())],
            local_variables: vec![],
        }],
        globals: vec![],
    };
    assert!(matches!(jsonify(app), Err(CompileError::UnsupportedEvent)));
}

#[test]
fn tokenize_words_continue_with_unicode_alphanumerics() {
    let t = tokenize("caf\u{e9}2 x".to_string());
    assert!(t == vec![word("caf\u{e9}2"), word("x")]);
}

#[test]
fn token_equality_is_structural() {
    assert!(Token::Word("a".to_string()) == Token::Word("a".to_string()));
    assert!(Token::Word("a".to_string()) != Token::StringLiteral("a".to_string()));
    assert!(Token::Number("1".to_string()) != Token::Number("2".to_string()));
    assert!(Token::Comma == Token::Comma);
    assert!(Token::Comma != Token::Colon);
}
