use std::path::PathBuf;

use luana::lua::{JsonValue, LuaField, LuaValue};
use luana::minify::{minify_trivia, MinifyVisiter, TokenRef, Trivia};
use luana::json::parse_json;
use luana::quote::quote_json_string;
use luana::text::{chars_of, decimal_string, find_first, string_of, trim_exec};
use luana::token::{token_name, TokenKind};
use luana::import::ImportFormat;
use luana::load::{LoadAction, LoadArgument, LoadCall, LoadComplaint, LoadPlan};
use luana::visitor::VistAst;

fn chars(s: &str) -> Vec<char> {
    s.chars().collect()
}

fn string_token(text: &str) -> TokenKind {
    TokenKind::StringLiteral(text.to_string())
}

fn visitor_for(file_name: &str) -> VistAst {
    let mut state = VistAst::default();
    state.set_project_dir(PathBuf::from("project"));
    state.set_file_name(file_name);
    state
}

fn number_text(value: &LuaValue) -> &str {
    match value {
        LuaValue::Number(text) => text.as_str(),
        _ => panic!("not a number"),
    }
}

#[test]
fn decimal_numerals() {
    assert_eq!(decimal_string(0), "0");
    assert_eq!(decimal_string(7), "7");
    assert_eq!(decimal_string(10), "10");
    assert_eq!(decimal_string(255), "255");
    assert_eq!(decimal_string(u64::MAX), u64::MAX.to_string());
}

#[test]
fn chars_round_trip() {
    let text = "héllo, wörld";
    assert_eq!(chars_of(text), chars(text));
    assert_eq!(string_of(&chars(text)), text);
}

#[test]
fn first_occurrence() {
    assert_eq!(find_first(&chars("a?raw?raw"), &chars("?raw")), Some(1));
    assert_eq!(find_first(&chars("abc"), &chars("?raw")), None);
    assert_eq!(find_first(&chars("abc"), &chars("")), Some(0));
}

#[test]
fn trimming() {
    assert_eq!(trim_exec(&chars("  _load\n\t")), chars("_load"));
    assert_eq!(trim_exec(&chars("\u{3000}x y\u{a0}")), chars("x y"));
    assert_eq!(trim_exec(&chars(" \n ")), chars(""));
}

#[test]
fn token_names() {
    assert_eq!(token_name(&TokenKind::Eof), "Eof");
    assert_eq!(token_name(&TokenKind::Identifier("foo".to_string())), "foo");
    assert_eq!(token_name(&TokenKind::Number("0x1F".to_string())), "0x1F");
    assert_eq!(token_name(&string_token("!import a.txt")), "!import a.txt");
    assert_eq!(token_name(&TokenKind::Symbol("nil".to_string())), "nil");
    assert_eq!(token_name(&TokenKind::Other), "Unknown");
}

#[test]
fn minify_token_trivia() {
    let mut minifier = MinifyVisiter::default();
    let node = TokenRef {
        leading: vec![
            Trivia::Whitespace("\n    ".to_string()),
            Trivia::Other(1u32),
            Trivia::Whitespace(String::new()),
        ],
        token: 7u32,
        trailing: vec![
            Trivia::Whitespace("  ".to_string()),
            Trivia::Other(2u32),
            Trivia::Whitespace("\r\n".to_string()),
        ],
    };
    let r = minifier.visit_token_reference(node);
    assert_eq!(r.token, 7);
    assert!(matches!(&r.leading[0], Trivia::Whitespace(t) if t.is_empty()));
    assert!(matches!(&r.leading[1], Trivia::Other(1)));
    assert!(matches!(&r.leading[2], Trivia::Whitespace(t) if t.is_empty()));
    assert!(matches!(&r.trailing[0], Trivia::Whitespace(t) if t == " "));
    assert!(matches!(&r.trailing[1], Trivia::Other(2)));
    assert!(matches!(&r.trailing[2], Trivia::Whitespace(t) if t == " "));
}

#[test]
fn minify_is_idempotent() {
    let filler = " ".to_string();
    let trivia = vec![
        Trivia::Whitespace("\t\t".to_string()),
        Trivia::LineComment("-- note"),
        Trivia::Whitespace("\n".to_string()),
        Trivia::Whitespace(String::new()),
    ];
    let once = minify_trivia(trivia, &filler);
    let once_texts: Vec<Option<String>> = once
        .iter()
        .map(|t| match t {
            Trivia::Whitespace(s) => Some(s.clone()),
            _ => None,
        })
        .collect();
    let twice = minify_trivia(once, &filler);
    let twice_texts: Vec<Option<String>> = twice
        .iter()
        .map(|t| match t {
            Trivia::Whitespace(s) => Some(s.clone()),
            _ => None,
        })
        .collect();
    assert_eq!(once_texts, twice_texts);
    assert_eq!(
        once_texts,
        vec![Some(" ".to_string()), None, Some("\n".to_string()), Some(String::new())]
    );
}

#[test]
fn file_info() {
    let state = visitor_for("main.lua");
    assert_eq!(state.make_file_info(3, 14), "main.lua @ 3:14");
    let unnamed = VistAst::default();
    assert_eq!(unnamed.make_file_info(0, 0), " @ 0:0");
}

#[test]
fn import_directives() {
    let mut state = visitor_for("main.lua");
    let import = state.visit_string_value(&string_token("!import data.txt")).unwrap();
    assert_eq!(import.file_name, "data.txt");
    assert!(!import.raw);

    let import = state.visit_string_value(&string_token("!import img.png?raw")).unwrap();
    assert_eq!(import.file_name, "img.png");
    assert!(import.raw);

    let import = state.visit_string_value(&string_token("!import a?rawb?raw")).unwrap();
    assert_eq!(import.file_name, "a");
    assert!(import.raw);

    let import = state.visit_string_value(&string_token("!import ")).unwrap();
    assert_eq!(import.file_name, "");
    assert!(!import.raw);

    assert!(state.visit_string_value(&string_token("hello")).is_none());
    assert!(state.visit_string_value(&string_token("!importx.txt")).is_none());
    assert!(state.visit_string_value(&string_token(" !import x.txt")).is_none());
    assert!(state.visit_string_value(&TokenKind::Other).is_none());
}

#[test]
fn import_formats() {
    let state = visitor_for("main.lua");
    let mut probe = visitor_for("main.lua");
    let raw = probe.visit_string_value(&string_token("!import x.bin?raw")).unwrap();
    let plain = probe.visit_string_value(&string_token("!import x.json")).unwrap();
    assert!(matches!(state.import_format(&raw, None), ImportFormat::Bytes));
    assert!(matches!(state.import_format(&raw, Some("json")), ImportFormat::Bytes));
    assert!(matches!(state.import_format(&plain, Some("json")), ImportFormat::Json));
    assert!(matches!(state.import_format(&plain, Some("JSON")), ImportFormat::Text));
    assert!(matches!(state.import_format(&plain, Some("txt")), ImportFormat::Text));
}

#[test]
fn raw_bytes_become_numbers() {
    let state = visitor_for("main.lua");
    let value = state.raw_import_value(&vec![0u8, 7, 42, 255]);
    let fields = match value {
        LuaValue::Table(fields) => fields,
        _ => panic!("not a table"),
    };
    let texts: Vec<&str> = fields
        .iter()
        .map(|f| match f {
            LuaField::Positional(v) => number_text(v),
            LuaField::Keyed(..) => panic!("keyed field"),
        })
        .collect();
    assert_eq!(texts, vec!["0", "7", "42", "255"]);
    assert!(matches!(state.raw_import_value(&vec![]), LuaValue::Table(f) if f.is_empty()));
}

#[test]
fn text_is_quoted() {
    let state = visitor_for("main.lua");
    assert_eq!(state.text_import_literal("a\r\nb\tc\nd"), "a\\nb\\tc\\nd");
    assert_eq!(state.text_import_literal("a\r\n\tb"), "a\\n\\tb");
    assert_eq!(state.text_import_literal("\r\n"), "\\n");
    assert_eq!(state.text_import_literal("\r\r\nx\r"), "\\r\\nx\\r");
    assert_eq!(state.text_import_literal("it's a \\ path"), "it\\'s a \\\\ path");
    assert_eq!(state.text_import_literal("bell\u{7}del\u{7f}nul\u{0}"), "bell\u{7}del\u{7f}nul\u{0}");
    assert_eq!(state.text_import_literal("say \"hi\" — ok"), "say \"hi\" — ok");
    assert_eq!(state.text_import_literal("plain text"), "plain text");
    assert_eq!(state.text_import_literal(""), "");
}

#[test]
fn json_text_is_quoted() {
    let q = quote_json_string("x\ny'z\r\u{1}\t\\");
    assert!(!q.contains('\n'));
    assert!(!q.contains('\r'));
    assert_eq!(q, "x\\ny\\'z\\r\u{1}\t\\\\");
}

#[test]
fn json_becomes_lua() {
    let mut state = visitor_for("main.lua");
    let json = JsonValue::Object(vec![
        ("a'b\tc".to_string(), JsonValue::Null),
        (
            "b".to_string(),
            JsonValue::Array(vec![
                JsonValue::Bool(true),
                JsonValue::Bool(false),
                JsonValue::Number("1.5".to_string()),
                JsonValue::Str("it's".to_string()),
            ]),
        ),
    ]);
    let lua = state.json_value_to_lua(&json);
    let fields = match lua {
        LuaValue::Table(fields) => fields,
        _ => panic!("not a table"),
    };
    assert_eq!(fields.len(), 2);
    assert!(matches!(&fields[0], LuaField::Keyed(k, LuaValue::Nil) if k == "a\\'b\tc"));
    match &fields[1] {
        LuaField::Keyed(k, LuaValue::Table(inner)) => {
            assert_eq!(k, "b");
            assert_eq!(inner.len(), 4);
            assert!(matches!(&inner[0], LuaField::Positional(LuaValue::True)));
            assert!(matches!(&inner[1], LuaField::Positional(LuaValue::False)));
            assert!(matches!(&inner[2], LuaField::Positional(LuaValue::Number(n)) if n == "1.5"));
            assert!(matches!(&inner[3], LuaField::Positional(LuaValue::Str(s)) if s == "it\\'s"));
        }
        _ => panic!("not a keyed table"),
    }
    assert!(matches!(state.json_value_to_lua(&JsonValue::Array(vec![])), LuaValue::Table(f) if f.is_empty()));
}

#[test]
fn load_plans() {
    let mut state = visitor_for("main.lua");
    assert!(matches!(
        state.plan_load("print", LoadCall::Parentheses(None)),
        LoadPlan::Keep
    ));
    assert!(matches!(state.plan_load("print", LoadCall::NoSuffix), LoadPlan::Keep));
    assert!(matches!(state.plan_load("_load", LoadCall::NotCall), LoadPlan::EmptyFunction));

    match state.plan_load(
        " _load\n",
        LoadCall::Parentheses(Some(LoadArgument::StringValue(string_token("mod.lua")))),
    ) {
        LoadPlan::Called { complaint, file_name, action } => {
            assert!(complaint.is_none());
            assert_eq!(file_name, "mod.lua");
            assert!(matches!(action, LoadAction::Load));
        }
        _ => panic!("expected a call"),
    }
    match state.plan_load("_load", LoadCall::Parentheses(Some(LoadArgument::OtherValue))) {
        LoadPlan::Called { complaint, file_name, action } => {
            assert!(matches!(complaint, Some(LoadComplaint::NotAString)));
            assert_eq!(file_name, "");
            assert!(matches!(action, LoadAction::Nothing));
        }
        _ => panic!("expected a call"),
    }
    match state.plan_load("_load", LoadCall::Parentheses(Some(LoadArgument::OtherExpression))) {
        LoadPlan::Called { complaint, .. } => {
            assert!(matches!(complaint, Some(LoadComplaint::NotAValue)));
        }
        _ => panic!("expected a call"),
    }
    match state.plan_load("_load", LoadCall::TableArgument) {
        LoadPlan::Called { complaint, action, .. } => {
            assert!(matches!(complaint, Some(LoadComplaint::InvalidArguments)));
            assert!(matches!(action, LoadAction::Nothing));
        }
        _ => panic!("expected a call"),
    }
    match state.plan_load("_load", LoadCall::Parentheses(None)) {
        LoadPlan::Called { complaint, file_name, action } => {
            assert!(complaint.is_none());
            assert_eq!(file_name, "");
            assert!(matches!(action, LoadAction::Nothing));
        }
        _ => panic!("expected a call"),
    }
}

#[test]
fn loading_back_is_circular() {
    let mut parent = visitor_for("main.lua");
    let mut child = parent.child_for_load(PathBuf::from("project/lib"), "mod.lua");
    assert_eq!(child.project_dir(), &PathBuf::from("project/lib"));
    assert_eq!(child.make_file_info(1, 2), "mod.lua @ 1:2");
    match child.plan_load(
        "_load",
        LoadCall::Parentheses(Some(LoadArgument::StringValue(string_token("main.lua")))),
    ) {
        LoadPlan::Called { action, .. } => assert!(matches!(action, LoadAction::Circular)),
        _ => panic!("expected a call"),
    }
    match child.plan_load(
        "_load",
        LoadCall::Parentheses(Some(LoadArgument::StringValue(string_token("other.lua")))),
    ) {
        LoadPlan::Called { action, .. } => assert!(matches!(action, LoadAction::Load)),
        _ => panic!("expected a call"),
    }
    // The parent itself was loaded by nothing, so it may load any file.
    match parent.plan_load(
        "_load",
        LoadCall::Parentheses(Some(LoadArgument::StringValue(string_token("main.lua")))),
    ) {
        LoadPlan::Called { action, .. } => assert!(matches!(action, LoadAction::Load)),
        _ => panic!("expected a call"),
    }
}

#[test]
fn blocks_end_with_semicolons() {
    let mut state = visitor_for("main.lua");
    let stmts = vec![("a", None), ("b", Some(',')), ("c", Some(';'))];
    let r = state.visit_block(stmts);
    let expected: Vec<(&str, Option<String>)> = vec![
        ("a", Some(";".to_string())),
        ("b", Some(";".to_string())),
        ("c", Some(";".to_string())),
    ];
    assert_eq!(r, expected);
    let empty: Vec<(u8, Option<u8>)> = vec![];
    assert!(state.visit_block(empty).is_empty());
}

#[test]
fn setters_and_previous_imports() {
    let mut state = VistAst::default();
    state.set_project_dir(PathBuf::from("a/b"));
    assert_eq!(state.project_dir(), &PathBuf::from("a/b"));
    state.set_file_name("x.lua");
    state.set_previous_imports(&vec!["one.lua".to_string()]);
    assert_eq!(state.make_file_info(10, 200), "x.lua @ 10:200");
}


#[test]
fn line_comment_keeps_its_line_break() {
    // Trailing trivia of `1` in "x = 1 -- c\ny = 2".
    let mut minifier = MinifyVisiter::default();
    let node = TokenRef {
        leading: vec![
            Trivia::Whitespace("\n".to_string()),
            Trivia::LineComment("-- own line"),
            Trivia::Whitespace("\r\n".to_string()),
            Trivia::Whitespace("   ".to_string()),
        ],
        token: "1",
        trailing: vec![
            Trivia::Whitespace(" ".to_string()),
            Trivia::LineComment("-- c"),
            Trivia::Whitespace("\n".to_string()),
        ],
    };
    let r = minifier.visit_token_reference(node);
    assert!(matches!(&r.leading[0], Trivia::Whitespace(t) if t.is_empty()));
    assert!(matches!(&r.leading[1], Trivia::LineComment("-- own line")));
    assert!(matches!(&r.leading[2], Trivia::Whitespace(t) if t == "\n"));
    assert!(matches!(&r.leading[3], Trivia::Whitespace(t) if t.is_empty()));
    assert!(matches!(&r.trailing[0], Trivia::Whitespace(t) if t == " "));
    assert!(matches!(&r.trailing[1], Trivia::LineComment("-- c")));
    assert!(matches!(&r.trailing[2], Trivia::Whitespace(t) if t == "\n"));
}

#[test]
fn block_comment_does_not_keep_line_break() {
    let filler = " ".to_string();
    let trivia = vec![
        Trivia::Other("--[[ block ]]"),
        Trivia::Whitespace("\n".to_string()),
        Trivia::LineComment("-- c"),
        Trivia::Other("--[[ x ]]"),
        Trivia::Whitespace("\n".to_string()),
    ];
    let r = minify_trivia(trivia, &filler);
    assert!(matches!(&r[1], Trivia::Whitespace(t) if t == " "));
    assert!(matches!(&r[4], Trivia::Whitespace(t) if t == " "));
}

#[test]
fn json_documents_are_parsed() {
    assert!(parse_json("{").is_none());
    assert!(parse_json("not json").is_none());
    match parse_json("{\"b\": [1, 2.5, null], \"a\": \"x\"}") {
        Some(JsonValue::Object(members)) => {
            assert_eq!(members.len(), 2);
            assert_eq!(members[0].0, "a");
            assert!(matches!(&members[0].1, JsonValue::Str(s) if s == "x"));
            assert_eq!(members[1].0, "b");
            match &members[1].1 {
                JsonValue::Array(items) => {
                    assert!(matches!(&items[0], JsonValue::Number(n) if n == "1"));
                    assert!(matches!(&items[1], JsonValue::Number(n) if n == "2.5"));
                    assert!(matches!(&items[2], JsonValue::Null));
                }
                _ => panic!("not an array"),
            }
        }
        _ => panic!("not an object"),
    }
}

#[test]
fn json_import_values() {
    let mut state = visitor_for("main.lua");
    assert!(state.json_import_value("{oops").is_none());
    match state.json_import_value("[true, \"a\\nb\"]") {
        Some(LuaValue::Table(fields)) => {
            assert_eq!(fields.len(), 2);
            assert!(matches!(&fields[0], LuaField::Positional(LuaValue::True)));
            assert!(matches!(&fields[1], LuaField::Positional(LuaValue::Str(s)) if s == "a\\nb"));
        }
        _ => panic!("not a table"),
    }
    assert!(matches!(state.json_import_value("null"), Some(LuaValue::Nil)));
}
