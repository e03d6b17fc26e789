//! Tests for escaping, the code-action builder and the hover render.

use lsp_render::actions::{editor_code_actions, CodeActionItem, CommandItem, ResponseItem};
use lsp_render::escape::{double_section, editor_quote, escape_brace, unescape_brace};
use lsp_render::hover::{
    editor_hover, render_diagnostics, render_hover_pieces, EditorPosition, HoverContents,
    MarkedText,
};
use lsp_render::overlap::{Diagnostic, Position, Range};

fn diag(sl: u32, sc: u32, el: u32, ec: u32, severity: Option<u32>, msg: &str) -> Diagnostic {
    Diagnostic {
        range: Range {
            start: Position { line: sl, character: sc },
            end: Position { line: el, character: ec },
        },
        severity,
        message: msg.to_string(),
    }
}

// ---------------------------------------------------------------------------
// Escaping
// ---------------------------------------------------------------------------

#[test]
fn editor_quote_wraps_and_doubles() {
    assert_eq!(editor_quote("plain"), "'plain'");
    assert_eq!(editor_quote("it's"), "'it''s'");
    assert_eq!(editor_quote(""), "''");
    assert_eq!(editor_quote("''"), "''''''");
}

#[test]
fn escape_brace_without_braces_is_a_noop() {
    assert_eq!(escape_brace("plain text, no braces"), "plain text, no braces");
    assert_eq!(escape_brace(""), "");
    assert_eq!(escape_brace("back\\slash"), "back\\slash");
}

#[test]
fn escape_brace_example_round_trips() {
    let e = escape_brace("a{b}c");
    assert_eq!(e, "a\\{b\\}c");
    // every brace in the escaped text sits right after a backslash
    let chars: Vec<char> = e.chars().collect();
    for (i, c) in chars.iter().enumerate() {
        if *c == '{' || *c == '}' {
            assert!(i > 0 && chars[i - 1] == '\\');
        }
    }
    assert_eq!(unescape_brace(&e), "a{b}c");
}

#[test]
fn unescape_brace_inverts_escape_on_tricky_text() {
    for s in ["", "{", "}", "\\", "\\{", "a{b}c", "{{}}", "\\\\{", "x\\y{z}"] {
        assert_eq!(unescape_brace(&escape_brace(s)), s);
    }
}

#[test]
fn double_section_doubles_every_delimiter() {
    assert_eq!(double_section("no delimiter"), "no delimiter");
    assert_eq!(double_section("a§b§"), "a§§b§§");
}

// ---------------------------------------------------------------------------
// Code-action builder
// ---------------------------------------------------------------------------

fn command(title: &str, name: &str, args_json: &str) -> ResponseItem {
    ResponseItem::Command(CommandItem {
        title: title.to_string(),
        command: name.to_string(),
        arguments_json: args_json.to_string(),
    })
}

#[test]
fn perform_with_no_items_is_the_error_directive() {
    let r = editor_code_actions(&vec![], true);
    assert_eq!(r.directive, "lsp-show-error 'no actions available'");
    assert_eq!(r.skipped, 0);
}

#[test]
fn menu_with_no_items_is_the_hide_directive() {
    let r = editor_code_actions(&vec![], false);
    assert_eq!(r.directive, "lsp-hide-code-actions\n");
    assert_eq!(r.skipped, 0);
}

#[test]
fn show_directive_renders_both_fragment_kinds_in_order() {
    let items = vec![
        command("Do it", "cmd", "null"),
        ResponseItem::CodeAction(CodeActionItem {
            title: "Fix".to_string(),
            command: None,
            edit_json: Some("{\"changes\":{}}".to_string()),
        }),
    ];
    let r = editor_code_actions(&items, false);
    let frag1 = "'Do it' 'lsp-execute-command ''cmd'' ''\"null\"'''";
    let frag2 = "'Fix' 'lsp-apply-workspace-edit ''\"{\\\"changes\\\":{}}\"'''";
    assert_eq!(r.directive, format!("lsp-show-code-actions {} {}\n", frag1, frag2));
    assert_eq!(r.skipped, 0);
}

#[test]
fn code_action_with_delegated_command_becomes_that_command() {
    let items = vec![ResponseItem::CodeAction(CodeActionItem {
        title: "Outer".to_string(),
        command: Some(CommandItem {
            title: "Inner".to_string(),
            command: "x".to_string(),
            arguments_json: "null".to_string(),
        }),
        edit_json: Some("{}".to_string()),
    })];
    let r = editor_code_actions(&items, true);
    assert_eq!(
        r.directive,
        "lsp-perform-code-action 'Inner' 'lsp-execute-command ''x'' ''\"null\"'''\n"
    );
    assert_eq!(r.skipped, 0);
}

#[test]
fn code_action_without_command_or_edit_is_skipped_and_counted() {
    let items = vec![
        ResponseItem::CodeAction(CodeActionItem {
            title: "bad".to_string(),
            command: None,
            edit_json: None,
        }),
        command("ok", "c", "null"),
    ];
    let r = editor_code_actions(&items, false);
    assert_eq!(
        r.directive,
        "lsp-show-code-actions 'ok' 'lsp-execute-command ''c'' ''\"null\"'''\n"
    );
    assert_eq!(r.skipped, 1);
}

#[test]
fn quotes_in_titles_survive_embedding() {
    let items = vec![command("it's", "c", "null")];
    let r = editor_code_actions(&items, false);
    assert_eq!(
        r.directive,
        "lsp-show-code-actions 'it''s' 'lsp-execute-command ''c'' ''\"null\"'''\n"
    );
}

#[test]
fn double_encoding_round_trips_through_real_json() {
    let value: serde_json::Value = serde_json::from_str("[1,\"a b\"]").unwrap();
    let args_json = serde_json::to_string(&value).unwrap();
    assert_eq!(args_json, "[1,\"a b\"]");
    let items = vec![command("t", "c", &args_json)];
    let r = editor_code_actions(&items, true);
    let encoded = "\"[1,\\\"a b\\\"]\"";
    assert_eq!(
        r.directive,
        format!("lsp-perform-code-action 't' 'lsp-execute-command ''c'' ''{}'''\n", encoded)
    );
    // decoding the emitted text once yields the JSON text of the value
    let once: String = serde_json::from_str(encoded).unwrap();
    assert_eq!(once, args_json);
    // decoding that text again yields the original value, unchanged
    let again: serde_json::Value = serde_json::from_str(&once).unwrap();
    assert_eq!(again, value);
}

// ---------------------------------------------------------------------------
// Hover render
// ---------------------------------------------------------------------------

#[test]
fn empty_hover_and_no_diagnostics_emit_nothing() {
    let r = editor_hover(
        EditorPosition { line: 1, column: 1 },
        Position { line: 0, character: 0 },
        &HoverContents::Absent,
        &vec![diag(5, 0, 5, 9, Some(1), "far away")],
    );
    assert!(r.is_none());
}

#[test]
fn diagnostic_with_empty_message_renders_nothing() {
    let r = editor_hover(
        EditorPosition { line: 1, column: 1 },
        Position { line: 0, character: 0 },
        &HoverContents::Absent,
        &vec![diag(0, 0, 0, 9, Some(1), "")],
    );
    assert!(r.is_none());
}

#[test]
fn hover_directive_carries_position_contents_and_diagnostics() {
    let r = editor_hover(
        EditorPosition { line: 5, column: 3 },
        Position { line: 1, character: 2 },
        &HoverContents::Single("hi".to_string()),
        &vec![
            diag(1, 0, 1, 5, Some(1), "Oops{x}\nmore"),
            diag(9, 0, 9, 1, Some(2), "far away"),
        ],
    );
    assert_eq!(
        r.unwrap(),
        "lsp-show-hover 5.3 %§hi§ %§• {InfoDiagnosticError}Oops\\{x\\}\n  more{InfoDefault}§"
    );
}

#[test]
fn hover_with_contents_only_keeps_the_diagnostics_slot_empty() {
    let r = editor_hover(
        EditorPosition { line: 0, column: 4294967295 },
        Position { line: 0, character: 0 },
        &HoverContents::Single("hi".to_string()),
        &vec![],
    );
    assert_eq!(r.unwrap(), "lsp-show-hover 0.4294967295 %§hi§ %§§");
}

#[test]
fn section_signs_in_payloads_are_doubled() {
    let r = editor_hover(
        EditorPosition { line: 1, column: 2 },
        Position { line: 0, character: 0 },
        &HoverContents::Single("a§b".to_string()),
        &vec![diag(0, 0, 0, 9, None, "c§d")],
    );
    assert_eq!(
        r.unwrap(),
        "lsp-show-hover 1.2 %§a§§b§ %§• {InfoDefault}c§§d{InfoDefault}§"
    );
}

#[test]
fn messages_are_trimmed_and_severities_have_faces() {
    let rendered = render_diagnostics(&vec![
        diag(0, 0, 0, 1, Some(1), "  e "),
        diag(0, 0, 0, 1, Some(2), "w"),
        diag(0, 0, 0, 1, Some(3), "i"),
        diag(0, 0, 0, 1, Some(4), "h"),
        diag(0, 0, 0, 1, Some(9), "u"),
        diag(0, 0, 0, 1, None, "n"),
        diag(0, 0, 0, 1, Some(1), ""),
    ]);
    let expected = [
        "• {InfoDiagnosticError}e{InfoDefault}",
        "• {InfoDiagnosticWarning}w{InfoDefault}",
        "• {InfoDiagnosticInformation}i{InfoDefault}",
        "• {InfoDiagnosticHint}h{InfoDefault}",
        "• {InfoDefault}u{InfoDefault}",
        "• {InfoDefault}n{InfoDefault}",
    ]
    .join("\n");
    assert_eq!(rendered, expected);
}

#[test]
fn whitespace_only_message_still_renders_its_bullet() {
    // emptiness is judged on the raw message; trimming happens inside
    let rendered = render_diagnostics(&vec![diag(0, 0, 0, 1, None, "  \t ")]);
    assert_eq!(rendered, "• {InfoDefault}{InfoDefault}");
}

#[test]
fn two_pieces_are_joined_by_exactly_one_rule() {
    let joined = render_hover_pieces(&vec!["a".to_string(), "b".to_string()]);
    assert_eq!(joined, "a\n{InfoRule}---{InfoDefault}\nb");
}

#[test]
fn empty_pieces_are_filtered_before_joining() {
    let joined = render_hover_pieces(&vec![
        "".to_string(),
        "one".to_string(),
        "".to_string(),
        "two".to_string(),
        "".to_string(),
    ]);
    assert_eq!(joined, "one\n{InfoRule}---{InfoDefault}\ntwo");
}

#[test]
fn marked_text_plaintext_drops_the_language_tag() {
    assert_eq!(MarkedText::Plain("p".to_string()).plaintext(), "p");
    let tagged = MarkedText::Tagged { language: "rust".to_string(), text: "fn".to_string() };
    assert_eq!(tagged.plaintext(), "fn");
}
