//! Building the code-action directive: a list of command and code-action
//! response items becomes one escaped, double-encoded command string for
//! the host editor.
//!
//! Values that the protocol leaves opaque — command arguments and workspace
//! edits — are carried as their JSON text; the builder encodes that text
//! once more as a JSON string literal before quoting it, so that the
//! config-style transport on the way back cannot misread it.

use vstd::prelude::*;
use crate::escape::quoted;
use crate::json_text::{json_string_encode, json_quote};
use crate::strutil::{sep_joined, lemma_sep_joined_push, lemma_filter_map_take_step};

verus! {

/// A command offered by the server: a named command with its arguments'
/// JSON text.
pub struct CommandItem {
    pub title: String,
    pub command: String,
    pub arguments_json: String,
}

/// A code action offered by the server: either delegated to a command, or
/// carrying its workspace edit's JSON text. One with neither is not
/// actionable and is skipped (and counted) by the builder.
pub struct CodeActionItem {
    pub title: String,
    pub command: Option<CommandItem>,
    pub edit_json: Option<String>,
}

/// One item of a code-action response.
pub enum ResponseItem {
    Command(CommandItem),
    CodeAction(CodeActionItem),
}

/// What the builder produced: the directive text, and how many items were
/// skipped for offering neither a command nor an edit.
pub struct ActionsCommand {
    pub directive: String,
    pub skipped: usize,
}

/// A code action that delegates to a command is rewritten as that command:
/// execution semantics take precedence over edit application.
pub open spec fn normalize(item: ResponseItem) -> ResponseItem {
    match item {
        ResponseItem::CodeAction(a) => match a.command {
            Some(cmd) => ResponseItem::Command(cmd),
            None => ResponseItem::CodeAction(a),
        },
        ResponseItem::Command(_) => item,
    }
}

/// The fragment for a command: the quoted title, then a quoted
/// `lsp-execute-command` sub-directive holding the quoted command name and
/// the quoted, double-encoded arguments.
pub open spec fn command_fragment(c: CommandItem) -> Seq<char> {
    quoted(c.title@) + seq![' '] + quoted(
        "lsp-execute-command "@ + quoted(c.command@) + seq![' ']
            + quoted(json_string_encode(c.arguments_json@)),
    )
}

/// The fragment for an edit-only code action: the quoted title, then a
/// quoted `lsp-apply-workspace-edit` sub-directive holding the quoted,
/// double-encoded edit.
pub open spec fn edit_fragment(title: Seq<char>, edit_json: Seq<char>) -> Seq<char> {
    quoted(title) + seq![' '] + quoted(
        "lsp-apply-workspace-edit "@ + quoted(json_string_encode(edit_json)),
    )
}

/// The fragment an item renders to, after normalization; `None` for a code
/// action with neither command nor edit.
pub open spec fn item_fragment(item: ResponseItem) -> Option<Seq<char>> {
    match normalize(item) {
        ResponseItem::Command(c) => Some(command_fragment(c)),
        ResponseItem::CodeAction(a) => match a.edit_json {
            Some(e) => Some(edit_fragment(a.title@, e@)),
            None => None,
        },
    }
}

/// The per-item rendering map, as a single value.
pub open spec fn frag_f() -> spec_fn(ResponseItem) -> Option<Seq<char>> {
    |item: ResponseItem| item_fragment(item)
}

/// The fragments of the actionable items, in the items' order.
pub open spec fn fragments(items: Seq<ResponseItem>) -> Seq<Seq<char>> {
    items.filter_map(frag_f())
}

/// The fragments joined with a single space between neighbours: no leading,
/// no trailing separator.
pub open spec fn space_joined(parts: Seq<Seq<char>>) -> Seq<char> {
    sep_joined(parts, seq![' '])
}

/// The directive for a response, selected by `perform_immediately` and by
/// whether the response held any item at all: an error for an immediate
/// request with nothing to perform, a hide for an empty menu, otherwise
/// the joined fragments under the perform or show directive.
pub open spec fn actions_directive(items: Seq<ResponseItem>, perform_immediately: bool) -> Seq<
    char,
> {
    let joined = space_joined(fragments(items));
    if perform_immediately {
        if items.len() == 0 {
            "lsp-show-error 'no actions available'"@
        } else {
            "lsp-perform-code-action "@ + joined + "\n"@
        }
    } else {
        if items.len() == 0 {
            "lsp-hide-code-actions\n"@
        } else {
            "lsp-show-code-actions "@ + joined + "\n"@
        }
    }
}

/// Renders the fragment of a command item.
fn render_command(c: &CommandItem) -> (r: String)
    ensures
        r@ == command_fragment(*c),
{
    let title = crate::escape::editor_quote(c.title.as_str());
    let cmd = crate::escape::editor_quote(c.command.as_str());
    let args = json_quote(c.arguments_json.as_str());
    let args_q = crate::escape::editor_quote(args.as_str());
    let mut sub = String::from_str("lsp-execute-command ");
    sub.append(cmd.as_str());
    sub.append(" ");
    sub.append(args_q.as_str());
    let sub_q = crate::escape::editor_quote(sub.as_str());
    let mut out = title;
    out.append(" ");
    out.append(sub_q.as_str());
    proof {
        reveal_strlit(" ");
        assert(sub@ =~= "lsp-execute-command "@ + quoted(c.command@) + seq![' ']
            + quoted(json_string_encode(c.arguments_json@)));
        assert(out@ =~= command_fragment(*c));
    }
    out
}

/// Renders the fragment of an edit-only code action.
fn render_edit(title: &str, edit_json: &str) -> (r: String)
    ensures
        r@ == edit_fragment(title@, edit_json@),
{
    let title_q = crate::escape::editor_quote(title);
    let edit = json_quote(edit_json);
    let edit_q = crate::escape::editor_quote(edit.as_str());
    let mut sub = String::from_str("lsp-apply-workspace-edit ");
    sub.append(edit_q.as_str());
    let sub_q = crate::escape::editor_quote(sub.as_str());
    let mut out = title_q;
    out.append(" ");
    out.append(sub_q.as_str());
    proof {
        reveal_strlit(" ");
        assert(sub@ =~= "lsp-apply-workspace-edit "@ + quoted(json_string_encode(edit_json@)));
        assert(out@ =~= edit_fragment(title@, edit_json@));
    }
    out
}

/// Builds the code-action directive for a response.
///
/// Every actionable item contributes one fragment, in the response's order;
/// a code action offering neither a command nor an edit is skipped and
/// counted in `skipped` rather than failing the whole render. The directive
/// is selected exactly as [`actions_directive`] states.
pub fn editor_code_actions(items: &Vec<ResponseItem>, perform_immediately: bool) -> (r:
    ActionsCommand)
    ensures
        r.directive@ == actions_directive(items@, perform_immediately),
        r.skipped as int == items@.len() - fragments(items@).len(),
{
    let mut joined = String::new();
    let mut count: usize = 0;
    let mut skipped: usize = 0;
    let mut idx: usize = 0;
    proof {
        assert(items@.take(0) =~= Seq::<ResponseItem>::empty());
    }
    while idx < items.len()
        invariant
            idx <= items@.len(),
            count as int == fragments(items@.take(idx as int)).len(),
            skipped as int == idx - count,
            joined@ == space_joined(fragments(items@.take(idx as int))),
        decreases items@.len() - idx,
    {
        let item = &items[idx];
        proof {
            lemma_filter_map_take_step(items@, frag_f(), idx as int);
        }
        let frag: Option<String> = match item {
            ResponseItem::Command(c) => Some(render_command(c)),
            ResponseItem::CodeAction(a) => match &a.command {
                Some(c) => Some(render_command(c)),
                None => match &a.edit_json {
                    Some(e) => Some(render_edit(a.title.as_str(), e.as_str())),
                    None => None,
                },
            },
        };
        match frag {
            Some(f) => {
                proof {
                    assert(item_fragment(items@[idx as int]) == Some(f@));
                    lemma_sep_joined_push(fragments(items@.take(idx as int)), seq![' '], f@);
                }
                if count > 0 {
                    joined.append(" ");
                    proof {
                        reveal_strlit(" ");
                    }
                }
                joined.append(f.as_str());
                count += 1;
                proof {
                    assert(joined@ =~= space_joined(fragments(items@.take(idx + 1))));
                }
            },
            None => {
                proof {
                    assert(item_fragment(items@[idx as int]) is None);
                }
                skipped += 1;
            },
        }
        idx += 1;
    }
    proof {
        assert(items@.take(items@.len() as int) =~= items@);
    }
    let mut directive = String::new();
    if perform_immediately {
        if items.len() == 0 {
            directive.append("lsp-show-error 'no actions available'");
        } else {
            directive.append("lsp-perform-code-action ");
            directive.append(joined.as_str());
            directive.append("\n");
        }
    } else {
        if items.len() == 0 {
            directive.append("lsp-hide-code-actions\n");
        } else {
            directive.append("lsp-show-code-actions ");
            directive.append(joined.as_str());
            directive.append("\n");
        }
    }
    proof {
        assert(directive@ =~= actions_directive(items@, perform_immediately));
    }
    ActionsCommand { directive, skipped }
}

} // verus!
