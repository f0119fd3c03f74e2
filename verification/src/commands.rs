//! The structural-editing commands: reading their arguments, checking the
//! selection they apply to, and shaping their replies.

use crate::position::TextPosition;
use tower_lsp::lsp_types::TextDocumentPositionParams;
use vstd::prelude::*;

verus! {

#[verifier::external_type_specification]
#[verifier::external_body]
pub struct ExJsonValue(serde_json::Value);

/// A structural-editing command.
#[derive(Clone, Copy, Debug, PartialEq, Eq)]
pub enum EditCommand {
    /// `easl.expandSelection`: grow the selection to the enclosing form.
    ExpandSelection,
    /// `easl.moveCursorToStart`: move the cursor to the start of the current form.
    MoveCursorToStart,
    /// `easl.moveCursorToEnd`: move the cursor to the end of the current form.
    MoveCursorToEnd,
}

/// Why a command was refused.
#[derive(Debug)]
pub enum CommandError {
    /// The command came without an argument.
    MissingArgument,
    /// The argument is not a pair of text-document positions; the decoder's message.
    BadArgument(String),
    /// The document named by the selection is not open; its URI.
    DocumentNotOpen(String),
    /// The selection's start is not a position of the document.
    InvalidStartPosition,
    /// The selection's end is not a position of the document.
    InvalidEndPosition,
    /// The command's name is none of the structural-editing commands.
    UnknownCommand,
}

/// The selection a command applies to: the document's URI (taken from the
/// start) and the start and end positions.
#[derive(Debug)]
pub struct SelectionArgs {
    pub uri: String,
    pub start: TextPosition,
    pub end: TextPosition,
}

/// The message sent with a refusal. All but an unknown command are refused as
/// invalid parameters.
pub open spec fn spec_error_message(e: CommandError) -> Seq<char> {
    match e {
        CommandError::MissingArgument => "expected one argument"@,
        CommandError::BadArgument(m) => "bad argument: "@ + m@,
        CommandError::DocumentNotOpen(uri) => "document not open: "@ + uri@,
        CommandError::InvalidStartPosition => "invalid start position"@,
        CommandError::InvalidEndPosition => "invalid end position"@,
        CommandError::UnknownCommand => "Method not found"@,
    }
}

impl CommandError {
    /// Whether the refusal is one of invalid parameters (otherwise the method
    /// is not known).
    pub fn is_invalid_params(&self) -> (r: bool)
        ensures
            r == !(self is UnknownCommand),
    {
        match self {
            CommandError::UnknownCommand => false,
            _ => true,
        }
    }

    /// The message sent with the refusal.
    pub fn message(&self) -> (r: String)
        ensures
            r@ == spec_error_message(*self),
    {
        match self {
            CommandError::MissingArgument => "expected one argument".to_owned(),
            CommandError::BadArgument(m) => {
                let mut s: String = "bad argument: ".to_owned();
                s.append(m.as_str());
                s
            },
            CommandError::DocumentNotOpen(uri) => {
                let mut s: String = "document not open: ".to_owned();
                s.append(uri.as_str());
                s
            },
            CommandError::InvalidStartPosition => "invalid start position".to_owned(),
            CommandError::InvalidEndPosition => "invalid end position".to_owned(),
            CommandError::UnknownCommand => "Method not found".to_owned(),
        }
    }
}

/// What `serde_json::from_value` reads from `arg` as a pair of LSP
/// `TextDocumentPositionParams`: the first one's URI as text, then the line and
/// character of the first and of the second position; where it refuses the
/// value, the text of its error.
pub uninterp spec fn decoded_position_pair(arg: serde_json::Value) -> Result<
    (Seq<char>, u32, u32, u32, u32),
    Seq<char>,
>;

/// Calls `serde_json::from_value` to read `arg` as a pair of LSP
/// `TextDocumentPositionParams`; gives the first one's URI as text and both
/// positions, or the text of serde_json's error.
#[verifier::external_body]
fn decode_position_pair(arg: &serde_json::Value) -> (r: Result<SelectionArgs, String>)
    ensures
        match decoded_position_pair(*arg) {
            Ok(d) => r matches Ok(a) && a.uri@ == d.0 && a.start == (TextPosition {
                line: d.1,
                character: d.2,
            }) && a.end == (TextPosition { line: d.3, character: d.4 }),
            Err(msg) => r matches Err(m) && m@ == msg,
        },
{
    match serde_json::from_value::<(TextDocumentPositionParams, TextDocumentPositionParams)>(
        arg.clone(),
    ) {
        Ok((start, end)) => Ok(SelectionArgs {
            uri: start.text_document.uri.to_string(),
            start: TextPosition { line: start.position.line, character: start.position.character },
            end: TextPosition { line: end.position.line, character: end.position.character },
        }),
        Err(e) => Err(e.to_string()),
    }
}

/// The selection named by a command's arguments: the first argument must be
/// a pair of text-document positions; further arguments are ignored.
pub fn extract_selection_args(arguments: &Vec<serde_json::Value>) -> (r: Result<SelectionArgs, CommandError>)
    ensures
        arguments@.len() == 0 <==> r matches Err(CommandError::MissingArgument),
        arguments@.len() > 0 ==> match decoded_position_pair(arguments@[0]) {
            Ok(d) => r matches Ok(a) && a.uri@ == d.0 && a.start == (TextPosition {
                line: d.1,
                character: d.2,
            }) && a.end == (TextPosition { line: d.3, character: d.4 }),
            Err(msg) => r matches Err(CommandError::BadArgument(m)) && m@ == msg,
        },
{
    if arguments.len() == 0 {
        return Err(CommandError::MissingArgument);
    }
    match decode_position_pair(&arguments[0]) {
        Ok(args) => Ok(args),
        Err(m) => Err(CommandError::BadArgument(m)),
    }
}

/// The text of the document a command applies to, which must be open.
pub fn require_open(uri: &str, text: Option<String>) -> (r: Result<String, CommandError>)
    ensures
        match text {
            Some(t) => r matches Ok(u) && u@ == t@,
            None => r matches Err(CommandError::DocumentNotOpen(u)) && u@ == uri@,
        },
{
    match text {
        Some(t) => Ok(t),
        None => Err(CommandError::DocumentNotOpen(uri.to_owned())),
    }
}

/// The byte indices of a selection's start and end, where the document could
/// place both; the start is checked first.
pub fn selection_indices(start: Option<usize>, end: Option<usize>) -> (r: Result<
    (usize, usize),
    CommandError,
>)
    ensures
        match (start, end) {
            (Some(s), Some(e)) => r == Ok::<(usize, usize), CommandError>((s, e)),
            (None, _) => r matches Err(CommandError::InvalidStartPosition),
            (Some(_), None) => r matches Err(CommandError::InvalidEndPosition),
        },
{
    match start {
        None => Err(CommandError::InvalidStartPosition),
        Some(s) => match end {
            None => Err(CommandError::InvalidEndPosition),
            Some(e) => Ok((s, e)),
        },
    }
}

/// The command named `name`.
pub fn command_from_name(name: &str) -> (r: Result<EditCommand, CommandError>)
    ensures
        name@ == "easl.expandSelection"@ ==> r == Ok::<EditCommand, CommandError>(
            EditCommand::ExpandSelection,
        ),
        name@ == "easl.moveCursorToStart"@ ==> r == Ok::<EditCommand, CommandError>(
            EditCommand::MoveCursorToStart,
        ),
        name@ == "easl.moveCursorToEnd"@ ==> r == Ok::<EditCommand, CommandError>(
            EditCommand::MoveCursorToEnd,
        ),
        name@ != "easl.expandSelection"@ && name@ != "easl.moveCursorToStart"@ && name@
            != "easl.moveCursorToEnd"@ ==> r matches Err(CommandError::UnknownCommand),
{
    proof {
        reveal_strlit("easl.expandSelection");
        reveal_strlit("easl.moveCursorToStart");
        reveal_strlit("easl.moveCursorToEnd");
        assert("easl.expandSelection"@.len() != "easl.moveCursorToStart"@.len());
        assert("easl.moveCursorToEnd"@.len() != "easl.moveCursorToStart"@.len());
        assert("easl.expandSelection"@[5] != "easl.moveCursorToEnd"@[5]);
    }
    let owned: String = name.to_owned();
    if owned == "easl.expandSelection".to_owned() {
        Ok(EditCommand::ExpandSelection)
    } else if owned == "easl.moveCursorToStart".to_owned() {
        Ok(EditCommand::MoveCursorToStart)
    } else if owned == "easl.moveCursorToEnd".to_owned() {
        Ok(EditCommand::MoveCursorToEnd)
    } else {
        Err(CommandError::UnknownCommand)
    }
}

/// A (line, column) place, or the origin where the document could not place
/// an index.
pub open spec fn place_or_origin(p: Option<(usize, usize)>) -> (usize, usize) {
    match p {
        Some(rc) => rc,
        None => (0, 0),
    }
}

/// The reply to an expanded selection: start line, start column, end line,
/// end column.
pub fn selection_reply(start: Option<(usize, usize)>, end: Option<(usize, usize)>) -> (r: Vec<usize>)
    ensures
        r@ == seq![
            place_or_origin(start).0,
            place_or_origin(start).1,
            place_or_origin(end).0,
            place_or_origin(end).1,
        ],
{
    let (sr, sc) = match start {
        Some(rc) => rc,
        None => (0, 0),
    };
    let (er, ec) = match end {
        Some(rc) => rc,
        None => (0, 0),
    };
    let r = vec![sr, sc, er, ec];
    assert(r@ =~= seq![sr, sc, er, ec]);
    r
}

/// The reply to a cursor move: line, column.
pub fn cursor_reply(place: Option<(usize, usize)>) -> (r: Vec<usize>)
    ensures
        r@ == seq![place_or_origin(place).0, place_or_origin(place).1],
{
    let (row, col) = match place {
        Some(rc) => rc,
        None => (0, 0),
    };
    let r = vec![row, col];
    assert(r@ =~= seq![row, col]);
    r
}

/// A command that passed its checks: which command, on which byte range.
#[derive(Clone, Copy, Debug, PartialEq, Eq)]
pub struct CommandPlan {
    pub command: EditCommand,
    pub start: usize,
    pub end: usize,
}

/// The command named `name`, where there is one.
pub open spec fn spec_command(name: Seq<char>) -> Option<EditCommand> {
    if name == "easl.expandSelection"@ {
        Some(EditCommand::ExpandSelection)
    } else if name == "easl.moveCursorToStart"@ {
        Some(EditCommand::MoveCursorToStart)
    } else if name == "easl.moveCursorToEnd"@ {
        Some(EditCommand::MoveCursorToEnd)
    } else {
        None
    }
}

/// The checks a structural-editing command passes, in order, once its
/// arguments are read: the document named by `args` must be open (`text`),
/// the selection's start and then its end must be positions of it (their byte
/// indices, where the document could place them), and `name` must name a
/// command.
pub fn plan_command(
    args: &SelectionArgs,
    text: Option<String>,
    start_index: Option<usize>,
    end_index: Option<usize>,
    name: &str,
) -> (r: Result<CommandPlan, CommandError>)
    ensures
        text is None ==> (r matches Err(CommandError::DocumentNotOpen(u)) && u@ == args.uri@),
        text is Some && start_index is None ==> r matches Err(CommandError::InvalidStartPosition),
        text is Some && start_index is Some && end_index is None ==> r matches Err(
            CommandError::InvalidEndPosition,
        ),
        text is Some && start_index is Some && end_index is Some && spec_command(name@) is None
            ==> r matches Err(CommandError::UnknownCommand),
        text is Some && start_index is Some && end_index is Some && spec_command(name@) is Some
            ==> r == Ok::<CommandPlan, CommandError>(
            CommandPlan {
                command: spec_command(name@)->0,
                start: start_index->0,
                end: end_index->0,
            },
        ),
{
    let _open = require_open(args.uri.as_str(), text)?;
    let (start, end) = selection_indices(start_index, end_index)?;
    let command = command_from_name(name)?;
    Ok(CommandPlan { command, start, end })
}

/// The reply to a command: for a selection expansion, the new selection's
/// places where the document has an enclosing form (`expanded`), and no reply
/// where it has none; for a cursor move, the place the cursor moved to.
pub fn command_reply(
    command: EditCommand,
    expanded: Option<(Option<(usize, usize)>, Option<(usize, usize)>)>,
    moved: Option<(usize, usize)>,
) -> (r: Option<Vec<usize>>)
    ensures
        command is ExpandSelection ==> match expanded {
            Some(sel) => r matches Some(v) && v@ == seq![
                place_or_origin(sel.0).0,
                place_or_origin(sel.0).1,
                place_or_origin(sel.1).0,
                place_or_origin(sel.1).1,
            ],
            None => r is None,
        },
        !(command is ExpandSelection) ==> (r matches Some(v) && v@ == seq![
            place_or_origin(moved).0,
            place_or_origin(moved).1,
        ]),
{
    match command {
        EditCommand::ExpandSelection => match expanded {
            Some((s, e)) => Some(selection_reply(s, e)),
            None => None,
        },
        _ => Some(cursor_reply(moved)),
    }
}

/// The full text carried by a change notification: with full-document
/// synchronization, the last change holds it.
pub fn latest_full_text(mut changes: Vec<String>) -> (r: Option<String>)
    ensures
        changes@.len() == 0 ==> r is None,
        changes@.len() > 0 ==> r == Some(changes@.last()),
{
    changes.pop()
}

} // verus!
