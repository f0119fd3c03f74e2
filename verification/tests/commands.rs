use easl_lsp::commands::{
    command_from_name, command_reply, cursor_reply, extract_selection_args, latest_full_text,
    plan_command, require_open, selection_indices, selection_reply, CommandError, CommandPlan,
    EditCommand, SelectionArgs,
};
use easl_lsp::position::TextPosition;

fn value(s: &str) -> serde_json::Value {
    serde_json::from_str(s).unwrap()
}

#[test]
fn command_names() {
    assert_eq!(command_from_name("easl.expandSelection").unwrap(), EditCommand::ExpandSelection);
    assert_eq!(command_from_name("easl.moveCursorToStart").unwrap(), EditCommand::MoveCursorToStart);
    assert_eq!(command_from_name("easl.moveCursorToEnd").unwrap(), EditCommand::MoveCursorToEnd);
    assert!(matches!(command_from_name("easl.other"), Err(CommandError::UnknownCommand)));
}

#[test]
fn selection_arguments_are_decoded() {
    let arg = value(
        r#"[{"textDocument":{"uri":"file:///a.easl"},"position":{"line":1,"character":2}},
            {"textDocument":{"uri":"file:///b.easl"},"position":{"line":3,"character":4}}]"#,
    );
    let a = extract_selection_args(&vec![arg]).unwrap();
    assert_eq!(a.uri, "file:///a.easl");
    assert_eq!(a.start, TextPosition { line: 1, character: 2 });
    assert_eq!(a.end, TextPosition { line: 3, character: 4 });
}

#[test]
fn selection_argument_errors() {
    let e = extract_selection_args(&vec![]).unwrap_err();
    assert!(matches!(e, CommandError::MissingArgument));
    assert_eq!(e.message(), "expected one argument");
    assert!(e.is_invalid_params());
    let e = extract_selection_args(&vec![value("[1, 2]")]).unwrap_err();
    match &e {
        CommandError::BadArgument(m) => assert!(!m.is_empty()),
        other => panic!("unexpected {other:?}"),
    }
    assert!(e.message().starts_with("bad argument: "));
}

#[test]
fn error_messages() {
    assert_eq!(CommandError::DocumentNotOpen("file:///x".to_string()).message(), "document not open: file:///x");
    assert_eq!(CommandError::InvalidStartPosition.message(), "invalid start position");
    assert_eq!(CommandError::InvalidEndPosition.message(), "invalid end position");
    assert!(!CommandError::UnknownCommand.is_invalid_params());
}

#[test]
fn open_document_and_indices() {
    assert_eq!(require_open("u", Some("t".to_string())).unwrap(), "t");
    match require_open("file:///u", None) {
        Err(CommandError::DocumentNotOpen(u)) => assert_eq!(u, "file:///u"),
        _ => panic!(),
    }
    assert_eq!(selection_indices(Some(3), Some(9)).unwrap(), (3, 9));
    assert!(matches!(selection_indices(None, None), Err(CommandError::InvalidStartPosition)));
    assert!(matches!(selection_indices(Some(1), None), Err(CommandError::InvalidEndPosition)));
}

#[test]
fn replies() {
    assert_eq!(selection_reply(Some((1, 2)), Some((3, 4))), vec![1, 2, 3, 4]);
    assert_eq!(selection_reply(None, Some((3, 4))), vec![0, 0, 3, 4]);
    assert_eq!(cursor_reply(Some((5, 6))), vec![5, 6]);
    assert_eq!(cursor_reply(None), vec![0, 0]);
}

#[test]
fn latest_change_carries_the_text() {
    assert_eq!(latest_full_text(vec![]), None);
    assert_eq!(latest_full_text(vec!["a".to_string(), "b".to_string()]), Some("b".to_string()));
}

fn args() -> SelectionArgs {
    SelectionArgs {
        uri: "file:///a.easl".to_string(),
        start: TextPosition { line: 0, character: 1 },
        end: TextPosition { line: 0, character: 3 },
    }
}

#[test]
fn plan_checks_in_order() {
    let a = args();
    let open = || Some("(f x)".to_string());
    match plan_command(&a, None, None, None, "nope") {
        Err(CommandError::DocumentNotOpen(u)) => assert_eq!(u, "file:///a.easl"),
        other => panic!("{other:?}"),
    }
    assert!(matches!(plan_command(&a, open(), None, None, "nope"), Err(CommandError::InvalidStartPosition)));
    assert!(matches!(plan_command(&a, open(), Some(1), None, "nope"), Err(CommandError::InvalidEndPosition)));
    assert!(matches!(plan_command(&a, open(), Some(1), Some(3), "nope"), Err(CommandError::UnknownCommand)));
    assert_eq!(
        plan_command(&a, open(), Some(1), Some(3), "easl.moveCursorToEnd").unwrap(),
        CommandPlan { command: EditCommand::MoveCursorToEnd, start: 1, end: 3 }
    );
}

#[test]
fn command_replies() {
    assert_eq!(
        command_reply(EditCommand::ExpandSelection, Some((Some((0, 1)), None)), None),
        Some(vec![0, 1, 0, 0])
    );
    assert_eq!(command_reply(EditCommand::ExpandSelection, None, Some((1, 1))), None);
    assert_eq!(command_reply(EditCommand::MoveCursorToStart, None, Some((2, 5))), Some(vec![2, 5]));
    assert_eq!(command_reply(EditCommand::MoveCursorToEnd, None, None), Some(vec![0, 0]));
}

#[test]
fn bad_argument_carries_the_decoder_message() {
    use_decoder_message_check(value(r#"{"textDocument": 3}"#));
    use_decoder_message_check(value("[1, 2]"));
}

fn use_decoder_message_check(arg: serde_json::Value) {
    let expected = serde_json::from_value::<(
        tower_lsp::lsp_types::TextDocumentPositionParams,
        tower_lsp::lsp_types::TextDocumentPositionParams,
    )>(arg.clone())
    .unwrap_err()
    .to_string();
    let e = extract_selection_args(&vec![arg]).unwrap_err();
    match &e {
        CommandError::BadArgument(m) => assert_eq!(m, &expected),
        other => panic!("unexpected {other:?}"),
    }
    assert_eq!(e.message(), format!("bad argument: {expected}"));
}
