use nuls::{
    CompletionItemKind, Diagnostic, DiagnosticSeverity, DocumentStore, ErrorKind, IdeCheck,
    IdeCheckDiagnostic, IdeCheckHint, IdeCheckResponse, IdeComplete, IdeDiagnosticSeverity,
    IdeGotoDef, IdeHover, IdeSpan, InlayHintKind, Position, Range, TextDocument,
};

fn pos(line: u32, character: u32) -> Position {
    Position { line, character }
}

#[test]
fn ide_check_diagnostic_to_diagnostic() {
    let input = IdeCheckDiagnostic {
        message: String::from("Missing required positional argument."),
        severity: IdeDiagnosticSeverity::Error,
        span: IdeSpan { end: 0, start: 0 },
    };
    let uri = String::from("file:///foo");
    let doc = TextDocument::new(uri.clone(), 0, "foo").expect("cannot make document");

    let got = input.to_diagnostic(&doc, &uri);

    assert_eq!(
        got,
        Diagnostic {
            message: String::from("Missing required positional argument."),
            range: Range {
                end: Position { line: 0, character: 0 },
                start: Position { line: 0, character: 0 },
            },
            severity: DiagnosticSeverity::Error,
            source: uri.clone(),
        }
    );
}

#[test]
fn severities_map_by_name() {
    assert_eq!(DiagnosticSeverity::from(IdeDiagnosticSeverity::Error), DiagnosticSeverity::Error);
    assert_eq!(DiagnosticSeverity::from(IdeDiagnosticSeverity::Warning), DiagnosticSeverity::Warning);
    assert_eq!(
        DiagnosticSeverity::from(IdeDiagnosticSeverity::Information),
        DiagnosticSeverity::Information
    );
    assert_eq!(DiagnosticSeverity::from(IdeDiagnosticSeverity::Hint), DiagnosticSeverity::Hint);
}

const CHECKED: &str = "
                let foo = ['one', 'two', 'three']
                ls ||
                ";

#[test]
fn check_response_one_diagnostic_one_hint() {
    let uri = String::from("file:///foo.nu");
    let doc = TextDocument::new(uri.clone(), 1, CHECKED).expect("document");
    let records = vec![
        Some(IdeCheck::Hint(IdeCheckHint {
            position: IdeSpan { end: 24, start: 21 },
            typename: String::from("list<string>"),
        })),
        None,
        Some(IdeCheck::Diagnostic(IdeCheckDiagnostic {
            message: String::from("The '||' operator is not supported in Nushell"),
            severity: IdeDiagnosticSeverity::Error,
            span: IdeSpan { end: 72, start: 70 },
        })),
    ];
    let got = IdeCheckResponse::from_compiler_response(&records);
    assert_eq!(
        got,
        IdeCheckResponse {
            diagnostics: vec![IdeCheckDiagnostic {
                message: String::from("The '||' operator is not supported in Nushell"),
                severity: IdeDiagnosticSeverity::Error,
                span: IdeSpan { end: 72, start: 70 }
            }],
            inlay_hints: vec![IdeCheckHint {
                position: IdeSpan { end: 24, start: 21 },
                typename: String::from("list<string>")
            }],
        }
    );
    let diagnostics = got.to_diagnostics(&doc, &uri);
    assert_eq!(diagnostics.len(), 1);
    assert_eq!(diagnostics[0].severity, DiagnosticSeverity::Error);
    assert_eq!(diagnostics[0].range, Range { start: pos(2, 19), end: pos(2, 21) });
    assert_eq!(diagnostics[0].source, uri);
    let hints = got.to_inlay_hints(&doc, true);
    assert_eq!(hints.len(), 1);
    assert_eq!(hints[0].position, pos(1, 23));
    assert_eq!(hints[0].label, ": list<string>");
    assert_eq!(hints[0].kind, InlayHintKind::Type);
    assert!(got.to_inlay_hints(&doc, false).is_empty());
}

#[test]
fn completion_items_kinds_and_numbers() {
    let complete = IdeComplete {
        completions: vec![
            String::from("where"),
            String::from("which"),
            String::from("while"),
            String::from("str join (separator)"),
        ],
    };
    let items = complete.to_completion_items();
    assert_eq!(items.len(), 4);
    for (i, label) in ["where", "which", "while"].iter().enumerate() {
        let item = items.iter().find(|c| c.label == *label).expect("label in list");
        assert_eq!(item.kind, CompletionItemKind::Field);
        assert_eq!(item.data, i as u64 + 1);
    }
    assert_eq!(items[3].kind, CompletionItemKind::Function);
    assert_eq!(items[3].data, 4);
}

#[test]
fn hover_with_and_without_span() {
    let doc = TextDocument::new(String::from("file:///h.nu"), 1, "ls\nsort-by size").expect("document");
    let h = IdeHover { hover: String::from("sorts"), span: Some(IdeSpan { start: 3, end: 10 }) };
    let got = h.to_hover(&doc);
    assert_eq!(got.contents, "sorts");
    assert_eq!(got.range, Some(Range { start: pos(1, 0), end: pos(1, 7) }));
    let h = IdeHover { hover: String::from("plain"), span: None };
    assert_eq!(h.to_hover(&doc).range, None);
}

fn store_with_source() -> (DocumentStore, String) {
    let mut store = DocumentStore::new();
    let source = String::from("file:///src/main.nu");
    store.open(source.clone(), 1, "use lib.nu\nlib greet").expect("open");
    (store, source)
}

#[test]
fn goto_definition_without_file_gives_nothing() {
    let (store, source) = store_with_source();
    for file in ["", "__prelude__"] {
        let g = IdeGotoDef { end: 3, file: String::from(file), start: 1 };
        assert_eq!(g.to_location(true, &store, &source).unwrap(), None);
    }
    let g = IdeGotoDef { end: 3, file: String::from("/src/missing.nu"), start: 1 };
    assert_eq!(g.to_location(false, &store, &source).unwrap(), None);
}

#[test]
fn goto_definition_existing_file() {
    let (mut store, source) = store_with_source();
    let g = IdeGotoDef { end: 15, file: String::from("/src/lib.nu"), start: 11 };
    // the target is not open: the span is placed in the source document
    let loc = g.to_location(true, &store, &source).unwrap().expect("a location");
    assert_eq!(loc.uri, "file:///src/lib.nu");
    assert_eq!(loc.range, Range { start: pos(1, 0), end: pos(1, 4) });
    // the target is open: the span is placed in it
    store.open(String::from("file:///src/lib.nu"), 1, "export def greet\n[] {}").expect("open");
    let loc = g.to_location(true, &store, &source).unwrap().expect("a location");
    assert_eq!(loc.range, Range { start: pos(0, 11), end: pos(0, 15) });
}

#[test]
fn goto_definition_errors() {
    let (store, _) = store_with_source();
    let g = IdeGotoDef { end: 1, file: String::from("relative.nu"), start: 0 };
    assert_eq!(g.to_location(true, &store, &String::from("file:///x")).unwrap_err().kind, ErrorKind::Parse);
    let g = IdeGotoDef { end: 1, file: String::from("/abs.nu"), start: 0 };
    let e = g.to_location(true, &store, &String::from("file:///not/open.nu")).unwrap_err();
    assert_eq!(e.kind, ErrorKind::InvalidParams);
}
