use vstd::prelude::*;

use crate::document::{index_of, DocumentStore, TextDocument};
use crate::error::{ErrorKind, LspError};
use crate::position::{position_of_offset, Position, Range};
use crate::text::{chars_of, push_char, string_of};

verus! {

/// A span of the compiler's input, in byte offsets.
#[derive(Clone, Copy, Debug, PartialEq, Eq, Structural)]
pub struct IdeSpan {
    pub end: u32,
    pub start: u32,
}

/// How grave a problem the compiler reports is.
#[derive(Clone, Copy, Debug, PartialEq, Eq, Structural)]
pub enum IdeDiagnosticSeverity {
    Error,
    Warning,
    Information,
    Hint,
}

/// How grave a problem shown in the editor is.
#[derive(Clone, Copy, Debug, PartialEq, Eq, Structural)]
pub enum DiagnosticSeverity {
    Error,
    Warning,
    Information,
    Hint,
}

impl From<IdeDiagnosticSeverity> for DiagnosticSeverity {
    fn from(value: IdeDiagnosticSeverity) -> (r: Self) {
        match value {
            IdeDiagnosticSeverity::Error => DiagnosticSeverity::Error,
            IdeDiagnosticSeverity::Warning => DiagnosticSeverity::Warning,
            IdeDiagnosticSeverity::Information => DiagnosticSeverity::Information,
            IdeDiagnosticSeverity::Hint => DiagnosticSeverity::Hint,
        }
    }
}

impl vstd::std_specs::convert::FromSpecImpl<IdeDiagnosticSeverity> for DiagnosticSeverity {
    open spec fn obeys_from_spec() -> bool {
        true
    }

    open spec fn from_spec(value: IdeDiagnosticSeverity) -> DiagnosticSeverity {
        severity_of(value)
    }
}

/// Each severity of the compiler is the editor's severity of the same name.
pub open spec fn severity_of(s: IdeDiagnosticSeverity) -> DiagnosticSeverity {
    match s {
        IdeDiagnosticSeverity::Error => DiagnosticSeverity::Error,
        IdeDiagnosticSeverity::Warning => DiagnosticSeverity::Warning,
        IdeDiagnosticSeverity::Information => DiagnosticSeverity::Information,
        IdeDiagnosticSeverity::Hint => DiagnosticSeverity::Hint,
    }
}

/// A problem that the compiler found.
#[derive(Debug, PartialEq, Eq)]
pub struct IdeCheckDiagnostic {
    pub message: String,
    pub severity: IdeDiagnosticSeverity,
    pub span: IdeSpan,
}

/// A type that the compiler inferred for a span.
#[derive(Debug, PartialEq, Eq)]
pub struct IdeCheckHint {
    pub position: IdeSpan,
    pub typename: String,
}

/// One record of the compiler's check output.
#[derive(Debug, PartialEq, Eq)]
pub enum IdeCheck {
    Diagnostic(IdeCheckDiagnostic),
    Hint(IdeCheckHint),
}

/// A problem as the editor shows it.
#[derive(Clone, Debug, PartialEq, Eq)]
pub struct Diagnostic {
    pub message: String,
    pub range: Range,
    pub severity: DiagnosticSeverity,
    /// The address of the document it was found in.
    pub source: String,
}

/// What an inlay hint stands for.
#[derive(Clone, Copy, Debug, PartialEq, Eq, Structural)]
pub enum InlayHintKind {
    Type,
}

/// A label that the editor shows inside the text.
#[derive(Clone, Debug, PartialEq, Eq)]
pub struct InlayHint {
    pub position: Position,
    pub label: String,
    pub kind: InlayHintKind,
}

impl Clone for IdeCheckDiagnostic {
    fn clone(&self) -> (r: Self)
        ensures
            r == *self,
    {
        IdeCheckDiagnostic {
            message: self.message.clone(),
            severity: self.severity,
            span: self.span,
        }
    }
}

impl Clone for IdeCheckHint {
    fn clone(&self) -> (r: Self)
        ensures
            r == *self,
    {
        IdeCheckHint { position: self.position, typename: self.typename.clone() }
    }
}

impl IdeCheckDiagnostic {
    /// The problem placed in `doc`, found in the document at `uri`.
    pub fn to_diagnostic(&self, doc: &TextDocument, uri: &String) -> (r: Diagnostic)
        ensures
            r.message@ == self.message@,
            r.range.start == position_of_offset(doc@.text, self.span.start as int),
            r.range.end == position_of_offset(doc@.text, self.span.end as int),
            r.severity == severity_of(self.severity),
            r.source@ == uri@,
    {
        Diagnostic {
            message: self.message.clone(),
            range: Range {
                end: doc.position_at(self.span.end),
                start: doc.position_at(self.span.start),
            },
            severity: DiagnosticSeverity::from(self.severity),
            source: uri.clone(),
        }
    }
}

/// The label of a hint for type `typename`.
pub open spec fn hint_label(typename: Seq<char>) -> Seq<char> {
    seq![':', ' '] + typename
}

impl IdeCheckHint {
    /// The inferred type shown at the end of its span in `doc`.
    pub fn to_inlay_hint(&self, doc: &TextDocument) -> (r: InlayHint)
        ensures
            r.position == position_of_offset(doc@.text, self.position.end as int),
            r.label@ == hint_label(self.typename@),
            r.kind == InlayHintKind::Type,
    {
        let mut label = String::new();
        push_char(&mut label, ':');
        push_char(&mut label, ' ');
        let t = chars_of(self.typename.as_str());
        let n = t.len();
        let mut i: usize = 0;
        while i < n
            invariant
                n == t@.len(),
                t@ == self.typename@,
                i <= n,
                label@ == seq![':', ' '] + t@.take(i as int),
            decreases n - i,
        {
            push_char(&mut label, t[i]);
            proof {
                assert(label@ =~= seq![':', ' '] + t@.take(i + 1));
            }
            i = i + 1;
        }
        proof {
            assert(t@.take(n as int) =~= t@);
        }
        InlayHint { position: doc.position_at(self.position.end), label, kind: InlayHintKind::Type }
    }
}

/// The problems among decoded check records, in order; records that did not
/// decode are left out.
pub open spec fn diagnostics_of(checks: Seq<Option<IdeCheck>>) -> Seq<IdeCheckDiagnostic>
    decreases checks.len(),
{
    if checks.len() == 0 {
        Seq::empty()
    } else {
        let rest = diagnostics_of(checks.drop_last());
        match checks.last() {
            Some(IdeCheck::Diagnostic(d)) => rest.push(d),
            _ => rest,
        }
    }
}

/// The inferred types among decoded check records, in order.
pub open spec fn hints_of(checks: Seq<Option<IdeCheck>>) -> Seq<IdeCheckHint>
    decreases checks.len(),
{
    if checks.len() == 0 {
        Seq::empty()
    } else {
        let rest = hints_of(checks.drop_last());
        match checks.last() {
            Some(IdeCheck::Hint(h)) => rest.push(h),
            _ => rest,
        }
    }
}

/// What a check found: its problems and its inferred types.
#[derive(Debug, PartialEq, Eq)]
pub struct IdeCheckResponse {
    pub diagnostics: Vec<IdeCheckDiagnostic>,
    pub inlay_hints: Vec<IdeCheckHint>,
}

impl IdeCheckResponse {
    /// Sorts the records decoded from the lines of a check's output, one
    /// entry per line, none where the line did not decode.
    pub fn from_compiler_response(checks: &Vec<Option<IdeCheck>>) -> (r: Self)
        ensures
            r.diagnostics@ == diagnostics_of(checks@),
            r.inlay_hints@ == hints_of(checks@),
    {
        let mut diagnostics: Vec<IdeCheckDiagnostic> = Vec::new();
        let mut inlay_hints: Vec<IdeCheckHint> = Vec::new();
        let n = checks.len();
        let mut i: usize = 0;
        while i < n
            invariant
                n == checks@.len(),
                i <= n,
                diagnostics@ == diagnostics_of(checks@.take(i as int)),
                inlay_hints@ == hints_of(checks@.take(i as int)),
            decreases n - i,
        {
            proof {
                assert(checks@.take(i + 1).drop_last() =~= checks@.take(i as int));
            }
            match &checks[i] {
                Some(IdeCheck::Diagnostic(d)) => diagnostics.push(d.clone()),
                Some(IdeCheck::Hint(h)) => inlay_hints.push(h.clone()),
                None => {},
            }
            i = i + 1;
        }
        proof {
            assert(checks@.take(n as int) =~= checks@);
        }
        IdeCheckResponse { diagnostics, inlay_hints }
    }

    /// The problems placed in `doc`, found in the document at `uri`.
    pub fn to_diagnostics(&self, doc: &TextDocument, uri: &String) -> (r: Vec<Diagnostic>)
        ensures
            r@.len() == self.diagnostics@.len(),
            forall|i: int|
                0 <= i < r@.len() ==> {
                    let d = #[trigger] self.diagnostics@[i];
                    &&& r@[i].message@ == d.message@
                    &&& r@[i].range.start == position_of_offset(doc@.text, d.span.start as int)
                    &&& r@[i].range.end == position_of_offset(doc@.text, d.span.end as int)
                    &&& r@[i].severity == severity_of(d.severity)
                    &&& r@[i].source@ == uri@
                },
    {
        let mut r: Vec<Diagnostic> = Vec::new();
        let n = self.diagnostics.len();
        let mut i: usize = 0;
        while i < n
            invariant
                n == self.diagnostics@.len(),
                i <= n,
                r@.len() == i,
                forall|j: int|
                    0 <= j < i ==> {
                        let d = #[trigger] self.diagnostics@[j];
                        &&& r@[j].message@ == d.message@
                        &&& r@[j].range.start == position_of_offset(
                            doc@.text,
                            d.span.start as int,
                        )
                        &&& r@[j].range.end == position_of_offset(doc@.text, d.span.end as int)
                        &&& r@[j].severity == severity_of(d.severity)
                        &&& r@[j].source@ == uri@
                    },
            decreases n - i,
        {
            r.push(self.diagnostics[i].to_diagnostic(doc, uri));
            i = i + 1;
        }
        r
    }

    /// The inferred types placed in `doc`; none where the settings hide them.
    pub fn to_inlay_hints(&self, doc: &TextDocument, show_inferred_types: bool) -> (r: Vec<
        InlayHint,
    >)
        ensures
            !show_inferred_types ==> r@.len() == 0,
            show_inferred_types ==> r@.len() == self.inlay_hints@.len(),
            show_inferred_types ==> forall|i: int|
                0 <= i < r@.len() ==> {
                    let h = #[trigger] self.inlay_hints@[i];
                    &&& r@[i].position == position_of_offset(doc@.text, h.position.end as int)
                    &&& r@[i].label@ == hint_label(h.typename@)
                    &&& r@[i].kind == InlayHintKind::Type
                },
    {
        let mut r: Vec<InlayHint> = Vec::new();
        if !show_inferred_types {
            return r;
        }
        let n = self.inlay_hints.len();
        let mut i: usize = 0;
        while i < n
            invariant
                n == self.inlay_hints@.len(),
                i <= n,
                r@.len() == i,
                forall|j: int|
                    0 <= j < i ==> {
                        let h = #[trigger] self.inlay_hints@[j];
                        &&& r@[j].position == position_of_offset(
                            doc@.text,
                            h.position.end as int,
                        )
                        &&& r@[j].label@ == hint_label(h.typename@)
                        &&& r@[j].kind == InlayHintKind::Type
                    },
            decreases n - i,
        {
            r.push(self.inlay_hints[i].to_inlay_hint(doc));
            i = i + 1;
        }
        r
    }
}

} // verus!

verus! {

/// Whether the text of `a` is the text of `b`.
pub fn same_text(a: &str, b: &str) -> (r: bool)
    ensures
        r == (a@ == b@),
{
    let x = chars_of(a);
    let y = chars_of(b);
    if x.len() != y.len() {
        return false;
    }
    let n = x.len();
    let mut i: usize = 0;
    while i < n
        invariant
            n == x@.len() == y@.len(),
            x@ == a@,
            y@ == b@,
            i <= n,
            forall|j: int| 0 <= j < i ==> x@[j] == y@[j],
        decreases n - i,
    {
        if x[i] != y[i] {
            proof {
                assert(a@[i as int] != b@[i as int]);
            }
            return false;
        }
        i = i + 1;
    }
    proof {
        assert(x@ =~= y@);
    }
    true
}

/// Whether `c` occurs in `s`.
pub fn contains_char(s: &str, c: char) -> (r: bool)
    ensures
        r == s@.contains(c),
{
    let x = chars_of(s);
    let n = x.len();
    let mut i: usize = 0;
    while i < n
        invariant
            n == x@.len(),
            x@ == s@,
            i <= n,
            forall|j: int| 0 <= j < i ==> x@[j] != c,
        decreases n - i,
    {
        if x[i] == c {
            return true;
        }
        i = i + 1;
    }
    false
}

/// What the compiler proposes at a place: the labels of the completions.
#[derive(Debug, PartialEq, Eq)]
pub struct IdeComplete {
    pub completions: Vec<String>,
}

/// What a completion stands for, as far as its label shows it.
#[derive(Clone, Copy, Debug, PartialEq, Eq, Structural)]
pub enum CompletionItemKind {
    Function,
    Field,
}

/// A completion as the editor shows it.
#[derive(Clone, Debug, PartialEq, Eq)]
pub struct CompletionItem {
    pub label: String,
    pub kind: CompletionItemKind,
    /// A number that tells the completions apart, counted from one.
    pub data: u64,
}

/// A label with an opening parenthesis reads as a function, any other as a field.
pub open spec fn completion_kind(label: Seq<char>) -> CompletionItemKind {
    if label.contains('(') {
        CompletionItemKind::Function
    } else {
        CompletionItemKind::Field
    }
}

impl IdeComplete {
    /// The completions in the compiler's order, each with its kind and its
    /// number.
    pub fn to_completion_items(&self) -> (r: Vec<CompletionItem>)
        ensures
            r@.len() == self.completions@.len(),
            forall|i: int|
                0 <= i < r@.len() ==> {
                    &&& (#[trigger] r@[i]).label@ == self.completions@[i]@
                    &&& r@[i].kind == completion_kind(self.completions@[i]@)
                    &&& r@[i].data == i + 1
                },
    {
        let mut r: Vec<CompletionItem> = Vec::new();
        let n = self.completions.len();
        let mut i: usize = 0;
        while i < n
            invariant
                n == self.completions@.len(),
                i <= n,
                r@.len() == i,
                forall|j: int|
                    0 <= j < i ==> {
                        &&& (#[trigger] r@[j]).label@ == self.completions@[j]@
                        &&& r@[j].kind == completion_kind(self.completions@[j]@)
                        &&& r@[j].data == j + 1
                    },
            decreases n - i,
        {
            let label = self.completions[i].clone();
            let kind = if contains_char(label.as_str(), '(') {
                CompletionItemKind::Function
            } else {
                CompletionItemKind::Field
            };
            r.push(CompletionItem { label, kind, data: i as u64 + 1 });
            i = i + 1;
        }
        r
    }
}

/// What the compiler says of the thing at a place, and where that thing is.
#[derive(Debug, PartialEq, Eq)]
pub struct IdeHover {
    pub hover: String,
    pub span: Option<IdeSpan>,
}

/// A hover as the editor shows it.
#[derive(Clone, Debug, PartialEq, Eq)]
pub struct Hover {
    pub contents: String,
    pub range: Option<Range>,
}

impl IdeHover {
    /// The hover text, anchored at its span in `doc` where it has one.
    pub fn to_hover(&self, doc: &TextDocument) -> (r: Hover)
        ensures
            r.contents@ == self.hover@,
            match self.span {
                None => r.range is None,
                Some(s) => r.range == Some(
                    Range {
                        start: position_of_offset(doc@.text, s.start as int),
                        end: position_of_offset(doc@.text, s.end as int),
                    },
                ),
            },
    {
        let range = match self.span {
            None => None,
            Some(s) => Some(doc.range_at(s.start, s.end)),
        };
        Hover { contents: self.hover.clone(), range }
    }
}

/// Where the compiler says a thing is defined: a file and a span in it.
#[derive(Debug, PartialEq, Eq)]
pub struct IdeGotoDef {
    pub end: u32,
    pub file: String,
    pub start: u32,
}

/// A place in some document, as the editor addresses it.
#[derive(Clone, Debug, PartialEq, Eq)]
pub struct Location {
    pub uri: String,
    pub range: Range,
}

/// What `Url::from_file_path` gives for `path`, spelled out.
pub uninterp spec fn file_url_of(path: Seq<char>) -> Option<Seq<char>>;

/// Relies on `Url::from_file_path`: the `file:` URL of an absolute path,
/// where it has one.
#[verifier::external_body]
fn url_from_file_path(path: &str) -> (r: Option<String>)
    ensures
        match r {
            Some(u) => file_url_of(path@) == Some(u@),
            None => file_url_of(path@) is None,
        },
{
    match tower_lsp::lsp_types::Url::from_file_path(path) {
        Ok(u) => Some(String::from(u.as_str())),
        Err(()) => None,
    }
}

/// A target that is no file to go to: an empty name, or the name that the
/// compiler gives its implicit prelude.
pub open spec fn no_file(file: Seq<char>) -> bool {
    file.len() == 0 || file == "__prelude__"@
}

/// The document whose text places a definition: the target where it is
/// open, else the document the request came from.
pub open spec fn placing_document(
    docs: Seq<crate::document::DocumentView>,
    target: Seq<char>,
    source: Seq<char>,
) -> Option<crate::document::DocumentView> {
    match index_of(docs, target) {
        Some(i) => Some(docs[i]),
        None => match index_of(docs, source) {
            Some(i) => Some(docs[i]),
            None => None,
        },
    }
}

impl IdeGotoDef {
    /// The place of the definition, asked from the document at `source_uri`.
    /// No place where the target is no file or the file does not exist; a
    /// path that makes no URL is a parse error.
    pub fn to_location(
        &self,
        file_exists: bool,
        documents: &DocumentStore,
        source_uri: &String,
    ) -> (r: Result<Option<Location>, LspError>)
        ensures
            no_file(self.file@) || !file_exists ==> r matches Ok(None),
            !no_file(self.file@) && file_exists ==> match file_url_of(self.file@) {
                None => r matches Err(e) && e.kind == ErrorKind::Parse,
                Some(u) => match placing_document(documents@, u, source_uri@) {
                    None => r matches Err(e) && e.kind == ErrorKind::InvalidParams,
                    Some(d) => r matches Ok(Some(loc)) && loc.uri@ == u && loc.range == (Range {
                        start: position_of_offset(d.text, self.start as int),
                        end: position_of_offset(d.text, self.end as int),
                    }),
                },
            },
    {
        if self.file.as_str().is_empty() || same_text(self.file.as_str(), "__prelude__") {
            return Ok(None);
        }
        if !file_exists {
            return Ok(None);
        }
        let uri = match url_from_file_path(self.file.as_str()) {
            Some(u) => u,
            None => {
                return Err(
                    LspError::new(ErrorKind::Parse, "cannot make a URL of the definition's path"),
                );
            },
        };
        let range = match documents.get(&uri) {
            Ok(doc) => doc.range_at(self.start, self.end),
            Err(_) => {
                let doc = documents.get(source_uri)?;
                doc.range_at(self.start, self.end)
            },
        };
        Ok(Some(Location { uri, range }))
    }
}

/// The line that ends at index `i`: without its carriage return, where it
/// ends in one.
pub open spec fn line_text(s: Seq<char>, start: int, i: int) -> Seq<char> {
    if i > start && s[i - 1] == '\r' {
        s.subrange(start, i - 1)
    } else {
        s.subrange(start, i)
    }
}

/// The lines of `s` from `i` on, the current one started at `start`: split
/// at each line feed, with no empty line after a final line feed.
pub open spec fn lines_from(s: Seq<char>, start: int, i: int) -> Seq<Seq<char>>
    decreases s.len() - i,
{
    if i >= s.len() {
        if start < s.len() {
            seq![line_text(s, start, s.len() as int)]
        } else {
            Seq::empty()
        }
    } else if s[i] == '\n' {
        seq![line_text(s, start, i)] + lines_from(s, i + 1, i + 1)
    } else {
        lines_from(s, start, i + 1)
    }
}

fn string_between(s: &Vec<char>, from: usize, to: usize) -> (r: String)
    requires
        from <= to <= s@.len(),
    ensures
        r@ == s@.subrange(from as int, to as int),
{
    let mut r = String::new();
    let mut i = from;
    while i < to
        invariant
            from <= i <= to <= s@.len(),
            r@ == s@.subrange(from as int, i as int),
        decreases to - i,
    {
        push_char(&mut r, s[i]);
        proof {
            assert(r@ =~= s@.subrange(from as int, i + 1));
        }
        i = i + 1;
    }
    r
}

fn line_string(s: &Vec<char>, start: usize, i: usize) -> (r: String)
    requires
        start <= i <= s@.len(),
    ensures
        r@ == line_text(s@, start as int, i as int),
{
    if i > start && s[i - 1] == '\r' {
        string_between(s, start, i - 1)
    } else {
        string_between(s, start, i)
    }
}

/// The lines of a compiler's output, one record each.
pub fn output_lines(stdout: &str) -> (r: Vec<String>)
    ensures
        r@.map_values(|l: String| l@) == lines_from(stdout@, 0, 0),
{
    let s = chars_of(stdout);
    let n = s.len();
    let mut r: Vec<String> = Vec::new();
    let mut start: usize = 0;
    let mut i: usize = 0;
    while i < n
        invariant
            n == s@.len(),
            s@ == stdout@,
            start <= i <= n,
            r@.map_values(|l: String| l@) + lines_from(s@, start as int, i as int) == lines_from(
                s@,
                0,
                0,
            ),
        decreases n - i,
    {
        if s[i] == '\n' {
            let line = line_string(&s, start, i);
            let ghost before = r@.map_values(|l: String| l@);
            r.push(line);
            proof {
                assert(r@.map_values(|l: String| l@) =~= before.push(line@));
                assert(before + lines_from(s@, start as int, i as int) =~= before.push(line@)
                    + lines_from(s@, i + 1, i + 1));
            }
            start = i + 1;
        }
        i = i + 1;
    }
    if start < n {
        let line = line_string(&s, start, n);
        let ghost before = r@.map_values(|l: String| l@);
        r.push(line);
        proof {
            assert(r@.map_values(|l: String| l@) =~= before.push(line@));
            assert(before + lines_from(s@, start as int, n as int) =~= before.push(line@));
        }
    } else {
        proof {
            assert(r@.map_values(|l: String| l@) + lines_from(s@, start as int, n as int)
                =~= r@.map_values(|l: String| l@));
        }
    }
    r
}

} // verus!
