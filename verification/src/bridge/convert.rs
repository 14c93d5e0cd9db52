//! From records to what the host application shows.

use vstd::prelude::*;
use crate::json::Json;
use crate::json::json_parse;
use crate::json::JsonView;
use crate::notes::domain::Artifact;
use crate::notes::domain::CapturedItem;
use crate::notes::domain::CapturedItemView;
use crate::text::concat2;
use crate::text::text_eq;
use crate::views::option_view;
use crate::views::own_option;
use crate::views::result_view;
use crate::views::seq_views;

verus! {

/// An item on the board.
#[derive(Clone, Debug, PartialEq, Eq)]
pub struct BoardItem {
    pub id: String,
    pub kind: String,
    pub text: String,
    /// Shown at the right edge; empty for now.
    pub right: String,
    pub photo_count: u32,
}

/// The mathematical counterpart of [`BoardItem`].
pub struct BoardItemView {
    pub id: Seq<char>,
    pub kind: Seq<char>,
    pub text: Seq<char>,
    pub right: Seq<char>,
    pub photo_count: u32,
}

impl View for BoardItem {
    type V = BoardItemView;

    open spec fn view(&self) -> BoardItemView {
        BoardItemView {
            id: self.id@,
            kind: self.kind@,
            text: self.text@,
            right: self.right@,
            photo_count: self.photo_count,
        }
    }
}

/// A line of a document.
#[derive(Clone, Debug, PartialEq, Eq)]
pub struct DocLine {
    pub id: String,
    pub title: String,
    pub detail: String,
    pub qty: String,
    /// Only an amount that was spoken.
    pub amount_cents: Option<i64>,
    pub section: Option<String>,
    /// Something is still open on this line.
    pub is_gap: bool,
}

/// The mathematical counterpart of [`DocLine`].
pub struct DocLineView {
    pub id: Seq<char>,
    pub title: Seq<char>,
    pub detail: Seq<char>,
    pub qty: Seq<char>,
    pub amount_cents: Option<i64>,
    pub section: Option<Seq<char>>,
    pub is_gap: bool,
}

impl View for DocLine {
    type V = DocLineView;

    open spec fn view(&self) -> DocLineView {
        DocLineView {
            id: self.id@,
            title: self.title@,
            detail: self.detail@,
            qty: self.qty@,
            amount_cents: self.amount_cents,
            section: option_view(self.section),
            is_gap: self.is_gap,
        }
    }
}

/// A document.
#[derive(Clone, Debug, PartialEq, Eq)]
pub struct DocumentPayload {
    pub doc_kind: String,
    pub doc_number: u64,
    pub job_date_unix: u64,
    pub total_kind: String,
    pub total_label_key: String,
    pub static_total_cents: Option<i64>,
    pub lines: Vec<DocLine>,
    /// The session still waits to be processed.
    pub queued: bool,
}

/// The mathematical counterpart of [`DocumentPayload`].
#[verifier::ext_equal]
pub struct DocumentView {
    pub doc_kind: Seq<char>,
    pub doc_number: u64,
    pub job_date_unix: u64,
    pub total_kind: Seq<char>,
    pub total_label_key: Seq<char>,
    pub static_total_cents: Option<i64>,
    pub lines: Seq<DocLineView>,
    pub queued: bool,
}

impl View for DocumentPayload {
    type V = DocumentView;

    open spec fn view(&self) -> DocumentView {
        DocumentView {
            doc_kind: self.doc_kind@,
            doc_number: self.doc_number,
            job_date_unix: self.job_date_unix,
            total_kind: self.total_kind@,
            total_label_key: self.total_label_key@,
            static_total_cents: self.static_total_cents,
            lines: seq_views(self.lines@),
            queued: self.queued,
        }
    }
}

/// Why an artifact is no document.
#[derive(Clone, Debug, PartialEq, Eq)]
pub enum ConvertError {
    /// The body is not JSON, with the reader's reason.
    BadJson(String),
}

impl View for ConvertError {
    type V = Seq<char>;

    open spec fn view(&self) -> Seq<char> {
        match self {
            ConvertError::BadJson(reason) => reason@,
        }
    }
}

impl ConvertError {
    /// The one-line message of the error.
    pub fn to_text(&self) -> (r: String)
        ensures
            r@ == "artifact body is not valid document JSON: "@ + self@,
    {
        match self {
            ConvertError::BadJson(reason) => concat2(
                "artifact body is not valid document JSON: ",
                reason.as_str(),
            ),
        }
    }
}

/// What the board shows of an item.
pub open spec fn board_view(item: CapturedItemView) -> BoardItemView {
    BoardItemView {
        id: item.id,
        kind: item.kind,
        text: item.text,
        right: Seq::empty(),
        photo_count: 0,
    }
}

/// What the board shows of an item.
pub fn board_item(item: &CapturedItem) -> (r: BoardItem)
    ensures
        r@ == board_view(item@),
{
    BoardItem {
        id: item.id.clone(),
        kind: item.kind.clone(),
        text: item.text.clone(),
        right: String::new(),
        photo_count: 0,
    }
}

/// The text under a key, or the empty one.
pub open spec fn text_at(v: JsonView, key: Seq<char>) -> Seq<char> {
    match v.get_text(key) {
        Some(s) => s,
        None => Seq::empty(),
    }
}

/// The count under a key, or zero.
pub open spec fn count_at(v: JsonView, key: Seq<char>) -> u64 {
    match v.get(key) {
        Some(n) => match n.uint64() {
            Some(u) => u,
            None => 0,
        },
        None => 0,
    }
}

/// The integer under a key, if there is one.
pub open spec fn integer_at(v: JsonView, key: Seq<char>) -> Option<i64> {
    match v.get(key) {
        Some(n) => n.int64(),
        None => None,
    }
}

/// Whether the key holds `true`.
pub open spec fn flag_at(v: JsonView, key: Seq<char>) -> bool {
    match v.get(key) {
        Some(b) => b.truth() == Some(true),
        None => false,
    }
}

/// The list under a key, or the empty one.
pub open spec fn list_at(v: JsonView, key: Seq<char>) -> Seq<JsonView> {
    match v.get(key) {
        Some(a) => match a.items() {
            Some(items) => items,
            None => Seq::empty(),
        },
        None => Seq::empty(),
    }
}

/// A line of a document, read from its JSON. What is missing is empty.
pub open spec fn line_view(v: JsonView) -> DocLineView {
    DocLineView {
        id: text_at(v, "id"@),
        title: text_at(v, "title"@),
        detail: text_at(v, "detail"@),
        qty: text_at(v, "qty"@),
        amount_cents: integer_at(v, "amount_cents"@),
        section: v.get_text("section"@),
        is_gap: flag_at(v, "is_gap"@),
    }
}

/// A document, read from its JSON. What is missing is empty.
pub open spec fn projected(v: JsonView) -> DocumentView {
    let lines = list_at(v, "lines"@);
    DocumentView {
        doc_kind: text_at(v, "doc_kind"@),
        doc_number: count_at(v, "doc_number"@),
        job_date_unix: count_at(v, "job_date_unix"@),
        total_kind: text_at(v, "total_kind"@),
        total_label_key: text_at(v, "total_label_key"@),
        static_total_cents: integer_at(v, "static_total_cents"@),
        lines: Seq::new(lines.len(), |i: int| line_view(lines[i])),
        queued: flag_at(v, "queued"@),
    }
}

/// A document, read from an artifact's body.
pub open spec fn document_of(body: Seq<char>) -> Result<DocumentView, Seq<char>> {
    match json_parse(body) {
        Ok(v) => Ok(projected(v)),
        Err(e) => Err(e),
    }
}

/// Reads a text.
fn read_text(v: &Json, key: &str) -> (r: String)
    ensures
        r@ == text_at(v@, key@),
{
    match v.get_str(key) {
        Some(s) => s.to_string(),
        None => String::new(),
    }
}

/// Reads a count.
fn read_count(v: &Json, key: &str) -> (r: u64)
    ensures
        r == count_at(v@, key@),
{
    match v.get(key) {
        Some(n) => match n.as_u64() {
            Some(u) => u,
            None => 0,
        },
        None => 0,
    }
}

/// Reads an integer.
fn read_integer(v: &Json, key: &str) -> (r: Option<i64>)
    ensures
        r == integer_at(v@, key@),
{
    match v.get(key) {
        Some(n) => n.as_i64(),
        None => None,
    }
}

/// Reads a flag.
fn read_flag(v: &Json, key: &str) -> (r: bool)
    ensures
        r == flag_at(v@, key@),
{
    match v.get(key) {
        Some(b) => match b.as_bool() {
            Some(t) => t,
            None => false,
        },
        None => false,
    }
}

/// Reads the lines of a document.
fn read_lines(v: &Json) -> (r: Vec<DocLine>)
    ensures
        seq_views(r@) == projected(v@).lines,
{
    let mut out: Vec<DocLine> = Vec::new();
    if let Some(a) = v.get("lines") {
        if let Some(items) = a.as_array() {
            let mut i: usize = 0;
            while i < items.len()
                invariant
                    i <= items.len(),
                    out.len() == i,
                    forall|k: int| 0 <= k < i ==> (#[trigger] out@[k])@ == line_view(items@[k]@),
                decreases items.len() - i,
            {
                let line = &items[i];
                out.push(
                    DocLine {
                        id: read_text(line, "id"),
                        title: read_text(line, "title"),
                        detail: read_text(line, "detail"),
                        qty: read_text(line, "qty"),
                        amount_cents: read_integer(line, "amount_cents"),
                        section: own_option(line.get_str("section")),
                        is_gap: read_flag(line, "is_gap"),
                    },
                );
                i = i + 1;
            }
            assert(seq_views(out@) =~= projected(v@).lines);
            return out;
        }
    }
    assert(seq_views(out@) =~= projected(v@).lines);
    out
}

/// Reads a document out of its JSON. What is missing is empty.
pub fn project_document(v: &Json) -> (r: DocumentPayload)
    ensures
        r@ == projected(v@),
{
    DocumentPayload {
        doc_kind: read_text(v, "doc_kind"),
        doc_number: read_count(v, "doc_number"),
        job_date_unix: read_count(v, "job_date_unix"),
        total_kind: read_text(v, "total_kind"),
        total_label_key: read_text(v, "total_label_key"),
        static_total_cents: read_integer(v, "static_total_cents"),
        lines: read_lines(v),
        queued: read_flag(v, "queued"),
    }
}

/// Reads the document that an artifact holds.
pub fn document_payload(artifact: &Artifact) -> (r: Result<DocumentPayload, ConvertError>)
    ensures
        result_view(r) == document_of(artifact@.body),
{
    match Json::parse(artifact.body.as_str()) {
        Ok(v) => Ok(project_document(&v)),
        Err(e) => Err(ConvertError::BadJson(e)),
    }
}

/// The line of a document that stands for an item: its text, and nothing known
/// beyond it.
pub open spec fn gap_line(item: CapturedItemView) -> DocLineView {
    DocLineView {
        id: item.id,
        title: item.text,
        detail: Seq::empty(),
        qty: Seq::empty(),
        amount_cents: None,
        section: None,
        is_gap: true,
    }
}

/// The document that stands in for one that was not built. An inspection has no
/// sum of amounts, so it is not labelled as having one.
pub open spec fn partial_document(
    doc_kind: Seq<char>,
    items: Seq<CapturedItemView>,
    queued: bool,
) -> DocumentView {
    DocumentView {
        doc_kind,
        doc_number: 0,
        job_date_unix: 0,
        total_kind: if doc_kind == "inspection"@ {
            "static"@
        } else {
            "sum"@
        },
        total_label_key: if doc_kind == "inspection"@ {
            "findings"@
        } else {
            "total"@
        },
        static_total_cents: None,
        lines: Seq::new(items.len(), |i: int| gap_line(items[i])),
        queued,
    }
}

/// Makes a document out of the board, with every line a gap. It is queued when
/// the session still waits to be processed.
pub fn partial_document_from_items(doc_kind: &str, items: &[CapturedItem], queued: bool) -> (r:
    DocumentPayload)
    ensures
        r@ == partial_document(doc_kind@, seq_views(items@), queued),
{
    let (total_kind, total_label_key) = if text_eq(doc_kind, "inspection") {
        ("static", "findings")
    } else {
        ("sum", "total")
    };
    let mut lines: Vec<DocLine> = Vec::new();
    let mut i: usize = 0;
    while i < items.len()
        invariant
            i <= items.len(),
            lines.len() == i,
            forall|k: int| 0 <= k < i ==> (#[trigger] lines@[k])@ == gap_line(items@[k]@),
        decreases items.len() - i,
    {
        lines.push(
            DocLine {
                id: items[i].id.clone(),
                title: items[i].text.clone(),
                detail: String::new(),
                qty: String::new(),
                amount_cents: None,
                section: None,
                is_gap: true,
            },
        );
        i = i + 1;
    }
    let r = DocumentPayload {
        doc_kind: doc_kind.to_string(),
        doc_number: 0,
        job_date_unix: 0,
        total_kind: total_kind.to_string(),
        total_label_key: total_label_key.to_string(),
        static_total_cents: None,
        lines,
        queued,
    };
    assert(r@.lines =~= partial_document(doc_kind@, seq_views(items@), queued).lines);
    r
}

} // verus!
