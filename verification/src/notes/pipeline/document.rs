//! The tool that builds the structured document of a session.
//!
//! A line carries an amount only when one was spoken. Whether a line without an
//! amount is a gap depends on the kind of document: on an estimate it is, unless
//! the model says otherwise; on a report or an inspection it is not, unless the
//! model says so.

use vstd::prelude::*;
use crate::harness::error::HarnessError;
use crate::harness::error::HarnessErrorView;
use crate::harness::llm::ToolSpec;
use crate::harness::llm::ToolSpecView;
use crate::harness::tool::schema_of;
use crate::harness::tool::schema_view;
use crate::json::field_views;
use crate::json::Json;
use crate::json::JsonView;
use crate::json::PARSE_DEPTH;
use crate::json::reads_as;
use crate::notes::domain::ArtifactView;
use crate::notes::pipeline::tools::req_nonempty_str;
use crate::notes::pipeline::tools::required_words;
use crate::notes::pipeline::tools::tool_error;
use crate::notes::store::documents::document_written;
use crate::notes::store::documents::fields_before;
use crate::notes::store::documents::number_for;
use crate::notes::store::documents::numbered;
use crate::notes::store::documents::stamped_fields;
use crate::notes::store::new_id;
use crate::notes::store::not_found;
use crate::notes::store::Stamp;
use crate::notes::store::StampView;
use crate::notes::store::Store;
use crate::notes::store::id_shaped;
use crate::notes::store::StoreView;
use crate::text::concat2;
use crate::text::concat3;
use crate::text::decimal;
use crate::text::decimal_text;
use crate::text::lemma_lex_at;
use crate::text::lemma_lex_irreflexive;
use crate::text::lemma_lex_transitive;
use crate::text::lex_lt;
use crate::text::text_eq;
use crate::views::result_view;
use crate::views::seq_views;

verus! {

/// The name of the tool.
pub const BUILD_DOCUMENT: &'static str = "build_document";

/// What it is for, in words for the model.
pub const BUILD_DOCUMENT_DESCRIPTION: &'static str = "Build the structured job document from this session. Put an amount only on a line whose number was actually spoken \u{2014} never guess. If a quantity or price was not said, omit amount_cents. On a priced template an unheard amount is a gap; on a report or inspection, only mark a line a gap when it was genuinely left open \u{2014} a normal 'OK' row or a section finding with no dollar figure is not a gap.";

/// The schema of its input, as JSON text.
pub const BUILD_DOCUMENT_SCHEMA: &'static str = "{\"type\":\"object\",\"properties\":{\"total_kind\":{\"type\":\"string\",\"enum\":[\"sum\",\"static\"]},\"total_label_key\":{\"type\":\"string\",\"minLength\":1},\"static_total_cents\":{\"type\":\"integer\"},\"lines\":{\"type\":\"array\",\"items\":{\"type\":\"object\",\"properties\":{\"title\":{\"type\":\"string\",\"minLength\":1},\"detail\":{\"type\":\"string\"},\"qty\":{\"type\":\"string\"},\"amount_cents\":{\"type\":\"integer\"},\"section\":{\"type\":\"string\"},\"is_gap\":{\"type\":\"boolean\"}},\"required\":[\"title\"]}}},\"required\":[\"total_kind\",\"total_label_key\",\"lines\"]}";

/// How it is offered to the model.
pub open spec fn build_document_offer() -> ToolSpecView {
    ToolSpecView {
        name: BUILD_DOCUMENT@,
        description: BUILD_DOCUMENT_DESCRIPTION@,
        input_schema: schema_view(BUILD_DOCUMENT_SCHEMA@),
    }
}

/// Builds a session's document.
#[derive(Clone, Debug)]
pub struct BuildDocumentTool {
    session_id: String,
    doc_kind: String,
    /// A number that the document already has. Without one, the next number is
    /// taken in the same step in which the document is written.
    existing_doc_number: Option<u64>,
}

/// The mathematical counterpart of [`BuildDocumentTool`].
pub struct BuildDocumentToolView {
    pub session_id: Seq<char>,
    pub doc_kind: Seq<char>,
    pub existing_doc_number: Option<u64>,
}

impl View for BuildDocumentTool {
    type V = BuildDocumentToolView;

    closed spec fn view(&self) -> BuildDocumentToolView {
        BuildDocumentToolView {
            session_id: self.session_id@,
            doc_kind: self.doc_kind@,
            existing_doc_number: self.existing_doc_number,
        }
    }
}

/// An integer, if there is one.
pub open spec fn integer_field(v: Option<JsonView>) -> Option<i64> {
    match v {
        Some(j) => j.int64(),
        None => None,
    }
}

/// An integer as JSON; null for none.
pub open spec fn optional_integer(n: Option<i64>) -> JsonView {
    match n {
        Some(i) => if i >= 0 {
            JsonView::Uint(i as u64)
        } else {
            JsonView::Int(i)
        },
        None => JsonView::Null,
    }
}

/// A text as JSON; null for none.
pub open spec fn optional_text(s: Option<Seq<char>>) -> JsonView {
    match s {
        Some(t) => JsonView::Str(t),
        None => JsonView::Null,
    }
}

/// The text, or the empty one.
pub open spec fn text_or_empty(s: Option<Seq<char>>) -> Seq<char> {
    match s {
        Some(t) => t,
        None => ""@,
    }
}

/// Whether a line is a gap: as the model says; otherwise a line without an
/// amount is one on an estimate only.
pub open spec fn line_is_gap(line: JsonView, doc_kind: Seq<char>) -> bool {
    match line.get("is_gap"@) {
        Some(v) => match v.truth() {
            Some(explicit) => explicit,
            None => doc_kind == "estimate"@ && integer_field(line.get("amount_cents"@)) is None,
        },
        None => doc_kind == "estimate"@ && integer_field(line.get("amount_cents"@)) is None,
    }
}

/// A line of the document.
pub open spec fn document_line(
    line: JsonView,
    title: Seq<char>,
    doc_kind: Seq<char>,
    id: Seq<char>,
) -> JsonView {
    JsonView::Object(
        seq![
            ("amount_cents"@, optional_integer(integer_field(line.get("amount_cents"@)))),
            ("detail"@, JsonView::Str(text_or_empty(line.get_text("detail"@)))),
            ("id"@, JsonView::Str(id)),
            ("is_gap"@, JsonView::Bool(line_is_gap(line, doc_kind))),
            ("qty"@, JsonView::Str(text_or_empty(line.get_text("qty"@)))),
            ("section"@, optional_text(line.get_text("section"@))),
            ("title"@, JsonView::Str(title)),
        ],
    )
}

/// The lines of the document, or which line is the first without a title.
pub open spec fn document_lines(
    lines: Seq<JsonView>,
    doc_kind: Seq<char>,
    ids: Seq<Seq<char>>,
) -> Result<Seq<JsonView>, Seq<char>>
    decreases lines.len(),
{
    if lines.len() == 0 {
        Ok(Seq::empty())
    } else {
        let i = lines.len() - 1;
        match document_lines(lines.drop_last(), doc_kind, ids) {
            Err(e) => Err(e),
            Ok(before) => match lines.last().get_text("title"@) {
                None => Err("lines["@ + decimal(i as nat) + "] missing 'title'"@),
                Some(title) => Ok(before.push(document_line(lines.last(), title, doc_kind, ids[i]))),
            },
        }
    }
}

/// The lines that an input holds.
pub open spec fn lines_in(input: JsonView) -> Option<Seq<JsonView>> {
    match input.get("lines"@) {
        Some(v) => v.items(),
        None => None,
    }
}

/// The document without its number, or what is wrong with the input.
pub open spec fn document_payload(
    input: JsonView,
    doc_kind: Seq<char>,
    started_at: u64,
    ids: Seq<Seq<char>>,
) -> Result<JsonView, Seq<char>> {
    match (required_words(input, "total_kind"@), required_words(input, "total_label_key"@)) {
        (Err(e), _) => Err(e),
        (Ok(_), Err(e)) => Err(e),
        (Ok(total_kind), Ok(total_label_key)) => match lines_in(input) {
            None => Err("missing 'lines'"@),
            Some(lines) => match document_lines(lines, doc_kind, ids) {
                Err(e) => Err(e),
                Ok(built) => Ok(
                    JsonView::Object(
                        seq![
                            ("doc_kind"@, JsonView::Str(doc_kind)),
                            ("job_date_unix"@, JsonView::Uint(started_at)),
                            ("lines"@, JsonView::Array(built)),
                            ("queued"@, JsonView::Bool(false)),
                            (
                                "static_total_cents"@,
                                optional_integer(integer_field(input.get("static_total_cents"@))),
                            ),
                            ("total_kind"@, JsonView::Str(total_kind)),
                            ("total_label_key"@, JsonView::Str(total_label_key)),
                        ],
                    ),
                ),
            },
        },
    }
}

/// How many lines an input holds.
pub open spec fn line_count(input: JsonView) -> nat {
    match lines_in(input) {
        Some(lines) => lines.len(),
        None => 0,
    }
}

/// Ids for the lines of an input: one for each, and each has the form of an id.
pub open spec fn line_ids(input: JsonView, ids: Seq<Seq<char>>) -> bool {
    ids.len() == line_count(input) && forall|i: int| 0 <= i < ids.len() ==> id_shaped(#[trigger] ids[i])
}

/// One run of the tool. The input is checked before anything is read or
/// written; a number is taken exactly when the document lands.
pub open spec fn document_run(
    v: StoreView,
    t: BuildDocumentToolView,
    input: JsonView,
    ids: Seq<Seq<char>>,
    st: StampView,
) -> (StoreView, Result<Seq<char>, HarnessErrorView>) {
    let started_at = match v.session(t.session_id) {
        Some(s) => s.started_at,
        None => 0,
    };
    match document_payload(input, t.doc_kind, started_at, ids) {
        Err(e) => (v, Err(tool_error(BUILD_DOCUMENT@, e))),
        Ok(payload) => if v.session(t.session_id) is None {
            (
                v,
                Err(
                    tool_error(
                        BUILD_DOCUMENT@,
                        not_found("session"@, t.session_id).message(),
                    ),
                ),
            )
        } else {
            match document_written(
                v,
                t.session_id,
                t.doc_kind,
                t.existing_doc_number,
                payload,
                st,
            ) {
                (w, Ok(a)) => (w, Ok("document built: "@ + a.title)),
                (w, Err(e)) => (w, Err(tool_error(BUILD_DOCUMENT@, e.message()))),
            }
        },
    }
}

/// Reading the body of the artifact gives the document, with its number.
pub open spec fn document_reads_back(
    v: StoreView,
    t: BuildDocumentToolView,
    input: JsonView,
    ids: Seq<Seq<char>>,
    a: ArtifactView,
) -> bool {
    match (v.session(t.session_id), number_for(v, t.doc_kind, t.existing_doc_number)) {
        (Some(s), n) => match document_payload(input, t.doc_kind, s.started_at, ids) {
            Ok(payload) => reads_as(a.body, numbered(payload, n)),
            Err(_) => false,
        },
        (None, _) => false,
    }
}

/// The keys of a line stand in order.
proof fn lemma_line_keys()
    ensures
        lex_lt("amount_cents"@, "detail"@),
        lex_lt("detail"@, "id"@),
        lex_lt("id"@, "is_gap"@),
        lex_lt("is_gap"@, "qty"@),
        lex_lt("qty"@, "section"@),
        lex_lt("section"@, "title"@),
{
    reveal_strlit("amount_cents");
    reveal_strlit("detail");
    reveal_strlit("id");
    reveal_strlit("is_gap");
    reveal_strlit("qty");
    reveal_strlit("section");
    reveal_strlit("title");
    lemma_lex_at("amount_cents"@, "detail"@, 0);
    lemma_lex_at("detail"@, "id"@, 0);
    lemma_lex_at("id"@, "is_gap"@, 1);
    lemma_lex_at("is_gap"@, "qty"@, 0);
    lemma_lex_at("qty"@, "section"@, 0);
    lemma_lex_at("section"@, "title"@, 0);
}

/// The keys of a document stand in order.
proof fn lemma_document_keys()
    ensures
        lex_lt("doc_kind"@, "doc_number"@),
        lex_lt("doc_number"@, "job_date_unix"@),
        lex_lt("job_date_unix"@, "lines"@),
        lex_lt("lines"@, "queued"@),
        lex_lt("queued"@, "static_total_cents"@),
        lex_lt("static_total_cents"@, "total_kind"@),
        lex_lt("total_kind"@, "total_label_key"@),
{
    reveal_strlit("doc_kind");
    reveal_strlit("doc_number");
    reveal_strlit("job_date_unix");
    reveal_strlit("lines");
    reveal_strlit("queued");
    reveal_strlit("static_total_cents");
    reveal_strlit("total_kind");
    reveal_strlit("total_label_key");
    lemma_lex_at("doc_kind"@, "doc_number"@, 4);
    lemma_lex_at("doc_number"@, "job_date_unix"@, 0);
    lemma_lex_at("job_date_unix"@, "lines"@, 0);
    lemma_lex_at("lines"@, "queued"@, 0);
    lemma_lex_at("queued"@, "static_total_cents"@, 0);
    lemma_lex_at("static_total_cents"@, "total_kind"@, 0);
    lemma_lex_at("total_kind"@, "total_label_key"@, 6);
}

/// Keys that ascend from each to the next ascend throughout.
proof fn lemma_keys_ascend(f: Seq<(Seq<char>, JsonView)>, i: int, j: int)
    requires
        forall|k: int| 0 <= k < f.len() - 1 ==> lex_lt((#[trigger] f[k]).0, f[k + 1].0),
        0 <= i < j < f.len(),
    ensures
        lex_lt(f[i].0, f[j].0),
    decreases j - i,
{
    assert(lex_lt(f[j - 1].0, f[j].0));
    if i < j - 1 {
        lemma_keys_ascend(f, i, j - 1);
        lemma_lex_transitive(f[i].0, f[j - 1].0, f[j].0);
    }
}

/// An object of leaves, or of plain parts, with ascending keys is plain.
proof fn lemma_plain_object(f: Seq<(Seq<char>, JsonView)>, depth: nat)
    requires
        depth > 0,
        forall|k: int| 0 <= k < f.len() - 1 ==> lex_lt((#[trigger] f[k]).0, f[k + 1].0),
        forall|k: int| 0 <= k < f.len() ==> (#[trigger] f[k]).1.plain((depth - 1) as nat),
    ensures
        JsonView::Object(f).plain(depth),
{
    assert forall|i: int, j: int| 0 <= i < j < f.len() implies lex_lt(
        (#[trigger] f[i]).0,
        (#[trigger] f[j]).0,
    ) by {
        lemma_keys_ascend(f, i, j);
    }
}

/// A line survives a round trip through its text.
pub proof fn lemma_line_is_plain(
    line: JsonView,
    title: Seq<char>,
    doc_kind: Seq<char>,
    id: Seq<char>,
    depth: nat,
)
    requires
        depth > 0,
    ensures
        document_line(line, title, doc_kind, id).plain(depth),
{
    lemma_line_keys();
    lemma_plain_object(document_line(line, title, doc_kind, id)->Object_0, depth);
}

proof fn lemma_lines_are_plain(
    lines: Seq<JsonView>,
    doc_kind: Seq<char>,
    ids: Seq<Seq<char>>,
    depth: nat,
)
    requires
        depth > 0,
    ensures
        document_lines(lines, doc_kind, ids) matches Ok(built) ==> forall|i: int|
            0 <= i < built.len() ==> (#[trigger] built[i]).plain(depth),
    decreases lines.len(),
{
    if lines.len() > 0 {
        lemma_lines_are_plain(lines.drop_last(), doc_kind, ids, depth);
        if let Some(title) = lines.last().get_text("title"@) {
            lemma_line_is_plain(lines.last(), title, doc_kind, ids[lines.len() - 1], depth);
        }
    }
}

/// A numbered document survives a round trip through its text. The number comes
/// second.
pub proof fn lemma_document_is_plain(
    input: JsonView,
    doc_kind: Seq<char>,
    started_at: u64,
    ids: Seq<Seq<char>>,
    n: u64,
)
    requires
        document_payload(input, doc_kind, started_at, ids) is Ok,
    ensures
        numbered(document_payload(input, doc_kind, started_at, ids)->Ok_0, n).plain(
            PARSE_DEPTH as nat,
        ),
        ({
            let f = document_payload(input, doc_kind, started_at, ids)->Ok_0->Object_0;
            numbered(document_payload(input, doc_kind, started_at, ids)->Ok_0, n)
                == JsonView::Object(
                seq![f[0], ("doc_number"@, JsonView::Uint(n)), f[1], f[2], f[3], f[4], f[5], f[6]],
            )
        }),
{
    let f = document_payload(input, doc_kind, started_at, ids)->Ok_0->Object_0;
    let lines = lines_in(input)->0;
    let built = document_lines(lines, doc_kind, ids)->Ok_0;
    lemma_document_keys();
    lemma_lines_are_plain(lines, doc_kind, ids, 125);
    assert(JsonView::Array(built).plain(126));
    lemma_lex_irreflexive("doc_number"@);
    if lex_lt("job_date_unix"@, "doc_number"@) {
        lemma_lex_transitive("doc_number"@, "job_date_unix"@, "doc_number"@);
    }
    let rest = f.drop_first();
    assert(rest[0].0 == "job_date_unix"@);
    assert(fields_before(rest, "doc_number"@) =~= Seq::empty());
    assert(fields_before(f, "doc_number"@) =~= seq![f[0]]);
    if "job_date_unix"@ == "doc_number"@ {
        assert(lex_lt("doc_number"@, "doc_number"@));
    }
    let g = stamped_fields(f, n);
    assert(g =~= seq![f[0], ("doc_number"@, JsonView::Uint(n)), f[1], f[2], f[3], f[4], f[5], f[6]]);
    lemma_plain_object(g, PARSE_DEPTH as nat);
}

/// Reads an integer field.
fn read_integer(v: &Json, key: &str) -> (r: Option<i64>)
    ensures
        r == integer_field(v@.get(key@)),
{
    match v.get(key) {
        Some(j) => j.as_i64(),
        None => None,
    }
}

/// An integer as JSON.
fn integer_json(n: Option<i64>) -> (r: Json)
    ensures
        r@ == optional_integer(n),
{
    match n {
        Some(i) => if i >= 0 {
            Json::Uint(i as u64)
        } else {
            Json::Int(i)
        },
        None => Json::Null,
    }
}

/// A text as JSON.
fn text_json(s: Option<&str>) -> (r: Json)
    ensures
        r@ == optional_text(
            match s {
                Some(t) => Some(t@),
                None => None,
            },
        ),
{
    match s {
        Some(t) => Json::Str(t.to_string()),
        None => Json::Null,
    }
}

/// A text as JSON, empty for none.
fn filled_json(s: Option<&str>) -> (r: Json)
    ensures
        r@ == JsonView::Str(
            text_or_empty(
                match s {
                    Some(t) => Some(t@),
                    None => None,
                },
            ),
        ),
{
    match s {
        Some(t) => Json::Str(t.to_string()),
        None => Json::Str("".to_string()),
    }
}

/// Makes a line of the document.
fn make_line(line: &Json, title: &str, doc_kind: &str, id: &str) -> (r: Json)
    ensures
        r@ == document_line(line@, title@, doc_kind@, id@),
{
    let amount = read_integer(line, "amount_cents");
    let explicit = match line.get("is_gap") {
        Some(v) => v.as_bool(),
        None => None,
    };
    let is_gap = match explicit {
        Some(b) => b,
        None => text_eq(doc_kind, "estimate") && amount.is_none(),
    };
    let mut fields: Vec<(String, Json)> = Vec::new();
    fields.push(("amount_cents".to_string(), integer_json(amount)));
    fields.push(("detail".to_string(), filled_json(line.get_str("detail"))));
    fields.push(("id".to_string(), Json::Str(id.to_string())));
    fields.push(("is_gap".to_string(), Json::Bool(is_gap)));
    fields.push(("qty".to_string(), filled_json(line.get_str("qty"))));
    fields.push(("section".to_string(), text_json(line.get_str("section"))));
    fields.push(("title".to_string(), Json::Str(title.to_string())));
    let ghost want = document_line(line@, title@, doc_kind@, id@);
    assert(field_views(fields@) =~= want->Object_0);
    let r = Json::Object(fields);
    proof {
        r.lemma_fields();
    }
    r
}

/// Makes the lines of the document.
fn make_lines(lines: &Vec<Json>, doc_kind: &str, ids: &Vec<String>) -> (r: Result<
    Vec<Json>,
    String,
>)
    requires
        ids.len() >= lines.len(),
    ensures
        match r {
            Ok(v) => document_lines(seq_views(lines@), doc_kind@, seq_views(ids@)) == Ok::<
                Seq<JsonView>,
                Seq<char>,
            >(seq_views(v@)),
            Err(e) => document_lines(seq_views(lines@), doc_kind@, seq_views(ids@)) == Err::<
                Seq<JsonView>,
                Seq<char>,
            >(e@),
        },
{
    let ghost all = seq_views(lines@);
    let ghost known = seq_views(ids@);
    let mut out: Vec<Json> = Vec::new();
    let mut i: usize = 0;
    assert(all.take(0) =~= Seq::<JsonView>::empty());
    assert(seq_views(out@) =~= Seq::<JsonView>::empty());
    while i < lines.len()
        invariant
            i <= lines.len(),
            ids.len() >= lines.len(),
            all == seq_views(lines@),
            known == seq_views(ids@),
            document_lines(all.take(i as int), doc_kind@, known) == Ok::<Seq<JsonView>, Seq<char>>(
                seq_views(out@),
            ),
        decreases lines.len() - i,
    {
        proof {
            assert(all.take(i + 1).drop_last() =~= all.take(i as int));
            assert(all.take(i + 1).last() == lines@[i as int]@);
        }
        match lines[i].get_str("title") {
            None => {
                let message = concat3(
                    "lines[",
                    decimal_text(i as u64).as_str(),
                    "] missing 'title'",
                );
                proof {
                    lemma_first_untitled(all, doc_kind@, known, i + 1);
                }
                return Err(message);
            },
            Some(title) => {
                let ghost before = out@;
                let line = make_line(&lines[i], title, doc_kind, ids[i].as_str());
                let ghost made = line@;
                out.push(line);
                assert(seq_views(out@) =~= seq_views(before).push(made));
            },
        }
        i = i + 1;
    }
    assert(all.take(all.len() as int) =~= all);
    Ok(out)
}

/// What is wrong with the first lines is wrong with all of them.
proof fn lemma_first_untitled(
    lines: Seq<JsonView>,
    doc_kind: Seq<char>,
    ids: Seq<Seq<char>>,
    n: int,
)
    requires
        0 <= n <= lines.len(),
        document_lines(lines.take(n), doc_kind, ids) is Err,
    ensures
        document_lines(lines, doc_kind, ids) == document_lines(lines.take(n), doc_kind, ids),
    decreases lines.len() - n,
{
    if n < lines.len() {
        assert(lines.take(n + 1).drop_last() =~= lines.take(n));
        lemma_first_untitled(lines, doc_kind, ids, n + 1);
    } else {
        assert(lines.take(n) =~= lines);
    }
}

/// How many lines an input holds.
fn count_lines(input: &Json) -> (r: usize)
    ensures
        r == line_count(input@),
{
    match input.get("lines") {
        Some(v) => match v.as_array() {
            Some(lines) => lines.len(),
            None => 0,
        },
        None => 0,
    }
}

/// A list of fresh ids.
fn new_ids(n: usize) -> (r: Vec<String>)
    ensures
        r.len() == n,
        forall|i: int| 0 <= i < r.len() ==> id_shaped((#[trigger] r@[i])@),
{
    let mut out: Vec<String> = Vec::new();
    while out.len() < n
        invariant
            out.len() <= n,
            forall|i: int| 0 <= i < out.len() ==> id_shaped((#[trigger] out@[i])@),
        decreases n - out.len(),
    {
        out.push(new_id());
    }
    out
}

impl BuildDocumentTool {
    /// The name that the model calls.
    pub const NAME: &'static str = BUILD_DOCUMENT;

    /// The tool for a session and a kind of document.
    pub fn new(session_id: &str, doc_kind: &str, existing_doc_number: Option<u64>) -> (r:
        BuildDocumentTool)
        ensures
            r@ == (BuildDocumentToolView {
                session_id: session_id@,
                doc_kind: doc_kind@,
                existing_doc_number,
            }),
    {
        BuildDocumentTool {
            session_id: session_id.to_string(),
            doc_kind: doc_kind.to_string(),
            existing_doc_number,
        }
    }

    /// What the tool is for, in words for the model.
    pub fn description_str() -> (r: &'static str)
        ensures
            r@ == build_document_offer().description,
    {
        BUILD_DOCUMENT_DESCRIPTION
    }

    /// The JSON schema of the input.
    pub fn input_schema_json() -> (r: Json)
        ensures
            r@ == build_document_offer().input_schema,
    {
        schema_of(BUILD_DOCUMENT_SCHEMA)
    }

    /// How the tool is offered to the model.
    pub fn spec() -> (r: ToolSpec)
        ensures
            r@ == build_document_offer(),
    {
        ToolSpec {
            name: BUILD_DOCUMENT.to_string(),
            description: Self::description_str().to_string(),
            input_schema: Self::input_schema_json(),
        }
    }

    /// Makes the document without its number. The ids are those of its lines.
    pub fn payload(&self, input: &Json, started_at: u64, ids: &Vec<String>) -> (r: Result<
        Json,
        String,
    >)
        requires
            lines_in(input@) matches Some(lines) ==> ids.len() >= lines.len(),
        ensures
            result_view(r) == document_payload(
                input@,
                self@.doc_kind,
                started_at,
                seq_views(ids@),
            ),
    {
        let total_kind = match req_nonempty_str(input, "total_kind") {
            Ok(s) => s,
            Err(e) => {
                return Err(e);
            },
        };
        let total_label_key = match req_nonempty_str(input, "total_label_key") {
            Ok(s) => s,
            Err(e) => {
                return Err(e);
            },
        };
        let lines = match input.get("lines") {
            Some(v) => v.as_array(),
            None => None,
        };
        let lines = match lines {
            Some(v) => v,
            None => {
                return Err("missing 'lines'".to_string());
            },
        };
        let built = match make_lines(lines, self.doc_kind.as_str(), ids) {
            Ok(v) => v,
            Err(e) => {
                return Err(e);
            },
        };
        let ghost lines_view = seq_views(built@);
        let array = Json::Array(built);
        proof {
            array.lemma_fields();
        }
        let mut fields: Vec<(String, Json)> = Vec::new();
        fields.push(("doc_kind".to_string(), Json::Str(self.doc_kind.clone())));
        fields.push(("job_date_unix".to_string(), Json::Uint(started_at)));
        fields.push(("lines".to_string(), array));
        fields.push(("queued".to_string(), Json::Bool(false)));
        fields.push(
            ("static_total_cents".to_string(), integer_json(read_integer(input, "static_total_cents"))),
        );
        fields.push(("total_kind".to_string(), Json::Str(total_kind.to_string())));
        fields.push(("total_label_key".to_string(), Json::Str(total_label_key.to_string())));
        let ghost want = document_payload(input@, self@.doc_kind, started_at, seq_views(ids@));
        assert(field_views(fields@) =~= want->Ok_0->Object_0);
        let r = Json::Object(fields);
        proof {
            r.lemma_fields();
        }
        Ok(r)
    }

    /// Runs the tool with the given ids and time.
    pub fn execute_as(
        &self,
        store: &mut Store,
        input: &Json,
        ids: &Vec<String>,
        st: Stamp,
    ) -> (r: Result<String, HarnessError>)
        requires
            old(store).wf(),
            lines_in(input@) matches Some(lines) ==> ids.len() >= lines.len(),
        ensures
            final(store).wf(),
            (final(store)@, result_view(r)) == document_run(
                old(store)@,
                self@,
                input@,
                seq_views(ids@),
                st@,
            ),
            r is Ok ==> document_reads_back(
                old(store)@,
                self@,
                input@,
                seq_views(ids@),
                final(store)@.artifacts[st@.id].artifact,
            ),
    {
        let session = store.get_session(self.session_id.as_str());
        let started_at: u64 = match &session {
            Ok(s) => s.started_at,
            Err(_) => 0,
        };
        let payload = match self.payload(input, started_at, ids) {
            Ok(p) => p,
            Err(e) => {
                return Err(HarnessError::tool(BUILD_DOCUMENT, e));
            },
        };
        if let Err(e) = session {
            return Err(HarnessError::tool(BUILD_DOCUMENT, e.to_text()));
        }
        proof {
            lemma_document_is_plain(
                input@,
                self@.doc_kind,
                started_at,
                seq_views(ids@),
                number_for(store@, self@.doc_kind, self@.existing_doc_number),
            );
        }
        match store.write_document_as(
            self.session_id.as_str(),
            self.doc_kind.as_str(),
            self.existing_doc_number,
            payload,
            st,
        ) {
            Ok(a) => Ok(concat2("document built: ", a.title.as_str())),
            Err(e) => Err(HarnessError::tool(BUILD_DOCUMENT, e.to_text())),
        }
    }

    /// Runs the tool: builds the document and writes it as an artifact.
    pub fn execute(&self, store: &mut Store, input: &Json) -> (r: Result<String, HarnessError>)
        requires
            old(store).wf(),
        ensures
            final(store).wf(),
            exists|ids: Seq<Seq<char>>, st: StampView| #[trigger]
                old(store)@.gives(st) && line_ids(input@, ids) && (final(store)@, result_view(r))
                    == #[trigger] document_run(old(store)@, self@, input@, ids, st) && (r is Ok
                    ==> document_reads_back(
                    old(store)@,
                    self@,
                    input@,
                    ids,
                    final(store)@.artifacts[st.id].artifact,
                )),
    {
        let ids = new_ids(count_lines(input));
        let st = store.stamp();
        let ghost v = old(store)@;
        let r = self.execute_as(store, input, &ids, st);
        assert(v.gives(st@) && line_ids(input@, seq_views(ids@)) && (store@, result_view(r)) == document_run(
            v,
            self@,
            input@,
            seq_views(ids@),
            st@,
        ));
        r
    }
}

} // verus!
