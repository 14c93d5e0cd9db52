//! What a document that was built holds, said of what the model wrote.

use vstd::prelude::*;
use crate::json::JsonView;
use crate::json::lemma_field_at;
use crate::notes::pipeline::document::document_line;
use crate::notes::pipeline::document::document_lines;
use crate::notes::pipeline::document::document_payload;
use crate::notes::pipeline::document::lemma_document_is_plain;
use crate::notes::pipeline::document::lemma_line_is_plain;
use crate::notes::pipeline::document::lines_in;
use crate::notes::pipeline::processor::doc_kind_of;
use crate::notes::store::documents::numbered;
use crate::text::blank;

verus! {

/// The model spoke of a whole number under this key, one that a signed 64-bit
/// number holds.
pub open spec fn says_number(line: JsonView, key: Seq<char>) -> bool {
    match line.get(key) {
        Some(JsonView::Uint(n)) => n <= 0x7fff_ffff_ffff_ffff,
        Some(JsonView::Int(_)) => true,
        _ => false,
    }
}

/// The number as a value of its own: what the model wrote.
pub open spec fn same_number(written: Option<JsonView>, built: Option<JsonView>) -> bool {
    match (written, built) {
        (Some(JsonView::Uint(a)), Some(JsonView::Uint(b))) => a == b,
        (Some(JsonView::Int(a)), Some(JsonView::Uint(b))) => a == b,
        (Some(JsonView::Int(a)), Some(JsonView::Int(b))) => a == b && a < 0,
        _ => false,
    }
}

/// The text that the model wrote under this key, or the empty one.
pub open spec fn text_kept(written: Option<JsonView>, built: Option<JsonView>) -> bool {
    match written {
        Some(JsonView::Str(t)) => built == Some(JsonView::Str(t)),
        _ => built == Some(JsonView::Str(Seq::empty())),
    }
}

proof fn lemma_lines_one_by_one(
    lines: Seq<JsonView>,
    doc_kind: Seq<char>,
    ids: Seq<Seq<char>>,
    i: int,
)
    requires
        document_lines(lines, doc_kind, ids) is Ok,
        0 <= i < lines.len(),
    ensures
        document_lines(lines, doc_kind, ids)->Ok_0.len() == lines.len(),
        lines[i].get_text("title"@) is Some,
        document_lines(lines, doc_kind, ids)->Ok_0[i] == document_line(
            lines[i],
            lines[i].get_text("title"@)->0,
            doc_kind,
            ids[i],
        ),
    decreases lines.len(),
{
    if lines.len() > 1 {
        if i < lines.len() - 1 {
            lemma_lines_one_by_one(lines.drop_last(), doc_kind, ids, i);
        } else {
            lemma_lines_one_by_one(lines.drop_last(), doc_kind, ids, i - 1);
        }
    } else {
        assert(lines.drop_last().len() == 0);
        assert(document_lines(lines.drop_last(), doc_kind, ids)->Ok_0.len() == 0);
    }
}

proof fn lemma_empty_literal()
    ensures
        ""@ == Seq::<char>::empty(),
{
    reveal_strlit("");
    assert(""@ =~= Seq::<char>::empty());
}

/// When a line is a gap. Where the model says so or denies it, that stands. Where
/// it does not say, a line is a gap only on an estimate, and only when no amount
/// was spoken: a line of a report or an inspection never is, and neither is one
/// with an amount.
pub proof fn law_gap_only_where_said_or_unpriced(
    lines: Seq<JsonView>,
    doc_kind: Seq<char>,
    ids: Seq<Seq<char>>,
    i: int,
)
    requires
        document_lines(lines, doc_kind, ids) is Ok,
        0 <= i < lines.len(),
    ensures
        ({
            let said = lines[i].get("is_gap"@);
            let built = document_lines(lines, doc_kind, ids)->Ok_0[i].get("is_gap"@);
            &&& said matches Some(JsonView::Bool(b)) ==> built == Some(JsonView::Bool(b))
            &&& !(said matches Some(JsonView::Bool(_))) && (doc_kind != "estimate"@ || says_number(
                lines[i],
                "amount_cents"@,
            )) ==> built == Some(JsonView::Bool(false))
            &&& !(said matches Some(JsonView::Bool(_))) && doc_kind == "estimate"@ && !says_number(
                lines[i],
                "amount_cents"@,
            ) ==> built == Some(JsonView::Bool(true))
        }),
{
    lemma_lines_one_by_one(lines, doc_kind, ids, i);
    let title = lines[i].get_text("title"@)->0;
    let out = document_line(lines[i], title, doc_kind, ids[i]);
    lemma_line_is_plain(lines[i], title, doc_kind, ids[i], 1);
    lemma_field_at(out->Object_0, 3);
}

/// Every line that the model wrote is a line of the document, in the same place,
/// with the same title, amount, quantity, detail and section. What was not
/// spoken is not made up: an amount that is no whole number is none.
pub proof fn law_line_says_what_was_written(
    lines: Seq<JsonView>,
    doc_kind: Seq<char>,
    ids: Seq<Seq<char>>,
    i: int,
)
    requires
        document_lines(lines, doc_kind, ids) is Ok,
        0 <= i < lines.len(),
    ensures
        document_lines(lines, doc_kind, ids)->Ok_0.len() == lines.len(),
        ({
            let line = lines[i];
            let built = document_lines(lines, doc_kind, ids)->Ok_0[i];
            &&& line.get("title"@) matches Some(JsonView::Str(_))
            &&& built.get("title"@) == line.get("title"@)
            &&& built.get("id"@) == Some(JsonView::Str(ids[i]))
            &&& text_kept(line.get("qty"@), built.get("qty"@))
            &&& text_kept(line.get("detail"@), built.get("detail"@))
            &&& line.get("section"@) matches Some(JsonView::Str(t)) ==> built.get("section"@)
                == Some(JsonView::Str(t))
            &&& !(line.get("section"@) matches Some(JsonView::Str(_))) ==> built.get("section"@)
                == Some(JsonView::Null)
            &&& says_number(line, "amount_cents"@) ==> same_number(
                line.get("amount_cents"@),
                built.get("amount_cents"@),
            )
            &&& !says_number(line, "amount_cents"@) ==> built.get("amount_cents"@) == Some(
                JsonView::Null,
            )
        }),
{
    lemma_empty_literal();
    lemma_lines_one_by_one(lines, doc_kind, ids, i);
    let title = lines[i].get_text("title"@)->0;
    let out = document_line(lines[i], title, doc_kind, ids[i]);
    lemma_line_is_plain(lines[i], title, doc_kind, ids[i], 1);
    lemma_field_at(out->Object_0, 0);
    lemma_field_at(out->Object_0, 1);
    lemma_field_at(out->Object_0, 2);
    lemma_field_at(out->Object_0, 4);
    lemma_field_at(out->Object_0, 5);
    lemma_field_at(out->Object_0, 6);
}

/// Lines are refused exactly when one of them has no title.
pub proof fn law_lines_need_titles(
    lines: Seq<JsonView>,
    doc_kind: Seq<char>,
    ids: Seq<Seq<char>>,
)
    ensures
        document_lines(lines, doc_kind, ids) is Ok <==> forall|i: int|
            0 <= i < lines.len() ==> ((#[trigger] lines[i]).get("title"@) matches Some(
                JsonView::Str(_),
            )),
    decreases lines.len(),
{
    if lines.len() > 0 {
        let front = lines.drop_last();
        law_lines_need_titles(front, doc_kind, ids);
        assert(lines.last() == lines[lines.len() - 1]);
        if document_lines(lines, doc_kind, ids) is Ok {
            assert forall|i: int| 0 <= i < lines.len() implies ((#[trigger] lines[i]).get("title"@)
                matches Some(JsonView::Str(_))) by {
                if i < front.len() {
                    assert(front[i] == lines[i]);
                }
            }
        } else if forall|i: int|
            0 <= i < lines.len() ==> ((#[trigger] lines[i]).get("title"@) matches Some(
                JsonView::Str(_),
            )) {
            assert forall|i: int| 0 <= i < front.len() implies ((#[trigger] front[i]).get("title"@)
                matches Some(JsonView::Str(_))) by {
                assert(front[i] == lines[i]);
            }
        }
    }
}

/// A document that was built holds its kind, its number and the date of the job,
/// waits for nothing, has the totals that the model wrote and one line for each
/// of the model's.
pub proof fn law_document_holds_what_was_written(
    input: JsonView,
    doc_kind: Seq<char>,
    started_at: u64,
    ids: Seq<Seq<char>>,
    n: u64,
)
    requires
        document_payload(input, doc_kind, started_at, ids) is Ok,
    ensures
        ({
            let d = numbered(document_payload(input, doc_kind, started_at, ids)->Ok_0, n);
            &&& d.get("doc_kind"@) == Some(JsonView::Str(doc_kind))
            &&& d.get("doc_number"@) == Some(JsonView::Uint(n))
            &&& d.get("job_date_unix"@) == Some(JsonView::Uint(started_at))
            &&& d.get("queued"@) == Some(JsonView::Bool(false))
            &&& d.get("total_kind"@) == input.get("total_kind"@)
            &&& d.get("total_label_key"@) == input.get("total_label_key"@)
            &&& input.get("lines"@) matches Some(JsonView::Array(lines)) && d.get("lines"@) == Some(
                JsonView::Array(document_lines(lines, doc_kind, ids)->Ok_0),
            ) && document_lines(lines, doc_kind, ids) is Ok
            &&& says_number(input, "static_total_cents"@) ==> same_number(
                input.get("static_total_cents"@),
                d.get("static_total_cents"@),
            )
            &&& !says_number(input, "static_total_cents"@) ==> d.get("static_total_cents"@)
                == Some(JsonView::Null)
        }),
{
    let payload = document_payload(input, doc_kind, started_at, ids)->Ok_0;
    let g = numbered(payload, n)->Object_0;
    lemma_document_is_plain(input, doc_kind, started_at, ids, n);
    lemma_field_at(g, 0);
    lemma_field_at(g, 1);
    lemma_field_at(g, 2);
    lemma_field_at(g, 3);
    lemma_field_at(g, 4);
    lemma_field_at(g, 5);
    lemma_field_at(g, 6);
    lemma_field_at(g, 7);
}

/// A document is refused exactly when a total has no words, when there is no list
/// of lines, or when a line has no title.
pub proof fn law_document_is_refused_only_for_cause(
    input: JsonView,
    doc_kind: Seq<char>,
    started_at: u64,
    ids: Seq<Seq<char>>,
)
    ensures
        document_payload(input, doc_kind, started_at, ids) is Ok <==> {
            &&& input.get("total_kind"@) matches Some(JsonView::Str(a)) && !blank(a)
            &&& input.get("total_label_key"@) matches Some(JsonView::Str(b)) && !blank(b)
            &&& input.get("lines"@) matches Some(JsonView::Array(lines)) && forall|i: int|
                0 <= i < lines.len() ==> ((#[trigger] lines[i]).get("title"@) matches Some(
                    JsonView::Str(_),
                ))
        },
{
    if let Some(lines) = lines_in(input) {
        law_lines_need_titles(lines, doc_kind, ids);
    }
}

/// Each of the three kinds of document has the templates that lead to it, and no
/// other: `landscape` to an estimate, `inspection` to an inspection, and every
/// other template, or none, to a report.
pub proof fn law_template_decides_the_kind(template: Option<Seq<char>>)
    ensures
        doc_kind_of(template) == "estimate"@ <==> template == Some("landscape"@),
        doc_kind_of(template) == "inspection"@ <==> template == Some("inspection"@),
        doc_kind_of(template) == "report"@ <==> template != Some("landscape"@) && template != Some(
            "inspection"@,
        ),
        template == Some("property"@) || template is None ==> doc_kind_of(template) == "report"@,
{
    reveal_strlit("landscape");
    reveal_strlit("inspection");
    reveal_strlit("estimate");
    reveal_strlit("report");
    reveal_strlit("property");
    assert("landscape"@.len() == 9 && "inspection"@.len() == 10 && "property"@.len() == 8);
    assert("estimate"@.len() == 8 && "report"@.len() == 6);
}

} // verus!
