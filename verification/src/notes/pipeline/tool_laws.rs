//! What the tools that write records do, said of their input and the records.

use vstd::prelude::*;
use crate::harness::base_laws::calls;
use crate::harness::base_laws::calls_first;
use crate::harness::base_laws::law_first_call;
use crate::harness::error::HarnessError;
use crate::harness::llm::CompletionResponse;
use crate::json::Json;
use crate::json::JsonView;
use crate::notes::domain::CapturedItemView;
use crate::notes::domain::ContactView;
use crate::notes::domain::ItemSource;
use crate::notes::domain::SessionStatus;
use crate::notes::pipeline::document_laws::law_template_decides_the_kind;
use crate::notes::pipeline::processor::doc_kind_for_template;
use crate::notes::pipeline::processor::SessionProcessor;
use crate::notes::pipeline::prompts::captured_lines;
use crate::notes::pipeline::prompts::summary_in;
use crate::notes::pipeline::prompts::with_memory;
use crate::notes::pipeline::tools::AddItemTool;
use crate::notes::pipeline::tools::is_valid_kind;
use crate::notes::pipeline::tools::UpsertContactTool;
use crate::notes::pipeline::tools::WriteReportTool;
use crate::notes::store::contacts::contact_of;
use crate::notes::store::contacts::contact_saved;
use crate::notes::store::contacts::is_named;
use crate::notes::store::record_laws::one_artifact;
use crate::notes::store::record_laws::one_item;
use crate::notes::store::Stamp;
use crate::notes::store::Store;
use crate::notes::store::StoreView;
use crate::text::blank;

verus! {

/// What the input says under a key holds a word.
pub open spec fn says_words(input: JsonView, key: Seq<char>) -> bool {
    input.get(key) matches Some(JsonView::Str(s)) && !blank(s)
}

/// An item has one of six kinds.
pub proof fn law_kinds(kind: &str, r: bool)
    requires
        call_ensures(is_valid_kind, (kind,), r),
    ensures
        r <==> item_kinds().contains(kind@),
{
    let kinds = item_kinds();
    assert(kinds[0] == "todo"@ && kinds[1] == "decision"@ && kinds[2] == "note"@);
    assert(kinds[3] == "safety"@ && kinds[4] == "part"@ && kinds[5] == "price"@);
}

/// The kinds that an item can have.
pub open spec fn item_kinds() -> Seq<Seq<char>> {
    seq!["todo"@, "decision"@, "note"@, "safety"@, "part"@, "price"@]
}

/// An item that the tool adds has the kind and the words of the input, and the
/// session and the origin of the tool. Nothing else changes. An input without a
/// known kind or without words, and a session that is not there or not in the
/// status that the tool needs, adds nothing.
pub proof fn law_add_item_tool(
    tool: &mut AddItemTool,
    store: &mut Store,
    input: &Json,
    st: Stamp,
    r: Result<String, HarnessError>,
)
    requires
        old(store).wf(),
        call_ensures(AddItemTool::execute_as, (tool, store, input, st), r),
    ensures
        ({
            let kind = input@.get("kind"@);
            let session = old(store)@.session(old(tool)@.session_id);
            &&& r is Err ==> final(store)@ == old(store)@ && final(tool)@ == old(tool)@
            &&& (kind matches Some(JsonView::Str(k)) && item_kinds().contains(k)) && says_words(
                input@,
                "text"@,
            ) && session is Some && (old(tool)@.required_status is Some ==> session->0.status
                == old(tool)@.required_status->0) && !old(store)@.items.contains_key(st@.id) ==> r
                is Ok
            &&& r is Ok ==> {
                &&& kind matches Some(JsonView::Str(k)) && item_kinds().contains(k)
                &&& says_words(input@, "text"@)
                &&& session is Some
                &&& old(tool)@.required_status is Some ==> session->0.status
                    == old(tool)@.required_status->0
                &&& exists|id: Seq<char>|
                    old(store)@.item(id) is None && one_item(old(store)@, final(store)@, id)
                        && is_written(
                        #[trigger] final(store)@.item(id),
                        old(tool)@.session_id,
                        old(tool)@.source,
                        input@,
                    ) && final(tool)@.created_ids == (match old(tool)@.created_ids {
                        Some(ids) => Some(ids.push(id)),
                        None => None,
                    })
                &&& final(tool)@.session_id == old(tool)@.session_id
                &&& final(tool)@.source == old(tool)@.source
                &&& final(tool)@.required_status == old(tool)@.required_status
            }
        }),
{
    let kinds = item_kinds();
    assert(kinds[0] == "todo"@ && kinds[1] == "decision"@ && kinds[2] == "note"@);
    assert(kinds[3] == "safety"@ && kinds[4] == "part"@ && kinds[5] == "price"@);
    if r is Ok {
        assert(old(store)@.item(st@.id) is None);
        assert(is_written(
            final(store)@.item(st@.id),
            old(tool)@.session_id,
            old(tool)@.source,
            input@,
        ));
    }
}

/// The item that an input makes.
pub open spec fn is_written(
    item: Option<CapturedItemView>,
    session_id: Seq<char>,
    source: ItemSource,
    input: JsonView,
) -> bool {
    item matches Some(i) && i.session_id == session_id && i.source == source && !i.done
        && input.get("kind"@) == Some(JsonView::Str(i.kind)) && input.get("text"@) == Some(
        JsonView::Str(i.text),
    )
}

/// Each of the three tools for items has its origin: by hand at any time, live
/// only while recording, and authoritative with the ids kept.
pub proof fn law_item_tools(
    session_id: &str,
    hand: AddItemTool,
    live: AddItemTool,
    last: AddItemTool,
)
    requires
        call_ensures(AddItemTool::new, (session_id,), hand),
        call_ensures(AddItemTool::live, (session_id,), live),
        call_ensures(AddItemTool::authoritative, (session_id,), last),
    ensures
        hand@.session_id == session_id@ && live@.session_id == session_id@ && last@.session_id
            == session_id@,
        hand@.source == ItemSource::Manual && hand@.required_status is None,
        live@.source == ItemSource::Live && live@.required_status == Some(SessionStatus::Recording),
        last@.source == ItemSource::Authoritative && last@.required_status is None,
        last@.created_ids matches Some(ids) && ids.len() == 0,
        hand@.created_ids is None && live@.created_ids is None,
{
}

/// The tool for reports writes one report with the title and the body of the
/// input, for its session. Without a title in words, a body or a session it writes
/// nothing.
pub proof fn law_write_report_tool(
    tool: &WriteReportTool,
    store: &mut Store,
    input: &Json,
    st: Stamp,
    r: Result<String, HarnessError>,
)
    requires
        old(store).wf(),
        call_ensures(WriteReportTool::execute_as, (tool, store, input, st), r),
    ensures
        r is Err ==> final(store)@ == old(store)@,
        says_words(input@, "title"@) && (input@.get("body"@) matches Some(JsonView::Str(_)))
            && old(store)@.session(tool@) is Some && !old(store)@.artifacts.contains_key(st@.id)
            ==> r is Ok,
        r is Ok ==> {
            &&& says_words(input@, "title"@)
            &&& old(store)@.session(tool@) is Some
            &&& exists|id: Seq<char>|
                old(store)@.artifact(id) is None && one_artifact(old(store)@, final(store)@, id)
                    && (#[trigger] final(store)@.artifact(id)) is Some && final(store)@.artifact(
                    id,
                )->0.session_id == tool@ && final(store)@.artifact(id)->0.kind == "report"@
                    && input@.get("title"@) == Some(
                    JsonView::Str(final(store)@.artifact(id)->0.title),
                ) && input@.get("body"@) == Some(JsonView::Str(final(store)@.artifact(id)->0.body))
        },
{
    if r is Ok {
        assert(final(store)@.artifact(st@.id) is Some);
    }
}

/// The text under a key, if there is one.
pub open spec fn text_under(input: JsonView, key: Seq<char>) -> Option<Seq<char>> {
    match input.get(key) {
        Some(JsonView::Str(s)) => Some(s),
        _ => None,
    }
}

/// The tool for people saves the person that the input names, with what it says of
/// them, and nothing that it does not say. Without a name it saves nothing.
pub proof fn law_upsert_contact_tool(
    tool: &UpsertContactTool,
    store: &mut Store,
    input: &Json,
    st: Stamp,
    r: Result<String, HarnessError>,
)
    requires
        old(store).wf(),
        call_ensures(UpsertContactTool::execute_as, (tool, store, input, st), r),
    ensures
        r is Err ==> final(store)@ == old(store)@,
        says_words(input@, "name"@) && !old(store)@.contacts.contains_key(st@.id) ==> r is Ok,
        r is Ok ==> says_words(input@, "name"@) && exists|c: ContactView|
            #[trigger] contact_of(final(store)@, c.id) == Some(c) && input@.get("name"@) == Some(
                JsonView::Str(c.name),
            ) && (text_under(input@, "trade"@) is Some ==> c.trade == text_under(
                input@,
                "trade"@,
            )) && (text_under(input@, "phone"@) is Some ==> c.phone == text_under(
                input@,
                "phone"@,
            )) && (text_under(input@, "notes"@) is Some ==> c.notes == text_under(
                input@,
                "notes"@,
            )) && (contact_of(old(store)@, c.id) is None ==> c.trade == text_under(
                input@,
                "trade"@,
            ) && c.phone == text_under(input@, "phone"@) && c.notes == text_under(
                input@,
                "notes"@,
            )) && (contact_of(old(store)@, c.id) matches Some(known) ==> known.name == c.name && (
            text_under(input@, "trade"@) is None ==> c.trade == known.trade) && (text_under(
                input@,
                "phone"@,
            ) is None ==> c.phone == known.phone) && (text_under(input@, "notes"@) is None
                ==> c.notes == known.notes)) && final(store)@ == (StoreView {
                contacts: final(store)@.contacts,
                ..old(store)@
            }) && forall|k: Seq<char>|
                k != c.id ==> #[trigger] contact_of(final(store)@, k) == contact_of(
                    old(store)@,
                    k,
                ),
{
    if r is Ok {
        let name = input@.get("name"@)->0->Str_0;
        let saved = contact_saved(
            old(store)@,
            name,
            input@.get_text("trade"@),
            input@.get_text("phone"@),
            input@.get_text("notes"@),
            st@,
        );
        let c = saved.1->Ok_0;
        if exists|k: ContactView| is_named(old(store)@, name, k) {
            let k = choose|k: ContactView| is_named(old(store)@, name, k);
            assert(contact_of(old(store)@, k.id) == Some(k));
        }
        assert(contact_of(final(store)@, c.id) == Some(c));
    }
}

/// The summary of an answer is the one of its first `write_summary`.
pub proof fn law_summary_in(resp: &CompletionResponse)
    ensures
        summary_in(resp@) matches Some(s) ==> exists|i: int| #[trigger]
            calls_first(resp@.content, i, "write_summary"@) && resp@.content[i]->input.get(
                "summary"@,
            ) == Some(JsonView::Str(s)),
        summary_in(resp@) is None ==> forall|i: int| #[trigger]
            calls_first(resp@.content, i, "write_summary"@) ==> !(resp@.content[i]->input.get(
                "summary"@,
            ) matches Some(JsonView::Str(_))),
{
    law_first_call(resp@.content, "write_summary"@);
    assert forall|i: int, j: int|
        #![trigger calls_first(resp@.content, i, "write_summary"@), calls_first(resp@.content, j, "write_summary"@)]
        calls_first(resp@.content, i, "write_summary"@) && calls_first(
            resp@.content,
            j,
            "write_summary"@,
        ) implies i == j by {
        if i < j {
            assert(!calls(resp@.content[i], "write_summary"@));
        }
        if j < i {
            assert(!calls(resp@.content[j], "write_summary"@));
        }
    }
}

/// What was captured is listed with kind and words, the newest first.
pub proof fn law_captured_lines(items: Seq<CapturedItemView>, i: int)
    requires
        0 <= i < items.len(),
    ensures
        captured_lines(items).len() == items.len(),
        captured_lines(items)[items.len() - 1 - i] == "- ["@ + items[i].kind + "] "@
            + items[i].text,
{
}

/// A memory stands whole behind the instructions; without one they stand alone.
pub proof fn law_memory_goes_behind(instructions: Seq<char>, memory: Seq<char>)
    ensures
        instructions.is_prefix_of(with_memory(instructions, memory)),
        memory.is_suffix_of(with_memory(instructions, memory)),
        memory.len() == 0 ==> with_memory(instructions, memory) == instructions,
        memory.len() > 0 ==> with_memory(instructions, memory) == instructions
            + "\n\nWhat you know about this user:\n"@ + memory,
{
}

/// The kind of document of a template, as it is called.
pub proof fn law_doc_kind_for_template(template: Option<&str>, r: &str)
    requires
        call_ensures(doc_kind_for_template, (template,), r),
    ensures
        r@ == "estimate"@ <==> template is Some && template->0@ == "landscape"@,
        r@ == "inspection"@ <==> template is Some && template->0@ == "inspection"@,
        r@ == "estimate"@ || r@ == "inspection"@ || r@ == "report"@,
{
    law_template_decides_the_kind(
        match template {
            Some(t) => Some(t@),
            None => None,
        },
    );
}

/// The usual budgets of processing.
pub proof fn law_usual_processing(r: SessionProcessor)
    requires
        call_ensures(SessionProcessor::new, (), r),
    ensures
        r.max_turns == 16,
        r.max_tokens == 4096,
        r.transcript_budget_tokens == 12000,
        r.summary_max_tokens == 512,
        r.build_document_max_tokens == 1024,
{
}

} // verus!
