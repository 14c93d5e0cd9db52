//! The tools that write a session's records. Each checks its input and hands
//! the rest to the store.

use vstd::prelude::*;
use crate::harness::error::HarnessError;
use crate::harness::error::HarnessErrorView;
use crate::harness::llm::ToolSpecView;
use crate::harness::tool::schema_of;
use crate::harness::tool::schema_view;
use crate::json::Json;
use crate::json::JsonView;
use crate::notes::domain::ItemSource;
use crate::notes::domain::SessionStatus;
use crate::notes::store::artifacts::artifact_added;
use crate::notes::store::contacts::contact_saved;
use crate::notes::store::items::item_added;
use crate::notes::store::items::item_added_if;
use crate::notes::store::Stamp;
use crate::notes::store::StampView;
use crate::notes::store::Store;
use crate::notes::store::StoreView;
use crate::text::blank;
use crate::text::concat2;
use crate::text::concat3;
use crate::text::is_blank;
use crate::text::text_eq;
use crate::views::result_view;
use crate::views::seq_views;

verus! {

/// A required text of an input.
pub open spec fn required_text(input: JsonView, key: Seq<char>) -> Result<Seq<char>, Seq<char>> {
    match input.get(key) {
        None => Err("missing '"@ + key + "'"@),
        Some(v) => match v.text() {
            Some(s) => Ok(s),
            None => Err("'"@ + key + "' must be a string"@),
        },
    }
}

/// A required text that must hold more than white space.
pub open spec fn required_words(input: JsonView, key: Seq<char>) -> Result<Seq<char>, Seq<char>> {
    match required_text(input, key) {
        Err(e) => Err(e),
        Ok(s) => if blank(s) {
            Err("'"@ + key + "' must not be empty"@)
        } else {
            Ok(s)
        },
    }
}

/// The view of a text that was read, or of the reason why there is none.
pub open spec fn text_result(r: Result<&str, String>) -> Result<Seq<char>, Seq<char>> {
    match r {
        Ok(s) => Ok(s@),
        Err(e) => Err(e@),
    }
}

/// Reads a required text.
pub(crate) fn req_str<'a>(input: &'a Json, key: &str) -> (r: Result<&'a str, String>)
    ensures
        text_result(r) == required_text(input@, key@),
{
    match input.get(key) {
        None => Err(concat3("missing '", key, "'")),
        Some(v) => match v.as_str() {
            Some(s) => Ok(s),
            None => Err(concat3("'", key, "' must be a string")),
        },
    }
}

/// Reads a required text that must hold more than white space.
pub(crate) fn req_nonempty_str<'a>(input: &'a Json, key: &str) -> (r: Result<&'a str, String>)
    ensures
        text_result(r) == required_words(input@, key@),
{
    match req_str(input, key) {
        Err(e) => Err(e),
        Ok(s) => if is_blank(s) {
            Err(concat3("'", key, "' must not be empty"))
        } else {
            Ok(s)
        },
    }
}

/// A failure of the named tool.
pub open spec fn tool_error(name: Seq<char>, message: Seq<char>) -> HarnessErrorView {
    HarnessErrorView::Tool { name, message }
}

/// The kinds of items, as they are listed to the model.
pub const KIND_LIST: &'static str = "todo, decision, note, safety, part, price";

/// A kind that an item can have.
pub open spec fn valid_kind(kind: Seq<char>) -> bool {
    ||| kind == "todo"@
    ||| kind == "decision"@
    ||| kind == "note"@
    ||| kind == "safety"@
    ||| kind == "part"@
    ||| kind == "price"@
}

/// Whether an item can have this kind.
pub fn is_valid_kind(kind: &str) -> (r: bool)
    ensures
        r == valid_kind(kind@),
{
    text_eq(kind, "todo") || text_eq(kind, "decision") || text_eq(kind, "note") || text_eq(
        kind,
        "safety",
    ) || text_eq(kind, "part") || text_eq(kind, "price")
}

/// The name of the tool that adds items.
pub const ADD_ITEM: &'static str = "add_item";

/// What it is for, in words for the model.
pub const ADD_ITEM_DESCRIPTION: &'static str = "Record one clearly-stated item from the session. Only extract what was actually said \u{2014} fewer, confident items beat many guessed ones. Never invent assignees, prices, or dates.";

/// The schema of its input, as JSON text.
pub const ADD_ITEM_SCHEMA: &'static str = "{\"type\":\"object\",\"properties\":{\"kind\":{\"type\":\"string\",\"enum\":[\"todo\",\"decision\",\"note\",\"safety\",\"part\",\"price\"],\"minLength\":1},\"text\":{\"type\":\"string\",\"minLength\":1,\"description\":\"one short item, in the speaker's own terms\"}},\"required\":[\"kind\",\"text\"]}";

/// How it is offered to the model.
pub open spec fn add_item_offer() -> ToolSpecView {
    ToolSpecView {
        name: ADD_ITEM@,
        description: ADD_ITEM_DESCRIPTION@,
        input_schema: schema_view(ADD_ITEM_SCHEMA@),
    }
}

/// Adds items to a session.
#[derive(Clone, Debug)]
pub struct AddItemTool {
    session_id: String,
    source: ItemSource,
    /// When set, an item is written only while the session has this status.
    required_status: Option<SessionStatus>,
    /// When set, the ids of the items that this tool wrote.
    created_ids: Option<Vec<String>>,
}

/// The mathematical counterpart of [`AddItemTool`].
pub struct AddItemToolView {
    pub session_id: Seq<char>,
    pub source: ItemSource,
    pub required_status: Option<SessionStatus>,
    pub created_ids: Option<Seq<Seq<char>>>,
}

impl View for AddItemTool {
    type V = AddItemToolView;

    closed spec fn view(&self) -> AddItemToolView {
        AddItemToolView {
            session_id: self.session_id@,
            source: self.source,
            required_status: self.required_status,
            created_ids: match self.created_ids {
                Some(ids) => Some(seq_views(ids@)),
                None => None,
            },
        }
    }
}

/// The kind and the text that an input holds, or why it is refused.
pub open spec fn item_input(input: JsonView) -> Result<(Seq<char>, Seq<char>), Seq<char>> {
    match required_text(input, "kind"@) {
        Err(e) => Err(e),
        Ok(kind) => if !valid_kind(kind) {
            Err("invalid kind '"@ + kind + "'; must be one of: "@ + KIND_LIST@)
        } else {
            match required_words(input, "text"@) {
                Err(e) => Err(e),
                Ok(text) => Ok((kind, text)),
            }
        },
    }
}

/// The store's part: writing the item. An item that the required status keeps
/// out is a failure.
pub open spec fn item_written(
    v: StoreView,
    t: AddItemToolView,
    kind: Seq<char>,
    text: Seq<char>,
    st: StampView,
) -> (StoreView, Result<Seq<char>, Seq<char>>) {
    match t.required_status {
        None => match item_added(v, t.session_id, kind, text, t.source, st) {
            (w, Ok(item)) => (w, Ok(item.id)),
            (w, Err(e)) => (w, Err(e.message())),
        },
        Some(required) => match item_added_if(
            v,
            t.session_id,
            kind,
            text,
            required,
            t.source,
            st,
        ) {
            (w, Ok(Some(item))) => (w, Ok(item.id)),
            (w, Ok(None)) => (w, Err("session no longer recording"@)),
            (w, Err(e)) => (w, Err(e.message())),
        },
    }
}

/// The tool after it wrote an item.
pub open spec fn item_noted(t: AddItemToolView, id: Seq<char>) -> AddItemToolView {
    AddItemToolView {
        created_ids: match t.created_ids {
            Some(ids) => Some(ids.push(id)),
            None => None,
        },
        ..t
    }
}

/// One run of the tool.
pub open spec fn item_run(v: StoreView, t: AddItemToolView, input: JsonView, st: StampView) -> (
    StoreView,
    AddItemToolView,
    Result<Seq<char>, HarnessErrorView>,
) {
    match item_input(input) {
        Err(e) => (v, t, Err(tool_error(ADD_ITEM@, e))),
        Ok((kind, text)) => match item_written(v, t, kind, text, st) {
            (w, Ok(id)) => (w, item_noted(t, id), Ok("added "@ + kind + ": "@ + text)),
            (w, Err(e)) => (w, t, Err(tool_error(ADD_ITEM@, e))),
        },
    }
}

impl AddItemTool {
    /// Items noted by hand, at any time.
    pub fn new(session_id: &str) -> (r: AddItemTool)
        ensures
            r@ == (AddItemToolView {
                session_id: session_id@,
                source: ItemSource::Manual,
                required_status: None,
                created_ids: None,
            }),
    {
        AddItemTool {
            session_id: session_id.to_string(),
            source: ItemSource::Manual,
            required_status: None,
            created_ids: None,
        }
    }

    /// Items caught while the session is recording, and only then.
    pub fn live(session_id: &str) -> (r: AddItemTool)
        ensures
            r@ == (AddItemToolView {
                session_id: session_id@,
                source: ItemSource::Live,
                required_status: Some(SessionStatus::Recording),
                created_ids: None,
            }),
    {
        AddItemTool {
            session_id: session_id.to_string(),
            source: ItemSource::Live,
            required_status: Some(SessionStatus::Recording),
            created_ids: None,
        }
    }

    /// Items of the processing at the end. The tool keeps their ids.
    pub fn authoritative(session_id: &str) -> (r: AddItemTool)
        ensures
            r@ == (AddItemToolView {
                session_id: session_id@,
                source: ItemSource::Authoritative,
                required_status: None,
                created_ids: Some(Seq::empty()),
            }),
    {
        let ids: Vec<String> = Vec::new();
        assert(seq_views(ids@) =~= Seq::empty());
        AddItemTool {
            session_id: session_id.to_string(),
            source: ItemSource::Authoritative,
            required_status: None,
            created_ids: Some(ids),
        }
    }

    /// The name that the model calls.
    pub fn name(&self) -> (r: &'static str)
        ensures
            r@ == add_item_offer().name,
    {
        ADD_ITEM
    }

    /// What the tool is for, in words for the model.
    pub fn description(&self) -> (r: &'static str)
        ensures
            r@ == add_item_offer().description,
    {
        ADD_ITEM_DESCRIPTION
    }

    /// The JSON schema of the input.
    pub fn input_schema(&self) -> (r: Json)
        ensures
            r@ == add_item_offer().input_schema,
    {
        schema_of(ADD_ITEM_SCHEMA)
    }

    /// The ids of the items that this tool wrote, when it keeps them.
    pub fn created_ids(&self) -> (r: Option<&Vec<String>>)
        ensures
            match r {
                Some(ids) => self@.created_ids == Some(seq_views(ids@)),
                None => self@.created_ids is None,
            },
    {
        self.created_ids.as_ref()
    }

    /// Writes the item.
    fn write(&self, store: &mut Store, kind: &str, text: &str, st: Stamp) -> (r: Result<
        String,
        String,
    >)
        requires
            old(store).wf(),
        ensures
            final(store).wf(),
            (final(store)@, result_view(r)) == item_written(
                old(store)@,
                self@,
                kind@,
                text@,
                st@,
            ),
    {
        let session_id = self.session_id.as_str();
        match self.required_status {
            None => match store.add_item_as(session_id, kind, text, self.source, st) {
                Ok(item) => Ok(item.id),
                Err(e) => Err(e.to_text()),
            },
            Some(required) => match store.add_item_if_status_as(
                session_id,
                kind,
                text,
                required,
                self.source,
                st,
            ) {
                Ok(Some(item)) => Ok(item.id),
                Ok(None) => Err("session no longer recording".to_string()),
                Err(e) => Err(e.to_text()),
            },
        }
    }

    /// Runs the tool under the given id and time.
    pub fn execute_as(&mut self, store: &mut Store, input: &Json, st: Stamp) -> (r: Result<
        String,
        HarnessError,
    >)
        requires
            old(store).wf(),
        ensures
            final(store).wf(),
            (final(store)@, final(self)@, result_view(r)) == item_run(
                old(store)@,
                old(self)@,
                input@,
                st@,
            ),
    {
        let kind = match req_str(input, "kind") {
            Ok(s) => s,
            Err(e) => {
                return Err(HarnessError::tool(ADD_ITEM, e));
            },
        };
        if !is_valid_kind(kind) {
            let mut message = concat3("invalid kind '", kind, "'; must be one of: ");
            message.append(KIND_LIST);
            return Err(HarnessError::tool(ADD_ITEM, message));
        }
        let text = match req_nonempty_str(input, "text") {
            Ok(s) => s,
            Err(e) => {
                return Err(HarnessError::tool(ADD_ITEM, e));
            },
        };
        match self.write(store, kind, text, st) {
            Ok(id) => {
                let ghost new_id = id@;
                if let Some(ids) = &mut self.created_ids {
                    let ghost before = ids@;
                    ids.push(id);
                    assert(seq_views(ids@) =~= seq_views(before).push(new_id));
                }
                let mut message = concat3("added ", kind, ": ");
                message.append(text);
                Ok(message)
            },
            Err(e) => Err(HarnessError::tool(ADD_ITEM, e)),
        }
    }

    /// Runs the tool: records the item `text` of the given `kind`.
    pub fn execute(&mut self, store: &mut Store, input: &Json) -> (r: Result<String, HarnessError>)
        requires
            old(store).wf(),
        ensures
            final(store).wf(),
            exists|st: StampView| #[trigger]
                old(store)@.gives(st) && (final(store)@, final(self)@, result_view(r))
                    == item_run(old(store)@, old(self)@, input@, st),
    {
        let st = store.stamp();
        self.execute_as(store, input, st)
    }
}

/// The name of the tool that saves people.
pub const UPSERT_CONTACT: &'static str = "upsert_contact";

/// What it is for, in words for the model.
pub const UPSERT_CONTACT_DESCRIPTION: &'static str = "Save or update a person mentioned in the session (sub, client, supplier). Match is by exact name; omit fields you don't know rather than guessing.";

/// The schema of its input, as JSON text.
pub const UPSERT_CONTACT_SCHEMA: &'static str = "{\"type\":\"object\",\"properties\":{\"name\":{\"type\":\"string\",\"minLength\":1},\"trade\":{\"type\":\"string\"},\"phone\":{\"type\":\"string\"},\"notes\":{\"type\":\"string\"}},\"required\":[\"name\"]}";

/// How it is offered to the model.
pub open spec fn upsert_contact_offer() -> ToolSpecView {
    ToolSpecView {
        name: UPSERT_CONTACT@,
        description: UPSERT_CONTACT_DESCRIPTION@,
        input_schema: schema_view(UPSERT_CONTACT_SCHEMA@),
    }
}

/// Saves people.
#[derive(Clone, Copy, Debug)]
pub struct UpsertContactTool {}

/// One run of the tool.
pub open spec fn contact_run(v: StoreView, input: JsonView, st: StampView) -> (
    StoreView,
    Result<Seq<char>, HarnessErrorView>,
) {
    match required_words(input, "name"@) {
        Err(e) => (v, Err(tool_error(UPSERT_CONTACT@, e))),
        Ok(name) => match contact_saved(
            v,
            name,
            input.get_text("trade"@),
            input.get_text("phone"@),
            input.get_text("notes"@),
            st,
        ) {
            (w, Ok(_)) => (w, Ok("contact saved: "@ + name)),
            (w, Err(e)) => (w, Err(tool_error(UPSERT_CONTACT@, e.message()))),
        },
    }
}

impl UpsertContactTool {
    /// The tool.
    pub fn new() -> (r: UpsertContactTool)
        ensures
            r == (UpsertContactTool {  }),
    {
        UpsertContactTool {  }
    }

    /// The name that the model calls.
    pub fn name(&self) -> (r: &'static str)
        ensures
            r@ == upsert_contact_offer().name,
    {
        UPSERT_CONTACT
    }

    /// What the tool is for, in words for the model.
    pub fn description(&self) -> (r: &'static str)
        ensures
            r@ == upsert_contact_offer().description,
    {
        UPSERT_CONTACT_DESCRIPTION
    }

    /// The JSON schema of the input.
    pub fn input_schema(&self) -> (r: Json)
        ensures
            r@ == upsert_contact_offer().input_schema,
    {
        schema_of(UPSERT_CONTACT_SCHEMA)
    }

    /// Runs the tool under the given id and time.
    pub fn execute_as(&self, store: &mut Store, input: &Json, st: Stamp) -> (r: Result<
        String,
        HarnessError,
    >)
        requires
            old(store).wf(),
        ensures
            final(store).wf(),
            (final(store)@, result_view(r)) == contact_run(old(store)@, input@, st@),
    {
        let name = match req_nonempty_str(input, "name") {
            Ok(s) => s,
            Err(e) => {
                return Err(HarnessError::tool(UPSERT_CONTACT, e));
            },
        };
        let trade = input.get_str("trade");
        let phone = input.get_str("phone");
        let notes = input.get_str("notes");
        match store.upsert_contact_as(name, trade, phone, notes, st) {
            Ok(_) => Ok(concat2("contact saved: ", name)),
            Err(e) => Err(HarnessError::tool(UPSERT_CONTACT, e.to_text())),
        }
    }

    /// Runs the tool: saves the person `name`, with what else is known.
    pub fn execute(&self, store: &mut Store, input: &Json) -> (r: Result<String, HarnessError>)
        requires
            old(store).wf(),
        ensures
            final(store).wf(),
            exists|st: StampView| #[trigger]
                old(store)@.gives(st) && (final(store)@, result_view(r)) == contact_run(
                    old(store)@,
                    input@,
                    st,
                ),
    {
        let st = store.stamp();
        self.execute_as(store, input, st)
    }
}

/// The name of the tool that writes reports.
pub const WRITE_REPORT: &'static str = "write_report";

/// What it is for, in words for the model.
pub const WRITE_REPORT_DESCRIPTION: &'static str = "Write the session report (markdown). Call at most once, and only when the session has enough substance to report on.";

/// The schema of its input, as JSON text.
pub const WRITE_REPORT_SCHEMA: &'static str = "{\"type\":\"object\",\"properties\":{\"title\":{\"type\":\"string\",\"minLength\":1},\"body\":{\"type\":\"string\",\"minLength\":1,\"description\":\"markdown\"}},\"required\":[\"title\",\"body\"]}";

/// How it is offered to the model.
pub open spec fn write_report_offer() -> ToolSpecView {
    ToolSpecView {
        name: WRITE_REPORT@,
        description: WRITE_REPORT_DESCRIPTION@,
        input_schema: schema_view(WRITE_REPORT_SCHEMA@),
    }
}

/// Writes a session's reports.
#[derive(Clone, Debug)]
pub struct WriteReportTool {
    session_id: String,
}

impl View for WriteReportTool {
    type V = Seq<char>;

    closed spec fn view(&self) -> Seq<char> {
        self.session_id@
    }
}

/// One run of the tool, for a session.
pub open spec fn report_run(
    v: StoreView,
    session_id: Seq<char>,
    input: JsonView,
    st: StampView,
) -> (StoreView, Result<Seq<char>, HarnessErrorView>) {
    match (required_words(input, "title"@), required_text(input, "body"@)) {
        (Err(e), _) => (v, Err(tool_error(WRITE_REPORT@, e))),
        (Ok(_), Err(e)) => (v, Err(tool_error(WRITE_REPORT@, e))),
        (Ok(title), Ok(body)) => match artifact_added(
            v,
            session_id,
            "report"@,
            title,
            body,
            st,
        ) {
            (w, Ok(_)) => (w, Ok("report written: "@ + title)),
            (w, Err(e)) => (w, Err(tool_error(WRITE_REPORT@, e.message()))),
        },
    }
}

impl WriteReportTool {
    /// The tool for a session.
    pub fn new(session_id: &str) -> (r: WriteReportTool)
        ensures
            r@ == session_id@,
    {
        WriteReportTool { session_id: session_id.to_string() }
    }

    /// The name that the model calls.
    pub fn name(&self) -> (r: &'static str)
        ensures
            r@ == write_report_offer().name,
    {
        WRITE_REPORT
    }

    /// What the tool is for, in words for the model.
    pub fn description(&self) -> (r: &'static str)
        ensures
            r@ == write_report_offer().description,
    {
        WRITE_REPORT_DESCRIPTION
    }

    /// The JSON schema of the input.
    pub fn input_schema(&self) -> (r: Json)
        ensures
            r@ == write_report_offer().input_schema,
    {
        schema_of(WRITE_REPORT_SCHEMA)
    }

    /// Runs the tool under the given id and time.
    pub fn execute_as(&self, store: &mut Store, input: &Json, st: Stamp) -> (r: Result<
        String,
        HarnessError,
    >)
        requires
            old(store).wf(),
        ensures
            final(store).wf(),
            (final(store)@, result_view(r)) == report_run(old(store)@, self@, input@, st@),
    {
        let title = match req_nonempty_str(input, "title") {
            Ok(s) => s,
            Err(e) => {
                return Err(HarnessError::tool(WRITE_REPORT, e));
            },
        };
        let body = match req_str(input, "body") {
            Ok(s) => s,
            Err(e) => {
                return Err(HarnessError::tool(WRITE_REPORT, e));
            },
        };
        match store.add_artifact_as(self.session_id.as_str(), "report", title, body, st) {
            Ok(_) => Ok(concat2("report written: ", title)),
            Err(e) => Err(HarnessError::tool(WRITE_REPORT, e.to_text())),
        }
    }

    /// Runs the tool: writes the report `title` with the given `body`.
    pub fn execute(&self, store: &mut Store, input: &Json) -> (r: Result<String, HarnessError>)
        requires
            old(store).wf(),
        ensures
            final(store).wf(),
            exists|st: StampView| #[trigger]
                old(store)@.gives(st) && (final(store)@, result_view(r)) == report_run(
                    old(store)@,
                    self@,
                    input@,
                    st,
                ),
    {
        let st = store.stamp();
        self.execute_as(store, input, st)
    }
}

} // verus!
