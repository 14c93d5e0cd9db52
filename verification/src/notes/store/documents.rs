//! Document numbers: one sequence per kind of document, each starting at one.

use vstd::prelude::*;
use crate::json::as_value;
use crate::json::field_views;
use crate::json::Json;
use crate::json::json_text;
use crate::json::JsonView;
use crate::json::PARSE_DEPTH;
use crate::json::reads_as;
use crate::notes::domain::Artifact;
use crate::notes::domain::ArtifactView;
use crate::notes::error::CoreError;
use crate::notes::error::CoreErrorView;
use crate::notes::store::artifacts::artifact_added;
use crate::notes::store::SequenceRow;
use crate::notes::store::SequenceRowView;
use crate::notes::store::Stamp;
use crate::notes::store::StampView;
use crate::notes::store::Store;
use crate::notes::store::StoreView;
use crate::notes::store::table::find;
use crate::notes::store::table::insert_row;
use crate::notes::store::table::lemma_replaced;
use crate::text::concat3;
use crate::text::decimal;
use crate::text::decimal_text;
use crate::text::lex_lt;
use crate::text::text_eq;
use crate::text::text_lt;
use crate::views::result_view;

verus! {

/// The last number given out for a kind; zero before the first.
pub open spec fn last_number(v: StoreView, doc_kind: Seq<char>) -> u64 {
    if v.sequences.contains_key(doc_kind) {
        v.sequences[doc_kind].last
    } else {
        0
    }
}

/// The store with the kind's sequence at this number.
pub open spec fn with_number(v: StoreView, doc_kind: Seq<char>, n: u64) -> StoreView {
    StoreView {
        sequences: v.sequences.insert(
            doc_kind,
            SequenceRowView {
                doc_kind,
                last: n,
                device_id: if v.sequences.contains_key(doc_kind) {
                    v.sequences[doc_kind].device_id
                } else {
                    v.device_id
                },
            },
        ),
        ..v
    }
}

/// Taking the next number of a kind. The counter is a signed 64-bit number; at
/// its end nothing more is given out.
pub open spec fn minted(v: StoreView, doc_kind: Seq<char>) -> (
    StoreView,
    Result<u64, CoreErrorView>,
) {
    let last = last_number(v, doc_kind);
    if last >= i64::MAX {
        (v, Err(CoreErrorView::Storage("integer overflow"@)))
    } else {
        (with_number(v, doc_kind, (last + 1) as u64), Ok((last + 1) as u64))
    }
}

/// The fields before a key, in key order.
pub open spec fn fields_before(
    fields: Seq<(Seq<char>, JsonView)>,
    key: Seq<char>,
) -> Seq<(Seq<char>, JsonView)>
    decreases fields.len(),
{
    if fields.len() == 0 || !lex_lt(fields[0].0, key) {
        Seq::empty()
    } else {
        seq![fields[0]] + fields_before(fields.drop_first(), key)
    }
}

/// The payload with the number under `doc_number`: an object gets the field in
/// its place in key order, replacing one that was there; null becomes an object
/// with this one field.
pub open spec fn numbered(payload: JsonView, n: u64) -> JsonView {
    match payload {
        JsonView::Object(f) => JsonView::Object(stamped_fields(f, n)),
        JsonView::Null => JsonView::Object(seq![("doc_number"@, JsonView::Uint(n))]),
        _ => payload,
    }
}

/// A payload that can take a number.
pub open spec fn takes_number(payload: JsonView) -> bool {
    payload is Object || payload is Null
}

/// An object's fields with the number in its place in key order.
pub open spec fn stamped_fields(f: Seq<(Seq<char>, JsonView)>, n: u64) -> Seq<
    (Seq<char>, JsonView),
> {
    let before = fields_before(f, "doc_number"@);
    let rest = f.skip(before.len() as int);
    let after = if rest.len() > 0 && rest[0].0 == "doc_number"@ {
        rest.skip(1)
    } else {
        rest
    };
    before + seq![("doc_number"@, JsonView::Uint(n))] + after
}

/// The title of a numbered document.
pub open spec fn document_title(doc_kind: Seq<char>, n: u64) -> Seq<char> {
    doc_kind + " #"@ + decimal(n as nat)
}

/// Numbering a document and writing its artifact: a number is taken exactly
/// when the artifact lands, and a number that is given is used as it is.
pub open spec fn document_written(
    v: StoreView,
    session_id: Seq<char>,
    doc_kind: Seq<char>,
    existing: Option<u64>,
    payload: JsonView,
    st: StampView,
) -> (StoreView, Result<ArtifactView, CoreErrorView>) {
    let (w, number) = match existing {
        Some(n) => (v, Ok(n)),
        None => minted(v, doc_kind),
    };
    match number {
        Err(e) => (v, Err(e)),
        Ok(n) => {
            let added = artifact_added(
                w,
                session_id,
                "document"@,
                document_title(doc_kind, n),
                json_text(as_value(numbered(payload, n))),
                st,
            );
            match added {
                (u, Ok(a)) => (u, Ok(a)),
                (_, Err(e)) => (v, Err(e)),
            }
        },
    }
}

/// The number that a document gets.
pub open spec fn number_for(v: StoreView, doc_kind: Seq<char>, existing: Option<u64>) -> u64 {
    match existing {
        Some(n) => n,
        None => (last_number(v, doc_kind) + 1) as u64,
    }
}

/// Reading the stored body of a plain payload gives the numbered payload back.
pub open spec fn reads_back(
    body: Seq<char>,
    doc_kind: Seq<char>,
    v: StoreView,
    existing: Option<u64>,
    payload: JsonView,
) -> bool {
    let tree = numbered(payload, number_for(v, doc_kind, existing));
    tree.plain(PARSE_DEPTH as nat) ==> reads_as(body, tree)
}

/// Puts the number into a payload's fields.
fn stamp_number(fields: &mut Vec<(String, Json)>, n: u64)
    ensures
        field_views(final(fields)@) == stamped_fields(
            field_views(old(fields)@),
            n,
        ),
{
    let ghost all = field_views(fields@);
    let mut at: usize = 0;
    assert(all.skip(0) =~= all);
    while at < fields.len() && text_lt(fields[at].0.as_str(), "doc_number")
        invariant
            at <= fields.len(),
            fields@ == old(fields)@,
            all == field_views(fields@),
            fields_before(all, "doc_number"@) == all.take(at as int) + fields_before(
                all.skip(at as int),
                "doc_number"@,
            ),
        decreases fields.len() - at,
    {
        proof {
            assert(all.skip(at as int)[0] == all[at as int]);
            assert(all.skip(at as int).drop_first() =~= all.skip(at + 1));
            assert(all.take(at as int) + (seq![all[at as int]] + fields_before(
                all.skip(at + 1),
                "doc_number"@,
            )) =~= all.take(at + 1) + fields_before(all.skip(at + 1), "doc_number"@));
        }
        at = at + 1;
    }
    proof {
        if at < fields.len() {
            assert(all.skip(at as int)[0] == all[at as int]);
        }
        assert(fields_before(all, "doc_number"@) =~= all.take(at as int));
    }
    if at < fields.len() && text_eq(fields[at].0.as_str(), "doc_number") {
        fields.remove(at);
    }
    fields.insert(at, ("doc_number".to_string(), Json::Uint(n)));
    assert(field_views(fields@) =~= stamped_fields(all, n));
}

impl Store {
    /// Takes the next number of a kind.
    pub(crate) fn bump_document_sequence(&mut self, doc_kind: &str) -> (r: Result<u64, CoreError>)
        requires
            old(self).wf(),
        ensures
            final(self).wf(),
            (final(self)@, number_result(r)) == minted(old(self)@, doc_kind@),
    {
        match find(&self.sequences, doc_kind) {
            Some(i) => {
                let last = self.sequences[i].last;
                if last >= 0x7fff_ffff_ffff_ffff {
                    return Err(CoreError::Storage("integer overflow".to_string()));
                }
                let ghost before = self.sequences@;
                let row = &mut self.sequences[i];
                row.last = last + 1;
                proof {
                    lemma_replaced(before, i as int, self.sequences@[i as int]);
                }
                Ok(last + 1)
            },
            None => {
                let row = SequenceRow {
                    doc_kind: doc_kind.to_string(),
                    last: 1,
                    device_id: self.device_id.clone(),
                };
                insert_row(&mut self.sequences, row);
                Ok(1)
            },
        }
    }

    /// The next document number of a kind: one, two, three, and so on, each
    /// kind for itself.
    pub fn mint_document_number(&mut self, doc_kind: &str) -> (r: Result<u64, CoreError>)
        requires
            old(self).wf(),
        ensures
            final(self).wf(),
            (final(self)@, number_result(r)) == minted(old(self)@, doc_kind@),
    {
        self.bump_document_sequence(doc_kind)
    }

    /// Numbers a document and writes its artifact in one step. The payload
    /// comes without a number, which is put into it here, so that the stored
    /// body and the sequence never disagree.
    pub fn mint_document_number_and_add_artifact(
        &mut self,
        session_id: &str,
        doc_kind: &str,
        existing_number: Option<u64>,
        payload: Json,
    ) -> (r: Result<Artifact, CoreError>)
        requires
            old(self).wf(),
            takes_number(payload@),
        ensures
            final(self).wf(),
            exists|st: StampView| #[trigger]
                old(self)@.gives(st) && (final(self)@, result_view(r))
                    == document_written(
                    old(self)@,
                    session_id@,
                    doc_kind@,
                    existing_number,
                    payload@,
                    st,
                ),
            r matches Ok(a) ==> reads_back(a.body@, doc_kind@, old(self)@, existing_number, payload@),
    {
        let st = self.stamp();
        self.write_document_as(session_id, doc_kind, existing_number, payload, st)
    }

    /// The same, under the given id and time.
    pub fn write_document_as(
        &mut self,
        session_id: &str,
        doc_kind: &str,
        existing_number: Option<u64>,
        payload: Json,
        st: Stamp,
    ) -> (r: Result<Artifact, CoreError>)
        requires
            old(self).wf(),
            takes_number(payload@),
        ensures
            final(self).wf(),
            (final(self)@, result_view(r)) == document_written(
                old(self)@,
                session_id@,
                doc_kind@,
                existing_number,
                payload@,
                st@,
            ),
            r matches Ok(a) ==> reads_back(a.body@, doc_kind@, old(self)@, existing_number, payload@),
    {
        let number: u64 = match existing_number {
            Some(n) => n,
            None => {
                let last: u64 = match find(&self.sequences, doc_kind) {
                    Some(i) => self.sequences[i].last,
                    None => 0,
                };
                if last >= 0x7fff_ffff_ffff_ffff {
                    return Err(CoreError::Storage("integer overflow".to_string()));
                }
                last + 1
            },
        };
        let body = stamped_payload(payload, number).render();
        let title = concat3(doc_kind, " #", decimal_text(number).as_str());
        let added = self.add_artifact_as(session_id, "document", title.as_str(), body.as_str(), st);
        match added {
            Ok(artifact) => {
                if existing_number.is_none() {
                    match self.bump_document_sequence(doc_kind) {
                        Ok(_) => {},
                        Err(e) => {
                            return Err(e);
                        },
                    }
                }
                Ok(artifact)
            },
            Err(e) => Err(e),
        }
    }
}

/// The payload with its number.
fn stamped_payload(payload: Json, n: u64) -> (r: Json)
    ensures
        r@ == numbered(payload@, n),
{
    proof {
        payload.lemma_fields();
    }
    match payload {
        Json::Object(f) => {
            let mut fields = f;
            stamp_number(&mut fields, n);
            let r = Json::Object(fields);
            proof {
                r.lemma_fields();
            }
            r
        },
        Json::Null => {
            let mut fields: Vec<(String, Json)> = Vec::new();
            fields.push(("doc_number".to_string(), Json::Uint(n)));
            let r = Json::Object(fields);
            proof {
                r.lemma_fields();
                assert(field_views(fields@) =~= seq![
                    ("doc_number"@, JsonView::Uint(n)),
                ]);
            }
            r
        },
        other => other,
    }
}

/// The outcome of taking a number.
pub open spec fn number_result(r: Result<u64, CoreError>) -> Result<u64, CoreErrorView> {
    match r {
        Ok(n) => Ok(n),
        Err(e) => Err(e@),
    }
}

} // verus!
