//! What holds of the decoders, proved from their rules.

use vstd::prelude::*;
use crate::error::{outcome, DecodeError, DecodeErrorView, ErrorKind, StepView};
use crate::document::{
    lemma_absent_member, occurrences, detach, lemma_detach_kind, lemma_detach_member, lemma_detach_members, member, Json, JsonView,
    Members,
};
use crate::decode::{
    lemma_elements_content, optional_field, pair_of, required_field, Decode, Profile,
};
use crate::reader::parsed;
use crate::index::{
    distinct_names, header_index_of, lemma_header_index_content, lemma_variable_index_content, optional_header_index_field,
    required_variable_index_field, variable_index_of, HeaderEntries, VariableEntries,
};
use crate::http::{Headers, HeadersView};
use crate::log::{Log, LogView, RawLog, RawLogView};
use crate::record::{
    record_of, tagged_kind, tagged_record, untagged_record, ClientRequest, Encoding,
    HttpAccessRecord, HttpAccessRecordView, PipeSession, RecordKind,
};

verus! {

/// Decoding is a function of the text: whatever two runs of the reader
/// return for one text, and whatever two runs of the decoder return for the
/// documents that the reader gave, the two results have the same value.
pub proof fn lemma_decoding_is_deterministic(
    text: Seq<char>,
    encoding: Encoding,
    profile: Profile,
    first_document: Json,
    second_document: Json,
    first: Result<HttpAccessRecord, DecodeError>,
    second: Result<HttpAccessRecord, DecodeError>,
)
    requires
        parsed(text) == Ok::<JsonView, DecodeErrorView>(first_document.deep_view()),
        parsed(text) == Ok::<JsonView, DecodeErrorView>(second_document.deep_view()),
        outcome(first) == record_of(first_document.deep_view(), encoding, profile),
        outcome(second) == record_of(second_document.deep_view(), encoding, profile),
    ensures
        first_document.deep_view() == second_document.deep_view(),
        outcome(first) == outcome(second),
{
}

/// A document that both encodings accept holds the same payload under both:
/// what the tagged encoding gives as a client request or as an ESI
/// subrequest, the untagged encoding gives as a client request with the same
/// content.
pub proof fn lemma_encodings_agree_on_client_requests(v: JsonView, profile: Profile)
    requires
        record_of(v, Encoding::Tagged, profile) is Ok,
        record_of(v, Encoding::Untagged, profile) is Ok,
        !(record_of(v, Encoding::Tagged, profile)->Ok_0 is PipeSession),
    ensures
        match record_of(v, Encoding::Tagged, profile)->Ok_0 {
            HttpAccessRecordView::ClientRequest(c) => record_of(v, Encoding::Untagged, profile) == Ok::<
                HttpAccessRecordView,
                DecodeErrorView,
            >(HttpAccessRecordView::ClientRequest(c)),
            HttpAccessRecordView::EsiSubrequest(c) => record_of(v, Encoding::Untagged, profile) == Ok::<
                HttpAccessRecordView,
                DecodeErrorView,
            >(HttpAccessRecordView::ClientRequest(c)),
            HttpAccessRecordView::PipeSession(_) => false,
        },
{
}

/// A document that the tagged encoding gives as a pipe session, and that
/// cannot be bound as a client request, is the same pipe session in the
/// untagged encoding.
pub proof fn lemma_encodings_agree_on_pipe_sessions(v: JsonView, profile: Profile)
    requires
        record_of(v, Encoding::Tagged, profile) is Ok,
        record_of(v, Encoding::Tagged, profile)->Ok_0 is PipeSession,
        ClientRequest::decoded(v, profile) is Err,
    ensures
        record_of(v, Encoding::Untagged, profile) == record_of(v, Encoding::Tagged, profile),
{
}

/// Without a tag the kind of a record is settled by what the document can be
/// bound as, the client request first: a document that can be bound as a
/// client request is never a pipe session, one that can only be bound as a
/// pipe session is never a client request, and one that can be bound as
/// neither is no record.
pub proof fn lemma_untagged_kind(v: JsonView, profile: Profile)
    ensures
        ClientRequest::decoded(v, profile) matches Ok(c) ==> untagged_record(v, profile) == Ok::<
            HttpAccessRecordView,
            DecodeErrorView,
        >(HttpAccessRecordView::ClientRequest(c)),
        ClientRequest::decoded(v, profile) is Err ==> (PipeSession::decoded(v, profile) matches Ok(p)
            ==> untagged_record(v, profile) == Ok::<HttpAccessRecordView, DecodeErrorView>(
            HttpAccessRecordView::PipeSession(p),
        )),
        ClientRequest::decoded(v, profile) is Err && PipeSession::decoded(v, profile) is Err
            ==> untagged_record(v, profile) == Err::<HttpAccessRecordView, DecodeErrorView>(
            DecodeErrorView::here(ErrorKind::UnrecognizedVariant),
        ),
{
}

/// The members that mark a kind: a document without `handling` is no client
/// request, and one without `backend_request` is no pipe session, in either
/// encoding.
pub proof fn lemma_marking_members(v: JsonView, encoding: Encoding, profile: Profile)
    ensures
        v matches JsonView::Object(m) && member(m, "handling"@) is None ==> !(record_of(v, encoding, profile) matches Ok(
            r,
        ) && (r is ClientRequest || r is EsiSubrequest)),
        v matches JsonView::Object(m) && member(m, "backend_request"@) is None ==> !(record_of(
            v,
            encoding,
            profile,
        ) matches Ok(r) && r is PipeSession),
        !(v is Object) ==> record_of(v, encoding, profile) is Err,
{
    reveal(required_field);
    if let JsonView::Object(m) = v {
        lemma_absent_member(m, "handling"@);
        lemma_absent_member(m, "backend_request"@);
    }
}

/// With a tag the kind of a record is the one that the tag names.
pub proof fn lemma_tagged_kind(v: JsonView, profile: Profile)
    requires
        tagged_record(v, profile) is Ok,
    ensures
        match tagged_record(v, profile)->Ok_0 {
            HttpAccessRecordView::ClientRequest(_) => tagged_kind(v) == Ok::<RecordKind, DecodeErrorView>(
                RecordKind::ClientRequest,
            ),
            HttpAccessRecordView::EsiSubrequest(_) => tagged_kind(v) == Ok::<RecordKind, DecodeErrorView>(
                RecordKind::EsiSubrequest,
            ),
            HttpAccessRecordView::PipeSession(_) => tagged_kind(v) == Ok::<RecordKind, DecodeErrorView>(
                RecordKind::PipeSession,
            ),
        },
{
}

/// The shape of a value settles the shape of the headers: an object never
/// gives raw headers, an array never gives indexed ones, and a value that is
/// neither is refused.
pub proof fn lemma_headers_shape(v: JsonView, profile: Profile)
    ensures
        v is Object ==> !(Headers::decoded(v, profile) matches Ok(h) && h is Raw),
        v is Array ==> !(Headers::decoded(v, profile) matches Ok(h) && h is Indexed),
        !(v is Object) && !(v is Array) ==> Headers::decoded(v, profile) == Err::<HeadersView, DecodeErrorView>(
            DecodeErrorView::here(ErrorKind::UnrecognizedVariant),
        ),
{
}

/// The shape of a value settles the shape of the log: an object never gives
/// a raw log, an array never gives an indexed one, and a value that is
/// neither is refused.
pub proof fn lemma_log_shape(v: JsonView, profile: Profile)
    ensures
        v is Object ==> !(Log::decoded(v, profile) matches Ok(l) && l is Raw),
        v is Array ==> !(Log::decoded(v, profile) matches Ok(l) && l is Indexed),
        !(v is Object) && !(v is Array) ==> Log::decoded(v, profile) == Err::<LogView, DecodeErrorView>(
            DecodeErrorView::here(ErrorKind::UnrecognizedVariant),
        ),
{
}

/// A field that may be left out, and is, is not present: no value is made up
/// for it.
pub proof fn lemma_absent_field_is_not_present<'t, T: Decode<'t>>(
    m: Members,
    name: Seq<char>,
    profile: Profile,
)
    requires
        member(m, name) is None,
    ensures
        optional_field::<T>(m, name, profile) == Ok::<Option<T::V>, DecodeErrorView>(None),
        optional_header_index_field(m, name, profile) == Ok::<Option<HeaderEntries>, DecodeErrorView>(None),
        required_field::<T>(m, name, profile) == Err::<T::V, DecodeErrorView>(DecodeErrorView::missing(name)),
{
    reveal(optional_field);
    reveal(required_field);
    reveal(optional_header_index_field);
    lemma_absent_member(m, name);
}

/// A field that may be left out, and is there once with a value other than
/// `null`, is present whenever the record decodes: it holds what the value is
/// bound to.
pub proof fn lemma_given_field_is_present<'t, T: Decode<'t>>(
    m: Members,
    name: Seq<char>,
    profile: Profile,
)
    requires
        occurrences(m, name) == 1,
        member(m, name) != Some(JsonView::Null),
    ensures
        member(m, name) is Some,
        match T::decoded(member(m, name)->Some_0, profile) {
            Ok(x) => optional_field::<T>(m, name, profile) == Ok::<Option<T::V>, DecodeErrorView>(Some(x)),
            Err(e) => optional_field::<T>(m, name, profile) is Err,
        },
{
    reveal(optional_field);
    lemma_absent_member(m, name);
}

/// A field whose name occurs more than once is refused, whatever the
/// members of that name hold.
pub proof fn lemma_repeated_field_is_refused<'t, T: Decode<'t>>(
    m: Members,
    name: Seq<char>,
    profile: Profile,
)
    requires
        occurrences(m, name) > 1,
    ensures
        required_field::<T>(m, name, profile) == Err::<T::V, DecodeErrorView>(
            DecodeErrorView::here(ErrorKind::SchemaMismatch).within(StepView::Field(name)),
        ),
        optional_field::<T>(m, name, profile) == Err::<Option<T::V>, DecodeErrorView>(
            DecodeErrorView::here(ErrorKind::SchemaMismatch).within(StepView::Field(name)),
        ),
{
    reveal(required_field);
    reveal(optional_field);
}

/// A header index that is there and empty is present and empty, which is not
/// the same as absent.
pub proof fn lemma_empty_index_is_present(m: Members, name: Seq<char>, profile: Profile)
    requires
        occurrences(m, name) == 1,
        member(m, name) == Some(JsonView::Object(Seq::empty())),
    ensures
        optional_header_index_field(m, name, profile) == Ok::<Option<HeaderEntries>, DecodeErrorView>(
            Some(Seq::empty()),
        ),
        Headers::decoded(JsonView::Object(Seq::empty()), profile) == Ok::<HeadersView, DecodeErrorView>(
            HeadersView::Indexed(Seq::empty()),
        ),
        Headers::decoded(JsonView::Array(Seq::empty()), profile) == Ok::<HeadersView, DecodeErrorView>(
            HeadersView::Raw(Seq::empty()),
        ),
{
    reveal(optional_header_index_field);
}

/// A detached document holds the same record: in the copying profile, and in
/// either encoding, decoding the copy that owns all its text gives what
/// decoding the document gives.
pub proof fn lemma_detached_document_holds_the_same_record(v: JsonView, encoding: Encoding)
    ensures
        record_of(detach(v), encoding, Profile::Copying) == record_of(v, encoding, Profile::Copying),
{
    lemma_detach_kind(v);
    ClientRequest::lemma_detached(v);
    PipeSession::lemma_detached(v);
    if let JsonView::Object(m) = v {
        lemma_detach_members(m);
        lemma_detach_member(m, "record_type"@);
        if let Some(tag) = member(m, "record_type"@) {
            lemma_detach_kind(tag);
        }
    }
}

/// `out` holds the strings of the array `v`, one for one and in order.
pub open spec fn holds_strings(v: JsonView, out: Seq<Seq<char>>) -> bool {
    v matches JsonView::Array(items) && {
        &&& out.len() == items.len()
        &&& forall|k: int|
            0 <= k < items.len() ==> ((#[trigger] items[k]) matches JsonView::Text(t) && t.chars == out[k])
    }
}

/// A sequence of strings of a record holds the strings of the
/// array it was bound from, one for one and in order, repeats included.
pub proof fn lemma_strings_content(v: JsonView, profile: Profile)
    requires
        <Vec<&str>>::decoded(v, profile) is Ok,
    ensures
        holds_strings(v, <Vec<&str>>::decoded(v, profile)->Ok_0),
{
    lemma_elements_content::<&str>(v->Array_0, profile);
}

/// Indexed headers hold what the object says: where no name comes twice,
/// there is one entry for each member, in the order of the members and not
/// sorted, with the member's name and the strings of its array in order.
pub proof fn lemma_indexed_headers_content(m: Members, profile: Profile)
    requires
        distinct_names(m),
        Headers::decoded(JsonView::Object(m), profile) is Ok,
    ensures
        Headers::decoded(JsonView::Object(m), profile)->Ok_0 matches HeadersView::Indexed(entries) && {
            &&& entries.len() == m.len()
            &&& forall|i: int|
                0 <= i < m.len() ==> (#[trigger] entries[i]).0 == m[i].0.chars && holds_strings(
                    m[i].1,
                    entries[i].1,
                )
        },
{
    lemma_header_index_content(m, profile);
    let entries = header_index_of(m, profile)->Ok_0;
    assert(Headers::decoded(JsonView::Object(m), profile) == Ok::<HeadersView, DecodeErrorView>(
        HeadersView::Indexed(entries),
    ));
    assert forall|i: int| 0 <= i < m.len() implies holds_strings(m[i].1, (#[trigger] entries[i]).1) by {
        assert(entries[i].0 == m[i].0.chars);
        lemma_strings_content(m[i].1, profile);
    }
}

/// Raw headers hold what the array says: one pair for each element, in
/// order and with repeated names kept apart, each bound from an array of two
/// strings.
pub proof fn lemma_raw_headers_content(items: Seq<JsonView>, profile: Profile)
    requires
        Headers::decoded(JsonView::Array(items), profile) is Ok,
    ensures
        Headers::decoded(JsonView::Array(items), profile)->Ok_0 matches HeadersView::Raw(pairs) && {
            &&& pairs.len() == items.len()
            &&& forall|i: int|
                0 <= i < items.len() ==> pair_of::<&str, &str>(#[trigger] items[i], profile) == Ok::<
                    (Seq<char>, Seq<char>),
                    DecodeErrorView,
                >(pairs[i])
        },
{
    lemma_elements_content::<(&str, &str)>(items, profile);
}

/// An indexed log holds what the object says: its three lists hold the
/// strings of the arrays `messages`, `acl_matched` and `acl_not_matched`, one
/// for one and in order; and where no variable comes twice, `vars` holds one
/// entry for each member of the object `vars`, in order, with its name and
/// its string.
pub proof fn lemma_indexed_log_content(m: Members, profile: Profile)
    requires
        Log::decoded(JsonView::Object(m), profile) is Ok,
    ensures
        Log::decoded(JsonView::Object(m), profile)->Ok_0 matches LogView::Indexed(log) && {
            &&& (member(m, "messages"@) matches Some(v) && holds_strings(v, log.messages))
            &&& (member(m, "acl_matched"@) matches Some(v) && holds_strings(v, log.acl_matched))
            &&& (member(m, "acl_not_matched"@) matches Some(v) && holds_strings(v, log.acl_not_matched))
            &&& member(m, "vars"@) matches Some(JsonView::Object(vars)) && (distinct_names(vars) ==> {
                &&& log.vars.len() == vars.len()
                &&& forall|i: int|
                    0 <= i < vars.len() ==> (#[trigger] log.vars[i]).0 == vars[i].0.chars && (
                    vars[i].1 matches JsonView::Text(t) && t.chars == log.vars[i].1)
            })
        },
{
    reveal(required_field);
    reveal(required_variable_index_field);
    lemma_strings_content(member(m, "messages"@)->Some_0, profile);
    lemma_strings_content(member(m, "acl_matched"@)->Some_0, profile);
    lemma_strings_content(member(m, "acl_not_matched"@)->Some_0, profile);
    let log = Log::decoded(JsonView::Object(m), profile)->Ok_0->Indexed_0;
    assert(holds_strings(member(m, "messages"@)->Some_0, log.messages));
    assert(holds_strings(member(m, "acl_matched"@)->Some_0, log.acl_matched));
    assert(holds_strings(member(m, "acl_not_matched"@)->Some_0, log.acl_not_matched));
    let vars = member(m, "vars"@)->Some_0->Object_0;
    assert(member(m, "vars"@) == Some(JsonView::Object(vars)));
    assert(variable_index_of(vars, profile) == Ok::<VariableEntries, DecodeErrorView>(log.vars));
    if distinct_names(vars) {
        lemma_variable_index_content(vars, profile);
        assert forall|i: int| 0 <= i < vars.len() implies (#[trigger] log.vars[i]).0 == vars[i].0.chars && (
        vars[i].1 matches JsonView::Text(t) && t.chars == log.vars[i].1) by {
            assert(variable_index_of(vars, profile)->Ok_0[i].0 == vars[i].0.chars);
        }
    }
}

/// A raw log holds what the array says: one entry for each element, in
/// order, repeats included.
pub proof fn lemma_raw_log_content(items: Seq<JsonView>, profile: Profile)
    requires
        Log::decoded(JsonView::Array(items), profile) is Ok,
    ensures
        Log::decoded(JsonView::Array(items), profile)->Ok_0 matches LogView::Raw(entries) && {
            &&& entries.len() == items.len()
            &&& forall|i: int|
                0 <= i < items.len() ==> RawLog::decoded(#[trigger] items[i], profile) == Ok::<
                    RawLogView,
                    DecodeErrorView,
                >(entries[i])
        },
{
    lemma_elements_content::<RawLog>(items, profile);
}

} // verus!
