//! What a transaction logged on its way.

use vstd::prelude::*;
use crate::error::{DecodeError, DecodeErrorView, ErrorKind};
use crate::document::{lemma_detach_kind, lemma_detach_members, Json, JsonView};
use crate::decode::{
    lemma_optional_detached, lemma_required_detached, members_of, optional, optional_field, required, required_field,
    Decode, Profile,
};
use crate::index::{
    lemma_required_variable_index_detached, required_variable_index, required_variable_index_field, variable_entries,
    LogVarsIndex, VariableEntries,
};

verus! {

/// One entry of a log in the raw shape.
#[derive(Debug)]
pub struct RawLog<'i> {
    /// The kind of the entry.
    pub entry_type: &'i str,
    pub message: &'i str,
    pub detail: Option<&'i str>,
}

/// The mathematical value of [`RawLog`].
pub struct RawLogView {
    pub entry_type: Seq<char>,
    pub message: Seq<char>,
    pub detail: Option<Seq<char>>,
}

impl<'i> DeepView for RawLog<'i> {
    type V = RawLogView;

    open spec fn deep_view(&self) -> RawLogView {
        RawLogView {
            entry_type: self.entry_type@,
            message: self.message@,
            detail: self.detail.deep_view(),
        }
    }
}

impl<'t> Decode<'t> for RawLog<'t> {
    open spec fn decoded(v: JsonView, profile: Profile) -> Result<RawLogView, DecodeErrorView> {
        match v {
            JsonView::Object(m) => {
                let entry_type = required_field::<&str>(m, "entry_type"@, profile);
                let message = required_field::<&str>(m, "message"@, profile);
                let detail = optional_field::<&str>(m, "detail"@, profile);
                if entry_type is Err {
                    Err(entry_type->Err_0)
                } else if message is Err {
                    Err(message->Err_0)
                } else if detail is Err {
                    Err(detail->Err_0)
                } else {
                    Ok(
                        RawLogView {
                            entry_type: entry_type->Ok_0,
                            message: message->Ok_0,
                            detail: detail->Ok_0,
                        },
                    )
                }
            },
            _ => Err(DecodeErrorView::here(ErrorKind::SchemaMismatch)),
        }
    }

    fn decode(v: &'t Json<'t>, profile: Profile) -> (r: Result<Self, DecodeError>) {
        let m = members_of(v)?;
        let entry_type = required::<&'t str>(m, "entry_type", profile)?;
        let message = required::<&'t str>(m, "message", profile)?;
        let detail = optional::<&'t str>(m, "detail", profile)?;
        Ok(RawLog { entry_type, message, detail })
    }

    proof fn lemma_detached(v: JsonView) {
        lemma_detach_kind(v);
        if let JsonView::Object(m) = v {
            lemma_detach_members(m);
            lemma_required_detached::<&str>(m, "entry_type"@);
            lemma_required_detached::<&str>(m, "message"@);
            lemma_optional_detached::<&str>(m, "detail"@);
        }
    }
}

/// A log in the indexed shape: what was logged, sorted by kind.
#[derive(Debug)]
pub struct IndexedLog<'i> {
    /// The variables that were set, by name.
    pub vars: LogVarsIndex<'i>,
    /// The free-text messages, in order.
    pub messages: Vec<&'i str>,
    /// The access control lists that matched.
    pub acl_matched: Vec<&'i str>,
    /// The access control lists that were tried and did not match.
    pub acl_not_matched: Vec<&'i str>,
}

/// The mathematical value of [`IndexedLog`].
pub struct IndexedLogView {
    pub vars: VariableEntries,
    pub messages: Seq<Seq<char>>,
    pub acl_matched: Seq<Seq<char>>,
    pub acl_not_matched: Seq<Seq<char>>,
}

impl<'i> DeepView for IndexedLog<'i> {
    type V = IndexedLogView;

    open spec fn deep_view(&self) -> IndexedLogView {
        IndexedLogView {
            vars: variable_entries(self.vars),
            messages: self.messages.deep_view(),
            acl_matched: self.acl_matched.deep_view(),
            acl_not_matched: self.acl_not_matched.deep_view(),
        }
    }
}

impl<'t> Decode<'t> for IndexedLog<'t> {
    open spec fn decoded(v: JsonView, profile: Profile) -> Result<IndexedLogView, DecodeErrorView> {
        match v {
            JsonView::Object(m) => {
                let vars = required_variable_index_field(m, "vars"@, profile);
                let messages = required_field::<Vec<&str>>(m, "messages"@, profile);
                let acl_matched = required_field::<Vec<&str>>(m, "acl_matched"@, profile);
                let acl_not_matched = required_field::<Vec<&str>>(m, "acl_not_matched"@, profile);
                if vars is Err {
                    Err(vars->Err_0)
                } else if messages is Err {
                    Err(messages->Err_0)
                } else if acl_matched is Err {
                    Err(acl_matched->Err_0)
                } else if acl_not_matched is Err {
                    Err(acl_not_matched->Err_0)
                } else {
                    Ok(
                        IndexedLogView {
                            vars: vars->Ok_0,
                            messages: messages->Ok_0,
                            acl_matched: acl_matched->Ok_0,
                            acl_not_matched: acl_not_matched->Ok_0,
                        },
                    )
                }
            },
            _ => Err(DecodeErrorView::here(ErrorKind::SchemaMismatch)),
        }
    }

    fn decode(v: &'t Json<'t>, profile: Profile) -> (r: Result<Self, DecodeError>) {
        let m = members_of(v)?;
        let vars = required_variable_index(m, "vars", profile)?;
        let messages = required::<Vec<&'t str>>(m, "messages", profile)?;
        let acl_matched = required::<Vec<&'t str>>(m, "acl_matched", profile)?;
        let acl_not_matched = required::<Vec<&'t str>>(m, "acl_not_matched", profile)?;
        Ok(IndexedLog { vars, messages, acl_matched, acl_not_matched })
    }

    proof fn lemma_detached(v: JsonView) {
        lemma_detach_kind(v);
        if let JsonView::Object(m) = v {
            lemma_detach_members(m);
            lemma_required_variable_index_detached(m, "vars"@);
            lemma_required_detached::<Vec<&str>>(m, "messages"@);
            lemma_required_detached::<Vec<&str>>(m, "acl_matched"@);
            lemma_required_detached::<Vec<&str>>(m, "acl_not_matched"@);
        }
    }
}

/// The log of a transaction, in one of two shapes. Which one a value has is
/// settled when it is decoded: a JSON array gives `Raw`, a JSON object gives
/// `Indexed`.
#[derive(Debug)]
pub enum Log<'i> {
    /// The entries in the order in which they were logged, repeats kept.
    Raw(Vec<RawLog<'i>>),
    /// The entries sorted by kind.
    Indexed(IndexedLog<'i>),
}

/// The mathematical value of [`Log`].
pub enum LogView {
    Raw(Seq<RawLogView>),
    Indexed(IndexedLogView),
}

impl<'i> DeepView for Log<'i> {
    type V = LogView;

    open spec fn deep_view(&self) -> LogView {
        match self {
            Log::Raw(entries) => LogView::Raw(entries.deep_view()),
            Log::Indexed(log) => LogView::Indexed(log.deep_view()),
        }
    }
}

impl<'i> Log<'i> {
    /// The entries, if the log is in the raw shape.
    pub fn as_raw(&self) -> (r: Option<&Vec<RawLog<'i>>>)
        ensures
            match self {
                Log::Raw(entries) => r == Some(entries),
                Log::Indexed(_) => r is None,
            },
    {
        if let Log::Raw(v) = self {
            Some(v)
        } else {
            None
        }
    }

    /// The indexed log, if the log is in the indexed shape.
    pub fn as_indexed(&self) -> (r: Option<&IndexedLog<'i>>)
        ensures
            match self {
                Log::Indexed(log) => r == Some(log),
                Log::Raw(_) => r is None,
            },
    {
        if let Log::Indexed(v) = self {
            Some(v)
        } else {
            None
        }
    }
}

/// The shape decides: an array is bound as raw entries, an object as an
/// indexed log, and nothing else is a log.
impl<'t> Decode<'t> for Log<'t> {
    open spec fn decoded(v: JsonView, profile: Profile) -> Result<LogView, DecodeErrorView> {
        match v {
            JsonView::Array(_) => match <Vec<RawLog>>::decoded(v, profile) {
                Ok(entries) => Ok(LogView::Raw(entries)),
                Err(e) => Err(e),
            },
            JsonView::Object(_) => match IndexedLog::decoded(v, profile) {
                Ok(log) => Ok(LogView::Indexed(log)),
                Err(e) => Err(e),
            },
            _ => Err(DecodeErrorView::here(ErrorKind::UnrecognizedVariant)),
        }
    }

    fn decode(v: &'t Json<'t>, profile: Profile) -> (r: Result<Self, DecodeError>) {
        match v {
            Json::Array(_) => match <Vec<RawLog<'t>>>::decode(v, profile) {
                Ok(entries) => Ok(Log::Raw(entries)),
                Err(e) => Err(e),
            },
            Json::Object(_) => match IndexedLog::decode(v, profile) {
                Ok(log) => Ok(Log::Indexed(log)),
                Err(e) => Err(e),
            },
            _ => Err(DecodeError::here(ErrorKind::UnrecognizedVariant)),
        }
    }

    proof fn lemma_detached(v: JsonView) {
        lemma_detach_kind(v);
        <Vec<RawLog>>::lemma_detached(v);
        IndexedLog::lemma_detached(v);
    }
}

} // verus!
