//! The error type of every Tendril operation, with the structured category,
//! code and details that machine-readable output reports.
use vstd::prelude::*;

use crate::envelope::ErrorCategory;
use crate::text::owned;

verus! {

/// A value attached to an error under a detail key.
#[derive(Debug, Clone, PartialEq, Eq)]
pub enum DetailValue {
    Text(String),
    Number(u64),
    Flag(bool),
    Null,
    /// A list of texts.
    Texts(Vec<String>),
    /// The execution-lock report of a command that waited for the lock.
    LockReport(crate::execution_lock::ExecutionLockReport),
    /// The command that held the execution lock.
    LockHolder(crate::execution_lock::LockHolder),
}

/// One `key: value` entry of an error's details.
#[derive(Debug, Clone, PartialEq, Eq)]
pub struct Detail {
    pub key: String,
    pub value: DetailValue,
}

/// The value stored under `key`: the entry added last wins.
pub open spec fn detail_lookup(details: Seq<Detail>, key: Seq<char>) -> Option<DetailValue>
    decreases details.len(),
{
    if details.len() == 0 {
        None
    } else if details.last().key@ == key {
        Some(details.last().value)
    } else {
        detail_lookup(details.drop_last(), key)
    }
}

/// `d` is a text detail holding `s`.
pub open spec fn is_text_detail(d: Option<DetailValue>, s: Seq<char>) -> bool {
    d matches Some(DetailValue::Text(t)) && t@ == s
}

/// `e` is a structured validation failure with the given code, message and field.
pub open spec fn is_invalid(e: TendrilError, code: Seq<char>, field: Seq<char>, message: Seq<char>) -> bool {
    &&& e.is_structured()
    &&& e.category_spec() == ErrorCategory::Validation
    &&& e.code_spec() == code
    &&& e.message_spec() == message
    &&& is_text_detail(e.detail_spec("field"@), field)
}

/// A failure reported by (or on behalf of) the platform adapter.
#[derive(Debug, Clone, PartialEq, Eq)]
pub struct PlatformAdapterError {
    pub category: ErrorCategory,
    pub code: String,
    pub message: String,
    pub details: Vec<Detail>,
}

impl PlatformAdapterError {
    /// A failure with no details.
    pub fn new(category: ErrorCategory, code: &str, message: String) -> (e: Self)
        ensures
            e.category == category,
            e.code@ == code@,
            e.message@ == message@,
            e.details@.len() == 0,
    {
        PlatformAdapterError { category, code: owned(code), message, details: Vec::new() }
    }

    pub fn category(&self) -> (c: ErrorCategory)
        ensures
            c == self.category,
    {
        self.category
    }
}

#[derive(Debug, Clone, PartialEq, Eq)]
pub enum TendrilError {
    NotImplemented { command: &'static str },
    Config { message: String },
    Adapter(PlatformAdapterError),
}

impl TendrilError {
    /// The category reported for this error.
    pub open spec fn category_spec(&self) -> ErrorCategory {
        match self {
            TendrilError::NotImplemented { .. } => ErrorCategory::UnsupportedCapability,
            TendrilError::Config { .. } => ErrorCategory::ConfigError,
            TendrilError::Adapter(e) => e.category,
        }
    }

    /// The stable machine-readable code of this error.
    pub open spec fn code_spec(&self) -> Seq<char> {
        match self {
            TendrilError::NotImplemented { .. } => "not_implemented"@,
            TendrilError::Config { .. } => "config_error"@,
            TendrilError::Adapter(e) => e.code@,
        }
    }

    /// The detail stored under `key`, if any.
    pub open spec fn detail_spec(&self, key: Seq<char>) -> Option<DetailValue> {
        match self {
            TendrilError::Adapter(e) => detail_lookup(e.details@, key),
            _ => None,
        }
    }

    /// Whether the error is the structured kind that carries a code and details.
    pub open spec fn is_structured(&self) -> bool {
        self is Adapter
    }

    #[must_use]
    pub fn not_implemented(command: &'static str) -> (e: Self)
        ensures
            e == (TendrilError::NotImplemented { command }),
    {
        TendrilError::NotImplemented { command }
    }

    #[must_use]
    pub fn category(&self) -> (c: ErrorCategory)
        ensures
            c == self.category_spec(),
    {
        match self {
            TendrilError::NotImplemented { .. } => ErrorCategory::UnsupportedCapability,
            TendrilError::Config { .. } => ErrorCategory::ConfigError,
            TendrilError::Adapter(e) => e.category(),
        }
    }

    /// A structured error with the given category, code and message.
    pub fn structured(category: ErrorCategory, code: &str, message: String) -> (e: Self)
        ensures
            e.is_structured(),
            e.category_spec() == category,
            e.code_spec() == code@,
            e.message_spec() == message@,
            forall|k: Seq<char>| e.detail_spec(k) is None,
    {
        TendrilError::Adapter(PlatformAdapterError::new(category, code, message))
    }

    /// The human-readable message of this error.
    pub open spec fn message_spec(&self) -> Seq<char> {
        match self {
            TendrilError::NotImplemented { command } => "The `"@ + command@ + "` command is scaffolded but not implemented yet"@,
            TendrilError::Config { message } => "Configuration error: "@ + message@,
            TendrilError::Adapter(e) => e.message@,
        }
    }

    /// An input failed validation.
    pub fn validation(message: String) -> (e: Self)
        ensures
            e.is_structured(),
            e.category_spec() == ErrorCategory::Validation,
            e.code_spec() == "validation_failed"@,
            e.message_spec() == message@,
            forall|k: Seq<char>| e.detail_spec(k) is None,
    {
        Self::structured(ErrorCategory::Validation, "validation_failed", message)
    }

    /// An operation failed while it ran.
    pub fn execution_failure(code: &str, message: String) -> (e: Self)
        ensures
            e.is_structured(),
            e.category_spec() == ErrorCategory::ExecutionFailure,
            e.code_spec() == code@,
            e.message_spec() == message@,
            forall|k: Seq<char>| e.detail_spec(k) is None,
    {
        Self::structured(ErrorCategory::ExecutionFailure, code, message)
    }

    /// The platform or target lacks a capability.
    pub fn unsupported_capability(code: &str, message: String) -> (e: Self)
        ensures
            e.is_structured(),
            e.category_spec() == ErrorCategory::UnsupportedCapability,
            e.code_spec() == code@,
            e.message_spec() == message@,
            forall|k: Seq<char>| e.detail_spec(k) is None,
    {
        Self::structured(ErrorCategory::UnsupportedCapability, code, message)
    }

    /// A value could not be encoded or decoded.
    pub fn serialization(message: String) -> (e: Self)
        ensures
            e.is_structured(),
            e.category_spec() == ErrorCategory::SerializationError,
            e.code_spec() == "serialization_failed"@,
            e.message_spec() == message@,
            forall|k: Seq<char>| e.detail_spec(k) is None,
    {
        Self::structured(ErrorCategory::SerializationError, "serialization_failed", message)
    }

    /// An operation exceeded its deadline.
    pub fn timeout(code: &str, message: String) -> (e: Self)
        ensures
            e.is_structured(),
            e.category_spec() == ErrorCategory::Timeout,
            e.code_spec() == code@,
            e.message_spec() == message@,
            forall|k: Seq<char>| e.detail_spec(k) is None,
    {
        Self::structured(ErrorCategory::Timeout, code, message)
    }

    /// No target of the given kind has the given identifier.
    pub fn target_not_found(kind: &str, id: &str) -> (e: Self)
        ensures
            e.is_structured(),
            e.category_spec() == ErrorCategory::TargetNotFound,
            e.code_spec() == "target_not_found"@,
            e.message_spec() == kind@ + " `"@ + id@ + "` was not found"@,
            is_text_detail(e.detail_spec("target_kind"@), kind@),
            is_text_detail(e.detail_spec("target_id"@), id@),
    {
        proof {
            reveal_strlit("target_kind");
            reveal_strlit("target_id");
            assert("target_kind"@.len() != "target_id"@.len());
        }
        let mut message = owned(kind);
        crate::text::push_str(&mut message, " `");
        crate::text::push_str(&mut message, id);
        crate::text::push_str(&mut message, "` was not found");
        Self::structured(ErrorCategory::TargetNotFound, "target_not_found", message)
            .with_detail_entry("target_kind", DetailValue::Text(owned(kind)))
            .with_detail_entry("target_id", DetailValue::Text(owned(id)))
    }

    /// A configuration file at `path` is unreadable or invalid.
    pub fn config_path(path: &str, message: &str) -> (e: Self)
        ensures
            e.is_structured(),
            e.category_spec() == ErrorCategory::ConfigError,
            e.code_spec() == "config_error"@,
            e.message_spec() == message@,
            is_text_detail(e.detail_spec("path"@), path@),
            forall|k: Seq<char>| k != "path"@ ==> e.detail_spec(k) is None,
    {
        Self::structured(ErrorCategory::ConfigError, "config_error", owned(message))
            .with_detail_entry("path", DetailValue::Text(owned(path)))
    }

    /// Replaces the code of a structured error.
    #[must_use]
    pub fn with_code(self, code: &str) -> (e: Self)
        ensures
            self.is_structured() ==> {
                &&& e.is_structured()
                &&& e.code_spec() == code@
                &&& e.category_spec() == self.category_spec()
                &&& e.message_spec() == self.message_spec()
                &&& forall|k: Seq<char>| e.detail_spec(k) == self.detail_spec(k)
            },
            !self.is_structured() ==> e == self,
    {
        match self {
            TendrilError::Adapter(mut inner) => {
                inner.code = owned(code);
                TendrilError::Adapter(inner)
            },
            other => other,
        }
    }

    /// Adds (or replaces) one detail entry of a structured error.
    #[must_use]
    pub fn with_detail_entry(self, key: &str, value: DetailValue) -> (e: Self)
        ensures
            self.is_structured() ==> {
                &&& e.is_structured()
                &&& e.code_spec() == self.code_spec()
                &&& e.category_spec() == self.category_spec()
                &&& e.message_spec() == self.message_spec()
                &&& e.detail_spec(key@) == Some(value)
                &&& forall|k: Seq<char>| k != key@ ==> e.detail_spec(k) == self.detail_spec(k)
            },
            !self.is_structured() ==> e == self,
    {
        match self {
            TendrilError::Adapter(mut inner) => {
                let ghost before = inner.details@;
                inner.details.push(Detail { key: owned(key), value });
                proof {
                    assert(inner.details@.drop_last() =~= before);
                }
                TendrilError::Adapter(inner)
            },
            other => other,
        }
    }

    /// Names the input field that failed validation.
    #[must_use]
    pub fn with_field(self, field: &str) -> (e: Self)
        ensures
            self.is_structured() ==> {
                &&& e.is_structured()
                &&& e.code_spec() == self.code_spec()
                &&& e.category_spec() == self.category_spec()
                &&& e.message_spec() == self.message_spec()
                &&& is_text_detail(e.detail_spec("field"@), field@)
                &&& forall|k: Seq<char>| k != "field"@ ==> e.detail_spec(k) == self.detail_spec(k)
            },
            !self.is_structured() ==> e == self,
    {
        self.with_detail_entry("field", DetailValue::Text(owned(field)))
    }

    /// A validation failure with the given message, code and field.
    pub fn invalid(message: String, code: &str, field: &str) -> (e: Self)
        ensures
            is_invalid(e, code@, field@, message@),
            forall|k: Seq<char>| k != "field"@ ==> e.detail_spec(k) is None,
    {
        Self::validation(message).with_code(code).with_field(field)
    }

    /// The stable machine-readable code.
    pub fn code(&self) -> (c: String)
        ensures
            c@ == self.code_spec(),
    {
        match self {
            TendrilError::NotImplemented { .. } => owned("not_implemented"),
            TendrilError::Config { .. } => owned("config_error"),
            TendrilError::Adapter(e) => e.code.clone(),
        }
    }

    /// The human-readable message (what the error displays as).
    pub fn message(&self) -> (m: String)
        ensures
            m@ == self.message_spec(),
    {
        match self {
            TendrilError::NotImplemented { command } => {
                let mut m = owned("The `");
                crate::text::push_str(&mut m, command);
                crate::text::push_str(&mut m, "` command is scaffolded but not implemented yet");
                m
            },
            TendrilError::Config { message } => {
                let mut m = owned("Configuration error: ");
                crate::text::push_str(&mut m, message.as_str());
                m
            },
            TendrilError::Adapter(e) => e.message.clone(),
        }
    }

    /// The detail stored under `key`, if any.
    pub fn detail(&self, key: &str) -> (d: Option<&DetailValue>)
        ensures
            d matches Some(v) ==> self.detail_spec(key@) == Some(*v),
            d is None ==> self.detail_spec(key@) is None,
    {
        match self {
            TendrilError::Adapter(e) => {
                let mut i: usize = e.details.len();
                assert(e.details@.take(i as int) =~= e.details@);
                while i > 0
                    invariant
                        i <= e.details@.len(),
                        self.detail_spec(key@) == detail_lookup(e.details@, key@),
                        detail_lookup(e.details@, key@) == detail_lookup(e.details@.take(i as int), key@),
                    decreases i,
                {
                    let d = &e.details[i - 1];
                    assert(e.details@.take(i as int).drop_last() =~= e.details@.take(i - 1));
                    let dk = crate::text::chars_of(d.key.as_str());
                    let kk = crate::text::chars_of(key);
                    if crate::text::same(dk.as_slice(), kk.as_slice()) {
                        assert(e.details@.take(i as int).last() == *d);
                        assert(d.key@ == key@);
                        assert(detail_lookup(e.details@.take(i as int), key@) == Some(d.value));
                        return Some(&d.value);
                    }
                    i -= 1;
                }
                None
            },
            _ => None,
        }
    }
}

} // verus!
