//! TOML documents as plain values, and reading fields out of them.

use vstd::prelude::*;
use crate::text::{str_eq, push_text, push_signed, signed_decimal, string_from_chars};

verus! {

/// Why a TOML document is not the configuration that was asked for.
#[derive(Debug, Clone, Copy, PartialEq, Eq, Structural)]
pub enum ConfigParseError {
    /// A field without a default is absent.
    MissingField,
    /// A field holds a value of another type.
    WrongType,
    /// A service's single port is outside `0..=65535`.
    PortOutOfRange(i64),
    /// A number where a port (`u16`) is expected does not fit one.
    InvalidPort(i64),
    /// A field is given under both of its names (`port` and `ports`).
    DuplicateField,
    /// A list of ports is empty.
    EmptyPortList,
}

/// The message of a [`ConfigParseError`]; for the port errors, the text of
/// the port reader and of the `u16` reader.
pub open spec fn parse_error_text(e: ConfigParseError) -> Seq<char> {
    match e {
        ConfigParseError::MissingField => "missing field"@,
        ConfigParseError::WrongType => "invalid type"@,
        ConfigParseError::PortOutOfRange(n) => "port "@ + signed_decimal(n as int) + " is out of range"@,
        ConfigParseError::InvalidPort(n) => "invalid value: integer `"@ + signed_decimal(n as int) + "`, expected u16"@,
        ConfigParseError::DuplicateField => "duplicate field `port`"@,
        ConfigParseError::EmptyPortList => "port list cannot be empty"@,
    }
}

impl ConfigParseError {
    /// The error's message; see [`parse_error_text`].
    pub fn message(&self) -> (m: String)
        ensures
            m@ == parse_error_text(*self),
    {
        let mut v: Vec<char> = Vec::new();
        match *self {
            ConfigParseError::MissingField => push_text(&mut v, "missing field"),
            ConfigParseError::WrongType => push_text(&mut v, "invalid type"),
            ConfigParseError::PortOutOfRange(n) => {
                push_text(&mut v, "port ");
                push_signed(&mut v, n);
                push_text(&mut v, " is out of range");
            },
            ConfigParseError::InvalidPort(n) => {
                push_text(&mut v, "invalid value: integer `");
                push_signed(&mut v, n);
                push_text(&mut v, "`, expected u16");
            },
            ConfigParseError::DuplicateField => push_text(&mut v, "duplicate field `port`"),
            ConfigParseError::EmptyPortList => push_text(&mut v, "port list cannot be empty"),
        }
        assert(v@ =~= parse_error_text(*self));
        string_from_chars(v.as_slice())
    }
}

/// Why a configuration text could not be read: it is not TOML (the
/// parser's message), or its content is refused.
#[derive(Debug, Clone, PartialEq, Eq)]
pub enum ParseFailure {
    Syntax(String),
    Content(ConfigParseError),
}

/// A [`ParseFailure`] as plain values.
pub enum ParseFailureView {
    Syntax(Seq<char>),
    Content(ConfigParseError),
}

impl View for ParseFailure {
    type V = ParseFailureView;

    open spec fn view(&self) -> ParseFailureView {
        match self {
            ParseFailure::Syntax(m) => ParseFailureView::Syntax(m@),
            ParseFailure::Content(e) => ParseFailureView::Content(*e),
        }
    }
}

impl ParseFailure {
    /// The failure's message: the parser's, or the content error's.
    pub fn message(&self) -> (m: String)
        ensures
            m@ == (match self@ {
                ParseFailureView::Syntax(t) => t,
                ParseFailureView::Content(e) => parse_error_text(e),
            }),
    {
        match self {
            ParseFailure::Syntax(m) => m.clone(),
            ParseFailure::Content(e) => e.message(),
        }
    }
}

/// A TOML value, held as plain values.
pub enum TomlValue {
    Str(String),
    Int(i64),
    /// A float; its value is not used by this library.
    Float,
    Bool(bool),
    /// A date or time; its value is not used by this library.
    Datetime,
    Array(Vec<TomlValue>),
    Table(Vec<(String, TomlValue)>),
}

/// The entries (key and value) of a TOML table; the parser gives them sorted
/// by key.
pub type TomlTable = Vec<(String, TomlValue)>;

/// The table that the TOML parser makes of `text`, or the parser's error
/// message where `text` is not a TOML document.
pub uninterp spec fn toml_document(text: Seq<char>) -> Result<Seq<(String, TomlValue)>, Seq<char>>;

#[verifier::external_type_specification]
#[verifier::external_body]
pub struct ExTomlValue(toml::Value);

/// Converts a value of the `toml` crate into the library's own form, variant
/// by variant and entry by entry.
#[verifier::external_body]
fn toml_value_into_library(v: toml::Value) -> TomlValue {
    match v {
        toml::Value::String(s) => TomlValue::Str(s),
        toml::Value::Integer(i) => TomlValue::Int(i),
        toml::Value::Float(_) => TomlValue::Float,
        toml::Value::Boolean(b) => TomlValue::Bool(b),
        toml::Value::Datetime(_) => TomlValue::Datetime,
        toml::Value::Array(a) => TomlValue::Array(a.into_iter().map(toml_value_into_library).collect()),
        toml::Value::Table(t) => TomlValue::Table(t.into_iter().map(|(k, v)| (k, toml_value_into_library(v))).collect()),
    }
}

/// Parses `text` as a TOML document with `toml::from_str` into a table; the
/// error is the parser's error as its `Display` writes it. The contract
/// claims only that the result is what the parser makes of `text` (the name
/// `toml_document`): the same text gives the same table or message.
#[verifier::external_body]
pub(crate) fn parse_toml_document(text: &str) -> (r: Result<TomlTable, String>)
    ensures
        match r {
            Ok(t) => toml_document(text@) == Ok::<Seq<(String, TomlValue)>, Seq<char>>(t@),
            Err(m) => toml_document(text@) == Err::<Seq<(String, TomlValue)>, Seq<char>>(m@),
        },
{
    match toml::from_str::<toml::Table>(text) {
        Ok(t) => Ok(t.into_iter().map(|(k, v)| (k, toml_value_into_library(v))).collect()),
        Err(e) => Err(e.to_string()),
    }
}

/// The value of the first entry of `t` whose key is `key`.
pub open spec fn toml_lookup(t: Seq<(String, TomlValue)>, key: Seq<char>) -> Option<TomlValue>
    decreases t.len(),
{
    if t.len() == 0 {
        None
    } else if t[0].0@ == key {
        Some(t[0].1)
    } else {
        toml_lookup(t.drop_first(), key)
    }
}

/// The value of the first entry of `t` whose key is `key`.
pub fn toml_get<'a>(t: &'a [(String, TomlValue)], key: &str) -> (r: Option<&'a TomlValue>)
    ensures
        match r {
            Some(v) => toml_lookup(t@, key@) == Some(*v),
            None => toml_lookup(t@, key@) is None,
        },
{
    let mut i: usize = 0;
    assert(t@.skip(0) =~= t@);
    while i < t.len()
        invariant
            i <= t@.len(),
            toml_lookup(t@, key@) == toml_lookup(t@.skip(i as int), key@),
        decreases t.len() - i,
    {
        assert(t@.skip(i as int).drop_first() =~= t@.skip(i + 1));
        assert(t@.skip(i as int)[0] == t@[i as int]);
        if str_eq(t[i].0.as_str(), key) {
            return Some(&t[i].1);
        }
        i = i + 1;
    }
    assert(t@.skip(i as int).len() == 0);
    None
}

/// A string field without a default.
pub open spec fn field_str(t: Seq<(String, TomlValue)>, key: Seq<char>) -> Result<Seq<char>, ConfigParseError> {
    match toml_lookup(t, key) {
        None => Err(ConfigParseError::MissingField),
        Some(TomlValue::Str(s)) => Ok(s@),
        Some(_) => Err(ConfigParseError::WrongType),
    }
}

/// An optional string field.
pub open spec fn field_opt_str(t: Seq<(String, TomlValue)>, key: Seq<char>) -> Result<Option<Seq<char>>, ConfigParseError> {
    match toml_lookup(t, key) {
        None => Ok(None),
        Some(TomlValue::Str(s)) => Ok(Some(s@)),
        Some(_) => Err(ConfigParseError::WrongType),
    }
}

/// A boolean field that takes `default` when absent.
pub open spec fn field_bool(t: Seq<(String, TomlValue)>, key: Seq<char>, default: bool) -> Result<bool, ConfigParseError> {
    match toml_lookup(t, key) {
        None => Ok(default),
        Some(TomlValue::Bool(b)) => Ok(b),
        Some(_) => Err(ConfigParseError::WrongType),
    }
}

/// A port number field without a default.
pub open spec fn field_port(t: Seq<(String, TomlValue)>, key: Seq<char>) -> Result<u16, ConfigParseError> {
    match toml_lookup(t, key) {
        None => Err(ConfigParseError::MissingField),
        Some(TomlValue::Int(i)) => if 0 <= i <= 65535 {
            Ok(i as u16)
        } else {
            Err(ConfigParseError::InvalidPort(i))
        },
        Some(_) => Err(ConfigParseError::WrongType),
    }
}

/// The entries of a sub-table that may be written under a singular or a
/// plural name (`[machine.x]` or `[machines.x]`): the plural name is read
/// where it is present, the singular one otherwise; absent means empty.
pub open spec fn section_entries(t: Seq<(String, TomlValue)>, singular: Seq<char>, plural: Seq<char>) -> Result<Seq<(String, TomlValue)>, ConfigParseError> {
    match toml_lookup(t, plural) {
        Some(TomlValue::Table(e)) => Ok(e@),
        Some(_) => Err(ConfigParseError::WrongType),
        None => match toml_lookup(t, singular) {
            Some(TomlValue::Table(e)) => Ok(e@),
            Some(_) => Err(ConfigParseError::WrongType),
            None => Ok(Seq::empty()),
        },
    }
}

/// Reads a string field without a default; see [`field_str`].
pub fn read_str(t: &[(String, TomlValue)], key: &str) -> (r: Result<String, ConfigParseError>)
    ensures
        match r {
            Ok(s) => field_str(t@, key@) == Ok::<Seq<char>, ConfigParseError>(s@),
            Err(e) => field_str(t@, key@) == Err::<Seq<char>, ConfigParseError>(e),
        },
{
    match toml_get(t, key) {
        None => Err(ConfigParseError::MissingField),
        Some(TomlValue::Str(s)) => Ok(s.clone()),
        Some(_) => Err(ConfigParseError::WrongType),
    }
}

/// Reads an optional string field; see [`field_opt_str`].
pub fn read_opt_str(t: &[(String, TomlValue)], key: &str) -> (r: Result<Option<String>, ConfigParseError>)
    ensures
        match r {
            Ok(Some(s)) => field_opt_str(t@, key@) == Ok::<Option<Seq<char>>, ConfigParseError>(Some(s@)),
            Ok(None) => field_opt_str(t@, key@) == Ok::<Option<Seq<char>>, ConfigParseError>(None),
            Err(e) => field_opt_str(t@, key@) == Err::<Option<Seq<char>>, ConfigParseError>(e),
        },
{
    match toml_get(t, key) {
        None => Ok(None),
        Some(TomlValue::Str(s)) => Ok(Some(s.clone())),
        Some(_) => Err(ConfigParseError::WrongType),
    }
}

/// Reads a boolean field with a default; see [`field_bool`].
pub fn read_bool(t: &[(String, TomlValue)], key: &str, default: bool) -> (r: Result<bool, ConfigParseError>)
    ensures
        r == field_bool(t@, key@, default),
{
    match toml_get(t, key) {
        None => Ok(default),
        Some(TomlValue::Bool(b)) => Ok(*b),
        Some(_) => Err(ConfigParseError::WrongType),
    }
}

/// Reads a port number field; see [`field_port`].
pub fn read_port(t: &[(String, TomlValue)], key: &str) -> (r: Result<u16, ConfigParseError>)
    ensures
        r == field_port(t@, key@),
{
    match toml_get(t, key) {
        None => Err(ConfigParseError::MissingField),
        Some(TomlValue::Int(i)) => if 0 <= *i && *i <= 65535 {
            Ok(*i as u16)
        } else {
            Err(ConfigParseError::InvalidPort(*i))
        },
        Some(_) => Err(ConfigParseError::WrongType),
    }
}

/// Reads a section written under a singular or a plural name; see
/// [`section_entries`].
pub fn read_section<'a>(t: &'a [(String, TomlValue)], singular: &str, plural: &str) -> (r: Result<&'a [(String, TomlValue)], ConfigParseError>)
    ensures
        match r {
            Ok(e) => section_entries(t@, singular@, plural@) == Ok::<Seq<(String, TomlValue)>, ConfigParseError>(e@),
            Err(x) => section_entries(t@, singular@, plural@) == Err::<Seq<(String, TomlValue)>, ConfigParseError>(x),
        },
{
    match toml_get(t, plural) {
        Some(TomlValue::Table(e)) => Ok(e.as_slice()),
        Some(_) => Err(ConfigParseError::WrongType),
        None => match toml_get(t, singular) {
            Some(TomlValue::Table(e)) => Ok(e.as_slice()),
            Some(_) => Err(ConfigParseError::WrongType),
            None => {
                let empty: &[(String, TomlValue)] = &[];
                assert(empty@ =~= Seq::<(String, TomlValue)>::empty());
                Ok(empty)
            },
        },
    }
}

/// Interprets each entry's value with `f`, keeping the keys and the order;
/// the first entry that `f` refuses gives the error.
pub open spec fn entries_spec<T>(e: Seq<(String, TomlValue)>, f: spec_fn(TomlValue) -> Result<T, ConfigParseError>) -> Result<Seq<(Seq<char>, T)>, ConfigParseError>
    decreases e.len(),
{
    if e.len() == 0 {
        Ok(Seq::empty())
    } else {
        match entries_spec(e.drop_last(), f) {
            Err(x) => Err(x),
            Ok(r) => match f(e.last().1) {
                Err(x) => Err(x),
                Ok(v) => Ok(r.push((e.last().0@, v))),
            },
        }
    }
}

/// Once a prefix of the entries is refused, the whole is refused the same way.
pub proof fn lemma_entries_err_prefix<T>(e: Seq<(String, TomlValue)>, f: spec_fn(TomlValue) -> Result<T, ConfigParseError>, k: int)
    requires
        0 <= k <= e.len(),
        entries_spec(e.take(k), f) is Err,
    ensures
        entries_spec(e, f) == entries_spec(e.take(k), f),
    decreases e.len() - k,
{
    if k == e.len() {
        assert(e.take(k) =~= e);
    } else {
        assert(e.take(k + 1).drop_last() =~= e.take(k));
        lemma_entries_err_prefix(e, f, k + 1);
    }
}

/// Keyed entries by their views.
pub open spec fn pairs_view<T: View>(s: Seq<(String, T)>) -> Seq<(Seq<char>, T::V)> {
    s.map_values(|p: (String, T)| (p.0@, p.1@))
}

/// The value of the first entry whose key is `key`.
pub open spec fn entry_lookup<T>(s: Seq<(Seq<char>, T)>, key: Seq<char>) -> Option<T>
    decreases s.len(),
{
    if s.len() == 0 {
        None
    } else if s[0].0 == key {
        Some(s[0].1)
    } else {
        entry_lookup(s.drop_first(), key)
    }
}

/// The value of the first entry whose key is `key`.
pub fn lookup_entry<'a, T: View>(s: &'a [(String, T)], key: &str) -> (r: Option<&'a T>)
    ensures
        match r {
            Some(v) => entry_lookup(pairs_view(s@), key@) == Some(v@),
            None => entry_lookup(pairs_view(s@), key@) is None,
        },
{
    let mut i: usize = 0;
    assert(pairs_view(s@).skip(0) =~= pairs_view(s@));
    while i < s.len()
        invariant
            i <= s@.len(),
            entry_lookup(pairs_view(s@), key@) == entry_lookup(pairs_view(s@).skip(i as int), key@),
        decreases s.len() - i,
    {
        assert(pairs_view(s@).skip(i as int).drop_first() =~= pairs_view(s@).skip(i + 1));
        assert(pairs_view(s@).skip(i as int)[0] == (s@[i as int].0@, s@[i as int].1@));
        if str_eq(s[i].0.as_str(), key) {
            return Some(&s[i].1);
        }
        i = i + 1;
    }
    assert(pairs_view(s@).skip(i as int).len() == 0);
    None
}

} // verus!
