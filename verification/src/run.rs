//! The configuration of `malai run`: services of four kinds, each exposed on
//! one or more ports under one identity per port, and the decisions that
//! turn such a configuration into the listeners to start.

use vstd::prelude::*;
use crate::text::{push_text, push_number, decimal, string_from_chars, str_eq};
use crate::toml_doc::{
    ConfigParseError, ParseFailure, ParseFailureView, TomlValue, TomlTable, toml_document, toml_lookup, toml_get, parse_toml_document,
    field_opt_str, read_opt_str, entries_spec, lemma_entries_err_prefix,
};

verus! {

/// A value given either as one string or as a list of strings.
pub enum StringOrVec {
    Single(String),
    Multiple(Vec<String>),
}

/// A [`StringOrVec`] as plain text values.
pub enum StringOrVecView {
    Single(Seq<char>),
    Multiple(Seq<Seq<char>>),
}

impl StringOrVecView {
    /// The strings, in order (a single string is a list of one).
    pub open spec fn entries(self) -> Seq<Seq<char>> {
        match self {
            StringOrVecView::Single(s) => seq![s],
            StringOrVecView::Multiple(v) => v,
        }
    }
}

/// The views of a list of strings.
pub open spec fn strings_view(v: Seq<String>) -> Seq<Seq<char>> {
    v.map_values(|s: String| s@)
}

impl View for StringOrVec {
    type V = StringOrVecView;

    open spec fn view(&self) -> StringOrVecView {
        match self {
            StringOrVec::Single(s) => StringOrVecView::Single(s@),
            StringOrVec::Multiple(v) => StringOrVecView::Multiple(strings_view(v@)),
        }
    }
}

impl StringOrVec {
    /// The number of strings.
    pub fn len(&self) -> (n: usize)
        ensures
            n == self@.entries().len(),
    {
        match self {
            StringOrVec::Single(_) => 1,
            StringOrVec::Multiple(v) => v.len(),
        }
    }

    /// The string at `index`, if there is one.
    pub fn get(&self, index: usize) -> (r: Option<&str>)
        ensures
            match r {
                Some(s) => index < self@.entries().len() && s@ == self@.entries()[index as int],
                None => index >= self@.entries().len(),
            },
    {
        match self {
            StringOrVec::Single(s) => {
                if index == 0 {
                    Some(s.as_str())
                } else {
                    None
                }
            },
            StringOrVec::Multiple(v) => {
                if index < v.len() {
                    Some(v[index].as_str())
                } else {
                    None
                }
            },
        }
    }
}

/// Where the identities of a service come from: ID52s whose keys are in the
/// system keyring, or files that hold secret keys. Both may be absent.
pub struct IdentityConf {
    pub identity: Option<StringOrVec>,
    pub secret_file: Option<StringOrVec>,
}

/// An [`IdentityConf`] as plain values.
pub struct IdentityConfView {
    pub identity: Option<StringOrVecView>,
    pub secret_file: Option<StringOrVecView>,
}

/// The view of an optional [`StringOrVec`].
pub open spec fn opt_view(o: Option<StringOrVec>) -> Option<StringOrVecView> {
    match o {
        Some(v) => Some(v@),
        None => None,
    }
}

impl View for IdentityConf {
    type V = IdentityConfView;

    open spec fn view(&self) -> IdentityConfView {
        IdentityConfView { identity: opt_view(self.identity), secret_file: opt_view(self.secret_file) }
    }
}

/// The message for a list of `kind` entries (`"identity"` or
/// `"secret_file"`) whose length is not the number of ports.
pub open spec fn count_mismatch_message(service: Seq<char>, ports: nat, kind: Seq<char>, entries: nat) -> Seq<char> {
    "Service '"@ + service + "' has "@ + decimal(ports) + " ports but "@ + decimal(entries) + " "@ + kind
        + " entries. The counts must match."@
}

/// The message for a single `kind` entry given to a service of several ports.
pub open spec fn single_entry_message(service: Seq<char>, ports: nat, kind: Seq<char>) -> Seq<char> {
    "Service '"@ + service + "' has "@ + decimal(ports) + " ports but only a single "@ + kind
        + ". Provide an array of "@ + decimal(ports) + " "@ + kind + " entries, one per port."@
}

/// Checks one list of identities against the number of ports.
pub open spec fn entries_check(v: StringOrVecView, service: Seq<char>, ports: nat, kind: Seq<char>) -> Option<Seq<char>> {
    match v {
        StringOrVecView::Single(_) => Some(single_entry_message(service, ports, kind)),
        StringOrVecView::Multiple(e) => if e.len() != ports {
            Some(count_mismatch_message(service, ports, kind, e.len()))
        } else {
            None
        },
    }
}

/// Why the identities of a service do not fit its ports, or `None` where they
/// do: a service of several ports needs one entry per port in the list that
/// is used (`secret_file` where given, else `identity`).
pub open spec fn identity_conf_problem(c: IdentityConfView, ports: nat, service: Seq<char>) -> Option<Seq<char>> {
    if ports <= 1 {
        None
    } else {
        match c.secret_file {
            Some(f) => entries_check(f, service, ports, "secret_file"@),
            None => match c.identity {
                Some(i) => entries_check(i, service, ports, "identity"@),
                None => None,
            },
        }
    }
}

fn entries_message(v: &StringOrVec, service: &str, ports: usize, kind: &str) -> (r: Option<String>)
    ensures
        match r {
            Some(m) => entries_check(v@, service@, ports as nat, kind@) == Some(m@),
            None => entries_check(v@, service@, ports as nat, kind@) is None,
        },
{
    let mut m: Vec<char> = Vec::new();
    match v {
        StringOrVec::Single(_) => {
            push_text(&mut m, "Service '");
            push_text(&mut m, service);
            push_text(&mut m, "' has ");
            push_number(&mut m, ports as u64);
            push_text(&mut m, " ports but only a single ");
            push_text(&mut m, kind);
            push_text(&mut m, ". Provide an array of ");
            push_number(&mut m, ports as u64);
            push_text(&mut m, " ");
            push_text(&mut m, kind);
            push_text(&mut m, " entries, one per port.");
            assert(m@ =~= single_entry_message(service@, ports as nat, kind@));
            Some(string_from_chars(m.as_slice()))
        },
        StringOrVec::Multiple(e) => {
            if e.len() != ports {
                push_text(&mut m, "Service '");
                push_text(&mut m, service);
                push_text(&mut m, "' has ");
                push_number(&mut m, ports as u64);
                push_text(&mut m, " ports but ");
                push_number(&mut m, e.len() as u64);
                push_text(&mut m, " ");
                push_text(&mut m, kind);
                push_text(&mut m, " entries. The counts must match.");
                assert(m@ =~= count_mismatch_message(service@, ports as nat, kind@, e.len() as nat));
                Some(string_from_chars(m.as_slice()))
            } else {
                None
            }
        },
    }
}

/// Checks that a service of several ports names one identity per port; the
/// error is the message that explains the mismatch.
pub fn validate_identity_conf(identity_conf: &IdentityConf, port_count: usize, service_name: &str) -> (r: Result<(), String>)
    ensures
        match r {
            Ok(()) => identity_conf_problem(identity_conf@, port_count as nat, service_name@) is None,
            Err(m) => identity_conf_problem(identity_conf@, port_count as nat, service_name@) == Some(m@),
        },
{
    if port_count <= 1 {
        return Ok(());
    }
    let found = match &identity_conf.secret_file {
        Some(f) => entries_message(f, service_name, port_count, "secret_file"),
        None => match &identity_conf.identity {
            Some(i) => entries_message(i, service_name, port_count, "identity"),
            None => None,
        },
    };
    match found {
        Some(m) => Err(m),
        None => Ok(()),
    }
}

/// The identities in use after trying to record `id`: `id` is added unless
/// it is already there.
pub open spec fn used_step(u: Seq<Seq<char>>, id: Seq<char>) -> Seq<Seq<char>> {
    if u.contains(id) {
        u
    } else {
        u.push(id)
    }
}

/// The identities in use after trying to record each of `ids` in turn,
/// starting from `u0`.
pub open spec fn used_after(u0: Seq<Seq<char>>, ids: Seq<Seq<char>>) -> Seq<Seq<char>>
    decreases ids.len(),
{
    if ids.len() == 0 {
        u0
    } else {
        used_step(used_after(u0, ids.drop_last()), ids.last())
    }
}

/// The identities of `ids` that are admitted, in order: those not in use
/// when their turn comes.
pub open spec fn admitted_ids(u0: Seq<Seq<char>>, ids: Seq<Seq<char>>) -> Seq<Seq<char>>
    decreases ids.len(),
{
    if ids.len() == 0 {
        Seq::empty()
    } else if used_after(u0, ids.drop_last()).contains(ids.last()) {
        admitted_ids(u0, ids.drop_last())
    } else {
        admitted_ids(u0, ids.drop_last()).push(ids.last())
    }
}

/// Records `id52` among the identities in use; an identity can serve only one
/// listener. The contract is one step of [`used_after`]: over a whole run of
/// such checks the identities admitted are pairwise distinct and new (see
/// [`law_identities_distinct_across_run`]).
pub fn check_used(used_id52: &mut Vec<String>, id52: &str) -> (r: Result<(), String>)
    ensures
        strings_view(final(used_id52)@) == used_step(strings_view(old(used_id52)@), id52@),
        r is Ok <==> !strings_view(old(used_id52)@).contains(id52@),
        strings_view(old(used_id52)@).contains(id52@) ==> r is Err && final(used_id52)@ == old(used_id52)@,
        !strings_view(old(used_id52)@).contains(id52@) ==> r is Ok && strings_view(final(used_id52)@)
            == strings_view(old(used_id52)@).push(id52@),
        r matches Err(m) ==> m@ == "Identity already used."@,
{
    let mut i: usize = 0;
    while i < used_id52.len()
        invariant
            i <= used_id52@.len(),
            forall|j: int| 0 <= j < i ==> strings_view(used_id52@)[j] != id52@,
        decreases used_id52.len() - i,
    {
        if str_eq(used_id52[i].as_str(), id52) {
            assert(strings_view(used_id52@)[i as int] == id52@);
            return Err(String::from_str("Identity already used."));
        }
        i = i + 1;
    }
    let ghost before = used_id52@;
    assert(!strings_view(before).contains(id52@));
    used_id52.push(String::from_str(id52));
    assert(strings_view(used_id52@) =~= strings_view(before).push(id52@));
    Ok(())
}


/// The text of a TOML string value (empty for other values).
pub open spec fn str_of(v: TomlValue) -> Seq<char> {
    match v {
        TomlValue::Str(s) => s@,
        _ => Seq::empty(),
    }
}

/// A TOML array of strings as text values; `None` where an element is not a
/// string.
pub open spec fn toml_strings(a: Seq<TomlValue>) -> Option<Seq<Seq<char>>> {
    if forall|i: int| 0 <= i < a.len() ==> (#[trigger] a[i]) is Str {
        Some(a.map_values(|v: TomlValue| str_of(v)))
    } else {
        None
    }
}

/// A string or a list of strings.
pub open spec fn string_or_vec_spec(v: TomlValue) -> Result<StringOrVecView, ConfigParseError> {
    match v {
        TomlValue::Str(s) => Ok(StringOrVecView::Single(s@)),
        TomlValue::Array(a) => match toml_strings(a@) {
            Some(e) => Ok(StringOrVecView::Multiple(e)),
            None => Err(ConfigParseError::WrongType),
        },
        _ => Err(ConfigParseError::WrongType),
    }
}

/// An optional field that holds a string or a list of strings.
pub open spec fn string_or_vec_field(t: Seq<(String, TomlValue)>, key: Seq<char>) -> Result<Option<StringOrVecView>, ConfigParseError> {
    match toml_lookup(t, key) {
        None => Ok(None),
        Some(v) => match string_or_vec_spec(v) {
            Ok(x) => Ok(Some(x)),
            Err(e) => Err(e),
        },
    }
}

/// The ports of a TOML array, each in `0..=65535`; the first element that is
/// not such a number gives the error.
pub open spec fn toml_ports(a: Seq<TomlValue>) -> Result<Seq<u16>, ConfigParseError>
    decreases a.len(),
{
    if a.len() == 0 {
        Ok(Seq::empty())
    } else {
        match toml_ports(a.drop_last()) {
            Err(x) => Err(x),
            Ok(p) => match a.last() {
                TomlValue::Int(i) => if 0 <= i <= 65535 {
                    Ok(p.push(i as u16))
                } else {
                    Err(ConfigParseError::InvalidPort(i))
                },
                _ => Err(ConfigParseError::WrongType),
            },
        }
    }
}

/// One port (`port = 3000`) or a non-empty list of ports (`port = [3000, 3001]`).
pub open spec fn ports_value_spec(v: TomlValue) -> Result<Seq<u16>, ConfigParseError> {
    match v {
        TomlValue::Int(i) => if 0 <= i <= 65535 {
            Ok(seq![i as u16])
        } else {
            Err(ConfigParseError::PortOutOfRange(i))
        },
        TomlValue::Array(a) => match toml_ports(a@) {
            Err(x) => Err(x),
            Ok(p) => if p.len() == 0 {
                Err(ConfigParseError::EmptyPortList)
            } else {
                Ok(p)
            },
        },
        _ => Err(ConfigParseError::WrongType),
    }
}

/// The ports of a service, under the key `port` or its alias `ports`.
pub open spec fn ports_field(t: Seq<(String, TomlValue)>) -> Result<Seq<u16>, ConfigParseError> {
    match (toml_lookup(t, "port"@), toml_lookup(t, "ports"@)) {
        (Some(_), Some(_)) => Err(ConfigParseError::DuplicateField),
        (Some(v), None) => ports_value_spec(v),
        (None, Some(v)) => ports_value_spec(v),
        (None, None) => Err(ConfigParseError::MissingField),
    }
}

/// A boolean field without a default.
pub open spec fn required_bool(t: Seq<(String, TomlValue)>, key: Seq<char>) -> Result<bool, ConfigParseError> {
    match toml_lookup(t, key) {
        None => Err(ConfigParseError::MissingField),
        Some(TomlValue::Bool(b)) => Ok(b),
        Some(_) => Err(ConfigParseError::WrongType),
    }
}

/// The host a service forwards to; `127.0.0.1` where none is given.
pub open spec fn host_field(t: Seq<(String, TomlValue)>) -> Result<Seq<char>, ConfigParseError> {
    match field_opt_str(t, "host"@) {
        Ok(Some(h)) => Ok(h),
        Ok(None) => Ok(default_host_spec()),
        Err(x) => Err(x),
    }
}

/// The host used where a service names none.
pub open spec fn default_host_spec() -> Seq<char> {
    "127.0.0.1"@
}

/// The host used where a service names none.
pub fn default_host() -> (h: String)
    ensures
        h@ == default_host_spec(),
{
    String::from_str("127.0.0.1")
}

/// The bridge an HTTP service uses where it names none: the value of the
/// `MALAI_HTTP_BRIDGE` environment variable, or empty where it is not set.
pub fn default_bridge(env_value: Option<String>) -> (b: String)
    ensures
        b@ == match env_value {
            Some(v) => v@,
            None => Seq::<char>::empty(),
        },
{
    match env_value {
        Some(v) => v,
        None => String::new(),
    }
}

/// What every kind of service has: its identities, ports, whether it is
/// public and active, and the host it forwards to.
pub struct ServiceView {
    pub identity_conf: IdentityConfView,
    pub ports: Seq<u16>,
    pub public: bool,
    pub active: bool,
    pub host: Seq<char>,
}

/// The settings of a service from its TOML table; the first field that is
/// refused gives the error.
pub open spec fn service_settings_spec(t: Seq<(String, TomlValue)>) -> Result<ServiceView, ConfigParseError> {
    match string_or_vec_field(t, "identity"@) {
        Err(x) => Err(x),
        Ok(identity) => match string_or_vec_field(t, "secret_file"@) {
            Err(x) => Err(x),
            Ok(secret_file) => match ports_field(t) {
                Err(x) => Err(x),
                Ok(ports) => match required_bool(t, "public"@) {
                    Err(x) => Err(x),
                    Ok(public) => match required_bool(t, "active"@) {
                        Err(x) => Err(x),
                        Ok(active) => match host_field(t) {
                            Err(x) => Err(x),
                            Ok(host) => Ok(ServiceView {
                                identity_conf: IdentityConfView { identity, secret_file },
                                ports,
                                public,
                                active,
                                host,
                            }),
                        },
                    },
                },
            },
        },
    }
}

/// The settings of a service from a TOML value, which must be a table.
pub open spec fn service_value_spec(v: TomlValue) -> Result<ServiceView, ConfigParseError> {
    match v {
        TomlValue::Table(t) => service_settings_spec(t@),
        _ => Err(ConfigParseError::WrongType),
    }
}

/// An HTTP service: the common settings and the bridge it is reached through.
pub struct HttpServiceView {
    pub service: ServiceView,
    pub bridge: Seq<char>,
}

/// An HTTP service from a TOML value; `default_bridge` where it names no bridge.
pub open spec fn http_service_spec(v: TomlValue, default_bridge: Seq<char>) -> Result<HttpServiceView, ConfigParseError> {
    match v {
        TomlValue::Table(t) => match service_settings_spec(t@) {
            Err(x) => Err(x),
            Ok(service) => match field_opt_str(t@, "bridge"@) {
                Err(x) => Err(x),
                Ok(b) => Ok(HttpServiceView {
                    service,
                    bridge: match b {
                        Some(b) => b,
                        None => default_bridge,
                    },
                }),
            },
        },
        _ => Err(ConfigParseError::WrongType),
    }
}

fn read_string_list(a: &Vec<TomlValue>) -> (r: Option<Vec<String>>)
    ensures
        match r {
            Some(v) => toml_strings(a@) == Some(strings_view(v@)),
            None => toml_strings(a@) is None,
        },
{
    let mut out: Vec<String> = Vec::new();
    let mut i: usize = 0;
    while i < a.len()
        invariant
            i <= a@.len(),
            out@.len() == i,
            forall|j: int| 0 <= j < i ==> (#[trigger] a@[j]) is Str && out@[j]@ == str_of(a@[j]),
        decreases a.len() - i,
    {
        match &a[i] {
            TomlValue::Str(s) => {
                out.push(s.clone());
            },
            _ => {
                assert(!(a@[i as int] is Str));
                return None;
            },
        }
        i = i + 1;
    }
    assert(strings_view(out@) =~= a@.map_values(|v: TomlValue| str_of(v)));
    Some(out)
}

fn read_string_or_vec(v: &TomlValue) -> (r: Result<StringOrVec, ConfigParseError>)
    ensures
        match r {
            Ok(x) => string_or_vec_spec(*v) == Ok::<StringOrVecView, ConfigParseError>(x@),
            Err(e) => string_or_vec_spec(*v) == Err::<StringOrVecView, ConfigParseError>(e),
        },
{
    match v {
        TomlValue::Str(s) => Ok(StringOrVec::Single(s.clone())),
        TomlValue::Array(a) => match read_string_list(a) {
            Some(e) => Ok(StringOrVec::Multiple(e)),
            None => Err(ConfigParseError::WrongType),
        },
        _ => Err(ConfigParseError::WrongType),
    }
}

fn read_string_or_vec_field(t: &[(String, TomlValue)], key: &str) -> (r: Result<Option<StringOrVec>, ConfigParseError>)
    ensures
        match r {
            Ok(x) => string_or_vec_field(t@, key@) == Ok::<Option<StringOrVecView>, ConfigParseError>(opt_view(x)),
            Err(e) => string_or_vec_field(t@, key@) == Err::<Option<StringOrVecView>, ConfigParseError>(e),
        },
{
    match toml_get(t, key) {
        None => Ok(None),
        Some(v) => match read_string_or_vec(v) {
            Ok(x) => Ok(Some(x)),
            Err(e) => Err(e),
        },
    }
}

proof fn lemma_ports_err_prefix(a: Seq<TomlValue>, k: int)
    requires
        0 <= k <= a.len(),
        toml_ports(a.take(k)) is Err,
    ensures
        toml_ports(a) == toml_ports(a.take(k)),
    decreases a.len() - k,
{
    if k == a.len() {
        assert(a.take(k) =~= a);
    } else {
        assert(a.take(k + 1).drop_last() =~= a.take(k));
        lemma_ports_err_prefix(a, k + 1);
    }
}

fn read_port_list(a: &Vec<TomlValue>) -> (r: Result<Vec<u16>, ConfigParseError>)
    ensures
        match r {
            Ok(p) => toml_ports(a@) == Ok::<Seq<u16>, ConfigParseError>(p@),
            Err(e) => toml_ports(a@) == Err::<Seq<u16>, ConfigParseError>(e),
        },
{
    let mut out: Vec<u16> = Vec::new();
    let mut i: usize = 0;
    assert(a@.take(0) =~= Seq::<TomlValue>::empty());
    while i < a.len()
        invariant
            i <= a@.len(),
            toml_ports(a@.take(i as int)) == Ok::<Seq<u16>, ConfigParseError>(out@),
        decreases a.len() - i,
    {
        assert(a@.take(i + 1).drop_last() =~= a@.take(i as int));
        assert(a@.take(i + 1).last() == a@[i as int]);
        match &a[i] {
            TomlValue::Int(n) => {
                if 0 <= *n && *n <= 65535 {
                    out.push(*n as u16);
                } else {
                    proof { lemma_ports_err_prefix(a@, i + 1); }
                    return Err(ConfigParseError::InvalidPort(*n));
                }
            },
            _ => {
                proof { lemma_ports_err_prefix(a@, i + 1); }
                return Err(ConfigParseError::WrongType);
            },
        }
        i = i + 1;
    }
    assert(a@.take(a@.len() as int) =~= a@);
    Ok(out)
}

fn read_ports_value(v: &TomlValue) -> (r: Result<Vec<u16>, ConfigParseError>)
    ensures
        match r {
            Ok(p) => ports_value_spec(*v) == Ok::<Seq<u16>, ConfigParseError>(p@),
            Err(e) => ports_value_spec(*v) == Err::<Seq<u16>, ConfigParseError>(e),
        },
{
    match v {
        TomlValue::Int(n) => {
            if 0 <= *n && *n <= 65535 {
                let mut p: Vec<u16> = Vec::new();
                p.push(*n as u16);
                assert(p@ =~= seq![*n as u16]);
                Ok(p)
            } else {
                Err(ConfigParseError::PortOutOfRange(*n))
            }
        },
        TomlValue::Array(a) => match read_port_list(a) {
            Err(x) => Err(x),
            Ok(p) => if p.len() == 0 {
                Err(ConfigParseError::EmptyPortList)
            } else {
                Ok(p)
            },
        },
        _ => Err(ConfigParseError::WrongType),
    }
}

/// Reads the ports of a service; see [`ports_field`].
pub fn deserialize_ports(t: &[(String, TomlValue)]) -> (r: Result<Vec<u16>, ConfigParseError>)
    ensures
        match r {
            Ok(p) => ports_field(t@) == Ok::<Seq<u16>, ConfigParseError>(p@),
            Err(e) => ports_field(t@) == Err::<Seq<u16>, ConfigParseError>(e),
        },
{
    match (toml_get(t, "port"), toml_get(t, "ports")) {
        (Some(_), Some(_)) => Err(ConfigParseError::DuplicateField),
        (Some(v), None) => read_ports_value(v),
        (None, Some(v)) => read_ports_value(v),
        (None, None) => Err(ConfigParseError::MissingField),
    }
}

fn read_required_bool(t: &[(String, TomlValue)], key: &str) -> (r: Result<bool, ConfigParseError>)
    ensures
        r == required_bool(t@, key@),
{
    match toml_get(t, key) {
        None => Err(ConfigParseError::MissingField),
        Some(TomlValue::Bool(b)) => Ok(*b),
        Some(_) => Err(ConfigParseError::WrongType),
    }
}

fn read_host(t: &[(String, TomlValue)]) -> (r: Result<String, ConfigParseError>)
    ensures
        match r {
            Ok(h) => host_field(t@) == Ok::<Seq<char>, ConfigParseError>(h@),
            Err(e) => host_field(t@) == Err::<Seq<char>, ConfigParseError>(e),
        },
{
    match read_opt_str(t, "host") {
        Ok(Some(h)) => Ok(h),
        Ok(None) => Ok(default_host()),
        Err(x) => Err(x),
    }
}


/// What the four kinds of service share, as the code that starts listeners
/// reads it.
pub trait ServiceConfig: Sized {
    /// The settings of this service.
    spec fn settings(&self) -> ServiceView;

    fn port(&self) -> (r: &Vec<u16>)
        ensures
            r@ == self.settings().ports,
    ;

    fn identity_conf(&self) -> (r: &IdentityConf)
        ensures
            r@ == self.settings().identity_conf,
    ;

    fn active(&self) -> (r: bool)
        ensures
            r == self.settings().active,
    ;

    fn public(&self) -> (r: bool)
        ensures
            r == self.settings().public,
    ;

    fn host(&self) -> (r: &str)
        ensures
            r@ == self.settings().host,
    ;
}

/// A service of a kind that has nothing but the common settings.
pub trait PlainServiceConf: ServiceConfig {
    fn from_settings(identity_conf: IdentityConf, port: Vec<u16>, public: bool, active: bool, host: String) -> (r: Self)
        ensures
            r.settings() == (ServiceView { identity_conf: identity_conf@, ports: port@, public, active, host: host@ }),
    ;
}

/// An HTTP service exposed over the peer network.
pub struct HttpServiceConf {
    pub identity_conf: IdentityConf,
    pub port: Vec<u16>,
    pub public: bool,
    pub active: bool,
    pub host: String,
    pub bridge: String,
}

/// A TCP service exposed over the peer network.
pub struct TcpServiceConf {
    pub identity_conf: IdentityConf,
    pub port: Vec<u16>,
    pub public: bool,
    pub active: bool,
    pub host: String,
}

/// A UDP service exposed over the peer network.
pub struct UdpServiceConf {
    pub identity_conf: IdentityConf,
    pub port: Vec<u16>,
    pub public: bool,
    pub active: bool,
    pub host: String,
}

/// A service exposed over both TCP and UDP.
pub struct TcpUdpServiceConf {
    pub identity_conf: IdentityConf,
    pub port: Vec<u16>,
    pub public: bool,
    pub active: bool,
    pub host: String,
}

impl View for HttpServiceConf {
    type V = HttpServiceView;

    open spec fn view(&self) -> HttpServiceView {
        HttpServiceView { service: self.settings(), bridge: self.bridge@ }
    }
}

impl ServiceConfig for HttpServiceConf {
    open spec fn settings(&self) -> ServiceView {
        ServiceView { identity_conf: self.identity_conf@, ports: self.port@, public: self.public, active: self.active, host: self.host@ }
    }

    fn port(&self) -> (r: &Vec<u16>) {
        &self.port
    }

    fn identity_conf(&self) -> (r: &IdentityConf) {
        &self.identity_conf
    }

    fn active(&self) -> (r: bool) {
        self.active
    }

    fn public(&self) -> (r: bool) {
        self.public
    }

    fn host(&self) -> (r: &str) {
        self.host.as_str()
    }
}

impl ServiceConfig for TcpServiceConf {
    open spec fn settings(&self) -> ServiceView {
        ServiceView { identity_conf: self.identity_conf@, ports: self.port@, public: self.public, active: self.active, host: self.host@ }
    }

    fn port(&self) -> (r: &Vec<u16>) {
        &self.port
    }

    fn identity_conf(&self) -> (r: &IdentityConf) {
        &self.identity_conf
    }

    fn active(&self) -> (r: bool) {
        self.active
    }

    fn public(&self) -> (r: bool) {
        self.public
    }

    fn host(&self) -> (r: &str) {
        self.host.as_str()
    }
}

impl PlainServiceConf for TcpServiceConf {
    fn from_settings(identity_conf: IdentityConf, port: Vec<u16>, public: bool, active: bool, host: String) -> (r: Self) {
        TcpServiceConf { identity_conf, port, public, active, host }
    }
}

impl ServiceConfig for UdpServiceConf {
    open spec fn settings(&self) -> ServiceView {
        ServiceView { identity_conf: self.identity_conf@, ports: self.port@, public: self.public, active: self.active, host: self.host@ }
    }

    fn port(&self) -> (r: &Vec<u16>) {
        &self.port
    }

    fn identity_conf(&self) -> (r: &IdentityConf) {
        &self.identity_conf
    }

    fn active(&self) -> (r: bool) {
        self.active
    }

    fn public(&self) -> (r: bool) {
        self.public
    }

    fn host(&self) -> (r: &str) {
        self.host.as_str()
    }
}

impl PlainServiceConf for UdpServiceConf {
    fn from_settings(identity_conf: IdentityConf, port: Vec<u16>, public: bool, active: bool, host: String) -> (r: Self) {
        UdpServiceConf { identity_conf, port, public, active, host }
    }
}

impl ServiceConfig for TcpUdpServiceConf {
    open spec fn settings(&self) -> ServiceView {
        ServiceView { identity_conf: self.identity_conf@, ports: self.port@, public: self.public, active: self.active, host: self.host@ }
    }

    fn port(&self) -> (r: &Vec<u16>) {
        &self.port
    }

    fn identity_conf(&self) -> (r: &IdentityConf) {
        &self.identity_conf
    }

    fn active(&self) -> (r: bool) {
        self.active
    }

    fn public(&self) -> (r: bool) {
        self.public
    }

    fn host(&self) -> (r: &str) {
        self.host.as_str()
    }
}

impl PlainServiceConf for TcpUdpServiceConf {
    fn from_settings(identity_conf: IdentityConf, port: Vec<u16>, public: bool, active: bool, host: String) -> (r: Self) {
        TcpUdpServiceConf { identity_conf, port, public, active, host }
    }
}

/// Named services by their settings, in order.
pub open spec fn settings_pairs<C: ServiceConfig>(s: Seq<(String, C)>) -> Seq<(Seq<char>, ServiceView)> {
    s.map_values(|p: (String, C)| (p.0@, p.1.settings()))
}

/// Named HTTP services by their views, in order.
pub open spec fn http_pairs(s: Seq<(String, HttpServiceConf)>) -> Seq<(Seq<char>, HttpServiceView)> {
    s.map_values(|p: (String, HttpServiceConf)| (p.0@, p.1@))
}

fn read_settings(t: &[(String, TomlValue)]) -> (r: Result<(IdentityConf, Vec<u16>, bool, bool, String), ConfigParseError>)
    ensures
        match r {
            Ok(x) => service_settings_spec(t@) == Ok::<ServiceView, ConfigParseError>(ServiceView {
                identity_conf: x.0@, ports: x.1@, public: x.2, active: x.3, host: x.4@ }),
            Err(e) => service_settings_spec(t@) == Err::<ServiceView, ConfigParseError>(e),
        },
{
    let identity = match read_string_or_vec_field(t, "identity") {
        Err(x) => return Err(x),
        Ok(i) => i,
    };
    let secret_file = match read_string_or_vec_field(t, "secret_file") {
        Err(x) => return Err(x),
        Ok(f) => f,
    };
    let port = match deserialize_ports(t) {
        Err(x) => return Err(x),
        Ok(p) => p,
    };
    let public = match read_required_bool(t, "public") {
        Err(x) => return Err(x),
        Ok(b) => b,
    };
    let active = match read_required_bool(t, "active") {
        Err(x) => return Err(x),
        Ok(b) => b,
    };
    let host = match read_host(t) {
        Err(x) => return Err(x),
        Ok(h) => h,
    };
    Ok((IdentityConf { identity, secret_file }, port, public, active, host))
}

fn read_plain_service<C: PlainServiceConf>(v: &TomlValue) -> (r: Result<C, ConfigParseError>)
    ensures
        match r {
            Ok(c) => service_value_spec(*v) == Ok::<ServiceView, ConfigParseError>(c.settings()),
            Err(e) => service_value_spec(*v) == Err::<ServiceView, ConfigParseError>(e),
        },
{
    match v {
        TomlValue::Table(t) => match read_settings(t.as_slice()) {
            Err(x) => Err(x),
            Ok(x) => Ok(C::from_settings(x.0, x.1, x.2, x.3, x.4)),
        },
        _ => Err(ConfigParseError::WrongType),
    }
}

fn read_http_service(v: &TomlValue, default_bridge: &str) -> (r: Result<HttpServiceConf, ConfigParseError>)
    ensures
        match r {
            Ok(c) => http_service_spec(*v, default_bridge@) == Ok::<HttpServiceView, ConfigParseError>(c@),
            Err(e) => http_service_spec(*v, default_bridge@) == Err::<HttpServiceView, ConfigParseError>(e),
        },
{
    match v {
        TomlValue::Table(t) => match read_settings(t.as_slice()) {
            Err(x) => Err(x),
            Ok(x) => match read_opt_str(t.as_slice(), "bridge") {
                Err(e) => Err(e),
                Ok(b) => {
                    let bridge = match b {
                        Some(b) => b,
                        None => String::from_str(default_bridge),
                    };
                    Ok(HttpServiceConf { identity_conf: x.0, port: x.1, public: x.2, active: x.3, host: x.4, bridge })
                },
            },
        },
        _ => Err(ConfigParseError::WrongType),
    }
}

/// The interpretation of a plain service's TOML value.
pub open spec fn plain_service_fn() -> spec_fn(TomlValue) -> Result<ServiceView, ConfigParseError> {
    |v: TomlValue| service_value_spec(v)
}

/// The interpretation of an HTTP service's TOML value.
pub open spec fn http_service_fn(default_bridge: Seq<char>) -> spec_fn(TomlValue) -> Result<HttpServiceView, ConfigParseError> {
    |v: TomlValue| http_service_spec(v, default_bridge)
}

fn read_plain_services<C: PlainServiceConf>(e: &[(String, TomlValue)]) -> (r: Result<Vec<(String, C)>, ConfigParseError>)
    ensures
        match r {
            Ok(c) => entries_spec(e@, plain_service_fn()) == Ok::<Seq<(Seq<char>, ServiceView)>, ConfigParseError>(
                settings_pairs(c@)),
            Err(x) => entries_spec(e@, plain_service_fn()) == Err::<Seq<(Seq<char>, ServiceView)>, ConfigParseError>(x),
        },
{
    let mut out: Vec<(String, C)> = Vec::new();
    let mut i: usize = 0;
    assert(e@.take(0) =~= Seq::<(String, TomlValue)>::empty());
    assert(settings_pairs(out@) =~= Seq::<(Seq<char>, ServiceView)>::empty());
    while i < e.len()
        invariant
            i <= e@.len(),
            entries_spec(e@.take(i as int), plain_service_fn()) == Ok::<Seq<(Seq<char>, ServiceView)>, ConfigParseError>(
                settings_pairs(out@)),
        decreases e.len() - i,
    {
        assert(e@.take(i + 1).drop_last() =~= e@.take(i as int));
        match read_plain_service::<C>(&e[i].1) {
            Err(x) => {
                proof { lemma_entries_err_prefix(e@, plain_service_fn(), i + 1); }
                return Err(x);
            },
            Ok(c) => {
                let ghost before = out@;
                let ghost settings = c.settings();
                out.push((e[i].0.clone(), c));
                assert(settings_pairs(out@) =~= settings_pairs(before).push((e@[i as int].0@, settings)));
            },
        }
        i = i + 1;
    }
    assert(e@.take(e@.len() as int) =~= e@);
    Ok(out)
}

fn read_http_services(e: &[(String, TomlValue)], default_bridge: &str) -> (r: Result<Vec<(String, HttpServiceConf)>, ConfigParseError>)
    ensures
        match r {
            Ok(c) => entries_spec(e@, http_service_fn(default_bridge@)) == Ok::<Seq<(Seq<char>, HttpServiceView)>, ConfigParseError>(
                http_pairs(c@)),
            Err(x) => entries_spec(e@, http_service_fn(default_bridge@)) == Err::<Seq<(Seq<char>, HttpServiceView)>, ConfigParseError>(x),
        },
{
    let mut out: Vec<(String, HttpServiceConf)> = Vec::new();
    let mut i: usize = 0;
    assert(e@.take(0) =~= Seq::<(String, TomlValue)>::empty());
    assert(http_pairs(out@) =~= Seq::<(Seq<char>, HttpServiceView)>::empty());
    while i < e.len()
        invariant
            i <= e@.len(),
            entries_spec(e@.take(i as int), http_service_fn(default_bridge@)) == Ok::<Seq<(Seq<char>, HttpServiceView)>, ConfigParseError>(
                http_pairs(out@)),
        decreases e.len() - i,
    {
        assert(e@.take(i + 1).drop_last() =~= e@.take(i as int));
        match read_http_service(&e[i].1, default_bridge) {
            Err(x) => {
                proof { lemma_entries_err_prefix(e@, http_service_fn(default_bridge@), i + 1); }
                return Err(x);
            },
            Ok(c) => {
                let ghost before = out@;
                let ghost view = c@;
                out.push((e[i].0.clone(), c));
                assert(http_pairs(out@) =~= http_pairs(before).push((e@[i as int].0@, view)));
            },
        }
        i = i + 1;
    }
    assert(e@.take(e@.len() as int) =~= e@);
    Ok(out)
}


/// The HTTP services, by name.
pub struct HttpServices {
    pub services: Vec<(String, HttpServiceConf)>,
}

/// The TCP services, by name.
pub struct TcpServices {
    pub services: Vec<(String, TcpServiceConf)>,
}

/// The UDP services, by name.
pub struct UdpServices {
    pub services: Vec<(String, UdpServiceConf)>,
}

/// The TCP+UDP services, by name.
pub struct TcpUdpServices {
    pub services: Vec<(String, TcpUdpServiceConf)>,
}

/// Settings of malai itself: where it writes its log.
pub struct MalaiConf {
    pub log: Option<String>,
}

/// The configuration of `malai run`.
pub struct Config {
    pub malai: MalaiConf,
    pub http: Option<HttpServices>,
    pub tcp: Option<TcpServices>,
    pub udp: Option<UdpServices>,
    pub tcp_udp: Option<TcpUdpServices>,
}

/// A [`Config`] as plain values.
pub struct ConfigView {
    pub log: Option<Seq<char>>,
    pub http: Option<Seq<(Seq<char>, HttpServiceView)>>,
    pub tcp: Option<Seq<(Seq<char>, ServiceView)>>,
    pub udp: Option<Seq<(Seq<char>, ServiceView)>>,
    pub tcp_udp: Option<Seq<(Seq<char>, ServiceView)>>,
}

impl View for Config {
    type V = ConfigView;

    open spec fn view(&self) -> ConfigView {
        ConfigView {
            log: match self.malai.log {
                Some(l) => Some(l@),
                None => None,
            },
            http: match self.http {
                Some(h) => Some(http_pairs(h.services@)),
                None => None,
            },
            tcp: match self.tcp {
                Some(h) => Some(settings_pairs(h.services@)),
                None => None,
            },
            udp: match self.udp {
                Some(h) => Some(settings_pairs(h.services@)),
                None => None,
            },
            tcp_udp: match self.tcp_udp {
                Some(h) => Some(settings_pairs(h.services@)),
                None => None,
            },
        }
    }
}

/// A section of named services: absent is `None`, a table gives each of its
/// entries interpreted by `f`.
pub open spec fn services_section<T>(t: Seq<(String, TomlValue)>, key: Seq<char>, f: spec_fn(TomlValue) -> Result<T, ConfigParseError>) -> Result<Option<Seq<(Seq<char>, T)>>, ConfigParseError> {
    match toml_lookup(t, key) {
        None => Ok(None),
        Some(TomlValue::Table(e)) => match entries_spec(e@, f) {
            Ok(s) => Ok(Some(s)),
            Err(x) => Err(x),
        },
        Some(_) => Err(ConfigParseError::WrongType),
    }
}

/// The log setting of the `[malai]` table, which may be absent.
pub open spec fn malai_log_spec(t: Seq<(String, TomlValue)>) -> Result<Option<Seq<char>>, ConfigParseError> {
    match toml_lookup(t, "malai"@) {
        None => Ok(None),
        Some(TomlValue::Table(m)) => field_opt_str(m@, "log"@),
        Some(_) => Err(ConfigParseError::WrongType),
    }
}

/// The configuration that a TOML table describes; other keys are ignored.
pub open spec fn config_spec(t: Seq<(String, TomlValue)>, default_bridge: Seq<char>) -> Result<ConfigView, ConfigParseError> {
    match malai_log_spec(t) {
        Err(x) => Err(x),
        Ok(log) => match services_section(t, "http"@, http_service_fn(default_bridge)) {
            Err(x) => Err(x),
            Ok(http) => match services_section(t, "tcp"@, plain_service_fn()) {
                Err(x) => Err(x),
                Ok(tcp) => match services_section(t, "udp"@, plain_service_fn()) {
                    Err(x) => Err(x),
                    Ok(udp) => match services_section(t, "tcp_udp"@, plain_service_fn()) {
                        Err(x) => Err(x),
                        Ok(tcp_udp) => Ok(ConfigView { log, http, tcp, udp, tcp_udp }),
                    },
                },
            },
        },
    }
}

/// The configuration that a text describes; where the TOML parser refuses
/// the text, its message.
pub open spec fn config_from_text(text: Seq<char>, default_bridge: Seq<char>) -> Result<ConfigView, ParseFailureView> {
    match toml_document(text) {
        Err(m) => Err(ParseFailureView::Syntax(m)),
        Ok(t) => match config_spec(t, default_bridge) {
            Ok(c) => Ok(c),
            Err(e) => Err(ParseFailureView::Content(e)),
        },
    }
}

fn read_malai_log(t: &[(String, TomlValue)]) -> (r: Result<Option<String>, ConfigParseError>)
    ensures
        match r {
            Ok(Some(s)) => malai_log_spec(t@) == Ok::<Option<Seq<char>>, ConfigParseError>(Some(s@)),
            Ok(None) => malai_log_spec(t@) == Ok::<Option<Seq<char>>, ConfigParseError>(None),
            Err(e) => malai_log_spec(t@) == Err::<Option<Seq<char>>, ConfigParseError>(e),
        },
{
    match toml_get(t, "malai") {
        None => Ok(None),
        Some(TomlValue::Table(m)) => read_opt_str(m.as_slice(), "log"),
        Some(_) => Err(ConfigParseError::WrongType),
    }
}

fn read_plain_section<C: PlainServiceConf>(t: &[(String, TomlValue)], key: &str) -> (r: Result<Option<Vec<(String, C)>>, ConfigParseError>)
    ensures
        match r {
            Ok(Some(c)) => services_section(t@, key@, plain_service_fn()) == Ok::<Option<Seq<(Seq<char>, ServiceView)>>, ConfigParseError>(
                Some(settings_pairs(c@))),
            Ok(None) => services_section(t@, key@, plain_service_fn()) == Ok::<Option<Seq<(Seq<char>, ServiceView)>>, ConfigParseError>(None),
            Err(x) => services_section(t@, key@, plain_service_fn()) == Err::<Option<Seq<(Seq<char>, ServiceView)>>, ConfigParseError>(x),
        },
{
    match toml_get(t, key) {
        None => Ok(None),
        Some(TomlValue::Table(e)) => match read_plain_services::<C>(e.as_slice()) {
            Ok(c) => Ok(Some(c)),
            Err(x) => Err(x),
        },
        Some(_) => Err(ConfigParseError::WrongType),
    }
}

/// Interprets a TOML table as the configuration of `malai run`; see
/// [`config_spec`].
pub fn config_from_table(t: &[(String, TomlValue)], default_bridge: &str) -> (r: Result<Config, ConfigParseError>)
    ensures
        match r {
            Ok(c) => config_spec(t@, default_bridge@) == Ok::<ConfigView, ConfigParseError>(c@),
            Err(x) => config_spec(t@, default_bridge@) == Err::<ConfigView, ConfigParseError>(x),
        },
{
    let log = match read_malai_log(t) {
        Err(x) => return Err(x),
        Ok(l) => l,
    };
    let http = match toml_get(t, "http") {
        None => None,
        Some(TomlValue::Table(e)) => match read_http_services(e.as_slice(), default_bridge) {
            Ok(c) => Some(HttpServices { services: c }),
            Err(x) => return Err(x),
        },
        Some(_) => return Err(ConfigParseError::WrongType),
    };
    let tcp = match read_plain_section::<TcpServiceConf>(t, "tcp") {
        Err(x) => return Err(x),
        Ok(Some(c)) => Some(TcpServices { services: c }),
        Ok(None) => None,
    };
    let udp = match read_plain_section::<UdpServiceConf>(t, "udp") {
        Err(x) => return Err(x),
        Ok(Some(c)) => Some(UdpServices { services: c }),
        Ok(None) => None,
    };
    let tcp_udp = match read_plain_section::<TcpUdpServiceConf>(t, "tcp_udp") {
        Err(x) => return Err(x),
        Ok(Some(c)) => Some(TcpUdpServices { services: c }),
        Ok(None) => None,
    };
    Ok(Config { malai: MalaiConf { log }, http, tcp, udp, tcp_udp })
}

/// Parses the text of a configuration file of `malai run`; `default_bridge`
/// is the bridge of HTTP services that name none.
pub fn parse_config(text: &str, default_bridge: &str) -> (r: Result<Config, ParseFailure>)
    ensures
        match r {
            Ok(c) => config_from_text(text@, default_bridge@) == Ok::<ConfigView, ParseFailureView>(c@),
            Err(x) => config_from_text(text@, default_bridge@) == Err::<ConfigView, ParseFailureView>(x@),
        },
{
    match parse_toml_document(text) {
        Err(m) => Err(ParseFailure::Syntax(m)),
        Ok(t) => match config_from_table(t.as_slice(), default_bridge) {
            Ok(c) => Ok(c),
            Err(e) => Err(ParseFailure::Content(e)),
        },
    }
}


/// What starting a configuration does about one service, or one port of it.
pub enum ServiceStep {
    /// The service is not active: it is skipped.
    Inactive { name: String },
    /// The service is not public: it is skipped with a warning.
    NotPublic { name: String },
    /// The identities do not fit the ports: skipped with this message.
    Invalid { name: String, message: String },
    /// Load the identity at `port_index` and expose `host:port` under it.
    Bind { name: String, port_index: usize, port: u16, host: String },
}

/// A [`ServiceStep`] as plain values.
pub enum ServiceStepView {
    Inactive(Seq<char>),
    NotPublic(Seq<char>),
    Invalid(Seq<char>, Seq<char>),
    Bind(Seq<char>, nat, u16, Seq<char>),
}

impl View for ServiceStep {
    type V = ServiceStepView;

    open spec fn view(&self) -> ServiceStepView {
        match self {
            ServiceStep::Inactive { name } => ServiceStepView::Inactive(name@),
            ServiceStep::NotPublic { name } => ServiceStepView::NotPublic(name@),
            ServiceStep::Invalid { name, message } => ServiceStepView::Invalid(name@, message@),
            ServiceStep::Bind { name, port_index, port, host } => ServiceStepView::Bind(name@, *port_index as nat, *port, host@),
        }
    }
}

/// The steps for one service: skipped when inactive, not public or when its
/// identities do not fit its ports; else one binding per port, in order.
pub open spec fn service_steps(name: Seq<char>, s: ServiceView) -> Seq<ServiceStepView> {
    if !s.active {
        seq![ServiceStepView::Inactive(name)]
    } else if !s.public {
        seq![ServiceStepView::NotPublic(name)]
    } else {
        match identity_conf_problem(s.identity_conf, s.ports.len(), name) {
            Some(m) => seq![ServiceStepView::Invalid(name, m)],
            None => Seq::new(s.ports.len(), |i: int| ServiceStepView::Bind(name, i as nat, s.ports[i], s.host)),
        }
    }
}

/// The steps for a list of services, service after service.
pub open spec fn services_plan(s: Seq<(Seq<char>, ServiceView)>) -> Seq<ServiceStepView>
    decreases s.len(),
{
    if s.len() == 0 {
        Seq::empty()
    } else {
        services_plan(s.drop_last()) + service_steps(s.last().0, s.last().1)
    }
}

/// The views of a list of steps.
pub open spec fn steps_view(s: Seq<ServiceStep>) -> Seq<ServiceStepView> {
    s.map_values(|x: ServiceStep| x@)
}

fn push_service_steps<C: ServiceConfig>(steps: &mut Vec<ServiceStep>, name: &String, conf: &C)
    ensures
        steps_view(final(steps)@) == steps_view(old(steps)@) + service_steps(name@, conf.settings()),
{
    let ghost before = steps@;
    if !conf.active() {
        steps.push(ServiceStep::Inactive { name: name.clone() });
        assert(steps_view(steps@) =~= steps_view(before) + service_steps(name@, conf.settings()));
        return;
    }
    if !conf.public() {
        steps.push(ServiceStep::NotPublic { name: name.clone() });
        assert(steps_view(steps@) =~= steps_view(before) + service_steps(name@, conf.settings()));
        return;
    }
    let ports = conf.port();
    match validate_identity_conf(conf.identity_conf(), ports.len(), name.as_str()) {
        Err(message) => {
            steps.push(ServiceStep::Invalid { name: name.clone(), message });
            assert(steps_view(steps@) =~= steps_view(before) + service_steps(name@, conf.settings()));
        },
        Ok(()) => {
            let host = conf.host();
            let ghost target = service_steps(name@, conf.settings());
            let mut i: usize = 0;
            while i < ports.len()
                invariant
                    i <= ports@.len(),
                    ports@ == conf.settings().ports,
                    host@ == conf.settings().host,
                    target == Seq::new(ports@.len(), |k: int| ServiceStepView::Bind(name@, k as nat, ports@[k], host@)),
                    steps_view(steps@) =~= steps_view(before) + target.take(i as int),
                decreases ports.len() - i,
            {
                let ghost prev = steps@;
                steps.push(ServiceStep::Bind { name: name.clone(), port_index: i, port: ports[i], host: String::from_str(host) });
                assert(target.take(i + 1) =~= target.take(i as int).push(target[i as int]));
                assert(steps_view(steps@) =~= steps_view(prev).push(target[i as int]));
                i = i + 1;
            }
            assert(target.take(ports@.len() as int) =~= target);
        },
    }
}

/// Decides, service by service and port by port, what starting the given
/// services does; see [`services_plan`].
pub fn process_services<C: ServiceConfig>(services: &[(String, C)]) -> (steps: Vec<ServiceStep>)
    ensures
        steps_view(steps@) == services_plan(settings_pairs(services@)),
{
    let mut steps: Vec<ServiceStep> = Vec::new();
    let mut i: usize = 0;
    assert(settings_pairs(services@.take(0)) =~= Seq::<(Seq<char>, ServiceView)>::empty());
    assert(steps_view(steps@) =~= Seq::<ServiceStepView>::empty());
    while i < services.len()
        invariant
            i <= services@.len(),
            steps_view(steps@) == services_plan(settings_pairs(services@.take(i as int))),
        decreases services.len() - i,
    {
        let ghost sp = settings_pairs(services@.take(i + 1));
        assert(sp.drop_last() =~= settings_pairs(services@.take(i as int)));
        assert(sp.last() == (services@[i as int].0@, services@[i as int].1.settings()));
        push_service_steps(&mut steps, &services[i].0, &services[i].1);
        i = i + 1;
    }
    assert(services@.take(services@.len() as int) =~= services@);
    steps
}

/// Where the identity of one port is read from.
pub enum IdentitySource {
    /// A file that holds the secret key.
    SecretFile(String),
    /// An ID52 whose secret key is in the system keyring.
    Keyring(String),
    /// The default identity: from the environment, a secret key or id52 file
    /// of the working folder, or the keyring; created where none exists.
    Default,
}

/// An [`IdentitySource`] as plain values.
pub enum IdentitySourceView {
    SecretFile(Seq<char>),
    Keyring(Seq<char>),
    Default,
}

impl View for IdentitySource {
    type V = IdentitySourceView;

    open spec fn view(&self) -> IdentitySourceView {
        match self {
            IdentitySource::SecretFile(s) => IdentitySourceView::SecretFile(s@),
            IdentitySource::Keyring(s) => IdentitySourceView::Keyring(s@),
            IdentitySource::Default => IdentitySourceView::Default,
        }
    }
}

/// Where the identity of the port at `index` comes from: the secret file at
/// that index where secret files are given, else the identity at that index,
/// else the default identity; the error says which list is too short.
pub open spec fn identity_source_spec(c: IdentityConfView, index: nat) -> Result<IdentitySourceView, Seq<char>> {
    match c.secret_file {
        Some(f) => if index < f.entries().len() {
            Ok(IdentitySourceView::SecretFile(f.entries()[index as int]))
        } else {
            Err("secret_file index out of bounds"@)
        },
        None => match c.identity {
            None => Ok(IdentitySourceView::Default),
            Some(i) => if index < i.entries().len() {
                Ok(IdentitySourceView::Keyring(i.entries()[index as int]))
            } else {
                Err("identity index out of bounds"@)
            },
        },
    }
}

/// Chooses where the identity of the port at `port_index` is read from; see
/// [`identity_source_spec`].
pub fn identity_source(identity_conf: &IdentityConf, port_index: usize) -> (r: Result<IdentitySource, String>)
    ensures
        match r {
            Ok(s) => identity_source_spec(identity_conf@, port_index as nat) == Ok::<IdentitySourceView, Seq<char>>(s@),
            Err(m) => identity_source_spec(identity_conf@, port_index as nat) == Err::<IdentitySourceView, Seq<char>>(m@),
        },
{
    match &identity_conf.secret_file {
        Some(f) => match f.get(port_index) {
            Some(p) => Ok(IdentitySource::SecretFile(String::from_str(p))),
            None => Err(String::from_str("secret_file index out of bounds")),
        },
        None => match &identity_conf.identity {
            None => Ok(IdentitySource::Default),
            Some(i) => match i.get(port_index) {
                Some(id) => Ok(IdentitySource::Keyring(String::from_str(id))),
                None => Err(String::from_str("identity index out of bounds")),
            },
        },
    }
}


/// A service of several ports whose identities passed validation finds an
/// identity for each of its ports: loading never runs out of entries.
pub proof fn law_validated_ports_have_identities(c: IdentityConfView, ports: nat, service: Seq<char>, index: nat)
    requires
        identity_conf_problem(c, ports, service) is None,
        ports > 1,
        index < ports,
    ensures
        identity_source_spec(c, index) is Ok,
{
}

/// Once an identity has been recorded as used, recording it again is refused.
pub proof fn law_identity_used_once(before: Seq<String>, after: Seq<String>, id52: Seq<char>)
    requires
        strings_view(after) == strings_view(before).push(id52),
    ensures
        strings_view(after).contains(id52),
{
    assert(strings_view(after)[strings_view(before).len() as int] == id52);
}

/// Over a whole run of identity checks from the identities `u0` already in
/// use: the identities admitted are pairwise distinct and none was in use
/// before; what is in use at the end is `u0` followed by them; and every
/// identity tried is in use at the end (one refused was there already).
pub proof fn law_identities_distinct_across_run(u0: Seq<Seq<char>>, ids: Seq<Seq<char>>)
    ensures
        used_after(u0, ids) == u0 + admitted_ids(u0, ids),
        forall|i: int, j: int| 0 <= i < j < admitted_ids(u0, ids).len()
            ==> admitted_ids(u0, ids)[i] != admitted_ids(u0, ids)[j],
        forall|i: int| 0 <= i < admitted_ids(u0, ids).len() ==> !u0.contains(#[trigger] admitted_ids(u0, ids)[i]),
        forall|id: Seq<char>| ids.contains(id) ==> used_after(u0, ids).contains(id),
    decreases ids.len(),
{
    if ids.len() == 0 {
        assert(u0 + Seq::<Seq<char>>::empty() =~= u0);
    } else {
        let p = ids.drop_last();
        let x = ids.last();
        law_identities_distinct_across_run(u0, p);
        let u = used_after(u0, p);
        let a = admitted_ids(u0, p);
        if !u.contains(x) {
            assert(u0 + a.push(x) =~= u.push(x));
            assert(!u0.contains(x)) by {
                if u0.contains(x) {
                    let k = choose|k: int| 0 <= k < u0.len() && u0[k] == x;
                    assert(u[k] == x);
                }
            }
            assert(!a.contains(x)) by {
                if a.contains(x) {
                    let k = choose|k: int| 0 <= k < a.len() && a[k] == x;
                    assert(u[u0.len() + k] == x);
                }
            }
            let b = a.push(x);
            assert forall|i: int, j: int| 0 <= i < j < b.len() implies b[i] != b[j] by {
                if j == a.len() {
                    assert(b[i] == a[i]);
                }
            }
            assert forall|i: int| 0 <= i < b.len() implies !u0.contains(#[trigger] b[i]) by {
                if i < a.len() {
                    assert(b[i] == a[i]);
                }
            }
        }
        assert forall|id: Seq<char>| ids.contains(id) implies used_after(u0, ids).contains(id) by {
            let k = choose|k: int| 0 <= k < ids.len() && ids[k] == id;
            if k < p.len() {
                assert(p[k] == id);
                assert(p.contains(id));
                assert(u.contains(id));
                if !u.contains(x) {
                    let m = choose|m: int| 0 <= m < u.len() && u[m] == id;
                    assert(u.push(x)[m] == id);
                }
            } else {
                if !u.contains(x) {
                    assert(u.push(x)[u.len() as int] == x);
                }
            }
        }
    }
}

/// Every port of an active, public service whose identities fit is bound
/// exactly once, at its own index.
pub proof fn law_each_port_bound_once(name: Seq<char>, s: ServiceView, i: int)
    requires
        s.active,
        s.public,
        identity_conf_problem(s.identity_conf, s.ports.len(), name) is None,
        0 <= i < s.ports.len(),
    ensures
        service_steps(name, s).len() == s.ports.len(),
        service_steps(name, s)[i] == ServiceStepView::Bind(name, i as nat, s.ports[i], s.host),
{
}


/// The service named `name` in `services` is active and public.
pub open spec fn has_active_public(services: Seq<(Seq<char>, ServiceView)>, name: Seq<char>) -> bool {
    exists|k: int| 0 <= k < services.len() && services[k].0 == name && services[k].1.active && services[k].1.public
}

/// Only active and public services are ever bound: every binding in a plan
/// names a service of the list that is both.
pub proof fn law_only_active_public_services_bound(services: Seq<(Seq<char>, ServiceView)>, i: int)
    requires
        0 <= i < services_plan(services).len(),
        services_plan(services)[i] is Bind,
    ensures
        has_active_public(services, services_plan(services)[i]->Bind_0),
    decreases services.len(),
{
    let rest = services.drop_last();
    let last = services.last();
    let head = services_plan(rest);
    let tail = service_steps(last.0, last.1);
    assert(services_plan(services) == head + tail);
    if i < head.len() {
        assert(services_plan(services)[i] == head[i]);
        law_only_active_public_services_bound(rest, i);
        let k = choose|k: int| 0 <= k < rest.len() && rest[k].0 == head[i]->Bind_0 && rest[k].1.active && rest[k].1.public;
        assert(services[k] == rest[k]);
    } else {
        let j = i - head.len();
        assert(services_plan(services)[i] == tail[j]);
        assert(last.1.active && last.1.public);
        assert(tail[j]->Bind_0 == last.0);
        assert(services[services.len() - 1] == last);
    }
}

/// The identities of a service of several ports fit exactly when the list
/// that is used (`secret_file` where given, else `identity`) is absent (the
/// default identity) or is a list of exactly one entry per port. A list of
/// another length is refused with a message that names both counts; a
/// single entry is refused too.
pub proof fn law_identity_entries_match_ports(c: IdentityConfView, ports: nat, service: Seq<char>)
    requires
        ports > 1,
    ensures
        ({
            let (used, kind) = if c.secret_file is Some {
                (c.secret_file, "secret_file"@)
            } else {
                (c.identity, "identity"@)
            };
            &&& (identity_conf_problem(c, ports, service) is None) <==> (used is None
                || (used matches Some(StringOrVecView::Multiple(e)) && e.len() == ports))
            &&& (used matches Some(StringOrVecView::Multiple(e)) && e.len() != ports) ==> identity_conf_problem(c, ports, service)
                == Some("Service '"@ + service + "' has "@ + decimal(ports) + " ports but "@ + decimal(used->0->Multiple_0.len())
                    + " "@ + kind + " entries. The counts must match."@)
            &&& (used matches Some(StringOrVecView::Single(_))) ==> identity_conf_problem(c, ports, service) is Some
        }),
{
}

/// A service's host is the `host` string of its table where one is given,
/// and `127.0.0.1` only where the table has no `host`.
pub proof fn law_service_host(t: Seq<(String, TomlValue)>)
    requires
        service_settings_spec(t) is Ok,
    ensures
        toml_lookup(t, "host"@) matches Some(TomlValue::Str(h)) ==> service_settings_spec(t)->Ok_0.host == h@,
        toml_lookup(t, "host"@) is None ==> service_settings_spec(t)->Ok_0.host == "127.0.0.1"@,
{
}

/// A TOML array of port numbers, each in `0..=65535`, reads as those ports
/// in the same order; an element outside that range is refused with its
/// number.
pub proof fn law_port_list_kept_in_order(a: Seq<TomlValue>)
    ensures
        (forall|i: int| 0 <= i < a.len() ==> (#[trigger] a[i] matches TomlValue::Int(n) && 0 <= n <= 65535)) ==> (
            toml_ports(a) matches Ok(p) && p.len() == a.len()
                && forall|i: int| 0 <= i < a.len() ==> p[i] as int == #[trigger] a[i]->Int_0 as int),
        forall|i: int| 0 <= i < a.len() && (forall|j: int| 0 <= j < i ==> (#[trigger] a[j] matches TomlValue::Int(n) && 0 <= n <= 65535))
            && (#[trigger] a[i] matches TomlValue::Int(n) && !(0 <= n <= 65535)) ==> toml_ports(a) == Err::<Seq<u16>, ConfigParseError>(
                ConfigParseError::InvalidPort(a[i]->Int_0)),
    decreases a.len(),
{
    if a.len() > 0 {
        let p = a.drop_last();
        law_port_list_kept_in_order(p);
        assert forall|i: int| 0 <= i < p.len() implies p[i] == a[i] by {}
        if forall|i: int| 0 <= i < a.len() ==> (#[trigger] a[i] matches TomlValue::Int(n) && 0 <= n <= 65535) {
            assert(forall|i: int| 0 <= i < p.len() ==> (#[trigger] p[i] matches TomlValue::Int(n) && 0 <= n <= 65535)) by {
                assert forall|i: int| 0 <= i < p.len() implies (#[trigger] p[i] matches TomlValue::Int(n) && 0 <= n <= 65535) by {
                    assert(p[i] == a[i]);
                }
            }
            assert(a[a.len() - 1] matches TomlValue::Int(n) && 0 <= n <= 65535);
        }
        assert forall|i: int| 0 <= i < a.len() && (forall|j: int| 0 <= j < i ==> (#[trigger] a[j] matches TomlValue::Int(n) && 0 <= n <= 65535))
            && (#[trigger] a[i] matches TomlValue::Int(n) && !(0 <= n <= 65535)) implies toml_ports(a) == Err::<Seq<u16>, ConfigParseError>(
                ConfigParseError::InvalidPort(a[i]->Int_0)) by {
            if i < p.len() {
                assert(p[i] == a[i]);
                assert(forall|j: int| 0 <= j < i ==> (#[trigger] p[j] matches TomlValue::Int(n) && 0 <= n <= 65535)) by {
                    assert forall|j: int| 0 <= j < i implies (#[trigger] p[j] matches TomlValue::Int(n) && 0 <= n <= 65535) by {
                        assert(p[j] == a[j]);
                    }
                }
            } else {
                assert forall|j: int| 0 <= j < p.len() implies (#[trigger] p[j] matches TomlValue::Int(n) && 0 <= n <= 65535) by {
                    assert(p[j] == a[j]);
                }
            }
        }
    }
}

/// One port (`port = n`) reads as the list `[n]` when `n` is in
/// `0..=65535` and is refused as out of range, with its number, otherwise;
/// an empty list is refused.
pub proof fn law_single_port_and_empty_list(n: i64, empty: Vec<TomlValue>)
    requires
        empty@.len() == 0,
    ensures
        0 <= n <= 65535 ==> ports_value_spec(TomlValue::Int(n)) == Ok::<Seq<u16>, ConfigParseError>(seq![n as u16]),
        !(0 <= n <= 65535) ==> ports_value_spec(TomlValue::Int(n)) == Err::<Seq<u16>, ConfigParseError>(
            ConfigParseError::PortOutOfRange(n)),
        ports_value_spec(TomlValue::Array(empty)) == Err::<Seq<u16>, ConfigParseError>(ConfigParseError::EmptyPortList),
{
}

/// A service table that reads keeps its `public` and `active` flags as
/// written, and its ports as the `port` (or `ports`) value gives them.
pub proof fn law_service_flags_and_ports(t: Seq<(String, TomlValue)>)
    requires
        service_settings_spec(t) is Ok,
    ensures
        toml_lookup(t, "public"@) matches Some(TomlValue::Bool(b)) && service_settings_spec(t)->Ok_0.public == b,
        toml_lookup(t, "active"@) matches Some(TomlValue::Bool(b)) && service_settings_spec(t)->Ok_0.active == b,
        toml_lookup(t, "port"@) matches Some(v) ==> ports_value_spec(v) == Ok::<Seq<u16>, ConfigParseError>(service_settings_spec(t)->Ok_0.ports),
        toml_lookup(t, "ports"@) matches Some(v) ==> ports_value_spec(v) == Ok::<Seq<u16>, ConfigParseError>(service_settings_spec(t)->Ok_0.ports),
{
}

/// An HTTP service uses the bridge its table names, and the default bridge
/// only where it names none.
pub proof fn law_http_bridge(t: Vec<(String, TomlValue)>, default_bridge: Seq<char>)
    requires
        http_service_spec(TomlValue::Table(t), default_bridge) is Ok,
    ensures
        toml_lookup(t@, "bridge"@) matches Some(TomlValue::Str(b))
            ==> http_service_spec(TomlValue::Table(t), default_bridge)->Ok_0.bridge == b@,
        toml_lookup(t@, "bridge"@) is None
            ==> http_service_spec(TomlValue::Table(t), default_bridge)->Ok_0.bridge == default_bridge,
{
}

} // verus!
