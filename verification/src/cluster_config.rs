//! The cluster configuration: which machines belong to a cluster, who may
//! reach them over SSH, which commands and HTTP services each one offers,
//! and the role the local machine plays.

use vstd::prelude::*;
use crate::text::{has_char, str_eq, chars_of, chars_eq};
use crate::toml_doc::{
    ConfigParseError, ParseFailure, ParseFailureView, TomlValue, toml_document, toml_lookup,
    toml_get, parse_toml_document,
    field_str, field_opt_str, field_bool, field_port, section_entries, read_str, read_opt_str,
    read_bool, read_port, read_section, entries_spec, lemma_entries_err_prefix, pairs_view,
    entry_lookup, lookup_entry,
};

verus! {

/// The cluster manager's entry.
#[derive(Debug, Clone)]
pub struct ClusterManagerConfig {
    pub id52: String,
    pub use_keyring: bool,
    pub private_key_file: Option<String>,
    pub private_key: Option<String>,
}

/// Access to one command of a machine: a comma-separated list of id52s, or `*`.
#[derive(Debug, Clone)]
pub struct CommandConfig {
    pub allow_from: String,
}

/// An HTTP service of a machine and who may reach it.
#[derive(Debug, Clone)]
pub struct ServiceConfig {
    pub port: u16,
    pub allow_from: String,
}

/// One machine of the cluster.
#[derive(Debug, Clone)]
pub struct MachineConfig {
    pub id52: String,
    /// Whether the machine accepts SSH connections.
    pub accept_ssh: bool,
    /// Who may reach the machine over SSH.
    pub allow_from: Option<String>,
    /// Command-specific access, by command name.
    pub commands: Vec<(String, CommandConfig)>,
    /// HTTP services, by service name.
    pub services: Vec<(String, ServiceConfig)>,
}

/// A named group of machines.
#[derive(Debug, Clone)]
pub struct GroupConfig {
    /// Comma-separated machine names.
    pub members: String,
}

/// The whole cluster configuration.
#[derive(Debug, Clone)]
pub struct Config {
    pub cluster_manager: ClusterManagerConfig,
    pub machines: Vec<(String, MachineConfig)>,
    pub groups: Vec<(String, GroupConfig)>,
}

/// The role a machine plays in the cluster.
#[derive(Debug, Clone, PartialEq)]
pub enum MachineRole {
    /// This machine manages the cluster.
    ClusterManager,
    /// This machine accepts SSH (its machine name).
    SshServer(String),
    /// This machine is a client only (its machine name).
    ClientOnly(String),
    /// The machine is not in the configuration.
    Unknown,
}

// ---------------------------------------------------------------- models

pub open spec fn opt_view(o: Option<String>) -> Option<Seq<char>> {
    match o {
        Some(s) => Some(s@),
        None => None,
    }
}

pub struct ClusterManagerView {
    pub id52: Seq<char>,
    pub use_keyring: bool,
    pub private_key_file: Option<Seq<char>>,
    pub private_key: Option<Seq<char>>,
}

pub struct ServiceView {
    pub port: u16,
    pub allow_from: Seq<char>,
}

pub struct MachineView {
    pub id52: Seq<char>,
    pub accept_ssh: bool,
    pub allow_from: Option<Seq<char>>,
    pub commands: Seq<(Seq<char>, Seq<char>)>,
    pub services: Seq<(Seq<char>, ServiceView)>,
}

pub struct ConfigView {
    pub cluster_manager: ClusterManagerView,
    pub machines: Seq<(Seq<char>, MachineView)>,
    pub groups: Seq<(Seq<char>, Seq<char>)>,
}

pub enum MachineRoleView {
    ClusterManager,
    SshServer(Seq<char>),
    ClientOnly(Seq<char>),
    Unknown,
}

impl View for ClusterManagerConfig {
    type V = ClusterManagerView;

    open spec fn view(&self) -> ClusterManagerView {
        ClusterManagerView {
            id52: self.id52@,
            use_keyring: self.use_keyring,
            private_key_file: opt_view(self.private_key_file),
            private_key: opt_view(self.private_key),
        }
    }
}

impl View for CommandConfig {
    type V = Seq<char>;

    open spec fn view(&self) -> Seq<char> {
        self.allow_from@
    }
}

impl View for GroupConfig {
    type V = Seq<char>;

    open spec fn view(&self) -> Seq<char> {
        self.members@
    }
}

impl View for ServiceConfig {
    type V = ServiceView;

    open spec fn view(&self) -> ServiceView {
        ServiceView { port: self.port, allow_from: self.allow_from@ }
    }
}

impl View for MachineConfig {
    type V = MachineView;

    open spec fn view(&self) -> MachineView {
        MachineView {
            id52: self.id52@,
            accept_ssh: self.accept_ssh,
            allow_from: opt_view(self.allow_from),
            commands: pairs_view(self.commands@),
            services: pairs_view(self.services@),
        }
    }
}

impl View for Config {
    type V = ConfigView;

    open spec fn view(&self) -> ConfigView {
        ConfigView {
            cluster_manager: self.cluster_manager@,
            machines: pairs_view(self.machines@),
            groups: pairs_view(self.groups@),
        }
    }
}

impl View for MachineRole {
    type V = MachineRoleView;

    open spec fn view(&self) -> MachineRoleView {
        match self {
            MachineRole::ClusterManager => MachineRoleView::ClusterManager,
            MachineRole::SshServer(n) => MachineRoleView::SshServer(n@),
            MachineRole::ClientOnly(n) => MachineRoleView::ClientOnly(n@),
            MachineRole::Unknown => MachineRoleView::Unknown,
        }
    }
}

// ------------------------------------------------- reading the TOML form

/// A command's entry: `allow_from`.
pub open spec fn command_spec(v: TomlValue) -> Result<Seq<char>, ConfigParseError> {
    match v {
        TomlValue::Table(t) => field_str(t@, "allow_from"@),
        _ => Err(ConfigParseError::WrongType),
    }
}

pub open spec fn command_spec_fn() -> spec_fn(TomlValue) -> Result<Seq<char>, ConfigParseError> {
    |v: TomlValue| command_spec(v)
}

/// A service's entry: `port` and `allow_from`.
pub open spec fn service_spec(v: TomlValue) -> Result<ServiceView, ConfigParseError> {
    match v {
        TomlValue::Table(t) => match field_port(t@, "port"@) {
            Err(x) => Err(x),
            Ok(port) => match field_str(t@, "allow_from"@) {
                Err(x) => Err(x),
                Ok(a) => Ok(ServiceView { port, allow_from: a }),
            },
        },
        _ => Err(ConfigParseError::WrongType),
    }
}

pub open spec fn service_spec_fn() -> spec_fn(TomlValue) -> Result<ServiceView, ConfigParseError> {
    |v: TomlValue| service_spec(v)
}

/// A machine's entry: `id52`, `accept_ssh` (default `false`), `allow_from`
/// (optional), and the `command`/`commands` and `service`/`services`
/// sub-tables (default empty).
pub open spec fn machine_spec(v: TomlValue) -> Result<MachineView, ConfigParseError> {
    match v {
        TomlValue::Table(t) => match field_str(t@, "id52"@) {
            Err(x) => Err(x),
            Ok(id52) => match field_bool(t@, "accept_ssh"@, false) {
                Err(x) => Err(x),
                Ok(accept_ssh) => match field_opt_str(t@, "allow_from"@) {
                    Err(x) => Err(x),
                    Ok(allow_from) => match section_entries(t@, "command"@, "commands"@) {
                        Err(x) => Err(x),
                        Ok(ce) => match entries_spec(ce, command_spec_fn()) {
                            Err(x) => Err(x),
                            Ok(commands) => match section_entries(t@, "service"@, "services"@) {
                                Err(x) => Err(x),
                                Ok(se) => match entries_spec(se, service_spec_fn()) {
                                    Err(x) => Err(x),
                                    Ok(services) => Ok(MachineView { id52, accept_ssh, allow_from, commands, services }),
                                },
                            },
                        },
                    },
                },
            },
        },
        _ => Err(ConfigParseError::WrongType),
    }
}

pub open spec fn machine_spec_fn() -> spec_fn(TomlValue) -> Result<MachineView, ConfigParseError> {
    |v: TomlValue| machine_spec(v)
}

/// A group's entry: `members`.
pub open spec fn group_spec(v: TomlValue) -> Result<Seq<char>, ConfigParseError> {
    match v {
        TomlValue::Table(t) => field_str(t@, "members"@),
        _ => Err(ConfigParseError::WrongType),
    }
}

pub open spec fn group_spec_fn() -> spec_fn(TomlValue) -> Result<Seq<char>, ConfigParseError> {
    |v: TomlValue| group_spec(v)
}

/// The `[cluster_manager]` table: `id52`, `use_keyring` (default `true`),
/// `private_key_file` and `private_key` (optional).
pub open spec fn cluster_manager_spec(v: TomlValue) -> Result<ClusterManagerView, ConfigParseError> {
    match v {
        TomlValue::Table(t) => match field_str(t@, "id52"@) {
            Err(x) => Err(x),
            Ok(id52) => match field_bool(t@, "use_keyring"@, true) {
                Err(x) => Err(x),
                Ok(use_keyring) => match field_opt_str(t@, "private_key_file"@) {
                    Err(x) => Err(x),
                    Ok(private_key_file) => match field_opt_str(t@, "private_key"@) {
                        Err(x) => Err(x),
                        Ok(private_key) => Ok(ClusterManagerView { id52, use_keyring, private_key_file, private_key }),
                    },
                },
            },
        },
        _ => Err(ConfigParseError::WrongType),
    }
}

/// A whole document: `[cluster_manager]` (required), machines under
/// `machine` or `machines`, groups under `group` or `groups`; other keys are
/// ignored.
pub open spec fn config_spec(doc: Seq<(String, TomlValue)>) -> Result<ConfigView, ConfigParseError> {
    match toml_lookup(doc, "cluster_manager"@) {
        None => Err(ConfigParseError::MissingField),
        Some(cmv) => match cluster_manager_spec(cmv) {
            Err(x) => Err(x),
            Ok(cluster_manager) => match section_entries(doc, "machine"@, "machines"@) {
                Err(x) => Err(x),
                Ok(me) => match entries_spec(me, machine_spec_fn()) {
                    Err(x) => Err(x),
                    Ok(machines) => match section_entries(doc, "group"@, "groups"@) {
                        Err(x) => Err(x),
                        Ok(ge) => match entries_spec(ge, group_spec_fn()) {
                            Err(x) => Err(x),
                            Ok(groups) => Ok(ConfigView { cluster_manager, machines, groups }),
                        },
                    },
                },
            },
        },
    }
}

/// The configuration that a TOML text describes; where the text is not
/// TOML, the parser's message.
pub open spec fn config_from_text(text: Seq<char>) -> Result<ConfigView, ParseFailureView> {
    match toml_document(text) {
        Err(m) => Err(ParseFailureView::Syntax(m)),
        Ok(doc) => match config_spec(doc) {
            Ok(c) => Ok(c),
            Err(e) => Err(ParseFailureView::Content(e)),
        },
    }
}

fn command_from_toml(v: &TomlValue) -> (r: Result<CommandConfig, ConfigParseError>)
    ensures
        match r {
            Ok(c) => command_spec(*v) == Ok::<Seq<char>, ConfigParseError>(c.allow_from@),
            Err(x) => command_spec(*v) == Err::<Seq<char>, ConfigParseError>(x),
        },
{
    match v {
        TomlValue::Table(t) => {
            let allow_from = read_str(t.as_slice(), "allow_from")?;
            Ok(CommandConfig { allow_from })
        },
        _ => Err(ConfigParseError::WrongType),
    }
}

fn commands_from_toml(e: &[(String, TomlValue)]) -> (r: Result<Vec<(String, CommandConfig)>, ConfigParseError>)
    ensures
        match r {
            Ok(c) => entries_spec(e@, command_spec_fn()) == Ok::<Seq<(Seq<char>, Seq<char>)>, ConfigParseError>(
                pairs_view(c@)),
            Err(x) => entries_spec(e@, command_spec_fn()) == Err::<Seq<(Seq<char>, Seq<char>)>, ConfigParseError>(x),
        },
{
    let mut out: Vec<(String, CommandConfig)> = Vec::new();
    let mut i: usize = 0;
    assert(e@.take(0) =~= Seq::<(String, TomlValue)>::empty());
    assert(pairs_view(out@) =~= Seq::<(Seq<char>, Seq<char>)>::empty());
    while i < e.len()
        invariant
            i <= e@.len(),
            entries_spec(e@.take(i as int), command_spec_fn()) == Ok::<Seq<(Seq<char>, Seq<char>)>, ConfigParseError>(
                pairs_view(out@)),
        decreases e.len() - i,
    {
        assert(e@.take(i + 1).drop_last() =~= e@.take(i as int));
        match command_from_toml(&e[i].1) {
            Err(x) => {
                proof { lemma_entries_err_prefix(e@, command_spec_fn(), i + 1); }
                return Err(x);
            },
            Ok(c) => {
                let ghost before = out@;
                out.push((e[i].0.clone(), c));
                assert(pairs_view(out@) =~= pairs_view(before).push((e@[i as int].0@, c.allow_from@)));
            },
        }
        i = i + 1;
    }
    assert(e@.take(e@.len() as int) =~= e@);
    Ok(out)
}

fn service_from_toml(v: &TomlValue) -> (r: Result<ServiceConfig, ConfigParseError>)
    ensures
        match r {
            Ok(c) => service_spec(*v) == Ok::<ServiceView, ConfigParseError>(c@),
            Err(x) => service_spec(*v) == Err::<ServiceView, ConfigParseError>(x),
        },
{
    match v {
        TomlValue::Table(t) => {
            let port = read_port(t.as_slice(), "port")?;
            let allow_from = read_str(t.as_slice(), "allow_from")?;
            Ok(ServiceConfig { port, allow_from })
        },
        _ => Err(ConfigParseError::WrongType),
    }
}

fn services_from_toml(e: &[(String, TomlValue)]) -> (r: Result<Vec<(String, ServiceConfig)>, ConfigParseError>)
    ensures
        match r {
            Ok(c) => entries_spec(e@, service_spec_fn()) == Ok::<Seq<(Seq<char>, ServiceView)>, ConfigParseError>(
                pairs_view(c@)),
            Err(x) => entries_spec(e@, service_spec_fn()) == Err::<Seq<(Seq<char>, ServiceView)>, ConfigParseError>(x),
        },
{
    let mut out: Vec<(String, ServiceConfig)> = Vec::new();
    let mut i: usize = 0;
    assert(e@.take(0) =~= Seq::<(String, TomlValue)>::empty());
    assert(pairs_view(out@) =~= Seq::<(Seq<char>, ServiceView)>::empty());
    while i < e.len()
        invariant
            i <= e@.len(),
            entries_spec(e@.take(i as int), service_spec_fn()) == Ok::<Seq<(Seq<char>, ServiceView)>, ConfigParseError>(
                pairs_view(out@)),
        decreases e.len() - i,
    {
        assert(e@.take(i + 1).drop_last() =~= e@.take(i as int));
        match service_from_toml(&e[i].1) {
            Err(x) => {
                proof { lemma_entries_err_prefix(e@, service_spec_fn(), i + 1); }
                return Err(x);
            },
            Ok(c) => {
                let ghost before = out@;
                let ghost cv = c;
                out.push((e[i].0.clone(), c));
                assert(pairs_view(out@) =~= pairs_view(before).push((e@[i as int].0@, cv@)));
            },
        }
        i = i + 1;
    }
    assert(e@.take(e@.len() as int) =~= e@);
    Ok(out)
}

fn machine_from_toml(v: &TomlValue) -> (r: Result<MachineConfig, ConfigParseError>)
    ensures
        match r {
            Ok(c) => machine_spec(*v) == Ok::<MachineView, ConfigParseError>(c@),
            Err(x) => machine_spec(*v) == Err::<MachineView, ConfigParseError>(x),
        },
{
    match v {
        TomlValue::Table(t) => {
            let id52 = read_str(t.as_slice(), "id52")?;
            let accept_ssh = read_bool(t.as_slice(), "accept_ssh", false)?;
            let allow_from = read_opt_str(t.as_slice(), "allow_from")?;
            let ce = read_section(t.as_slice(), "command", "commands")?;
            let commands = commands_from_toml(ce)?;
            let se = read_section(t.as_slice(), "service", "services")?;
            let services = services_from_toml(se)?;
            let m = MachineConfig { id52, accept_ssh, allow_from, commands, services };
            assert(opt_view(m.allow_from) == opt_view(allow_from));
            Ok(m)
        },
        _ => Err(ConfigParseError::WrongType),
    }
}

fn machines_from_toml(e: &[(String, TomlValue)]) -> (r: Result<Vec<(String, MachineConfig)>, ConfigParseError>)
    ensures
        match r {
            Ok(c) => entries_spec(e@, machine_spec_fn()) == Ok::<Seq<(Seq<char>, MachineView)>, ConfigParseError>(
                pairs_view(c@)),
            Err(x) => entries_spec(e@, machine_spec_fn()) == Err::<Seq<(Seq<char>, MachineView)>, ConfigParseError>(x),
        },
{
    let mut out: Vec<(String, MachineConfig)> = Vec::new();
    let mut i: usize = 0;
    assert(e@.take(0) =~= Seq::<(String, TomlValue)>::empty());
    assert(pairs_view(out@) =~= Seq::<(Seq<char>, MachineView)>::empty());
    while i < e.len()
        invariant
            i <= e@.len(),
            entries_spec(e@.take(i as int), machine_spec_fn()) == Ok::<Seq<(Seq<char>, MachineView)>, ConfigParseError>(
                pairs_view(out@)),
        decreases e.len() - i,
    {
        assert(e@.take(i + 1).drop_last() =~= e@.take(i as int));
        match machine_from_toml(&e[i].1) {
            Err(x) => {
                proof { lemma_entries_err_prefix(e@, machine_spec_fn(), i + 1); }
                return Err(x);
            },
            Ok(c) => {
                let ghost before = out@;
                let ghost cv = c;
                out.push((e[i].0.clone(), c));
                assert(pairs_view(out@) =~= pairs_view(before).push((e@[i as int].0@, cv@)));
            },
        }
        i = i + 1;
    }
    assert(e@.take(e@.len() as int) =~= e@);
    Ok(out)
}

fn group_from_toml(v: &TomlValue) -> (r: Result<GroupConfig, ConfigParseError>)
    ensures
        match r {
            Ok(c) => group_spec(*v) == Ok::<Seq<char>, ConfigParseError>(c.members@),
            Err(x) => group_spec(*v) == Err::<Seq<char>, ConfigParseError>(x),
        },
{
    match v {
        TomlValue::Table(t) => {
            let members = read_str(t.as_slice(), "members")?;
            Ok(GroupConfig { members })
        },
        _ => Err(ConfigParseError::WrongType),
    }
}

fn groups_from_toml(e: &[(String, TomlValue)]) -> (r: Result<Vec<(String, GroupConfig)>, ConfigParseError>)
    ensures
        match r {
            Ok(c) => entries_spec(e@, group_spec_fn()) == Ok::<Seq<(Seq<char>, Seq<char>)>, ConfigParseError>(
                pairs_view(c@)),
            Err(x) => entries_spec(e@, group_spec_fn()) == Err::<Seq<(Seq<char>, Seq<char>)>, ConfigParseError>(x),
        },
{
    let mut out: Vec<(String, GroupConfig)> = Vec::new();
    let mut i: usize = 0;
    assert(e@.take(0) =~= Seq::<(String, TomlValue)>::empty());
    assert(pairs_view(out@) =~= Seq::<(Seq<char>, Seq<char>)>::empty());
    while i < e.len()
        invariant
            i <= e@.len(),
            entries_spec(e@.take(i as int), group_spec_fn()) == Ok::<Seq<(Seq<char>, Seq<char>)>, ConfigParseError>(
                pairs_view(out@)),
        decreases e.len() - i,
    {
        assert(e@.take(i + 1).drop_last() =~= e@.take(i as int));
        match group_from_toml(&e[i].1) {
            Err(x) => {
                proof { lemma_entries_err_prefix(e@, group_spec_fn(), i + 1); }
                return Err(x);
            },
            Ok(c) => {
                let ghost before = out@;
                let ghost cv = c;
                out.push((e[i].0.clone(), c));
                assert(pairs_view(out@) =~= pairs_view(before).push((e@[i as int].0@, cv@)));
            },
        }
        i = i + 1;
    }
    assert(e@.take(e@.len() as int) =~= e@);
    Ok(out)
}

fn cluster_manager_from_toml(v: &TomlValue) -> (r: Result<ClusterManagerConfig, ConfigParseError>)
    ensures
        match r {
            Ok(c) => cluster_manager_spec(*v) == Ok::<ClusterManagerView, ConfigParseError>(c@),
            Err(x) => cluster_manager_spec(*v) == Err::<ClusterManagerView, ConfigParseError>(x),
        },
{
    match v {
        TomlValue::Table(t) => {
            let id52 = read_str(t.as_slice(), "id52")?;
            let use_keyring = read_bool(t.as_slice(), "use_keyring", default_true())?;
            let private_key_file = read_opt_str(t.as_slice(), "private_key_file")?;
            let private_key = read_opt_str(t.as_slice(), "private_key")?;
            Ok(ClusterManagerConfig { id52, use_keyring, private_key_file, private_key })
        },
        _ => Err(ConfigParseError::WrongType),
    }
}

impl Config {
    /// Reads a configuration from a parsed TOML document; see [`config_spec`].
    pub fn from_table(doc: &[(String, TomlValue)]) -> (r: Result<Config, ConfigParseError>)
        ensures
            match r {
                Ok(c) => config_spec(doc@) == Ok::<ConfigView, ConfigParseError>(c@),
                Err(x) => config_spec(doc@) == Err::<ConfigView, ConfigParseError>(x),
            },
    {
        let cmv = match toml_get(doc, "cluster_manager") {
            None => return Err(ConfigParseError::MissingField),
            Some(v) => v,
        };
        let cluster_manager = cluster_manager_from_toml(cmv)?;
        let me = read_section(doc, "machine", "machines")?;
        let machines = machines_from_toml(me)?;
        let ge = read_section(doc, "group", "groups")?;
        let groups = groups_from_toml(ge)?;
        Ok(Config { cluster_manager, machines, groups })
    }

    /// Reads a configuration from its TOML text; see [`config_from_text`].
    pub fn from_toml_str(text: &str) -> (r: Result<Config, ParseFailure>)
        ensures
            match r {
                Ok(c) => config_from_text(text@) == Ok::<ConfigView, ParseFailureView>(c@),
                Err(x) => config_from_text(text@) == Err::<ConfigView, ParseFailureView>(x@),
            },
    {
        let doc = match parse_toml_document(text) {
            Err(m) => return Err(ParseFailure::Syntax(m)),
            Ok(d) => d,
        };
        match Config::from_table(doc.as_slice()) {
            Ok(c) => Ok(c),
            Err(e) => Err(ParseFailure::Content(e)),
        }
    }
}

// ---------------------------------------------------------- access rules

/// The pieces of `s` between occurrences of `sep`, in order: as many as
/// `s` has separators, plus one (`"a,,b"` gives `a`, the empty piece, `b`).
pub open spec fn split_pieces(s: Seq<char>, sep: char) -> Seq<Seq<char>>
    decreases s.len(),
{
    if s.len() == 0 {
        seq![Seq::<char>::empty()]
    } else {
        let r = split_pieces(s.drop_last(), sep);
        if s.last() == sep {
            r.push(Seq::<char>::empty())
        } else {
            r.update(r.len() - 1, r.last().push(s.last()))
        }
    }
}

/// The entries of an `allow_from` list: its text split on commas.
pub open spec fn allow_entries(allow_from: Seq<char>) -> Seq<Seq<char>> {
    split_pieces(allow_from, ',')
}

/// An `allow_from` list (a comma-separated list of id52s, or `*`) admits
/// `client` when one of its entries is the client's id52 or is `*`.
pub open spec fn allows(allow_from: Seq<char>, client: Seq<char>) -> bool {
    allow_entries(allow_from).contains(client) || allow_entries(allow_from).contains(seq!['*'])
}

/// A machine admits `client` over SSH: it accepts SSH and its own
/// `allow_from` admits the client.
pub open spec fn grants_ssh(m: MachineView, client: Seq<char>) -> bool {
    m.accept_ssh && match m.allow_from {
        Some(a) => allows(a, client),
        None => false,
    }
}

/// The names of the machines that admit `client` over SSH, in order.
pub open spec fn accessible_names(ms: Seq<(Seq<char>, MachineView)>, client: Seq<char>) -> Seq<Seq<char>>
    decreases ms.len(),
{
    if ms.len() == 0 {
        Seq::empty()
    } else if grants_ssh(ms.last().1, client) {
        accessible_names(ms.drop_last(), client).push(ms.last().0)
    } else {
        accessible_names(ms.drop_last(), client)
    }
}

/// `client` may run `command` on `machine`: the machine exists and accepts
/// SSH, and the command's own `allow_from` admits the client where the
/// command has an entry, else the machine's `allow_from` does.
pub open spec fn can_execute_spec(cfg: ConfigView, client: Seq<char>, machine: Seq<char>, command: Seq<char>) -> bool {
    match entry_lookup(cfg.machines, machine) {
        None => false,
        Some(m) => m.accept_ssh && match entry_lookup(m.commands, command) {
            Some(a) => allows(a, client),
            None => grants_ssh(m, client),
        },
    }
}

/// `client` may reach the HTTP service `service` of `machine`.
pub open spec fn can_access_service_spec(cfg: ConfigView, client: Seq<char>, machine: Seq<char>, service: Seq<char>) -> bool {
    match entry_lookup(cfg.machines, machine) {
        None => false,
        Some(m) => match entry_lookup(m.services, service) {
            None => false,
            Some(sv) => allows(sv.allow_from, client),
        },
    }
}

/// The first machine whose id52 is `id52`.
pub open spec fn machine_with_id(ms: Seq<(Seq<char>, MachineView)>, id52: Seq<char>) -> Option<(Seq<char>, MachineView)>
    decreases ms.len(),
{
    if ms.len() == 0 {
        None
    } else if ms[0].1.id52 == id52 {
        Some(ms[0])
    } else {
        machine_with_id(ms.drop_first(), id52)
    }
}

/// The role of the machine whose identity is `local`: the cluster manager's
/// id52 first, then the first machine with that id52.
pub open spec fn local_role_spec(cfg: ConfigView, local: Seq<char>) -> MachineRoleView {
    if cfg.cluster_manager.id52 == local {
        MachineRoleView::ClusterManager
    } else {
        match machine_with_id(cfg.machines, local) {
            Some((name, m)) => if m.accept_ssh {
                MachineRoleView::SshServer(name)
            } else {
                MachineRoleView::ClientOnly(name)
            },
            None => MachineRoleView::Unknown,
        }
    }
}

/// Whether an entry of an `allow_from` list names `client` or is `*`.
fn entry_admits(entry: &[char], client: &[char]) -> (b: bool)
    ensures
        b == (entry@ == client@ || entry@ == seq!['*']),
{
    if chars_eq(entry, client) {
        return true;
    }
    let r = entry.len() == 1 && entry[0] == '*';
    proof {
        if entry@ == seq!['*'] {
            assert(entry@[0] == '*');
        }
        if r {
            assert(entry@ =~= seq!['*']);
        }
    }
    r
}

/// Whether an `allow_from` list admits `client`; see [`allows`].
pub fn allow_list_admits(allow_from: &str, client: &str) -> (b: bool)
    ensures
        b == allows(allow_from@, client@),
{
    let a = chars_of(allow_from);
    let c = chars_of(client);
    let mut cur: Vec<char> = Vec::new();
    let mut found = false;
    let ghost mut done: Seq<Seq<char>> = Seq::empty();
    let mut i: usize = 0;
    assert(a@.take(0) =~= Seq::<char>::empty());
    assert(cur@ =~= Seq::<char>::empty());
    assert(split_pieces(a@.take(0), ',') =~= done.push(cur@));
    while i < a.len()
        invariant
            i <= a@.len(),
            split_pieces(a@.take(i as int), ',') == done.push(cur@),
            found == (done.contains(c@) || done.contains(seq!['*'])),
        decreases a.len() - i,
    {
        let ch = a[i];
        assert(a@.take(i + 1).drop_last() =~= a@.take(i as int));
        assert(a@.take(i + 1).last() == ch);
        if ch == ',' {
            let hit = entry_admits(cur.as_slice(), c.as_slice());
            proof {
                let d2 = done.push(cur@);
                assert(d2.contains(c@) == (done.contains(c@) || cur@ == c@)) by {
                    if d2.contains(c@) && !done.contains(c@) {
                        let k = choose|k: int| 0 <= k < d2.len() && d2[k] == c@;
                        if k < done.len() { assert(d2[k] == done[k]); }
                    }
                    if done.contains(c@) {
                        let k = choose|k: int| 0 <= k < done.len() && done[k] == c@;
                        assert(d2[k] == done[k]);
                    }
                    if cur@ == c@ { assert(d2[done.len() as int] == c@); }
                }
                assert(d2.contains(seq!['*']) == (done.contains(seq!['*']) || cur@ == seq!['*'])) by {
                    if d2.contains(seq!['*']) && !done.contains(seq!['*']) {
                        let k = choose|k: int| 0 <= k < d2.len() && d2[k] == seq!['*'];
                        if k < done.len() { assert(d2[k] == done[k]); }
                    }
                    if done.contains(seq!['*']) {
                        let k = choose|k: int| 0 <= k < done.len() && done[k] == seq!['*'];
                        assert(d2[k] == done[k]);
                    }
                    if cur@ == seq!['*'] { assert(d2[done.len() as int] == seq!['*']); }
                }
                done = d2;
            }
            found = found || hit;
            cur = Vec::new();
            assert(split_pieces(a@.take(i + 1), ',') =~= done.push(cur@));
        } else {
            let ghost before = cur@;
            cur.push(ch);
            assert(split_pieces(a@.take(i + 1), ',') =~= done.push(before).update(done.len() as int, before.push(ch)));
            assert(done.push(before).update(done.len() as int, before.push(ch)) =~= done.push(cur@));
        }
        i = i + 1;
    }
    assert(a@.take(a@.len() as int) =~= a@);
    let last = entry_admits(cur.as_slice(), c.as_slice());
    proof {
        let d2 = done.push(cur@);
        assert(d2.contains(c@) == (done.contains(c@) || cur@ == c@)) by {
            if d2.contains(c@) && !done.contains(c@) {
                let k = choose|k: int| 0 <= k < d2.len() && d2[k] == c@;
                if k < done.len() { assert(d2[k] == done[k]); }
            }
            if done.contains(c@) {
                let k = choose|k: int| 0 <= k < done.len() && done[k] == c@;
                assert(d2[k] == done[k]);
            }
            if cur@ == c@ { assert(d2[done.len() as int] == c@); }
        }
        assert(d2.contains(seq!['*']) == (done.contains(seq!['*']) || cur@ == seq!['*'])) by {
            if d2.contains(seq!['*']) && !done.contains(seq!['*']) {
                let k = choose|k: int| 0 <= k < d2.len() && d2[k] == seq!['*'];
                if k < done.len() { assert(d2[k] == done[k]); }
            }
            if done.contains(seq!['*']) {
                let k = choose|k: int| 0 <= k < done.len() && done[k] == seq!['*'];
                assert(d2[k] == done[k]);
            }
            if cur@ == seq!['*'] { assert(d2[done.len() as int] == seq!['*']); }
        }
    }
    found || last
}

fn machine_grants_ssh(m: &MachineConfig, client: &str) -> (b: bool)
    ensures
        b == grants_ssh(m@, client@),
{
    if !m.accept_ssh {
        return false;
    }
    match &m.allow_from {
        Some(a) => allow_list_admits(a.as_str(), client),
        None => false,
    }
}

impl Config {
    /// The machines that `client_id52` may reach over SSH.
    pub fn get_accessible_machines(&self, client_id52: &str) -> (r: Vec<String>)
        ensures
            r@.map_values(|s: String| s@) == accessible_names(self@.machines, client_id52@),
    {
        let mut out: Vec<String> = Vec::new();
        let mut i: usize = 0;
        let ghost ms = self@.machines;
        assert(ms.take(0) =~= Seq::<(Seq<char>, MachineView)>::empty());
        assert(out@.map_values(|s: String| s@) =~= Seq::<Seq<char>>::empty());
        while i < self.machines.len()
            invariant
                ms == self@.machines,
                ms.len() == self.machines@.len(),
                i <= ms.len(),
                out@.map_values(|s: String| s@) == accessible_names(ms.take(i as int), client_id52@),
            decreases self.machines.len() - i,
        {
            assert(ms.take(i + 1).drop_last() =~= ms.take(i as int));
            assert(ms[i as int] == (self.machines@[i as int].0@, self.machines@[i as int].1@));
            if machine_grants_ssh(&self.machines[i].1, client_id52) {
                let ghost before = out@;
                out.push(self.machines[i].0.clone());
                assert(out@.map_values(|s: String| s@) =~= before.map_values(|s: String| s@).push(ms[i as int].0));
            }
            i = i + 1;
        }
        assert(ms.take(ms.len() as int) =~= ms);
        out
    }

    /// Whether `client_id52` may run `command` on `machine_name`.
    pub fn can_execute_command(&self, client_id52: &str, machine_name: &str, command: &str) -> (b: bool)
        ensures
            b == can_execute_spec(self@, client_id52@, machine_name@, command@),
    {
        match lookup_entry(self.machines.as_slice(), machine_name) {
            None => false,
            Some(machine) => {
                if !machine.accept_ssh {
                    return false;
                }
                match lookup_entry(machine.commands.as_slice(), command) {
                    Some(cmd) => allow_list_admits(cmd.allow_from.as_str(), client_id52),
                    None => machine_grants_ssh(machine, client_id52),
                }
            },
        }
    }

    /// Whether `client_id52` may reach the HTTP service `service_name` of
    /// `machine_name`.
    pub fn can_access_service(&self, client_id52: &str, machine_name: &str, service_name: &str) -> (b: bool)
        ensures
            b == can_access_service_spec(self@, client_id52@, machine_name@, service_name@),
    {
        match lookup_entry(self.machines.as_slice(), machine_name) {
            None => false,
            Some(machine) => match lookup_entry(machine.services.as_slice(), service_name) {
                None => false,
                Some(service) => allow_list_admits(service.allow_from.as_str(), client_id52),
            },
        }
    }

    /// The role of the machine whose identity is `local_id52`.
    pub fn get_local_role(&self, local_id52: &str) -> (r: MachineRole)
        ensures
            r@ == local_role_spec(self@, local_id52@),
    {
        if str_eq(self.cluster_manager.id52.as_str(), local_id52) {
            return MachineRole::ClusterManager;
        }
        let ghost ms = self@.machines;
        let mut i: usize = 0;
        assert(ms.skip(0) =~= ms);
        while i < self.machines.len()
            invariant
                ms == self@.machines,
                ms.len() == self.machines@.len(),
                i <= ms.len(),
                machine_with_id(ms, local_id52@) == machine_with_id(ms.skip(i as int), local_id52@),
                self@.cluster_manager.id52 != local_id52@,
            decreases self.machines.len() - i,
        {
            assert(ms.skip(i as int).drop_first() =~= ms.skip(i + 1));
            assert(ms.skip(i as int)[0] == (self.machines@[i as int].0@, self.machines@[i as int].1@));
            if str_eq(self.machines[i].1.id52.as_str(), local_id52) {
                let name = self.machines[i].0.clone();
                if self.machines[i].1.accept_ssh {
                    return MachineRole::SshServer(name);
                } else {
                    return MachineRole::ClientOnly(name);
                }
            }
            i = i + 1;
        }
        assert(ms.skip(i as int).len() == 0);
        MachineRole::Unknown
    }

    /// The machine called `name`, if any.
    pub fn machine(&self, name: &str) -> (r: Option<&MachineConfig>)
        ensures
            match r {
                Some(m) => entry_lookup(self@.machines, name@) == Some(m@),
                None => entry_lookup(self@.machines, name@) is None,
            },
    {
        lookup_entry(self.machines.as_slice(), name)
    }
}

// ------------------------------------------------------------------ laws

/// No two machines share a name (as in any TOML table).
pub open spec fn machine_names_distinct(cfg: ConfigView) -> bool {
    forall|i: int, j: int| 0 <= i < j < cfg.machines.len() ==> cfg.machines[i].0 != cfg.machines[j].0
}

proof fn lemma_accessible_member(ms: Seq<(Seq<char>, MachineView)>, client: Seq<char>, name: Seq<char>)
    requires
        accessible_names(ms, client).contains(name),
    ensures
        exists|i: int| 0 <= i < ms.len() && ms[i].0 == name && grants_ssh(ms[i].1, client),
    decreases ms.len(),
{
    if ms.len() > 0 {
        let rest = accessible_names(ms.drop_last(), client);
        if grants_ssh(ms.last().1, client) && name == ms.last().0 {
            assert(ms[ms.len() - 1].0 == name);
        } else {
            if grants_ssh(ms.last().1, client) {
                let k = choose|k: int| 0 <= k < rest.push(ms.last().0).len() && rest.push(ms.last().0)[k] == name;
                assert(k < rest.len());
                assert(rest[k] == name);
            }
            assert(rest.contains(name));
            lemma_accessible_member(ms.drop_last(), client, name);
            let i = choose|i: int| 0 <= i < ms.drop_last().len() && ms.drop_last()[i].0 == name && grants_ssh(ms.drop_last()[i].1, client);
            assert(ms[i] == ms.drop_last()[i]);
        }
    }
}

proof fn lemma_lookup_distinct<T>(ms: Seq<(Seq<char>, T)>, i: int)
    requires
        0 <= i < ms.len(),
        forall|a: int, b: int| 0 <= a < b < ms.len() ==> ms[a].0 != ms[b].0,
    ensures
        entry_lookup(ms, ms[i].0) == Some(ms[i].1),
    decreases i,
{
    if i > 0 {
        assert(ms[0].0 != ms[i].0);
        let rest = ms.drop_first();
        assert forall|a: int, b: int| 0 <= a < b < rest.len() implies rest[a].0 != rest[b].0 by {
            assert(rest[a] == ms[a + 1] && rest[b] == ms[b + 1]);
        }
        lemma_lookup_distinct(rest, i - 1);
        assert(rest[i - 1] == ms[i]);
    }
}

/// Every machine that `get_accessible_machines` lists for a client lets that
/// client run any command that has no entry of its own (machine names being
/// distinct).
pub proof fn law_accessible_machines_accept_commands(cfg: ConfigView, client: Seq<char>, name: Seq<char>, command: Seq<char>)
    requires
        machine_names_distinct(cfg),
        accessible_names(cfg.machines, client).contains(name),
        entry_lookup(cfg.machines, name) matches Some(m) ==> entry_lookup(m.commands, command) is None,
    ensures
        can_execute_spec(cfg, client, name, command),
{
    lemma_accessible_member(cfg.machines, client, name);
    let i = choose|i: int| 0 <= i < cfg.machines.len() && cfg.machines[i].0 == name && grants_ssh(cfg.machines[i].1, client);
    lemma_lookup_distinct(cfg.machines, i);
}

/// A machine that accepts SSH and whose `allow_from` has the entry `*` lets every
/// client run every command that has no entry of its own.
pub proof fn law_wildcard_admits_everyone(cfg: ConfigView, machine: Seq<char>, client: Seq<char>, command: Seq<char>)
    requires
        entry_lookup(cfg.machines, machine) is Some,
        entry_lookup(cfg.machines, machine).unwrap().accept_ssh,
        entry_lookup(cfg.machines, machine).unwrap().allow_from is Some,
        allow_entries(entry_lookup(cfg.machines, machine).unwrap().allow_from.unwrap()).contains(seq!['*']),
        entry_lookup(entry_lookup(cfg.machines, machine).unwrap().commands, command) is None,
    ensures
        can_execute_spec(cfg, client, machine, command),
{
}

/// On a machine that accepts SSH, a command with an entry of its own is
/// allowed exactly to the clients that entry admits, whatever the machine's
/// own list says.
pub proof fn law_command_entry_decides(cfg: ConfigView, machine: Seq<char>, client: Seq<char>, command: Seq<char>)
    requires
        entry_lookup(cfg.machines, machine) is Some,
        entry_lookup(cfg.machines, machine).unwrap().accept_ssh,
        entry_lookup(entry_lookup(cfg.machines, machine).unwrap().commands, command) is Some,
    ensures
        can_execute_spec(cfg, client, machine, command) == allows(
            entry_lookup(entry_lookup(cfg.machines, machine).unwrap().commands, command).unwrap(), client),
{
}

/// Nobody may run anything on a machine that does not accept SSH, nor on a
/// machine that is not in the configuration.
pub proof fn law_no_ssh_no_commands(cfg: ConfigView, machine: Seq<char>, client: Seq<char>, command: Seq<char>)
    requires
        entry_lookup(cfg.machines, machine) is Some ==> !entry_lookup(cfg.machines, machine).unwrap().accept_ssh,
    ensures
        !can_execute_spec(cfg, client, machine, command),
{
}

/// Text without `sep` is a single piece.
proof fn lemma_split_no_sep(t: Seq<char>, sep: char)
    requires
        !has_char(t, sep),
    ensures
        split_pieces(t, sep) == seq![t],
    decreases t.len(),
{
    if t.len() > 0 {
        let p = t.drop_last();
        assert(!has_char(p, sep)) by {
            if has_char(p, sep) {
                let k = choose|k: int| 0 <= k < p.len() && p[k] == sep;
                assert(t[k] == sep);
            }
        }
        lemma_split_no_sep(p, sep);
        assert(t[t.len() - 1] != sep);
        assert(p.push(t.last()) =~= t);
        assert(seq![p].update(0, p.push(t.last())) =~= seq![t]);
    } else {
        assert(t =~= Seq::<char>::empty());
    }
}

/// Appending a separator and a piece without separators appends that piece.
proof fn lemma_split_append(s: Seq<char>, t: Seq<char>, sep: char)
    requires
        !has_char(t, sep),
    ensures
        split_pieces(s + seq![sep] + t, sep) == split_pieces(s, sep).push(t),
    decreases t.len(),
{
    let u = s + seq![sep] + t;
    if t.len() == 0 {
        assert(u.drop_last() =~= s);
        assert(u.last() == sep);
        assert(t =~= Seq::<char>::empty());
    } else {
        let p = t.drop_last();
        assert(!has_char(p, sep)) by {
            if has_char(p, sep) {
                let k = choose|k: int| 0 <= k < p.len() && p[k] == sep;
                assert(t[k] == sep);
            }
        }
        lemma_split_append(s, p, sep);
        assert(u.drop_last() =~= s + seq![sep] + p);
        assert(u.last() == t[t.len() - 1]);
        let r = split_pieces(s, sep).push(p);
        assert(p.push(u.last()) =~= t);
        assert(r.last() == p);
        assert(r.update(r.len() - 1, r.last().push(u.last())) =~= split_pieces(s, sep).push(t));
    }
}

/// An `allow_from` list written out from its entries: the entries joined by
/// commas.
pub open spec fn join_entries(ids: Seq<Seq<char>>) -> Seq<char>
    decreases ids.len(),
{
    if ids.len() == 0 {
        Seq::empty()
    } else if ids.len() == 1 {
        ids[0]
    } else {
        join_entries(ids.drop_last()) + seq![','] + ids.last()
    }
}

/// An `allow_from` list written as comma-separated id52s (none holding a
/// comma) has exactly those entries, and admits exactly the listed clients,
/// or everyone where one entry is `*`; an id52 that is only part of an entry
/// is not admitted.
pub proof fn law_allow_list_entries(ids: Seq<Seq<char>>, client: Seq<char>)
    requires
        ids.len() >= 1,
        forall|i: int| 0 <= i < ids.len() ==> !has_char(#[trigger] ids[i], ','),
    ensures
        allow_entries(join_entries(ids)) == ids,
        allows(join_entries(ids), client) == (ids.contains(client) || ids.contains(seq!['*'])),
    decreases ids.len(),
{
    if ids.len() == 1 {
        lemma_split_no_sep(ids[0], ',');
        assert(seq![ids[0]] =~= ids);
    } else {
        let p = ids.drop_last();
        assert forall|i: int| 0 <= i < p.len() implies !has_char(#[trigger] p[i], ',') by {
            assert(p[i] == ids[i]);
        }
        law_allow_list_entries(p, client);
        assert(!has_char(ids[ids.len() - 1], ','));
        lemma_split_append(join_entries(p), ids.last(), ',');
        assert(p.push(ids.last()) =~= ids);
    }
}

/// The cluster manager's own identity always has the cluster-manager role.
pub proof fn law_manager_identity_has_manager_role(cfg: ConfigView)
    ensures
        local_role_spec(cfg, cfg.cluster_manager.id52) == MachineRoleView::ClusterManager,
{
}

/// The default of `use_keyring`: keys live in the system keyring unless the
/// configuration says otherwise.
pub fn default_true() -> (b: bool)
    ensures
        b,
{
    true
}

/// The first entry whose key is `key` gives the value of a lookup.
proof fn lemma_lookup_first<T>(ms: Seq<(Seq<char>, T)>, key: Seq<char>, i: int)
    requires
        0 <= i < ms.len(),
        ms[i].0 == key,
        forall|j: int| 0 <= j < i ==> ms[j].0 != key,
    ensures
        entry_lookup(ms, key) == Some(ms[i].1),
    decreases i,
{
    if i > 0 {
        let rest = ms.drop_first();
        assert(ms[0].0 != key);
        assert forall|j: int| 0 <= j < i - 1 implies rest[j].0 != key by {
            assert(rest[j] == ms[j + 1]);
        }
        lemma_lookup_first(rest, key, i - 1);
        assert(rest[i - 1] == ms[i]);
    }
}

/// A lookup of a key that no entry has finds nothing.
proof fn lemma_lookup_absent<T>(ms: Seq<(Seq<char>, T)>, key: Seq<char>)
    requires
        forall|j: int| 0 <= j < ms.len() ==> ms[j].0 != key,
    ensures
        entry_lookup(ms, key) is None,
    decreases ms.len(),
{
    if ms.len() > 0 {
        let rest = ms.drop_first();
        assert(ms[0].0 != key);
        assert forall|j: int| 0 <= j < rest.len() implies rest[j].0 != key by {
            assert(rest[j] == ms[j + 1]);
        }
        lemma_lookup_absent(rest, key);
    }
}

/// Whether a client may reach a service depends on the service's own
/// `allow_from` alone: for the machine named `machine` (its first entry, at
/// `i`) and its service named `service` (first entry, at `k`), the answer is
/// whether that list admits the client, whether or not the machine accepts
/// SSH and whatever the machine's own `allow_from` and commands say.
pub proof fn law_service_access_follows_its_list(cfg: ConfigView, client: Seq<char>, machine: Seq<char>, service: Seq<char>, i: int, k: int)
    requires
        0 <= i < cfg.machines.len(),
        cfg.machines[i].0 == machine,
        forall|j: int| 0 <= j < i ==> cfg.machines[j].0 != machine,
        0 <= k < cfg.machines[i].1.services.len(),
        cfg.machines[i].1.services[k].0 == service,
        forall|j: int| 0 <= j < k ==> cfg.machines[i].1.services[j].0 != service,
    ensures
        can_access_service_spec(cfg, client, machine, service) == allows(cfg.machines[i].1.services[k].1.allow_from, client),
{
    lemma_lookup_first(cfg.machines, machine, i);
    lemma_lookup_first(cfg.machines[i].1.services, service, k);
}

/// Nobody reaches a service of a machine that is not in the configuration,
/// nor a service that the machine does not offer.
pub proof fn law_missing_service_refused(cfg: ConfigView, client: Seq<char>, machine: Seq<char>, service: Seq<char>)
    requires
        forall|i: int| 0 <= i < cfg.machines.len() && #[trigger] cfg.machines[i].0 == machine
            ==> forall|k: int| 0 <= k < cfg.machines[i].1.services.len() ==> #[trigger] cfg.machines[i].1.services[k].0 != service,
    ensures
        !can_access_service_spec(cfg, client, machine, service),
{
    if exists|i: int| 0 <= i < cfg.machines.len() && cfg.machines[i].0 == machine {
        lemma_first_index(cfg.machines, machine);
        let i = choose|i: int| 0 <= i < cfg.machines.len() && cfg.machines[i].0 == machine
            && forall|j: int| 0 <= j < i ==> cfg.machines[j].0 != machine;
        lemma_lookup_first(cfg.machines, machine, i);
        assert forall|k: int| 0 <= k < cfg.machines[i].1.services.len() implies cfg.machines[i].1.services[k].0 != service by {
            assert(cfg.machines[i].0 == machine);
        }
        lemma_lookup_absent(cfg.machines[i].1.services, service);
    } else {
        lemma_lookup_absent(cfg.machines, machine);
    }
}

/// A key that some entry has has a first entry.
proof fn lemma_first_index<T>(ms: Seq<(Seq<char>, T)>, key: Seq<char>)
    requires
        exists|i: int| 0 <= i < ms.len() && ms[i].0 == key,
    ensures
        exists|i: int| 0 <= i < ms.len() && ms[i].0 == key && forall|j: int| 0 <= j < i ==> ms[j].0 != key,
    decreases ms.len(),
{
    if ms[0].0 != key {
        let rest = ms.drop_first();
        let w = choose|i: int| 0 <= i < ms.len() && ms[i].0 == key;
        assert(rest[w - 1] == ms[w]);
        lemma_first_index(rest, key);
        let f = choose|i: int| 0 <= i < rest.len() && rest[i].0 == key && forall|j: int| 0 <= j < i ==> rest[j].0 != key;
        assert(ms[f + 1] == rest[f]);
        assert forall|j: int| 0 <= j < f + 1 implies ms[j].0 != key by {
            if j > 0 {
                assert(ms[j] == rest[j - 1]);
            }
        }
    } else {
        assert(ms[0].0 == key);
    }
}

/// The machine that holds the local identity `local` (the first one with
/// that id52, at `i`), where it is not the cluster manager's, decides the
/// role by whether it accepts SSH alone: an SSH server when it does, a
/// client only when it does not, whatever its `allow_from`, commands and
/// services.
pub proof fn law_local_role_follows_accept_ssh(cfg: ConfigView, local: Seq<char>, i: int)
    requires
        cfg.cluster_manager.id52 != local,
        0 <= i < cfg.machines.len(),
        cfg.machines[i].1.id52 == local,
        forall|j: int| 0 <= j < i ==> cfg.machines[j].1.id52 != local,
    ensures
        (local_role_spec(cfg, local) == MachineRoleView::SshServer(cfg.machines[i].0)) <==> cfg.machines[i].1.accept_ssh,
        (local_role_spec(cfg, local) == MachineRoleView::ClientOnly(cfg.machines[i].0)) <==> !cfg.machines[i].1.accept_ssh,
{
    lemma_machine_with_id_first(cfg.machines, local, i);
}

/// An identity that is neither the cluster manager's nor any machine's has
/// no role.
pub proof fn law_unknown_identity_has_no_role(cfg: ConfigView, local: Seq<char>)
    requires
        cfg.cluster_manager.id52 != local,
        forall|j: int| 0 <= j < cfg.machines.len() ==> cfg.machines[j].1.id52 != local,
    ensures
        local_role_spec(cfg, local) == MachineRoleView::Unknown,
{
    lemma_machine_with_id_absent(cfg.machines, local);
}

proof fn lemma_machine_with_id_first(ms: Seq<(Seq<char>, MachineView)>, id52: Seq<char>, i: int)
    requires
        0 <= i < ms.len(),
        ms[i].1.id52 == id52,
        forall|j: int| 0 <= j < i ==> ms[j].1.id52 != id52,
    ensures
        machine_with_id(ms, id52) == Some(ms[i]),
    decreases i,
{
    if i > 0 {
        let rest = ms.drop_first();
        assert(ms[0].1.id52 != id52);
        assert forall|j: int| 0 <= j < i - 1 implies rest[j].1.id52 != id52 by {
            assert(rest[j] == ms[j + 1]);
        }
        lemma_machine_with_id_first(rest, id52, i - 1);
        assert(rest[i - 1] == ms[i]);
    }
}

proof fn lemma_machine_with_id_absent(ms: Seq<(Seq<char>, MachineView)>, id52: Seq<char>)
    requires
        forall|j: int| 0 <= j < ms.len() ==> ms[j].1.id52 != id52,
    ensures
        machine_with_id(ms, id52) is None,
    decreases ms.len(),
{
    if ms.len() > 0 {
        let rest = ms.drop_first();
        assert(ms[0].1.id52 != id52);
        assert forall|j: int| 0 <= j < rest.len() implies rest[j].1.id52 != id52 by {
            assert(rest[j] == ms[j + 1]);
        }
        lemma_machine_with_id_absent(rest, id52);
    }
}

/// A `[cluster_manager]` table keeps its keys in the system keyring unless
/// it says otherwise: without a `use_keyring` key the flag is on, and with
/// `use_keyring = b` it is `b`.
pub proof fn law_use_keyring_defaults_on(t: Vec<(String, TomlValue)>)
    requires
        cluster_manager_spec(TomlValue::Table(t)) is Ok,
    ensures
        toml_lookup(t@, "use_keyring"@) is None ==> cluster_manager_spec(TomlValue::Table(t))->Ok_0.use_keyring,
        toml_lookup(t@, "use_keyring"@) matches Some(TomlValue::Bool(b))
            ==> cluster_manager_spec(TomlValue::Table(t))->Ok_0.use_keyring == b,
{
}

/// The same for a whole configuration document: the cluster manager's
/// `use_keyring` is on unless its table sets it, and is what it sets.
pub proof fn law_config_use_keyring(doc: Seq<(String, TomlValue)>, t: Vec<(String, TomlValue)>)
    requires
        config_spec(doc) is Ok,
        toml_lookup(doc, "cluster_manager"@) == Some(TomlValue::Table(t)),
    ensures
        toml_lookup(t@, "use_keyring"@) is None ==> config_spec(doc)->Ok_0.cluster_manager.use_keyring,
        toml_lookup(t@, "use_keyring"@) matches Some(TomlValue::Bool(b))
            ==> config_spec(doc)->Ok_0.cluster_manager.use_keyring == b,
{
    law_use_keyring_defaults_on(t);
}

/// The machines listed as reachable over SSH by a client are exactly those
/// that accept SSH and whose own `allow_from` admits the client.
pub proof fn law_accessible_machines_exact(ms: Seq<(Seq<char>, MachineView)>, client: Seq<char>, name: Seq<char>)
    ensures
        accessible_names(ms, client).contains(name) <==> exists|i: int| 0 <= i < ms.len() && #[trigger] ms[i].0 == name
            && ms[i].1.accept_ssh && (ms[i].1.allow_from matches Some(a) && allows(a, client)),
    decreases ms.len(),
{
    if accessible_names(ms, client).contains(name) {
        lemma_accessible_member(ms, client, name);
    }
    if exists|i: int| 0 <= i < ms.len() && #[trigger] ms[i].0 == name
            && ms[i].1.accept_ssh && (ms[i].1.allow_from matches Some(a) && allows(a, client)) {
        let i = choose|i: int| 0 <= i < ms.len() && #[trigger] ms[i].0 == name
            && ms[i].1.accept_ssh && (ms[i].1.allow_from matches Some(a) && allows(a, client));
        lemma_accessible_contains(ms, client, i);
    }
}

proof fn lemma_accessible_contains(ms: Seq<(Seq<char>, MachineView)>, client: Seq<char>, i: int)
    requires
        0 <= i < ms.len(),
        grants_ssh(ms[i].1, client),
    ensures
        accessible_names(ms, client).contains(ms[i].0),
    decreases ms.len(),
{
    let r = accessible_names(ms.drop_last(), client);
    if i == ms.len() - 1 {
        assert(accessible_names(ms, client) == r.push(ms.last().0));
        assert(r.push(ms.last().0)[r.len() as int] == ms[i].0);
    } else {
        assert(ms.drop_last()[i] == ms[i]);
        lemma_accessible_contains(ms.drop_last(), client, i);
        let k = choose|k: int| 0 <= k < r.len() && r[k] == ms[i].0;
        if grants_ssh(ms.last().1, client) {
            assert(r.push(ms.last().0)[k] == ms[i].0);
        }
    }
}

/// On the machine named `machine` (its first entry, at `i`), a command
/// without an entry of its own may be run exactly by the clients that the
/// machine's `allow_from` admits, and only when the machine accepts SSH.
pub proof fn law_machine_list_decides_without_entry(cfg: ConfigView, client: Seq<char>, machine: Seq<char>, command: Seq<char>, i: int)
    requires
        0 <= i < cfg.machines.len(),
        cfg.machines[i].0 == machine,
        forall|j: int| 0 <= j < i ==> cfg.machines[j].0 != machine,
        forall|k: int| 0 <= k < cfg.machines[i].1.commands.len() ==> cfg.machines[i].1.commands[k].0 != command,
    ensures
        can_execute_spec(cfg, client, machine, command) == (cfg.machines[i].1.accept_ssh
            && (cfg.machines[i].1.allow_from matches Some(a) && allows(a, client))),
{
    lemma_lookup_first(cfg.machines, machine, i);
    lemma_lookup_absent(cfg.machines[i].1.commands, command);
}

/// A machine table that reads reads its fields as written: its `id52`
/// string, `accept_ssh` off unless the table sets it (and then as set), and
/// its `allow_from` string where given, none where absent.
pub proof fn law_machine_fields(t: Vec<(String, TomlValue)>)
    requires
        machine_spec(TomlValue::Table(t)) is Ok,
    ensures
        ({
            let m = machine_spec(TomlValue::Table(t))->Ok_0;
            &&& toml_lookup(t@, "id52"@) matches Some(TomlValue::Str(s)) && m.id52 == s@
            &&& toml_lookup(t@, "accept_ssh"@) is None ==> !m.accept_ssh
            &&& toml_lookup(t@, "accept_ssh"@) matches Some(TomlValue::Bool(b)) ==> m.accept_ssh == b
            &&& toml_lookup(t@, "allow_from"@) is None ==> m.allow_from is None
            &&& toml_lookup(t@, "allow_from"@) matches Some(TomlValue::Str(a)) ==> m.allow_from == Some(a@)
        }),
{
}

/// A `[cluster_manager]` table that reads reads its `id52` string, and its
/// key settings as written (absent ones as none).
pub proof fn law_cluster_manager_fields(t: Vec<(String, TomlValue)>)
    requires
        cluster_manager_spec(TomlValue::Table(t)) is Ok,
    ensures
        ({
            let c = cluster_manager_spec(TomlValue::Table(t))->Ok_0;
            &&& toml_lookup(t@, "id52"@) matches Some(TomlValue::Str(s)) && c.id52 == s@
            &&& toml_lookup(t@, "private_key_file"@) is None ==> c.private_key_file is None
            &&& toml_lookup(t@, "private_key_file"@) matches Some(TomlValue::Str(f)) ==> c.private_key_file == Some(f@)
            &&& toml_lookup(t@, "private_key"@) is None ==> c.private_key is None
            &&& toml_lookup(t@, "private_key"@) matches Some(TomlValue::Str(k)) ==> c.private_key == Some(k@)
        }),
{
}

} // verus!
