//! The decisions of running a command on a machine of a cluster directly,
//! without the daemon: which machine and cluster an address names, which key
//! and configuration file to read, which machine the command goes to, and
//! whether it runs here.

use vstd::prelude::*;
use vstd::slice::slice_subrange;
use crate::text::{
    char_count, has_char, chars_of, count_char, find_char, string_from_chars, push_text, str_eq,
    lemma_single_occurrence,
};
use crate::toml_doc::{TomlValue, toml_document, toml_lookup, toml_get, parse_toml_document};

verus! {

/// The machine and cluster that a `machine.cluster` address names: the text
/// must hold exactly one dot.
pub open spec fn machine_address_spec(s: Seq<char>) -> Option<(Seq<char>, Seq<char>)> {
    if char_count(s, '.') == 1 {
        let k = choose|k: int| 0 <= k < s.len() && s[k] == '.';
        Some((s.take(k), s.skip(k + 1)))
    } else {
        None
    }
}

/// The message for an address that is not `machine.cluster`.
pub open spec fn invalid_address_message() -> Seq<char> {
    "Invalid format. Use: machine.cluster"@
}

/// Splits a `machine.cluster` address into the machine's alias and the
/// cluster's alias.
pub fn parse_machine_address(machine_address: &str) -> (r: Result<(String, String), String>)
    ensures
        match r {
            Ok((m, c)) => machine_address_spec(machine_address@) == Some((m@, c@)),
            Err(e) => machine_address_spec(machine_address@) is None && e@ == invalid_address_message(),
        },
{
    let v = chars_of(machine_address);
    if count_char(v.as_slice(), '.') != 1 {
        return Err(String::from_str("Invalid format. Use: machine.cluster"));
    }
    match find_char(v.as_slice(), '.') {
        None => {
            proof { crate::text::lemma_char_count_zero(v@, '.'); }
            Err(String::from_str("Invalid format. Use: machine.cluster"))
        },
        Some(pos) => {
            proof {
                let k = choose|k: int| 0 <= k < v@.len() && v@[k] == '.';
                lemma_single_occurrence(v@, '.', pos as int, k);
            }
            assert(pos < v.len());
            let machine = slice_subrange(v.as_slice(), 0, pos);
            let cluster = slice_subrange(v.as_slice(), pos + 1, v.len());
            assert(machine@ =~= v@.take(pos as int));
            assert(cluster@ =~= v@.skip(pos + 1));
            Ok((string_from_chars(machine), string_from_chars(cluster)))
        },
    }
}

/// Which key file gives this machine's identity in a cluster directory.
#[derive(Debug, Clone, Copy, PartialEq, Eq, Structural)]
pub enum KeyRole {
    /// `cluster.private-key`: this machine manages the cluster.
    ClusterManager,
    /// `machine.private-key`: this machine is a member.
    Machine,
}

/// The key file chosen from which of the two exist, or the message where
/// both or neither do.
pub open spec fn key_choice_spec(has_cluster_key: bool, has_machine_key: bool, cluster_dir: Seq<char>, cluster: Seq<char>) -> Result<KeyRole, Seq<char>> {
    if has_cluster_key && !has_machine_key {
        Ok(KeyRole::ClusterManager)
    } else if has_machine_key && !has_cluster_key {
        Ok(KeyRole::Machine)
    } else if has_cluster_key && has_machine_key {
        Err("Configuration error: Both cluster.private-key and machine.private-key exist in "@ + cluster_dir)
    } else {
        Err("No identity found for cluster: "@ + cluster)
    }
}

/// Chooses the key file of this machine in a cluster directory (written as
/// `cluster_dir`) from which of the two key files exist.
pub fn choose_identity_key(has_cluster_key: bool, has_machine_key: bool, cluster_dir: &str, cluster: &str) -> (r: Result<KeyRole, String>)
    ensures
        match r {
            Ok(k) => key_choice_spec(has_cluster_key, has_machine_key, cluster_dir@, cluster@) == Ok::<KeyRole, Seq<char>>(k),
            Err(m) => key_choice_spec(has_cluster_key, has_machine_key, cluster_dir@, cluster@) == Err::<KeyRole, Seq<char>>(m@),
        },
{
    if has_cluster_key && !has_machine_key {
        Ok(KeyRole::ClusterManager)
    } else if has_machine_key && !has_cluster_key {
        Ok(KeyRole::Machine)
    } else {
        let mut m: Vec<char> = Vec::new();
        if has_cluster_key && has_machine_key {
            push_text(&mut m, "Configuration error: Both cluster.private-key and machine.private-key exist in ");
            push_text(&mut m, cluster_dir);
        } else {
            push_text(&mut m, "No identity found for cluster: ");
            push_text(&mut m, cluster);
        }
        Err(string_from_chars(m.as_slice()))
    }
}

/// The key file of a role.
pub fn key_file_name(role: KeyRole) -> (s: String)
    ensures
        s@ == (match role {
            KeyRole::ClusterManager => "cluster.private-key"@,
            KeyRole::Machine => "machine.private-key"@,
        }),
{
    match role {
        KeyRole::ClusterManager => String::from_str("cluster.private-key"),
        KeyRole::Machine => String::from_str("machine.private-key"),
    }
}

/// The configuration file to read: `cluster.toml` where it exists, else
/// `machine.toml`; the message where neither does.
pub open spec fn config_choice_spec(has_cluster_config: bool, has_machine_config: bool, cluster: Seq<char>) -> Result<Seq<char>, Seq<char>> {
    if has_cluster_config {
        Ok("cluster.toml"@)
    } else if has_machine_config {
        Ok("machine.toml"@)
    } else {
        Err("No config found for cluster: "@ + cluster)
    }
}

/// Chooses the configuration file that lists the cluster's machines.
pub fn choose_config_file(has_cluster_config: bool, has_machine_config: bool, cluster: &str) -> (r: Result<String, String>)
    ensures
        match r {
            Ok(f) => config_choice_spec(has_cluster_config, has_machine_config, cluster@) == Ok::<Seq<char>, Seq<char>>(f@),
            Err(m) => config_choice_spec(has_cluster_config, has_machine_config, cluster@) == Err::<Seq<char>, Seq<char>>(m@),
        },
{
    if has_cluster_config {
        Ok(String::from_str("cluster.toml"))
    } else if has_machine_config {
        Ok(String::from_str("machine.toml"))
    } else {
        let mut m: Vec<char> = Vec::new();
        push_text(&mut m, "No config found for cluster: ");
        push_text(&mut m, cluster);
        Err(string_from_chars(m.as_slice()))
    }
}

/// Why the target machine could not be found in a configuration.
#[derive(Debug, Clone, Copy, PartialEq, Eq, Structural)]
pub enum TargetError {
    /// There is no `machine` key.
    NoMachineSection,
    /// The `machine` key is not a table.
    NoMachinesTable,
    /// No machine has the alias.
    MachineNotFound,
    /// The machine's entry is not a table.
    InvalidMachineConfig,
    /// The machine's table has no `id52`.
    NoId52,
}

/// The id52 of the machine with alias `machine` in a configuration table; an
/// `id52` that is not a string counts as empty.
pub open spec fn target_id52_spec(t: Seq<(String, TomlValue)>, machine: Seq<char>) -> Result<Seq<char>, TargetError> {
    match toml_lookup(t, "machine"@) {
        None => Err(TargetError::NoMachineSection),
        Some(TomlValue::Table(machines)) => match toml_lookup(machines@, machine) {
            None => Err(TargetError::MachineNotFound),
            Some(TomlValue::Table(m)) => match toml_lookup(m@, "id52"@) {
                None => Err(TargetError::NoId52),
                Some(TomlValue::Str(s)) => Ok(s@),
                Some(_) => Ok(Seq::empty()),
            },
            Some(_) => Err(TargetError::InvalidMachineConfig),
        },
        Some(_) => Err(TargetError::NoMachinesTable),
    }
}

/// Finds the id52 of the machine with alias `machine` in a parsed
/// configuration; see [`target_id52_spec`].
pub fn find_target_id52_in_table(t: &[(String, TomlValue)], machine: &str) -> (r: Result<String, TargetError>)
    ensures
        match r {
            Ok(s) => target_id52_spec(t@, machine@) == Ok::<Seq<char>, TargetError>(s@),
            Err(e) => target_id52_spec(t@, machine@) == Err::<Seq<char>, TargetError>(e),
        },
{
    match toml_get(t, "machine") {
        None => Err(TargetError::NoMachineSection),
        Some(TomlValue::Table(machines)) => match toml_get(machines.as_slice(), machine) {
            None => Err(TargetError::MachineNotFound),
            Some(TomlValue::Table(m)) => match toml_get(m.as_slice(), "id52") {
                None => Err(TargetError::NoId52),
                Some(TomlValue::Str(s)) => Ok(s.clone()),
                Some(_) => Ok(String::new()),
            },
            Some(_) => Err(TargetError::InvalidMachineConfig),
        },
        Some(_) => Err(TargetError::NoMachinesTable),
    }
}

/// The id52 of the machine with alias `machine` in the configuration text of
/// cluster `cluster`, or the message that stops the command: the TOML
/// parser's where the text is not TOML, else that of the [`TargetError`].
pub open spec fn target_id52_from_text(text: Seq<char>, machine: Seq<char>, cluster: Seq<char>) -> Result<Seq<char>, Seq<char>> {
    match toml_document(text) {
        Err(m) => Err(m),
        Ok(t) => match target_id52_spec(t, machine) {
            Ok(s) => Ok(s),
            Err(e) => Err(target_error_message(e, machine, cluster)),
        },
    }
}

/// Finds the id52 of the machine that a command goes to in the text of the
/// configuration of cluster `cluster`; see [`target_id52_from_text`].
pub fn find_target_id52(config_content: &str, machine: &str, cluster: &str) -> (r: Result<String, String>)
    ensures
        match r {
            Ok(s) => target_id52_from_text(config_content@, machine@, cluster@) == Ok::<Seq<char>, Seq<char>>(s@),
            Err(m) => target_id52_from_text(config_content@, machine@, cluster@) == Err::<Seq<char>, Seq<char>>(m@),
        },
{
    let t = match parse_toml_document(config_content) {
        Err(m) => return Err(m),
        Ok(t) => t,
    };
    match find_target_id52_in_table(t.as_slice(), machine) {
        Ok(s) => Ok(s),
        Err(e) => Err(e.message(machine, cluster)),
    }
}

/// The message of a [`TargetError`] for a machine and a cluster.
pub open spec fn target_error_message(e: TargetError, machine: Seq<char>, cluster: Seq<char>) -> Seq<char> {
    match e {
        TargetError::NoMachineSection => "No machine section in config"@,
        TargetError::NoMachinesTable => "No machines table in config"@,
        TargetError::MachineNotFound => "Machine "@ + machine + " not found in cluster "@ + cluster,
        TargetError::InvalidMachineConfig => "Invalid machine config"@,
        TargetError::NoId52 => "No id52 for machine: "@ + machine,
    }
}

impl TargetError {
    /// The message that reports this error for `machine` in `cluster`.
    pub fn message(&self, machine: &str, cluster: &str) -> (m: String)
        ensures
            m@ == target_error_message(*self, machine@, cluster@),
    {
        let mut v: Vec<char> = Vec::new();
        match self {
            TargetError::NoMachineSection => push_text(&mut v, "No machine section in config"),
            TargetError::NoMachinesTable => push_text(&mut v, "No machines table in config"),
            TargetError::MachineNotFound => {
                push_text(&mut v, "Machine ");
                push_text(&mut v, machine);
                push_text(&mut v, " not found in cluster ");
                push_text(&mut v, cluster);
            },
            TargetError::InvalidMachineConfig => push_text(&mut v, "Invalid machine config"),
            TargetError::NoId52 => {
                push_text(&mut v, "No id52 for machine: ");
                push_text(&mut v, machine);
            },
        }
        assert(v@ =~= target_error_message(*self, machine@, cluster@));
        string_from_chars(v.as_slice())
    }
}

/// Where a command runs: here, when the target is this machine itself, or on
/// the target over a fresh peer connection.
#[derive(Debug, Clone, Copy, PartialEq, Eq, Structural)]
pub enum CommandRoute {
    Local,
    Remote,
}

/// Routes a command: to this machine when the target's id52 is its own.
pub fn command_route(target_id52: &str, our_id52: &str) -> (r: CommandRoute)
    ensures
        (r == CommandRoute::Local) <==> target_id52@ == our_id52@,
{
    if str_eq(target_id52, our_id52) {
        CommandRoute::Local
    } else {
        CommandRoute::Remote
    }
}


/// An address written from a machine alias and a cluster alias, neither with
/// a dot, reads back as those two aliases.
pub proof fn law_machine_address_round_trip(machine: Seq<char>, cluster: Seq<char>)
    requires
        !has_char(machine, '.'),
        !has_char(cluster, '.'),
    ensures
        machine_address_spec(machine + seq!['.'] + cluster) == Some((machine, cluster)),
{
    let s = machine + seq!['.'] + cluster;
    let k = machine.len() as int;
    assert(s[k] == '.');
    assert(s.take(k) =~= machine);
    assert(s.skip(k + 1) =~= cluster);
    assert(s.skip(k) =~= seq!['.'] + cluster);
    crate::text::lemma_char_count_split(s, '.', k);
    crate::text::lemma_char_count_zero(machine, '.');
    crate::text::lemma_char_count_split(s.skip(k), '.', 1);
    assert(s.skip(k).take(1) =~= seq!['.']);
    assert(char_count(seq!['.'], '.') == 1) by {
        let one = seq!['.'];
        assert(one.drop_last() =~= Seq::<char>::empty());
        assert(char_count(Seq::<char>::empty(), '.') == 0);
        assert(one.last() == '.');
    }
    assert(s.skip(k).skip(1) =~= cluster);
    crate::text::lemma_char_count_zero(cluster, '.');
    assert(!has_char(s.take(k), '.'));
    let j = choose|j: int| 0 <= j < s.len() && s[j] == '.';
    lemma_single_occurrence(s, '.', k, j);
}

} // verus!
