//! The cluster manager's bookkeeping: the configuration it serves, what
//! each member is sent, and which members are up to date.

use vstd::prelude::*;
use crate::cluster_config::{
    Config, ConfigView, ClusterManagerConfig, ClusterManagerView, MachineConfig, CommandConfig,
    ServiceConfig, GroupConfig,
};
use crate::text::str_eq;
use crate::toml_doc::{entry_lookup, pairs_view};

verus! {

/// Manages the cluster configuration and member coordination.
pub struct ClusterManager {
    config: Config,
    config_path: String,
    config_hash: String,
    /// Member id52 and the configuration hash it last reported.
    member_hashes: Vec<(String, String)>,
}

pub struct ClusterManagerState {
    pub config: ConfigView,
    pub config_path: Seq<char>,
    pub config_hash: Seq<char>,
    pub member_hashes: Seq<(Seq<char>, Seq<char>)>,
}

impl View for ClusterManager {
    type V = ClusterManagerState;

    closed spec fn view(&self) -> ClusterManagerState {
        ClusterManagerState {
            config: self.config@,
            config_path: self.config_path@,
            config_hash: self.config_hash@,
            member_hashes: pairs_view(self.member_hashes@),
        }
    }
}

/// `cfg` with the cluster manager's private key and key file removed.
pub open spec fn member_config_spec(cfg: ConfigView) -> ConfigView {
    ConfigView {
        cluster_manager: ClusterManagerView {
            private_key: None,
            private_key_file: None,
            ..cfg.cluster_manager
        },
        ..cfg
    }
}

/// A member is up to date when the hash it last reported is the hash of the
/// configuration being served.
pub open spec fn member_current_spec(st: ClusterManagerState, member: Seq<char>) -> bool {
    match entry_lookup(st.member_hashes, member) {
        Some(h) => h == st.config_hash,
        None => false,
    }
}

fn copy_opt_string(o: &Option<String>) -> (r: Option<String>)
    ensures
        r == *o,
{
    match o {
        Some(s) => Some(s.clone()),
        None => None,
    }
}

fn copy_commands(v: &Vec<(String, CommandConfig)>) -> (r: Vec<(String, CommandConfig)>)
    ensures
        pairs_view(r@) == pairs_view(v@),
{
    let mut out: Vec<(String, CommandConfig)> = Vec::new();
    let mut i: usize = 0;
    while i < v.len()
        invariant
            i <= v@.len(),
            pairs_view(out@) =~= pairs_view(v@).take(i as int),
        decreases v.len() - i,
    {
        let ghost before = out@;
        out.push((v[i].0.clone(), CommandConfig { allow_from: v[i].1.allow_from.clone() }));
        assert(pairs_view(out@) =~= pairs_view(before).push(pairs_view(v@)[i as int]));
        assert(pairs_view(v@).take(i + 1) =~= pairs_view(v@).take(i as int).push(pairs_view(v@)[i as int]));
        i = i + 1;
    }
    assert(pairs_view(v@).take(i as int) =~= pairs_view(v@));
    out
}

fn copy_services(v: &Vec<(String, ServiceConfig)>) -> (r: Vec<(String, ServiceConfig)>)
    ensures
        pairs_view(r@) == pairs_view(v@),
{
    let mut out: Vec<(String, ServiceConfig)> = Vec::new();
    let mut i: usize = 0;
    while i < v.len()
        invariant
            i <= v@.len(),
            pairs_view(out@) =~= pairs_view(v@).take(i as int),
        decreases v.len() - i,
    {
        let ghost before = out@;
        out.push((v[i].0.clone(), ServiceConfig { port: v[i].1.port, allow_from: v[i].1.allow_from.clone() }));
        assert(pairs_view(out@) =~= pairs_view(before).push(pairs_view(v@)[i as int]));
        assert(pairs_view(v@).take(i + 1) =~= pairs_view(v@).take(i as int).push(pairs_view(v@)[i as int]));
        i = i + 1;
    }
    assert(pairs_view(v@).take(i as int) =~= pairs_view(v@));
    out
}

fn copy_machines(v: &Vec<(String, MachineConfig)>) -> (r: Vec<(String, MachineConfig)>)
    ensures
        pairs_view(r@) == pairs_view(v@),
{
    let mut out: Vec<(String, MachineConfig)> = Vec::new();
    let mut i: usize = 0;
    while i < v.len()
        invariant
            i <= v@.len(),
            pairs_view(out@) =~= pairs_view(v@).take(i as int),
        decreases v.len() - i,
    {
        let m = &v[i].1;
        let c = MachineConfig {
            id52: m.id52.clone(),
            accept_ssh: m.accept_ssh,
            allow_from: copy_opt_string(&m.allow_from),
            commands: copy_commands(&m.commands),
            services: copy_services(&m.services),
        };
        assert(c@ == m@);
        let ghost before = out@;
        out.push((v[i].0.clone(), c));
        assert(pairs_view(out@) =~= pairs_view(before).push(pairs_view(v@)[i as int]));
        assert(pairs_view(v@).take(i + 1) =~= pairs_view(v@).take(i as int).push(pairs_view(v@)[i as int]));
        i = i + 1;
    }
    assert(pairs_view(v@).take(i as int) =~= pairs_view(v@));
    out
}

fn copy_groups(v: &Vec<(String, GroupConfig)>) -> (r: Vec<(String, GroupConfig)>)
    ensures
        pairs_view(r@) == pairs_view(v@),
{
    let mut out: Vec<(String, GroupConfig)> = Vec::new();
    let mut i: usize = 0;
    while i < v.len()
        invariant
            i <= v@.len(),
            pairs_view(out@) =~= pairs_view(v@).take(i as int),
        decreases v.len() - i,
    {
        let ghost before = out@;
        out.push((v[i].0.clone(), GroupConfig { members: v[i].1.members.clone() }));
        assert(pairs_view(out@) =~= pairs_view(before).push(pairs_view(v@)[i as int]));
        assert(pairs_view(v@).take(i + 1) =~= pairs_view(v@).take(i as int).push(pairs_view(v@)[i as int]));
        i = i + 1;
    }
    assert(pairs_view(v@).take(i as int) =~= pairs_view(v@));
    out
}

proof fn lemma_lookup_push<T>(s: Seq<(Seq<char>, T)>, k: Seq<char>, v: T, q: Seq<char>)
    requires
        entry_lookup(s, k) is None,
    ensures
        entry_lookup(s.push((k, v)), q) == if q == k { Some(v) } else { entry_lookup(s, q) },
    decreases s.len(),
{
    if s.len() > 0 {
        assert(s.push((k, v)).drop_first() =~= s.drop_first().push((k, v)));
        assert(s.push((k, v))[0] == s[0]);
        assert(s[0].0 != k);
        lemma_lookup_push(s.drop_first(), k, v, q);
        if s[0].0 == q {
            assert(entry_lookup(s.push((k, v)), q) == Some(s[0].1));
        } else {
            assert(entry_lookup(s.push((k, v)), q) == entry_lookup(s.drop_first().push((k, v)), q));
        }
    } else {
        let e = Seq::<(Seq<char>, T)>::empty();
        assert(s.push((k, v)).drop_first() =~= e);
        assert(s.push((k, v))[0] == (k, v));
        assert(entry_lookup(e, q) is None);
    }
}

proof fn lemma_lookup_update<T>(s: Seq<(Seq<char>, T)>, i: int, v: T, q: Seq<char>)
    requires
        0 <= i < s.len(),
        forall|j: int| 0 <= j < i ==> #[trigger] s[j].0 != s[i].0,
    ensures
        entry_lookup(s.update(i, (s[i].0, v)), q) == if q == s[i].0 { Some(v) } else { entry_lookup(s, q) },
    decreases i,
{
    if i == 0 {
        assert(s.update(0, (s[0].0, v)).drop_first() =~= s.drop_first());
        assert(s.update(0, (s[0].0, v))[0] == (s[0].0, v));
    } else {
        assert(s.update(i, (s[i].0, v))[0] == s[0]);
        assert(s[0].0 != s[i].0);
        assert(s.update(i, (s[i].0, v)).drop_first() =~= s.drop_first().update(i - 1, (s[i].0, v)));
        assert(s.drop_first()[i - 1] == s[i]);
        assert forall|j: int| 0 <= j < i - 1 implies #[trigger] s.drop_first()[j].0 != s.drop_first()[i - 1].0 by {
            assert(s.drop_first()[j] == s[j + 1]);
        }
        lemma_lookup_update(s.drop_first(), i - 1, v, q);
    }
}

impl ClusterManager {
    /// A manager serving `config`, read from `config_path`, whose hash is
    /// `config_hash`; no member has reported yet.
    pub fn from_loaded(config: Config, config_path: String, config_hash: String) -> (m: Self)
        ensures
            m@.config == config@,
            m@.config_path == config_path@,
            m@.config_hash == config_hash@,
            m@.member_hashes.len() == 0,
    {
        let m = ClusterManager { config, config_path, config_hash, member_hashes: Vec::new() };
        assert(m@.member_hashes =~= Seq::<(Seq<char>, Seq<char>)>::empty());
        m
    }

    /// The configuration being served.
    pub fn config(&self) -> (c: &Config)
        ensures
            c@ == self@.config,
    {
        &self.config
    }

    /// The hash of the configuration being served.
    pub fn config_hash(&self) -> (h: &String)
        ensures
            h@ == self@.config_hash,
    {
        &self.config_hash
    }

    /// The configuration a member is sent: the full configuration without
    /// the cluster manager's private key or key file.
    pub fn get_member_config(&self, _member_id52: &str) -> (c: Config)
        ensures
            c@ == member_config_spec(self@.config),
    {
        let cm = &self.config.cluster_manager;
        Config {
            cluster_manager: ClusterManagerConfig {
                id52: cm.id52.clone(),
                use_keyring: cm.use_keyring,
                private_key_file: None,
                private_key: None,
            },
            machines: copy_machines(&self.config.machines),
            groups: copy_groups(&self.config.groups),
        }
    }

    /// Whether the member last reported the hash of the served configuration.
    pub fn is_member_config_current(&self, member_id52: &str) -> (b: bool)
        ensures
            b == member_current_spec(self@, member_id52@),
    {
        match crate::toml_doc::lookup_entry(self.member_hashes.as_slice(), member_id52) {
            Some(h) => str_eq(h.as_str(), self.config_hash.as_str()),
            None => false,
        }
    }

    /// Records the configuration hash a member reported, replacing what it
    /// reported before.
    pub fn update_member_hash(&mut self, member_id52: String, hash: String)
        ensures
            final(self)@.config == old(self)@.config,
            final(self)@.config_path == old(self)@.config_path,
            final(self)@.config_hash == old(self)@.config_hash,
            forall|k: Seq<char>| #[trigger] entry_lookup(final(self)@.member_hashes, k) == if k == member_id52@ {
                Some(hash@)
            } else {
                entry_lookup(old(self)@.member_hashes, k)
            },
    {
        let ghost old_pairs = pairs_view(self.member_hashes@);
        let mut i: usize = 0;
        while i < self.member_hashes.len()
            invariant
                i <= self.member_hashes@.len(),
                *self == *old(self),
                old_pairs == pairs_view(self.member_hashes@),
                forall|j: int| 0 <= j < i ==> old_pairs[j].0 != member_id52@,
            decreases self.member_hashes.len() - i,
        {
            if str_eq(self.member_hashes[i].0.as_str(), member_id52.as_str()) {
                let key = self.member_hashes[i].0.clone();
                self.member_hashes.set(i, (key, hash));
                proof {
                    assert(pairs_view(self.member_hashes@) =~= old_pairs.update(i as int, (old_pairs[i as int].0, hash@)));
                    assert forall|k: Seq<char>| #[trigger] entry_lookup(pairs_view(self.member_hashes@), k) == if k == member_id52@ {
                        Some(hash@)
                    } else {
                        entry_lookup(old_pairs, k)
                    } by {
                        lemma_lookup_update(old_pairs, i as int, hash@, k);
                    }
                }
                return;
            }
            i = i + 1;
        }
        proof {
            assert forall|j: int| 0 <= j < old_pairs.len() implies old_pairs[j].0 != member_id52@ by {}
            lemma_lookup_absent(old_pairs, member_id52@);
        }
        self.member_hashes.push((member_id52, hash));
        proof {
            assert(pairs_view(self.member_hashes@) =~= old_pairs.push((member_id52@, hash@)));
            assert forall|k: Seq<char>| #[trigger] entry_lookup(pairs_view(self.member_hashes@), k) == if k == member_id52@ {
                Some(hash@)
            } else {
                entry_lookup(old_pairs, k)
            } by {
                lemma_lookup_push(old_pairs, member_id52@, hash@, k);
            }
        }
    }

    /// The names of all cluster members (the machines), in order.
    pub fn get_all_members(&self) -> (r: Vec<String>)
        ensures
            r@.map_values(|s: String| s@) == self@.config.machines.map_values(|p: (Seq<char>, crate::cluster_config::MachineView)| p.0),
    {
        let mut out: Vec<String> = Vec::new();
        let mut i: usize = 0;
        let ghost want = self@.config.machines.map_values(|p: (Seq<char>, crate::cluster_config::MachineView)| p.0);
        while i < self.config.machines.len()
            invariant
                i <= self.config.machines@.len(),
                want == self@.config.machines.map_values(|p: (Seq<char>, crate::cluster_config::MachineView)| p.0),
                out@.map_values(|s: String| s@) =~= want.take(i as int),
            decreases self.config.machines.len() - i,
        {
            let ghost before = out@;
            out.push(self.config.machines[i].0.clone());
            assert(self@.config.machines[i as int] == (self.config.machines@[i as int].0@, self.config.machines@[i as int].1@));
            assert(out@.map_values(|s: String| s@) =~= before.map_values(|s: String| s@).push(want[i as int]));
            assert(want.take(i + 1) =~= want.take(i as int).push(want[i as int]));
            i = i + 1;
        }
        assert(want.take(i as int) =~= want);
        out
    }
}

proof fn lemma_lookup_absent<T>(s: Seq<(Seq<char>, T)>, k: Seq<char>)
    requires
        forall|j: int| 0 <= j < s.len() ==> s[j].0 != k,
    ensures
        entry_lookup(s, k) is None,
    decreases s.len(),
{
    if s.len() > 0 {
        assert forall|j: int| 0 <= j < s.drop_first().len() implies s.drop_first()[j].0 != k by {
            assert(s.drop_first()[j] == s[j + 1]);
        }
        lemma_lookup_absent(s.drop_first(), k);
    }
}

/// Once a member reports a hash, it is up to date exactly when that hash is
/// the served configuration's; other members are unaffected.
pub proof fn law_reported_hash_decides_currency(before: ClusterManagerState, after: ClusterManagerState, member: Seq<char>, hash: Seq<char>, other: Seq<char>)
    requires
        after.config_hash == before.config_hash,
        forall|k: Seq<char>| #[trigger] entry_lookup(after.member_hashes, k) == if k == member {
            Some(hash)
        } else {
            entry_lookup(before.member_hashes, k)
        },
        other != member,
    ensures
        member_current_spec(after, member) == (hash == before.config_hash),
        member_current_spec(after, other) == member_current_spec(before, other),
{
    assert(entry_lookup(after.member_hashes, member) == Some(hash));
    assert(entry_lookup(after.member_hashes, other) == entry_lookup(before.member_hashes, other));
}

/// What a member is sent never carries the cluster manager's private key or
/// key file, and keeps everything else.
pub proof fn law_member_config_has_no_secrets(cfg: ConfigView)
    ensures
        member_config_spec(cfg).cluster_manager.private_key is None,
        member_config_spec(cfg).cluster_manager.private_key_file is None,
        member_config_spec(cfg).cluster_manager.id52 == cfg.cluster_manager.id52,
        member_config_spec(cfg).machines == cfg.machines,
        member_config_spec(cfg).groups == cfg.groups,
{
}

} // verus!
