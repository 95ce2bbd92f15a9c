//! Checks of configuration files and of cluster directories: what a valid
//! file looks like, which role a cluster directory gives this machine, and
//! which key file that role reads.

use vstd::prelude::*;
use vstd::slice::slice_subrange;
use crate::text::{
    seq_contains, seq_starts_with, has_char, find_char, chars_of, chars_eq, str_contains, push_text,
    string_from_chars, trim_start_spec, trim_spec, count_leading_ws, utf8_len,
};
use crate::toml_doc::{toml_document, parse_toml_document};
use crate::identity_keys::secret_key_text_parses;

verus! {

/// The pieces of `s` between line breaks (`\n`), in order; where `s` ends in
/// a line break, the last piece is empty.
pub open spec fn line_pieces(s: Seq<char>) -> Seq<Seq<char>>
    decreases s.len(),
{
    if s.len() == 0 {
        seq![Seq::<char>::empty()]
    } else {
        let rest = line_pieces(s.drop_first());
        if s[0] == '\n' {
            seq![Seq::<char>::empty()] + rest
        } else {
            rest.update(0, seq![s[0]] + rest[0])
        }
    }
}

proof fn lemma_line_pieces_no_break(s: Seq<char>)
    requires
        !has_char(s, '\n'),
    ensures
        line_pieces(s) == seq![s],
    decreases s.len(),
{
    if s.len() > 0 {
        assert(!has_char(s.drop_first(), '\n')) by {
            let u = s.drop_first();
            if has_char(u, '\n') {
                let k = choose|k: int| 0 <= k < u.len() && u[k] == '\n';
                assert(s[k + 1] == '\n');
            }
        }
        lemma_line_pieces_no_break(s.drop_first());
        assert(s[0] != '\n');
        assert(seq![s[0]] + s.drop_first() =~= s);
        assert(seq![s.drop_first()].update(0, s) =~= seq![s]);
    } else {
        assert(s =~= Seq::<char>::empty());
    }
}

proof fn lemma_line_pieces_split(s: Seq<char>, i: int)
    requires
        0 <= i < s.len(),
        s[i] == '\n',
        !has_char(s.take(i), '\n'),
    ensures
        line_pieces(s) == seq![s.take(i)] + line_pieces(s.skip(i + 1)),
    decreases i,
{
    if i == 0 {
        assert(s.take(0) =~= Seq::<char>::empty());
        assert(s.drop_first() =~= s.skip(1));
    } else {
        let t = s.drop_first();
        assert(t[i - 1] == '\n');
        assert(!has_char(t.take(i - 1), '\n')) by {
            let u = t.take(i - 1);
            if has_char(u, '\n') {
                let k = choose|k: int| 0 <= k < u.len() && u[k] == '\n';
                assert(s.take(i)[k + 1] == '\n');
            }
        }
        lemma_line_pieces_split(t, i - 1);
        assert(s.take(i)[0] == s[0]);
        assert(s[0] != '\n');
        assert(t.skip(i) =~= s.skip(i + 1));
        assert(seq![s[0]] + t.take(i - 1) =~= s.take(i));
        let rest = line_pieces(t);
        assert(rest.update(0, seq![s[0]] + rest[0]) =~= seq![s.take(i)] + line_pieces(s.skip(i + 1)));
    }
}

/// A line that opens a machine section: after its leading white space it
/// starts with `[machine.`.
pub open spec fn is_machine_header(line: Seq<char>) -> bool {
    seq_starts_with(trim_start_spec(line), "[machine."@)
}

/// The number of lines among `lines` that open a machine section.
pub open spec fn machine_header_count(lines: Seq<Seq<char>>) -> nat
    decreases lines.len(),
{
    if lines.len() == 0 {
        0
    } else {
        (if is_machine_header(lines[0]) { 1nat } else { 0nat }) + machine_header_count(lines.drop_first())
    }
}

/// What the check of a configuration text reports of a file that is TOML.
pub struct ConfigTextCheck {
    /// The text mentions `[cluster_manager]`.
    pub has_cluster_manager: bool,
    /// Where the text mentions `[machine.`, the number of lines that open a
    /// machine section.
    pub machine_sections: Option<usize>,
}

/// Whether the line that starts `s` (up to its first line break) opens a
/// machine section.
fn line_is_machine_header(line: &[char]) -> (b: bool)
    ensures
        b == is_machine_header(line@),
        b ==> line@.len() > 0,
{
    let k = count_leading_ws(line);
    let rest = slice_subrange(line, k, line.len());
    assert(rest@ =~= trim_start_spec(line@));
    let pattern = chars_of("[machine.");
    proof { reveal_strlit("[machine."); }
    if rest.len() < pattern.len() {
        return false;
    }
    let head = slice_subrange(rest, 0, pattern.len());
    chars_eq(head, pattern.as_slice())
}

proof fn lemma_machine_header_count_cons(lines: Seq<Seq<char>>, rest: Seq<Seq<char>>, first: Seq<char>)
    requires
        lines == seq![first] + rest,
    ensures
        machine_header_count(lines) == (if is_machine_header(first) { 1nat } else { 0nat }) + machine_header_count(rest),
{
    assert(lines[0] == first);
    assert(lines.drop_first() =~= rest);
}

/// Counts the lines of `s` that open a machine section.
fn count_machine_headers(s: &[char]) -> (n: usize)
    ensures
        n == machine_header_count(line_pieces(s@)),
{
    let mut count: usize = 0;
    let mut start: usize = 0;
    assert(s@.skip(0) =~= s@);
    loop
        invariant
            start <= s@.len(),
            count <= start,
            machine_header_count(line_pieces(s@)) == count + machine_header_count(line_pieces(s@.skip(start as int))),
        decreases s@.len() - start,
    {
        let rest = slice_subrange(s, start, s.len());
        assert(rest@ =~= s@.skip(start as int));
        match find_char(rest, '\n') {
            None => {
                proof {
                    lemma_line_pieces_no_break(rest@);
                    lemma_machine_header_count_cons(seq![rest@], Seq::<Seq<char>>::empty(), rest@);
                    assert(seq![rest@] =~= seq![rest@] + Seq::<Seq<char>>::empty());
                }
                let h = line_is_machine_header(rest);
                if h {
                    count = count + 1;
                }
                return count;
            },
            Some(i) => {
                let line = slice_subrange(rest, 0, i);
                assert(line@ =~= rest@.take(i as int));
                proof {
                    lemma_line_pieces_split(rest@, i as int);
                    lemma_machine_header_count_cons(line_pieces(rest@), line_pieces(rest@.skip(i + 1)), rest@.take(i as int));
                }
                assert(rest@.skip(i + 1) =~= s@.skip(start + i + 1));
                if line_is_machine_header(line) {
                    count = count + 1;
                }
                start = start + i + 1;
            },
        }
    }
}

/// What checking a configuration text reports, given the TOML parser's
/// error message on it (`None` where it parsed): that message under
/// `TOML syntax error: `, or whether the text mentions `[cluster_manager]`
/// and, where it mentions `[machine.`, how many lines open a machine section.
pub open spec fn config_text_report_spec(content: Seq<char>, syntax_error: Option<Seq<char>>) -> Result<(bool, Option<nat>), Seq<char>> {
    match syntax_error {
        Some(m) => Err("TOML syntax error: "@ + m),
        None => Ok((
            seq_contains(content, "[cluster_manager]"@),
            if seq_contains(content, "[machine."@) {
                Some(machine_header_count(line_pieces(content)))
            } else {
                None
            },
        )),
    }
}

/// What checking a configuration text finds, with the parser's own verdict
/// on it.
pub open spec fn config_text_check_spec(content: Seq<char>) -> Result<(bool, Option<nat>), Seq<char>> {
    config_text_report_spec(content, match toml_document(content) {
        Ok(_) => None,
        Err(m) => Some(m),
    })
}

/// A report as plain values.
pub open spec fn check_view(c: ConfigTextCheck) -> (bool, Option<nat>) {
    (c.has_cluster_manager, match c.machine_sections {
        Some(n) => Some(n as nat),
        None => None::<nat>,
    })
}

/// The report on a configuration text once the TOML parser has given its
/// verdict (`syntax_error`, `None` where the text parsed); see
/// [`config_text_report_spec`].
pub fn config_text_report(content: &str, syntax_error: Option<&str>) -> (r: Result<ConfigTextCheck, String>)
    ensures
        match r {
            Ok(c) => config_text_report_spec(content@, match syntax_error { Some(m) => Some(m@), None => None }) == Ok::<(bool, Option<nat>), Seq<char>>(check_view(c)),
            Err(m) => config_text_report_spec(content@, match syntax_error { Some(m) => Some(m@), None => None }) == Err::<(bool, Option<nat>), Seq<char>>(m@),
        },
{
    match syntax_error {
        Some(e) => {
            let mut v: Vec<char> = Vec::new();
            push_text(&mut v, "TOML syntax error: ");
            push_text(&mut v, e);
            proof { reveal_strlit("TOML syntax error: "); }
            assert(v@ =~= "TOML syntax error: "@ + e@);
            Err(string_from_chars(v.as_slice()))
        },
        None => {
            let has_cluster_manager = str_contains(content, "[cluster_manager]");
            let machine_sections = if str_contains(content, "[machine.") {
                let v = chars_of(content);
                Some(count_machine_headers(v.as_slice()))
            } else {
                None
            };
            Ok(ConfigTextCheck { has_cluster_manager, machine_sections })
        },
    }
}

/// Checks a configuration text: it must be TOML (else the parser's message
/// under `TOML syntax error: `); the report says whether it has a cluster
/// manager section and how many machine sections it opens.
pub fn validate_config_text(content: &str) -> (r: Result<ConfigTextCheck, String>)
    ensures
        match r {
            Ok(c) => config_text_check_spec(content@) == Ok::<(bool, Option<nat>), Seq<char>>(check_view(c)),
            Err(m) => config_text_check_spec(content@) == Err::<(bool, Option<nat>), Seq<char>>(m@),
        },
{
    match parse_toml_document(content) {
        Err(m) => config_text_report(content, Some(m.as_str())),
        Ok(_) => config_text_report(content, None),
    }
}

/// The verdict on a run of configuration files, given whether each one
/// validated: every file is counted, and the run is an error unless all of
/// them validated (no files at all is no error).
pub fn check_outcomes(outcomes: &[bool]) -> (r: Result<(), String>)
    ensures
        r is Ok <==> (forall|i: int| 0 <= i < outcomes@.len() ==> outcomes@[i]),
        r matches Err(m) ==> m@ == "Some configurations invalid"@,
{
    let mut tally = ConfigTally::new();
    let mut i: usize = 0;
    while i < outcomes.len()
        invariant
            i <= outcomes@.len(),
            tally.total == i,
            tally.valid <= tally.total,
            (tally.valid == tally.total) <==> (forall|j: int| 0 <= j < i ==> outcomes@[j]),
        decreases outcomes.len() - i,
    {
        tally.record(outcomes[i]);
        i = i + 1;
    }
    tally.finish()
}

/// A running count of configuration files checked and found valid.
pub struct ConfigTally {
    pub total: u64,
    pub valid: u64,
}

impl ConfigTally {
    /// No file checked yet.
    pub fn new() -> (t: ConfigTally)
        ensures
            t.total == 0,
            t.valid == 0,
    {
        ConfigTally { total: 0, valid: 0 }
    }

    /// Counts one more checked file, valid or not.
    pub fn record(&mut self, valid: bool)
        requires
            old(self).total < u64::MAX,
            old(self).valid <= old(self).total,
        ensures
            final(self).total == old(self).total + 1,
            final(self).valid == old(self).valid + (if valid { 1int } else { 0int }),
            final(self).valid <= final(self).total,
    {
        self.total = self.total + 1;
        if valid {
            self.valid = self.valid + 1;
        }
    }

    /// The verdict on all checked files: an error unless every one was valid.
    pub fn finish(&self) -> (r: Result<(), String>)
        ensures
            r is Ok <==> self.valid == self.total,
            r matches Err(m) ==> m@ == "Some configurations invalid"@,
    {
        if self.valid == self.total {
            Ok(())
        } else {
            Err(String::from_str("Some configurations invalid"))
        }
    }
}

/// Whether the contents of an identity key file (surrounding white space
/// aside) are a secret key; the key's text must be 52 or 64 bytes long (the
/// key parser fails hard on other lengths).
pub fn identity_key_text_valid(content: &str) -> (b: bool)
    requires
        utf8_len(trim_spec(content@)) == 52 || utf8_len(trim_spec(content@)) == 64,
    ensures
        b == secret_key_text_parses(trim_spec(content@)),
{
    crate::identity_keys::read_secret_key(content).is_some()
}

/// Whether a failure to reach the daemon means that no daemon is running.
pub fn daemon_not_running(message: &str) -> (b: bool)
    ensures
        b == seq_contains(message@, "no Unix socket found"@),
{
    str_contains(message, "no Unix socket found")
}

/// The role that a cluster directory gives this machine.
#[derive(Debug, Clone, PartialEq, Eq, Structural)]
pub enum ClusterRole {
    /// `cluster.toml` is there and `machine.toml` is not.
    ClusterManager,
    /// `machine.toml` is there and `cluster.toml` is not.
    Machine,
    /// Neither file is there.
    Waiting,
}

/// The message for a cluster directory that holds both configuration files.
pub open spec fn both_configs_message(dir: Seq<char>) -> Seq<char> {
    "CONFIGURATION ERROR: Both cluster.toml and machine.toml exist in "@ + dir
        + "\nThis is not supported. Each cluster directory must have exactly one config:\n- cluster.toml: For cluster manager role\n- machine.toml: For machine role\nRemove one of the files to fix this error."@
}

/// The role for a directory with or without `cluster.toml` and `machine.toml`.
pub open spec fn cluster_role_spec(has_cluster: bool, has_machine: bool) -> Option<ClusterRole> {
    if has_cluster && has_machine {
        None
    } else if has_cluster {
        Some(ClusterRole::ClusterManager)
    } else if has_machine {
        Some(ClusterRole::Machine)
    } else {
        Some(ClusterRole::Waiting)
    }
}

/// Detects the role of a cluster directory (written as `cluster_dir`) from
/// which of its two configuration files exist; both at once is an error.
pub fn detect_cluster_role(cluster_dir: &str, has_cluster: bool, has_machine: bool) -> (r: Result<ClusterRole, String>)
    ensures
        match r {
            Ok(role) => cluster_role_spec(has_cluster, has_machine) == Some(role),
            Err(m) => cluster_role_spec(has_cluster, has_machine) is None && m@ == both_configs_message(cluster_dir@),
        },
{
    if has_cluster && has_machine {
        let mut m: Vec<char> = Vec::new();
        push_text(&mut m, "CONFIGURATION ERROR: Both cluster.toml and machine.toml exist in ");
        push_text(&mut m, cluster_dir);
        push_text(&mut m, "\nThis is not supported. Each cluster directory must have exactly one config:\n- cluster.toml: For cluster manager role\n- machine.toml: For machine role\nRemove one of the files to fix this error.");
        assert(m@ =~= both_configs_message(cluster_dir@));
        Err(string_from_chars(m.as_slice()))
    } else if has_cluster {
        Ok(ClusterRole::ClusterManager)
    } else if has_machine {
        Ok(ClusterRole::Machine)
    } else {
        Ok(ClusterRole::Waiting)
    }
}

/// The file in a cluster directory that holds the key of a role.
pub open spec fn identity_file_spec(role: ClusterRole) -> Seq<char> {
    match role {
        ClusterRole::ClusterManager => "cluster.private-key"@,
        ClusterRole::Machine => "machine.private-key"@,
        ClusterRole::Waiting => "identity.key"@,
    }
}

/// The file in a cluster directory that holds the key of `role`.
pub fn identity_file_name(role: &ClusterRole) -> (s: String)
    ensures
        s@ == identity_file_spec(*role),
{
    match role {
        ClusterRole::ClusterManager => String::from_str("cluster.private-key"),
        ClusterRole::Machine => String::from_str("machine.private-key"),
        ClusterRole::Waiting => String::from_str("identity.key"),
    }
}

} // verus!
