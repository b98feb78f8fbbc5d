//! Host configuration: the list of hosts to monitor, merging of
//! command-line hosts with configuration-file hosts, and the derivation of
//! a host identifier from a connection string.

use vstd::prelude::*;
use vstd::string::*;
use crate::order::{compare_str, Cmp};
use crate::strutil::{find_char, spec_find_char, spec_starts_with, starts_with, substring};

verus! {

/// Connection settings of a single host.
#[derive(Clone, Debug)]
pub struct HostConfig {
    /// Connection string: `local`, `ssh://user@host[:port]`, or
    /// `tcp://host:port`.
    pub host: String,
    /// An optional per-host log-viewer address, kept verbatim.
    pub dozzle: Option<String>,
}

/// The dashboard's configuration: the hosts to monitor.
#[derive(Clone, Debug)]
pub struct Config {
    pub hosts: Vec<HostConfig>,
}

impl Default for Config {
    /// No hosts configured.
    fn default() -> (r: Self)
        ensures
            r.hosts@.len() == 0,
    {
        Config { hosts: Vec::new() }
    }
}

impl Config {
    /// Merge with the hosts given on the command line. Hosts given
    /// explicitly (not as the built-in default) win over the configuration
    /// file; the file's hosts stay only when the command line carried the
    /// default and the file names any host at all.
    pub fn merge_with_cli_hosts(self, cli_hosts: Vec<String>, cli_default: bool) -> (r: Config)
        ensures
            if !cli_default || self.hosts@.len() == 0 {
                &&& r.hosts@.len() == cli_hosts@.len()
                &&& forall|i: int|
                    0 <= i < cli_hosts@.len() ==> (#[trigger] r.hosts@[i]).host@ == cli_hosts@[i]@
                        && r.hosts@[i].dozzle is None
            } else {
                r.hosts@ == self.hosts@
            },
    {
        if !cli_default || self.hosts.len() == 0 {
            let mut hosts: Vec<HostConfig> = Vec::new();
            let mut cli = cli_hosts;
            let ghost all = cli@;
            while cli.len() > 0
                invariant
                    hosts@.len() + cli@.len() == all.len(),
                    forall|i: int|
                        0 <= i < hosts@.len() ==> (#[trigger] hosts@[i]).host@ == all[i]@
                            && hosts@[i].dozzle is None,
                    cli@ =~= all.skip(hosts@.len() as int),
                decreases cli@.len(),
            {
                let ghost before = cli@;
                let host = cli.remove(0);
                proof {
                    assert(cli@ =~= before.drop_first());
                    assert(before.drop_first() =~= all.skip(hosts@.len() as int + 1));
                }
                hosts.push(HostConfig { host, dozzle: Option::None });
            }
            Config { hosts }
        } else {
            self
        }
    }

    /// The connection strings of all configured hosts, in order.
    pub fn host_strings(&self) -> (r: Vec<String>)
        ensures
            r@.len() == self.hosts@.len(),
            forall|i: int|
                0 <= i < self.hosts@.len() ==> (#[trigger] r@[i])@ == self.hosts@[i].host@,
    {
        let mut out: Vec<String> = Vec::new();
        let n = self.hosts.len();
        let mut i: usize = 0;
        while i < n
            invariant
                i <= n,
                n == self.hosts@.len(),
                out@.len() == i,
                forall|j: int| 0 <= j < i ==> (#[trigger] out@[j])@ == self.hosts@[j].host@,
            decreases n - i,
        {
            out.push(self.hosts[i].host.clone());
            i += 1;
        }
        out
    }
}

/// The host identifier a connection string names: `local` stays as it is,
/// an `ssh://` address is the user-and-host part without port, a `tcp://`
/// address is everything past the scheme, and anything else stays
/// verbatim.
pub open spec fn spec_host_id(s: Seq<char>) -> Seq<char> {
    if s == "local"@ {
        s
    } else if spec_starts_with(s, "ssh://"@) {
        let rest = s.subrange("ssh://"@.len() as int, s.len() as int);
        match spec_find_char(rest, ':') {
            Option::Some(i) => rest.subrange(0, i),
            Option::None => rest,
        }
    } else if spec_starts_with(s, "tcp://"@) {
        s.subrange("tcp://"@.len() as int, s.len() as int)
    } else {
        s
    }
}

/// Derive the identifier under which a host's containers are keyed from
/// its connection string.
pub fn create_host_id(host_spec: &str) -> (r: String)
    ensures
        r@ == spec_host_id(host_spec@),
{
    proof {
        reveal_strlit("local");
        reveal_strlit("ssh://");
        reveal_strlit("tcp://");
    }
    if compare_str(host_spec, "local") == Cmp::Equal {
        return String::from_str(host_spec);
    }
    let len = host_spec.unicode_len();
    if starts_with(host_spec, "ssh://") {
        let rest = host_spec.substring_char(6, len);
        match find_char(rest, ':') {
            Option::Some(i) => {
                proof {
                    crate::strutil::lemma_spec_find_char(rest@, ':');
                }
                substring(rest, 0, i)
            },
            Option::None => String::from_str(rest),
        }
    } else if starts_with(host_spec, "tcp://") {
        let rest = host_spec.substring_char(6, len);
        String::from_str(rest)
    } else {
        String::from_str(host_spec)
    }
}

} // verus!
