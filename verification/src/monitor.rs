//! Host-monitor bookkeeping: building containers from raw runtime
//! listings, and the per-host record of which containers already have a
//! live stat streamer, which is what prevents duplicate spawns and makes
//! stop events idempotent.

use vstd::prelude::*;
use vstd::string::*;
use crate::order::{compare_str, Cmp};
use crate::strutil::substring;
use crate::types::{Container, ContainerKey, ContainerStats};

verus! {

/// What a lifecycle event means to the monitor: a container came up, went
/// away, or the action is one the monitor does not react to.
#[derive(Clone, Copy, Debug, PartialEq, Eq, Structural)]
pub enum LifecycleAction {
    Started,
    Stopped,
    Ignored,
}

/// How the monitor reads a lifecycle action string: `start` begins
/// tracking, `die` and `stop` end it, everything else is ignored.
pub open spec fn spec_lifecycle_action(s: Seq<char>) -> LifecycleAction {
    if s == "start"@ {
        LifecycleAction::Started
    } else if s == "die"@ || s == "stop"@ {
        LifecycleAction::Stopped
    } else {
        LifecycleAction::Ignored
    }
}

/// Classify one lifecycle action string.
pub fn classify_lifecycle_action(action: &str) -> (r: LifecycleAction)
    ensures
        r == spec_lifecycle_action(action@),
{
    proof {
        reveal_strlit("start");
        reveal_strlit("die");
        reveal_strlit("stop");
    }
    if compare_str(action, "start") == Cmp::Equal {
        LifecycleAction::Started
    } else if compare_str(action, "die") == Cmp::Equal || compare_str(action, "stop")
        == Cmp::Equal {
        LifecycleAction::Stopped
    } else {
        LifecycleAction::Ignored
    }
}

/// A container identifier as the dashboard keys it: the runtime's
/// identifier cut to its first twelve characters, which the runtime
/// accepts interchangeably with the full identifier.
pub open spec fn spec_truncated(s: Seq<char>) -> Seq<char> {
    if s.len() <= 12 {
        s
    } else {
        s.subrange(0, 12)
    }
}

/// Cut a container identifier to the dashboard's twelve-character form.
pub fn truncate_id(id: &str) -> (r: String)
    ensures
        r@ == spec_truncated(id@),
{
    let len = id.unicode_len();
    if len <= 12 {
        String::from_str(id)
    } else {
        substring(id, 0, 12)
    }
}

/// A container name as displayed: the runtime reports names with leading
/// slashes, which are dropped.
pub open spec fn spec_trim_slashes(s: Seq<char>) -> Seq<char>
    decreases s.len(),
{
    if s.len() > 0 && s[0] == '/' {
        spec_trim_slashes(s.drop_first())
    } else {
        s
    }
}

/// If everything before `i` is a slash and `i` is past the slashes, the
/// trimmed name is the tail from `i`.
proof fn lemma_trim_slashes_at(s: Seq<char>, i: int)
    requires
        0 <= i <= s.len(),
        forall|j: int| 0 <= j < i ==> s[j] == '/',
        i == s.len() || s[i] != '/',
    ensures
        spec_trim_slashes(s) == s.subrange(i, s.len() as int),
    decreases s.len(),
{
    if i > 0 {
        let t = s.drop_first();
        assert forall|j: int| 0 <= j < i - 1 implies t[j] == '/' by {
            assert(t[j] == s[j + 1]);
        }
        if i - 1 < t.len() {
            assert(t[i - 1] == s[i]);
        }
        lemma_trim_slashes_at(t, i - 1);
        assert(t.subrange(i - 1, t.len() as int) =~= s.subrange(i, s.len() as int));
    } else {
        assert(s.subrange(0, s.len() as int) =~= s);
    }
}

/// Drop the leading slashes of a runtime-reported container name.
pub fn trim_leading_slashes(name: &str) -> (r: String)
    ensures
        r@ == spec_trim_slashes(name@),
{
    let len = name.unicode_len();
    let mut i: usize = 0;
    while i < len && name.get_char(i) == '/'
        invariant
            i <= len,
            len == name@.len(),
            forall|j: int| 0 <= j < i ==> name@[j] == '/',
        decreases len - i,
    {
        i += 1;
    }
    proof {
        lemma_trim_slashes_at(name@, i as int);
    }
    substring(name, i, len)
}

/// Build the dashboard's record of a freshly discovered container from the
/// raw listing fields: identifier truncated, name de-slashed, missing
/// fields empty, stats all zero.
pub fn container_from_listing(
    host_id: &str,
    id: Option<String>,
    name: Option<String>,
    status: Option<String>,
) -> (c: Container)
    ensures
        c.id@ == spec_truncated(match id {
            Option::Some(s) => s@,
            Option::None => Seq::<char>::empty(),
        }),
        c.name@ == spec_trim_slashes(match name {
            Option::Some(s) => s@,
            Option::None => Seq::<char>::empty(),
        }),
        c.status@ == (match status {
            Option::Some(s) => s@,
            Option::None => Seq::<char>::empty(),
        }),
        c.stats == (ContainerStats {
            cpu: 0,
            memory: 0,
            network_tx_bytes_per_sec: 0,
            network_rx_bytes_per_sec: 0,
        }),
        c.host_id@ == host_id@,
{
    let full_id = match id {
        Option::Some(s) => s,
        Option::None => String::new(),
    };
    let raw_name = match name {
        Option::Some(s) => s,
        Option::None => String::new(),
    };
    let status = match status {
        Option::Some(s) => s,
        Option::None => String::new(),
    };
    Container {
        id: truncate_id(full_id.as_str()),
        name: trim_leading_slashes(raw_name.as_str()),
        status,
        stats: ContainerStats::default(),
        host_id: String::from_str(host_id),
    }
}

/// One host's monitor state: which (truncated) container identifiers have
/// a live stat streamer. The owner spawns a streamer only when
/// `begin_tracking` reports the identifier as fresh, and cancels one only
/// when `on_container_stop` hands back its key, so no identifier ever has
/// two streamers.
pub struct HostMonitor {
    pub host_id: String,
    pub monitored: Vec<String>,
}

impl HostMonitor {
    /// No identifier is tracked twice.
    pub open spec fn wf(self) -> bool {
        forall|i: int, j: int|
            0 <= i < j < self.monitored@.len() ==> (#[trigger] self.monitored@[i])@ != (
            #[trigger] self.monitored@[j])@
    }

    /// Whether the identifier has a live streamer.
    pub open spec fn spec_tracks(self, id: Seq<char>) -> bool {
        exists|i: int| 0 <= i < self.monitored@.len() && (#[trigger] self.monitored@[i])@ == id
    }

    /// A monitor for one host, tracking nothing yet.
    pub fn new(host_id: String) -> (r: HostMonitor)
        ensures
            r.wf(),
            r.host_id == host_id,
            r.monitored@.len() == 0,
    {
        HostMonitor { host_id, monitored: Vec::new() }
    }

    /// The index of a tracked identifier.
    fn find_monitored(&self, truncated_id: &str) -> (r: Option<usize>)
        ensures
            match r {
                Option::Some(i) => i < self.monitored@.len() && self.monitored@[i as int]@
                    == truncated_id@,
                Option::None => !self.spec_tracks(truncated_id@),
            },
    {
        let n = self.monitored.len();
        let mut i: usize = 0;
        while i < n
            invariant
                i <= n,
                n == self.monitored@.len(),
                forall|j: int| 0 <= j < i ==> (#[trigger] self.monitored@[j])@ != truncated_id@,
            decreases n - i,
        {
            if crate::order::compare_str(self.monitored[i].as_str(), truncated_id)
                == crate::order::Cmp::Equal {
                return Option::Some(i);
            }
            i += 1;
        }
        Option::None
    }

    /// Start tracking an identifier unless it is already tracked; reports
    /// whether it was fresh, in which case (and only then) the caller
    /// spawns its stat streamer.
    pub fn begin_tracking(&mut self, truncated_id: &str) -> (fresh: bool)
        requires
            old(self).wf(),
        ensures
            final(self).wf(),
            final(self).host_id == old(self).host_id,
            fresh == !old(self).spec_tracks(truncated_id@),
            final(self).spec_tracks(truncated_id@),
            if fresh {
                final(self).monitored@.len() == old(self).monitored@.len() + 1 && final(self).monitored@[old(self).monitored@.len() as int]@ == truncated_id@ && forall|i: int|
                    0 <= i < old(self).monitored@.len() ==> final(self).monitored@[i] == old(self).monitored@[i]
            } else {
                final(self).monitored@ == old(self).monitored@
            },
    {
        match self.find_monitored(truncated_id) {
            Option::Some(_) => false,
            Option::None => {
                let owned = String::from_str(truncated_id);
                self.monitored.push(owned);
                assert(self.monitored@[old(self).monitored@.len() as int]@ == truncated_id@);
                true
            },
        }
    }

    /// A lifecycle `die`/`stop` arrived: if the identifier is tracked,
    /// stop tracking it and hand back the key whose streamer the caller
    /// must cancel (and whose removal it must announce). An untracked
    /// identifier is a no-op, so duplicate stop events are harmless.
    pub fn on_container_stop(&mut self, container_id: &str) -> (r: Option<ContainerKey>)
        requires
            old(self).wf(),
        ensures
            final(self).wf(),
            final(self).host_id == old(self).host_id,
            r is Some <==> old(self).spec_tracks(spec_truncated(container_id@)),
            match r {
                Option::Some(k) => {
                    &&& k@ == (old(self).host_id@, spec_truncated(container_id@))
                    &&& !final(self).spec_tracks(spec_truncated(container_id@))
                    &&& forall|id: Seq<char>|
                        id != spec_truncated(container_id@) ==> #[trigger] final(self).spec_tracks(id) == old(self).spec_tracks(id)
                },
                Option::None => final(self).monitored@ == old(self).monitored@,
            },
    {
        let truncated = truncate_id(container_id);
        match self.find_monitored(truncated.as_str()) {
            Option::Some(i) => {
                let ghost pre = self.monitored@;
                self.monitored.remove(i);
                let key = ContainerKey::new(self.host_id.clone(), truncated);
                proof {
                    assert forall|a: int, b: int|
                        0 <= a < b < self.monitored@.len() implies (#[trigger] self.monitored@[a])@
                        != (#[trigger] self.monitored@[b])@ by {
                        let a0 = if a < i {
                            a
                        } else {
                            a + 1
                        };
                        let b0 = if b < i {
                            b
                        } else {
                            b + 1
                        };
                        assert(self.monitored@[a] == pre[a0] && self.monitored@[b] == pre[b0]);
                    }
                    assert forall|j: int|
                        0 <= j < self.monitored@.len() implies (#[trigger] self.monitored@[j])@
                        != spec_truncated(container_id@) by {
                        let j0 = if j < i {
                            j
                        } else {
                            j + 1
                        };
                        assert(self.monitored@[j] == pre[j0]);
                        if j0 != i {
                            assert(pre[j0]@ != pre[i as int]@);
                        }
                    }
                    assert forall|id: Seq<char>|
                        id != spec_truncated(container_id@) implies #[trigger] self.spec_tracks(id)
                        == old(self).spec_tracks(id) by {
                        if old(self).spec_tracks(id) {
                            let w = choose|w: int|
                                0 <= w < pre.len() && (#[trigger] pre[w])@ == id;
                            let w1 = if w < i {
                                w
                            } else {
                                w - 1
                            };
                            assert(w != i);
                            assert(self.monitored@[w1] == pre[w]);
                        }
                        if self.spec_tracks(id) {
                            let w = choose|w: int|
                                0 <= w < self.monitored@.len() && (#[trigger] self.monitored@[w])@
                                    == id;
                            let w0 = if w < i {
                                w
                            } else {
                                w + 1
                            };
                            assert(self.monitored@[w] == pre[w0]);
                        }
                    }
                }
                Option::Some(key)
            },
            Option::None => Option::None,
        }
    }
}

} // verus!
