//! The event reducer: the single owner of all mutable dashboard state.
//!
//! Every producer (host monitors, stat streamers, the log streamer, the
//! keyboard worker) communicates with this state only through `AppEvent`
//! values, applied one at a time by `handle_event`. Each handler reports
//! whether the change needs an immediate redraw, and what must happen to
//! the single log-stream task.
//!
//! Invariants kept by every handler (`wf`): the container table is sorted
//! by `(host, name)` with registry keys unique and the key column matching
//! the table row by row; the selection is present exactly when the table is
//! non-empty and always in range; and the log buffer and the log-task
//! target exist exactly in log view, always naming the viewed container.

use vstd::prelude::*;

use crate::logs::LogEntry;
use crate::order::{
    compare_str, key_le, key_le_exec, key_le_fn, lemma_key_le_total_ordering,
    lemma_key_le_transitive, lemma_lex_lt_connected, Cmp, SortKey,
};
use crate::types::{
    spec_key, spec_sort_key, AppEvent, Container, ContainerKey, ContainerStats, HostId,
    LogCommand, ViewState,
};

verus! {

/// All runtime state of the dashboard, owned exclusively by the reducer.
pub struct AppState {
    /// The registry: one entry per live container, kept sorted by
    /// `(host_id, name)`.
    pub containers: Vec<Container>,
    /// The registry keys, row for row the keys of `containers`.
    pub sorted_container_keys: Vec<ContainerKey>,
    /// Set once the operator asked to quit.
    pub should_quit: bool,
    /// Index of the selected row, present exactly when the table is
    /// non-empty.
    pub selected: Option<usize>,
    /// Which screen is showing.
    pub view_state: ViewState,
    /// The viewed container's log buffer, present exactly in log view.
    pub current_logs: Option<(ContainerKey, Vec<LogEntry>)>,
    /// Lines scrolled from the top of the log view.
    pub log_scroll_offset: usize,
    /// Whether the log view follows the newest line.
    pub is_at_bottom: bool,
    /// The container whose logs the caller should be streaming, present
    /// exactly in log view.
    pub active_log_target: Option<ContainerKey>,
}

/// The least registry index holding key `k`, if any.
pub open spec fn spec_find(s: Seq<Container>, k: (Seq<char>, Seq<char>)) -> Option<int>
    decreases s.len(),
{
    if s.len() == 0 {
        None
    } else if spec_key(s[0]) == k {
        Some(0)
    } else {
        match spec_find(s.drop_first(), k) {
            Some(i) => Some(i + 1),
            None => None,
        }
    }
}

/// What `spec_find` returns: the least index holding the key, or `None`
/// when the key is absent.
pub proof fn lemma_spec_find(s: Seq<Container>, k: (Seq<char>, Seq<char>))
    ensures
        match spec_find(s, k) {
            Option::Some(i) => 0 <= i < s.len() && spec_key(s[i]) == k && forall|j: int|
                0 <= j < i ==> spec_key(s[j]) != k,
            Option::None => forall|j: int| 0 <= j < s.len() ==> spec_key(s[j]) != k,
        },
    decreases s.len(),
{
    if s.len() > 0 && spec_key(s[0]) != k {
        lemma_spec_find(s.drop_first(), k);
        assert forall|j: int| 1 <= j < s.len() implies s[j] == s.drop_first()[j - 1] by {}
    }
}

/// An index holding the key, before which the key does not occur, is the
/// one `spec_find` names.
proof fn lemma_find_agrees(s: Seq<Container>, k: (Seq<char>, Seq<char>), i: int)
    requires
        0 <= i < s.len(),
        spec_key(s[i]) == k,
        forall|j: int| 0 <= j < i ==> spec_key(s[j]) != k,
    ensures
        spec_find(s, k) == Option::Some(i),
{
    lemma_spec_find(s, k);
    match spec_find(s, k) {
        Option::Some(c) => {
            if c < i {
                assert(spec_key(s[c]) != k);
            }
            if c > i {
                assert(spec_key(s[i]) != k);
            }
        },
        Option::None => {
            assert(spec_key(s[i]) != k);
        },
    }
}

/// Where a row with sort key `x` belongs in the sorted table: after every
/// row sorting at or before `x`, before the rest.
pub open spec fn spec_insert_pos(s: Seq<Container>, x: SortKey) -> int
    decreases s.len(),
{
    if s.len() == 0 {
        0
    } else if key_le(spec_sort_key(s[0]), x) {
        1 + spec_insert_pos(s.drop_first(), x)
    } else {
        0
    }
}

/// A position with the scan property (everything before sorts at or before
/// `x`, and the row at it, if any, sorts strictly after) is the one
/// `spec_insert_pos` names.
proof fn lemma_insert_pos_agrees(s: Seq<Container>, x: SortKey, p: int)
    requires
        0 <= p <= s.len(),
        forall|i: int| 0 <= i < p ==> key_le(spec_sort_key(#[trigger] s[i]), x),
        p == s.len() || !key_le(spec_sort_key(s[p]), x),
    ensures
        spec_insert_pos(s, x) == p,
    decreases s.len(),
{
    if s.len() > 0 {
        if key_le(spec_sort_key(s[0]), x) {
            assert(p >= 1);
            let t = s.drop_first();
            assert forall|i: int| 0 <= i < p - 1 implies key_le(
                spec_sort_key(#[trigger] t[i]),
                x,
            ) by {
                assert(t[i] == s[i + 1]);
            }
            if p - 1 < t.len() {
                assert(t[p - 1] == s[p]);
            }
            lemma_insert_pos_agrees(t, x, p - 1);
        } else {
            assert(p == 0);
        }
    }
}

/// The table with the row holding key `k` taken out; the table itself if
/// no row holds it.
pub open spec fn spec_remove_key(s: Seq<Container>, k: (Seq<char>, Seq<char>)) -> Seq<Container> {
    match spec_find(s, k) {
        Option::Some(i) => s.remove(i),
        Option::None => s,
    }
}

/// One container folded into the table: any stale row with the same
/// registry key leaves, and the container enters at its sort position.
pub open spec fn spec_sorted_insert(s: Seq<Container>, c: Container) -> Seq<Container> {
    let cleaned = spec_remove_key(s, spec_key(c));
    cleaned.insert(spec_insert_pos(cleaned, spec_sort_key(c)), c)
}

/// A whole snapshot folded into the table, first row first.
pub open spec fn spec_insert_all(s: Seq<Container>, cs: Seq<Container>) -> Seq<Container>
    decreases cs.len(),
{
    if cs.len() == 0 {
        s
    } else {
        spec_insert_all(spec_sorted_insert(s, cs[0]), cs.drop_first())
    }
}

/// The table is sorted by `(host, name)` and its registry keys are unique.
pub open spec fn spec_sorted(s: Seq<Container>) -> bool {
    &&& forall|i: int, j: int|
        0 <= i < j < s.len() ==> key_le(
            spec_sort_key(#[trigger] s[i]),
            spec_sort_key(#[trigger] s[j]),
        )
    &&& forall|i: int, j: int|
        0 <= i < j < s.len() ==> spec_key(#[trigger] s[i]) != spec_key(#[trigger] s[j])
}

impl AppState {
    /// The key column mirrors the container table row by row.
    pub open spec fn keys_match(self) -> bool {
        &&& self.sorted_container_keys@.len() == self.containers@.len()
        &&& forall|i: int|
            0 <= i < self.containers@.len() ==> (#[trigger] self.sorted_container_keys@[i])@
                == spec_key(self.containers@[i])
    }

    /// The selection exists exactly when the table is non-empty, and is in
    /// range.
    pub open spec fn selection_wf(self) -> bool {
        match self.selected {
            Option::None => self.containers@.len() == 0,
            Option::Some(s) => s < self.containers@.len(),
        }
    }

    /// The log buffer and the log-task target exist exactly in log view and
    /// name the viewed container.
    pub open spec fn log_view_wf(self) -> bool {
        match self.view_state {
            ViewState::ContainerList => self.current_logs is None && self.active_log_target
                is None,
            ViewState::LogView(k) => {
                &&& match self.current_logs {
                    Option::Some(pair) => pair.0@ == k@,
                    Option::None => false,
                }
                &&& match self.active_log_target {
                    Option::Some(t) => t@ == k@,
                    Option::None => false,
                }
            },
        }
    }

    /// Well-formedness: every handler takes this in and hands it back out.
    pub open spec fn wf(self) -> bool {
        &&& spec_sorted(self.containers@)
        &&& self.keys_match()
        &&& self.selection_wf()
        &&& self.log_view_wf()
    }

    /// A fresh state: empty registry, no selection, container list showing,
    /// no log stream wanted.
    pub fn new() -> (r: AppState)
        ensures
            r.wf(),
            r.containers@.len() == 0,
            r.should_quit == false,
            r.selected is None,
            r.view_state == ViewState::ContainerList,
            r.current_logs is None,
            r.log_scroll_offset == 0,
            r.is_at_bottom == true,
            r.active_log_target is None,
    {
        AppState {
            containers: Vec::new(),
            sorted_container_keys: Vec::new(),
            should_quit: false,
            selected: Option::None,
            view_state: ViewState::ContainerList,
            current_logs: Option::None,
            log_scroll_offset: 0,
            is_at_bottom: true,
            active_log_target: Option::None,
        }
    }

    /// The registry index of the container with key `(host, id)`, or `None`.
    fn find_index(&self, host_id: &str, container_id: &str) -> (r: Option<usize>)
        ensures
            match r {
                Option::Some(i) => spec_find(self.containers@, (host_id@, container_id@))
                    == Option::Some(i as int),
                Option::None => spec_find(self.containers@, (host_id@, container_id@)) is None,
            },
    {
        proof {
            lemma_spec_find(self.containers@, (host_id@, container_id@));
        }
        let n = self.containers.len();
        let mut i: usize = 0;
        while i < n
            invariant
                i <= n,
                n == self.containers@.len(),
                forall|j: int| 0 <= j < i ==> spec_key(self.containers@[j]) != (host_id@, container_id@),
            decreases n - i,
        {
            let c = &self.containers[i];
            if compare_str(c.host_id.as_str(), host_id) == Cmp::Equal && compare_str(
                c.id.as_str(),
                container_id,
            ) == Cmp::Equal {
                proof {
                    assert(spec_key(self.containers@[i as int]) == (host_id@, container_id@));
                    lemma_find_agrees(self.containers@, (host_id@, container_id@), i as int);
                }
                return Option::Some(i);
            }
            proof {
                assert(spec_key(self.containers@[i as int]) != (host_id@, container_id@));
            }
            i += 1;
        }
        Option::None
    }

    /// The position at which a container with sort key `(host, name)`
    /// belongs: after every row that sorts at or before it, before every
    /// row that sorts after it.
    fn find_insert_pos(&self, host_id: &str, name: &str) -> (p: usize)
        requires
            spec_sorted(self.containers@),
        ensures
            p <= self.containers@.len(),
            p == spec_insert_pos(self.containers@, (host_id@, name@)),
            forall|i: int|
                0 <= i < p ==> key_le(spec_sort_key(#[trigger] self.containers@[i]), (host_id@, name@)),
            forall|i: int|
                p <= i < self.containers@.len() ==> key_le(
                    (host_id@, name@),
                    spec_sort_key(#[trigger] self.containers@[i]),
                ),
    {
        let n = self.containers.len();
        let mut p: usize = 0;
        while p < n && key_le_exec(
            self.containers[p].host_id.as_str(),
            self.containers[p].name.as_str(),
            host_id,
            name,
        )
            invariant
                p <= n,
                n == self.containers@.len(),
                spec_sorted(self.containers@),
                forall|i: int|
                    0 <= i < p ==> key_le(
                        spec_sort_key(#[trigger] self.containers@[i]),
                        (host_id@, name@),
                    ),
            decreases n - p,
        {
            p += 1;
        }
        proof {
            let new_key: SortKey = (host_id@, name@);
            lemma_insert_pos_agrees(self.containers@, new_key, p as int);
            if p < self.containers@.len() {
                // the scan stopped at the first row sorting strictly after
                // the new key; sortedness and transitivity extend that to
                // every later row
                let pk = spec_sort_key(self.containers@[p as int]);
                assert(!key_le(pk, new_key));
                lemma_lex_lt_connected(pk.0, new_key.0);
                lemma_lex_lt_connected(pk.1, new_key.1);
                assert(key_le(new_key, pk));
                assert forall|i: int|
                    p <= i < self.containers@.len() implies key_le(
                    new_key,
                    spec_sort_key(#[trigger] self.containers@[i]),
                ) by {
                    if i > p {
                        assert(key_le(pk, spec_sort_key(self.containers@[i])));
                        lemma_key_le_transitive(new_key, pk, spec_sort_key(self.containers@[i]));
                    }
                }
            }
        }
        p
    }

    /// Move the selection up one row, clamped at the top, and ask for a
    /// redraw. Selection commands apply only to the container list: in the
    /// log view this is a no-op.
    pub fn handle_select_previous(&mut self) -> (r: bool)
        requires
            old(self).wf(),
        ensures
            final(self).wf(),
            registry_unchanged(*old(self), *final(self)),
            log_unchanged(*old(self), *final(self)),
            final(self).should_quit == old(self).should_quit,
            r == (old(self).view_state == ViewState::ContainerList),
            final(self).selected == (if r {
                match old(self).selected {
                    Option::Some(s) => if s > 0 {
                        Option::Some((s - 1) as usize)
                    } else {
                        Option::Some(s)
                    },
                    Option::None => Option::<usize>::None,
                }
            } else {
                old(self).selected
            }),
    {
        match &self.view_state {
            ViewState::LogView(_) => {
                return false;
            },
            ViewState::ContainerList => {},
        }
        if self.containers.len() > 0 {
            let s = match self.selected {
                Option::Some(v) => v,
                Option::None => 0,
            };
            if s > 0 {
                self.selected = Option::Some(s - 1);
            }
        }
        true
    }

    /// Move the selection down one row, clamped at the last row, and ask
    /// for a redraw. Selection commands apply only to the container list:
    /// in the log view this is a no-op.
    pub fn handle_select_next(&mut self) -> (r: bool)
        requires
            old(self).wf(),
        ensures
            final(self).wf(),
            registry_unchanged(*old(self), *final(self)),
            log_unchanged(*old(self), *final(self)),
            final(self).should_quit == old(self).should_quit,
            r == (old(self).view_state == ViewState::ContainerList),
            final(self).selected == (if r {
                match old(self).selected {
                    Option::Some(s) => if s + 1 < old(self).containers@.len() {
                        Option::Some((s + 1) as usize)
                    } else {
                        Option::Some(s)
                    },
                    Option::None => Option::<usize>::None,
                }
            } else {
                old(self).selected
            }),
    {
        match &self.view_state {
            ViewState::LogView(_) => {
                return false;
            },
            ViewState::ContainerList => {},
        }
        let count = self.containers.len();
        if count > 0 {
            let s = match self.selected {
                Option::Some(v) => v,
                Option::None => 0,
            };
            if s < count - 1 {
                self.selected = Option::Some(s + 1);
            }
        }
        true
    }

    /// Scroll the log view up one line and leave follow mode; a no-op
    /// outside the log view or at the top. Asks for a redraw exactly when
    /// it moved.
    pub fn handle_scroll_up(&mut self) -> (r: bool)
        requires
            old(self).wf(),
        ensures
            final(self).wf(),
            registry_unchanged(*old(self), *final(self)),
            final(self).should_quit == old(self).should_quit,
            final(self).selected == old(self).selected,
            final(self).view_state == old(self).view_state,
            final(self).current_logs == old(self).current_logs,
            final(self).active_log_target == old(self).active_log_target,
            r == (old(self).view_state matches ViewState::LogView(_) && old(self).log_scroll_offset
                > 0),
            if r {
                final(self).log_scroll_offset == old(self).log_scroll_offset - 1 && final(self).is_at_bottom == false
            } else {
                final(self).log_scroll_offset == old(self).log_scroll_offset && final(self).is_at_bottom == old(self).is_at_bottom
            },
    {
        match &self.view_state {
            ViewState::LogView(_) => {
                if self.log_scroll_offset > 0 {
                    self.log_scroll_offset = self.log_scroll_offset - 1;
                    self.is_at_bottom = false;
                    true
                } else {
                    false
                }
            },
            ViewState::ContainerList => false,
        }
    }

    /// Scroll the log view down one line; the final clamp against the
    /// viewport and the follow-mode recomputation happen at render time.
    /// A no-op outside the log view.
    pub fn handle_scroll_down(&mut self) -> (r: bool)
        requires
            old(self).wf(),
        ensures
            final(self).wf(),
            registry_unchanged(*old(self), *final(self)),
            final(self).should_quit == old(self).should_quit,
            final(self).selected == old(self).selected,
            final(self).view_state == old(self).view_state,
            final(self).current_logs == old(self).current_logs,
            final(self).active_log_target == old(self).active_log_target,
            final(self).is_at_bottom == old(self).is_at_bottom,
            r == (old(self).view_state matches ViewState::LogView(_) && old(self).current_logs
                is Some),
            if r {
                final(self).log_scroll_offset == (if old(self).log_scroll_offset < usize::MAX {
                    old(self).log_scroll_offset + 1
                } else {
                    old(self).log_scroll_offset as int
                })
            } else {
                final(self).log_scroll_offset == old(self).log_scroll_offset
            },
    {
        match &self.view_state {
            ViewState::LogView(_) => {
                if self.current_logs.is_some() {
                    if self.log_scroll_offset < usize::MAX {
                        self.log_scroll_offset = self.log_scroll_offset + 1;
                    }
                    true
                } else {
                    false
                }
            },
            ViewState::ContainerList => false,
        }
    }

    /// Leave the log view: the log task is to be cancelled, the buffer is
    /// dropped, and the container list shows again. A no-op in the list
    /// view.
    pub fn handle_exit_log_view(&mut self) -> (r: (bool, LogCommand))
        requires
            old(self).wf(),
        ensures
            final(self).wf(),
            registry_unchanged(*old(self), *final(self)),
            final(self).should_quit == old(self).should_quit,
            final(self).selected == old(self).selected,
            final(self).log_scroll_offset == old(self).log_scroll_offset,
            final(self).is_at_bottom == old(self).is_at_bottom,
            r.0 == (old(self).view_state matches ViewState::LogView(_)),
            if r.0 {
                final(self).view_state == ViewState::ContainerList && final(self).current_logs
                    is None && final(self).active_log_target is None && r.1 matches
                    LogCommand::Stop
            } else {
                final(self).view_state == old(self).view_state && final(self).current_logs == old(self).current_logs && final(self).active_log_target == old(self).active_log_target
                    && r.1 matches LogCommand::Unchanged
            },
    {
        match &self.view_state {
            ViewState::LogView(_) => {
                self.active_log_target = Option::None;
                self.current_logs = Option::None;
                self.view_state = ViewState::ContainerList;
                (true, LogCommand::Stop)
            },
            ViewState::ContainerList => (false, LogCommand::Unchanged),
        }
    }

    /// Overwrite the stats of the container with this key, in place; a
    /// stats sample for an unknown key is dropped. Never asks for an
    /// immediate redraw: stats ride the throttled frame.
    pub fn handle_container_stat(&mut self, key: ContainerKey, stats: ContainerStats) -> (r: bool)
        requires
            old(self).wf(),
        ensures
            final(self).wf(),
            log_unchanged(*old(self), *final(self)),
            final(self).should_quit == old(self).should_quit,
            final(self).selected == old(self).selected,
            final(self).sorted_container_keys@ == old(self).sorted_container_keys@,
            match spec_find(old(self).containers@, key@) {
                Option::Some(i) => final(self).containers@ == old(self).containers@.update(
                    i,
                    (Container { stats: stats, ..old(self).containers@[i] }),
                ),
                Option::None => final(self).containers@ == old(self).containers@,
            },
            r == false,
    {
        let idx = self.find_index(key.host_id.as_str(), key.container_id.as_str());
        match idx {
            Option::Some(i) => {
                let ghost pre = self.containers@;
                proof {
                    lemma_spec_find(pre, key@);
                }
                let mut updated = self.containers[i].duplicate();
                updated.stats = stats;
                self.containers.set(i, updated);
                proof {
                    assert(self.containers@ =~= pre.update(
                        i as int,
                        (Container { stats: stats, ..pre[i as int] }),
                    ));
                    assert forall|a: int, b: int|
                        0 <= a < b < self.containers@.len() implies key_le(
                        spec_sort_key(#[trigger] self.containers@[a]),
                        spec_sort_key(#[trigger] self.containers@[b]),
                    ) && spec_key(self.containers@[a]) != spec_key(self.containers@[b]) by {
                        assert(spec_sort_key(self.containers@[a]) == spec_sort_key(pre[a]));
                        assert(spec_sort_key(self.containers@[b]) == spec_sort_key(pre[b]));
                        assert(spec_key(self.containers@[a]) == spec_key(pre[a]));
                        assert(spec_key(self.containers@[b]) == spec_key(pre[b]));
                    }
                }
                false
            },
            Option::None => false,
        }
    }

    /// Append a log line to the buffer if it belongs to the viewed
    /// container; lines for any other key are dropped. Asks for a redraw
    /// exactly when the line was kept.
    pub fn handle_log_line(&mut self, key: ContainerKey, entry: LogEntry) -> (r: bool)
        requires
            old(self).wf(),
        ensures
            final(self).wf(),
            registry_unchanged(*old(self), *final(self)),
            final(self).should_quit == old(self).should_quit,
            final(self).selected == old(self).selected,
            final(self).view_state == old(self).view_state,
            final(self).log_scroll_offset == old(self).log_scroll_offset,
            final(self).is_at_bottom == old(self).is_at_bottom,
            final(self).active_log_target == old(self).active_log_target,
            r == (match old(self).current_logs {
                Option::Some(pair) => pair.0@ == key@,
                Option::None => false,
            }),
            match old(self).current_logs {
                Option::Some(pair) => if pair.0@ == key@ {
                    match final(self).current_logs {
                        Option::Some(now) => now.0 == pair.0 && now.1@ == pair.1@.push(entry),
                        Option::None => false,
                    }
                } else {
                    final(self).current_logs == old(self).current_logs
                },
                Option::None => final(self).current_logs == old(self).current_logs,
            },
    {
        match &mut self.current_logs {
            Option::Some(pair) => {
                if pair.0.same_key(&key) {
                    pair.1.push(entry);
                    true
                } else {
                    false
                }
            },
            Option::None => false,
        }
    }

    /// Remove the container with this key from the table; a destroy for an
    /// unknown key is a no-op. If the table empties, the selection clears;
    /// if the selection fell past the end, it moves to the new last row.
    /// Always asks for a redraw.
    pub fn handle_container_destroyed(&mut self, key: ContainerKey) -> (r: bool)
        requires
            old(self).wf(),
        ensures
            final(self).wf(),
            log_unchanged(*old(self), *final(self)),
            final(self).should_quit == old(self).should_quit,
            match spec_find(old(self).containers@, key@) {
                Option::Some(i) => final(self).containers@ == old(self).containers@.remove(i)
                    && final(self).sorted_container_keys@ == old(self).sorted_container_keys@.remove(i),
                Option::None => registry_unchanged(*old(self), *final(self)),
            },
            final(self).selected == spec_clamped_selection(
                old(self).selected,
                final(self).containers@.len() as int,
            ),
            r == true,
    {
        let idx = self.find_index(key.host_id.as_str(), key.container_id.as_str());
        match idx {
            Option::Some(i) => {
                let ghost pre = self.containers@;
                proof {
                    lemma_spec_find(pre, key@);
                }
                self.containers.remove(i);
                self.sorted_container_keys.remove(i);
                proof {
                    lemma_remove_keeps_sorted(pre, i as int);
                }
            },
            Option::None => {},
        }
        let count = self.containers.len();
        if count == 0 {
            self.selected = Option::None;
        } else {
            match self.selected {
                Option::Some(s) => {
                    if s >= count {
                        self.selected = Option::Some(count - 1);
                    }
                },
                Option::None => {},
            }
        }
        true
    }

    /// Fold one container into the table: any stale row with the same key
    /// leaves, and the container enters at its sort position. The caller
    /// restores the selection invariant.
    fn insert_container(&mut self, container: Container)
        requires
            spec_sorted(old(self).containers@),
            old(self).keys_match(),
        ensures
            final(self).containers@ == spec_sorted_insert(old(self).containers@, container),
            spec_sorted(final(self).containers@),
            final(self).keys_match(),
            final(self).containers@.len() >= 1,
            old(self).containers@.len() <= final(self).containers@.len() <= old(self).containers@.len() + 1,
            final(self).should_quit == old(self).should_quit,
            final(self).selected == old(self).selected,
            final(self).view_state == old(self).view_state,
            final(self).current_logs == old(self).current_logs,
            final(self).log_scroll_offset == old(self).log_scroll_offset,
            final(self).is_at_bottom == old(self).is_at_bottom,
            final(self).active_log_target == old(self).active_log_target,
    {
        let ghost orig = self.containers@;
        let idx = self.find_index(container.host_id.as_str(), container.id.as_str());
        match idx {
            Option::Some(i) => {
                proof {
                    lemma_spec_find(orig, spec_key(container));
                }
                self.containers.remove(i);
                self.sorted_container_keys.remove(i);
                proof {
                    lemma_remove_keeps_sorted(orig, i as int);
                }
            },
            Option::None => {},
        }
        proof {
            assert(self.containers@ == spec_remove_key(orig, spec_key(container)));
            lemma_remove_key_absent(orig, spec_key(container));
        }
        let p = self.find_insert_pos(container.host_id.as_str(), container.name.as_str());
        let key = ContainerKey::new(container.host_id.clone(), container.id.clone());
        proof {
            lemma_insert_keeps_sorted(self.containers@, container, p as int);
            self.containers@.insert_ensures(p as int, container);
            self.sorted_container_keys@.insert_ensures(p as int, key);
        }
        let ghost cleaned = self.containers@;
        let ghost cleaned_keys = self.sorted_container_keys@;
        self.containers.insert(p, container);
        self.sorted_container_keys.insert(p, key);
        proof {
            assert forall|i: int| 0 <= i < self.containers@.len() implies (
            #[trigger] self.sorted_container_keys@[i])@ == spec_key(self.containers@[i]) by {
                if i < p {
                    assert(self.containers@[i] == cleaned[i]);
                    assert(self.sorted_container_keys@[i] == cleaned_keys[i]);
                } else if i > p {
                    assert(self.containers@[i] == cleaned[i - 1]);
                    assert(self.sorted_container_keys@[i] == cleaned_keys[i - 1]);
                }
            }
        }
    }

    /// A container appeared: fold it into the table. If it is the only
    /// row, it becomes the selection. Always asks for a redraw.
    pub fn handle_container_created(&mut self, container: Container) -> (r: bool)
        requires
            old(self).wf(),
        ensures
            final(self).wf(),
            log_unchanged(*old(self), *final(self)),
            final(self).should_quit == old(self).should_quit,
            final(self).containers@ == spec_sorted_insert(old(self).containers@, container),
            final(self).selected == (if final(self).containers@.len() == 1 {
                Option::Some(0usize)
            } else {
                old(self).selected
            }),
            r == true,
    {
        self.insert_container(container);
        if self.containers.len() == 1 {
            self.selected = Option::Some(0);
        }
        true
    }

    /// A host monitor's opening snapshot: fold every container in, then
    /// select the first row. The host identifier rides along for
    /// diagnostics; each container already carries its host. Always asks
    /// for a redraw.
    pub fn handle_initial_container_list(&mut self, host_id: HostId, container_list: Vec<
        Container,
    >) -> (r: bool)
        requires
            old(self).wf(),
        ensures
            final(self).wf(),
            log_unchanged(*old(self), *final(self)),
            final(self).should_quit == old(self).should_quit,
            final(self).containers@ == spec_insert_all(old(self).containers@, container_list@),
            final(self).selected == (if final(self).containers@.len() > 0 {
                Option::Some(0usize)
            } else {
                Option::<usize>::None
            }),
            r == true,
    {
        let _ = host_id;
        let ghost orig = self.containers@;
        let ghost all = container_list@;
        let mut list = container_list;
        proof {
            assert(all.skip(0) =~= all);
        }
        let mut done: usize = 0;
        while list.len() > 0
            invariant
                spec_sorted(self.containers@),
                self.keys_match(),
                spec_insert_all(self.containers@, list@) == spec_insert_all(orig, all),
                self.should_quit == old(self).should_quit,
                self.selected == old(self).selected,
                self.view_state == old(self).view_state,
                self.current_logs == old(self).current_logs,
                self.log_scroll_offset == old(self).log_scroll_offset,
                self.is_at_bottom == old(self).is_at_bottom,
                self.active_log_target == old(self).active_log_target,
                old(self).wf(),
            decreases list@.len(),
        {
            let ghost before = list@;
            let c = list.remove(0);
            proof {
                assert(list@ =~= before.drop_first());
            }
            self.insert_container(c);
        }
        proof {
            lemma_insert_all_len(orig, all);
        }
        if self.containers.len() > 0 {
            self.selected = Option::Some(0);
        }
        true
    }

    /// Open the log view for the selected container: the buffer resets,
    /// scrolling restarts at the bottom in follow mode, and the caller is
    /// told to restart the log stream at this container. A no-op outside
    /// the list view or without a selection.
    pub fn handle_enter_pressed(&mut self) -> (r: (bool, LogCommand))
        requires
            old(self).wf(),
        ensures
            final(self).wf(),
            registry_unchanged(*old(self), *final(self)),
            final(self).should_quit == old(self).should_quit,
            final(self).selected == old(self).selected,
            r.0 == (old(self).view_state == ViewState::ContainerList && old(self).selected
                is Some),
            if r.0 {
                match old(self).selected {
                    Option::Some(sel) => {
                        let k = old(self).sorted_container_keys@[sel as int];
                        &&& final(self).view_state == ViewState::LogView(k)
                        &&& match final(self).current_logs {
                            Option::Some(pair) => pair.0 == k && pair.1@.len() == 0,
                            Option::None => false,
                        }
                        &&& final(self).log_scroll_offset == 0
                        &&& final(self).is_at_bottom == true
                        &&& final(self).active_log_target == Option::Some(k)
                        &&& r.1 == LogCommand::Start(k)
                    },
                    Option::None => false,
                }
            } else {
                &&& final(self).view_state == old(self).view_state
                &&& final(self).current_logs == old(self).current_logs
                &&& final(self).log_scroll_offset == old(self).log_scroll_offset
                &&& final(self).is_at_bottom == old(self).is_at_bottom
                &&& final(self).active_log_target == old(self).active_log_target
                &&& r.1 == LogCommand::Unchanged
            },
    {
        match &self.view_state {
            ViewState::LogView(_) => {
                return (false, LogCommand::Unchanged);
            },
            ViewState::ContainerList => {},
        }
        let sel = match self.selected {
            Option::Some(v) => v,
            Option::None => {
                return (false, LogCommand::Unchanged);
            },
        };
        let key = self.sorted_container_keys[sel].duplicate();
        self.view_state = ViewState::LogView(key.duplicate());
        self.current_logs = Option::Some((key.duplicate(), Vec::new()));
        self.log_scroll_offset = 0;
        self.is_at_bottom = true;
        self.active_log_target = Option::Some(key.duplicate());
        (true, LogCommand::Start(key))
    }

    /// Apply one event to the state, atomically. Returns whether the
    /// change needs an immediate redraw (rather than the next throttled
    /// frame), and what must happen to the single log-stream task.
    pub fn handle_event(&mut self, event: AppEvent) -> (r: (bool, LogCommand))
        requires
            old(self).wf(),
        ensures
            final(self).wf(),
            match event {
                AppEvent::InitialContainerList(_host, list) => {
                    &&& log_unchanged(*old(self), *final(self))
                    &&& final(self).should_quit == old(self).should_quit
                    &&& final(self).containers@ == spec_insert_all(old(self).containers@, list@)
                    &&& final(self).selected == (if final(self).containers@.len() > 0 {
                        Option::Some(0usize)
                    } else {
                        Option::<usize>::None
                    })
                    &&& r == (true, LogCommand::Unchanged)
                },
                AppEvent::ContainerCreated(c) => {
                    &&& log_unchanged(*old(self), *final(self))
                    &&& final(self).should_quit == old(self).should_quit
                    &&& final(self).containers@ == spec_sorted_insert(old(self).containers@, c)
                    &&& final(self).selected == (if final(self).containers@.len() == 1 {
                        Option::Some(0usize)
                    } else {
                        old(self).selected
                    })
                    &&& r == (true, LogCommand::Unchanged)
                },
                AppEvent::ContainerDestroyed(key) => {
                    &&& log_unchanged(*old(self), *final(self))
                    &&& final(self).should_quit == old(self).should_quit
                    &&& match spec_find(old(self).containers@, key@) {
                        Option::Some(i) => final(self).containers@ == old(self).containers@.remove(i) && final(self).sorted_container_keys@ == old(self).sorted_container_keys@.remove(i),
                        Option::None => registry_unchanged(*old(self), *final(self)),
                    }
                    &&& final(self).selected == spec_clamped_selection(
                        old(self).selected,
                        final(self).containers@.len() as int,
                    )
                    &&& r == (true, LogCommand::Unchanged)
                },
                AppEvent::ContainerStat(key, stats) => {
                    &&& log_unchanged(*old(self), *final(self))
                    &&& final(self).should_quit == old(self).should_quit
                    &&& final(self).selected == old(self).selected
                    &&& final(self).sorted_container_keys@ == old(self).sorted_container_keys@
                    &&& match spec_find(old(self).containers@, key@) {
                        Option::Some(i) => final(self).containers@ == old(self).containers@.update(
                            i,
                            (Container { stats: stats, ..old(self).containers@[i] }),
                        ),
                        Option::None => final(self).containers@ == old(self).containers@,
                    }
                    &&& r == (false, LogCommand::Unchanged)
                },
                AppEvent::Quit => {
                    &&& registry_unchanged(*old(self), *final(self))
                    &&& log_unchanged(*old(self), *final(self))
                    &&& final(self).selected == old(self).selected
                    &&& final(self).should_quit == true
                    &&& r == (false, LogCommand::Unchanged)
                },
                AppEvent::Resize => {
                    &&& registry_unchanged(*old(self), *final(self))
                    &&& log_unchanged(*old(self), *final(self))
                    &&& final(self).selected == old(self).selected
                    &&& final(self).should_quit == old(self).should_quit
                    &&& r == (true, LogCommand::Unchanged)
                },
                AppEvent::SelectPrevious => {
                    &&& registry_unchanged(*old(self), *final(self))
                    &&& log_unchanged(*old(self), *final(self))
                    &&& final(self).should_quit == old(self).should_quit
                    &&& r.0 == (old(self).view_state == ViewState::ContainerList)
                    &&& final(self).selected == (if r.0 {
                        match old(self).selected {
                            Option::Some(sel) => if sel > 0 {
                                Option::Some((sel - 1) as usize)
                            } else {
                                Option::Some(sel)
                            },
                            Option::None => Option::<usize>::None,
                        }
                    } else {
                        old(self).selected
                    })
                    &&& r.1 == LogCommand::Unchanged
                },
                AppEvent::SelectNext => {
                    &&& registry_unchanged(*old(self), *final(self))
                    &&& log_unchanged(*old(self), *final(self))
                    &&& final(self).should_quit == old(self).should_quit
                    &&& r.0 == (old(self).view_state == ViewState::ContainerList)
                    &&& final(self).selected == (if r.0 {
                        match old(self).selected {
                            Option::Some(sel) => if sel + 1 < old(self).containers@.len() {
                                Option::Some((sel + 1) as usize)
                            } else {
                                Option::Some(sel)
                            },
                            Option::None => Option::<usize>::None,
                        }
                    } else {
                        old(self).selected
                    })
                    &&& r.1 == LogCommand::Unchanged
                },
                AppEvent::EnterPressed => {
                    &&& registry_unchanged(*old(self), *final(self))
                    &&& final(self).should_quit == old(self).should_quit
                    &&& final(self).selected == old(self).selected
                    &&& r.0 == (old(self).view_state == ViewState::ContainerList && old(self).selected is Some)
                    &&& if r.0 {
                        match old(self).selected {
                            Option::Some(sel) => {
                                let k = old(self).sorted_container_keys@[sel as int];
                                &&& final(self).view_state == ViewState::LogView(k)
                                &&& match final(self).current_logs {
                                    Option::Some(pair) => pair.0 == k && pair.1@.len() == 0,
                                    Option::None => false,
                                }
                                &&& final(self).log_scroll_offset == 0
                                &&& final(self).is_at_bottom == true
                                &&& final(self).active_log_target == Option::Some(k)
                                &&& r.1 == LogCommand::Start(k)
                            },
                            Option::None => false,
                        }
                    } else {
                        &&& log_unchanged(*old(self), *final(self))
                        &&& r.1 == LogCommand::Unchanged
                    }
                },
                AppEvent::ExitLogView => {
                    &&& registry_unchanged(*old(self), *final(self))
                    &&& final(self).should_quit == old(self).should_quit
                    &&& final(self).selected == old(self).selected
                    &&& final(self).log_scroll_offset == old(self).log_scroll_offset
                    &&& final(self).is_at_bottom == old(self).is_at_bottom
                    &&& r.0 == (old(self).view_state matches ViewState::LogView(_))
                    &&& if r.0 {
                        &&& final(self).view_state == ViewState::ContainerList
                        &&& final(self).current_logs is None
                        &&& final(self).active_log_target is None
                        &&& r.1 == LogCommand::Stop
                    } else {
                        &&& final(self).view_state == old(self).view_state
                        &&& final(self).current_logs == old(self).current_logs
                        &&& final(self).active_log_target == old(self).active_log_target
                        &&& r.1 == LogCommand::Unchanged
                    }
                },
                AppEvent::ScrollUp => {
                    &&& registry_unchanged(*old(self), *final(self))
                    &&& final(self).should_quit == old(self).should_quit
                    &&& final(self).selected == old(self).selected
                    &&& final(self).view_state == old(self).view_state
                    &&& final(self).current_logs == old(self).current_logs
                    &&& final(self).active_log_target == old(self).active_log_target
                    &&& r.0 == (old(self).view_state matches ViewState::LogView(_) && old(self).log_scroll_offset > 0)
                    &&& r.1 == LogCommand::Unchanged
                    &&& if r.0 {
                        final(self).log_scroll_offset == old(self).log_scroll_offset - 1 && final(self).is_at_bottom == false
                    } else {
                        final(self).log_scroll_offset == old(self).log_scroll_offset && final(self).is_at_bottom == old(self).is_at_bottom
                    }
                },
                AppEvent::ScrollDown => {
                    &&& registry_unchanged(*old(self), *final(self))
                    &&& final(self).should_quit == old(self).should_quit
                    &&& final(self).selected == old(self).selected
                    &&& final(self).view_state == old(self).view_state
                    &&& final(self).current_logs == old(self).current_logs
                    &&& final(self).active_log_target == old(self).active_log_target
                    &&& final(self).is_at_bottom == old(self).is_at_bottom
                    &&& r.0 == (old(self).view_state matches ViewState::LogView(_) && old(self).current_logs is Some)
                    &&& r.1 == LogCommand::Unchanged
                    &&& if r.0 {
                        final(self).log_scroll_offset == (if old(self).log_scroll_offset
                            < usize::MAX {
                            old(self).log_scroll_offset + 1
                        } else {
                            old(self).log_scroll_offset as int
                        })
                    } else {
                        final(self).log_scroll_offset == old(self).log_scroll_offset
                    }
                },
                AppEvent::LogLine(key, entry) => {
                    &&& registry_unchanged(*old(self), *final(self))
                    &&& final(self).should_quit == old(self).should_quit
                    &&& final(self).selected == old(self).selected
                    &&& final(self).view_state == old(self).view_state
                    &&& final(self).log_scroll_offset == old(self).log_scroll_offset
                    &&& final(self).is_at_bottom == old(self).is_at_bottom
                    &&& final(self).active_log_target == old(self).active_log_target
                    &&& r.0 == (match old(self).current_logs {
                        Option::Some(pair) => pair.0@ == key@,
                        Option::None => false,
                    })
                    &&& r.1 == LogCommand::Unchanged
                    &&& match old(self).current_logs {
                        Option::Some(pair) => if pair.0@ == key@ {
                            match final(self).current_logs {
                                Option::Some(now) => now.0 == pair.0 && now.1@ == pair.1@.push(
                                    entry,
                                ),
                                Option::None => false,
                            }
                        } else {
                            final(self).current_logs == old(self).current_logs
                        },
                        Option::None => final(self).current_logs == old(self).current_logs,
                    }
                },
            },
    {
        match event {
            AppEvent::InitialContainerList(host_id, container_list) => {
                let redraw = self.handle_initial_container_list(host_id, container_list);
                (redraw, LogCommand::Unchanged)
            },
            AppEvent::ContainerCreated(container) => {
                let redraw = self.handle_container_created(container);
                (redraw, LogCommand::Unchanged)
            },
            AppEvent::ContainerDestroyed(key) => {
                let redraw = self.handle_container_destroyed(key);
                (redraw, LogCommand::Unchanged)
            },
            AppEvent::ContainerStat(key, stats) => {
                let redraw = self.handle_container_stat(key, stats);
                (redraw, LogCommand::Unchanged)
            },
            AppEvent::Quit => {
                self.should_quit = true;
                (false, LogCommand::Unchanged)
            },
            AppEvent::Resize => (true, LogCommand::Unchanged),
            AppEvent::SelectPrevious => {
                let redraw = self.handle_select_previous();
                (redraw, LogCommand::Unchanged)
            },
            AppEvent::SelectNext => {
                let redraw = self.handle_select_next();
                (redraw, LogCommand::Unchanged)
            },
            AppEvent::EnterPressed => self.handle_enter_pressed(),
            AppEvent::ExitLogView => self.handle_exit_log_view(),
            AppEvent::ScrollUp => {
                let redraw = self.handle_scroll_up();
                (redraw, LogCommand::Unchanged)
            },
            AppEvent::ScrollDown => {
                let redraw = self.handle_scroll_down();
                (redraw, LogCommand::Unchanged)
            },
            AppEvent::LogLine(key, entry) => {
                let redraw = self.handle_log_line(key, entry);
                (redraw, LogCommand::Unchanged)
            },
        }
    }
}

/// The registry and its key column are untouched.
pub open spec fn registry_unchanged(a: AppState, b: AppState) -> bool {
    b.containers@ == a.containers@ && b.sorted_container_keys@ == a.sorted_container_keys@
}

/// The view, the log buffer, the scroll state and the log-task target are
/// untouched.
pub open spec fn log_unchanged(a: AppState, b: AppState) -> bool {
    &&& b.view_state == a.view_state
    &&& b.current_logs == a.current_logs
    &&& b.log_scroll_offset == a.log_scroll_offset
    &&& b.is_at_bottom == a.is_at_bottom
    &&& b.active_log_target == a.active_log_target
}

/// How removal adjusts the selection: cleared when the table emptied,
/// pulled back to the last row when it fell past the end, kept otherwise.
pub open spec fn spec_clamped_selection(sel: Option<usize>, new_len: int) -> Option<usize> {
    if new_len == 0 {
        Option::None
    } else {
        match sel {
            Option::Some(s) => if s >= new_len {
                Option::Some((new_len - 1) as usize)
            } else {
                Option::Some(s)
            },
            Option::None => Option::None,
        }
    }
}

/// The insert position lies within the table.
proof fn lemma_insert_pos_range(s: Seq<Container>, x: SortKey)
    ensures
        0 <= spec_insert_pos(s, x) <= s.len(),
    decreases s.len(),
{
    if s.len() > 0 && key_le(spec_sort_key(s[0]), x) {
        lemma_insert_pos_range(s.drop_first(), x);
    }
}

/// Folding a container in never shrinks the table, and leaves it
/// non-empty.
proof fn lemma_sorted_insert_len(s: Seq<Container>, c: Container)
    ensures
        spec_sorted_insert(s, c).len() >= s.len(),
        spec_sorted_insert(s, c).len() >= 1,
{
    lemma_spec_find(s, spec_key(c));
    let cleaned = spec_remove_key(s, spec_key(c));
    lemma_insert_pos_range(cleaned, spec_sort_key(c));
    cleaned.insert_ensures(spec_insert_pos(cleaned, spec_sort_key(c)), c);
}

/// Folding a snapshot in never shrinks the table.
proof fn lemma_insert_all_len(s: Seq<Container>, cs: Seq<Container>)
    ensures
        spec_insert_all(s, cs).len() >= s.len(),
    decreases cs.len(),
{
    if cs.len() > 0 {
        lemma_sorted_insert_len(s, cs[0]);
        lemma_insert_all_len(spec_sorted_insert(s, cs[0]), cs.drop_first());
    }
}

/// The rows before the insert position sort at or before the new key; the
/// row at it, if any, sorts strictly after.
proof fn lemma_insert_pos_props(s: Seq<Container>, x: SortKey)
    ensures
        0 <= spec_insert_pos(s, x) <= s.len(),
        forall|i: int|
            0 <= i < spec_insert_pos(s, x) ==> key_le(spec_sort_key(#[trigger] s[i]), x),
        spec_insert_pos(s, x) < s.len() ==> !key_le(spec_sort_key(s[spec_insert_pos(s, x)]), x),
    decreases s.len(),
{
    if s.len() > 0 && key_le(spec_sort_key(s[0]), x) {
        let t = s.drop_first();
        lemma_insert_pos_props(t, x);
        let p = spec_insert_pos(s, x);
        assert forall|i: int| 0 <= i < p implies key_le(spec_sort_key(#[trigger] s[i]), x) by {
            if i >= 1 {
                assert(s[i] == t[i - 1]);
            }
        }
        if p < s.len() {
            assert(s[p] == t[p - 1]);
        }
    }
}

/// Insert consistency: placing one new row at the position the incremental
/// search finds yields exactly the order that collecting all rows and
/// sorting from scratch yields.
pub proof fn lemma_insert_consistency(s: Seq<Container>, c: Container)
    requires
        spec_sorted(s),
    ensures
        ({
            let leq = key_le_fn();
            let keys = s.map_values(|x: Container| spec_sort_key(x));
            s.insert(spec_insert_pos(s, spec_sort_key(c)), c).map_values(
                |x: Container| spec_sort_key(x),
            ) == keys.push(spec_sort_key(c)).sort_by(leq)
        }),
{
    broadcast use vstd::seq_lib::lemma_multiset_commutative;
    broadcast use vstd::multiset::group_multiset_axioms;

    let leq = key_le_fn();
    let k = spec_sort_key(c);
    let keys = s.map_values(|x: Container| spec_sort_key(x));
    let p = spec_insert_pos(s, k);
    lemma_insert_pos_props(s, k);
    let t = s.insert(p, c);
    s.insert_ensures(p, c);
    let u = t.map_values(|x: Container| spec_sort_key(x));
    keys.insert_ensures(p, k);
    assert(u =~= keys.insert(p, k));

    // everything at or past the position sorts at or after the new key
    assert forall|i: int| p <= i < s.len() implies key_le(
        k,
        spec_sort_key(#[trigger] s[i]),
    ) by {
        let pk = spec_sort_key(s[p]);
        lemma_lex_lt_connected(pk.0, k.0);
        lemma_lex_lt_connected(pk.1, k.1);
        assert(key_le(k, pk));
        if i > p {
            lemma_key_le_transitive(k, pk, spec_sort_key(s[i]));
        }
    }

    // the inserted key column is sorted
    assert forall|a: int, b: int| 0 <= a < b < u.len() implies #[trigger] leq(u[a], u[b]) by {
        let ka = if a < p {
            keys[a]
        } else if a == p {
            k
        } else {
            keys[a - 1]
        };
        let kb = if b < p {
            keys[b]
        } else if b == p {
            k
        } else {
            keys[b - 1]
        };
        assert(u[a] == ka && u[b] == kb);
        if a < p && b < p {
            assert(key_le(ka, kb));
        } else if b == p {
            assert(key_le(ka, k));
        } else if a == p {
            assert(key_le(k, kb));
        } else if a < p && b > p {
            assert(key_le(ka, kb));
        } else {
            assert(key_le(ka, kb));
        }
    }
    assert(vstd::relations::sorted_by(u, leq));

    // the inserted column and the pushed column hold the same keys
    assert(keys.insert(p, k) =~= (keys.subrange(0, p) + seq![k]) + keys.subrange(
        p,
        keys.len() as int,
    ));
    assert(keys.push(k) =~= (keys.subrange(0, p) + keys.subrange(p, keys.len() as int))
        + seq![k]);
    assert(keys.insert(p, k).to_multiset() =~= keys.push(k).to_multiset());

    // sorting from scratch gives a sorted column with the same keys, and
    // sorted columns over the same keys are equal
    lemma_key_le_total_ordering();
    keys.push(k).lemma_sort_by_ensures(leq);
    vstd::seq_lib::lemma_sorted_unique(u, keys.push(k).sort_by(leq), leq);
}

/// The reducer's whole fold of one container equals a sort from scratch:
/// take out any stale row with the same registry key, append the new
/// container, and sort — the incremental position search lands it in
/// exactly that order.
pub proof fn lemma_sorted_insert_consistency(s: Seq<Container>, c: Container)
    requires
        spec_sorted(s),
    ensures
        ({
            let cleaned = spec_remove_key(s, spec_key(c));
            spec_sorted_insert(s, c).map_values(|x: Container| spec_sort_key(x))
                == cleaned.map_values(|x: Container| spec_sort_key(x)).push(
                spec_sort_key(c),
            ).sort_by(key_le_fn())
        }),
{
    lemma_spec_find(s, spec_key(c));
    let cleaned = spec_remove_key(s, spec_key(c));
    match spec_find(s, spec_key(c)) {
        Option::Some(i) => {
            lemma_remove_keeps_sorted(s, i);
        },
        Option::None => {},
    }
    lemma_insert_consistency(cleaned, c);
}

/// After removing key `k`, no row holds `k` (keys were unique).
proof fn lemma_remove_key_absent(s: Seq<Container>, k: (Seq<char>, Seq<char>))
    requires
        spec_sorted(s),
    ensures
        forall|i: int|
            0 <= i < spec_remove_key(s, k).len() ==> spec_key(
                #[trigger] spec_remove_key(s, k)[i],
            ) != k,
{
    lemma_spec_find(s, k);
    match spec_find(s, k) {
        Option::Some(f) => {
            let t = s.remove(f);
            assert forall|i: int| 0 <= i < t.len() implies spec_key(#[trigger] t[i]) != k by {
                let i0 = if i < f {
                    i
                } else {
                    i + 1
                };
                assert(t[i] == s[i0]);
                if i0 != f {
                    assert(spec_key(s[i0]) != spec_key(s[f]));
                }
            }
        },
        Option::None => {},
    }
}

/// Inserting a fresh key at its sort position keeps the table sorted and
/// key-unique.
proof fn lemma_insert_keeps_sorted(s: Seq<Container>, c: Container, p: int)
    requires
        spec_sorted(s),
        0 <= p <= s.len(),
        forall|i: int| 0 <= i < p ==> key_le(spec_sort_key(#[trigger] s[i]), spec_sort_key(c)),
        forall|i: int|
            p <= i < s.len() ==> key_le(spec_sort_key(c), spec_sort_key(#[trigger] s[i])),
        forall|i: int| 0 <= i < s.len() ==> spec_key(#[trigger] s[i]) != spec_key(c),
    ensures
        spec_sorted(s.insert(p, c)),
{
    let t = s.insert(p, c);
    s.insert_ensures(p, c);
    assert forall|a: int, b: int| 0 <= a < b < t.len() implies key_le(
        spec_sort_key(#[trigger] t[a]),
        spec_sort_key(#[trigger] t[b]),
    ) && spec_key(t[a]) != spec_key(t[b]) by {
        if a < p {
            assert(t[a] == s[a]);
        } else if a == p {
            assert(t[a] == c);
        } else {
            assert(t[a] == s[a - 1]);
        }
        if b < p {
            assert(t[b] == s[b]);
        } else if b == p {
            assert(t[b] == c);
        } else {
            assert(t[b] == s[b - 1]);
        }
    }
}

/// Removing one row of a sorted, key-unique table leaves it sorted and
/// key-unique.
proof fn lemma_remove_keeps_sorted(s: Seq<Container>, i: int)
    requires
        spec_sorted(s),
        0 <= i < s.len(),
    ensures
        spec_sorted(s.remove(i)),
{
    let t = s.remove(i);
    assert forall|a: int, b: int| 0 <= a < b < t.len() implies key_le(
        spec_sort_key(#[trigger] t[a]),
        spec_sort_key(#[trigger] t[b]),
    ) && spec_key(t[a]) != spec_key(t[b]) by {
        let a0 = if a < i {
            a
        } else {
            a + 1
        };
        let b0 = if b < i {
            b
        } else {
            b + 1
        };
        assert(t[a] == s[a0]);
        assert(t[b] == s[b0]);
        assert(key_le(spec_sort_key(s[a0]), spec_sort_key(s[b0])));
    }
}

} // verus!
