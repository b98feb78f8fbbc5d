//! Data model of the dashboard: containers, their stats, fleet-wide
//! container identity, the event vocabulary, and the view state.

use vstd::prelude::*;
use crate::logs::LogEntry;

verus! {

/// Identifier of one configured container-runtime host.
pub type HostId = String;

/// Smoothed runtime statistics of one container. CPU and memory are
/// percentages in milli-percent (thousandths of a percent), network rates
/// are bytes per second.
#[derive(Clone, Copy, Debug, PartialEq, Eq, Structural)]
pub struct ContainerStats {
    pub cpu: u32,
    pub memory: u32,
    pub network_tx_bytes_per_sec: u64,
    pub network_rx_bytes_per_sec: u64,
}

impl Default for ContainerStats {
    /// All-zero stats, the value a freshly discovered container carries.
    fn default() -> (r: Self)
        ensures
            r == (ContainerStats { cpu: 0, memory: 0, network_tx_bytes_per_sec: 0, network_rx_bytes_per_sec: 0 }),
    {
        ContainerStats { cpu: 0, memory: 0, network_tx_bytes_per_sec: 0, network_rx_bytes_per_sec: 0 }
    }
}

/// Static description of one container plus its latest stats. The identity
/// fields are fixed at creation; only `stats` is overwritten in place.
#[derive(Clone, Debug)]
pub struct Container {
    pub id: String,
    pub name: String,
    pub status: String,
    pub stats: ContainerStats,
    pub host_id: HostId,
}

impl Container {
    /// A copy provably equal to this value.
    pub fn duplicate(&self) -> (r: Self)
        ensures
            r == *self,
    {
        Container {
            id: self.id.clone(),
            name: self.name.clone(),
            status: self.status.clone(),
            stats: self.stats,
            host_id: self.host_id.clone(),
        }
    }
}

/// The registry key of a container: its host and its (truncated) identifier.
pub open spec fn spec_key(c: Container) -> (Seq<char>, Seq<char>) {
    (c.host_id@, c.id@)
}

/// The position of a container in the display order: host first, then name.
pub open spec fn spec_sort_key(c: Container) -> crate::order::SortKey {
    (c.host_id@, c.name@)
}

/// Unique identity of a container across the whole fleet.
#[derive(Clone, Debug, Hash, Eq, PartialEq)]
pub struct ContainerKey {
    pub host_id: HostId,
    pub container_id: String,
}

impl View for ContainerKey {
    type V = (Seq<char>, Seq<char>);

    open spec fn view(&self) -> (Seq<char>, Seq<char>) {
        (self.host_id@, self.container_id@)
    }
}

impl ContainerKey {
    pub fn new(host_id: HostId, container_id: String) -> (r: Self)
        ensures
            r@ == (host_id@, container_id@),
    {
        Self { host_id, container_id }
    }

    /// A copy provably equal to this value.
    pub fn duplicate(&self) -> (r: Self)
        ensures
            r == *self,
    {
        Self { host_id: self.host_id.clone(), container_id: self.container_id.clone() }
    }

    /// Whether two keys name the same container.
    pub fn same_key(&self, other: &ContainerKey) -> (r: bool)
        ensures
            r == (self@ == other@),
    {
        let eq = self.host_id.eq(&other.host_id) && self.container_id.eq(&other.container_id);
        proof {
            if self.host_id@ == other.host_id@ && self.container_id@ == other.container_id@ {
                assert(self@ == other@);
            } else {
                assert(self@ != other@);
            }
        }
        eq
    }
}

/// Everything the producers can tell the reducer. Events from one producer
/// arrive in emission order; producers never share any other state with the
/// reducer.
pub enum AppEvent {
    /// The containers found on one host when its monitor started.
    InitialContainerList(HostId, Vec<Container>),
    /// A container appeared (lifecycle `start`).
    ContainerCreated(Container),
    /// A container went away (lifecycle `die`/`stop`, or its stats stream
    /// ended).
    ContainerDestroyed(ContainerKey),
    /// A fresh smoothed stats sample for one container.
    ContainerStat(ContainerKey, ContainerStats),
    /// The operator asked to quit.
    Quit,
    /// The terminal was resized.
    Resize,
    /// Move the selection up one row.
    SelectPrevious,
    /// Move the selection down one row.
    SelectNext,
    /// Open the log view for the selected container.
    EnterPressed,
    /// Leave the log view.
    ExitLogView,
    /// Scroll up in the log view.
    ScrollUp,
    /// Scroll down in the log view.
    ScrollDown,
    /// One parsed line from the active log stream.
    LogLine(ContainerKey, LogEntry),
}

/// Which screen is showing. Exactly one is active at a time.
#[derive(Clone, Debug, PartialEq)]
pub enum ViewState {
    /// The container table.
    ContainerList,
    /// The live log stream of one container.
    LogView(ContainerKey),
}

/// What the caller of the reducer must do to the single log-stream task
/// after an event was applied.
#[derive(Clone, Debug)]
pub enum LogCommand {
    /// Leave the task (if any) running.
    Unchanged,
    /// Cancel the task.
    Stop,
    /// Cancel the previous task (if any) and stream this container's logs.
    Start(ContainerKey),
}

} // verus!
