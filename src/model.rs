use vstd::prelude::*;

verus! {

/// A resolution and refresh rate that a monitor supports.
/// The refresh rate is kept in thousandths of a hertz.
#[derive(Clone, Debug)]
pub struct Mode {
    pub id: String,
    pub width: i32,
    pub height: i32,
    pub refresh_millihz: u32,
    pub is_current: bool,
    pub is_preferred: bool,
}

pub ghost struct ModeView {
    pub id: Seq<char>,
    pub width: i32,
    pub height: i32,
    pub refresh_millihz: u32,
    pub is_current: bool,
    pub is_preferred: bool,
}

impl View for Mode {
    type V = ModeView;

    open spec fn view(&self) -> ModeView {
        ModeView {
            id: self.id@,
            width: self.width,
            height: self.height,
            refresh_millihz: self.refresh_millihz,
            is_current: self.is_current,
            is_preferred: self.is_preferred,
        }
    }
}

/// A physical monitor, identified by the connector it is plugged into.
#[derive(Clone, Debug)]
pub struct Monitor {
    pub connector: String,
    pub vendor: String,
    pub product: String,
    pub serial: String,
    pub modes: Vec<Mode>,
}

pub ghost struct MonitorView {
    pub connector: Seq<char>,
    pub vendor: Seq<char>,
    pub product: Seq<char>,
    pub serial: Seq<char>,
    pub modes: Seq<ModeView>,
}

impl Monitor {
    /// The position of the mode marked current, if any: none for a monitor
    /// that is disconnected or disabled.
    pub fn current_mode(&self) -> (r: Option<usize>)
        ensures
            r is Some ==> r->0 < self@.modes.len() && self@.modes[r->0 as int].is_current,
            r is None ==> forall|i: int| 0 <= i < self@.modes.len() ==> !(#[trigger] self@.modes[i]).is_current,
    {
        let mut i: usize = 0;
        while i < self.modes.len()
            invariant
                0 <= i <= self.modes@.len(),
                forall|k: int| 0 <= k < i ==> !(#[trigger] self@.modes[k]).is_current,
            decreases self.modes.len() - i,
        {
            if self.modes[i].is_current {
                return Some(i);
            }
            i = i + 1;
        }
        None
    }
}

impl View for Monitor {
    type V = MonitorView;

    open spec fn view(&self) -> MonitorView {
        MonitorView {
            connector: self.connector@,
            vendor: self.vendor@,
            product: self.product@,
            serial: self.serial@,
            modes: self.modes@.map_values(|m: Mode| m@),
        }
    }
}

/// A region of the desktop, driven by one or more monitors.
/// The scale is kept in thousandths.
#[derive(Clone, Debug)]
pub struct LogicalMonitor {
    pub x: i32,
    pub y: i32,
    pub scale_milli: u32,
    pub transform: u32,
    pub primary: bool,
    pub connectors: Vec<String>,
}

pub ghost struct LogicalMonitorView {
    pub x: i32,
    pub y: i32,
    pub scale_milli: u32,
    pub transform: u32,
    pub primary: bool,
    pub connectors: Seq<Seq<char>>,
}

impl View for LogicalMonitor {
    type V = LogicalMonitorView;

    open spec fn view(&self) -> LogicalMonitorView {
        LogicalMonitorView {
            x: self.x,
            y: self.y,
            scale_milli: self.scale_milli,
            transform: self.transform,
            primary: self.primary,
            connectors: self.connectors@.map_values(|c: String| c@),
        }
    }
}

/// A snapshot of the compositor's display state.
#[derive(Clone, Debug)]
pub struct DisplayConfig {
    pub serial: u32,
    pub monitors: Vec<Monitor>,
    pub logical_monitors: Vec<LogicalMonitor>,
}

pub ghost struct DisplayConfigView {
    pub serial: u32,
    pub monitors: Seq<MonitorView>,
    pub logical_monitors: Seq<LogicalMonitorView>,
}

impl View for DisplayConfig {
    type V = DisplayConfigView;

    open spec fn view(&self) -> DisplayConfigView {
        DisplayConfigView {
            serial: self.serial,
            monitors: self.monitors@.map_values(|m: Monitor| m@),
            logical_monitors: self.logical_monitors@.map_values(|l: LogicalMonitor| l@),
        }
    }
}

/// The connector names of a sequence of monitors, in order.
pub open spec fn connectors_of(ms: Seq<MonitorView>) -> Seq<Seq<char>> {
    ms.map_values(|m: MonitorView| m.connector)
}

/// No two monitors share a connector.
pub open spec fn connectors_unique(ms: Seq<MonitorView>) -> bool {
    forall|i: int, j: int|
        0 <= i < ms.len() && 0 <= j < ms.len() && i != j ==> #[trigger] ms[i].connector
            != #[trigger] ms[j].connector
}

/// At most one mode of each monitor is marked current.
pub open spec fn current_at_most_once(ms: Seq<MonitorView>) -> bool {
    forall|k: int, i: int, j: int|
        0 <= k < ms.len() && 0 <= i < ms[k].modes.len() && 0 <= j < ms[k].modes.len() && i != j
            && #[trigger] ms[k].modes[i].is_current ==> !#[trigger] ms[k].modes[j].is_current
}

/// At most one logical monitor is marked primary.
pub open spec fn primary_at_most_once(ls: Seq<LogicalMonitorView>) -> bool {
    forall|i: int, j: int|
        0 <= i < ls.len() && 0 <= j < ls.len() && i != j && #[trigger] ls[i].primary
            ==> !#[trigger] ls[j].primary
}

/// Every connector that a logical monitor names belongs to one of the monitors.
pub open spec fn references_resolve(c: DisplayConfigView) -> bool {
    forall|i: int, j: int|
        0 <= i < c.logical_monitors.len() && 0 <= j < c.logical_monitors[i].connectors.len()
            ==> connectors_of(c.monitors).contains(#[trigger] c.logical_monitors[i].connectors[j])
}

/// The consistency rules of a snapshot other than its references.
pub open spec fn consistent(c: DisplayConfigView) -> bool {
    &&& connectors_unique(c.monitors)
    &&& current_at_most_once(c.monitors)
    &&& primary_at_most_once(c.logical_monitors)
}

/// A well-formed snapshot.
pub open spec fn config_wf(c: DisplayConfigView) -> bool {
    consistent(c) && references_resolve(c)
}

/// A connector that a logical monitor names and that no monitor has.
pub open spec fn dangling(c: DisplayConfigView, name: Seq<char>) -> bool {
    &&& exists|i: int, j: int|
        0 <= i < c.logical_monitors.len() && 0 <= j < c.logical_monitors[i].connectors.len()
            && #[trigger] c.logical_monitors[i].connectors[j] == name
    &&& !connectors_of(c.monitors).contains(name)
}

/// `i` is the first position in `ms` whose connector is `name`.
pub open spec fn first_monitor_with(ms: Seq<MonitorView>, name: Seq<char>, i: int) -> bool {
    &&& 0 <= i < ms.len()
    &&& ms[i].connector == name
    &&& forall|k: int| 0 <= k < i ==> (#[trigger] ms[k]).connector != name
}

impl DisplayConfig {
    pub open spec fn wf(&self) -> bool {
        config_wf(self@)
    }

    /// The position of the first monitor plugged into `connector`.
    pub fn monitor_index(&self, connector: &String) -> (r: Option<usize>)
        ensures
            r is Some ==> first_monitor_with(self@.monitors, connector@, r->0 as int),
            r is None <==> !connectors_of(self@.monitors).contains(connector@),
    {
        let mut i: usize = 0;
        while i < self.monitors.len()
            invariant
                0 <= i <= self.monitors@.len(),
                forall|k: int| 0 <= k < i ==> (#[trigger] self@.monitors[k]).connector != connector@,
            decreases self.monitors.len() - i,
        {
            if self.monitors[i].connector == *connector {
                assert(connectors_of(self@.monitors)[i as int] == connector@);
                return Some(i);
            }
            i = i + 1;
        }
        proof {
            if connectors_of(self@.monitors).contains(connector@) {
                let k = choose|k: int| 0 <= k < connectors_of(self@.monitors).len() && connectors_of(self@.monitors)[k] == connector@;
                assert(self@.monitors[k].connector != connector@);
            }
        }
        None
    }
}

} // verus!
