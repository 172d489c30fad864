use vstd::prelude::*;
use crate::model::{
    config_wf, connectors_of, connectors_unique, consistent, current_at_most_once, dangling,
    primary_at_most_once, references_resolve, DisplayConfig, DisplayConfigView, LogicalMonitor,
    LogicalMonitorView, Mode, ModeView, MonitorView,
};
use crate::raw::{
    config_of, decode_reply, first_fault, indexed_path, indexed_text, lemma_first_fault_stays, path,
    reply_fault, reply_shaped, RawValue,
};

verus! {

/// Why a reply could not be turned into a snapshot.
#[derive(Clone, Debug)]
pub enum LoadError {
    /// The reply does not follow the schema; holds the path of the offending field.
    MalformedReply(String),
    /// A logical monitor names a connector that no monitor has; holds that connector.
    DanglingReference(String),
}

/// Why monitor `k` breaks the consistency rules, if it does: its connector
/// repeats an earlier monitor's, or more than one of its modes is current.
pub open spec fn monitor_conflict(ms: Seq<MonitorView>, k: int) -> Option<Seq<char>> {
    if exists|j: int| 0 <= j < k && (#[trigger] ms[j]).connector == ms[k].connector {
        Some(indexed_text("reply.monitors"@, k, ".connector"@))
    } else if !mode_current_once(ms[k].modes) {
        Some(indexed_text("reply.monitors"@, k, ".modes"@))
    } else {
        None
    }
}

/// Logical monitor `k` is a second primary one.
pub open spec fn primary_conflict(ls: Seq<LogicalMonitorView>, k: int) -> Option<Seq<char>> {
    if ls[k].primary && exists|j: int| 0 <= j < k && (#[trigger] ls[j]).primary {
        Some(indexed_text("reply.logical_monitors"@, k, ".primary"@))
    } else {
        None
    }
}

pub open spec fn monitor_conflicts(c: DisplayConfigView) -> Seq<Option<Seq<char>>> {
    Seq::new(c.monitors.len(), |k: int| monitor_conflict(c.monitors, k))
}

pub open spec fn primary_conflicts(c: DisplayConfigView) -> Seq<Option<Seq<char>>> {
    Seq::new(c.logical_monitors.len(), |k: int| primary_conflict(c.logical_monitors, k))
}

/// The path of the first field that breaks a consistency rule: monitors first,
/// in order, then logical monitors.
pub open spec fn consistency_fault(c: DisplayConfigView) -> Option<Seq<char>> {
    let mf = monitor_conflicts(c);
    let pf = primary_conflicts(c);
    match first_fault(mf, mf.len() as int) {
        Some((_, p)) => Some(p),
        None => match first_fault(pf, pf.len() as int) {
            Some((_, p)) => Some(p),
            None => None,
        },
    }
}

/// Checks that connectors are unique, that each monitor has at most one current
/// mode and that at most one logical monitor is primary. On failure names the
/// path of a field that breaks one of these rules.
pub fn check_consistent(c: &DisplayConfig) -> (r: Result<(), String>)
    ensures
        r is Ok <==> consistent(c@),
        r is Ok <==> consistency_fault(c@) is None,
        r is Err ==> consistency_fault(c@) == Some(r->Err_0@),
{
    let ghost mf = monitor_conflicts(c@);
    let ghost pf = primary_conflicts(c@);
    let n = c.monitors.len();
    let mut i: usize = 0;
    while i < n
        invariant
            n == c@.monitors.len(),
            0 <= i <= n,
            connectors_unique(c@.monitors.take(i as int)),
            forall|k: int| 0 <= k < i ==> #[trigger] mode_current_once(c@.monitors[k].modes),
            mf == monitor_conflicts(c@),
            first_fault(mf, i as int) is None,
        decreases n - i,
    {
        let mut j: usize = 0;
        while j < i
            invariant
                n == c@.monitors.len(),
                0 <= j <= i < n,
                forall|k: int| 0 <= k < j ==> (#[trigger] c@.monitors[k]).connector != c@.monitors[i as int].connector,
                mf == monitor_conflicts(c@),
                first_fault(mf, i as int) is None,
            decreases i - j,
        {
            if c.monitors[j].connector == c.monitors[i].connector {
                assert(c@.monitors[j as int].connector == c@.monitors[i as int].connector);
                assert(!connectors_unique(c@.monitors));
                assert(mf[i as int] is Some);
                proof {
                    lemma_first_fault_stays(mf, i + 1, mf.len() as int);
                }
                return Err(indexed_path("reply.monitors", i, &path(".connector")));
            }
            j = j + 1;
        }
        let modes = &c.monitors[i].modes;
        let mut seen = false;
        let mut m: usize = 0;
        while m < modes.len()
            invariant
                n == c@.monitors.len(),
                0 <= i < n,
                modes@.map_values(|x: Mode| x@) == c@.monitors[i as int].modes,
                0 <= m <= modes@.len(),
                mode_current_once(modes@.take(m as int).map_values(|x: Mode| x@)),
                seen <==> exists|k: int| 0 <= k < m && (#[trigger] modes@[k]).is_current,
                forall|k: int| 0 <= k < i ==> (#[trigger] c@.monitors[k]).connector != c@.monitors[i as int].connector,
                mf == monitor_conflicts(c@),
                first_fault(mf, i as int) is None,
            decreases modes.len() - m,
        {
            if modes[m].is_current {
                if seen {
                    let ghost k = choose|k: int| 0 <= k < m && (#[trigger] modes@[k]).is_current;
                    assert(c@.monitors[i as int].modes[k].is_current);
                    assert(c@.monitors[i as int].modes[m as int].is_current);
                    assert(!current_at_most_once(c@.monitors));
                    assert(!mode_current_once(c@.monitors[i as int].modes));
                    assert(mf[i as int] is Some);
                    proof {
                        lemma_first_fault_stays(mf, i + 1, mf.len() as int);
                    }
                    return Err(indexed_path("reply.monitors", i, &path(".modes")));
                }
                seen = true;
            }
            assert(modes@.take(m + 1).map_values(|x: Mode| x@)
                =~= modes@.take(m as int).map_values(|x: Mode| x@).push(modes@[m as int]@));
            m = m + 1;
        }
        assert(modes@.take(m as int) =~= modes@);
        assert(mf[i as int] is None);
        assert(first_fault(mf, i + 1) is None);
        assert(c@.monitors.take(i + 1) =~= c@.monitors.take(i as int).push(c@.monitors[i as int]));
        i = i + 1;
    }
    assert(c@.monitors.take(n as int) =~= c@.monitors);
    assert(current_at_most_once(c@.monitors)) by {
        assert forall|k: int, a: int, b: int|
            0 <= k < c@.monitors.len() && 0 <= a < c@.monitors[k].modes.len() && 0 <= b < c@.monitors[k].modes.len() && a != b
            && #[trigger] c@.monitors[k].modes[a].is_current implies !#[trigger] c@.monitors[k].modes[b].is_current by {
            assert(mode_current_once(c@.monitors[k].modes));
        }
    }
    let ls = &c.logical_monitors;
    let mut seen_primary = false;
    let mut p: usize = 0;
    while p < ls.len()
        invariant
            0 <= p <= ls@.len(),
            ls@.map_values(|l: LogicalMonitor| l@) == c@.logical_monitors,
            primary_at_most_once(c@.logical_monitors.take(p as int)),
            mf == monitor_conflicts(c@),
            first_fault(mf, mf.len() as int) is None,
            pf == primary_conflicts(c@),
            first_fault(pf, p as int) is None,
            seen_primary <==> exists|k: int| 0 <= k < p && (#[trigger] ls@[k]).primary,
        decreases ls.len() - p,
    {
        if ls[p].primary {
            if seen_primary {
                let ghost k = choose|k: int| 0 <= k < p && (#[trigger] ls@[k]).primary;
                assert(c@.logical_monitors[k].primary);
                assert(c@.logical_monitors[p as int].primary);
                assert(pf[p as int] is Some);
                proof {
                    lemma_first_fault_stays(pf, p + 1, pf.len() as int);
                }
                return Err(indexed_path("reply.logical_monitors", p, &path(".primary")));
            }
            seen_primary = true;
        }
        assert(pf[p as int] is None);
        assert(first_fault(pf, p + 1) is None);
        assert(c@.logical_monitors.take(p + 1) =~= c@.logical_monitors.take(p as int).push(c@.logical_monitors[p as int]));
        p = p + 1;
    }
    assert(c@.logical_monitors.take(p as int) =~= c@.logical_monitors);
    Ok(())
}

/// At most one of the modes is marked current.
pub open spec fn mode_current_once(ms: Seq<ModeView>) -> bool {
    forall|a: int, b: int|
        0 <= a < ms.len() && 0 <= b < ms.len() && a != b && #[trigger] ms[a].is_current
            ==> !#[trigger] ms[b].is_current
}

/// A connector named by a logical monitor that no monitor has, if there is one.
pub fn find_dangling(c: &DisplayConfig) -> (r: Option<String>)
    ensures
        r is None <==> references_resolve(c@),
        r is Some ==> dangling(c@, r->0@),
{
    let ls = &c.logical_monitors;
    let mut i: usize = 0;
    while i < ls.len()
        invariant
            0 <= i <= ls@.len(),
            ls@.map_values(|l: LogicalMonitor| l@) == c@.logical_monitors,
            forall|a: int, b: int|
                0 <= a < i && 0 <= b < c@.logical_monitors[a].connectors.len()
                    ==> connectors_of(c@.monitors).contains(#[trigger] c@.logical_monitors[a].connectors[b]),
        decreases ls.len() - i,
    {
        let names = &ls[i].connectors;
        let mut j: usize = 0;
        while j < names.len()
            invariant
                0 <= i < ls@.len(),
                ls@.map_values(|l: LogicalMonitor| l@) == c@.logical_monitors,
                names@.map_values(|s: String| s@) == c@.logical_monitors[i as int].connectors,
                0 <= j <= names@.len(),
                forall|a: int, b: int|
                    0 <= a < i && 0 <= b < c@.logical_monitors[a].connectors.len()
                        ==> connectors_of(c@.monitors).contains(#[trigger] c@.logical_monitors[a].connectors[b]),
                forall|b: int|
                    0 <= b < j ==> connectors_of(c@.monitors).contains(#[trigger] c@.logical_monitors[i as int].connectors[b]),
            decreases names.len() - j,
        {
            if c.monitor_index(&names[j]).is_none() {
                assert(c@.logical_monitors[i as int].connectors[j as int] == names@[j as int]@);
                return Some(names[j].clone());
            }
            j = j + 1;
        }
        i = i + 1;
    }
    None
}

impl DisplayConfig {
    /// Builds a snapshot from the compositor's reply. Fails with
    /// `MalformedReply` where the reply breaks the schema; otherwise with
    /// `DanglingReference` where a logical monitor names an unknown
    /// connector; otherwise with `MalformedReply` where the snapshot breaks a
    /// consistency rule.
    pub fn from_reply(raw: &RawValue) -> (r: Result<DisplayConfig, LoadError>)
        ensures
            r is Ok <==> reply_shaped(*raw) && config_wf(config_of(*raw)),
            r is Ok ==> r->Ok_0@ == config_of(*raw),
            r is Err && r->Err_0 is MalformedReply <==> !reply_shaped(*raw) || (references_resolve(
                config_of(*raw),
            ) && !consistent(config_of(*raw))),
            r is Err && r->Err_0 is DanglingReference <==> reply_shaped(*raw) && !references_resolve(
                config_of(*raw),
            ),
            r is Err && r->Err_0 is DanglingReference ==> dangling(
                config_of(*raw),
                r->Err_0->DanglingReference_0@,
            ),
            r is Err && r->Err_0 is MalformedReply ==> Some(r->Err_0->MalformedReply_0@) == (if reply_shaped(*raw) {
                consistency_fault(config_of(*raw))
            } else {
                reply_fault(*raw)
            }),
    {
        let c = match decode_reply(raw) {
            Ok(c) => c,
            Err(p) => return Err(LoadError::MalformedReply(p)),
        };
        match find_dangling(&c) {
            Some(name) => return Err(LoadError::DanglingReference(name)),
            None => {},
        }
        match check_consistent(&c) {
            Ok(()) => Ok(c),
            Err(p) => Err(LoadError::MalformedReply(p)),
        }
    }
}

impl LoadError {
    /// A one-line description of the error.
    pub fn message(&self) -> (r: String)
        ensures
            match self {
                LoadError::MalformedReply(p) => r@ == "malformed reply at "@ + p@,
                LoadError::DanglingReference(c) => r@ == "logical monitor refers to unknown connector "@ + c@,
            },
    {
        match self {
            LoadError::MalformedReply(p) => {
                let mut r = String::from_str("malformed reply at ");
                r.append(p.as_str());
                r
            },
            LoadError::DanglingReference(c) => {
                let mut r = String::from_str("logical monitor refers to unknown connector ");
                r.append(c.as_str());
                r
            },
        }
    }
}

} // verus!
