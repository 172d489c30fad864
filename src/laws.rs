use vstd::prelude::*;
use crate::model::{
    config_wf, connectors_of, connectors_unique, dangling, first_monitor_with, references_resolve,
    DisplayConfigView, LogicalMonitorView, ModeView, MonitorView,
};
use crate::query::{blocks, filter_unknown, monitor_block, passes, report, selected};
use crate::raw::{config_of, items_of, mode_of, reply_shaped, str_of, RawValue};

verus! {

/// The connector ids of a reply, in order, read from the reply itself.
pub open spec fn reply_connectors(v: RawValue) -> Seq<Seq<char>> {
    items_of(items_of(v)[1]).map_values(|m: RawValue| str_of(items_of(m)[0]))
}

/// The mode list of each monitor of a reply, read from the reply itself.
pub open spec fn reply_mode_lists(v: RawValue) -> Seq<Seq<ModeView>> {
    items_of(items_of(v)[1]).map_values(
        |m: RawValue| items_of(items_of(m)[4]).map_values(|d: RawValue| mode_of(d)),
    )
}

/// The connectors that each logical monitor of a reply groups, read from the reply itself.
pub open spec fn reply_groupings(v: RawValue) -> Seq<Seq<Seq<char>>> {
    items_of(items_of(v)[2]).map_values(
        |l: RawValue| items_of(items_of(l)[5]).map_values(|c: RawValue| str_of(c)),
    )
}

proof fn lemma_reply_fields(v: RawValue)
    requires
        reply_shaped(v),
    ensures
        reply_connectors(v) == connectors_of(config_of(v).monitors),
        reply_mode_lists(v) == config_of(v).monitors.map_values(|m: MonitorView| m.modes),
        reply_groupings(v) == config_of(v).logical_monitors.map_values(
            |l: LogicalMonitorView| l.connectors,
        ),
{
    assert(reply_connectors(v) =~= connectors_of(config_of(v).monitors));
    assert(reply_mode_lists(v) =~= config_of(v).monitors.map_values(|m: MonitorView| m.modes));
    assert(reply_groupings(v) =~= config_of(v).logical_monitors.map_values(
        |l: LogicalMonitorView| l.connectors,
    ));
}

/// Structural round trip: when a well-formed reply `raw` loads into the
/// snapshot `loaded`, and `back` is that snapshot written back as a reply,
/// then `back` has the same connector ids, the same mode lists and the same
/// logical-monitor groupings as `raw`.
pub proof fn lemma_load_then_write_back(raw: RawValue, loaded: DisplayConfigView, back: RawValue)
    requires
        reply_shaped(raw),
        config_wf(config_of(raw)),
        loaded == config_of(raw),
        reply_shaped(back),
        config_of(back) == loaded,
    ensures
        reply_connectors(back) == reply_connectors(raw),
        reply_mode_lists(back) == reply_mode_lists(raw),
        reply_groupings(back) == reply_groupings(raw),
{
    lemma_reply_fields(raw);
    lemma_reply_fields(back);
}

proof fn lemma_select_all(ms: Seq<MonitorView>)
    ensures
        selected(ms, None) == ms,
    decreases ms.len(),
{
    if ms.len() > 0 {
        lemma_select_all(ms.drop_last());
        assert(ms.drop_last().push(ms.last()) =~= ms);
    }
}

/// An unfiltered query reports on every monitor once, in order: its blocks are
/// those of the snapshot's monitors, so it names as many connectors as there
/// are monitors, and no connector twice.
pub proof fn lemma_unfiltered_reports_each_monitor_once(c: DisplayConfigView)
    requires
        config_wf(c),
    ensures
        selected(c.monitors, None) == c.monitors,
        report(c, None) == blocks(c, c.monitors),
        connectors_of(selected(c.monitors, None)) == connectors_of(c.monitors),
        selected(c.monitors, None).len() == c.monitors.len(),
        connectors_unique(selected(c.monitors, None)),
        !filter_unknown(c, None),
{
    lemma_select_all(c.monitors);
}

proof fn lemma_select_one(ms: Seq<MonitorView>, name: Seq<char>)
    requires
        connectors_unique(ms),
    ensures
        !connectors_of(ms).contains(name) ==> selected(ms, Some(name)) == Seq::<MonitorView>::empty(),
        forall|k: int| #[trigger] first_monitor_with(ms, name, k) ==> selected(ms, Some(name)) == seq![ms[k]],
    decreases ms.len(),
{
    if ms.len() > 0 {
        let init = ms.drop_last();
        assert(connectors_unique(init)) by {
            assert forall|i: int, j: int|
                0 <= i < init.len() && 0 <= j < init.len() && i != j implies #[trigger] init[i].connector
                    != #[trigger] init[j].connector by {
                assert(init[i] == ms[i] && init[j] == ms[j]);
            }
        }
        lemma_select_one(init, name);
        if ms.last().connector == name {
            assert(first_monitor_with(ms, name, ms.len() - 1)) by {
                assert forall|k: int| 0 <= k < ms.len() - 1 implies (#[trigger] ms[k]).connector != name by {
                    assert(ms[k].connector != ms[ms.len() - 1].connector);
                }
            }
            assert(!connectors_of(init).contains(name)) by {
                if connectors_of(init).contains(name) {
                    let k = choose|k: int| 0 <= k < connectors_of(init).len() && connectors_of(init)[k] == name;
                    assert(ms[k].connector == ms[ms.len() - 1].connector);
                }
            }
            assert(connectors_of(ms)[ms.len() - 1] == name);
            assert forall|k: int| #[trigger] first_monitor_with(ms, name, k) implies selected(ms, Some(name))
                == seq![ms[k]] by {
                if k < ms.len() - 1 {
                    assert(ms[k].connector != ms[ms.len() - 1].connector);
                }
                assert(Seq::<MonitorView>::empty().push(ms.last()) =~= seq![ms[k]]);
            }
        } else {
            assert(passes(ms.last(), Some(name)) == false);
            if !connectors_of(ms).contains(name) {
                assert(!connectors_of(init).contains(name)) by {
                    if connectors_of(init).contains(name) {
                        let k = choose|k: int| 0 <= k < connectors_of(init).len() && connectors_of(init)[k] == name;
                        assert(connectors_of(ms)[k] == name);
                    }
                }
            }
            assert forall|k: int| #[trigger] first_monitor_with(ms, name, k) implies selected(ms, Some(name))
                == seq![ms[k]] by {
                assert(first_monitor_with(init, name, k));
                assert(init[k] == ms[k]);
            }
        }
    }
}

/// A query filtered on a connector of the snapshot reports on exactly one
/// monitor, the one on that connector.
pub proof fn lemma_filter_on_present_connector(c: DisplayConfigView, name: Seq<char>)
    requires
        config_wf(c),
        connectors_of(c.monitors).contains(name),
    ensures
        !filter_unknown(c, Some(name)),
        selected(c.monitors, Some(name)).len() == 1,
        selected(c.monitors, Some(name))[0].connector == name,
        report(c, Some(name)) == monitor_block(c, selected(c.monitors, Some(name))[0]),
{
    let k = choose|k: int| 0 <= k < connectors_of(c.monitors).len() && connectors_of(c.monitors)[k] == name;
    assert(c.monitors[k].connector == name);
    assert(first_monitor_with(c.monitors, name, k)) by {
        assert forall|j: int| 0 <= j < k implies (#[trigger] c.monitors[j]).connector != name by {
            assert(c.monitors[j].connector != c.monitors[k].connector);
        }
    }
    lemma_select_one(c.monitors, name);
    let s = selected(c.monitors, Some(name));
    assert(s.drop_last() =~= Seq::<MonitorView>::empty());
    assert(blocks(c, s.drop_last()) == Seq::<char>::empty());
    assert(report(c, Some(name)) =~= monitor_block(c, s[0]));
}

/// A query filtered on a connector that no monitor has is refused: it selects
/// no monitor, and the query reports the unknown connector instead of a report.
pub proof fn lemma_filter_on_absent_connector(c: DisplayConfigView, name: Seq<char>)
    requires
        config_wf(c),
        !connectors_of(c.monitors).contains(name),
    ensures
        filter_unknown(c, Some(name)),
        selected(c.monitors, Some(name)).len() == 0,
{
    lemma_select_one(c.monitors, name);
}

/// A logical monitor that names a connector absent from the monitor list
/// breaks the snapshot's references; loading a well-shaped reply with such a
/// logical monitor therefore fails with `DanglingReference`, never dropping it.
pub proof fn lemma_dangling_breaks_references(c: DisplayConfigView, name: Seq<char>)
    requires
        dangling(c, name),
    ensures
        !references_resolve(c),
        !config_wf(c),
{
    let (i, j) = choose|i: int, j: int|
        0 <= i < c.logical_monitors.len() && 0 <= j < c.logical_monitors[i].connectors.len()
            && #[trigger] c.logical_monitors[i].connectors[j] == name;
    assert(!connectors_of(c.monitors).contains(c.logical_monitors[i].connectors[j]));
}

} // verus!
