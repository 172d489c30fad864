use vstd::prelude::*;
use crate::model::{
    connectors_of, DisplayConfig, DisplayConfigView, LogicalMonitor, LogicalMonitorView, Mode,
    ModeView, Monitor, MonitorView,
};
use crate::text::{int_text, milli_text, nat_text, push_int, push_milli, push_nat};

verus! {

/// Name of a monitor transform: rotation in degrees, optionally flipped.
pub open spec fn transform_name(t: u32) -> Seq<char> {
    if t == 0 {
        "normal"@
    } else if t == 1 {
        "90"@
    } else if t == 2 {
        "180"@
    } else if t == 3 {
        "270"@
    } else if t == 4 {
        "flipped"@
    } else if t == 5 {
        "flipped-90"@
    } else if t == 6 {
        "flipped-180"@
    } else if t == 7 {
        "flipped-270"@
    } else {
        nat_text(t as nat)
    }
}

pub open spec fn flag_text(b: bool, word: Seq<char>) -> Seq<char> {
    if b {
        word
    } else {
        Seq::empty()
    }
}

/// One line per mode: `  WIDTHxHEIGHT@REFRESH`, then ` current` and ` preferred` where flagged.
pub open spec fn mode_line(m: ModeView) -> Seq<char> {
    "  "@ + int_text(m.width as int) + "x"@ + int_text(m.height as int) + "@"@ + milli_text(
        m.refresh_millihz as nat,
    ) + flag_text(m.is_current, " current"@) + flag_text(m.is_preferred, " preferred"@) + "\n"@
}

pub open spec fn mode_lines(ms: Seq<ModeView>) -> Seq<char>
    decreases ms.len(),
{
    if ms.len() == 0 {
        Seq::empty()
    } else {
        mode_lines(ms.drop_last()) + mode_line(ms.last())
    }
}

/// The first of the first `n` logical monitors that drives `name`.
pub open spec fn first_logical(ls: Seq<LogicalMonitorView>, name: Seq<char>, n: int) -> Option<
    LogicalMonitorView,
>
    decreases n,
{
    if n <= 0 {
        None
    } else {
        match first_logical(ls, name, n - 1) {
            Some(l) => Some(l),
            None => if ls[n - 1].connectors.contains(name) {
                Some(ls[n - 1])
            } else {
                None
            },
        }
    }
}

/// The logical monitor that drives `name`: the first one that lists it.
pub open spec fn logical_for(c: DisplayConfigView, name: Seq<char>) -> Option<LogicalMonitorView> {
    first_logical(c.logical_monitors, name, c.logical_monitors.len() as int)
}

pub open spec fn logical_line(l: Option<LogicalMonitorView>) -> Seq<char> {
    match l {
        None => "  logical monitor: none\n"@,
        Some(l) => "  logical monitor: position ("@ + int_text(l.x as int) + ","@ + int_text(
            l.y as int,
        ) + ") scale "@ + milli_text(l.scale_milli as nat) + " transform "@ + transform_name(
            l.transform,
        ) + flag_text(l.primary, " primary"@) + "\n"@,
    }
}

/// The header line of a monitor: `CONNECTOR: VENDOR PRODUCT SERIAL`.
pub open spec fn header_line(m: MonitorView) -> Seq<char> {
    m.connector + ": "@ + m.vendor + " "@ + m.product + " "@ + m.serial + "\n"@
}

/// Everything the report says of one monitor.
pub open spec fn monitor_block(c: DisplayConfigView, m: MonitorView) -> Seq<char> {
    header_line(m) + mode_lines(m.modes) + logical_line(logical_for(c, m.connector))
}

/// Whether a monitor passes a connector filter.
pub open spec fn passes(m: MonitorView, filter: Option<Seq<char>>) -> bool {
    match filter {
        None => true,
        Some(name) => m.connector == name,
    }
}

/// The monitors that pass a filter, in their order.
pub open spec fn selected(ms: Seq<MonitorView>, filter: Option<Seq<char>>) -> Seq<MonitorView>
    decreases ms.len(),
{
    if ms.len() == 0 {
        Seq::empty()
    } else if passes(ms.last(), filter) {
        selected(ms.drop_last(), filter).push(ms.last())
    } else {
        selected(ms.drop_last(), filter)
    }
}

pub open spec fn blocks(c: DisplayConfigView, ms: Seq<MonitorView>) -> Seq<char>
    decreases ms.len(),
{
    if ms.len() == 0 {
        Seq::empty()
    } else {
        blocks(c, ms.drop_last()) + monitor_block(c, ms.last())
    }
}

/// The report on the monitors of `c` that pass `filter`.
pub open spec fn report(c: DisplayConfigView, filter: Option<Seq<char>>) -> Seq<char> {
    blocks(c, selected(c.monitors, filter))
}

pub open spec fn filter_view(f: Option<String>) -> Option<Seq<char>> {
    match f {
        None => None,
        Some(s) => Some(s@),
    }
}

fn push_transform(out: &mut String, t: u32)
    ensures
        final(out)@ == old(out)@ + transform_name(t),
{
    if t == 0 {
        out.append("normal");
    } else if t == 1 {
        out.append("90");
    } else if t == 2 {
        out.append("180");
    } else if t == 3 {
        out.append("270");
    } else if t == 4 {
        out.append("flipped");
    } else if t == 5 {
        out.append("flipped-90");
    } else if t == 6 {
        out.append("flipped-180");
    } else if t == 7 {
        out.append("flipped-270");
    } else {
        push_nat(out, t as u64);
    }
}

fn push_flag(out: &mut String, b: bool, word: &str)
    ensures
        final(out)@ == old(out)@ + flag_text(b, word@),
{
    if b {
        out.append(word);
    } else {
        assert(out@ =~= old(out)@ + flag_text(b, word@));
    }
}

fn push_mode_line(out: &mut String, m: &Mode)
    ensures
        final(out)@ == old(out)@ + mode_line(m@),
{
    out.append("  ");
    push_int(out, m.width);
    out.append("x");
    push_int(out, m.height);
    out.append("@");
    push_milli(out, m.refresh_millihz);
    push_flag(out, m.is_current, " current");
    push_flag(out, m.is_preferred, " preferred");
    out.append("\n");
    assert(out@ =~= old(out)@ + mode_line(m@));
}

fn push_mode_lines(out: &mut String, modes: &Vec<Mode>)
    ensures
        final(out)@ == old(out)@ + mode_lines(modes@.map_values(|m: Mode| m@)),
{
    let ghost mv = modes@.map_values(|m: Mode| m@);
    let mut i: usize = 0;
    while i < modes.len()
        invariant
            0 <= i <= modes@.len(),
            mv == modes@.map_values(|m: Mode| m@),
            out@ == old(out)@ + mode_lines(mv.take(i as int)),
        decreases modes.len() - i,
    {
        push_mode_line(out, &modes[i]);
        assert(mv.take(i + 1).drop_last() =~= mv.take(i as int));
        assert(out@ =~= old(out)@ + mode_lines(mv.take(i + 1)));
        i = i + 1;
    }
    assert(mv.take(i as int) =~= mv);
}

proof fn lemma_first_logical_stays(ls: Seq<LogicalMonitorView>, name: Seq<char>, k: int, n: int)
    requires
        k <= n,
        first_logical(ls, name, k) is Some,
    ensures
        first_logical(ls, name, n) == first_logical(ls, name, k),
    decreases n - k,
{
    if k < n {
        lemma_first_logical_stays(ls, name, k, n - 1);
    }
}

fn drives(l: &LogicalMonitor, name: &String) -> (r: bool)
    ensures
        r == l@.connectors.contains(name@),
{
    let mut i: usize = 0;
    while i < l.connectors.len()
        invariant
            0 <= i <= l.connectors@.len(),
            forall|k: int| 0 <= k < i ==> (#[trigger] l@.connectors[k]) != name@,
        decreases l.connectors.len() - i,
    {
        if l.connectors[i] == *name {
            assert(l@.connectors[i as int] == name@);
            return true;
        }
        i = i + 1;
    }
    false
}

/// The position of the logical monitor that drives `name`, if any.
fn find_logical(c: &DisplayConfig, name: &String) -> (r: Option<usize>)
    ensures
        r is None ==> logical_for(c@, name@) is None,
        r is Some ==> r->0 < c@.logical_monitors.len() && logical_for(c@, name@) == Some(
            c@.logical_monitors[r->0 as int],
        ),
{
    let ghost ls = c@.logical_monitors;
    let mut i: usize = 0;
    while i < c.logical_monitors.len()
        invariant
            0 <= i <= ls.len(),
            ls == c@.logical_monitors,
            first_logical(ls, name@, i as int) is None,
        decreases c.logical_monitors.len() - i,
    {
        if drives(&c.logical_monitors[i], name) {
            proof {
                lemma_first_logical_stays(ls, name@, i + 1, ls.len() as int);
            }
            return Some(i);
        }
        i = i + 1;
    }
    None
}

fn push_logical_line(out: &mut String, c: &DisplayConfig, name: &String)
    ensures
        final(out)@ == old(out)@ + logical_line(logical_for(c@, name@)),
{
    match find_logical(c, name) {
        None => {
            out.append("  logical monitor: none\n");
        },
        Some(i) => {
            let l = &c.logical_monitors[i];
            out.append("  logical monitor: position (");
            push_int(out, l.x);
            out.append(",");
            push_int(out, l.y);
            out.append(") scale ");
            push_milli(out, l.scale_milli);
            out.append(" transform ");
            push_transform(out, l.transform);
            push_flag(out, l.primary, " primary");
            out.append("\n");
            assert(out@ =~= old(out)@ + logical_line(logical_for(c@, name@)));
        },
    }
}

fn push_header_line(out: &mut String, m: &Monitor)
    ensures
        final(out)@ == old(out)@ + header_line(m@),
{
    out.append(m.connector.as_str());
    out.append(": ");
    out.append(m.vendor.as_str());
    out.append(" ");
    out.append(m.product.as_str());
    out.append(" ");
    out.append(m.serial.as_str());
    out.append("\n");
    assert(out@ =~= old(out)@ + header_line(m@));
}

fn push_monitor_block(out: &mut String, c: &DisplayConfig, m: &Monitor)
    ensures
        final(out)@ == old(out)@ + monitor_block(c@, m@),
{
    let ghost start = out@;
    push_header_line(out, m);
    let ghost after_header = out@;
    push_mode_lines(out, &m.modes);
    let ghost after_modes = out@;
    push_logical_line(out, c, &m.connector);
    assert(after_header == start + header_line(m@));
    assert(after_modes == after_header + mode_lines(m@.modes));
    assert(out@ == after_modes + logical_line(logical_for(c@, m@.connector)));
    assert(out@ =~= start + monitor_block(c@, m@));
}

/// Renders the report on the monitors of `c` that pass `filter`.
pub fn render_report(c: &DisplayConfig, filter: &Option<String>) -> (r: String)
    ensures
        r@ == report(c@, filter_view(*filter)),
{
    let ghost ms = c@.monitors;
    let ghost f = filter_view(*filter);
    let mut out = String::new();
    let mut i: usize = 0;
    while i < c.monitors.len()
        invariant
            0 <= i <= ms.len(),
            ms == c@.monitors,
            f == filter_view(*filter),
            out@ == blocks(c@, selected(ms.take(i as int), f)),
        decreases c.monitors.len() - i,
    {
        let m = &c.monitors[i];
        let keep = match filter {
            None => true,
            Some(name) => m.connector == *name,
        };
        assert(ms.take(i + 1).drop_last() =~= ms.take(i as int));
        assert(ms.take(i + 1).last() == ms[i as int]);
        if keep {
            push_monitor_block(&mut out, c, m);
            let ghost sel = selected(ms.take(i as int), f);
            assert(selected(ms.take(i + 1), f) == sel.push(ms[i as int]));
            assert(sel.push(ms[i as int]).drop_last() =~= sel);
        }
        i = i + 1;
    }
    assert(ms.take(i as int) =~= ms);
    out
}

/// Options of the query command.
#[derive(Clone, Debug)]
pub struct CommandOptions {
    /// Restricts the report to the monitor on this connector (exact, case-sensitive match).
    pub connector: Option<String>,
}

/// The commands of the tool.
#[derive(Clone, Debug)]
pub enum Command {
    Query(CommandOptions),
}

/// The command to run: the one given, or an unfiltered query where none is.
pub fn resolve_command(cmd: Option<Command>) -> (r: Command)
    ensures
        cmd is Some ==> r == cmd->0,
        cmd is None ==> r is Query && r->Query_0.connector is None,
{
    match cmd {
        Some(c) => c,
        None => Command::Query(CommandOptions { connector: None }),
    }
}

/// Why a query could not be answered.
#[derive(Clone, Debug)]
pub enum QueryError {
    /// No monitor is on the requested connector; `known` lists the connectors there are.
    UnknownConnector { requested: String, known: Vec<String> },
}

/// Names in order, separated by a comma and a space.
pub open spec fn joined(names: Seq<Seq<char>>) -> Seq<char>
    decreases names.len(),
{
    if names.len() == 0 {
        Seq::empty()
    } else if names.len() == 1 {
        names[0]
    } else {
        joined(names.drop_last()) + ", "@ + names.last()
    }
}

pub open spec fn unknown_connector_text(requested: Seq<char>, known: Seq<Seq<char>>) -> Seq<char> {
    "unknown connector "@ + requested + "; known connectors: "@ + joined(known)
}

impl QueryError {
    /// A one-line description of the error.
    pub fn message(&self) -> (r: String)
        ensures
            match self {
                QueryError::UnknownConnector { requested, known } => r@ == unknown_connector_text(
                    requested@,
                    known@.map_values(|s: String| s@),
                ),
            },
    {
        match self {
            QueryError::UnknownConnector { requested, known } => {
                let ghost kv = known@.map_values(|s: String| s@);
                let mut out = String::from_str("unknown connector ");
                out.append(requested.as_str());
                out.append("; known connectors: ");
                let ghost base = out@;
                let mut i: usize = 0;
                while i < known.len()
                    invariant
                        0 <= i <= kv.len(),
                        kv == known@.map_values(|s: String| s@),
                        out@ == base + joined(kv.take(i as int)),
                    decreases known.len() - i,
                {
                    assert(kv.take(i + 1).drop_last() =~= kv.take(i as int));
                    if i > 0 {
                        out.append(", ");
                    } else {
                        assert(kv.take(1) =~= seq![kv[0]]);
                    }
                    out.append(known[i].as_str());
                    assert(out@ =~= base + joined(kv.take(i + 1)));
                    i = i + 1;
                }
                assert(kv.take(i as int) =~= kv);
                assert(out@ =~= "unknown connector "@ + requested@ + "; known connectors: "@ + joined(kv));
                out
            },
        }
    }
}

/// A filter that names a connector no monitor of `c` has.
pub open spec fn filter_unknown(c: DisplayConfigView, filter: Option<Seq<char>>) -> bool {
    filter is Some && !connectors_of(c.monitors).contains(filter->0)
}

/// The connectors of the monitors of `c`, in order.
pub fn connector_names(c: &DisplayConfig) -> (r: Vec<String>)
    ensures
        r@.map_values(|s: String| s@) == connectors_of(c@.monitors),
{
    let mut r: Vec<String> = Vec::new();
    let mut i: usize = 0;
    while i < c.monitors.len()
        invariant
            0 <= i <= c@.monitors.len(),
            r@.len() == i,
            forall|k: int| 0 <= k < i ==> (#[trigger] r@[k])@ == c@.monitors[k].connector,
        decreases c.monitors.len() - i,
    {
        r.push(c.monitors[i].connector.clone());
        i = i + 1;
    }
    assert(r@.map_values(|s: String| s@) =~= connectors_of(c@.monitors));
    r
}

/// Answers a query: the report on every monitor, or on the one monitor on the
/// requested connector. Fails where no monitor is on that connector.
pub fn run_query(options: &CommandOptions, config: &DisplayConfig) -> (r: Result<String, QueryError>)
    ensures
        !filter_unknown(config@, filter_view(options.connector)) ==> r is Ok && r->Ok_0@ == report(
            config@,
            filter_view(options.connector),
        ),
        filter_unknown(config@, filter_view(options.connector)) ==> r is Err && match r->Err_0 {
            QueryError::UnknownConnector { requested, known } => requested@ == options.connector->0@
                && known@.map_values(|s: String| s@) == connectors_of(config@.monitors),
        },
{
    if let Some(name) = &options.connector {
        if config.monitor_index(name).is_none() {
            return Err(
                QueryError::UnknownConnector { requested: name.clone(), known: connector_names(config) },
            );
        }
    }
    Ok(render_report(config, &options.connector))
}

} // verus!
