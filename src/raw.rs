use vstd::prelude::*;
use crate::model::{
    DisplayConfig, DisplayConfigView, LogicalMonitor, LogicalMonitorView, Mode, ModeView, Monitor,
    MonitorView,
};
use crate::text::{nat_text, push_nat};

verus! {

/// A dynamically typed value of the compositor's "current state" reply.
/// Fractional quantities arrive as fixed-point numbers in thousandths.
#[derive(Debug)]
pub enum RawValue {
    Bool(bool),
    I32(i32),
    U32(u32),
    Fixed(i64),
    Str(String),
    List(Vec<RawValue>),
    Record(Vec<RawValue>),
}

pub open spec fn str_of(v: RawValue) -> Seq<char> {
    match v {
        RawValue::Str(s) => s@,
        _ => Seq::empty(),
    }
}

pub open spec fn items_of(v: RawValue) -> Seq<RawValue> {
    match v {
        RawValue::List(xs) => xs@,
        RawValue::Record(xs) => xs@,
        _ => Seq::empty(),
    }
}

/// A fixed-point value that fits an unsigned 32-bit field.
pub open spec fn fixed_fits(v: RawValue) -> bool {
    v is Fixed && 0 <= v->Fixed_0 <= u32::MAX
}

/// A record with `n` fields.
pub open spec fn record_of_len(v: RawValue, n: nat) -> bool {
    v is Record && items_of(v).len() == n
}

/// A mode descriptor: id, width, height, refresh rate, current flag, preferred flag.
pub open spec fn mode_shaped(v: RawValue) -> bool {
    let f = items_of(v);
    &&& record_of_len(v, 6)
    &&& f[0] is Str
    &&& f[1] is I32
    &&& f[2] is I32
    &&& fixed_fits(f[3])
    &&& f[4] is Bool
    &&& f[5] is Bool
}

pub open spec fn mode_of(v: RawValue) -> ModeView {
    let f = items_of(v);
    ModeView {
        id: str_of(f[0]),
        width: f[1]->I32_0,
        height: f[2]->I32_0,
        refresh_millihz: f[3]->Fixed_0 as u32,
        is_current: f[4]->Bool_0,
        is_preferred: f[5]->Bool_0,
    }
}

/// A monitor descriptor: connector, vendor, product, serial, list of modes.
pub open spec fn monitor_shaped(v: RawValue) -> bool {
    let f = items_of(v);
    &&& record_of_len(v, 5)
    &&& f[0] is Str
    &&& f[1] is Str
    &&& f[2] is Str
    &&& f[3] is Str
    &&& f[4] is List
    &&& forall|i: int| 0 <= i < items_of(f[4]).len() ==> mode_shaped(#[trigger] items_of(f[4])[i])
}

pub open spec fn monitor_of(v: RawValue) -> MonitorView {
    let f = items_of(v);
    MonitorView {
        connector: str_of(f[0]),
        vendor: str_of(f[1]),
        product: str_of(f[2]),
        serial: str_of(f[3]),
        modes: items_of(f[4]).map_values(|m: RawValue| mode_of(m)),
    }
}

/// A logical-monitor descriptor: x, y, scale, transform, primary flag, list of connectors.
pub open spec fn logical_shaped(v: RawValue) -> bool {
    let f = items_of(v);
    &&& record_of_len(v, 6)
    &&& f[0] is I32
    &&& f[1] is I32
    &&& fixed_fits(f[2])
    &&& f[3] is U32
    &&& f[4] is Bool
    &&& f[5] is List
    &&& forall|i: int| 0 <= i < items_of(f[5]).len() ==> (#[trigger] items_of(f[5])[i]) is Str
}

pub open spec fn logical_of(v: RawValue) -> LogicalMonitorView {
    let f = items_of(v);
    LogicalMonitorView {
        x: f[0]->I32_0,
        y: f[1]->I32_0,
        scale_milli: f[2]->Fixed_0 as u32,
        transform: f[3]->U32_0,
        primary: f[4]->Bool_0,
        connectors: items_of(f[5]).map_values(|c: RawValue| str_of(c)),
    }
}

/// The whole reply: serial, list of monitors, list of logical monitors.
pub open spec fn reply_shaped(v: RawValue) -> bool {
    let f = items_of(v);
    &&& record_of_len(v, 3)
    &&& f[0] is U32
    &&& f[1] is List
    &&& f[2] is List
    &&& forall|i: int| 0 <= i < items_of(f[1]).len() ==> monitor_shaped(#[trigger] items_of(f[1])[i])
    &&& forall|i: int| 0 <= i < items_of(f[2]).len() ==> logical_shaped(#[trigger] items_of(f[2])[i])
}

pub open spec fn config_of(v: RawValue) -> DisplayConfigView {
    let f = items_of(v);
    DisplayConfigView {
        serial: f[0]->U32_0,
        monitors: items_of(f[1]).map_values(|m: RawValue| monitor_of(m)),
        logical_monitors: items_of(f[2]).map_values(|l: RawValue| logical_of(l)),
    }
}

/// `prefix[i]` followed by `rest`: the path of a field inside the `i`-th item of a list.
pub open spec fn indexed_text(prefix: Seq<char>, i: int, rest: Seq<char>) -> Seq<char> {
    prefix + seq!['['] + nat_text(i as nat) + seq![']'] + rest
}

/// The first fault among the first `n` entries, with its position.
pub open spec fn first_fault(faults: Seq<Option<Seq<char>>>, n: int) -> Option<(int, Seq<char>)>
    decreases n,
{
    if n <= 0 {
        None
    } else {
        match first_fault(faults, n - 1) {
            Some(x) => Some(x),
            None => match faults[n - 1] {
                Some(p) => Some((n - 1, p)),
                None => None,
            },
        }
    }
}

/// Once a fault is found in a prefix, it stays the first one in every longer prefix.
pub proof fn lemma_first_fault_stays(faults: Seq<Option<Seq<char>>>, k: int, n: int)
    requires
        k <= n,
        first_fault(faults, k) is Some,
    ensures
        first_fault(faults, n) == first_fault(faults, k),
    decreases n - k,
{
    if k < n {
        lemma_first_fault_stays(faults, k, n - 1);
    }
}

/// The first fault of a list whose items have the given faults, as a path below `prefix`.
pub open spec fn list_fault(prefix: Seq<char>, faults: Seq<Option<Seq<char>>>) -> Option<Seq<char>> {
    match first_fault(faults, faults.len() as int) {
        Some((i, p)) => Some(indexed_text(prefix, i, p)),
        None => None,
    }
}

/// Where a mode descriptor first breaks the schema, relative to the descriptor.
pub open spec fn mode_fault(v: RawValue) -> Option<Seq<char>> {
    let f = items_of(v);
    if !record_of_len(v, 6) {
        Some(Seq::empty())
    } else if !(f[0] is Str) {
        Some(".id"@)
    } else if !(f[1] is I32) {
        Some(".width"@)
    } else if !(f[2] is I32) {
        Some(".height"@)
    } else if !fixed_fits(f[3]) {
        Some(".refresh_rate"@)
    } else if !(f[4] is Bool) {
        Some(".is_current"@)
    } else if !(f[5] is Bool) {
        Some(".is_preferred"@)
    } else {
        None
    }
}

/// Where a monitor descriptor first breaks the schema, relative to the descriptor.
pub open spec fn monitor_fault(v: RawValue) -> Option<Seq<char>> {
    let f = items_of(v);
    if !record_of_len(v, 5) {
        Some(Seq::empty())
    } else if !(f[0] is Str) {
        Some(".connector"@)
    } else if !(f[1] is Str) {
        Some(".vendor"@)
    } else if !(f[2] is Str) {
        Some(".product"@)
    } else if !(f[3] is Str) {
        Some(".serial"@)
    } else if !(f[4] is List) {
        Some(".modes"@)
    } else {
        list_fault(".modes"@, items_of(f[4]).map_values(|m: RawValue| mode_fault(m)))
    }
}

pub open spec fn name_fault(v: RawValue) -> Option<Seq<char>> {
    if v is Str {
        None
    } else {
        Some(Seq::empty())
    }
}

/// Where a logical-monitor descriptor first breaks the schema, relative to the descriptor.
pub open spec fn logical_fault(v: RawValue) -> Option<Seq<char>> {
    let f = items_of(v);
    if !record_of_len(v, 6) {
        Some(Seq::empty())
    } else if !(f[0] is I32) {
        Some(".x"@)
    } else if !(f[1] is I32) {
        Some(".y"@)
    } else if !fixed_fits(f[2]) {
        Some(".scale"@)
    } else if !(f[3] is U32) {
        Some(".transform"@)
    } else if !(f[4] is Bool) {
        Some(".primary"@)
    } else if !(f[5] is List) {
        Some(".monitors"@)
    } else {
        list_fault(".monitors"@, items_of(f[5]).map_values(|c: RawValue| name_fault(c)))
    }
}

/// The path of the first field of the reply, in reading order, that breaks the schema.
pub open spec fn reply_fault(v: RawValue) -> Option<Seq<char>> {
    let f = items_of(v);
    if !record_of_len(v, 3) {
        Some("reply"@)
    } else if !(f[0] is U32) {
        Some("reply.serial"@)
    } else if !(f[1] is List) {
        Some("reply.monitors"@)
    } else if !(f[2] is List) {
        Some("reply.logical_monitors"@)
    } else {
        match list_fault("reply.monitors"@, items_of(f[1]).map_values(|m: RawValue| monitor_fault(m))) {
            Some(p) => Some(p),
            None => list_fault(
                "reply.logical_monitors"@,
                items_of(f[2]).map_values(|l: RawValue| logical_fault(l)),
            ),
        }
    }
}

pub(crate) fn path(s: &str) -> (r: String)
    ensures
        r@ == s@,
{
    String::from_str(s)
}

/// `prefix[i]` followed by `rest`.
pub(crate) fn indexed_path(prefix: &str, i: usize, rest: &String) -> (r: String)
    ensures
        r@ == indexed_text(prefix@, i as int, rest@),
{
    let mut r = String::from_str(prefix);
    proof {
        reveal_strlit("[");
        reveal_strlit("]");
    }
    r.append("[");
    push_nat(&mut r, i as u64);
    r.append("]");
    r.append(rest.as_str());
    r
}

fn get_str(v: &RawValue) -> (r: Option<String>)
    ensures
        r is Some <==> *v is Str,
        r is Some ==> r->0@ == str_of(*v),
{
    match v {
        RawValue::Str(s) => Some(s.clone()),
        _ => None,
    }
}

fn get_fixed(v: &RawValue) -> (r: Option<u32>)
    ensures
        r is Some <==> fixed_fits(*v),
        r is Some ==> r->0 == v->Fixed_0 as u32,
{
    match v {
        RawValue::Fixed(x) => {
            if 0 <= *x && *x <= u32::MAX as i64 {
                Some(*x as u32)
            } else {
                None
            }
        },
        _ => None,
    }
}

fn decode_mode(v: &RawValue) -> (r: Result<Mode, String>)
    ensures
        r is Ok <==> mode_shaped(*v),
        r is Ok <==> mode_fault(*v) is None,
        r is Ok ==> r->Ok_0@ == mode_of(*v),
        r is Err ==> mode_fault(*v) == Some(r->Err_0@),
{
    let f = match v {
        RawValue::Record(f) => f,
        _ => return Err(String::new()),
    };
    if f.len() != 6 {
        return Err(String::new());
    }
    let id = match get_str(&f[0]) {
        Some(s) => s,
        None => return Err(path(".id")),
    };
    let width = match &f[1] {
        RawValue::I32(x) => *x,
        _ => return Err(path(".width")),
    };
    let height = match &f[2] {
        RawValue::I32(x) => *x,
        _ => return Err(path(".height")),
    };
    let refresh_millihz = match get_fixed(&f[3]) {
        Some(x) => x,
        None => return Err(path(".refresh_rate")),
    };
    let is_current = match &f[4] {
        RawValue::Bool(b) => *b,
        _ => return Err(path(".is_current")),
    };
    let is_preferred = match &f[5] {
        RawValue::Bool(b) => *b,
        _ => return Err(path(".is_preferred")),
    };
    Ok(Mode { id, width, height, refresh_millihz, is_current, is_preferred })
}

#[verifier::loop_isolation(false)]
fn decode_monitor(v: &RawValue) -> (r: Result<Monitor, String>)
    ensures
        r is Ok <==> monitor_shaped(*v),
        r is Ok <==> monitor_fault(*v) is None,
        r is Ok ==> r->Ok_0@ == monitor_of(*v),
        r is Err ==> monitor_fault(*v) == Some(r->Err_0@),
{
    let f = match v {
        RawValue::Record(f) => f,
        _ => return Err(String::new()),
    };
    if f.len() != 5 {
        return Err(String::new());
    }
    let connector = match get_str(&f[0]) {
        Some(s) => s,
        None => return Err(path(".connector")),
    };
    let vendor = match get_str(&f[1]) {
        Some(s) => s,
        None => return Err(path(".vendor")),
    };
    let product = match get_str(&f[2]) {
        Some(s) => s,
        None => return Err(path(".product")),
    };
    let serial = match get_str(&f[3]) {
        Some(s) => s,
        None => return Err(path(".serial")),
    };
    let items = match &f[4] {
        RawValue::List(xs) => xs,
        _ => return Err(path(".modes")),
    };
    let ghost faults = items@.map_values(|m: RawValue| mode_fault(m));
    assert(items_of(f@[4]) == items@);
    let mut modes: Vec<Mode> = Vec::new();
    let mut i: usize = 0;
    while i < items.len()
        invariant
            0 <= i <= items@.len(),
            modes@.len() == i,
            first_fault(faults, i as int) is None,
            forall|k: int| 0 <= k < i ==> mode_shaped(#[trigger] items@[k]),
            forall|k: int| 0 <= k < i ==> (#[trigger] modes@[k])@ == mode_of(items@[k]),
        decreases items.len() - i,
    {
        match decode_mode(&items[i]) {
            Ok(m) => modes.push(m),
            Err(e) => {
                assert(faults[i as int] == Some(e@));
                proof {
                    lemma_first_fault_stays(faults, i + 1, faults.len() as int);
                }
                return Err(indexed_path(".modes", i, &e));
            },
        }
        assert(first_fault(faults, i + 1) is None);
        i = i + 1;
    }
    let ghost mv = modes@.map_values(|m: Mode| m@);
    assert(mv =~= items@.map_values(|m: RawValue| mode_of(m)));
    Ok(Monitor { connector, vendor, product, serial, modes })
}

#[verifier::loop_isolation(false)]
fn decode_logical(v: &RawValue) -> (r: Result<LogicalMonitor, String>)
    ensures
        r is Ok <==> logical_shaped(*v),
        r is Ok <==> logical_fault(*v) is None,
        r is Ok ==> r->Ok_0@ == logical_of(*v),
        r is Err ==> logical_fault(*v) == Some(r->Err_0@),
{
    let f = match v {
        RawValue::Record(f) => f,
        _ => return Err(String::new()),
    };
    if f.len() != 6 {
        return Err(String::new());
    }
    let x = match &f[0] {
        RawValue::I32(x) => *x,
        _ => return Err(path(".x")),
    };
    let y = match &f[1] {
        RawValue::I32(y) => *y,
        _ => return Err(path(".y")),
    };
    let scale_milli = match get_fixed(&f[2]) {
        Some(s) => s,
        None => return Err(path(".scale")),
    };
    let transform = match &f[3] {
        RawValue::U32(t) => *t,
        _ => return Err(path(".transform")),
    };
    let primary = match &f[4] {
        RawValue::Bool(b) => *b,
        _ => return Err(path(".primary")),
    };
    let items = match &f[5] {
        RawValue::List(xs) => xs,
        _ => return Err(path(".monitors")),
    };
    let ghost faults = items@.map_values(|c: RawValue| name_fault(c));
    assert(items_of(f@[5]) == items@);
    let mut connectors: Vec<String> = Vec::new();
    let mut i: usize = 0;
    while i < items.len()
        invariant
            0 <= i <= items@.len(),
            connectors@.len() == i,
            first_fault(faults, i as int) is None,
            forall|k: int| 0 <= k < i ==> (#[trigger] items@[k]) is Str,
            forall|k: int| 0 <= k < i ==> (#[trigger] connectors@[k])@ == str_of(items@[k]),
        decreases items.len() - i,
    {
        match get_str(&items[i]) {
            Some(c) => connectors.push(c),
            None => {
                assert(faults[i as int] == Some(Seq::<char>::empty()));
                proof {
                    lemma_first_fault_stays(faults, i + 1, faults.len() as int);
                }
                return Err(indexed_path(".monitors", i, &String::new()));
            },
        }
        assert(first_fault(faults, i + 1) is None);
        i = i + 1;
    }
    let ghost cv = connectors@.map_values(|c: String| c@);
    assert(cv =~= items@.map_values(|c: RawValue| str_of(c)));
    Ok(LogicalMonitor { x, y, scale_milli, transform, primary, connectors })
}

/// Checks the reply against its schema and builds the snapshot it describes.
/// On a mismatch the error names the path of the offending field.
#[verifier::loop_isolation(false)]
pub fn decode_reply(v: &RawValue) -> (r: Result<DisplayConfig, String>)
    ensures
        r is Ok <==> reply_shaped(*v),
        r is Ok <==> reply_fault(*v) is None,
        r is Ok ==> r->Ok_0@ == config_of(*v),
        r is Err ==> reply_fault(*v) == Some(r->Err_0@),
{
    let f = match v {
        RawValue::Record(f) => f,
        _ => return Err(path("reply")),
    };
    if f.len() != 3 {
        return Err(path("reply"));
    }
    let serial = match &f[0] {
        RawValue::U32(s) => *s,
        _ => return Err(path("reply.serial")),
    };
    let mitems = match &f[1] {
        RawValue::List(xs) => xs,
        _ => return Err(path("reply.monitors")),
    };
    let litems = match &f[2] {
        RawValue::List(xs) => xs,
        _ => return Err(path("reply.logical_monitors")),
    };
    let ghost mfaults = mitems@.map_values(|m: RawValue| monitor_fault(m));
    let ghost lfaults = litems@.map_values(|l: RawValue| logical_fault(l));
    assert(items_of(f@[1]) == mitems@);
    assert(items_of(f@[2]) == litems@);
    let mut monitors: Vec<Monitor> = Vec::new();
    let mut i: usize = 0;
    while i < mitems.len()
        invariant
            0 <= i <= mitems@.len(),
            monitors@.len() == i,
            first_fault(mfaults, i as int) is None,
            forall|k: int| 0 <= k < i ==> monitor_shaped(#[trigger] mitems@[k]),
            forall|k: int| 0 <= k < i ==> (#[trigger] monitors@[k])@ == monitor_of(mitems@[k]),
        decreases mitems.len() - i,
    {
        match decode_monitor(&mitems[i]) {
            Ok(m) => monitors.push(m),
            Err(e) => {
                assert(mfaults[i as int] == Some(e@));
                proof {
                    lemma_first_fault_stays(mfaults, i + 1, mfaults.len() as int);
                }
                return Err(indexed_path("reply.monitors", i, &e));
            },
        }
        assert(first_fault(mfaults, i + 1) is None);
        i = i + 1;
    }
    let mut logical_monitors: Vec<LogicalMonitor> = Vec::new();
    let mut j: usize = 0;
    while j < litems.len()
        invariant
            0 <= j <= litems@.len(),
            logical_monitors@.len() == j,
            first_fault(mfaults, mfaults.len() as int) is None,
            first_fault(lfaults, j as int) is None,
            forall|k: int| 0 <= k < j ==> logical_shaped(#[trigger] litems@[k]),
            forall|k: int| 0 <= k < j ==> (#[trigger] logical_monitors@[k])@ == logical_of(litems@[k]),
        decreases litems.len() - j,
    {
        match decode_logical(&litems[j]) {
            Ok(l) => logical_monitors.push(l),
            Err(e) => {
                assert(lfaults[j as int] == Some(e@));
                proof {
                    lemma_first_fault_stays(lfaults, j + 1, lfaults.len() as int);
                }
                return Err(indexed_path("reply.logical_monitors", j, &e));
            },
        }
        assert(first_fault(lfaults, j + 1) is None);
        j = j + 1;
    }
    let r = DisplayConfig { serial, monitors, logical_monitors };
    assert(r@.monitors =~= mitems@.map_values(|m: RawValue| monitor_of(m)));
    assert(r@.logical_monitors =~= litems@.map_values(|l: RawValue| logical_of(l)));
    Ok(r)
}

fn mode_to_raw(m: &Mode) -> (r: RawValue)
    ensures
        mode_shaped(r),
        mode_of(r) == m@,
{
    let mut f: Vec<RawValue> = Vec::new();
    f.push(RawValue::Str(m.id.clone()));
    f.push(RawValue::I32(m.width));
    f.push(RawValue::I32(m.height));
    f.push(RawValue::Fixed(m.refresh_millihz as i64));
    f.push(RawValue::Bool(m.is_current));
    f.push(RawValue::Bool(m.is_preferred));
    RawValue::Record(f)
}

fn monitor_to_raw(m: &Monitor) -> (r: RawValue)
    ensures
        monitor_shaped(r),
        monitor_of(r) == m@,
{
    let mut modes: Vec<RawValue> = Vec::new();
    let mut i: usize = 0;
    while i < m.modes.len()
        invariant
            0 <= i <= m.modes@.len(),
            modes@.len() == i,
            forall|k: int| 0 <= k < i ==> mode_shaped(#[trigger] modes@[k]),
            forall|k: int| 0 <= k < i ==> mode_of(#[trigger] modes@[k]) == m.modes@[k]@,
        decreases m.modes.len() - i,
    {
        modes.push(mode_to_raw(&m.modes[i]));
        i = i + 1;
    }
    let ghost mv = modes@;
    let mut f: Vec<RawValue> = Vec::new();
    f.push(RawValue::Str(m.connector.clone()));
    f.push(RawValue::Str(m.vendor.clone()));
    f.push(RawValue::Str(m.product.clone()));
    f.push(RawValue::Str(m.serial.clone()));
    f.push(RawValue::List(modes));
    let r = RawValue::Record(f);
    assert(items_of(items_of(r)[4]) == mv);
    assert(monitor_of(r).modes =~= m@.modes);
    r
}

fn logical_to_raw(l: &LogicalMonitor) -> (r: RawValue)
    ensures
        logical_shaped(r),
        logical_of(r) == l@,
{
    let mut names: Vec<RawValue> = Vec::new();
    let mut i: usize = 0;
    while i < l.connectors.len()
        invariant
            0 <= i <= l.connectors@.len(),
            names@.len() == i,
            forall|k: int| 0 <= k < i ==> (#[trigger] names@[k]) is Str,
            forall|k: int| 0 <= k < i ==> str_of(#[trigger] names@[k]) == l.connectors@[k]@,
        decreases l.connectors.len() - i,
    {
        names.push(RawValue::Str(l.connectors[i].clone()));
        i = i + 1;
    }
    let ghost nv = names@;
    let mut f: Vec<RawValue> = Vec::new();
    f.push(RawValue::I32(l.x));
    f.push(RawValue::I32(l.y));
    f.push(RawValue::Fixed(l.scale_milli as i64));
    f.push(RawValue::U32(l.transform));
    f.push(RawValue::Bool(l.primary));
    f.push(RawValue::List(names));
    let r = RawValue::Record(f);
    assert(items_of(items_of(r)[5]) == nv);
    assert(logical_of(r).connectors =~= l@.connectors);
    r
}

impl DisplayConfig {
    /// Writes the snapshot back in the shape of the compositor's reply.
    pub fn to_reply(&self) -> (r: RawValue)
        ensures
            reply_shaped(r),
            config_of(r) == self@,
    {
        let mut ms: Vec<RawValue> = Vec::new();
        let mut i: usize = 0;
        while i < self.monitors.len()
            invariant
                0 <= i <= self.monitors@.len(),
                ms@.len() == i,
                forall|k: int| 0 <= k < i ==> monitor_shaped(#[trigger] ms@[k]),
                forall|k: int| 0 <= k < i ==> monitor_of(#[trigger] ms@[k]) == self.monitors@[k]@,
            decreases self.monitors.len() - i,
        {
            ms.push(monitor_to_raw(&self.monitors[i]));
            i = i + 1;
        }
        let mut ls: Vec<RawValue> = Vec::new();
        let mut j: usize = 0;
        while j < self.logical_monitors.len()
            invariant
                0 <= j <= self.logical_monitors@.len(),
                ls@.len() == j,
                forall|k: int| 0 <= k < j ==> logical_shaped(#[trigger] ls@[k]),
                forall|k: int| 0 <= k < j ==> logical_of(#[trigger] ls@[k]) == self.logical_monitors@[k]@,
            decreases self.logical_monitors.len() - j,
        {
            ls.push(logical_to_raw(&self.logical_monitors[j]));
            j = j + 1;
        }
        let ghost msv = ms@;
        let ghost lsv = ls@;
        let mut f: Vec<RawValue> = Vec::new();
        f.push(RawValue::U32(self.serial));
        f.push(RawValue::List(ms));
        f.push(RawValue::List(ls));
        let r = RawValue::Record(f);
        assert(items_of(items_of(r)[1]) == msv);
        assert(items_of(items_of(r)[2]) == lsv);
        assert(config_of(r).monitors =~= self@.monitors);
        assert(config_of(r).logical_monitors =~= self@.logical_monitors);
        r
    }
}

} // verus!
