//! Display topology: the ordered list of monitors and change detection.

use vstd::prelude::*;

verus! {

/// One display device as the operating system reports it.
#[derive(Clone, Copy, Debug, PartialEq, Eq, Structural)]
pub struct Monitor {
    pub id: u64,
    pub x: i32,
    pub y: i32,
    pub width: u32,
    pub height: u32,
    /// Scale factor in hundredths: 150 stands for a factor of 1.5.
    pub scale_percent: u32,
    pub is_primary: bool,
}

/// A refresh signals a change exactly when the new snapshot differs from the
/// one held before (a monitor added, removed, moved or resized).
pub open spec fn topology_changed(before: Seq<Monitor>, after: Seq<Monitor>) -> bool {
    before != after
}

/// The current monitor snapshot.
pub struct MonitorState {
    monitors: Vec<Monitor>,
}

impl View for MonitorState {
    type V = Seq<Monitor>;

    closed spec fn view(&self) -> Seq<Monitor> {
        self.monitors@
    }
}

/// Whether two snapshots list the same monitors in the same order.
pub fn same_monitors(a: &Vec<Monitor>, b: &Vec<Monitor>) -> (r: bool)
    ensures
        r == (a@ == b@),
{
    if a.len() != b.len() {
        return false;
    }
    let mut i: usize = 0;
    while i < a.len()
        invariant
            a.len() == b.len(),
            i <= a.len(),
            forall|j: int| 0 <= j < i ==> a@[j] == b@[j],
        decreases a.len() - i,
    {
        if a[i] != b[i] {
            return false;
        }
        i += 1;
    }
    assert(a@ =~= b@);
    true
}

impl MonitorState {
    /// The state after the initial enumeration.
    pub fn new(monitors: Vec<Monitor>) -> (s: Self)
        ensures
            s@ == monitors@,
    {
        MonitorState { monitors }
    }

    /// The monitors of the current snapshot, in the order enumerated.
    pub fn monitors(&self) -> (r: &Vec<Monitor>)
        ensures
            r@ == self@,
    {
        &self.monitors
    }

    /// The snapshot as a JSON array, as `query monitors` prints it.
    pub fn output_str(&self) -> (r: String)
        ensures
            r@ == monitors_json(self@),
    {
        let ms = &self.monitors;
        let mut out = String::new();
        out.append("[");
        let mut i: usize = 0;
        while i < ms.len()
            invariant
                i <= ms.len(),
                out@ == "["@ + json_items(ms@.take(i as int)),
            decreases ms.len() - i,
        {
            let ghost before = out@;
            if i > 0 {
                out.append(",");
            }
            append_monitor(&mut out, &ms[i]);
            proof {
                let t = ms@.take(i + 1);
                assert(t.drop_last() =~= ms@.take(i as int));
                assert(t.last() == ms@[i as int]);
                if i == 0 {
                    assert(json_items(ms@.take(0)) =~= Seq::<char>::empty());
                }
            }
            assert(out@ =~= "["@ + json_items(ms@.take(i + 1)));
            i += 1;
        }
        out.append("]");
        assert(ms@.take(ms.len() as int) =~= ms@);
        out
    }

    /// Replaces the snapshot and reports whether the change signal is due.
    pub fn refresh(&mut self, snapshot: Vec<Monitor>) -> (changed: bool)
        ensures
            final(self)@ == snapshot@,
            changed == topology_changed(old(self)@, snapshot@),
    {
        let changed = !same_monitors(&self.monitors, &snapshot);
        self.monitors = snapshot;
        changed
    }
}

/// Refreshing twice in a row with the same snapshot signals at most once in
/// all, and never on the second refresh.
pub proof fn lemma_repeated_refresh_signals_once(before: Seq<Monitor>, snapshot: Seq<Monitor>)
    ensures
        !topology_changed(snapshot, snapshot),
        (if topology_changed(before, snapshot) { 1int } else { 0int }) + (if topology_changed(snapshot, snapshot) {
            1int
        } else {
            0int
        }) <= 1,
{
}

/// The text of one decimal digit.
pub open spec fn digit_text(d: nat) -> Seq<char> {
    if d == 0 { "0"@ }
    else if d == 1 { "1"@ }
    else if d == 2 { "2"@ }
    else if d == 3 { "3"@ }
    else if d == 4 { "4"@ }
    else if d == 5 { "5"@ }
    else if d == 6 { "6"@ }
    else if d == 7 { "7"@ }
    else if d == 8 { "8"@ }
    else { "9"@ }
}

/// Decimal notation of a natural number, without leading zeros.
pub open spec fn decimal(n: nat) -> Seq<char>
    decreases n,
{
    if n < 10 {
        digit_text(n)
    } else {
        decimal(n / 10) + digit_text(n % 10)
    }
}

/// Decimal notation of an integer, with a leading `-` when negative.
pub open spec fn signed_decimal(i: int) -> Seq<char> {
    if i < 0 {
        "-"@ + decimal((-i) as nat)
    } else {
        decimal(i as nat)
    }
}

/// A monitor as a JSON object.
pub open spec fn monitor_json(m: Monitor) -> Seq<char> {
    "{\"id\":"@ + decimal(m.id as nat) + ",\"x\":"@ + signed_decimal(m.x as int) + ",\"y\":"@ + signed_decimal(
        m.y as int,
    ) + ",\"width\":"@ + decimal(m.width as nat) + ",\"height\":"@ + decimal(m.height as nat)
        + ",\"scalePercent\":"@ + decimal(m.scale_percent as nat) + ",\"isPrimary\":"@ + (if m.is_primary {
        "true"@
    } else {
        "false"@
    }) + "}"@
}

/// The monitors as JSON objects separated by commas.
pub open spec fn json_items(ms: Seq<Monitor>) -> Seq<char>
    decreases ms.len(),
{
    if ms.len() == 0 {
        Seq::empty()
    } else if ms.len() == 1 {
        monitor_json(ms[0])
    } else {
        json_items(ms.drop_last()) + ","@ + monitor_json(ms.last())
    }
}

/// The monitors as a JSON array.
pub open spec fn monitors_json(ms: Seq<Monitor>) -> Seq<char> {
    "["@ + json_items(ms) + "]"@
}

fn append_digit(out: &mut String, d: u64)
    requires
        d < 10,
    ensures
        final(out)@ == old(out)@ + digit_text(d as nat),
{
    let t = if d == 0 { "0" }
        else if d == 1 { "1" }
        else if d == 2 { "2" }
        else if d == 3 { "3" }
        else if d == 4 { "4" }
        else if d == 5 { "5" }
        else if d == 6 { "6" }
        else if d == 7 { "7" }
        else if d == 8 { "8" }
        else { "9" };
    out.append(t);
}

fn append_decimal(out: &mut String, n: u64)
    ensures
        final(out)@ == old(out)@ + decimal(n as nat),
    decreases n,
{
    if n >= 10 {
        append_decimal(out, n / 10);
        append_digit(out, n % 10);
        assert(final(out)@ =~= old(out)@ + decimal(n as nat)) by {
            assert(decimal(n as nat) == decimal((n / 10) as nat) + digit_text((n % 10) as nat));
        }
    } else {
        append_digit(out, n);
    }
}

fn append_signed(out: &mut String, i: i32)
    ensures
        final(out)@ == old(out)@ + signed_decimal(i as int),
{
    if i < 0 {
        out.append("-");
        let a = (-(i as i64)) as u64;
        append_decimal(out, a);
        assert(final(out)@ =~= old(out)@ + signed_decimal(i as int));
    } else {
        append_decimal(out, i as u64);
    }
}

fn append_monitor(out: &mut String, m: &Monitor)
    ensures
        final(out)@ == old(out)@ + monitor_json(*m),
{
    out.append("{\"id\":");
    append_decimal(out, m.id);
    out.append(",\"x\":");
    append_signed(out, m.x);
    out.append(",\"y\":");
    append_signed(out, m.y);
    out.append(",\"width\":");
    append_decimal(out, m.width as u64);
    out.append(",\"height\":");
    append_decimal(out, m.height as u64);
    out.append(",\"scalePercent\":");
    append_decimal(out, m.scale_percent as u64);
    out.append(",\"isPrimary\":");
    if m.is_primary {
        out.append("true");
    } else {
        out.append("false");
    }
    out.append("}");
    assert(final(out)@ =~= old(out)@ + monitor_json(*m));
}

} // verus!
