//! The dashboard: the state of the control loop as an SVG picture, served over
//! HTTP.

use vstd::prelude::*;
use vstd::string::*;

use crate::control::ControlMetrics;
use crate::ratio::Ratio;
use crate::text::{
    decimal, decimal_text, is_writable, one_place, one_place_text, two_places, two_places_text,
};

verus! {

/// Time between two pictures, in ms.
pub const RENDER_PERIOD_MS: u64 = 500;

/// Least span of values that a chart shows: a thousandth of a unit.
pub const MIN_RANGE: i64 = 1_000;

/// What the dashboard shows.
pub struct MetricsSnapshot {
    pub force: Vec<i64>,
    pub position: Vec<i64>,
    pub temperature: Vec<i64>,
    pub gripper: Vec<i64>,
    pub motor: Vec<i64>,
    pub stabiliser: Vec<i64>,
    pub jitter_mean_us: Ratio,
    /// Greatest jitter, where there was any reading.
    pub jitter_max_us: Option<u64>,
    pub proc_latency_us: Ratio,
    pub e2e_latency_ns: Ratio,
    pub proc_misses: u64,
    pub act_misses: u64,
    pub ipc_dropped: u64,
    pub iterations: u64,
}

impl MetricsSnapshot {
    /// Every quotient can be written out.
    pub open spec fn wf(&self) -> bool {
        &&& is_writable(self.jitter_mean_us.num, self.jitter_mean_us.den)
        &&& is_writable(self.proc_latency_us.num, self.proc_latency_us.den)
        &&& 0 < self.e2e_latency_ns.den <= u64::MAX
        &&& is_writable(self.e2e_latency_ns.num, self.e2e_latency_ns.den)
    }

    /// Copies what the dashboard shows out of the measurements.
    pub fn take(m: &ControlMetrics) -> (s: Self)
        ensures
            s.wf(),
            s.force@ == m@.force_values,
            s.position@ == m@.position_values,
            s.temperature@ == m@.temperature_values,
            s.gripper@ == m@.gripper_values,
            s.motor@ == m@.motor_values,
            s.stabiliser@ == m@.stabiliser_values,
            s.jitter_mean_us.is_mean_of(m@.sensor_jitter_us),
            s.proc_latency_us.is_mean_of(m@.processing_latency_us),
            s.e2e_latency_ns.is_mean_of(m@.e2e_latency_ns),
            s.jitter_max_us is None <==> m@.sensor_jitter_us.len() == 0,
            s.jitter_max_us matches Some(max) ==> m@.sensor_jitter_us.contains(max) && forall|
                i: int,
            |
                0 <= i < m@.sensor_jitter_us.len() ==> #[trigger] m@.sensor_jitter_us[i] <= max,
            s.proc_misses == m@.processor_deadline_misses,
            s.act_misses == m@.actuator_deadline_misses,
            s.ipc_dropped == m@.ipc_packets_dropped,
            s.iterations == m@.total_loop_iterations,
    {
        MetricsSnapshot {
            force: m.force_values.snapshot(),
            position: m.position_values.snapshot(),
            temperature: m.temperature_values.snapshot(),
            gripper: m.gripper_values.snapshot(),
            motor: m.motor_values.snapshot(),
            stabiliser: m.stabiliser_values.snapshot(),
            jitter_mean_us: m.sensor_jitter_us.mean(),
            jitter_max_us: m.sensor_jitter_us.max(),
            proc_latency_us: m.processing_latency_us.mean(),
            e2e_latency_ns: m.e2e_latency_ns.mean(),
            proc_misses: m.processor_deadline_misses,
            act_misses: m.actuator_deadline_misses,
            ipc_dropped: m.ipc_packets_dropped,
            iterations: m.total_loop_iterations,
        }
    }
}

/// What is shown while there is no picture yet.
pub open spec fn placeholder_text() -> Seq<char> {
    "<svg xmlns='http://www.w3.org/2000/svg' width='800' height='400'><rect width='800' height='400' fill='#1a1a2e'/><text x='400' y='200' fill='#e0e0e0' font-size='20' text-anchor='middle'>Waiting for data…</text></svg>"@
}

/// The picture so far, with the card of a key figure behind it: the `i`-th of
/// rows of four.
pub open spec fn with_card(
    svg: Seq<char>,
    i: nat,
    label: Seq<char>,
    value: Seq<char>,
) -> Seq<char> {
    let x = 20 + i % 4 * 220;
    let y = 55 + i / 4 * 60;
    svg + "<rect x='"@ + decimal_text(x) + "' y='"@ + decimal_text(y)
        + "' width='200' height='50' rx='6' fill='#16213e'/>\n<text x='"@ + decimal_text(x + 10)
        + "' y='"@ + decimal_text(y + 16) + "' fill='#a0b4d0' font-size='11'>"@ + label
        + "</text>\n<text x='"@ + decimal_text(x + 10) + "' y='"@ + decimal_text(y + 40)
        + "' fill='#00d4ff' font-size='18' font-weight='bold'>"@ + value + "</text>\n"@
}

/// Draws the card of a key figure.
fn push_card(svg: &mut String, i: usize, label: &str, value: &str)
    requires
        i < 8,
    ensures
        final(svg)@ == with_card(old(svg)@, i as nat, label@, value@),
{
    let x: u128 = 20 + i as u128 % 4 * 220;
    let y: u128 = 55 + i as u128 / 4 * 60;
    svg.append("<rect x='");
    svg.append(decimal(x).as_str());
    svg.append("' y='");
    svg.append(decimal(y).as_str());
    svg.append("' width='200' height='50' rx='6' fill='#16213e'/>\n<text x='");
    svg.append(decimal(x + 10).as_str());
    svg.append("' y='");
    svg.append(decimal(y + 16).as_str());
    svg.append("' fill='#a0b4d0' font-size='11'>");
    svg.append(label);
    svg.append("</text>\n<text x='");
    svg.append(decimal(x + 10).as_str());
    svg.append("' y='");
    svg.append(decimal(y + 40).as_str());
    svg.append("' fill='#00d4ff' font-size='18' font-weight='bold'>");
    svg.append(value);
    svg.append("</text>\n");
}

/// The least value.
pub open spec fn least(data: Seq<i64>) -> i64
    recommends
        data.len() > 0,
    decreases data.len(),
{
    if data.len() <= 1 || data.last() <= least(data.drop_last()) {
        data.last()
    } else {
        least(data.drop_last())
    }
}

/// The greatest value.
pub open spec fn greatest(data: Seq<i64>) -> i64
    recommends
        data.len() > 0,
    decreases data.len(),
{
    if data.len() <= 1 || data.last() >= greatest(data.drop_last()) {
        data.last()
    } else {
        greatest(data.drop_last())
    }
}

/// Every value lies between the least and the greatest one.
pub proof fn lemma_extremes(data: Seq<i64>, i: int)
    requires
        0 <= i < data.len(),
    ensures
        least(data) <= data[i] <= greatest(data),
    decreases data.len(),
{
    if i < data.len() - 1 {
        lemma_extremes(data.drop_last(), i);
    }
}

/// Span of values that the chart shows.
pub open spec fn range_of(data: Seq<i64>) -> int {
    if greatest(data) - least(data) > MIN_RANGE {
        greatest(data) - least(data)
    } else {
        MIN_RANGE as int
    }
}

/// Horizontal place of the `i`-th value in a chart at `x` of width `w`.
pub open spec fn point_x(x: nat, w: nat, data: Seq<i64>, i: int) -> nat {
    x + ((i * w) / (data.len() as int)) as nat
}

/// Vertical place of the `i`-th value in a chart at `y` of height `h`: the
/// least value stands at the bottom, the greatest 20 below the top or lower.
pub open spec fn point_y(y: nat, h: nat, data: Seq<i64>, i: int) -> nat {
    (y + h - ((data[i] - least(data)) * (h - 20)) / range_of(data)) as nat
}

/// No point leaves its chart.
pub proof fn lemma_points_stay_inside(x: nat, y: nat, w: nat, h: nat, data: Seq<i64>, i: int)
    requires
        0 <= i < data.len(),
        h >= 20,
    ensures
        x <= point_x(x, w, data, i) <= x + w,
        y + 20 <= point_y(y, h, data, i) <= y + h,
        0 <= (i * w) / (data.len() as int) <= w,
        0 <= ((data[i] - least(data)) * (h - 20)) / range_of(data) <= h - 20,
{
    lemma_extremes(data, i);
    let n = data.len() as int;
    let ww = w as int;
    assert(0 <= (i * ww) / n <= ww) by (nonlinear_arith)
        requires
            0 <= i < n,
            ww >= 0,
    ;
    let d = data[i] - least(data);
    let r = range_of(data);
    let k = h - 20;
    assert(0 <= (d * k) / r <= k) by (nonlinear_arith)
        requires
            0 <= d <= r,
            r > 0,
            k >= 0,
    ;
}

/// The first `n` points of a chart, with blanks between them.
pub open spec fn points_text(x: nat, y: nat, w: nat, h: nat, data: Seq<i64>, n: int) -> Seq<char>
    decreases n,
{
    if n <= 0 {
        Seq::empty()
    } else {
        let point = decimal_text(point_x(x, w, data, n - 1)) + ","@ + decimal_text(
            point_y(y, h, data, n - 1),
        );
        if n == 1 {
            point
        } else {
            points_text(x, y, w, h, data, n - 1) + " "@ + point
        }
    }
}

/// The picture so far, with a chart at `x`, `y` behind it; without one where
/// there are no values.
pub open spec fn with_chart(
    svg: Seq<char>,
    x: nat,
    y: nat,
    w: nat,
    h: nat,
    label: Seq<char>,
    data: Seq<i64>,
    colour: Seq<char>,
) -> Seq<char> {
    if data.len() == 0 {
        svg
    } else {
        svg + "<rect x='"@ + decimal_text(x) + "' y='"@ + decimal_text(y) + "' width='"@
            + decimal_text(w) + "' height='"@ + decimal_text(h) + "' rx='4' fill='#0f3460'/>\n<text x='"@
            + decimal_text(x + 6) + "' y='"@ + decimal_text(y + 14)
            + "' fill='#a0b4d0' font-size='10'>"@ + label + "</text>\n<polyline points='"@
            + points_text(x, y, w, h, data, data.len() as int) + "' fill='none' stroke='"@ + colour
            + "' stroke-width='1.5'/>\n"@
    }
}

/// Draws the line of values of a chart.
fn points(x: usize, y: usize, w: usize, h: usize, data: &Vec<i64>) -> (line: String)
    requires
        data.len() > 0,
        x < 10_000,
        y < 10_000,
        w < 10_000,
        20 <= h < 10_000,
    ensures
        line@ == points_text(x as nat, y as nat, w as nat, h as nat, data@, data.len() as int),
{
    let n: usize = data.len();
    let mut low: i64 = data[0];
    let mut high: i64 = data[0];
    assert(data@.take(1).last() == data[0]);
    for i in 1..n
        invariant
            n == data.len(),
            low == least(data@.take(i as int)),
            high == greatest(data@.take(i as int)),
    {
        let v: i64 = data[i];
        assert(data@.take(i as int + 1).drop_last() =~= data@.take(i as int));
        if v <= low {
            low = v;
        }
        if v >= high {
            high = v;
        }
    }
    assert(data@.take(n as int) =~= data@);
    let mut range: i128 = high as i128 - low as i128;
    if range <= MIN_RANGE as i128 {
        range = MIN_RANGE as i128;
    }
    let mut line = String::new();
    for i in 0..n
        invariant
            n == data.len(),
            low == least(data@),
            high == greatest(data@),
            range == range_of(data@),
            0 < range <= 0x1_0000_0000_0000_0000,
            x < 10_000,
            y < 10_000,
            w < 10_000,
            20 <= h < 10_000,
            line@ == points_text(x as nat, y as nat, w as nat, h as nat, data@, i as int),
    {
        proof {
            lemma_points_stay_inside(x as nat, y as nat, w as nat, h as nat, data@, i as int);
            lemma_extremes(data@, i as int);
            let d = data[i as int] - low;
            let k = h - 20;
            assert(0 <= d * k <= 0x1_0000_0000_0000_0000 * 10_000) by (nonlinear_arith)
                requires
                    0 <= d <= 0x1_0000_0000_0000_0000,
                    0 <= k <= 10_000,
            ;
            assert(0 <= i * w <= 0x1_0000_0000_0000_0000 * 10_000) by (nonlinear_arith)
                requires
                    0 <= i <= 0x1_0000_0000_0000_0000,
                    0 <= w <= 10_000,
            ;
        }
        let px: u128 = x as u128 + i as u128 * w as u128 / n as u128;
        let rise: i128 = data[i] as i128 - low as i128;
        let up: u128 = rise as u128 * (h - 20) as u128 / range as u128;
        let py: u128 = y as u128 + h as u128 - up;
        let ghost so_far = line@;
        if i > 0 {
            line.append(" ");
        }
        line.append(decimal(px).as_str());
        line.append(",");
        line.append(decimal(py).as_str());
        proof {
            let point = decimal_text(px as nat) + ","@ + decimal_text(py as nat);
            assert(px == point_x(x as nat, w as nat, data@, i as int));
            assert(py == point_y(y as nat, h as nat, data@, i as int));
            if i > 0 {
                assert(line@ =~= so_far + " "@ + point);
            } else {
                assert(line@ =~= point);
            }
        }
    }
    line
}

/// Draws a chart.
fn push_chart(
    svg: &mut String,
    x: usize,
    y: usize,
    w: usize,
    h: usize,
    label: &str,
    data: &Vec<i64>,
    colour: &str,
)
    requires
        x < 10_000,
        y < 10_000,
        w < 10_000,
        20 <= h < 10_000,
    ensures
        final(svg)@ == with_chart(
            old(svg)@,
            x as nat,
            y as nat,
            w as nat,
            h as nat,
            label@,
            data@,
            colour@,
        ),
{
    if data.len() == 0 {
        return;
    }
    svg.append("<rect x='");
    svg.append(decimal(x as u128).as_str());
    svg.append("' y='");
    svg.append(decimal(y as u128).as_str());
    svg.append("' width='");
    svg.append(decimal(w as u128).as_str());
    svg.append("' height='");
    svg.append(decimal(h as u128).as_str());
    svg.append("' rx='4' fill='#0f3460'/>\n<text x='");
    svg.append(decimal(x as u128 + 6).as_str());
    svg.append("' y='");
    svg.append(decimal(y as u128 + 14).as_str());
    svg.append("' fill='#a0b4d0' font-size='10'>");
    svg.append(label);
    svg.append("</text>\n<polyline points='");
    svg.append(points(x, y, w, h, data).as_str());
    svg.append("' fill='none' stroke='");
    svg.append(colour);
    svg.append("' stroke-width='1.5'/>\n");
}

/// The greatest jitter as text; without readings it is below every number.
pub open spec fn max_text(max: Option<u64>) -> Seq<char> {
    match max {
        Some(us) => decimal_text(us as nat) + ".0"@,
        None => "-inf"@,
    }
}

fn max_label(max: Option<u64>) -> (text: String)
    ensures
        text@ == max_text(max),
{
    match max {
        Some(us) => {
            let mut text = decimal(us as u128);
            text.append(".0");
            text
        },
        None => "-inf".to_owned(),
    }
}

/// The heading of the picture.
pub open spec fn heading_text() -> Seq<char> {
    "<svg xmlns='http://www.w3.org/2000/svg' width='900' height='600'>\n<rect width='100%' height='100%' fill='#1a1a2e'/>\n<text x='450' y='30' fill='#e0e0e0' font-size='16' font-weight='bold' text-anchor='middle'>Real-Time System Dashboard</text>\n"@
}

/// The picture so far, with the eight cards of key figures behind it.
pub open spec fn with_cards(svg: Seq<char>, s: &MetricsSnapshot) -> Seq<char> {
    let jitter_mean = one_place_text(s.jitter_mean_us.num as nat, s.jitter_mean_us.den as nat);
    let proc_latency = one_place_text(s.proc_latency_us.num as nat, s.proc_latency_us.den as nat);
    let e2e_latency_ms = two_places_text(
        s.e2e_latency_ns.num as nat,
        (s.e2e_latency_ns.den * 1_000_000) as nat,
    );
    let svg = with_card(svg, 0, "Iterations"@, decimal_text(s.iterations as nat));
    let svg = with_card(svg, 1, "Proc Misses"@, decimal_text(s.proc_misses as nat));
    let svg = with_card(svg, 2, "Act Misses"@, decimal_text(s.act_misses as nat));
    let svg = with_card(svg, 3, "IPC Dropped"@, decimal_text(s.ipc_dropped as nat));
    let svg = with_card(svg, 4, "Jitter (mean)"@, jitter_mean + "µs"@);
    let svg = with_card(svg, 5, "Jitter (max)"@, max_text(s.jitter_max_us) + "µs"@);
    let svg = with_card(svg, 6, "Proc Lat"@, proc_latency + "µs"@);
    with_card(svg, 7, "E2E Lat"@, e2e_latency_ms + "ms"@)
}

/// The picture so far, with the six charts, in rows of three, behind it.
pub open spec fn with_charts(svg: Seq<char>, s: &MetricsSnapshot) -> Seq<char> {
    let svg = with_chart(svg, 20, 195, 270, 160, "Force (N)"@, s.force@, "#ff6b6b"@);
    let svg = with_chart(svg, 315, 195, 270, 160, "Position (mm)"@, s.position@, "#4ecdc4"@);
    let svg = with_chart(svg, 610, 195, 270, 160, "Temp (°C)"@, s.temperature@, "#ffd93d"@);
    let svg = with_chart(svg, 20, 385, 270, 160, "Gripper PID"@, s.gripper@, "#c9b1ff"@);
    let svg = with_chart(svg, 315, 385, 270, 160, "Motor PID"@, s.motor@, "#ff9a3c"@);
    with_chart(svg, 610, 385, 270, 160, "Stabiliser PID"@, s.stabiliser@, "#6bcb77"@)
}

/// The whole picture.
pub open spec fn svg_text(s: &MetricsSnapshot) -> Seq<char> {
    with_charts(with_cards(heading_text(), s), s) + "</svg>"@
}

/// Draws the cards.
fn push_cards(svg: &mut String, s: &MetricsSnapshot)
    requires
        s.wf(),
    ensures
        final(svg)@ == with_cards(old(svg)@, s),
{
    push_card(svg, 0, "Iterations", decimal(s.iterations as u128).as_str());
    push_card(svg, 1, "Proc Misses", decimal(s.proc_misses as u128).as_str());
    push_card(svg, 2, "Act Misses", decimal(s.act_misses as u128).as_str());
    push_card(svg, 3, "IPC Dropped", decimal(s.ipc_dropped as u128).as_str());
    let mut jitter_mean = one_place(s.jitter_mean_us.num, s.jitter_mean_us.den);
    jitter_mean.append("µs");
    push_card(svg, 4, "Jitter (mean)", jitter_mean.as_str());
    let mut jitter_max = max_label(s.jitter_max_us);
    jitter_max.append("µs");
    push_card(svg, 5, "Jitter (max)", jitter_max.as_str());
    let mut latency = one_place(s.proc_latency_us.num, s.proc_latency_us.den);
    latency.append("µs");
    push_card(svg, 6, "Proc Lat", latency.as_str());
    assert(s.e2e_latency_ns.num <= (s.e2e_latency_ns.den * 1_000_000) * u64::MAX)
        by (nonlinear_arith)
        requires
            s.e2e_latency_ns.num <= s.e2e_latency_ns.den * u64::MAX,
            s.e2e_latency_ns.den > 0,
    ;
    let mut e2e = two_places(s.e2e_latency_ns.num, s.e2e_latency_ns.den * 1_000_000);
    e2e.append("ms");
    push_card(svg, 7, "E2E Lat", e2e.as_str());
}

/// Draws the charts.
fn push_charts(svg: &mut String, s: &MetricsSnapshot)
    ensures
        final(svg)@ == with_charts(old(svg)@, s),
{
    push_chart(svg, 20, 195, 270, 160, "Force (N)", &s.force, "#ff6b6b");
    push_chart(svg, 315, 195, 270, 160, "Position (mm)", &s.position, "#4ecdc4");
    push_chart(svg, 610, 195, 270, 160, "Temp (°C)", &s.temperature, "#ffd93d");
    push_chart(svg, 20, 385, 270, 160, "Gripper PID", &s.gripper, "#c9b1ff");
    push_chart(svg, 315, 385, 270, 160, "Motor PID", &s.motor, "#ff9a3c");
    push_chart(svg, 610, 385, 270, 160, "Stabiliser PID", &s.stabiliser, "#6bcb77");
}

/// Draws the whole picture.
pub fn render_svg(s: &MetricsSnapshot) -> (svg: String)
    requires
        s.wf(),
    ensures
        svg@ == svg_text(s),
{
    let mut svg = "<svg xmlns='http://www.w3.org/2000/svg' width='900' height='600'>\n<rect width='100%' height='100%' fill='#1a1a2e'/>\n<text x='450' y='30' fill='#e0e0e0' font-size='16' font-weight='bold' text-anchor='middle'>Real-Time System Dashboard</text>\n".to_owned();
    push_cards(&mut svg, s);
    push_charts(&mut svg, s);
    svg.append("</svg>");
    svg
}

/// The answer of the web server to any request: the picture, with its length
/// in bytes.
pub open spec fn response_text(svg: Seq<char>) -> Seq<char> {
    let bytes = vstd::utf8::encode_utf8(svg).len() as usize;
    "HTTP/1.1 200 OK\r\nContent-Type: image/svg+xml\r\nContent-Length: "@ + decimal_text(
        bytes as nat,
    )
        + "\r\nCache-Control: no-cache\r\nAccess-Control-Allow-Origin: *\r\n\r\n"@ + svg
}

/// The dashboard, with the latest picture.
pub struct Dashboard {
    svg: String,
}

impl View for Dashboard {
    type V = Seq<char>;

    closed spec fn view(&self) -> Seq<char> {
        self.svg@
    }
}

impl Dashboard {
    pub fn new() -> (dashboard: Self)
        ensures
            dashboard@ == placeholder_text(),
    {
        Dashboard {
            svg:
                "<svg xmlns='http://www.w3.org/2000/svg' width='800' height='400'><rect width='800' height='400' fill='#1a1a2e'/><text x='400' y='200' fill='#e0e0e0' font-size='20' text-anchor='middle'>Waiting for data…</text></svg>".to_owned(),
        }
    }

    /// Shows a new picture.
    pub fn show(&mut self, svg: String)
        ensures
            final(self)@ == svg@,
    {
        self.svg = svg;
    }

    /// The answer of the web server.
    pub fn response(&self) -> (response: String)
        ensures
            response@ == response_text(self@),
    {
        let mut response =
            "HTTP/1.1 200 OK\r\nContent-Type: image/svg+xml\r\nContent-Length: ".to_owned();
        response.append(decimal(self.svg.as_str().len() as u128).as_str());
        response.append(
            "\r\nCache-Control: no-cache\r\nAccess-Control-Allow-Origin: *\r\n\r\n",
        );
        response.append(self.svg.as_str());
        response
    }
}

/// The least and the greatest value are values of the row.
pub proof fn lemma_extremes_occur(data: Seq<i64>)
    requires
        data.len() > 0,
    ensures
        data.contains(least(data)),
        data.contains(greatest(data)),
    decreases data.len(),
{
    let n = data.len() as int;
    assert(data.last() == data[n - 1]);
    if n > 1 {
        let head = data.drop_last();
        lemma_extremes_occur(head);
        let i = choose|i: int| 0 <= i < head.len() && head[i] == least(head);
        let j = choose|j: int| 0 <= j < head.len() && head[j] == greatest(head);
        assert(data[i] == head[i]);
        assert(data[j] == head[j]);
    }
}

/// Where a chart draws its values: from left to right, evenly over its width; the
/// least at the bottom, and every other as much higher as it exceeds the least,
/// in the scale in which the span of the values, or a thousandth of a unit where
/// they span less, takes up the height but for 20.
pub proof fn lemma_where_points_stand(x: nat, y: nat, w: nat, h: nat, data: Seq<i64>, i: int)
    requires
        0 <= i < data.len(),
        h >= 20,
    ensures
        ({
            let n = data.len() as int;
            let across = point_x(x, w, data, i) - x;
            let up = y + h - point_y(y, h, data, i);
            let span = if greatest(data) - least(data) > 1_000 {
                greatest(data) - least(data)
            } else {
                1_000
            };
            &&& n * across <= i * w < n * (across + 1)
            &&& span * up <= (data[i] - least(data)) * (h - 20) < span * (up + 1)
            &&& data[i] == least(data) ==> point_y(y, h, data, i) == y + h
            &&& data[i] == greatest(data) && greatest(data) - least(data) > 1_000 ==> point_y(
                y,
                h,
                data,
                i,
            ) == y + 20
        }),
{
    lemma_points_stay_inside(x, y, w, h, data, i);
    let n = data.len() as int;
    let a = i * w;
    let r = range_of(data);
    let k = h - 20;
    let d = data[i] - least(data);
    let b = d * k;
    vstd::arithmetic::div_mod::lemma_fundamental_div_mod(a, n);
    vstd::arithmetic::div_mod::lemma_mod_bound(a, n);
    vstd::arithmetic::div_mod::lemma_fundamental_div_mod(b, r);
    vstd::arithmetic::div_mod::lemma_mod_bound(b, r);
    let p = a / n;
    let q = b / r;
    assert(n * (p + 1) == n * p + n) by (nonlinear_arith);
    assert(r * (q + 1) == r * q + r) by (nonlinear_arith);
    if d == 0 {
        assert(b == 0) by (nonlinear_arith)
            requires
                b == d * k,
                d == 0,
        ;
        assert(q == 0) by (nonlinear_arith)
            requires
                q == 0int / r,
                r > 0,
        ;
    }
    if d == r {
        assert(q == k) by (nonlinear_arith)
            requires
                r * q <= d * k < r * (q + 1),
                d == r,
                r > 0,
        ;
    }
}

/// The line of a chart has a point per value, in their order.
pub proof fn lemma_points_in_order(x: nat, y: nat, w: nat, h: nat, data: Seq<i64>, n: int)
    requires
        0 < n <= data.len(),
    ensures
        ({
            let point = decimal_text(point_x(x, w, data, n - 1)) + ","@ + decimal_text(
                point_y(y, h, data, n - 1),
            );
            &&& n == 1 ==> points_text(x, y, w, h, data, n) == point
            &&& n > 1 ==> points_text(x, y, w, h, data, n) == points_text(x, y, w, h, data, n - 1)
                + " "@ + point
        }),
{
}

/// A card stands in its place of a grid of four in a row, 220 apart across and 60
/// apart down, and shows its label and then its value.
pub proof fn lemma_card_place(
    svg: Seq<char>,
    row: nat,
    column: nat,
    label: Seq<char>,
    value: Seq<char>,
)
    requires
        column < 4,
    ensures
        with_card(svg, 4 * row + column, label, value) == svg + "<rect x='"@ + decimal_text(
            20 + 220 * column,
        ) + "' y='"@ + decimal_text(55 + 60 * row)
            + "' width='200' height='50' rx='6' fill='#16213e'/>\n<text x='"@ + decimal_text(
            30 + 220 * column,
        ) + "' y='"@ + decimal_text(71 + 60 * row) + "' fill='#a0b4d0' font-size='11'>"@ + label
            + "</text>\n<text x='"@ + decimal_text(30 + 220 * column) + "' y='"@ + decimal_text(
            95 + 60 * row,
        ) + "' fill='#00d4ff' font-size='18' font-weight='bold'>"@ + value + "</text>\n"@,
{
    let i = 4 * row + column;
    assert(i % 4 == column && i / 4 == row);
}

/// A chart without values is not drawn; any other adds to the picture.
pub proof fn lemma_empty_chart_is_left_out(
    svg: Seq<char>,
    x: nat,
    y: nat,
    w: nat,
    h: nat,
    label: Seq<char>,
    data: Seq<i64>,
    colour: Seq<char>,
)
    ensures
        data.len() == 0 ==> with_chart(svg, x, y, w, h, label, data, colour) == svg,
        data.len() > 0 ==> with_chart(svg, x, y, w, h, label, data, colour).len() >= svg.len()
            + label.len() + points_text(x, y, w, h, data, data.len() as int).len() + colour.len(),
{
}

/// The answer of the web server ends with the picture, and its length line gives
/// the number of bytes of the picture.
pub proof fn lemma_response(svg: Seq<char>)
    requires
        vstd::utf8::encode_utf8(svg).len() <= usize::MAX,
    ensures
        response_text(svg)
            == "HTTP/1.1 200 OK\r\nContent-Type: image/svg+xml\r\nContent-Length: "@ + decimal_text(
            vstd::utf8::encode_utf8(svg).len(),
        ) + "\r\nCache-Control: no-cache\r\nAccess-Control-Allow-Origin: *\r\n\r\n"@ + svg,
{
}

/// The key figures of the picture, in their places: counts as they are, jitter and
/// processing time in microseconds with one decimal place, the end-to-end time in
/// milliseconds with two. Without any jitter the greatest is below every number.
pub proof fn lemma_key_figures(svg: Seq<char>, s: &MetricsSnapshot)
    ensures
        ({
            let mean = one_place_text(s.jitter_mean_us.num as nat, s.jitter_mean_us.den as nat);
            let time = one_place_text(s.proc_latency_us.num as nat, s.proc_latency_us.den as nat);
            let whole = two_places_text(
                s.e2e_latency_ns.num as nat,
                (s.e2e_latency_ns.den * 1_000_000) as nat,
            );
            let a = with_card(svg, 0, "Iterations"@, decimal_text(s.iterations as nat));
            let b = with_card(a, 1, "Proc Misses"@, decimal_text(s.proc_misses as nat));
            let c = with_card(b, 2, "Act Misses"@, decimal_text(s.act_misses as nat));
            let d = with_card(c, 3, "IPC Dropped"@, decimal_text(s.ipc_dropped as nat));
            let e = with_card(d, 4, "Jitter (mean)"@, mean + "µs"@);
            let f = with_card(e, 5, "Jitter (max)"@, max_text(s.jitter_max_us) + "µs"@);
            let g = with_card(f, 6, "Proc Lat"@, time + "µs"@);
            with_cards(svg, s) == with_card(g, 7, "E2E Lat"@, whole + "ms"@)
        }),
        max_text(None) == "-inf"@,
        s.jitter_max_us matches Some(us) ==> max_text(s.jitter_max_us) == decimal_text(us as nat)
            + ".0"@,
{
}

/// The charts of the picture: three in a row, 295 apart across and 190 apart down,
/// each 270 wide and 160 high; the sensors above, what they drive below.
pub proof fn lemma_charts(svg: Seq<char>, s: &MetricsSnapshot)
    ensures
        with_charts(svg, s) == with_chart(
            with_chart(
                with_chart(
                    with_chart(
                        with_chart(
                            with_chart(
                                svg,
                                20,
                                195,
                                270,
                                160,
                                "Force (N)"@,
                                s.force@,
                                "#ff6b6b"@,
                            ),
                            20 + 295,
                            195,
                            270,
                            160,
                            "Position (mm)"@,
                            s.position@,
                            "#4ecdc4"@,
                        ),
                        20 + 2 * 295,
                        195,
                        270,
                        160,
                        "Temp (°C)"@,
                        s.temperature@,
                        "#ffd93d"@,
                    ),
                    20,
                    195 + 190,
                    270,
                    160,
                    "Gripper PID"@,
                    s.gripper@,
                    "#c9b1ff"@,
                ),
                20 + 295,
                195 + 190,
                270,
                160,
                "Motor PID"@,
                s.motor@,
                "#ff9a3c"@,
            ),
            20 + 2 * 295,
            195 + 190,
            270,
            160,
            "Stabiliser PID"@,
            s.stabiliser@,
            "#6bcb77"@,
        ),
        svg_text(s) == with_charts(with_cards(heading_text(), s), s) + "</svg>"@,
{
}

} // verus!
