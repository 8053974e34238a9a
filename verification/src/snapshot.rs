use vstd::prelude::*;

use crate::chart::{ChartInfo, ChartType, LineColor, LineEntry, LineModel, YRange};
use crate::chart::{line_model, lines_model};
use crate::text::{dec_text, json_string, to_json_string, u64_to_dec};

verus! {

/// The given texts joined by commas.
pub open spec fn join_comma(ss: Seq<Seq<char>>) -> Seq<char>
    decreases ss.len(),
{
    if ss.len() == 0 {
        Seq::empty()
    } else if ss.len() == 1 {
        ss[0]
    } else {
        join_comma(ss.drop_last()) + ","@ + ss.last()
    }
}

/// The JSON object of a color: its three channels under `r`, `g`, `b`.
pub open spec fn color_json(c: LineColor) -> Seq<char> {
    "{\"r\":"@ + dec_text(c.r as nat) + ",\"g\":"@ + dec_text(c.g as nat) + ",\"b\":"@ + dec_text(
        c.b as nat,
    ) + "}"@
}

/// One member of the lines object: the label as a JSON string key, mapped
/// to a two-element array of the sample array and the color object.
pub open spec fn entry_json(e: LineModel) -> Seq<char> {
    json_string(e.0) + ":[["@ + join_comma(e.1) + "],"@ + color_json(e.2) + "]"@
}

/// The lines snapshot: a JSON object with one member per line, in storage
/// order.
pub open spec fn lines_json(m: Seq<LineModel>) -> Seq<char> {
    "{"@ + join_comma(m.map_values(|e: LineModel| entry_json(e))) + "}"@
}

/// The retention policy as JSON: the bare tag for `Stack`, the tag mapped
/// to the capacity for `PassThru`.
pub open spec fn chart_type_json(t: ChartType) -> Seq<char> {
    match t {
        ChartType::Stack => "\"Stack\""@,
        ChartType::PassThru(c) => "{\"PassThru\":"@ + dec_text(c as nat) + "}"@,
    }
}

/// The sampling interval as a JSON object of whole seconds and leftover
/// nanoseconds.
pub open spec fn interval_json(ms: u64) -> Seq<char> {
    "{\"secs\":"@ + dec_text((ms as nat) / 1000) + ",\"nanos\":"@ + dec_text(
        ((ms as nat) % 1000) * 1000000,
    ) + "}"@
}

/// The y-axis range as a JSON object; the bounds are already JSON number
/// texts and are spliced in as they stand.
pub open spec fn y_range_json(y: YRange) -> Seq<char> {
    "{\"start\":"@ + y.start@ + ",\"end\":"@ + y.end@ + "}"@
}

/// The metadata snapshot: caption, retention policy, sampling interval and
/// y-axis range, in that order.
pub open spec fn info_json(info: ChartInfo) -> Seq<char> {
    "{\"caption\":"@ + json_string(info.caption@) + ",\"chart_type\":"@ + chart_type_json(
        info.chart_type,
    ) + ",\"interval\":"@ + interval_json(info.interval_ms) + ",\"y_range\":"@ + y_range_json(
        info.y_range,
    ) + "}"@
}

/// Renders the samples of one line, comma-separated.
fn samples_to_json(v: &Vec<String>) -> (r: String)
    ensures
        r@ == join_comma(v.deep_view()),
{
    let mut r = String::new();
    let n: usize = v.len();
    let mut i: usize = 0;
    proof {
        assert(r@ =~= join_comma(v.deep_view().subrange(0, 0)));
    }
    while i < n
        invariant
            n == v@.len(),
            i <= n,
            r@ == join_comma(v.deep_view().subrange(0, i as int)),
        decreases n - i,
    {
        if i > 0 {
            r.append(",");
        }
        r.append(v[i].as_str());
        proof {
            let dv = v.deep_view();
            assert(dv.subrange(0, i + 1).drop_last() =~= dv.subrange(0, i as int));
            assert(dv.subrange(0, i + 1).last() == dv[i as int]);
            assert(r@ =~= join_comma(dv.subrange(0, i + 1)));
        }
        i = i + 1;
    }
    proof {
        assert(v.deep_view().subrange(0, n as int) =~= v.deep_view());
    }
    r
}

/// Renders a color as its JSON object.
fn color_to_json(c: &LineColor) -> (r: String)
    ensures
        r@ == color_json(*c),
{
    let mut r = String::from_str("{\"r\":");
    let rd = u64_to_dec(c.r as u64);
    r.append(rd.as_str());
    r.append(",\"g\":");
    let gd = u64_to_dec(c.g as u64);
    r.append(gd.as_str());
    r.append(",\"b\":");
    let bd = u64_to_dec(c.b as u64);
    r.append(bd.as_str());
    r.append("}");
    proof {
        assert(r@ =~= color_json(*c));
    }
    r
}

/// Renders the lines snapshot of a chart, as [`lines_json`] says.
pub fn lines_to_json(lines: &Vec<LineEntry>) -> (r: String)
    ensures
        r@ == lines_json(lines_model(lines@)),
{
    let ghost ejs = lines_model(lines@).map_values(|e: LineModel| entry_json(e));
    let mut r = String::from_str("{");
    let n: usize = lines.len();
    let mut i: usize = 0;
    proof {
        assert(r@ =~= "{"@ + join_comma(ejs.subrange(0, 0)));
    }
    while i < n
        invariant
            n == lines@.len(),
            i <= n,
            ejs == lines_model(lines@).map_values(|e: LineModel| entry_json(e)),
            ejs.len() == n,
            r@ == "{"@ + join_comma(ejs.subrange(0, i as int)),
        decreases n - i,
    {
        if i > 0 {
            r.append(",");
        }
        let e = &lines[i];
        let key = to_json_string(e.label.as_str());
        r.append(key.as_str());
        r.append(":[[");
        let samples = samples_to_json(&e.samples);
        r.append(samples.as_str());
        r.append("],");
        let color = color_to_json(&e.color);
        r.append(color.as_str());
        r.append("]");
        proof {
            assert(ejs[i as int] == entry_json(line_model(lines@[i as int])));
            assert(ejs.subrange(0, i + 1).drop_last() =~= ejs.subrange(0, i as int));
            assert(ejs.subrange(0, i + 1).last() == ejs[i as int]);
            assert(r@ =~= "{"@ + join_comma(ejs.subrange(0, i + 1)));
        }
        i = i + 1;
    }
    proof {
        assert(ejs.subrange(0, n as int) =~= ejs);
    }
    r.append("}");
    proof {
        assert(r@ =~= lines_json(lines_model(lines@)));
    }
    r
}

/// Renders the metadata snapshot of a chart, as [`info_json`] says.
pub fn info_to_json(info: &ChartInfo) -> (r: String)
    ensures
        r@ == info_json(*info),
{
    let mut r = String::from_str("{\"caption\":");
    let caption = to_json_string(info.caption.as_str());
    r.append(caption.as_str());
    r.append(",\"chart_type\":");
    match info.chart_type {
        ChartType::Stack => {
            r.append("\"Stack\"");
        },
        ChartType::PassThru(c) => {
            r.append("{\"PassThru\":");
            let cd = u64_to_dec(c as u64);
            r.append(cd.as_str());
            r.append("}");
        },
    }
    r.append(",\"interval\":");
    r.append("{\"secs\":");
    let secs = u64_to_dec(info.interval_ms / 1000);
    r.append(secs.as_str());
    r.append(",\"nanos\":");
    let nanos = u64_to_dec((info.interval_ms % 1000) * 1000000);
    r.append(nanos.as_str());
    r.append("}");
    r.append(",\"y_range\":");
    r.append("{\"start\":");
    r.append(info.y_range.start.as_str());
    r.append(",\"end\":");
    r.append(info.y_range.end.as_str());
    r.append("}");
    r.append("}");
    proof {
        assert(r@ =~= info_json(*info));
    }
    r
}

} // verus!
