//! The CSV log: header row, joined records and the log file's name.
use vstd::prelude::*;
use crate::position::{FixView, PositionFix, opt_view};
use crate::text::{all_ws, clean_line, strip_whitespace, strip_ws, trimmed, no_ws, lemma_strip_ws_has_none};

verus! {

/// The text of an optional field: the field itself, or nothing.
pub open spec fn field_text(o: Option<Seq<char>>) -> Seq<char> {
    match o {
        Some(s) => s,
        None => Seq::empty(),
    }
}

/// The header row (without its line break): the sensor's field names,
/// then the three position columns.
pub open spec fn header_text(sensor_header: Seq<char>) -> Seq<char> {
    sensor_header + ",latitude,longitude,altitude"@
}

/// One record row (without its line break): the payload, then latitude,
/// longitude and altitude, comma-separated, absent fields left empty.
pub open spec fn record_text(payload: Seq<char>, fix: FixView) -> Seq<char> {
    payload + seq![','] + field_text(fix.latitude) + seq![','] + field_text(fix.longitude)
        + seq![','] + field_text(fix.altitude)
}

/// The payload that a raw sensor line carries: its text with all
/// whitespace removed.
pub open spec fn sensor_payload(line: Seq<char>) -> Seq<char> {
    strip_ws(trimmed(line))
}

/// The name of the log file started at the time rendered as `stamp`.
pub open spec fn log_name_text(stamp: Seq<char>) -> Seq<char> {
    "log_"@ + stamp + ".csv"@
}

/// The payload of a sensor line never holds whitespace.
pub proof fn lemma_payload_has_no_ws(line: Seq<char>)
    ensures
        no_ws(sensor_payload(line)),
{
    lemma_strip_ws_has_none(trimmed(line));
}

/// The header row for the sensor field names `sensor_header`.
pub fn header_line(sensor_header: &str) -> (r: String)
    ensures
        r@ == header_text(sensor_header@),
{
    let mut r = String::from_str(sensor_header);
    r.append(",latitude,longitude,altitude");
    r
}

fn append_field(r: &mut String, o: &Option<String>)
    ensures
        final(r)@ == old(r)@ + seq![','] + field_text(opt_view(*o)),
{
    r.append(",");
    proof {
        reveal_strlit(",");
    }
    match o {
        Some(s) => r.append(s.as_str()),
        None => {},
    }
    proof {
        assert(final(r)@ =~= old(r)@ + seq![','] + field_text(opt_view(*o)));
    }
}

/// The record row joining `payload` with the position fix `fix`.
pub fn render_record(payload: &str, fix: &PositionFix) -> (r: String)
    ensures
        r@ == record_text(payload@, fix@),
{
    let mut r = String::from_str(payload);
    append_field(&mut r, &fix.latitude);
    append_field(&mut r, &fix.longitude);
    append_field(&mut r, &fix.altitude);
    r
}

/// The record row for a raw sensor line and the fix read for it, or `None`
/// for a blank line, which yields no record.
pub fn join_line(line: &str, fix: &PositionFix) -> (r: Option<String>)
    ensures
        r is None <==> all_ws(line@),
        r matches Some(t) ==> t@ == record_text(sensor_payload(line@), fix@),
{
    match clean_line(line) {
        None => None,
        Some(cleaned) => {
            let payload = strip_whitespace(cleaned.as_str());
            Some(render_record(payload.as_str(), fix))
        },
    }
}

/// The log file's name for the time rendered as `stamp`.
pub fn log_file_name(stamp: &str) -> (r: String)
    ensures
        r@ == log_name_text(stamp@),
{
    let mut r = String::from_str("log_");
    r.append(stamp);
    r.append(".csv");
    r
}

} // verus!
