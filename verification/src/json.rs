//! From lines of text to records: a line is read as a JSON object, and the
//! object's members make a record or are turned down.

use crate::fields::{
    distinct_keys, fields_view, find_field, lookup, lookup_ignores_member_order, same_members,
    Field, FieldView,
};
use crate::level::Level;
use crate::payload::{
    extra_fields, extras, extras_hold, normalize_payload, payload_ignores_member_order,
    payload_text,
};
use crate::record::{instant_or_epoch, parsed_instant, time_layout, Log, LogView};
use vstd::prelude::*;

verus! {

/// What `serde_json` reads from a line: the members of the JSON object that
/// the line holds, in the order in which its map hands them out, or `None`
/// where the line is no JSON or no object. Each member has its key, the
/// content of its value where that is a JSON string, and its value written
/// in compact JSON.
pub uninterp spec fn json_object_members(line: Seq<char>) -> Option<Seq<FieldView>>;

/// Calls `serde_json::from_str` for a `Value` and hands out the members of
/// an object, each with `Value::as_str` and the value's compact text.
/// Trusted: the outcome depends on the line alone.
#[verifier::external_body]
fn decode_object(line: &str) -> (r: Option<Vec<Field>>)
    ensures
        match r {
            Some(fields) => json_object_members(line@) == Some(fields_view(fields@)),
            None => json_object_members(line@).is_none(),
        },
{
    match serde_json::from_str::<serde_json::Value>(line) {
        Ok(serde_json::Value::Object(members)) => Some(
            members.into_iter().map(
                |(key, value)| Field {
                    key,
                    text: value.as_str().map(str::to_owned),
                    json: value.to_string(),
                },
            ).collect(),
        ),
        _ => None,
    }
}

/// The content of a member that must be there and must be a string.
pub open spec fn required_text(fields: Seq<FieldView>, key: Seq<char>) -> Option<Seq<char>> {
    match lookup(fields, key) {
        Some(f) => f.text,
        None => None,
    }
}

/// The content of a member that may be missing, and is then empty, but must
/// be a string where it is there.
pub open spec fn optional_text(fields: Seq<FieldView>, key: Seq<char>) -> Option<Seq<char>> {
    match lookup(fields, key) {
        Some(f) => f.text,
        None => Some(Seq::empty()),
    }
}

/// The record that the members of an object make, or `None` where `level`,
/// `ts` or `msg` is missing or no string, or `caller` is there and no string.
pub open spec fn record_of(fields: Seq<FieldView>) -> Option<LogView> {
    match (
        required_text(fields, "level"@),
        required_text(fields, "ts"@),
        required_text(fields, "msg"@),
        optional_text(fields, "caller"@),
    ) {
        (Some(level), Some(ts), Some(msg), Some(caller)) => Some(
            LogView {
                time: instant_or_epoch(parsed_instant(ts, time_layout())),
                level: Level::of_token(level),
                message: msg,
                caller: caller,
                payload: payload_text(extras(fields)),
            },
        ),
        _ => None,
    }
}

/// The record that a line makes, or `None` where the line is dropped.
pub open spec fn record_of_line(line: Seq<char>) -> Option<LogView> {
    match json_object_members(line) {
        Some(fields) => record_of(fields),
        None => None,
    }
}

/// The records that some lines make, in the order of the lines; a dropped
/// line leaves no gap.
pub open spec fn ingested(lines: Seq<Seq<char>>) -> Seq<LogView>
    decreases lines.len(),
{
    if lines.len() == 0 {
        Seq::empty()
    } else {
        match record_of_line(lines.last()) {
            Some(row) => ingested(lines.drop_last()).push(row),
            None => ingested(lines.drop_last()),
        }
    }
}

/// The lines as plain values.
pub open spec fn lines_view(lines: Seq<String>) -> Seq<Seq<char>> {
    lines.map_values(|l: String| l@)
}

/// The records as plain values.
pub open spec fn logs_view(logs: Seq<Log>) -> Seq<LogView> {
    logs.map_values(|l: Log| l@)
}

/// The record does not depend on the order of the members: two objects with
/// the same members, each key once, give the same record or are both turned
/// down.
pub proof fn record_ignores_member_order(a: Seq<FieldView>, b: Seq<FieldView>)
    requires
        distinct_keys(a),
        distinct_keys(b),
        same_members(a, b),
    ensures
        record_of(a) == record_of(b),
{
    lookup_ignores_member_order(a, b, "level"@);
    lookup_ignores_member_order(a, b, "ts"@);
    lookup_ignores_member_order(a, b, "msg"@);
    lookup_ignores_member_order(a, b, "caller"@);
    extras_hold(a);
    extras_hold(b);
    payload_ignores_member_order(extras(a), extras(b));
}

fn clone_text(found: Option<usize>, fields: &Vec<Field>) -> (r: Option<String>)
    requires
        found matches Some(at) ==> at < fields@.len(),
    ensures
        match (found, r) {
            (Some(at), Some(t)) => fields@[at as int]@.text == Some(t@),
            (Some(at), None) => fields@[at as int]@.text.is_none(),
            (None, Some(t)) => false,
            (None, None) => true,
        },
{
    match found {
        Some(at) => match &fields[at].text {
            Some(t) => Some(t.clone()),
            None => None,
        },
        None => None,
    }
}

/// Makes a record of the members of an object. The object is turned down
/// where `level`, `ts` or `msg` is missing or no string, or `caller` is
/// there and no string.
pub fn record_from_fields(fields: &Vec<Field>) -> (r: Option<Log>)
    ensures
        match r {
            Some(row) => record_of(fields_view(fields@)) == Some(row@),
            None => record_of(fields_view(fields@)).is_none(),
        },
{
    let level = clone_text(find_field(fields, "level"), fields);
    let ts = clone_text(find_field(fields, "ts"), fields);
    let msg = clone_text(find_field(fields, "msg"), fields);
    let caller_at = find_field(fields, "caller");
    let caller = match caller_at {
        Some(_) => clone_text(caller_at, fields),
        None => Some(String::new()),
    };
    match (level, ts, msg, caller) {
        (Some(level), Some(ts), Some(msg), Some(caller)) => {
            let others = extra_fields(fields);
            let payload = normalize_payload(&others);
            Some(
                Log {
                    time: Log::time_from_string(ts),
                    level: Level::from_string(level.as_str()),
                    message: msg,
                    caller: caller,
                    payload: payload,
                },
            )
        },
        _ => None,
    }
}

/// Reads one line. A line that is no JSON object, or whose object lacks a
/// required member, gives `None`.
pub fn parse_line(line: &str) -> (r: Option<Log>)
    ensures
        match r {
            Some(row) => record_of_line(line@) == Some(row@),
            None => record_of_line(line@).is_none(),
        },
{
    match decode_object(line) {
        Some(fields) => record_from_fields(&fields),
        None => None,
    }
}

/// Reads the lines in order and keeps the records of those that can be read.
pub fn ingest(lines: &Vec<String>) -> (r: Vec<Log>)
    ensures
        logs_view(r@) == ingested(lines_view(lines@)),
{
    let mut out: Vec<Log> = Vec::new();
    let mut i: usize = 0;
    proof {
        assert(lines_view(lines@).subrange(0, 0) =~= Seq::<Seq<char>>::empty());
        assert(logs_view(out@) =~= Seq::<LogView>::empty());
    }
    while i < lines.len()
        invariant
            i <= lines@.len(),
            logs_view(out@) == ingested(lines_view(lines@).subrange(0, i as int)),
        decreases lines@.len() - i,
    {
        proof {
            let next = lines_view(lines@).subrange(0, i + 1);
            assert(next.drop_last() =~= lines_view(lines@).subrange(0, i as int));
            assert(next.last() == lines@[i as int]@);
        }
        match parse_line(lines[i].as_str()) {
            Some(row) => {
                let ghost before = out@;
                out.push(row);
                proof {
                    assert(logs_view(out@) =~= logs_view(before).push(row@));
                }
            },
            None => {},
        }
        i += 1;
    }
    proof {
        assert(lines_view(lines@).subrange(0, lines@.len() as int) =~= lines_view(lines@));
    }
    out
}

} // verus!
