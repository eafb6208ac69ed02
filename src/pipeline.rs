//! From log lines to output text: envelope, unescape, decode, project.
use vstd::prelude::*;
use crate::text::{decimal, signed_decimal, join, chars_of, string_of, push_all};
use crate::ids::{uuid_text, uuid_member};
use crate::json::{Json, parsed_json, parse_json, text_member, u32_member, i32_member};
use crate::envelope::{envelope_fields, unescape, parse_envelope, unescape_body};
use crate::events::{
    members, result_items, search_decodes, click_decodes, visit_decodes, EventAggSearch,
    EventAggClick, EventAggVisit,
};
use crate::selector::EventTypes;
use crate::tsv::Tsv;

verus! {

/// The row of a search payload's members.
pub open spec fn search_row(ms: Seq<(String, Json)>) -> Seq<char> {
    join(
        seq![
            decimal(u32_member(ms, "timestamp"@).unwrap() as nat),
            uuid_text(uuid_member(ms, "eventId"@).unwrap() as nat),
            uuid_text(uuid_member(ms, "widgetId"@).unwrap() as nat),
            uuid_text(uuid_member(ms, "userId"@).unwrap() as nat),
            uuid_text(uuid_member(ms, "sessionId"@).unwrap() as nat),
            text_member(ms, "query"@).unwrap(),
            text_member(ms, "filter"@).unwrap(),
            decimal(u32_member(ms, "from"@).unwrap() as nat),
            decimal(u32_member(ms, "size"@).unwrap() as nat),
            signed_decimal(i32_member(ms, "total"@).unwrap() as int),
        ],
        '\t',
    )
}

/// The fields of one hit: track, item, item type, position.
pub open spec fn item_row(j: Json) -> Seq<char> {
    let ims = members(j).unwrap();
    join(
        seq![
            uuid_text(uuid_member(ims, "trackId"@).unwrap() as nat),
            uuid_text(uuid_member(ims, "itemId"@).unwrap() as nat),
            text_member(ims, "itemType"@).unwrap(),
            decimal(u32_member(ims, "position"@).unwrap() as nat),
        ],
        '\t',
    )
}

/// The row of hit `k` of a search payload.
pub open spec fn result_row(ms: Seq<(String, Json)>, k: int) -> Seq<char> {
    join(
        seq![
            decimal(u32_member(ms, "timestamp"@).unwrap() as nat),
            uuid_text(uuid_member(ms, "eventId"@).unwrap() as nat),
            item_row(result_items(ms).unwrap()[k]),
        ],
        '\t',
    )
}

/// The rows of all hits of a search payload, with a newline between each two.
pub open spec fn result_block(ms: Seq<(String, Json)>) -> Seq<char> {
    join(Seq::new(result_items(ms).unwrap().len(), |k: int| result_row(ms, k)), '\n')
}

/// The row of a click payload's members.
pub open spec fn click_row(ms: Seq<(String, Json)>) -> Seq<char> {
    join(
        seq![
            decimal(u32_member(ms, "timestamp"@).unwrap() as nat),
            uuid_text(uuid_member(ms, "eventId"@).unwrap() as nat),
            uuid_text(uuid_member(ms, "trackId"@).unwrap() as nat),
        ],
        '\t',
    )
}

/// The row of a visit payload's members.
pub open spec fn visit_row(ms: Seq<(String, Json)>) -> Seq<char> {
    join(
        seq![
            decimal(u32_member(ms, "timestamp"@).unwrap() as nat),
            uuid_text(uuid_member(ms, "eventId"@).unwrap() as nat),
            uuid_text(uuid_member(ms, "trackId"@).unwrap() as nat),
            decimal(u32_member(ms, "timeElapsed"@).unwrap() as nat),
        ],
        '\t',
    )
}

/// The payload decodes under the selector's schema.
pub open spec fn payload_decodes(sel: EventTypes, j: Json) -> bool {
    match members(j) {
        Some(ms) => match sel {
            EventTypes::Search | EventTypes::Result => search_decodes(ms),
            EventTypes::Click => click_decodes(ms),
            EventTypes::Visit => visit_decodes(ms),
        },
        None => false,
    }
}

/// What is written for one payload: nothing where it does not decode; else its rows,
/// each ended by a newline.
pub open spec fn payload_output(sel: EventTypes, j: Json) -> Seq<char> {
    if !payload_decodes(sel, j) {
        Seq::empty()
    } else {
        let ms = members(j).unwrap();
        match sel {
            EventTypes::Search => search_row(ms).push('\n'),
            EventTypes::Result => if result_items(ms).unwrap().len() == 0 {
                Seq::empty()
            } else {
                result_block(ms).push('\n')
            },
            EventTypes::Click => click_row(ms).push('\n'),
            EventTypes::Visit => visit_row(ms).push('\n'),
        }
    }
}

/// The payload of a log line: its body, unescaped and parsed as JSON.
pub open spec fn line_payload(s: Seq<char>) -> Option<Json> {
    match envelope_fields(s) {
        Some(f) => parsed_json(unescape(f[8])),
        None => None,
    }
}

/// What is written for one log line.
pub open spec fn line_output(sel: EventTypes, s: Seq<char>) -> Seq<char> {
    match line_payload(s) {
        Some(j) => payload_output(sel, j),
        None => Seq::empty(),
    }
}

/// What is written for a run of log lines: each line's output, in the order of the lines.
pub open spec fn lines_output(sel: EventTypes, ls: Seq<Seq<char>>) -> Seq<char>
    decreases ls.len(),
{
    if ls.len() == 0 {
        Seq::empty()
    } else {
        lines_output(sel, ls.drop_last()) + line_output(sel, ls.last())
    }
}

fn with_newline(s: String) -> (r: String)
    ensures
        r@ == s@.push('\n'),
{
    let mut cs = chars_of(s.as_str());
    cs.push('\n');
    string_of(&cs)
}

/// The rows of one parsed payload under the selector; empty where it does not decode.
pub fn render_payload(sel: EventTypes, j: &Json) -> (r: String)
    ensures
        r@ == payload_output(sel, *j),
{
    match sel {
        EventTypes::Search => match EventAggSearch::from_json(j) {
            Some(e) => {
                let t = e.tsv();
                assert(t@ == search_row(members(*j).unwrap()));
                with_newline(t)
            },
            None => String::new(),
        },
        EventTypes::Result => match EventAggSearch::from_json(j) {
            Some(e) => {
                let ghost ms = members(*j).unwrap();
                let ghost items = result_items(ms).unwrap();
                if e.result.len() == 0 {
                    String::new()
                } else {
                    let t = e.tsv_results();
                    assert forall|k: int| 0 <= k < items.len() implies e.result_row(k) == result_row(
                        ms,
                        k,
                    ) by {
                        assert(e.result@[k].decoded_from(items[k]));
                    }
                    assert(Seq::new(e.result@.len(), |k: int| e.result_row(k)) =~= Seq::new(
                        items.len(),
                        |k: int| result_row(ms, k),
                    ));
                    with_newline(t)
                }
            },
            None => String::new(),
        },
        EventTypes::Click => match EventAggClick::from_json(j) {
            Some(e) => with_newline(e.tsv()),
            None => String::new(),
        },
        EventTypes::Visit => match EventAggVisit::from_json(j) {
            Some(e) => with_newline(e.tsv()),
            None => String::new(),
        },
    }
}

/// The output of one log line: nothing where it does not have the envelope's shape or
/// its payload does not decode.
pub fn transform_line(sel: EventTypes, line: &str) -> (r: String)
    ensures
        r@ == line_output(sel, line@),
        envelope_fields(line@) is None ==> r@.len() == 0,
        (match line_payload(line@) {
            Some(j) => !payload_decodes(sel, j),
            None => true,
        }) ==> r@.len() == 0,
{
    match parse_envelope(line) {
        None => String::new(),
        Some(l) => {
            assert(l.request_body@ == envelope_fields(line@).unwrap()[8]);
            let body = unescape_body(l.request_body.as_str());
            match parse_json(body.as_str()) {
                Some(j) => render_payload(sel, &j),
                None => String::new(),
            }
        },
    }
}

/// The output of a run of log lines, line by line in their order.
pub fn transform_lines(sel: EventTypes, lines: &Vec<String>) -> (r: String)
    ensures
        r@ == lines_output(sel, lines@.map_values(|l: String| l@)),
{
    let ghost ls = lines@.map_values(|l: String| l@);
    let mut out: Vec<char> = Vec::new();
    let mut i: usize = 0;
    assert(ls.subrange(0, 0).len() == 0);
    while i < lines.len()
        invariant
            i <= lines.len(),
            ls == lines@.map_values(|l: String| l@),
            out@ == lines_output(sel, ls.subrange(0, i as int)),
        decreases lines.len() - i,
    {
        let t = transform_line(sel, lines[i].as_str());
        let cs = chars_of(t.as_str());
        push_all(&mut out, &cs);
        assert(ls.subrange(0, i + 1).drop_last() =~= ls.subrange(0, i as int));
        i = i + 1;
    }
    assert(ls.subrange(0, lines.len() as int) =~= ls);
    string_of(&out)
}

} // verus!
