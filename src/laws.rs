//! Laws that tie the transformer's functions together.
use vstd::prelude::*;
use crate::text::{
    count_char, decimal, signed_decimal, join, lemma_count_concat, lemma_count_none,
    lemma_count_single, lemma_decimal_has_no, lemma_signed_decimal_has_no, lemma_join_count,
    lemma_join_count_other,
};
use crate::ids::{uuid_text, uuid_member, lemma_uuid_text_chars};
use crate::json::{Json, parsed_json, text_member, u32_member, i32_member, lemma_member_push};
use crate::events::{
    members, result_items, search_decodes, click_decodes, visit_decodes, click_key, visit_key,
    search_key,
};
use crate::selector::EventTypes;
use crate::envelope::{envelope_fields, escape, lemma_unescape_escape};
use crate::pipeline::{
    search_row, item_row, result_row, result_block, click_row, visit_row, payload_decodes,
    payload_output, line_payload, line_output, lines_output,
};

verus! {

proof fn lemma_uuid_free(v: nat, c: char)
    requires
        c == '\t' || c == '\n',
    ensures
        count_char(uuid_text(v), c) == 0,
{
    lemma_uuid_text_chars(v, c);
    lemma_count_none(uuid_text(v), c);
}

proof fn lemma_row_counts(fs: Seq<Seq<char>>, c: char)
    requires
        fs.len() >= 1,
        c == '\t' || c == '\n',
        forall|i: int| 0 <= i < fs.len() ==> count_char(#[trigger] fs[i], c) == 0,
    ensures
        count_char(join(fs, '\t'), c) == if c == '\t' {
            (fs.len() - 1) as nat
        } else {
            0nat
        },
{
    if c == '\t' {
        lemma_join_count(fs, '\t');
    } else {
        lemma_join_count_other(fs, '\t', c);
    }
}


proof fn lemma_search_row_counts(ms: Seq<(String, Json)>, c: char)
    requires
        c == '\t' || c == '\n',
        search_decodes(ms),
        count_char(text_member(ms, "query"@).unwrap(), c) == 0,
        count_char(text_member(ms, "filter"@).unwrap(), c) == 0,
    ensures
        count_char(search_row(ms), c) == if c == '\t' {
            9nat
        } else {
            0nat
        },
{
    let f0 = decimal(u32_member(ms, "timestamp"@).unwrap() as nat);
    let f1 = uuid_text(uuid_member(ms, "eventId"@).unwrap() as nat);
    let f2 = uuid_text(uuid_member(ms, "widgetId"@).unwrap() as nat);
    let f3 = uuid_text(uuid_member(ms, "userId"@).unwrap() as nat);
    let f4 = uuid_text(uuid_member(ms, "sessionId"@).unwrap() as nat);
    let f5 = text_member(ms, "query"@).unwrap();
    let f6 = text_member(ms, "filter"@).unwrap();
    let f7 = decimal(u32_member(ms, "from"@).unwrap() as nat);
    let f8 = decimal(u32_member(ms, "size"@).unwrap() as nat);
    let f9 = signed_decimal(i32_member(ms, "total"@).unwrap() as int);
    lemma_decimal_has_no(u32_member(ms, "timestamp"@).unwrap() as nat, c);
    lemma_uuid_free(uuid_member(ms, "eventId"@).unwrap() as nat, c);
    lemma_uuid_free(uuid_member(ms, "widgetId"@).unwrap() as nat, c);
    lemma_uuid_free(uuid_member(ms, "userId"@).unwrap() as nat, c);
    lemma_uuid_free(uuid_member(ms, "sessionId"@).unwrap() as nat, c);
    lemma_decimal_has_no(u32_member(ms, "from"@).unwrap() as nat, c);
    lemma_decimal_has_no(u32_member(ms, "size"@).unwrap() as nat, c);
    lemma_signed_decimal_has_no(i32_member(ms, "total"@).unwrap() as int, c);
    let fs = seq![f0, f1, f2, f3, f4, f5, f6, f7, f8, f9];
    assert forall|i: int| 0 <= i < fs.len() implies count_char(#[trigger] fs[i], c) == 0 by {
        if i == 0 {
            assert(fs[0] == f0);
        } else if i == 1 {
            assert(fs[1] == f1);
        } else if i == 2 {
            assert(fs[2] == f2);
        } else if i == 3 {
            assert(fs[3] == f3);
        } else if i == 4 {
            assert(fs[4] == f4);
        } else if i == 5 {
            assert(fs[5] == f5);
        } else if i == 6 {
            assert(fs[6] == f6);
        } else if i == 7 {
            assert(fs[7] == f7);
        } else if i == 8 {
            assert(fs[8] == f8);
        } else if i == 9 {
            assert(fs[9] == f9);
        }
    }
    lemma_row_counts(fs, c);
}


proof fn lemma_click_row_counts(ms: Seq<(String, Json)>, c: char)
    requires
        c == '\t' || c == '\n',
        click_decodes(ms),
    ensures
        count_char(click_row(ms), c) == if c == '\t' {
            2nat
        } else {
            0nat
        },
{
    let f0 = decimal(u32_member(ms, "timestamp"@).unwrap() as nat);
    let f1 = uuid_text(uuid_member(ms, "eventId"@).unwrap() as nat);
    let f2 = uuid_text(uuid_member(ms, "trackId"@).unwrap() as nat);
    lemma_decimal_has_no(u32_member(ms, "timestamp"@).unwrap() as nat, c);
    lemma_uuid_free(uuid_member(ms, "eventId"@).unwrap() as nat, c);
    lemma_uuid_free(uuid_member(ms, "trackId"@).unwrap() as nat, c);
    let fs = seq![f0, f1, f2];
    assert forall|i: int| 0 <= i < fs.len() implies count_char(#[trigger] fs[i], c) == 0 by {
        if i == 0 {
            assert(fs[0] == f0);
        } else if i == 1 {
            assert(fs[1] == f1);
        } else if i == 2 {
            assert(fs[2] == f2);
        }
    }
    lemma_row_counts(fs, c);
}


proof fn lemma_visit_row_counts(ms: Seq<(String, Json)>, c: char)
    requires
        c == '\t' || c == '\n',
        visit_decodes(ms),
    ensures
        count_char(visit_row(ms), c) == if c == '\t' {
            3nat
        } else {
            0nat
        },
{
    let f0 = decimal(u32_member(ms, "timestamp"@).unwrap() as nat);
    let f1 = uuid_text(uuid_member(ms, "eventId"@).unwrap() as nat);
    let f2 = uuid_text(uuid_member(ms, "trackId"@).unwrap() as nat);
    let f3 = decimal(u32_member(ms, "timeElapsed"@).unwrap() as nat);
    lemma_decimal_has_no(u32_member(ms, "timestamp"@).unwrap() as nat, c);
    lemma_uuid_free(uuid_member(ms, "eventId"@).unwrap() as nat, c);
    lemma_uuid_free(uuid_member(ms, "trackId"@).unwrap() as nat, c);
    lemma_decimal_has_no(u32_member(ms, "timeElapsed"@).unwrap() as nat, c);
    let fs = seq![f0, f1, f2, f3];
    assert forall|i: int| 0 <= i < fs.len() implies count_char(#[trigger] fs[i], c) == 0 by {
        if i == 0 {
            assert(fs[0] == f0);
        } else if i == 1 {
            assert(fs[1] == f1);
        } else if i == 2 {
            assert(fs[2] == f2);
        } else if i == 3 {
            assert(fs[3] == f3);
        }
    }
    lemma_row_counts(fs, c);
}


proof fn lemma_item_row_counts(j: Json, c: char)
    requires
        c == '\t' || c == '\n',
        count_char(text_member(members(j).unwrap(), "itemType"@).unwrap(), c) == 0,
    ensures
        count_char(item_row(j), c) == if c == '\t' {
            3nat
        } else {
            0nat
        },
{
    let ms = members(j).unwrap();
    let f0 = uuid_text(uuid_member(ms, "trackId"@).unwrap() as nat);
    let f1 = uuid_text(uuid_member(ms, "itemId"@).unwrap() as nat);
    let f2 = text_member(ms, "itemType"@).unwrap();
    let f3 = decimal(u32_member(ms, "position"@).unwrap() as nat);
    lemma_uuid_free(uuid_member(ms, "trackId"@).unwrap() as nat, c);
    lemma_uuid_free(uuid_member(ms, "itemId"@).unwrap() as nat, c);
    lemma_decimal_has_no(u32_member(ms, "position"@).unwrap() as nat, c);
    let fs = seq![f0, f1, f2, f3];
    assert forall|i: int| 0 <= i < fs.len() implies count_char(#[trigger] fs[i], c) == 0 by {
        if i == 0 {
            assert(fs[0] == f0);
        } else if i == 1 {
            assert(fs[1] == f1);
        } else if i == 2 {
            assert(fs[2] == f2);
        } else if i == 3 {
            assert(fs[3] == f3);
        }
    }
    lemma_row_counts(fs, c);
}

proof fn lemma_result_row_counts(ms: Seq<(String, Json)>, k: int, c: char)
    requires
        c == '\t' || c == '\n',
        search_decodes(ms),
        0 <= k < result_items(ms).unwrap().len(),
        count_char(text_member(members(result_items(ms).unwrap()[k]).unwrap(), "itemType"@).unwrap(), c) == 0,
    ensures
        count_char(result_row(ms, k), c) == if c == '\t' {
            5nat
        } else {
            0nat
        },
{
    let a = decimal(u32_member(ms, "timestamp"@).unwrap() as nat);
    let b = uuid_text(uuid_member(ms, "eventId"@).unwrap() as nat);
    let d = item_row(result_items(ms).unwrap()[k]);
    lemma_decimal_has_no(u32_member(ms, "timestamp"@).unwrap() as nat, c);
    lemma_uuid_free(uuid_member(ms, "eventId"@).unwrap() as nat, c);
    lemma_item_row_counts(result_items(ms).unwrap()[k], c);
    let fs = seq![a, b, d];
    assert(fs.drop_last() =~= seq![a, b]);
    assert(seq![a, b].drop_last() =~= seq![a]);
    assert(join(seq![a], '\t') == a);
    assert(seq![a, b].last() == b);
    assert(fs.last() == d);
    assert(join(seq![a, b], '\t') == a + seq!['\t'] + b);
    assert(join(fs, '\t') == a + seq!['\t'] + b + seq!['\t'] + d);
    lemma_count_concat(a, seq!['\t'], c);
    lemma_count_concat(a + seq!['\t'], b, c);
    lemma_count_concat(a + seq!['\t'] + b, seq!['\t'], c);
    lemma_count_concat(a + seq!['\t'] + b + seq!['\t'], d, c);
    lemma_count_single('\t', c);
}

/// The text fields of a decoded payload that its rows show hold no `c`.
pub open spec fn shown_text_free(sel: EventTypes, j: Json, c: char) -> bool {
    let ms = members(j).unwrap();
    match sel {
        EventTypes::Search => {
            &&& count_char(text_member(ms, "query"@).unwrap(), c) == 0
            &&& count_char(text_member(ms, "filter"@).unwrap(), c) == 0
        },
        EventTypes::Result => forall|k: int|
            0 <= k < result_items(ms).unwrap().len() ==> count_char(
                text_member(members(#[trigger] result_items(ms).unwrap()[k]).unwrap(), "itemType"@).unwrap(),
                c,
            ) == 0,
        _ => true,
    }
}

/// A line whose payload decodes gives newline-ended rows: exactly one, or under `Result`
/// one per hit (none for no hits), as long as the text fields shown hold no newline.
pub proof fn lemma_rows_per_line(sel: EventTypes, line: Seq<char>)
    requires
        line_payload(line) matches Some(j) && payload_decodes(sel, j) && shown_text_free(
            sel,
            j,
            '\n',
        ),
    ensures
        ({
            let j = line_payload(line).unwrap();
            let out = line_output(sel, line);
            &&& count_char(out, '\n') == if sel is Result {
                result_items(members(j).unwrap()).unwrap().len()
            } else {
                1nat
            }
            &&& out.len() > 0 ==> out.last() == '\n'
        }),
{
    let j = line_payload(line).unwrap();
    let ms = members(j).unwrap();
    let c = '\n';
    match sel {
        EventTypes::Search => {
            lemma_search_row_counts(ms, c);
            lemma_count_concat(search_row(ms), seq![c], c);
            lemma_count_single(c, c);
            assert(search_row(ms).push(c) =~= search_row(ms) + seq![c]);
        },
        EventTypes::Click => {
            lemma_click_row_counts(ms, c);
            lemma_count_concat(click_row(ms), seq![c], c);
            lemma_count_single(c, c);
            assert(click_row(ms).push(c) =~= click_row(ms) + seq![c]);
        },
        EventTypes::Visit => {
            lemma_visit_row_counts(ms, c);
            lemma_count_concat(visit_row(ms), seq![c], c);
            lemma_count_single(c, c);
            assert(visit_row(ms).push(c) =~= visit_row(ms) + seq![c]);
        },
        EventTypes::Result => {
            let items = result_items(ms).unwrap();
            if items.len() > 0 {
                let rows = Seq::new(items.len(), |k: int| result_row(ms, k));
                assert forall|k: int| 0 <= k < rows.len() implies count_char(#[trigger] rows[k], c)
                    == 0 by {
                    lemma_result_row_counts(ms, k, c);
                }
                lemma_join_count(rows, c);
                lemma_count_concat(result_block(ms), seq![c], c);
                lemma_count_single(c, c);
                assert(result_block(ms).push(c) =~= result_block(ms) + seq![c]);
            }
        },
    }
}

/// Each row has a fixed number of fields: ten under `Search`, six under `Result`, three
/// under `Click` and four under `Visit`, as long as the text fields shown hold no tab.
pub proof fn lemma_fields_per_row(sel: EventTypes, j: Json)
    requires
        payload_decodes(sel, j),
        shown_text_free(sel, j, '\t'),
    ensures
        ({
            let ms = members(j).unwrap();
            match sel {
                EventTypes::Search => count_char(search_row(ms), '\t') + 1 == 10,
                EventTypes::Result => forall|k: int|
                    0 <= k < result_items(ms).unwrap().len() ==> count_char(
                        #[trigger] result_row(ms, k),
                        '\t',
                    ) + 1 == 6,
                EventTypes::Click => count_char(click_row(ms), '\t') + 1 == 3,
                EventTypes::Visit => count_char(visit_row(ms), '\t') + 1 == 4,
            }
        }),
{
    let ms = members(j).unwrap();
    match sel {
        EventTypes::Search => lemma_search_row_counts(ms, '\t'),
        EventTypes::Click => lemma_click_row_counts(ms, '\t'),
        EventTypes::Visit => lemma_visit_row_counts(ms, '\t'),
        EventTypes::Result => {
            assert forall|k: int| 0 <= k < result_items(ms).unwrap().len() implies count_char(
                #[trigger] result_row(ms, k),
                '\t',
            ) + 1 == 6 by {
                lemma_result_row_counts(ms, k, '\t');
            }
        },
    }
}

/// The output of lines one after another is the output of the first lines followed by
/// that of the rest: rows keep the order of their lines, and no line's rows mix with
/// another's.
pub proof fn lemma_lines_in_order(sel: EventTypes, a: Seq<Seq<char>>, b: Seq<Seq<char>>)
    ensures
        lines_output(sel, a + b) == lines_output(sel, a) + lines_output(sel, b),
    decreases b.len(),
{
    if b.len() == 0 {
        assert(a + b =~= a);
        assert(lines_output(sel, a) + Seq::<char>::empty() =~= lines_output(sel, a));
    } else {
        lemma_lines_in_order(sel, a, b.drop_last());
        assert((a + b).drop_last() =~= a + b.drop_last());
        assert((a + b).last() == b.last());
        assert(lines_output(sel, a) + lines_output(sel, b.drop_last()) + line_output(sel, b.last())
            =~= lines_output(sel, a) + (lines_output(sel, b.drop_last()) + line_output(
            sel,
            b.last(),
        )));
    }
}

/// Under `Click` or `Visit`, a payload with a name that the schema does not declare gives
/// no output.
pub proof fn lemma_strict_schemas(sel: EventTypes, j: Json, i: int)
    requires
        sel is Click || sel is Visit,
        members(j) matches Some(ms) && 0 <= i < ms.len() && (if sel is Click {
            !click_key(ms[i].0@)
        } else {
            !visit_key(ms[i].0@)
        }),
    ensures
        !payload_decodes(sel, j),
        payload_output(sel, j) == Seq::<char>::empty(),
{
}

/// Under `Search` and `Result`, a member with a name that the schema does not declare is
/// let through: the payload still decodes, to the same rows.
pub proof fn lemma_search_tolerates(ms: Seq<(String, Json)>, x: (String, Json))
    requires
        search_decodes(ms),
        !search_key(x.0@),
    ensures
        search_decodes(ms.push(x)),
        search_row(ms.push(x)) == search_row(ms),
        result_items(ms.push(x)) == result_items(ms),
        result_block(ms.push(x)) == result_block(ms),
{
    let m = ms.push(x);
    lemma_member_push(ms, x, "widgetId"@, 0);
    lemma_member_push(ms, x, "sessionId"@, 0);
    lemma_member_push(ms, x, "userId"@, 0);
    lemma_member_push(ms, x, "total"@, 0);
    lemma_member_push(ms, x, "eventId"@, 0);
    lemma_member_push(ms, x, "type"@, 0);
    lemma_member_push(ms, x, "query"@, 0);
    lemma_member_push(ms, x, "filter"@, 0);
    lemma_member_push(ms, x, "timestamp"@, 0);
    lemma_member_push(ms, x, "from"@, 0);
    lemma_member_push(ms, x, "size"@, 0);
    lemma_member_push(ms, x, "result"@, 0);
    let items = result_items(ms).unwrap();
    assert(Seq::new(items.len(), |k: int| result_row(m, k)) =~= Seq::new(
        items.len(),
        |k: int| result_row(ms, k),
    ));
}

/// A payload written into a line's body with each `"` as `\"` is read back exactly: the
/// line's payload is what the payload text itself parses to, every string in it included.
pub proof fn lemma_payload_recovered(line: Seq<char>, payload: Seq<char>)
    requires
        envelope_fields(line) matches Some(f) && f[8] == escape(payload),
    ensures
        line_payload(line) == parsed_json(payload),
{
    lemma_unescape_escape(payload);
}

} // verus!
