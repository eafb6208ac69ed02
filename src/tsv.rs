//! Tab-separated rows of the decoded events.
use vstd::prelude::*;
use crate::text::{decimal, signed_decimal, join, push_decimal, push_signed_decimal, join_fields, chars_of, string_of};
use crate::ids::{uuid_text, uuid_to_text};
use crate::events::{EventAggResult, EventAggSearch, EventAggClick, EventAggVisit};

verus! {

/// A record that renders as one tab-separated row, without its line end.
pub trait Tsv {
    spec fn tsv_view(&self) -> Seq<char>;

    fn tsv(&self) -> (r: String)
        ensures
            r@ == self.tsv_view(),
    ;
}

fn decimal_chars(n: u64) -> (r: Vec<char>)
    ensures
        r@ == decimal(n as nat),
{
    let mut v: Vec<char> = Vec::new();
    push_decimal(&mut v, n);
    assert(v@ =~= decimal(n as nat));
    v
}

fn signed_chars(n: i32) -> (r: Vec<char>)
    ensures
        r@ == signed_decimal(n as int),
{
    let mut v: Vec<char> = Vec::new();
    push_signed_decimal(&mut v, n as i64);
    assert(v@ =~= signed_decimal(n as int));
    v
}

fn uuid_chars(v: u128) -> (r: Vec<char>)
    ensures
        r@ == uuid_text(v as nat),
{
    let t = uuid_to_text(v);
    chars_of(t.as_str())
}

impl Tsv for EventAggResult {
    /// track, item, item type, position.
    open spec fn tsv_view(&self) -> Seq<char> {
        join(
            seq![
                uuid_text(self.track_id as nat),
                uuid_text(self.item_id as nat),
                self.item_type@,
                decimal(self.position as nat),
            ],
            '\t',
        )
    }

    fn tsv(&self) -> (r: String) {
        let mut fs: Vec<Vec<char>> = Vec::new();
        fs.push(uuid_chars(self.track_id));
        fs.push(uuid_chars(self.item_id));
        fs.push(chars_of(self.item_type.as_str()));
        fs.push(decimal_chars(self.position as u64));
        let r = join_fields(&fs, '\t');
        assert(fs@.map_values(|f: Vec<char>| f@) =~= seq![
            uuid_text(self.track_id as nat),
            uuid_text(self.item_id as nat),
            self.item_type@,
            decimal(self.position as nat),
        ]);
        string_of(&r)
    }
}

impl Tsv for EventAggSearch {
    /// timestamp, event, widget, user, session, query, filter, from, size, total.
    open spec fn tsv_view(&self) -> Seq<char> {
        join(
            seq![
                decimal(self.timestamp as nat),
                uuid_text(self.event_id as nat),
                uuid_text(self.widget_id as nat),
                uuid_text(self.user_id as nat),
                uuid_text(self.session_id as nat),
                self.query@,
                self.filter@,
                decimal(self.from as nat),
                decimal(self.size as nat),
                signed_decimal(self.total as int),
            ],
            '\t',
        )
    }

    fn tsv(&self) -> (r: String) {
        let mut fs: Vec<Vec<char>> = Vec::new();
        fs.push(decimal_chars(self.timestamp as u64));
        fs.push(uuid_chars(self.event_id));
        fs.push(uuid_chars(self.widget_id));
        fs.push(uuid_chars(self.user_id));
        fs.push(uuid_chars(self.session_id));
        fs.push(chars_of(self.query.as_str()));
        fs.push(chars_of(self.filter.as_str()));
        fs.push(decimal_chars(self.from as u64));
        fs.push(decimal_chars(self.size as u64));
        fs.push(signed_chars(self.total));
        let r = join_fields(&fs, '\t');
        assert(fs@.map_values(|f: Vec<char>| f@) =~= seq![
            decimal(self.timestamp as nat),
            uuid_text(self.event_id as nat),
            uuid_text(self.widget_id as nat),
            uuid_text(self.user_id as nat),
            uuid_text(self.session_id as nat),
            self.query@,
            self.filter@,
            decimal(self.from as nat),
            decimal(self.size as nat),
            signed_decimal(self.total as int),
        ]);
        string_of(&r)
    }
}

impl EventAggSearch {
    /// The row of hit `k`: the search's timestamp and event, then the hit's own fields.
    pub open spec fn result_row(&self, k: int) -> Seq<char> {
        join(
            seq![
                decimal(self.timestamp as nat),
                uuid_text(self.event_id as nat),
                self.result@[k].tsv_view(),
            ],
            '\t',
        )
    }

    /// One row per hit, in order, with a newline between each two.
    pub open spec fn results_view(&self) -> Seq<char> {
        join(Seq::new(self.result@.len(), |k: int| self.result_row(k)), '\n')
    }

    /// The rows of the hits, newline between each two and none after the last.
    pub fn tsv_results(&self) -> (r: String)
        ensures
            r@ == self.results_view(),
    {
        let mut rows: Vec<Vec<char>> = Vec::new();
        let mut k: usize = 0;
        while k < self.result.len()
            invariant
                k <= self.result@.len(),
                rows@.map_values(|f: Vec<char>| f@) =~= Seq::new(k as nat, |i: int| self.result_row(i)),
            decreases self.result@.len() - k,
        {
            let mut fs: Vec<Vec<char>> = Vec::new();
            fs.push(decimal_chars(self.timestamp as u64));
            fs.push(uuid_chars(self.event_id));
            let item = self.result[k].tsv();
            fs.push(chars_of(item.as_str()));
            let row = join_fields(&fs, '\t');
            assert(fs@.map_values(|f: Vec<char>| f@) =~= seq![
                decimal(self.timestamp as nat),
                uuid_text(self.event_id as nat),
                self.result@[k as int].tsv_view(),
            ]);
            assert(row@ == self.result_row(k as int));
            let ghost prev = rows@.map_values(|f: Vec<char>| f@);
            rows.push(row);
            assert(rows@.map_values(|f: Vec<char>| f@) =~= prev.push(row@));
            k = k + 1;
        }
        let r = join_fields(&rows, '\n');
        string_of(&r)
    }
}

impl Tsv for EventAggClick {
    /// timestamp, event, track.
    open spec fn tsv_view(&self) -> Seq<char> {
        join(
            seq![
                decimal(self.timestamp as nat),
                uuid_text(self.event_id as nat),
                uuid_text(self.track_id as nat),
            ],
            '\t',
        )
    }

    fn tsv(&self) -> (r: String) {
        let mut fs: Vec<Vec<char>> = Vec::new();
        fs.push(decimal_chars(self.timestamp as u64));
        fs.push(uuid_chars(self.event_id));
        fs.push(uuid_chars(self.track_id));
        let r = join_fields(&fs, '\t');
        assert(fs@.map_values(|f: Vec<char>| f@) =~= seq![
            decimal(self.timestamp as nat),
            uuid_text(self.event_id as nat),
            uuid_text(self.track_id as nat),
        ]);
        string_of(&r)
    }
}

impl Tsv for EventAggVisit {
    /// timestamp, event, track, time elapsed.
    open spec fn tsv_view(&self) -> Seq<char> {
        join(
            seq![
                decimal(self.timestamp as nat),
                uuid_text(self.event_id as nat),
                uuid_text(self.track_id as nat),
                decimal(self.time_elapsed as nat),
            ],
            '\t',
        )
    }

    fn tsv(&self) -> (r: String) {
        let mut fs: Vec<Vec<char>> = Vec::new();
        fs.push(decimal_chars(self.timestamp as u64));
        fs.push(uuid_chars(self.event_id));
        fs.push(uuid_chars(self.track_id));
        fs.push(decimal_chars(self.time_elapsed as u64));
        let r = join_fields(&fs, '\t');
        assert(fs@.map_values(|f: Vec<char>| f@) =~= seq![
            decimal(self.timestamp as nat),
            uuid_text(self.event_id as nat),
            uuid_text(self.track_id as nat),
            decimal(self.time_elapsed as nat),
        ]);
        string_of(&r)
    }
}

} // verus!
