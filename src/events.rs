//! The four event schemas, decoded from a parsed payload.
use vstd::prelude::*;
use crate::text::text_eq;
use crate::json::{Json, member, text_member, u32_member, i32_member, get_text, get_u32, get_i32};
use crate::ids::{uuid_member, get_uuid};

verus! {

/// One hit of a search, as nested in a search event.
#[derive(Debug, PartialEq)]
pub struct EventAggResult {
    pub item_id: u128,
    pub position: u32,
    pub item_type: String,
    pub track_id: u128,
}

/// A search, with its hits.
#[derive(Debug, PartialEq)]
pub struct EventAggSearch {
    pub widget_id: u128,
    pub session_id: u128,
    pub user_id: u128,
    pub total: i32,
    pub event_id: u128,
    pub _type: String,
    pub query: String,
    pub filter: String,
    pub timestamp: u32,
    pub from: u32,
    pub size: u32,
    pub result: Vec<EventAggResult>,
}

/// A click on a hit.
#[derive(Debug, PartialEq)]
pub struct EventAggClick {
    pub _type: String,
    pub event_id: u128,
    pub track_id: u128,
    pub timestamp: u32,
}

/// A visit of a hit, with the time spent on it.
#[derive(Debug, PartialEq)]
pub struct EventAggVisit {
    pub _type: String,
    pub event_id: u128,
    pub track_id: u128,
    pub timestamp: u32,
    pub time_elapsed: u32,
}

/// The members of an object; `None` for any other value.
pub open spec fn members(j: Json) -> Option<Seq<(String, Json)>> {
    match j {
        Json::Obj(ms) => Some(ms@),
        _ => None,
    }
}

/// The names that a click payload may hold.
pub open spec fn click_key(k: Seq<char>) -> bool {
    k == "type"@ || k == "eventId"@ || k == "trackId"@ || k == "timestamp"@
}

/// The names that a visit payload may hold.
pub open spec fn visit_key(k: Seq<char>) -> bool {
    click_key(k) || k == "timeElapsed"@
}

/// The names that a search payload declares; others are let through.
pub open spec fn search_key(k: Seq<char>) -> bool {
    k == "widgetId"@ || k == "sessionId"@ || k == "userId"@ || k == "total"@ || k == "eventId"@
        || k == "type"@ || k == "query"@ || k == "filter"@ || k == "timestamp"@ || k == "from"@
        || k == "size"@ || k == "result"@
}

pub open spec fn only_click_keys(ms: Seq<(String, Json)>) -> bool {
    forall|i: int| 0 <= i < ms.len() ==> click_key(#[trigger] ms[i].0@)
}

pub open spec fn only_visit_keys(ms: Seq<(String, Json)>) -> bool {
    forall|i: int| 0 <= i < ms.len() ==> visit_key(#[trigger] ms[i].0@)
}

/// A click payload decodes: only its four names, each with a value of its type.
pub open spec fn click_decodes(ms: Seq<(String, Json)>) -> bool {
    &&& only_click_keys(ms)
    &&& text_member(ms, "type"@) is Some
    &&& uuid_member(ms, "eventId"@) is Some
    &&& uuid_member(ms, "trackId"@) is Some
    &&& u32_member(ms, "timestamp"@) is Some
}

/// A visit payload decodes: only its five names, each with a value of its type.
pub open spec fn visit_decodes(ms: Seq<(String, Json)>) -> bool {
    &&& only_visit_keys(ms)
    &&& text_member(ms, "type"@) is Some
    &&& uuid_member(ms, "eventId"@) is Some
    &&& uuid_member(ms, "trackId"@) is Some
    &&& u32_member(ms, "timestamp"@) is Some
    &&& u32_member(ms, "timeElapsed"@) is Some
}

/// A hit decodes: an object with its four names, each with a value of its type.
pub open spec fn item_decodes(j: Json) -> bool {
    match members(j) {
        Some(ms) => {
            &&& uuid_member(ms, "itemId"@) is Some
            &&& u32_member(ms, "position"@) is Some
            &&& text_member(ms, "itemType"@) is Some
            &&& uuid_member(ms, "trackId"@) is Some
        },
        None => false,
    }
}

/// The hits of a search payload, when `result` is an array.
pub open spec fn result_items(ms: Seq<(String, Json)>) -> Option<Seq<Json>> {
    match member(ms, "result"@) {
        Some(Json::Arr(v)) => Some(v@),
        _ => None,
    }
}

/// A search payload decodes: each declared name with a value of its type, every hit
/// decoding.
pub open spec fn search_decodes(ms: Seq<(String, Json)>) -> bool {
    &&& uuid_member(ms, "widgetId"@) is Some
    &&& uuid_member(ms, "sessionId"@) is Some
    &&& uuid_member(ms, "userId"@) is Some
    &&& i32_member(ms, "total"@) is Some
    &&& uuid_member(ms, "eventId"@) is Some
    &&& text_member(ms, "type"@) is Some
    &&& text_member(ms, "query"@) is Some
    &&& text_member(ms, "filter"@) is Some
    &&& u32_member(ms, "timestamp"@) is Some
    &&& u32_member(ms, "from"@) is Some
    &&& u32_member(ms, "size"@) is Some
    &&& result_items(ms) matches Some(items)
    &&& forall|k: int| 0 <= k < items.len() ==> item_decodes(#[trigger] items[k])
}

impl EventAggResult {
    /// This hit is what `j` holds.
    pub open spec fn decoded_from(&self, j: Json) -> bool {
        match members(j) {
            Some(ms) => {
                &&& uuid_member(ms, "itemId"@) == Some(self.item_id)
                &&& u32_member(ms, "position"@) == Some(self.position)
                &&& text_member(ms, "itemType"@) == Some(self.item_type@)
                &&& uuid_member(ms, "trackId"@) == Some(self.track_id)
            },
            None => false,
        }
    }

    /// Decodes a hit; `None` where `j` is not one.
    pub fn from_json(j: &Json) -> (r: Option<EventAggResult>)
        ensures
            r is Some <==> item_decodes(*j),
            r matches Some(e) ==> e.decoded_from(*j),
    {
        match j {
            Json::Obj(ms) => {
                let item_id = match get_uuid(ms, "itemId") {
                    Some(v) => v,
                    None => return None,
                };
                let position = match get_u32(ms, "position") {
                    Some(v) => v,
                    None => return None,
                };
                let item_type = match get_text(ms, "itemType") {
                    Some(v) => v,
                    None => return None,
                };
                let track_id = match get_uuid(ms, "trackId") {
                    Some(v) => v,
                    None => return None,
                };
                Some(EventAggResult { item_id, position, item_type, track_id })
            },
            _ => None,
        }
    }
}

impl EventAggSearch {
    /// This search is what the members `ms` hold.
    pub open spec fn decoded_from(&self, ms: Seq<(String, Json)>) -> bool {
        &&& uuid_member(ms, "widgetId"@) == Some(self.widget_id)
        &&& uuid_member(ms, "sessionId"@) == Some(self.session_id)
        &&& uuid_member(ms, "userId"@) == Some(self.user_id)
        &&& i32_member(ms, "total"@) == Some(self.total)
        &&& uuid_member(ms, "eventId"@) == Some(self.event_id)
        &&& text_member(ms, "type"@) == Some(self._type@)
        &&& text_member(ms, "query"@) == Some(self.query@)
        &&& text_member(ms, "filter"@) == Some(self.filter@)
        &&& u32_member(ms, "timestamp"@) == Some(self.timestamp)
        &&& u32_member(ms, "from"@) == Some(self.from)
        &&& u32_member(ms, "size"@) == Some(self.size)
        &&& result_items(ms) matches Some(items)
        &&& self.result@.len() == items.len()
        &&& forall|k: int| 0 <= k < items.len() ==> #[trigger] self.result@[k].decoded_from(items[k])
    }

    /// Decodes a search payload; names it does not declare are let through.
    pub fn from_json(j: &Json) -> (r: Option<EventAggSearch>)
        ensures
            r is Some <==> (members(*j) matches Some(ms) && search_decodes(ms)),
            r matches Some(e) ==> e.decoded_from(members(*j).unwrap()),
    {
        let ms = match j {
            Json::Obj(ms) => ms,
            _ => return None,
        };
        let widget_id = match get_uuid(ms, "widgetId") { Some(v) => v, None => return None };
        let session_id = match get_uuid(ms, "sessionId") { Some(v) => v, None => return None };
        let user_id = match get_uuid(ms, "userId") { Some(v) => v, None => return None };
        let total = match get_i32(ms, "total") { Some(v) => v, None => return None };
        let event_id = match get_uuid(ms, "eventId") { Some(v) => v, None => return None };
        let _type = match get_text(ms, "type") { Some(v) => v, None => return None };
        let query = match get_text(ms, "query") { Some(v) => v, None => return None };
        let filter = match get_text(ms, "filter") { Some(v) => v, None => return None };
        let timestamp = match get_u32(ms, "timestamp") { Some(v) => v, None => return None };
        let from = match get_u32(ms, "from") { Some(v) => v, None => return None };
        let size = match get_u32(ms, "size") { Some(v) => v, None => return None };
        let items = match crate::json::find_member(ms, "result") {
            Some(Json::Arr(v)) => v,
            _ => return None,
        };
        let mut result: Vec<EventAggResult> = Vec::new();
        let mut k: usize = 0;
        while k < items.len()
            invariant
                k <= items.len(),
                members(*j) == Some(ms@),
                result_items(ms@) == Some(items@),
                result@.len() == k,
                forall|i: int| 0 <= i < k ==> item_decodes(#[trigger] items@[i]),
                forall|i: int| 0 <= i < k ==> #[trigger] result@[i].decoded_from(items@[i]),
            decreases items.len() - k,
        {
            match EventAggResult::from_json(&items[k]) {
                Some(e) => result.push(e),
                None => {
                    assert(!item_decodes(items@[k as int]));
                    assert(!search_decodes(ms@)) by {
                        if search_decodes(ms@) {
                            let its = result_items(ms@).unwrap();
                            assert(its == items@);
                            assert(item_decodes(its[k as int]));
                        }
                    }
                    return None;
                },
            }
            k = k + 1;
        }
        Some(EventAggSearch {
            widget_id,
            session_id,
            user_id,
            total,
            event_id,
            _type,
            query,
            filter,
            timestamp,
            from,
            size,
            result,
        })
    }
}

fn is_click_key(k: &str) -> (r: bool)
    ensures
        r == click_key(k@),
{
    text_eq(k, "type") || text_eq(k, "eventId") || text_eq(k, "trackId") || text_eq(k, "timestamp")
}

fn is_visit_key(k: &str) -> (r: bool)
    ensures
        r == visit_key(k@),
{
    is_click_key(k) || text_eq(k, "timeElapsed")
}

impl EventAggClick {
    /// This click is what the members `ms` hold.
    pub open spec fn decoded_from(&self, ms: Seq<(String, Json)>) -> bool {
        &&& text_member(ms, "type"@) == Some(self._type@)
        &&& uuid_member(ms, "eventId"@) == Some(self.event_id)
        &&& uuid_member(ms, "trackId"@) == Some(self.track_id)
        &&& u32_member(ms, "timestamp"@) == Some(self.timestamp)
    }

    /// Decodes a click payload; any name beyond its four rejects it.
    pub fn from_json(j: &Json) -> (r: Option<EventAggClick>)
        ensures
            r is Some <==> (members(*j) matches Some(ms) && click_decodes(ms)),
            r matches Some(e) ==> e.decoded_from(members(*j).unwrap()),
    {
        let ms = match j {
            Json::Obj(ms) => ms,
            _ => return None,
        };
        let mut i: usize = 0;
        while i < ms.len()
            invariant
                i <= ms.len(),
                members(*j) == Some(ms@),
                forall|k: int| 0 <= k < i ==> click_key(#[trigger] ms@[k].0@),
            decreases ms.len() - i,
        {
            if !is_click_key(ms[i].0.as_str()) {
                assert(!click_key(ms@[i as int].0@));
                return None;
            }
            i = i + 1;
        }
        let _type = match get_text(ms, "type") { Some(v) => v, None => return None };
        let event_id = match get_uuid(ms, "eventId") { Some(v) => v, None => return None };
        let track_id = match get_uuid(ms, "trackId") { Some(v) => v, None => return None };
        let timestamp = match get_u32(ms, "timestamp") { Some(v) => v, None => return None };
        Some(EventAggClick { _type, event_id, track_id, timestamp })
    }
}

impl EventAggVisit {
    /// This visit is what the members `ms` hold.
    pub open spec fn decoded_from(&self, ms: Seq<(String, Json)>) -> bool {
        &&& text_member(ms, "type"@) == Some(self._type@)
        &&& uuid_member(ms, "eventId"@) == Some(self.event_id)
        &&& uuid_member(ms, "trackId"@) == Some(self.track_id)
        &&& u32_member(ms, "timestamp"@) == Some(self.timestamp)
        &&& u32_member(ms, "timeElapsed"@) == Some(self.time_elapsed)
    }

    /// Decodes a visit payload; any name beyond its five rejects it.
    pub fn from_json(j: &Json) -> (r: Option<EventAggVisit>)
        ensures
            r is Some <==> (members(*j) matches Some(ms) && visit_decodes(ms)),
            r matches Some(e) ==> e.decoded_from(members(*j).unwrap()),
    {
        let ms = match j {
            Json::Obj(ms) => ms,
            _ => return None,
        };
        let mut i: usize = 0;
        while i < ms.len()
            invariant
                i <= ms.len(),
                members(*j) == Some(ms@),
                forall|k: int| 0 <= k < i ==> visit_key(#[trigger] ms@[k].0@),
            decreases ms.len() - i,
        {
            if !is_visit_key(ms[i].0.as_str()) {
                assert(!visit_key(ms@[i as int].0@));
                return None;
            }
            i = i + 1;
        }
        let _type = match get_text(ms, "type") { Some(v) => v, None => return None };
        let event_id = match get_uuid(ms, "eventId") { Some(v) => v, None => return None };
        let track_id = match get_uuid(ms, "trackId") { Some(v) => v, None => return None };
        let timestamp = match get_u32(ms, "timestamp") { Some(v) => v, None => return None };
        let time_elapsed = match get_u32(ms, "timeElapsed") { Some(v) => v, None => return None };
        Some(EventAggVisit { _type, event_id, track_id, timestamp, time_elapsed })
    }
}

} // verus!
