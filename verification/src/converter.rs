//! Events as rows of a table: what is taken out of each line of an export.

use crate::amplitude_types::as_text;
use crate::json::{find_key, lemma_index_of_key, object_model, JsonModel, JsonValue};
use crate::text::{push_char_of, push_underscore};
use crate::time::{deserialize_amplitude_timestamp, export_time_of_text, Timestamp};
use crate::transform::diff::value_at;
use vstd::prelude::*;
use vstd::string::*;

verus! {

/// What is kept of one line of an export.
#[derive(Debug)]
pub struct ParsedItem {
    pub user_id: Option<String>,
    pub screen_name: Option<String>,
    pub event_name: String,
    /// Whether the event came in by another way than the page itself.
    pub server_event: bool,
    pub event_time: Timestamp,
    pub uuid: String,
    pub raw_json: String,
    pub source_file: String,
    pub session_id: Option<u64>,
}

/// Why a line gives no item.
#[derive(Clone, Copy, Debug, PartialEq, Eq, Structural)]
pub enum ItemError {
    MissingUuid,
    MissingDataPath,
    MissingEventName,
}

/// What the error says.
pub open spec fn item_error_text(error: ItemError) -> Seq<char> {
    match error {
        ItemError::MissingUuid => "Missing uuid"@,
        ItemError::MissingDataPath => "Missing data/path for server_event"@,
        ItemError::MissingEventName => "Missing event name"@,
    }
}

impl ItemError {
    /// What the error says.
    pub fn message(&self) -> (text: String)
        ensures
            text@ == item_error_text(*self),
    {
        match self {
            ItemError::MissingUuid => "Missing uuid".to_owned(),
            ItemError::MissingDataPath => "Missing data/path for server_event".to_owned(),
            ItemError::MissingEventName => "Missing event name".to_owned(),
        }
    }
}

/// What a JSON value holds under a key; nothing where it is not an object.
pub open spec fn member(json: JsonModel, key: Seq<char>) -> Option<JsonModel> {
    match json {
        JsonModel::Object(map) => value_at(map, key),
        _ => None,
    }
}

/// The text that a JSON value holds under a key.
pub open spec fn text_member(json: JsonModel, key: Seq<char>) -> Option<Seq<char>> {
    as_text(member(json, key))
}

/// The path by which the event came in.
pub open spec fn data_path(json: JsonModel) -> Option<Seq<char>> {
    match member(json, "data"@) {
        Some(data) => text_member(data, "path"@),
        None => None,
    }
}

/// The time of the event, where the line tells one in the export's form.
pub open spec fn item_time(json: JsonModel) -> Option<Timestamp> {
    match text_member(json, "event_time"@) {
        Some(text) => export_time_of_text(text),
        None => None,
    }
}

/// The session of the event, where the line tells one as a whole number
/// that is not negative.
pub open spec fn item_session(json: JsonModel) -> Option<u64> {
    match member(json, "session_id"@) {
        Some(JsonModel::Integer(n)) => if 0 <= n <= u64::MAX {
            Some(n as u64)
        } else {
            None
        },
        _ => None,
    }
}

/// The line can be read: a line with a uuid has `data`, and a line that
/// also tells its path has an event time in the export's form.
pub open spec fn is_readable_line(json: JsonModel) -> bool {
    &&& text_member(json, "uuid"@) is Some ==> member(json, "data"@) is Some
    &&& text_member(json, "uuid"@) is Some && data_path(json) is Some ==> item_time(json) is Some
}

/// The first reason why the line gives no item, if there is one.
pub open spec fn item_obstacle(json: JsonModel) -> Option<ItemError> {
    if text_member(json, "uuid"@) is None {
        Some(ItemError::MissingUuid)
    } else if data_path(json) is None {
        Some(ItemError::MissingDataPath)
    } else if text_member(json, "event_type"@) is None {
        Some(ItemError::MissingEventName)
    } else {
        None
    }
}

/// The item is the one that the line gives.
pub open spec fn is_item_of(
    item: ParsedItem,
    json: JsonModel,
    raw_json: Seq<char>,
    source_file: Seq<char>,
) -> bool {
    &&& crate::fields::text_view(item.user_id) == text_member(json, "user_id"@)
    &&& item.screen_name is None
    &&& Some(item.event_name@) == text_member(json, "event_type"@)
    &&& data_path(json) matches Some(path) && item.server_event == (path != "/"@)
    &&& Some(item.event_time) == item_time(json)
    &&& Some(item.uuid@) == text_member(json, "uuid"@)
    &&& item.raw_json@ == raw_json
    &&& item.source_file@ == source_file
    &&& item.session_id == item_session(json)
}

/// What a JSON value holds under a key.
pub fn get_member<'a>(json: &'a JsonValue, key: &str) -> (found: Option<&'a JsonValue>)
    ensures
        found matches Some(v) ==> member(json.model(), key@) == Some(v.model()),
        found is None ==> member(json.model(), key@) is None,
{
    match json {
        JsonValue::Object(members) => {
            let name = key.to_owned();
            proof {
                lemma_index_of_key(members@, key@);
            }
            match find_key(members, &name) {
                Some(i) => Some(&members[i].1),
                None => None,
            }
        },
        _ => None,
    }
}

/// The text that a JSON value holds under a key.
pub fn get_text<'a>(json: &'a JsonValue, key: &str) -> (found: Option<&'a String>)
    ensures
        found matches Some(s) ==> text_member(json.model(), key@) == Some(s@),
        found is None ==> text_member(json.model(), key@) is None,
{
    match get_member(json, key) {
        Some(JsonValue::String(s)) => Some(s),
        _ => None,
    }
}

/// The time of the event, where the line tells one in the export's form.
pub fn read_item_time(json: &JsonValue) -> (time: Option<Timestamp>)
    ensures
        time == item_time(json.model()),
{
    match get_text(json, "event_time") {
        Some(text) => match deserialize_amplitude_timestamp(Some(text.as_str())) {
            Ok(time) => time,
            Err(_) => None,
        },
        None => None,
    }
}

/// Whether the line can be read.
pub fn is_readable(json: &JsonValue) -> (readable: bool)
    ensures
        readable == is_readable_line(json.model()),
{
    if get_text(json, "uuid").is_none() {
        return true;
    }
    match get_member(json, "data") {
        None => false,
        Some(data) => {
            if get_text(data, "path").is_none() {
                true
            } else {
                read_item_time(json).is_some()
            }
        },
    }
}

/// What is kept of one line of an export, or `None` for a line that cannot
/// be read.
pub fn try_parse_item(json: &JsonValue, raw_json: &str, source_file: &str) -> (parsed: Option<
    Result<ParsedItem, ItemError>,
>)
    ensures
        parsed is Some == is_readable_line(json.model()),
        parsed matches Some(Ok(item)) ==> item_obstacle(json.model()) is None && is_item_of(
            item,
            json.model(),
            raw_json@,
            source_file@,
        ),
        parsed matches Some(Err(error)) ==> item_obstacle(json.model()) == Some(error),
{
    if is_readable(json) {
        Some(parse_item(json, raw_json, source_file))
    } else {
        None
    }
}

/// What is kept of one line of an export. `json` is the line as a JSON
/// value, `raw_json` its text, `source_file` the name of the file it stands
/// in.
pub fn parse_item(json: &JsonValue, raw_json: &str, source_file: &str) -> (parsed: Result<
    ParsedItem,
    ItemError,
>)
    requires
        is_readable_line(json.model()),
    ensures
        parsed matches Ok(item) ==> item_obstacle(json.model()) is None && is_item_of(
            item,
            json.model(),
            raw_json@,
            source_file@,
        ),
        parsed matches Err(error) ==> item_obstacle(json.model()) == Some(error),
{
    let user_id = match get_text(json, "user_id") {
        Some(s) => Some(s.clone()),
        None => None,
    };
    let uuid = match get_text(json, "uuid") {
        Some(s) => s.clone(),
        None => {
            return Err(ItemError::MissingUuid);
        },
    };
    let slash = "/".to_owned();
    let server_event = match get_member(json, "data") {
        Some(data) => match get_text(data, "path") {
            Some(path) => !(*path == slash),
            None => {
                return Err(ItemError::MissingDataPath);
            },
        },
        None => {
            return Err(ItemError::MissingDataPath);
        },
    };
    let event_time = match read_item_time(json) {
        Some(t) => t,
        None => unreached(),
    };
    let event_name = match get_text(json, "event_type") {
        Some(s) => s.clone(),
        None => {
            return Err(ItemError::MissingEventName);
        },
    };
    let session_id = match get_member(json, "session_id") {
        Some(JsonValue::PosInt(n)) => Some(*n),
        Some(JsonValue::NegInt(n)) => if *n >= 0 {
            Some(*n as u64)
        } else {
            None
        },
        _ => None,
    };
    Ok(
        ParsedItem {
            user_id,
            screen_name: None,
            event_name,
            server_event,
            event_time,
            uuid,
            raw_json: raw_json.to_owned(),
            source_file: source_file.to_owned(),
            session_id,
        },
    )
}

/// The character that stands for `c` in a plain file name: `c` itself where
/// it is a letter or a digit of ASCII, `-` or `_`, and `_` otherwise.
pub open spec fn plain_char(c: char) -> char {
    if ('a' <= c && c <= 'z') || ('A' <= c && c <= 'Z') || ('0' <= c && c <= '9') || c == '-'
        || c == '_' {
        c
    } else {
        '_'
    }
}

/// The text with each character replaced by the one that stands for it in a
/// plain file name.
pub open spec fn plain_name(text: Seq<char>) -> Seq<char> {
    text.map_values(|c: char| plain_char(c))
}

/// A name fit for a file on every system: every character that is not a
/// letter or a digit of ASCII, `-` or `_` becomes `_`.
pub fn sanitize_filename(filename: &str) -> (safe: String)
    ensures
        safe@ == plain_name(filename@),
{
    let n = filename.unicode_len();
    let mut out = String::new();
    let mut i: usize = 0;
    while i < n
        invariant
            i <= n,
            n == filename@.len(),
            out@ == plain_name(filename@.subrange(0, i as int)),
        decreases n - i,
    {
        let c = filename.get_char(i);
        let ghost kept = plain_char(c);
        if ('a' <= c && c <= 'z') || ('A' <= c && c <= 'Z') || ('0' <= c && c <= '9') || c == '-'
            || c == '_' {
            push_char_of(&mut out, filename, i);
        } else {
            push_underscore(&mut out);
        }
        assert(filename@.subrange(0, i + 1) =~= filename@.subrange(0, i as int).push(c));
        assert(plain_name(filename@.subrange(0, i + 1)) =~= plain_name(
            filename@.subrange(0, i as int),
        ).push(kept));
        i += 1;
    }
    assert(filename@.subrange(0, n as int) =~= filename@);
    out
}

} // verus!
