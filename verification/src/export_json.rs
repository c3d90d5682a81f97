//! An exported event as a JSON object, the form in which it is written to a
//! file and in which two events are compared field by field.

use crate::export_event::{ExportEvent, ExportEventModel};
use crate::fields::{
    float_json, float_to_json, integer_json, integer_to_json, object_json, object_to_json,
    text_json, text_to_json, time_json, time_to_json, value_json, value_to_json,
};
use crate::json::{object_model, JsonModel, JsonValue};
use vstd::prelude::*;

verus! {

/// The keys and contents of a list of members, in order.
pub open spec fn members_view(members: Seq<(String, JsonValue)>) -> Seq<(Seq<char>, JsonModel)> {
    members.map_values(|m: (String, JsonValue)| (m.0@, m.1.model()))
}

/// The map that a list of keys and contents stands for: the first entry
/// with a key gives the key's value.
pub open spec fn pairs_map(pairs: Seq<(Seq<char>, JsonModel)>) -> Map<Seq<char>, JsonModel>
    decreases pairs.len(),
{
    if pairs.len() == 0 {
        Map::empty()
    } else {
        pairs_map(pairs.drop_first()).insert(pairs[0].0, pairs[0].1)
    }
}

/// A list of members stands for the map of its keys and contents.
pub proof fn lemma_object_model_is_pairs_map(members: Seq<(String, JsonValue)>)
    ensures
        object_model(members) == pairs_map(members_view(members)),
    decreases members.len(),
{
    if members.len() > 0 {
        lemma_object_model_is_pairs_map(members.drop_first());
        assert(members_view(members).drop_first() =~= members_view(members.drop_first()));
    }
}

/// Part 1 of the fields of an event as JSON members, under the names
/// they have in an export file.
pub open spec fn flatten_part_1(e: ExportEventModel) -> Seq<(Seq<char>, JsonModel)> {
    seq![
        ("$insert_id"@, text_json(e.insert_id)),
        ("$insert_key"@, value_json(e.insert_key)),
        ("$schema"@, value_json(e.schema)),
        ("adid"@, text_json(e.adid)),
        ("amplitude_attribution_ids"@, value_json(e.amplitude_attribution_ids)),
        ("amplitude_event_type"@, value_json(e.amplitude_event_type)),
        ("amplitude_id"@, integer_json(e.amplitude_id)),
        ("app"@, integer_json(e.app)),
    ]
}

/// Part 2 of the fields of an event as JSON members, under the names
/// they have in an export file.
pub open spec fn flatten_part_2(e: ExportEventModel) -> Seq<(Seq<char>, JsonModel)> {
    seq![
        ("city"@, text_json(e.city)),
        ("client_event_time"@, time_json(e.client_event_time)),
        ("client_upload_time"@, time_json(e.client_upload_time)),
        ("country"@, text_json(e.country)),
        ("data"@, object_json(e.data)),
        ("data_type"@, text_json(e.data_type)),
        ("device_brand"@, text_json(e.device_brand)),
        ("device_carrier"@, text_json(e.device_carrier)),
    ]
}

/// Part 3 of the fields of an event as JSON members, under the names
/// they have in an export file.
pub open spec fn flatten_part_3(e: ExportEventModel) -> Seq<(Seq<char>, JsonModel)> {
    seq![
        ("device_family"@, text_json(e.device_family)),
        ("device_id"@, text_json(e.device_id)),
        ("device_manufacturer"@, text_json(e.device_manufacturer)),
        ("device_model"@, text_json(e.device_model)),
        ("device_type"@, text_json(e.device_type)),
        ("dma"@, text_json(e.dma)),
        ("event_id"@, integer_json(e.event_id)),
        ("event_properties"@, object_json(e.event_properties)),
    ]
}

/// Part 4 of the fields of an event as JSON members, under the names
/// they have in an export file.
pub open spec fn flatten_part_4(e: ExportEventModel) -> Seq<(Seq<char>, JsonModel)> {
    seq![
        ("event_time"@, time_json(e.event_time)),
        ("event_type"@, text_json(e.event_type)),
        ("global_user_properties"@, value_json(e.global_user_properties)),
        ("group_properties"@, object_json(e.group_properties)),
        ("groups"@, object_json(e.groups)),
        ("idfa"@, text_json(e.idfa)),
        ("ip_address"@, text_json(e.ip_address)),
        ("is_attribution_event"@, value_json(e.is_attribution_event)),
    ]
}

/// Part 5 of the fields of an event as JSON members, under the names
/// they have in an export file.
pub open spec fn flatten_part_5(e: ExportEventModel) -> Seq<(Seq<char>, JsonModel)> {
    seq![
        ("language"@, text_json(e.language)),
        ("library"@, text_json(e.library)),
        ("location_lat"@, float_json(e.location_lat)),
        ("location_lng"@, float_json(e.location_lng)),
        ("os_name"@, text_json(e.os_name)),
        ("os_version"@, text_json(e.os_version)),
        ("partner_id"@, value_json(e.partner_id)),
        ("paying"@, value_json(e.paying)),
    ]
}

/// Part 6 of the fields of an event as JSON members, under the names
/// they have in an export file.
pub open spec fn flatten_part_6(e: ExportEventModel) -> Seq<(Seq<char>, JsonModel)> {
    seq![
        ("plan"@, object_json(e.plan)),
        ("platform"@, text_json(e.platform)),
        ("processed_time"@, text_json(e.processed_time)),
        ("region"@, text_json(e.region)),
        ("sample_rate"@, value_json(e.sample_rate)),
        ("server_received_time"@, time_json(e.server_received_time)),
        ("server_upload_time"@, time_json(e.server_upload_time)),
        ("session_id"@, integer_json(e.session_id)),
    ]
}

/// Part 7 of the fields of an event as JSON members, under the names
/// they have in an export file.
pub open spec fn flatten_part_7(e: ExportEventModel) -> Seq<(Seq<char>, JsonModel)> {
    seq![
        ("source_id"@, value_json(e.source_id)),
        ("start_version"@, value_json(e.start_version)),
        ("user_creation_time"@, value_json(e.user_creation_time)),
        ("user_id"@, text_json(e.user_id)),
        ("user_properties"@, object_json(e.user_properties)),
        ("uuid"@, text_json(e.uuid)),
        ("version_name"@, value_json(e.version_name)),
    ]
}

/// The fields of an event as JSON members, under the names they have in an
/// export file and in the order of the file. A missing field is `null`.
pub open spec fn flatten(e: ExportEventModel) -> Seq<(Seq<char>, JsonModel)> {
    flatten_part_1(e) + flatten_part_2(e) + flatten_part_3(e) + flatten_part_4(e) + flatten_part_5(e) + flatten_part_6(e) + flatten_part_7(e)
}

/// The event as a map from the names of its fields to their values.
pub open spec fn record_map(e: ExportEventModel) -> Map<Seq<char>, JsonModel> {
    pairs_map(flatten(e))
}

fn push_part_1(event: &ExportEvent, out: &mut Vec<(String, JsonValue)>)
    ensures
        members_view(final(out)@) == members_view(old(out)@) + flatten_part_1(event@),
{
    let ghost before = members_view(out@);
    out.push(("$insert_id".to_owned(), text_to_json(&event.insert_id)));
    out.push(("$insert_key".to_owned(), value_to_json(&event.insert_key)));
    out.push(("$schema".to_owned(), value_to_json(&event.schema)));
    out.push(("adid".to_owned(), text_to_json(&event.adid)));
    out.push(("amplitude_attribution_ids".to_owned(), value_to_json(&event.amplitude_attribution_ids)));
    out.push(("amplitude_event_type".to_owned(), value_to_json(&event.amplitude_event_type)));
    out.push(("amplitude_id".to_owned(), integer_to_json(&event.amplitude_id)));
    out.push(("app".to_owned(), integer_to_json(&event.app)));
    assert(members_view(out@) =~= before + flatten_part_1(event@));
}

fn push_part_2(event: &ExportEvent, out: &mut Vec<(String, JsonValue)>)
    ensures
        members_view(final(out)@) == members_view(old(out)@) + flatten_part_2(event@),
{
    let ghost before = members_view(out@);
    out.push(("city".to_owned(), text_to_json(&event.city)));
    out.push(("client_event_time".to_owned(), time_to_json(&event.client_event_time)));
    out.push(("client_upload_time".to_owned(), time_to_json(&event.client_upload_time)));
    out.push(("country".to_owned(), text_to_json(&event.country)));
    out.push(("data".to_owned(), object_to_json(&event.data)));
    out.push(("data_type".to_owned(), text_to_json(&event.data_type)));
    out.push(("device_brand".to_owned(), text_to_json(&event.device_brand)));
    out.push(("device_carrier".to_owned(), text_to_json(&event.device_carrier)));
    assert(members_view(out@) =~= before + flatten_part_2(event@));
}

fn push_part_3(event: &ExportEvent, out: &mut Vec<(String, JsonValue)>)
    ensures
        members_view(final(out)@) == members_view(old(out)@) + flatten_part_3(event@),
{
    let ghost before = members_view(out@);
    out.push(("device_family".to_owned(), text_to_json(&event.device_family)));
    out.push(("device_id".to_owned(), text_to_json(&event.device_id)));
    out.push(("device_manufacturer".to_owned(), text_to_json(&event.device_manufacturer)));
    out.push(("device_model".to_owned(), text_to_json(&event.device_model)));
    out.push(("device_type".to_owned(), text_to_json(&event.device_type)));
    out.push(("dma".to_owned(), text_to_json(&event.dma)));
    out.push(("event_id".to_owned(), integer_to_json(&event.event_id)));
    out.push(("event_properties".to_owned(), object_to_json(&event.event_properties)));
    assert(members_view(out@) =~= before + flatten_part_3(event@));
}

fn push_part_4(event: &ExportEvent, out: &mut Vec<(String, JsonValue)>)
    ensures
        members_view(final(out)@) == members_view(old(out)@) + flatten_part_4(event@),
{
    let ghost before = members_view(out@);
    out.push(("event_time".to_owned(), time_to_json(&event.event_time)));
    out.push(("event_type".to_owned(), text_to_json(&event.event_type)));
    out.push(("global_user_properties".to_owned(), value_to_json(&event.global_user_properties)));
    out.push(("group_properties".to_owned(), object_to_json(&event.group_properties)));
    out.push(("groups".to_owned(), object_to_json(&event.groups)));
    out.push(("idfa".to_owned(), text_to_json(&event.idfa)));
    out.push(("ip_address".to_owned(), text_to_json(&event.ip_address)));
    out.push(("is_attribution_event".to_owned(), value_to_json(&event.is_attribution_event)));
    assert(members_view(out@) =~= before + flatten_part_4(event@));
}

fn push_part_5(event: &ExportEvent, out: &mut Vec<(String, JsonValue)>)
    ensures
        members_view(final(out)@) == members_view(old(out)@) + flatten_part_5(event@),
{
    let ghost before = members_view(out@);
    out.push(("language".to_owned(), text_to_json(&event.language)));
    out.push(("library".to_owned(), text_to_json(&event.library)));
    out.push(("location_lat".to_owned(), float_to_json(&event.location_lat)));
    out.push(("location_lng".to_owned(), float_to_json(&event.location_lng)));
    out.push(("os_name".to_owned(), text_to_json(&event.os_name)));
    out.push(("os_version".to_owned(), text_to_json(&event.os_version)));
    out.push(("partner_id".to_owned(), value_to_json(&event.partner_id)));
    out.push(("paying".to_owned(), value_to_json(&event.paying)));
    assert(members_view(out@) =~= before + flatten_part_5(event@));
}

fn push_part_6(event: &ExportEvent, out: &mut Vec<(String, JsonValue)>)
    ensures
        members_view(final(out)@) == members_view(old(out)@) + flatten_part_6(event@),
{
    let ghost before = members_view(out@);
    out.push(("plan".to_owned(), object_to_json(&event.plan)));
    out.push(("platform".to_owned(), text_to_json(&event.platform)));
    out.push(("processed_time".to_owned(), text_to_json(&event.processed_time)));
    out.push(("region".to_owned(), text_to_json(&event.region)));
    out.push(("sample_rate".to_owned(), value_to_json(&event.sample_rate)));
    out.push(("server_received_time".to_owned(), time_to_json(&event.server_received_time)));
    out.push(("server_upload_time".to_owned(), time_to_json(&event.server_upload_time)));
    out.push(("session_id".to_owned(), integer_to_json(&event.session_id)));
    assert(members_view(out@) =~= before + flatten_part_6(event@));
}

fn push_part_7(event: &ExportEvent, out: &mut Vec<(String, JsonValue)>)
    ensures
        members_view(final(out)@) == members_view(old(out)@) + flatten_part_7(event@),
{
    let ghost before = members_view(out@);
    out.push(("source_id".to_owned(), value_to_json(&event.source_id)));
    out.push(("start_version".to_owned(), value_to_json(&event.start_version)));
    out.push(("user_creation_time".to_owned(), value_to_json(&event.user_creation_time)));
    out.push(("user_id".to_owned(), text_to_json(&event.user_id)));
    out.push(("user_properties".to_owned(), object_to_json(&event.user_properties)));
    out.push(("uuid".to_owned(), text_to_json(&event.uuid)));
    out.push(("version_name".to_owned(), value_to_json(&event.version_name)));
    assert(members_view(out@) =~= before + flatten_part_7(event@));
}

impl ExportEvent {
    /// The event as the members of a JSON object.
    pub fn to_json(&self) -> (members: Vec<(String, JsonValue)>)
        ensures
            members_view(members@) == flatten(self@),
            object_model(members@) == record_map(self@),
    {
        let mut out: Vec<(String, JsonValue)> = Vec::new();
        assert(members_view(out@) =~= Seq::<(Seq<char>, JsonModel)>::empty());
        push_part_1(self, &mut out);
        push_part_2(self, &mut out);
        push_part_3(self, &mut out);
        push_part_4(self, &mut out);
        push_part_5(self, &mut out);
        push_part_6(self, &mut out);
        push_part_7(self, &mut out);
        assert(members_view(out@) =~= flatten(self@));
        proof {
            lemma_object_model_is_pairs_map(out@);
        }
        out
    }
}

} // verus!
