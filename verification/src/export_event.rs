//! An event as the analytics service exports it.

use crate::fields::{
    copy_json_field, copy_object_field, copy_text, float_view, json_view, object_view,
    same_float, same_integer, same_json, same_object, same_text, same_time, text_view,
};
use crate::json::{JsonModel, JsonValue};
use crate::time::Timestamp;
use vstd::prelude::*;
use vstd::std_specs::cmp::PartialEqSpecImpl;

verus! {

/// One exported event. Every field may be missing.
///
/// Two events are equal (`==`) when they agree in every field but the
/// volatile ones, those that the service fills in anew each time an event is
/// taken in: see `same_event`.
#[derive(Debug)]
pub struct ExportEvent {
    /// The key by which the service tells one event from another.
    pub insert_id: Option<String>,
    pub insert_key: Option<JsonValue>,
    pub schema: Option<JsonValue>,
    pub adid: Option<String>,
    pub amplitude_attribution_ids: Option<JsonValue>,
    pub amplitude_event_type: Option<JsonValue>,
    pub amplitude_id: Option<i64>,
    pub app: Option<i64>,
    pub city: Option<String>,
    pub client_event_time: Option<Timestamp>,
    /// When the client handed the event to the service.
    pub client_upload_time: Option<Timestamp>,
    pub country: Option<String>,
    pub data: Option<Vec<(String, JsonValue)>>,
    pub data_type: Option<String>,
    pub device_brand: Option<String>,
    pub device_carrier: Option<String>,
    pub device_family: Option<String>,
    pub device_id: Option<String>,
    pub device_manufacturer: Option<String>,
    pub device_model: Option<String>,
    pub device_type: Option<String>,
    pub dma: Option<String>,
    pub event_id: Option<i64>,
    /// What the sender said of the event.
    pub event_properties: Option<Vec<(String, JsonValue)>>,
    /// When the event happened.
    pub event_time: Option<Timestamp>,
    /// The name of the event.
    pub event_type: Option<String>,
    pub global_user_properties: Option<JsonValue>,
    pub group_properties: Option<Vec<(String, JsonValue)>>,
    pub groups: Option<Vec<(String, JsonValue)>>,
    pub idfa: Option<String>,
    pub ip_address: Option<String>,
    pub is_attribution_event: Option<JsonValue>,
    pub language: Option<String>,
    pub library: Option<String>,
    /// The latitude, as the bit pattern of a finite `f64`.
    pub location_lat: Option<u64>,
    /// The longitude, as the bit pattern of a finite `f64`.
    pub location_lng: Option<u64>,
    pub os_name: Option<String>,
    pub os_version: Option<String>,
    pub partner_id: Option<JsonValue>,
    pub paying: Option<JsonValue>,
    pub plan: Option<Vec<(String, JsonValue)>>,
    pub platform: Option<String>,
    pub processed_time: Option<String>,
    pub region: Option<String>,
    pub sample_rate: Option<JsonValue>,
    pub server_received_time: Option<Timestamp>,
    pub server_upload_time: Option<Timestamp>,
    pub session_id: Option<i64>,
    pub source_id: Option<JsonValue>,
    pub start_version: Option<JsonValue>,
    pub user_creation_time: Option<JsonValue>,
    pub user_id: Option<String>,
    pub user_properties: Option<Vec<(String, JsonValue)>>,
    pub uuid: Option<String>,
    pub version_name: Option<JsonValue>,
}

/// What an exported event holds, apart from how it is stored.
pub struct ExportEventModel {
    pub insert_id: Option<Seq<char>>,
    pub insert_key: Option<JsonModel>,
    pub schema: Option<JsonModel>,
    pub adid: Option<Seq<char>>,
    pub amplitude_attribution_ids: Option<JsonModel>,
    pub amplitude_event_type: Option<JsonModel>,
    pub amplitude_id: Option<i64>,
    pub app: Option<i64>,
    pub city: Option<Seq<char>>,
    pub client_event_time: Option<Timestamp>,
    pub client_upload_time: Option<Timestamp>,
    pub country: Option<Seq<char>>,
    pub data: Option<Map<Seq<char>, JsonModel>>,
    pub data_type: Option<Seq<char>>,
    pub device_brand: Option<Seq<char>>,
    pub device_carrier: Option<Seq<char>>,
    pub device_family: Option<Seq<char>>,
    pub device_id: Option<Seq<char>>,
    pub device_manufacturer: Option<Seq<char>>,
    pub device_model: Option<Seq<char>>,
    pub device_type: Option<Seq<char>>,
    pub dma: Option<Seq<char>>,
    pub event_id: Option<i64>,
    pub event_properties: Option<Map<Seq<char>, JsonModel>>,
    pub event_time: Option<Timestamp>,
    pub event_type: Option<Seq<char>>,
    pub global_user_properties: Option<JsonModel>,
    pub group_properties: Option<Map<Seq<char>, JsonModel>>,
    pub groups: Option<Map<Seq<char>, JsonModel>>,
    pub idfa: Option<Seq<char>>,
    pub ip_address: Option<Seq<char>>,
    pub is_attribution_event: Option<JsonModel>,
    pub language: Option<Seq<char>>,
    pub library: Option<Seq<char>>,
    pub location_lat: Option<u64>,
    pub location_lng: Option<u64>,
    pub os_name: Option<Seq<char>>,
    pub os_version: Option<Seq<char>>,
    pub partner_id: Option<JsonModel>,
    pub paying: Option<JsonModel>,
    pub plan: Option<Map<Seq<char>, JsonModel>>,
    pub platform: Option<Seq<char>>,
    pub processed_time: Option<Seq<char>>,
    pub region: Option<Seq<char>>,
    pub sample_rate: Option<JsonModel>,
    pub server_received_time: Option<Timestamp>,
    pub server_upload_time: Option<Timestamp>,
    pub session_id: Option<i64>,
    pub source_id: Option<JsonModel>,
    pub start_version: Option<JsonModel>,
    pub user_creation_time: Option<JsonModel>,
    pub user_id: Option<Seq<char>>,
    pub user_properties: Option<Map<Seq<char>, JsonModel>>,
    pub uuid: Option<Seq<char>>,
    pub version_name: Option<JsonModel>,
}

impl View for ExportEvent {
    type V = ExportEventModel;

    open spec fn view(&self) -> ExportEventModel {
        ExportEventModel {
            insert_id: text_view(self.insert_id),
            insert_key: json_view(self.insert_key),
            schema: json_view(self.schema),
            adid: text_view(self.adid),
            amplitude_attribution_ids: json_view(self.amplitude_attribution_ids),
            amplitude_event_type: json_view(self.amplitude_event_type),
            amplitude_id: self.amplitude_id,
            app: self.app,
            city: text_view(self.city),
            client_event_time: self.client_event_time,
            client_upload_time: self.client_upload_time,
            country: text_view(self.country),
            data: object_view(self.data),
            data_type: text_view(self.data_type),
            device_brand: text_view(self.device_brand),
            device_carrier: text_view(self.device_carrier),
            device_family: text_view(self.device_family),
            device_id: text_view(self.device_id),
            device_manufacturer: text_view(self.device_manufacturer),
            device_model: text_view(self.device_model),
            device_type: text_view(self.device_type),
            dma: text_view(self.dma),
            event_id: self.event_id,
            event_properties: object_view(self.event_properties),
            event_time: self.event_time,
            event_type: text_view(self.event_type),
            global_user_properties: json_view(self.global_user_properties),
            group_properties: object_view(self.group_properties),
            groups: object_view(self.groups),
            idfa: text_view(self.idfa),
            ip_address: text_view(self.ip_address),
            is_attribution_event: json_view(self.is_attribution_event),
            language: text_view(self.language),
            library: text_view(self.library),
            location_lat: float_view(self.location_lat),
            location_lng: float_view(self.location_lng),
            os_name: text_view(self.os_name),
            os_version: text_view(self.os_version),
            partner_id: json_view(self.partner_id),
            paying: json_view(self.paying),
            plan: object_view(self.plan),
            platform: text_view(self.platform),
            processed_time: text_view(self.processed_time),
            region: text_view(self.region),
            sample_rate: json_view(self.sample_rate),
            server_received_time: self.server_received_time,
            server_upload_time: self.server_upload_time,
            session_id: self.session_id,
            source_id: json_view(self.source_id),
            start_version: json_view(self.start_version),
            user_creation_time: json_view(self.user_creation_time),
            user_id: text_view(self.user_id),
            user_properties: object_view(self.user_properties),
            uuid: text_view(self.uuid),
            version_name: json_view(self.version_name),
        }
    }
}

/// The contents of a list of events, in order.
pub open spec fn events_view(events: Seq<ExportEvent>) -> Seq<ExportEventModel> {
    events.map_values(|e: ExportEvent| e@)
}

/// A copy of a list of events.
pub fn clone_events(events: &Vec<ExportEvent>) -> (copy: Vec<ExportEvent>)
    ensures
        events_view(copy@) == events_view(events@),
{
    let mut out: Vec<ExportEvent> = Vec::new();
    let mut i: usize = 0;
    while i < events.len()
        invariant
            i <= events.len(),
            out@.len() == i,
            forall|j: int| 0 <= j < i ==> (#[trigger] out@[j])@ == events@[j]@,
        decreases events.len() - i,
    {
        let e = events[i].clone();
        out.push(e);
        i += 1;
    }
    assert(events_view(out@) =~= events_view(events@));
    out
}

/// The event of which nothing is known.
pub open spec fn empty_event() -> ExportEventModel {
    ExportEventModel {
        insert_id: None,
        insert_key: None,
        schema: None,
        adid: None,
        amplitude_attribution_ids: None,
        amplitude_event_type: None,
        amplitude_id: None,
        app: None,
        city: None,
        client_event_time: None,
        client_upload_time: None,
        country: None,
        data: None,
        data_type: None,
        device_brand: None,
        device_carrier: None,
        device_family: None,
        device_id: None,
        device_manufacturer: None,
        device_model: None,
        device_type: None,
        dma: None,
        event_id: None,
        event_properties: None,
        event_time: None,
        event_type: None,
        global_user_properties: None,
        group_properties: None,
        groups: None,
        idfa: None,
        ip_address: None,
        is_attribution_event: None,
        language: None,
        library: None,
        location_lat: None,
        location_lng: None,
        os_name: None,
        os_version: None,
        partner_id: None,
        paying: None,
        plan: None,
        platform: None,
        processed_time: None,
        region: None,
        sample_rate: None,
        server_received_time: None,
        server_upload_time: None,
        session_id: None,
        source_id: None,
        start_version: None,
        user_creation_time: None,
        user_id: None,
        user_properties: None,
        uuid: None,
        version_name: None,
    }
}

/// The two events agree in every field that is not volatile.
///
/// Volatile are the ids and times that the service assigns when it takes an
/// event in (`app`, `event_id`, `uuid`, the upload, receipt and processing
/// times), what it derives from the connection and the device (place,
/// carrier, platform, versions), and `data` and `user_properties`.
pub open spec fn same_event(a: ExportEventModel, b: ExportEventModel) -> bool {
    &&& a.insert_id == b.insert_id
    &&& a.insert_key == b.insert_key
    &&& a.schema == b.schema
    &&& a.adid == b.adid
    &&& a.amplitude_attribution_ids == b.amplitude_attribution_ids
    &&& a.amplitude_event_type == b.amplitude_event_type
    &&& a.amplitude_id == b.amplitude_id
    &&& a.client_event_time == b.client_event_time
    &&& a.data_type == b.data_type
    &&& a.device_brand == b.device_brand
    &&& a.device_id == b.device_id
    &&& a.device_manufacturer == b.device_manufacturer
    &&& a.device_model == b.device_model
    &&& a.event_properties == b.event_properties
    &&& a.event_time == b.event_time
    &&& a.event_type == b.event_type
    &&& a.global_user_properties == b.global_user_properties
    &&& a.group_properties == b.group_properties
    &&& a.groups == b.groups
    &&& a.idfa == b.idfa
    &&& a.is_attribution_event == b.is_attribution_event
    &&& a.library == b.library
    &&& a.location_lat == b.location_lat
    &&& a.location_lng == b.location_lng
    &&& a.partner_id == b.partner_id
    &&& a.paying == b.paying
    &&& a.plan == b.plan
    &&& a.sample_rate == b.sample_rate
    &&& a.session_id == b.session_id
    &&& a.source_id == b.source_id
    &&& a.user_creation_time == b.user_creation_time
    &&& a.user_id == b.user_id
}

impl Clone for ExportEvent {
    fn clone(&self) -> (copy: Self)
        ensures
            copy@ == self@,
    {
        ExportEvent {
            insert_id: copy_text(&self.insert_id),
            insert_key: copy_json_field(&self.insert_key),
            schema: copy_json_field(&self.schema),
            adid: copy_text(&self.adid),
            amplitude_attribution_ids: copy_json_field(&self.amplitude_attribution_ids),
            amplitude_event_type: copy_json_field(&self.amplitude_event_type),
            amplitude_id: self.amplitude_id,
            app: self.app,
            city: copy_text(&self.city),
            client_event_time: self.client_event_time,
            client_upload_time: self.client_upload_time,
            country: copy_text(&self.country),
            data: copy_object_field(&self.data),
            data_type: copy_text(&self.data_type),
            device_brand: copy_text(&self.device_brand),
            device_carrier: copy_text(&self.device_carrier),
            device_family: copy_text(&self.device_family),
            device_id: copy_text(&self.device_id),
            device_manufacturer: copy_text(&self.device_manufacturer),
            device_model: copy_text(&self.device_model),
            device_type: copy_text(&self.device_type),
            dma: copy_text(&self.dma),
            event_id: self.event_id,
            event_properties: copy_object_field(&self.event_properties),
            event_time: self.event_time,
            event_type: copy_text(&self.event_type),
            global_user_properties: copy_json_field(&self.global_user_properties),
            group_properties: copy_object_field(&self.group_properties),
            groups: copy_object_field(&self.groups),
            idfa: copy_text(&self.idfa),
            ip_address: copy_text(&self.ip_address),
            is_attribution_event: copy_json_field(&self.is_attribution_event),
            language: copy_text(&self.language),
            library: copy_text(&self.library),
            location_lat: self.location_lat,
            location_lng: self.location_lng,
            os_name: copy_text(&self.os_name),
            os_version: copy_text(&self.os_version),
            partner_id: copy_json_field(&self.partner_id),
            paying: copy_json_field(&self.paying),
            plan: copy_object_field(&self.plan),
            platform: copy_text(&self.platform),
            processed_time: copy_text(&self.processed_time),
            region: copy_text(&self.region),
            sample_rate: copy_json_field(&self.sample_rate),
            server_received_time: self.server_received_time,
            server_upload_time: self.server_upload_time,
            session_id: self.session_id,
            source_id: copy_json_field(&self.source_id),
            start_version: copy_json_field(&self.start_version),
            user_creation_time: copy_json_field(&self.user_creation_time),
            user_id: copy_text(&self.user_id),
            user_properties: copy_object_field(&self.user_properties),
            uuid: copy_text(&self.uuid),
            version_name: copy_json_field(&self.version_name),
        }
    }
}

impl Default for ExportEvent {
    fn default() -> (event: Self)
        ensures
            event@ == empty_event(),
    {
        ExportEvent {
            insert_id: None,
            insert_key: None,
            schema: None,
            adid: None,
            amplitude_attribution_ids: None,
            amplitude_event_type: None,
            amplitude_id: None,
            app: None,
            city: None,
            client_event_time: None,
            client_upload_time: None,
            country: None,
            data: None,
            data_type: None,
            device_brand: None,
            device_carrier: None,
            device_family: None,
            device_id: None,
            device_manufacturer: None,
            device_model: None,
            device_type: None,
            dma: None,
            event_id: None,
            event_properties: None,
            event_time: None,
            event_type: None,
            global_user_properties: None,
            group_properties: None,
            groups: None,
            idfa: None,
            ip_address: None,
            is_attribution_event: None,
            language: None,
            library: None,
            location_lat: None,
            location_lng: None,
            os_name: None,
            os_version: None,
            partner_id: None,
            paying: None,
            plan: None,
            platform: None,
            processed_time: None,
            region: None,
            sample_rate: None,
            server_received_time: None,
            server_upload_time: None,
            session_id: None,
            source_id: None,
            start_version: None,
            user_creation_time: None,
            user_id: None,
            user_properties: None,
            uuid: None,
            version_name: None,
        }
    }
}

impl ExportEvent {
    /// Whether the two events agree in every field that is not volatile.
    pub fn is_same_event(&self, other: &ExportEvent) -> (same: bool)
        ensures
            same == same_event(self@, other@),
    {
        same_text(&self.insert_id, &other.insert_id)
            && same_json(&self.insert_key, &other.insert_key)
            && same_json(&self.schema, &other.schema)
            && same_text(&self.adid, &other.adid)
            && same_json(&self.amplitude_attribution_ids, &other.amplitude_attribution_ids)
            && same_json(&self.amplitude_event_type, &other.amplitude_event_type)
            && same_integer(&self.amplitude_id, &other.amplitude_id)
            && same_time(&self.client_event_time, &other.client_event_time)
            && same_text(&self.data_type, &other.data_type)
            && same_text(&self.device_brand, &other.device_brand)
            && same_text(&self.device_id, &other.device_id)
            && same_text(&self.device_manufacturer, &other.device_manufacturer)
            && same_text(&self.device_model, &other.device_model)
            && same_object(&self.event_properties, &other.event_properties)
            && same_time(&self.event_time, &other.event_time)
            && same_text(&self.event_type, &other.event_type)
            && same_json(&self.global_user_properties, &other.global_user_properties)
            && same_object(&self.group_properties, &other.group_properties)
            && same_object(&self.groups, &other.groups)
            && same_text(&self.idfa, &other.idfa)
            && same_json(&self.is_attribution_event, &other.is_attribution_event)
            && same_text(&self.library, &other.library)
            && same_float(&self.location_lat, &other.location_lat)
            && same_float(&self.location_lng, &other.location_lng)
            && same_json(&self.partner_id, &other.partner_id)
            && same_json(&self.paying, &other.paying)
            && same_object(&self.plan, &other.plan)
            && same_json(&self.sample_rate, &other.sample_rate)
            && same_integer(&self.session_id, &other.session_id)
            && same_json(&self.source_id, &other.source_id)
            && same_json(&self.user_creation_time, &other.user_creation_time)
            && same_text(&self.user_id, &other.user_id)
    }
}

impl PartialEq for ExportEvent {
    fn eq(&self, other: &Self) -> (same: bool) {
        self.is_same_event(other)
    }
}

impl PartialEqSpecImpl for ExportEvent {
    open spec fn obeys_eq_spec() -> bool {
        true
    }

    open spec fn eq_spec(&self, other: &Self) -> bool {
        same_event(self@, other@)
    }
}

/// `same_event` is an equivalence.
pub proof fn law_same_event_is_an_equivalence(
    a: ExportEventModel,
    b: ExportEventModel,
    c: ExportEventModel,
)
    ensures
        same_event(a, a),
        same_event(a, b) == same_event(b, a),
        same_event(a, b) && same_event(b, c) ==> same_event(a, c),
{
}

} // verus!
