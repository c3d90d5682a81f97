//! What is sent to and comes back from the service's batch upload.

use crate::export_event::{ExportEvent, ExportEventModel};
use crate::fields::{copy_object_field, copy_text, float_view, object_view, text_view};
use crate::json::{JsonModel, JsonValue};
use vstd::prelude::*;
use vstd::string::*;

verus! {

/// The body of a batch upload.
#[derive(Debug)]
pub struct BatchUploadRequest {
    /// The key of the project that takes the events in.
    pub api_key: String,
    pub events: Vec<Event>,
    pub options: Option<UploadOptions>,
}

/// Options of a batch upload.
#[derive(Debug)]
pub struct UploadOptions {
    /// The least length of device ids and user ids (the service takes 5
    /// where nothing is said).
    pub min_id_length: Option<usize>,
}

/// One event of a batch upload. A floating-point number is held as the bit
/// pattern of a finite `f64`.
#[derive(Debug)]
pub struct Event {
    pub user_id: Option<String>,
    pub device_id: Option<String>,
    pub event_type: String,
    pub time: i64,
    pub event_properties: Option<Vec<(String, JsonValue)>>,
    pub user_properties: Option<Vec<(String, JsonValue)>>,
    pub groups: Option<Vec<(String, JsonValue)>>,
    pub group_properties: Option<Vec<(String, JsonValue)>>,
    pub skip_user_properties_sync: Option<bool>,
    pub app_version: Option<String>,
    pub platform: Option<String>,
    pub os_name: Option<String>,
    pub os_version: Option<String>,
    pub device_brand: Option<String>,
    pub device_manufacturer: Option<String>,
    pub device_model: Option<String>,
    pub carrier: Option<String>,
    pub country: Option<String>,
    pub region: Option<String>,
    pub city: Option<String>,
    pub dma: Option<String>,
    pub language: Option<String>,
    pub price: Option<u64>,
    pub quantity: Option<i32>,
    pub revenue: Option<u64>,
    pub product_id: Option<String>,
    pub revenue_type: Option<String>,
    pub location_lat: Option<u64>,
    pub location_lng: Option<u64>,
    pub ip: Option<String>,
    pub idfa: Option<String>,
    pub idfv: Option<String>,
    pub adid: Option<String>,
    pub android_id: Option<String>,
    pub event_id: Option<i64>,
    pub session_id: Option<i64>,
    pub insert_id: Option<String>,
    pub plan: Option<Vec<(String, JsonValue)>>,
}

/// What an event of a batch upload holds, apart from how it is stored.
pub struct EventModel {
    pub user_id: Option<Seq<char>>,
    pub device_id: Option<Seq<char>>,
    pub event_type: Seq<char>,
    pub time: i64,
    pub event_properties: Option<Map<Seq<char>, JsonModel>>,
    pub user_properties: Option<Map<Seq<char>, JsonModel>>,
    pub groups: Option<Map<Seq<char>, JsonModel>>,
    pub group_properties: Option<Map<Seq<char>, JsonModel>>,
    pub skip_user_properties_sync: Option<bool>,
    pub app_version: Option<Seq<char>>,
    pub platform: Option<Seq<char>>,
    pub os_name: Option<Seq<char>>,
    pub os_version: Option<Seq<char>>,
    pub device_brand: Option<Seq<char>>,
    pub device_manufacturer: Option<Seq<char>>,
    pub device_model: Option<Seq<char>>,
    pub carrier: Option<Seq<char>>,
    pub country: Option<Seq<char>>,
    pub region: Option<Seq<char>>,
    pub city: Option<Seq<char>>,
    pub dma: Option<Seq<char>>,
    pub language: Option<Seq<char>>,
    pub price: Option<u64>,
    pub quantity: Option<i32>,
    pub revenue: Option<u64>,
    pub product_id: Option<Seq<char>>,
    pub revenue_type: Option<Seq<char>>,
    pub location_lat: Option<u64>,
    pub location_lng: Option<u64>,
    pub ip: Option<Seq<char>>,
    pub idfa: Option<Seq<char>>,
    pub idfv: Option<Seq<char>>,
    pub adid: Option<Seq<char>>,
    pub android_id: Option<Seq<char>>,
    pub event_id: Option<i64>,
    pub session_id: Option<i64>,
    pub insert_id: Option<Seq<char>>,
    pub plan: Option<Map<Seq<char>, JsonModel>>,
}

impl View for Event {
    type V = EventModel;

    open spec fn view(&self) -> EventModel {
        EventModel {
            user_id: text_view(self.user_id),
            device_id: text_view(self.device_id),
            event_type: self.event_type@,
            time: self.time,
            event_properties: object_view(self.event_properties),
            user_properties: object_view(self.user_properties),
            groups: object_view(self.groups),
            group_properties: object_view(self.group_properties),
            skip_user_properties_sync: self.skip_user_properties_sync,
            app_version: text_view(self.app_version),
            platform: text_view(self.platform),
            os_name: text_view(self.os_name),
            os_version: text_view(self.os_version),
            device_brand: text_view(self.device_brand),
            device_manufacturer: text_view(self.device_manufacturer),
            device_model: text_view(self.device_model),
            carrier: text_view(self.carrier),
            country: text_view(self.country),
            region: text_view(self.region),
            city: text_view(self.city),
            dma: text_view(self.dma),
            language: text_view(self.language),
            price: float_view(self.price),
            quantity: self.quantity,
            revenue: float_view(self.revenue),
            product_id: text_view(self.product_id),
            revenue_type: text_view(self.revenue_type),
            location_lat: float_view(self.location_lat),
            location_lng: float_view(self.location_lng),
            ip: text_view(self.ip),
            idfa: text_view(self.idfa),
            idfv: text_view(self.idfv),
            adid: text_view(self.adid),
            android_id: text_view(self.android_id),
            event_id: self.event_id,
            session_id: self.session_id,
            insert_id: text_view(self.insert_id),
            plan: object_view(self.plan),
        }
    }
}

impl Clone for Event {
    fn clone(&self) -> (copy: Self)
        ensures
            copy@ == self@,
    {
        Event {
            user_id: copy_text(&self.user_id),
            device_id: copy_text(&self.device_id),
            event_type: self.event_type.clone(),
            time: self.time,
            event_properties: copy_object_field(&self.event_properties),
            user_properties: copy_object_field(&self.user_properties),
            groups: copy_object_field(&self.groups),
            group_properties: copy_object_field(&self.group_properties),
            skip_user_properties_sync: self.skip_user_properties_sync,
            app_version: copy_text(&self.app_version),
            platform: copy_text(&self.platform),
            os_name: copy_text(&self.os_name),
            os_version: copy_text(&self.os_version),
            device_brand: copy_text(&self.device_brand),
            device_manufacturer: copy_text(&self.device_manufacturer),
            device_model: copy_text(&self.device_model),
            carrier: copy_text(&self.carrier),
            country: copy_text(&self.country),
            region: copy_text(&self.region),
            city: copy_text(&self.city),
            dma: copy_text(&self.dma),
            language: copy_text(&self.language),
            price: self.price,
            quantity: self.quantity,
            revenue: self.revenue,
            product_id: copy_text(&self.product_id),
            revenue_type: copy_text(&self.revenue_type),
            location_lat: self.location_lat,
            location_lng: self.location_lng,
            ip: copy_text(&self.ip),
            idfa: copy_text(&self.idfa),
            idfv: copy_text(&self.idfv),
            adid: copy_text(&self.adid),
            android_id: copy_text(&self.android_id),
            event_id: self.event_id,
            session_id: self.session_id,
            insert_id: copy_text(&self.insert_id),
            plan: copy_object_field(&self.plan),
        }
    }
}

/// What the service answers to a batch upload.
#[derive(Debug)]
pub struct BatchUploadResponse {
    /// The HTTP status code.
    pub code: i32,
    pub error: Option<String>,
    pub missing_field: Option<String>,
    /// For each field with a value that the service refuses, the places of
    /// the events that have it.
    pub events_with_invalid_fields: Option<Vec<(String, Vec<usize>)>>,
    /// For each field that is missing, the places of the events that lack
    /// it.
    pub events_with_missing_fields: Option<Vec<(String, Vec<usize>)>>,
    pub eps_threshold: Option<i32>,
    pub exceeded_daily_quota_devices: Option<Vec<(String, i64)>>,
    pub silenced_devices: Option<Vec<String>>,
    pub silenced_events: Option<Vec<usize>>,
    pub throttled_devices: Option<Vec<(String, i32)>>,
    pub throttled_events: Option<Vec<usize>>,
    pub throttled_users: Option<Vec<(String, i32)>>,
    pub exceeded_daily_quota_users: Option<Vec<(String, i64)>>,
}

/// The answer to an upload that is too large (status 413).
#[derive(Debug)]
pub struct PayloadTooLargeError {
    pub code: i32,
    pub error: String,
}

/// The answer to too many uploads in too short a time (status 429).
#[derive(Debug)]
pub struct TooManyRequestsError {
    pub code: i32,
    pub error: String,
    pub eps_threshold: i32,
    pub throttled_devices: Option<Vec<(String, i32)>>,
    pub throttled_users: Option<Vec<(String, i32)>>,
    pub exceeded_daily_quota_users: Option<Vec<(String, i64)>>,
    pub exceeded_daily_quota_devices: Option<Vec<(String, i64)>>,
    pub throttled_events: Option<Vec<usize>>,
}

/// The answer to an upload with events of silenced devices (status 400).
#[derive(Debug)]
pub struct SilencedDeviceIDError {
    pub code: i32,
    pub error: String,
    pub eps_threshold: i32,
    pub exceeded_daily_quota_devices: Option<Vec<(String, i64)>>,
    pub silenced_devices: Option<Vec<String>>,
    pub silenced_events: Option<Vec<usize>>,
    pub throttled_devices: Option<Vec<(String, i32)>>,
    pub throttled_events: Option<Vec<usize>>,
}

/// Why an exported event cannot be uploaded.
#[derive(Clone, Copy, Debug, PartialEq, Eq, Structural)]
pub enum BatchEventError {
    MissingEventTime,
    /// The event time, in milliseconds, does not fit in an `i64`.
    EventTimeOutOfRange,
    /// The event has neither a user id nor a device id.
    MissingIdentity,
    MissingEventType,
    EmptyEventType,
    MissingInsertId,
    EmptyInsertId,
}

/// What the error says.
pub open spec fn error_text(error: BatchEventError) -> Seq<char> {
    match error {
        BatchEventError::MissingEventTime => "Missing event_time"@,
        BatchEventError::EventTimeOutOfRange => "event_time is out of range"@,
        BatchEventError::MissingIdentity => "Either user_id or device_id is required"@,
        BatchEventError::MissingEventType => "Missing event_type"@,
        BatchEventError::EmptyEventType => "Event type is empty"@,
        BatchEventError::MissingInsertId => "Missing insert_id"@,
        BatchEventError::EmptyInsertId => "Insert ID is empty"@,
    }
}

impl BatchEventError {
    /// What the error says.
    pub fn message(&self) -> (text: String)
        ensures
            text@ == error_text(*self),
    {
        match self {
            BatchEventError::MissingEventTime => "Missing event_time".to_owned(),
            BatchEventError::EventTimeOutOfRange => "event_time is out of range".to_owned(),
            BatchEventError::MissingIdentity => "Either user_id or device_id is required".to_owned(),
            BatchEventError::MissingEventType => "Missing event_type".to_owned(),
            BatchEventError::EmptyEventType => "Event type is empty".to_owned(),
            BatchEventError::MissingInsertId => "Missing insert_id".to_owned(),
            BatchEventError::EmptyInsertId => "Insert ID is empty".to_owned(),
        }
    }
}

/// The text of a JSON value that is a string.
pub open spec fn as_text(value: Option<JsonModel>) -> Option<Seq<char>> {
    match value {
        Some(JsonModel::Text(s)) => Some(s),
        _ => None,
    }
}

/// The first reason, if there is one, why the exported event cannot be
/// uploaded. The checks are made in this order: the event time, the
/// identity, the event type, the insert id.
pub open spec fn upload_obstacle(e: ExportEventModel) -> Option<BatchEventError> {
    if e.event_time is None {
        Some(BatchEventError::MissingEventTime)
    } else if !(i64::MIN <= e.event_time->0.millis() <= i64::MAX) {
        Some(BatchEventError::EventTimeOutOfRange)
    } else if e.user_id is None && e.device_id is None {
        Some(BatchEventError::MissingIdentity)
    } else if e.event_type is None {
        Some(BatchEventError::MissingEventType)
    } else if e.event_type->0.len() == 0 {
        Some(BatchEventError::EmptyEventType)
    } else if e.insert_id is None {
        Some(BatchEventError::MissingInsertId)
    } else if e.insert_id->0.len() == 0 {
        Some(BatchEventError::EmptyInsertId)
    } else {
        None
    }
}

/// The event of a batch upload that stands for an exported event. The event
/// time is told in milliseconds, the syncing of user properties is switched
/// off, the version of the app is taken over where it is a text, and what an
/// export does not tell (price, quantity, revenue, product, IDFV, Android
/// id) stays empty.
pub open spec fn batch_event_of(e: ExportEventModel) -> EventModel {
    EventModel {
        user_id: e.user_id,
        device_id: e.device_id,
        event_type: e.event_type->0,
        time: e.event_time->0.millis() as i64,
        event_properties: e.event_properties,
        user_properties: e.user_properties,
        groups: e.groups,
        group_properties: e.group_properties,
        skip_user_properties_sync: Some(true),
        app_version: as_text(e.version_name),
        platform: e.platform,
        os_name: e.os_name,
        os_version: e.os_version,
        device_brand: e.device_brand,
        device_manufacturer: e.device_manufacturer,
        device_model: e.device_model,
        carrier: e.device_carrier,
        country: e.country,
        region: e.region,
        city: e.city,
        dma: e.dma,
        language: e.language,
        price: None,
        quantity: None,
        revenue: None,
        product_id: None,
        revenue_type: None,
        location_lat: e.location_lat,
        location_lng: e.location_lng,
        ip: e.ip_address,
        idfa: e.idfa,
        idfv: None,
        adid: e.adid,
        android_id: None,
        event_id: e.event_id,
        session_id: e.session_id,
        insert_id: e.insert_id,
        plan: e.plan,
    }
}

impl ExportEvent {
    /// The event of a batch upload that stands for this exported event, or
    /// the first reason why there is none.
    pub fn to_batch_event(&self) -> (converted: Result<Event, BatchEventError>)
        ensures
            converted matches Ok(event) ==> upload_obstacle(self@) is None && event@
                == batch_event_of(self@),
            converted matches Err(error) ==> upload_obstacle(self@) == Some(error),
    {
        let time = match &self.event_time {
            None => {
                return Err(BatchEventError::MissingEventTime);
            },
            Some(t) => match t.timestamp_millis() {
                Some(ms) => ms,
                None => {
                    return Err(BatchEventError::EventTimeOutOfRange);
                },
            },
        };
        if self.user_id.is_none() && self.device_id.is_none() {
            return Err(BatchEventError::MissingIdentity);
        }
        let event_type = match &self.event_type {
            None => {
                return Err(BatchEventError::MissingEventType);
            },
            Some(name) => name.clone(),
        };
        if event_type.as_str().unicode_len() == 0 {
            return Err(BatchEventError::EmptyEventType);
        }
        match &self.insert_id {
            None => {
                return Err(BatchEventError::MissingInsertId);
            },
            Some(key) => {
                if key.as_str().unicode_len() == 0 {
                    return Err(BatchEventError::EmptyInsertId);
                }
            },
        }
        let app_version = match &self.version_name {
            Some(JsonValue::String(s)) => Some(s.clone()),
            _ => None,
        };
        Ok(
            Event {
                user_id: copy_text(&self.user_id),
                device_id: copy_text(&self.device_id),
                event_type: event_type,
                time: time,
                event_properties: copy_object_field(&self.event_properties),
                user_properties: copy_object_field(&self.user_properties),
                groups: copy_object_field(&self.groups),
                group_properties: copy_object_field(&self.group_properties),
                skip_user_properties_sync: Some(true),
                app_version: app_version,
                platform: copy_text(&self.platform),
                os_name: copy_text(&self.os_name),
                os_version: copy_text(&self.os_version),
                device_brand: copy_text(&self.device_brand),
                device_manufacturer: copy_text(&self.device_manufacturer),
                device_model: copy_text(&self.device_model),
                carrier: copy_text(&self.device_carrier),
                country: copy_text(&self.country),
                region: copy_text(&self.region),
                city: copy_text(&self.city),
                dma: copy_text(&self.dma),
                language: copy_text(&self.language),
                price: None,
                quantity: None,
                revenue: None,
                product_id: None,
                revenue_type: None,
                location_lat: self.location_lat,
                location_lng: self.location_lng,
                ip: copy_text(&self.ip_address),
                idfa: copy_text(&self.idfa),
                idfv: None,
                adid: copy_text(&self.adid),
                android_id: None,
                event_id: self.event_id,
                session_id: self.session_id,
                insert_id: copy_text(&self.insert_id),
                plan: copy_object_field(&self.plan),
            },
        )
    }
}

} // verus!
