//! What is asked of the service, and of whom.

use crate::amplitude_types::{BatchUploadRequest, Event};
use crate::config::{
    default_endpoint, default_endpoint_text, default_export_endpoint,
    default_export_endpoint_text, AmplitudeConfig,
};
use crate::fields::text_view;
use crate::time::{datetime_text, format_datetime, Timestamp};
use vstd::prelude::*;
use vstd::string::*;

verus! {

/// The keys and addresses with which the service is asked.
#[derive(Debug)]
pub struct AmplitudeClient {
    pub api_key: String,
    pub endpoint: String,
    pub export_endpoint: String,
    pub secret_key: String,
    pub transfer_project_api_key: Option<String>,
    pub transfer_project_secret_key: Option<String>,
}

/// Why the service cannot be asked.
#[derive(Clone, Copy, Debug, PartialEq, Eq, Structural)]
pub enum SdkError {
    /// An upload needs the API key of the transfer project.
    MissingTransferKey,
    /// A bound of the export cannot be told as a date and an hour.
    UntellableTime,
}

/// The pattern by which the bounds of an export are written: the date and
/// the hour.
pub open spec fn export_hour_layout() -> Seq<char> {
    "%Y%m%dT%H"@
}

/// The address from which the events between two times are exported.
pub open spec fn export_address(endpoint: Seq<char>, start: Seq<char>, end: Seq<char>) -> Seq<char> {
    endpoint + "?start="@ + start + "&end="@ + end
}

impl AmplitudeClient {
    /// A client with an API key and, where it is given, another address for
    /// uploads.
    pub fn new(api_key: String, endpoint: Option<String>) -> (client: Self)
        ensures
            client.api_key == api_key,
            client.endpoint@ == (match endpoint {
                Some(address) => address@,
                None => default_endpoint_text(),
            }),
            client.export_endpoint@ == default_export_endpoint_text(),
            client.secret_key@.len() == 0,
            client.transfer_project_api_key is None,
            client.transfer_project_secret_key is None,
    {
        AmplitudeClient {
            api_key,
            endpoint: match endpoint {
                Some(address) => address,
                None => default_endpoint(),
            },
            export_endpoint: default_export_endpoint(),
            secret_key: String::new(),
            transfer_project_api_key: None,
            transfer_project_secret_key: None,
        }
    }

    /// A client with the keys and addresses of a configuration.
    pub fn from_config(config: AmplitudeConfig) -> (client: Self)
        ensures
            client.api_key == config.api_key,
            client.endpoint == config.endpoint,
            client.export_endpoint == config.export_endpoint,
            client.secret_key == config.secret_key,
            client.transfer_project_api_key == config.transfer_project_api_key,
            client.transfer_project_secret_key == config.transfer_project_secret_key,
    {
        AmplitudeClient {
            api_key: config.api_key,
            endpoint: config.endpoint,
            export_endpoint: config.export_endpoint,
            secret_key: config.secret_key,
            transfer_project_api_key: config.transfer_project_api_key,
            transfer_project_secret_key: config.transfer_project_secret_key,
        }
    }

    /// A client for one project, which is also the project that takes
    /// uploads in.
    pub fn from_project_config(project: &crate::config::AmplitudeProjectSecrets) -> (client: Self)
        ensures
            client.api_key@ == project.api_key@,
            client.secret_key@ == project.secret_key@,
            client.endpoint@ == default_endpoint_text(),
            client.export_endpoint@ == default_export_endpoint_text(),
            text_view(client.transfer_project_api_key) == Some(project.api_key@),
            text_view(client.transfer_project_secret_key) == Some(project.secret_key@),
    {
        AmplitudeClient {
            api_key: project.api_key.clone(),
            endpoint: default_endpoint(),
            export_endpoint: default_export_endpoint(),
            secret_key: project.secret_key.clone(),
            transfer_project_api_key: Some(project.api_key.clone()),
            transfer_project_secret_key: Some(project.secret_key.clone()),
        }
    }

    /// The body of the upload of the events, under the API key of the
    /// transfer project.
    pub fn send_events(&self, events: Vec<Event>) -> (request: Result<BatchUploadRequest, SdkError>)
        ensures
            self.transfer_project_api_key is None ==> request == Err::<
                BatchUploadRequest,
                SdkError,
            >(SdkError::MissingTransferKey),
            self.transfer_project_api_key matches Some(key) ==> (request matches Ok(body)
                && body.api_key@ == key@ && body.events == events && body.options is None),
    {
        match &self.transfer_project_api_key {
            None => Err(SdkError::MissingTransferKey),
            Some(key) => Ok(BatchUploadRequest { api_key: key.clone(), events, options: None }),
        }
    }

    /// The address from which the events between two times are exported.
    /// The times are told by date and hour.
    pub fn export_events(&self, start: &Timestamp, end: &Timestamp) -> (address: Result<
        String,
        SdkError,
    >)
        ensures
            (match (
                datetime_text(start.secs as int, start.nanos as int, export_hour_layout()),
                datetime_text(end.secs as int, end.nanos as int, export_hour_layout()),
            ) {
                (Some(from), Some(to)) => address matches Ok(url) && url@ == export_address(
                    self.export_endpoint@,
                    from,
                    to,
                ),
                _ => address == Err::<String, SdkError>(SdkError::UntellableTime),
            }),
    {
        let from = match format_datetime(start, "%Y%m%dT%H") {
            Some(text) => text,
            None => {
                return Err(SdkError::UntellableTime);
            },
        };
        let to = match format_datetime(end, "%Y%m%dT%H") {
            Some(text) => text,
            None => {
                return Err(SdkError::UntellableTime);
            },
        };
        let mut url = self.export_endpoint.clone();
        url.append("?start=");
        url.append(from.as_str());
        url.append("&end=");
        url.append(to.as_str());
        Ok(url)
    }
}

} // verus!
