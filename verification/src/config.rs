//! The keys and addresses by which the service is reached.

use crate::json::{find_key, index_of_key, lemma_index_of_key, object_model, JsonModel, JsonValue};
use crate::transform::diff::value_at;
use vstd::prelude::*;

verus! {

/// The keys of one project and the addresses of the service.
#[derive(Debug)]
pub struct AmplitudeConfig {
    pub api_key: String,
    pub secret_key: String,
    /// Where events are uploaded.
    pub endpoint: String,
    /// Where events are exported from.
    pub export_endpoint: String,
    /// The key of the project that takes uploads in, if there is one.
    pub transfer_project_api_key: Option<String>,
    pub transfer_project_secret_key: Option<String>,
}

/// The keys of one project.
#[derive(Debug)]
pub struct AmplitudeProjectSecrets {
    pub api_key: String,
    pub secret_key: String,
}

/// The projects by name. Where a name stands twice the first entry counts.
#[derive(Debug)]
pub struct MultiProjectConfig {
    pub projects: Vec<(String, AmplitudeProjectSecrets)>,
}

/// Why a configuration was refused.
#[derive(Debug)]
pub enum ConfigError {
    /// A setting that must be there is not; its name is given.
    MissingField(String),
    /// A setting is not of the kind it must be; its name is given.
    WrongType(String),
}

/// What a configuration error says, apart from how it is stored.
pub enum ConfigErrorModel {
    MissingField(Seq<char>),
    WrongType(Seq<char>),
}

impl View for ConfigError {
    type V = ConfigErrorModel;

    open spec fn view(&self) -> ConfigErrorModel {
        match self {
            ConfigError::MissingField(name) => ConfigErrorModel::MissingField(name@),
            ConfigError::WrongType(name) => ConfigErrorModel::WrongType(name@),
        }
    }
}

/// The address to which events are uploaded where no other is given.
pub open spec fn default_endpoint_text() -> Seq<char> {
    "https://api2.amplitude.com/batch"@
}

/// The address from which events are exported where no other is given.
pub open spec fn default_export_endpoint_text() -> Seq<char> {
    "https://amplitude.com/api/2/export"@
}

/// The address to which events are uploaded where no other is given.
pub fn default_endpoint() -> (address: String)
    ensures
        address@ == default_endpoint_text(),
{
    "https://api2.amplitude.com/batch".to_owned()
}

/// The address from which events are exported where no other is given.
pub fn default_export_endpoint() -> (address: String)
    ensures
        address@ == default_export_endpoint_text(),
{
    "https://amplitude.com/api/2/export".to_owned()
}

/// A text that must be among the settings: the text, or why it cannot be
/// had.
pub open spec fn required_text(settings: Map<Seq<char>, JsonModel>, name: Seq<char>) -> Result<
    Seq<char>,
    ConfigErrorModel,
> {
    match value_at(settings, name) {
        Some(JsonModel::Text(s)) => Ok(s),
        Some(_) => Err(ConfigErrorModel::WrongType(name)),
        None => Err(ConfigErrorModel::MissingField(name)),
    }
}

/// A text that may be among the settings: the text, nothing where the
/// setting is missing or `null`, or why it cannot be had.
pub open spec fn optional_text(settings: Map<Seq<char>, JsonModel>, name: Seq<char>) -> Result<
    Option<Seq<char>>,
    ConfigErrorModel,
> {
    match value_at(settings, name) {
        Some(JsonModel::Text(s)) => Ok(Some(s)),
        Some(JsonModel::Null) => Ok(None),
        Some(_) => Err(ConfigErrorModel::WrongType(name)),
        None => Ok(None),
    }
}

/// A text that has a default: the text, the default where the setting is
/// missing, or why it cannot be had.
pub open spec fn text_or(
    settings: Map<Seq<char>, JsonModel>,
    name: Seq<char>,
    default: Seq<char>,
) -> Result<Seq<char>, ConfigErrorModel> {
    match value_at(settings, name) {
        Some(JsonModel::Text(s)) => Ok(s),
        Some(_) => Err(ConfigErrorModel::WrongType(name)),
        None => Ok(default),
    }
}

/// The view of a text or an error.
pub open spec fn text_result_view(r: Result<String, ConfigError>) -> Result<
    Seq<char>,
    ConfigErrorModel,
> {
    match r {
        Ok(s) => Ok(s@),
        Err(e) => Err(e@),
    }
}

/// The view of an optional text or an error.
pub open spec fn optional_result_view(r: Result<Option<String>, ConfigError>) -> Result<
    Option<Seq<char>>,
    ConfigErrorModel,
> {
    match r {
        Ok(Some(s)) => Ok(Some(s@)),
        Ok(None) => Ok(None),
        Err(e) => Err(e@),
    }
}

/// Reads a text that must be among the settings.
pub fn read_required_text(settings: &Vec<(String, JsonValue)>, name: &str) -> (text: Result<
    String,
    ConfigError,
>)
    ensures
        text_result_view(text) == required_text(object_model(settings@), name@),
{
    let key = name.to_owned();
    proof {
        lemma_index_of_key(settings@, name@);
    }
    match find_key(settings, &key) {
        Some(i) => match &settings[i].1 {
            JsonValue::String(s) => Ok(s.clone()),
            _ => Err(ConfigError::WrongType(key)),
        },
        None => Err(ConfigError::MissingField(key)),
    }
}

/// Reads a text that may be among the settings.
pub fn read_optional_text(settings: &Vec<(String, JsonValue)>, name: &str) -> (text: Result<
    Option<String>,
    ConfigError,
>)
    ensures
        optional_result_view(text) == optional_text(object_model(settings@), name@),
{
    let key = name.to_owned();
    proof {
        lemma_index_of_key(settings@, name@);
    }
    match find_key(settings, &key) {
        Some(i) => match &settings[i].1 {
            JsonValue::String(s) => Ok(Some(s.clone())),
            JsonValue::Null => Ok(None),
            _ => Err(ConfigError::WrongType(key)),
        },
        None => Ok(None),
    }
}

/// Reads a text that has a default.
pub fn read_text_or(settings: &Vec<(String, JsonValue)>, name: &str, default: String) -> (text:
    Result<String, ConfigError>)
    ensures
        text_result_view(text) == text_or(object_model(settings@), name@, default@),
{
    let key = name.to_owned();
    proof {
        lemma_index_of_key(settings@, name@);
    }
    match find_key(settings, &key) {
        Some(i) => match &settings[i].1 {
            JsonValue::String(s) => Ok(s.clone()),
            _ => Err(ConfigError::WrongType(key)),
        },
        None => Ok(default),
    }
}

/// What a configuration holds, apart from how it is stored.
pub struct AmplitudeConfigModel {
    pub api_key: Seq<char>,
    pub secret_key: Seq<char>,
    pub endpoint: Seq<char>,
    pub export_endpoint: Seq<char>,
    pub transfer_project_api_key: Option<Seq<char>>,
    pub transfer_project_secret_key: Option<Seq<char>>,
}

impl View for AmplitudeConfig {
    type V = AmplitudeConfigModel;

    open spec fn view(&self) -> AmplitudeConfigModel {
        AmplitudeConfigModel {
            api_key: self.api_key@,
            secret_key: self.secret_key@,
            endpoint: self.endpoint@,
            export_endpoint: self.export_endpoint@,
            transfer_project_api_key: crate::fields::text_view(self.transfer_project_api_key),
            transfer_project_secret_key: crate::fields::text_view(self.transfer_project_secret_key),
        }
    }
}

/// The configuration that the settings of a file give, or the first reason
/// why they give none. The two keys must be there; the addresses have
/// defaults; the keys of the transfer project may be missing. Settings of
/// other names are passed over.
pub open spec fn config_of(settings: Map<Seq<char>, JsonModel>) -> Result<
    AmplitudeConfigModel,
    ConfigErrorModel,
> {
    match required_text(settings, "api_key"@) {
        Err(e) => Err(e),
        Ok(api_key) => match required_text(settings, "secret_key"@) {
            Err(e) => Err(e),
            Ok(secret_key) => match text_or(settings, "endpoint"@, default_endpoint_text()) {
                Err(e) => Err(e),
                Ok(endpoint) => match text_or(
                    settings,
                    "export_endpoint"@,
                    default_export_endpoint_text(),
                ) {
                    Err(e) => Err(e),
                    Ok(export_endpoint) => match optional_text(
                        settings,
                        "transfer_project_api_key"@,
                    ) {
                        Err(e) => Err(e),
                        Ok(transfer_project_api_key) => match optional_text(
                            settings,
                            "transfer_project_secret_key"@,
                        ) {
                            Err(e) => Err(e),
                            Ok(transfer_project_secret_key) => Ok(
                                AmplitudeConfigModel {
                                    api_key,
                                    secret_key,
                                    endpoint,
                                    export_endpoint,
                                    transfer_project_api_key,
                                    transfer_project_secret_key,
                                },
                            ),
                        },
                    },
                },
            },
        },
    }
}

impl AmplitudeConfig {
    /// The configuration that a configuration file gives. The file has been
    /// read and taken apart already: `settings` are the members of its top
    /// level.
    pub fn from_file(settings: &Vec<(String, JsonValue)>) -> (config: Result<Self, ConfigError>)
        ensures
            config matches Ok(c) ==> config_of(object_model(settings@)) == Ok::<
                AmplitudeConfigModel,
                ConfigErrorModel,
            >(c@),
            config matches Err(e) ==> config_of(object_model(settings@)) == Err::<
                AmplitudeConfigModel,
                ConfigErrorModel,
            >(e@),
    {
        let api_key = match read_required_text(settings, "api_key") {
            Ok(s) => s,
            Err(e) => {
                return Err(e);
            },
        };
        let secret_key = match read_required_text(settings, "secret_key") {
            Ok(s) => s,
            Err(e) => {
                return Err(e);
            },
        };
        let endpoint = match read_text_or(settings, "endpoint", default_endpoint()) {
            Ok(s) => s,
            Err(e) => {
                return Err(e);
            },
        };
        let export_endpoint = match read_text_or(
            settings,
            "export_endpoint",
            default_export_endpoint(),
        ) {
            Ok(s) => s,
            Err(e) => {
                return Err(e);
            },
        };
        let transfer_project_api_key = match read_optional_text(
            settings,
            "transfer_project_api_key",
        ) {
            Ok(s) => s,
            Err(e) => {
                return Err(e);
            },
        };
        let transfer_project_secret_key = match read_optional_text(
            settings,
            "transfer_project_secret_key",
        ) {
            Ok(s) => s,
            Err(e) => {
                return Err(e);
            },
        };
        Ok(
            AmplitudeConfig {
                api_key,
                secret_key,
                endpoint,
                export_endpoint,
                transfer_project_api_key,
                transfer_project_secret_key,
            },
        )
    }
}

/// The place of the first project with the given name, if there is one.
pub open spec fn project_place(
    projects: Seq<(String, AmplitudeProjectSecrets)>,
    name: Seq<char>,
) -> Option<int>
    decreases projects.len(),
{
    if projects.len() == 0 {
        None
    } else {
        match project_place(projects.drop_last(), name) {
            Some(i) => Some(i),
            None => if projects.last().0@ == name {
                Some(projects.len() - 1)
            } else {
                None
            },
        }
    }
}

/// `project_place` finds the first project with the name.
pub proof fn lemma_project_place(projects: Seq<(String, AmplitudeProjectSecrets)>, name: Seq<char>)
    ensures
        project_place(projects, name) matches Some(i) ==> 0 <= i < projects.len() && projects[i].0@
            == name,
        project_place(projects, name) matches Some(i) ==> forall|j: int|
            0 <= j < i ==> (#[trigger] projects[j]).0@ != name,
        project_place(projects, name) is None ==> forall|j: int|
            0 <= j < projects.len() ==> (#[trigger] projects[j]).0@ != name,
    decreases projects.len(),
{
    if projects.len() > 0 {
        let rest = projects.drop_last();
        lemma_project_place(rest, name);
        assert forall|j: int| 0 <= j < rest.len() implies (#[trigger] rest[j]) == projects[j] by {}
        match project_place(rest, name) {
            Some(i) => {
                assert forall|j: int| 0 <= j < i implies (#[trigger] projects[j]).0@ != name by {
                    assert(rest[j] == projects[j]);
                }
            },
            None => {
                assert forall|j: int| 0 <= j < rest.len() implies (#[trigger] projects[j]).0@
                    != name by {
                    assert(rest[j] == projects[j]);
                }
            },
        }
    }
}

/// The names of the projects, in order.
pub open spec fn project_names(projects: Seq<(String, AmplitudeProjectSecrets)>) -> Seq<Seq<char>> {
    projects.map_values(|p: (String, AmplitudeProjectSecrets)| p.0@)
}

/// The place of the first project with the given name.
pub fn find_project(projects: &Vec<(String, AmplitudeProjectSecrets)>, name: &str) -> (place:
    Option<usize>)
    ensures
        place matches Some(i) ==> project_place(projects@, name@) == Some(i as int),
        place is None ==> project_place(projects@, name@) is None,
        place matches Some(i) ==> i < projects.len(),
{
    let wanted = name.to_owned();
    let mut i: usize = 0;
    while i < projects.len()
        invariant
            i <= projects.len(),
            wanted@ == name@,
            forall|j: int| 0 <= j < i ==> (#[trigger] projects@[j]).0@ != name@,
        decreases projects.len() - i,
    {
        if projects[i].0 == wanted {
            proof {
                lemma_project_place(projects@, name@);
            }
            return Some(i);
        }
        i += 1;
    }
    proof {
        lemma_project_place(projects@, name@);
    }
    None
}

impl MultiProjectConfig {
    /// The keys of the project with the given name.
    pub fn get_project(&self, project_name: &str) -> (secrets: Option<&AmplitudeProjectSecrets>)
        ensures
            secrets matches Some(s) ==> project_place(self.projects@, project_name@) matches Some(i)
                && *s == self.projects@[i].1,
            secrets is None ==> project_place(self.projects@, project_name@) is None,
    {
        match find_project(&self.projects, project_name) {
            Some(i) => Some(&self.projects[i].1),
            None => None,
        }
    }

    /// The names of the projects, each once, in the order in which they
    /// first stand in the configuration.
    pub fn list_projects(&self) -> (names: Vec<&String>)
        ensures
            names@.map_values(|n: &String| n@) == crate::names::first_occurrences(
                project_names(self.projects@),
            ),
    {
        let ghost all = project_names(self.projects@);
        let mut names: Vec<&String> = Vec::new();
        let mut i: usize = 0;
        assert(all.take(0) =~= Seq::<Seq<char>>::empty());
        assert(names@.map_values(|n: &String| n@) =~= Seq::<Seq<char>>::empty());
        while i < self.projects.len()
            invariant
                i <= self.projects.len(),
                all == project_names(self.projects@),
                names@.map_values(|n: &String| n@) == crate::names::first_occurrences(
                    all.take(i as int),
                ),
            decreases self.projects.len() - i,
        {
            assert(all.take(i + 1).drop_last() =~= all.take(i as int));
            assert(all.take(i + 1).last() == self.projects@[i as int].0@);
            let ghost before = names@.map_values(|n: &String| n@);
            let mut known = false;
            let mut k: usize = 0;
            while k < names.len()
                invariant
                    k <= names.len(),
                    i < self.projects.len(),
                    before == names@.map_values(|n: &String| n@),
                    known <==> exists|j: int| 0 <= j < k && before[j] == self.projects@[i as int].0@,
                decreases names.len() - k,
            {
                assert(before[k as int] == names@[k as int]@);
                if *names[k] == self.projects[i].0 {
                    known = true;
                }
                k += 1;
            }
            assert(known == before.contains(self.projects@[i as int].0@));
            if !known {
                names.push(&self.projects[i].0);
                assert(names@.map_values(|n: &String| n@) =~= before.push(
                    self.projects@[i as int].0@,
                ));
            }
            i += 1;
        }
        assert(all.take(self.projects.len() as int) =~= all);
        names
    }
}

/// What the keys of a project are, apart from how they are stored.
pub struct SecretsModel {
    pub api_key: Seq<char>,
    pub secret_key: Seq<char>,
}

impl View for AmplitudeProjectSecrets {
    type V = SecretsModel;

    open spec fn view(&self) -> SecretsModel {
        SecretsModel { api_key: self.api_key@, secret_key: self.secret_key@ }
    }
}

/// The names and keys of a list of projects, in order.
pub open spec fn projects_view(projects: Seq<(String, AmplitudeProjectSecrets)>) -> Seq<
    (Seq<char>, SecretsModel),
> {
    projects.map_values(|p: (String, AmplitudeProjectSecrets)| (p.0@, p.1@))
}

/// The keys that the settings of one project give, or why they give none.
/// `name` is the project's name, under which a setting of the wrong kind is
/// reported.
pub open spec fn secrets_of(value: JsonModel, name: Seq<char>) -> Result<
    SecretsModel,
    ConfigErrorModel,
> {
    match value {
        JsonModel::Object(settings) => match required_text(settings, "api_key"@) {
            Err(e) => Err(e),
            Ok(api_key) => match required_text(settings, "secret_key"@) {
                Err(e) => Err(e),
                Ok(secret_key) => Ok(SecretsModel { api_key, secret_key }),
            },
        },
        _ => Err(ConfigErrorModel::WrongType(name)),
    }
}

/// The projects that a list of members gives, in the order of the list, or
/// the reason why the first member that gives none gives none.
pub open spec fn projects_of(members: Seq<(String, JsonValue)>) -> Result<
    Seq<(Seq<char>, SecretsModel)>,
    ConfigErrorModel,
>
    decreases members.len(),
{
    if members.len() == 0 {
        Ok(Seq::empty())
    } else {
        match projects_of(members.drop_last()) {
            Err(e) => Err(e),
            Ok(projects) => match secrets_of(members.last().1.model(), members.last().0@) {
                Err(e) => Err(e),
                Ok(secrets) => Ok(projects.push((members.last().0@, secrets))),
            },
        }
    }
}

/// The projects that the settings of a file give: those under `projects`,
/// and none where that setting is missing.
pub open spec fn multi_config_of(settings: Seq<(String, JsonValue)>) -> Result<
    Seq<(Seq<char>, SecretsModel)>,
    ConfigErrorModel,
> {
    match index_of_key(settings, "projects"@) {
        None => Ok(Seq::empty()),
        Some(i) => match settings[i].1 {
            JsonValue::Object(members) => projects_of(members@),
            _ => Err(ConfigErrorModel::WrongType("projects"@)),
        },
    }
}

/// Reads the keys of one project.
pub fn read_secrets(value: &JsonValue, name: &String) -> (secrets: Result<
    AmplitudeProjectSecrets,
    ConfigError,
>)
    ensures
        secrets matches Ok(s) ==> secrets_of(value.model(), name@) == Ok::<
            SecretsModel,
            ConfigErrorModel,
        >(s@),
        secrets matches Err(e) ==> secrets_of(value.model(), name@) == Err::<
            SecretsModel,
            ConfigErrorModel,
        >(e@),
{
    match value {
        JsonValue::Object(settings) => {
            let api_key = match read_required_text(settings, "api_key") {
                Ok(s) => s,
                Err(e) => {
                    return Err(e);
                },
            };
            let secret_key = match read_required_text(settings, "secret_key") {
                Ok(s) => s,
                Err(e) => {
                    return Err(e);
                },
            };
            Ok(AmplitudeProjectSecrets { api_key, secret_key })
        },
        _ => Err(ConfigError::WrongType(name.clone())),
    }
}

impl MultiProjectConfig {
    /// The projects that a configuration file gives. The file has been read
    /// and taken apart already: `settings` are the members of its top level.
    pub fn from_file(settings: &Vec<(String, JsonValue)>) -> (config: Result<Self, ConfigError>)
        ensures
            config matches Ok(c) ==> multi_config_of(settings@) == Ok::<
                Seq<(Seq<char>, SecretsModel)>,
                ConfigErrorModel,
            >(projects_view(c.projects@)),
            config matches Err(e) ==> multi_config_of(settings@) == Err::<
                Seq<(Seq<char>, SecretsModel)>,
                ConfigErrorModel,
            >(e@),
    {
        let key = "projects".to_owned();
        let mut projects: Vec<(String, AmplitudeProjectSecrets)> = Vec::new();
        assert(projects_view(projects@) =~= Seq::<(Seq<char>, SecretsModel)>::empty());
        proof {
            lemma_index_of_key(settings@, key@);
        }
        match find_key(settings, &key) {
            None => Ok(MultiProjectConfig { projects }),
            Some(at) => match &settings[at].1 {
                JsonValue::Object(members) => {
                    let mut i: usize = 0;
                    assert(members@.take(0) =~= Seq::<(String, JsonValue)>::empty());
                    while i < members.len()
                        invariant
                            i <= members.len(),
                            at < settings.len(),
                            index_of_key(settings@, "projects"@) == Some(at as int),
                            settings@[at as int].1 == JsonValue::Object(*members),
                            projects_of(members@.take(i as int)) == Ok::<
                                Seq<(Seq<char>, SecretsModel)>,
                                ConfigErrorModel,
                            >(projects_view(projects@)),
                        decreases members.len() - i,
                    {
                        assert(members@.take(i + 1).drop_last() =~= members@.take(i as int));
                        assert(members@.take(i + 1).last() == members@[i as int]);
                        let ghost before = projects_view(projects@);
                        match read_secrets(&members[i].1, &members[i].0) {
                            Ok(secrets) => {
                                projects.push((members[i].0.clone(), secrets));
                                assert(projects_view(projects@) =~= before.push(
                                    (members@[i as int].0@, secrets@),
                                ));
                            },
                            Err(e) => {
                                proof {
                                    lemma_projects_of_fails(members@, i as int);
                                }
                                return Err(e);
                            },
                        }
                        i += 1;
                    }
                    assert(members@.take(members.len() as int) =~= members@);
                    Ok(MultiProjectConfig { projects })
                },
                _ => Err(ConfigError::WrongType(key)),
            },
        }
    }
}

/// Where the members before a place give projects and the member at the
/// place gives none, the whole list fails with that member's reason.
pub proof fn lemma_projects_of_fails(members: Seq<(String, JsonValue)>, at: int)
    requires
        0 <= at < members.len(),
        projects_of(members.take(at)) is Ok,
        secrets_of(members[at].1.model(), members[at].0@) is Err,
    ensures
        projects_of(members) == Err::<Seq<(Seq<char>, SecretsModel)>, ConfigErrorModel>(
            secrets_of(members[at].1.model(), members[at].0@)->Err_0,
        ),
    decreases members.len(),
{
    let rest = members.drop_last();
    if at == members.len() - 1 {
        assert(rest =~= members.take(at));
    } else {
        assert(rest.take(at) =~= members.take(at));
        assert(rest[at] == members[at]);
        lemma_projects_of_fails(rest, at);
    }
}

} // verus!
