use vstd::prelude::*;

verus! {

/// Fleet-wide default names of the two fields read from a status document.
pub struct FieldDefaults {
    pub version_field: String,
    pub deploy_time_field: String,
}

/// The name of the version field when nothing else is configured.
pub open spec fn standard_version_field() -> Seq<char> {
    seq!['v', 'e', 'r', 's', 'i', 'o', 'n']
}

/// The name of the deployment-time field when nothing else is configured.
pub open spec fn standard_deploy_time_field() -> Seq<char> {
    seq!['d', 'e', 'p', 'l', 'o', 'y', 'm', 'e', 'n', 't', '_', 't', 'i', 'm', 'e']
}

pub fn default_version_field() -> (r: String)
    ensures
        r@ == standard_version_field(),
{
    let r = "version".to_owned();
    proof {
        reveal_strlit("version");
        assert(r@ =~= standard_version_field());
    }
    r
}

pub fn default_deploy_time_field() -> (r: String)
    ensures
        r@ == standard_deploy_time_field(),
{
    let r = "deployment_time".to_owned();
    proof {
        reveal_strlit("deployment_time");
        assert(r@ =~= standard_deploy_time_field());
    }
    r
}

impl Default for FieldDefaults {
    fn default() -> (r: FieldDefaults)
        ensures
            r.version_field@ == standard_version_field(),
            r.deploy_time_field@ == standard_deploy_time_field(),
    {
        FieldDefaults {
            version_field: default_version_field(),
            deploy_time_field: default_deploy_time_field(),
        }
    }
}

impl Clone for FieldDefaults {
    fn clone(&self) -> (r: FieldDefaults)
        ensures
            r == *self,
    {
        FieldDefaults {
            version_field: self.version_field.clone(),
            deploy_time_field: self.deploy_time_field.clone(),
        }
    }
}

/// Per-service overrides of the field names; `None` falls back to the fleet default.
#[derive(Default)]
pub struct FieldMappings {
    pub version_field: Option<String>,
    pub deploy_time_field: Option<String>,
}

/// One deployment target of a service.
pub struct Environment {
    pub name: String,
    pub url: String,
}

/// A logical application tracked across its environments.
pub struct Service {
    pub name: String,
    pub tags: Vec<String>,
    pub field_mappings: FieldMappings,
    pub environments: Vec<Environment>,
}

/// An instant in UTC: whole seconds since the Unix epoch and the nanoseconds past them.
#[derive(Clone, Copy, Debug, PartialEq, Eq, Structural)]
pub struct Timestamp {
    pub secs: i64,
    pub nanos: u32,
}

/// The two values read from one status document.
#[derive(Debug)]
pub struct VersionResponse {
    pub version: String,
    pub deployment_time: Option<Timestamp>,
}

/// The version of one service in one environment.
///
/// Records are equal and ordered by `(service_name, env_name)` alone; the version,
/// the tags and the deployment time take no part in the comparison.
#[derive(Debug)]
pub struct VersionInfo {
    pub service_name: String,
    pub service_tags: Vec<String>,
    pub env_name: String,
    pub version: String,
    pub deployment_time: Option<Timestamp>,
}

/// A JSON value as far as field extraction reads it: its kind, and the text of a string.
#[derive(Debug)]
pub enum JsonValue {
    Null,
    Bool(bool),
    Number,
    Text(String),
    Array,
    Object,
}

/// The mathematical form of a `JsonValue`.
pub enum JsonView {
    Null,
    Bool(bool),
    Number,
    Text(Seq<char>),
    Array,
    Object,
}

impl View for JsonValue {
    type V = JsonView;

    open spec fn view(&self) -> JsonView {
        match self {
            JsonValue::Null => JsonView::Null,
            JsonValue::Bool(b) => JsonView::Bool(*b),
            JsonValue::Number => JsonView::Number,
            JsonValue::Text(s) => JsonView::Text(s@),
            JsonValue::Array => JsonView::Array,
            JsonValue::Object => JsonView::Object,
        }
    }
}

/// A status document: the entries of one JSON object, in order, keyed by field name.
#[derive(Debug)]
pub struct DynamicVersionResponse {
    pub fields: Vec<(String, JsonValue)>,
}

impl View for DynamicVersionResponse {
    type V = Seq<(Seq<char>, JsonView)>;

    open spec fn view(&self) -> Seq<(Seq<char>, JsonView)> {
        self.fields@.map_values(|e: (String, JsonValue)| (e.0@, e.1@))
    }
}

} // verus!
