use vstd::prelude::*;
use crate::json::text_in;
use crate::timestamp::{instant_of, parse_rfc3339, rfc3339_instant};
use crate::types::{
    DynamicVersionResponse, FieldDefaults, FieldMappings, JsonView, VersionResponse,
};

verus! {

/// Why no version could be read from a status document.
#[derive(Debug)]
pub enum ExtractError {
    /// The named field is absent, is not a string, or is an empty string.
    MissingVersionField(String),
}

/// A per-service override where there is one, else the fleet default.
pub open spec fn effective_field(over: Option<String>, default: String) -> Seq<char> {
    match over {
        Some(f) => f@,
        None => default@,
    }
}

/// The name under which the version of a service is read.
pub open spec fn version_field_of(m: FieldMappings, d: FieldDefaults) -> Seq<char> {
    effective_field(m.version_field, d.version_field)
}

/// The name under which the deployment time of a service is read.
pub open spec fn deploy_field_of(m: FieldMappings, d: FieldDefaults) -> Seq<char> {
    effective_field(m.deploy_time_field, d.deploy_time_field)
}

/// The version stored under `key`: a non-empty string, or nothing.
pub open spec fn version_in(entries: Seq<(Seq<char>, JsonView)>, key: Seq<char>) -> Option<Seq<char>> {
    match text_in(entries, key) {
        Some(s) => if s.len() > 0 { Some(s) } else { None },
        None => None,
    }
}

/// The deployment time stored under `key`: a string that parses as RFC 3339, or nothing.
pub open spec fn deploy_time_in(entries: Seq<(Seq<char>, JsonView)>, key: Seq<char>) -> Option<(i64, u32)> {
    match text_in(entries, key) {
        Some(t) => rfc3339_instant(t),
        None => None,
    }
}

/// The field name to use: the override where it is set, else the default.
pub fn resolve_field(over: &Option<String>, default: &String) -> (r: String)
    ensures
        r@ == effective_field(*over, *default),
{
    match over {
        Some(f) => f.clone(),
        None => default.clone(),
    }
}

/// Reads the version and the deployment time of one status document.
///
/// The version must be a non-empty string; a deployment time that is absent, not a
/// string or not RFC 3339 reads as `None` and is never an error.
pub fn extract(
    document: &DynamicVersionResponse,
    mapping: &FieldMappings,
    defaults: &FieldDefaults,
) -> (r: Result<VersionResponse, ExtractError>)
    ensures
        match r {
            Ok(v) => {
                &&& version_in(document@, version_field_of(*mapping, *defaults)) == Some(v.version@)
                &&& instant_of(v.deployment_time) == deploy_time_in(
                    document@,
                    deploy_field_of(*mapping, *defaults),
                )
            },
            Err(ExtractError::MissingVersionField(f)) => {
                &&& version_in(document@, version_field_of(*mapping, *defaults)).is_none()
                &&& f@ == version_field_of(*mapping, *defaults)
            },
        },
{
    let version_field = resolve_field(&mapping.version_field, &defaults.version_field);
    let deploy_time_field = resolve_field(&mapping.deploy_time_field, &defaults.deploy_time_field);
    let version = match document.text_field(&version_field) {
        Some(v) => v,
        None => {
            return Err(ExtractError::MissingVersionField(version_field));
        },
    };
    if version.unicode_len() == 0 {
        return Err(ExtractError::MissingVersionField(version_field));
    }
    let deployment_time = match document.text_field(&deploy_time_field) {
        Some(t) => parse_rfc3339(t.as_str()),
        None => None,
    };
    Ok(VersionResponse { version, deployment_time })
}

} // verus!
