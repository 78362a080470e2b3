use vstd::prelude::*;
use crate::config::{pair_count, Config};
use crate::laws::law_every_pair_reported;
use crate::extract::{
    deploy_field_of, deploy_time_in, extract, version_field_of, version_in, ExtractError,
};
use crate::json::{decode_object, json_object_of};
use crate::order::{sort_records, stable_sort, SortKey};
use crate::timestamp::instant_of;
use crate::types::{
    DynamicVersionResponse, Environment, FieldDefaults, FieldMappings, JsonView, Service,
    VersionInfo,
};

verus! {

/// What came back from polling one environment.
pub enum EnvReply {
    /// The request failed in transport: refused, timed out, TLS, and the like.
    Unreachable,
    /// The endpoint answered with this HTTP status and body.
    Responded { status: u16, body: Vec<u8> },
    /// The task that polled the environment failed itself.
    Crashed,
}

/// Why one fetch gave no record.
#[derive(Debug)]
pub enum FailureKind {
    /// Transport failure, or an HTTP error status.
    NetworkError,
    /// The body is not a JSON object.
    DecodeError,
    /// The named version field is missing, not a string, or empty.
    MissingVersionField(String),
    /// The concurrent unit that ran the fetch failed.
    TaskFault,
}

/// The mathematical form of a `FailureKind`.
pub enum FailureView {
    NetworkError,
    DecodeError,
    MissingVersionField(Seq<char>),
    TaskFault,
}

impl View for FailureKind {
    type V = FailureView;

    open spec fn view(&self) -> FailureView {
        match self {
            FailureKind::NetworkError => FailureView::NetworkError,
            FailureKind::DecodeError => FailureView::DecodeError,
            FailureKind::MissingVersionField(f) => FailureView::MissingVersionField(f@),
            FailureKind::TaskFault => FailureView::TaskFault,
        }
    }
}

/// A failed fetch, with the service and environment it concerns.
#[derive(Debug)]
pub struct FetchFailure {
    pub service_name: String,
    pub env_name: String,
    pub kind: FailureKind,
}

/// The result of polling one environment.
#[derive(Debug)]
pub enum FetchOutcome {
    Success(VersionInfo),
    Failure(FetchFailure),
}

/// What one fetch must come to: a version with its deployment time, or a failure.
pub enum Expected {
    Record(Seq<char>, Option<(i64, u32)>),
    Failed(FailureView),
}

/// An HTTP status that reports an error (client or server).
pub open spec fn http_error(status: u16) -> bool {
    status >= 400
}

/// What a decoded status document (or its absence) comes to.
pub open spec fn expected_from_document(
    m: FieldMappings,
    d: FieldDefaults,
    doc: Option<Seq<(Seq<char>, JsonView)>>,
) -> Expected {
    match doc {
        None => Expected::Failed(FailureView::DecodeError),
        Some(entries) => match version_in(entries, version_field_of(m, d)) {
            None => Expected::Failed(FailureView::MissingVersionField(version_field_of(m, d))),
            Some(v) => Expected::Record(v, deploy_time_in(entries, deploy_field_of(m, d))),
        },
    }
}

/// What a reply comes to for a service with mappings `m` under defaults `d`.
pub open spec fn expected_outcome(m: FieldMappings, d: FieldDefaults, reply: EnvReply) -> Expected {
    match reply {
        EnvReply::Unreachable => Expected::Failed(FailureView::NetworkError),
        EnvReply::Crashed => Expected::Failed(FailureView::TaskFault),
        EnvReply::Responded { status, body } => if http_error(status) {
            Expected::Failed(FailureView::NetworkError)
        } else {
            expected_from_document(m, d, json_object_of(body@))
        },
    }
}

/// `o` is the outcome `e` for environment `env` of `service`.
pub open spec fn outcome_agrees(o: FetchOutcome, service: Service, env: Environment, e: Expected) -> bool {
    match o {
        FetchOutcome::Success(r) => match e {
            Expected::Record(version, deploy) => {
                &&& r.service_name@ == service.name@
                &&& r.service_tags@ == service.tags@
                &&& r.env_name@ == env.name@
                &&& r.version@ == version
                &&& instant_of(r.deployment_time) == deploy
            },
            Expected::Failed(_) => false,
        },
        FetchOutcome::Failure(f) => match e {
            Expected::Record(_, _) => false,
            Expected::Failed(k) => {
                &&& f.service_name@ == service.name@
                &&& f.env_name@ == env.name@
                &&& f.kind@ == k
            },
        },
    }
}

fn copy_texts(v: &Vec<String>) -> (r: Vec<String>)
    ensures
        r@ == v@,
{
    let mut r: Vec<String> = Vec::new();
    let mut i: usize = 0;
    while i < v.len()
        invariant
            i <= v@.len(),
            r@ == v@.subrange(0, i as int),
        decreases v@.len() - i,
    {
        r.push(v[i].clone());
        i = i + 1;
        proof {
            assert(r@ =~= v@.subrange(0, i as int));
        }
    }
    proof {
        assert(v@.subrange(0, v@.len() as int) =~= v@);
    }
    r
}

fn failed(service: &Service, env: &Environment, kind: FailureKind) -> (r: FetchOutcome)
    ensures
        outcome_agrees(r, *service, *env, Expected::Failed(kind@)),
{
    FetchOutcome::Failure(
        FetchFailure { service_name: service.name.clone(), env_name: env.name.clone(), kind },
    )
}

/// The outcome of a fetch whose body decoded to `document` (`None`: it did not decode).
pub fn document_outcome(
    service: &Service,
    env: &Environment,
    defaults: &FieldDefaults,
    document: Option<DynamicVersionResponse>,
) -> (r: FetchOutcome)
    ensures
        outcome_agrees(
            r,
            *service,
            *env,
            expected_from_document(
                service.field_mappings,
                *defaults,
                match document {
                    Some(d) => Some(d@),
                    None => None,
                },
            ),
        ),
{
    match document {
        None => failed(service, env, FailureKind::DecodeError),
        Some(doc) => match extract(&doc, &service.field_mappings, defaults) {
            Ok(v) => FetchOutcome::Success(
                VersionInfo {
                    service_name: service.name.clone(),
                    service_tags: copy_texts(&service.tags),
                    env_name: env.name.clone(),
                    version: v.version,
                    deployment_time: v.deployment_time,
                },
            ),
            Err(ExtractError::MissingVersionField(f)) => failed(
                service,
                env,
                FailureKind::MissingVersionField(f),
            ),
        },
    }
}

/// The outcome of polling environment `env` of `service`, given what came back.
pub fn fetch_outcome(
    service: &Service,
    env: &Environment,
    defaults: &FieldDefaults,
    reply: &EnvReply,
) -> (r: FetchOutcome)
    ensures
        outcome_agrees(r, *service, *env, expected_outcome(service.field_mappings, *defaults, *reply)),
{
    match reply {
        EnvReply::Unreachable => failed(service, env, FailureKind::NetworkError),
        EnvReply::Crashed => failed(service, env, FailureKind::TaskFault),
        EnvReply::Responded { status, body } => {
            if *status >= 400 {
                failed(service, env, FailureKind::NetworkError)
            } else {
                let document = decode_object(body.as_slice());
                document_outcome(service, env, defaults, document)
            }
        },
    }
}

/// The records of the successful outcomes, in order.
pub open spec fn successes(s: Seq<FetchOutcome>) -> Seq<VersionInfo>
    decreases s.len(),
{
    if s.len() == 0 {
        Seq::empty()
    } else {
        match s.last() {
            FetchOutcome::Success(r) => successes(s.drop_last()).push(r),
            FetchOutcome::Failure(_) => successes(s.drop_last()),
        }
    }
}

/// The failures among the outcomes, in order.
pub open spec fn failures(s: Seq<FetchOutcome>) -> Seq<FetchFailure>
    decreases s.len(),
{
    if s.len() == 0 {
        Seq::empty()
    } else {
        match s.last() {
            FetchOutcome::Success(_) => failures(s.drop_last()),
            FetchOutcome::Failure(f) => failures(s.drop_last()).push(f),
        }
    }
}

/// What one service's fetches came to.
#[derive(Debug)]
pub struct ServiceReport {
    /// The records, ordered by environment name.
    pub records: Vec<VersionInfo>,
    /// The failures, in the order of the outcomes.
    pub failures: Vec<FetchFailure>,
}

/// Splits one service's outcomes into its records, sorted stably by environment
/// name, and its failures.
pub fn collect_service(outcomes: Vec<FetchOutcome>) -> (r: ServiceReport)
    ensures
        r.records@ == stable_sort(successes(outcomes@), SortKey::Environment),
        r.failures@ == failures(outcomes@),
{
    let ghost s = outcomes@;
    let n = outcomes.len();
    let mut rest = outcomes;
    let mut records: Vec<VersionInfo> = Vec::new();
    let mut fails: Vec<FetchFailure> = Vec::new();
    let mut done: usize = 0;
    proof {
        assert(s.subrange(0, 0) =~= Seq::<FetchOutcome>::empty());
    }
    while done < n
        invariant
            n == s.len(),
            done <= n,
            rest@ == s.subrange(done as int, n as int),
            records@ == successes(s.subrange(0, done as int)),
            fails@ == failures(s.subrange(0, done as int)),
        decreases n - done,
    {
        let o = rest.remove(0);
        proof {
            assert(rest@ =~= s.subrange(done + 1, n as int));
            let prefix = s.subrange(0, done + 1);
            assert(prefix.drop_last() =~= s.subrange(0, done as int));
            assert(prefix.last() == o);
        }
        match o {
            FetchOutcome::Success(info) => records.push(info),
            FetchOutcome::Failure(f) => fails.push(f),
        }
        done = done + 1;
    }
    proof {
        assert(s.subrange(0, n as int) =~= s);
    }
    ServiceReport { records: sort_records(records, SortKey::Environment), failures: fails }
}

/// The records of the reports, one report after the other.
pub open spec fn joined_records(rs: Seq<ServiceReport>) -> Seq<VersionInfo>
    decreases rs.len(),
{
    if rs.len() == 0 {
        Seq::empty()
    } else {
        joined_records(rs.drop_last()) + rs.last().records@
    }
}

/// The failures of the reports, one report after the other.
pub open spec fn joined_failures(rs: Seq<ServiceReport>) -> Seq<FetchFailure>
    decreases rs.len(),
{
    if rs.len() == 0 {
        Seq::empty()
    } else {
        joined_failures(rs.drop_last()) + rs.last().failures@
    }
}

/// The final report of a run.
#[derive(Debug)]
pub struct FleetReport {
    /// Every record, ordered by service name, then environment name.
    pub records: Vec<VersionInfo>,
    /// Every failure, service by service.
    pub failures: Vec<FetchFailure>,
}

/// Merges the services' reports: all records sorted stably by (service name,
/// environment name), all failures kept.
pub fn merge_reports(reports: Vec<ServiceReport>) -> (r: FleetReport)
    ensures
        r.records@ == stable_sort(joined_records(reports@), SortKey::ServiceEnvironment),
        r.failures@ == joined_failures(reports@),
{
    let ghost s = reports@;
    let n = reports.len();
    let mut rest = reports;
    let mut records: Vec<VersionInfo> = Vec::new();
    let mut fails: Vec<FetchFailure> = Vec::new();
    let mut done: usize = 0;
    proof {
        assert(s.subrange(0, 0) =~= Seq::<ServiceReport>::empty());
    }
    while done < n
        invariant
            n == s.len(),
            done <= n,
            rest@ == s.subrange(done as int, n as int),
            records@ == joined_records(s.subrange(0, done as int)),
            fails@ == joined_failures(s.subrange(0, done as int)),
        decreases n - done,
    {
        let mut report = rest.remove(0);
        proof {
            assert(rest@ =~= s.subrange(done + 1, n as int));
            let prefix = s.subrange(0, done + 1);
            assert(prefix.drop_last() =~= s.subrange(0, done as int));
            assert(prefix.last() == report);
        }
        records.append(&mut report.records);
        fails.append(&mut report.failures);
        done = done + 1;
    }
    proof {
        assert(s.subrange(0, n as int) =~= s);
    }
    FleetReport { records: sort_records(records, SortKey::ServiceEnvironment), failures: fails }
}

/// Each service's records sorted by environment name, one service after the other.
pub open spec fn collected_records(os: Seq<Seq<FetchOutcome>>) -> Seq<VersionInfo>
    decreases os.len(),
{
    if os.len() == 0 {
        Seq::empty()
    } else {
        collected_records(os.drop_last()) + stable_sort(successes(os.last()), SortKey::Environment)
    }
}

/// Each service's failures, one service after the other.
pub open spec fn collected_failures(os: Seq<Seq<FetchOutcome>>) -> Seq<FetchFailure>
    decreases os.len(),
{
    if os.len() == 0 {
        Seq::empty()
    } else {
        collected_failures(os.drop_last()) + failures(os.last())
    }
}

/// The records of a run whose outcomes, service by service, are `os`.
pub open spec fn fleet_records(os: Seq<Seq<FetchOutcome>>) -> Seq<VersionInfo> {
    stable_sort(collected_records(os), SortKey::ServiceEnvironment)
}

/// `os` holds one outcome list per service, of one outcome per environment.
pub open spec fn outcomes_fit(os: Seq<Seq<FetchOutcome>>, services: Seq<Service>) -> bool {
    &&& os.len() == services.len()
    &&& forall|i: int| 0 <= i < os.len() ==> #[trigger] os[i].len() == services[i].environments@.len()
}

/// `replies` holds one reply list per service, of one reply per environment.
pub open spec fn replies_fit(config: Config, replies: Seq<Vec<EnvReply>>) -> bool {
    &&& replies.len() == config.services@.len()
    &&& forall|i: int| 0 <= i < replies.len() ==> #[trigger] replies[i]@.len()
        == config.services@[i].environments@.len()
}

/// Every outcome in `os` is what its reply comes to.
pub open spec fn outcomes_agree(os: Seq<Seq<FetchOutcome>>, config: Config, replies: Seq<Vec<EnvReply>>) -> bool {
    &&& outcomes_fit(os, config.services@)
    &&& forall|i: int, j: int|
        0 <= i < os.len() && 0 <= j < os[i].len() ==> outcome_agrees(
            #[trigger] os[i][j],
            config.services@[i],
            config.services@[i].environments@[j],
            expected_outcome(config.services@[i].field_mappings, config.defaults, replies[i]@[j]),
        )
}

/// The report of a run: `replies[i][j]` is what came back from environment `j` of
/// service `i`.
pub fn build_report(config: &Config, replies: &Vec<Vec<EnvReply>>) -> (r: FleetReport)
    requires
        replies_fit(*config, replies@),
    ensures
        exists|os: Seq<Seq<FetchOutcome>>|
            {
                &&& outcomes_agree(os, *config, replies@)
                &&& r.records@ == fleet_records(os)
                &&& r.failures@ == collected_failures(os)
            },
        r.records@.len() + r.failures@.len() == pair_count(config.services@),
{
    let ghost mut os: Seq<Seq<FetchOutcome>> = Seq::empty();
    let mut reports: Vec<ServiceReport> = Vec::new();
    let n = config.services.len();
    let mut i: usize = 0;
    while i < n
        invariant
            n == config.services@.len(),
            replies_fit(*config, replies@),
            i <= n,
            os.len() == i,
            reports@.len() == i,
            forall|k: int| 0 <= k < i ==> #[trigger] os[k].len()
                == config.services@[k].environments@.len(),
            forall|k: int, j: int|
                0 <= k < i && 0 <= j < os[k].len() ==> outcome_agrees(
                    #[trigger] os[k][j],
                    config.services@[k],
                    config.services@[k].environments@[j],
                    expected_outcome(config.services@[k].field_mappings, config.defaults, replies@[k]@[j]),
                ),
            joined_records(reports@) == collected_records(os),
            joined_failures(reports@) == collected_failures(os),
        decreases n - i,
    {
        let service = &config.services[i];
        let envs = &service.environments;
        let row = &replies[i];
        let mut outcomes: Vec<FetchOutcome> = Vec::new();
        let mut j: usize = 0;
        while j < envs.len()
            invariant
                *service == config.services@[i as int],
                *envs == service.environments,
                *row == replies@[i as int],
                row@.len() == envs@.len(),
                j <= envs@.len(),
                outcomes@.len() == j,
                forall|jj: int|
                    0 <= jj < j ==> outcome_agrees(
                        #[trigger] outcomes@[jj],
                        *service,
                        envs@[jj],
                        expected_outcome(service.field_mappings, config.defaults, row@[jj]),
                    ),
            decreases envs@.len() - j,
        {
            outcomes.push(fetch_outcome(service, &envs[j], &config.defaults, &row[j]));
            j = j + 1;
        }
        let ghost old_os = os;
        proof {
            os = os.push(outcomes@);
            assert(os.drop_last() =~= old_os);
        }
        let report = collect_service(outcomes);
        let ghost old_reports = reports@;
        reports.push(report);
        proof {
            assert(reports@.drop_last() =~= old_reports);
        }
        i = i + 1;
    }
    let r = merge_reports(reports);
    assert(outcomes_agree(os, *config, replies@));
    proof {
        law_every_pair_reported(config.services@, os);
    }
    r
}

} // verus!
