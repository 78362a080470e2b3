//! What holds of every run, proved over the specifications of the library's functions.

use vstd::prelude::*;
use crate::config::pair_count;
use crate::extract::{deploy_field_of, version_field_of, version_in};
use crate::json::{json_object_of, text_in};
use std::cmp::Ordering;
use crate::order::{
    key_cmp, lemma_key_cmp_basics, lemma_stable_sort, record_cmp, record_key, sorted_by, SortKey,
};
use crate::runner::{
    collected_failures, collected_records, expected_outcome, failures, fleet_records, http_error,
    outcome_agrees, outcomes_fit, successes, EnvReply, FailureView, FetchOutcome,
};
use crate::timestamp::rfc3339_instant;
use crate::types::{Environment, FieldDefaults, FieldMappings, JsonView, Service, VersionInfo};

verus! {

/// The successful records of all services, one service after the other.
pub open spec fn all_successes(os: Seq<Seq<FetchOutcome>>) -> Seq<VersionInfo>
    decreases os.len(),
{
    if os.len() == 0 {
        Seq::empty()
    } else {
        all_successes(os.drop_last()) + successes(os.last())
    }
}

proof fn lemma_split_len(s: Seq<FetchOutcome>)
    ensures
        successes(s).len() + failures(s).len() == s.len(),
    decreases s.len(),
{
    if s.len() > 0 {
        lemma_split_len(s.drop_last());
    }
}

proof fn lemma_collected(os: Seq<Seq<FetchOutcome>>, services: Seq<Service>)
    requires
        outcomes_fit(os, services),
    ensures
        collected_records(os).len() + collected_failures(os).len() == pair_count(services),
    decreases os.len(),
{
    if os.len() > 0 {
        let d = os.drop_last();
        let sd = services.drop_last();
        assert forall|i: int| 0 <= i < d.len() implies #[trigger] d[i].len()
            == sd[i].environments@.len() by {
            assert(d[i] == os[i] && sd[i] == services[i]);
        }
        lemma_collected(d, sd);
        lemma_split_len(os.last());
        lemma_stable_sort(successes(os.last()), SortKey::Environment);
        assert(os[os.len() - 1].len() == services[os.len() - 1].environments@.len());
    }
}

/// The report's records are ordered by service name, then environment name, and are
/// exactly the records of the successful fetches, whatever order those fetches
/// completed in.
pub proof fn law_report_ordered(os: Seq<Seq<FetchOutcome>>)
    ensures
        sorted_by(fleet_records(os), SortKey::ServiceEnvironment),
        fleet_records(os).to_multiset() == all_successes(os).to_multiset(),
{
    lemma_stable_sort(collected_records(os), SortKey::ServiceEnvironment);
    lemma_collected_multiset(os);
}

proof fn lemma_collected_multiset(os: Seq<Seq<FetchOutcome>>)
    ensures
        collected_records(os).to_multiset() == all_successes(os).to_multiset(),
    decreases os.len(),
{
    broadcast use vstd::seq_lib::lemma_multiset_commutative;

    if os.len() > 0 {
        lemma_collected_multiset(os.drop_last());
        lemma_stable_sort(successes(os.last()), SortKey::Environment);
    }
}

/// Every (service, environment) pair shows up in the report exactly once: as a record
/// or as a failure.
pub proof fn law_every_pair_reported(services: Seq<Service>, os: Seq<Seq<FetchOutcome>>)
    requires
        outcomes_fit(os, services),
    ensures
        fleet_records(os).len() + collected_failures(os).len() == pair_count(services),
{
    lemma_collected(os, services);
    lemma_stable_sort(collected_records(os), SortKey::ServiceEnvironment);
}

/// The body decodes to a JSON object with no non-empty string under `key`.
pub open spec fn lacks_version(body: Seq<u8>, key: Seq<char>) -> bool {
    match json_object_of(body) {
        Some(entries) => version_in(entries, key).is_none(),
        None => false,
    }
}

/// The body decodes to a JSON object with a version under `vkey` and, under `dkey`, a
/// string that is not RFC 3339.
pub open spec fn has_unparsable_time(body: Seq<u8>, vkey: Seq<char>, dkey: Seq<char>) -> bool {
    match json_object_of(body) {
        Some(entries) => {
            &&& version_in(entries, vkey).is_some()
            &&& match text_in(entries, dkey) {
                Some(t) => rfc3339_instant(t).is_none(),
                None => false,
            }
        },
        None => false,
    }
}

/// A record always carries a non-empty version.
pub proof fn law_records_carry_versions(
    service: Service,
    env: Environment,
    defaults: FieldDefaults,
    reply: EnvReply,
    o: FetchOutcome,
)
    requires
        outcome_agrees(o, service, env, expected_outcome(service.field_mappings, defaults, reply)),
    ensures
        o matches FetchOutcome::Success(r) ==> r.version@.len() > 0,
{
}

/// A document whose mapped version field is missing gives a `MissingVersionField`
/// failure naming that field, never a record.
pub proof fn law_missing_version_fails(
    service: Service,
    env: Environment,
    defaults: FieldDefaults,
    status: u16,
    body: Vec<u8>,
    o: FetchOutcome,
)
    requires
        outcome_agrees(
            o,
            service,
            env,
            expected_outcome(service.field_mappings, defaults, EnvReply::Responded { status, body }),
        ),
        !http_error(status),
        lacks_version(body@, version_field_of(service.field_mappings, defaults)),
    ensures
        o matches FetchOutcome::Failure(f),
        o matches FetchOutcome::Failure(f) ==> f.kind@ == FailureView::MissingVersionField(
            version_field_of(service.field_mappings, defaults),
        ),
{
}

/// A deployment time that is present but not RFC 3339 leaves the record without one;
/// it never fails the fetch.
pub proof fn law_unparsable_time_is_absent(
    service: Service,
    env: Environment,
    defaults: FieldDefaults,
    status: u16,
    body: Vec<u8>,
    o: FetchOutcome,
)
    requires
        outcome_agrees(
            o,
            service,
            env,
            expected_outcome(service.field_mappings, defaults, EnvReply::Responded { status, body }),
        ),
        !http_error(status),
        has_unparsable_time(
            body@,
            version_field_of(service.field_mappings, defaults),
            deploy_field_of(service.field_mappings, defaults),
        ),
    ensures
        o matches FetchOutcome::Success(r),
        o matches FetchOutcome::Success(r) ==> r.deployment_time.is_none(),
{
}

/// A service's own field names win over the fleet defaults; where it sets none, the
/// defaults apply.
pub proof fn law_override_wins(m: FieldMappings, d: FieldDefaults)
    ensures
        m.version_field matches Some(f) ==> version_field_of(m, d) == f@,
        m.version_field is None ==> version_field_of(m, d) == d.version_field@,
        m.deploy_time_field matches Some(f) ==> deploy_field_of(m, d) == f@,
        m.deploy_time_field is None ==> deploy_field_of(m, d) == d.deploy_time_field@,
{
}

/// The (service name, environment name) keys of records, in order.
pub open spec fn keys_of(s: Seq<VersionInfo>) -> Seq<(Seq<char>, Seq<char>)> {
    s.map_values(|r: VersionInfo| record_key(r, SortKey::ServiceEnvironment))
}

proof fn lemma_keys_multiset(s1: Seq<VersionInfo>, s2: Seq<VersionInfo>)
    requires
        s1.to_multiset() == s2.to_multiset(),
    ensures
        keys_of(s1).to_multiset() == keys_of(s2).to_multiset(),
    decreases s1.len(),
{
    broadcast use vstd::seq_lib::group_to_multiset_ensures, vstd::multiset::group_multiset_axioms;

    vstd::seq_lib::to_multiset_len(s1);
    vstd::seq_lib::to_multiset_len(s2);
    if s1.len() == 0 {
        assert(keys_of(s1) =~= keys_of(s2));
    } else {
        let x = s1.last();
        let d1 = s1.drop_last();
        assert(s1 =~= d1.push(x));
        assert(s2.to_multiset().count(x) > 0);
        assert(s2.contains(x));
        let i = choose|i: int| 0 <= i < s2.len() && s2[i] == x;
        let d2 = s2.remove(i);
        assert(d1.to_multiset() =~= d2.to_multiset());
        lemma_keys_multiset(d1, d2);
        let kx = record_key(x, SortKey::ServiceEnvironment);
        assert(keys_of(s1) =~= keys_of(d1).push(kx));
        assert(keys_of(d2) =~= keys_of(s2).remove(i));
        assert(keys_of(s2)[i] == kx);
        assert(keys_of(s2).to_multiset() =~= keys_of(d2).to_multiset().insert(kx));
    }
}

proof fn lemma_sorted_keys_unique(k1: Seq<(Seq<char>, Seq<char>)>, k2: Seq<(Seq<char>, Seq<char>)>)
    requires
        forall|i: int, j: int| 0 <= i < j < k1.len() ==> key_cmp(k1[i], k1[j]) != Ordering::Greater,
        forall|i: int, j: int| 0 <= i < j < k2.len() ==> key_cmp(k2[i], k2[j]) != Ordering::Greater,
        k1.to_multiset() == k2.to_multiset(),
    ensures
        k1 == k2,
    decreases k1.len(),
{
    broadcast use vstd::seq_lib::group_to_multiset_ensures, vstd::multiset::group_multiset_axioms;

    vstd::seq_lib::to_multiset_len(k1);
    vstd::seq_lib::to_multiset_len(k2);
    if k1.len() == 0 {
        assert(k1 =~= k2);
    } else {
        let n = k1.len() - 1;
        let a = k1[n];
        let b = k2[n];
        assert(k2.to_multiset().count(a) > 0);
        let i = choose|i: int| 0 <= i < k2.len() && k2[i] == a;
        assert(k1.to_multiset().count(b) > 0);
        let j = choose|j: int| 0 <= j < k1.len() && k1[j] == b;
        lemma_key_cmp_basics(a, b);
        if i < n {
            assert(key_cmp(k2[i], k2[n]) != Ordering::Greater);
        }
        if j < n {
            assert(key_cmp(k1[j], k1[n]) != Ordering::Greater);
        }
        assert(a == b);
        let d1 = k1.drop_last();
        let d2 = k2.drop_last();
        assert(k1 =~= d1.push(a));
        assert(k2 =~= d2.push(a));
        assert(d1.to_multiset() =~= k1.to_multiset().remove(a));
        assert(d2.to_multiset() =~= k2.to_multiset().remove(a));
        assert forall|i: int, j: int| 0 <= i < j < d1.len() implies key_cmp(d1[i], d1[j])
            != Ordering::Greater by {
            assert(d1[i] == k1[i] && d1[j] == k1[j]);
        }
        assert forall|i: int, j: int| 0 <= i < j < d2.len() implies key_cmp(d2[i], d2[j])
            != Ordering::Greater by {
            assert(d2[i] == k2[i] && d2[j] == k2[j]);
        }
        lemma_sorted_keys_unique(d1, d2);
    }
}

/// Whatever order the same records arrive in, service by service or fetch by fetch,
/// the report lists the same (service name, environment name) keys in the same order.
pub proof fn law_order_independent(os1: Seq<Seq<FetchOutcome>>, os2: Seq<Seq<FetchOutcome>>)
    requires
        all_successes(os1).to_multiset() == all_successes(os2).to_multiset(),
    ensures
        keys_of(fleet_records(os1)) == keys_of(fleet_records(os2)),
{
    law_report_ordered(os1);
    law_report_ordered(os2);
    let s1 = fleet_records(os1);
    let s2 = fleet_records(os2);
    lemma_keys_multiset(s1, s2);
    let k1 = keys_of(s1);
    let k2 = keys_of(s2);
    assert forall|i: int, j: int| 0 <= i < j < k1.len() implies key_cmp(k1[i], k1[j])
        != Ordering::Greater by {
        assert(record_cmp(s1[i], s1[j], SortKey::ServiceEnvironment) != Ordering::Greater);
    }
    assert forall|i: int, j: int| 0 <= i < j < k2.len() implies key_cmp(k2[i], k2[j])
        != Ordering::Greater by {
        assert(record_cmp(s2[i], s2[j], SortKey::ServiceEnvironment) != Ordering::Greater);
    }
    lemma_sorted_keys_unique(k1, k2);
}

} // verus!
