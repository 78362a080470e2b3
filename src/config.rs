use vstd::prelude::*;
use crate::types::{FieldDefaults, Service};

verus! {

/// The fleet: default field names and the services to poll.
pub struct Config {
    pub defaults: FieldDefaults,
    pub services: Vec<Service>,
}

/// The number of (service, environment) pairs of a list of services.
pub open spec fn pair_count(services: Seq<Service>) -> int
    decreases services.len(),
{
    if services.len() == 0 {
        0
    } else {
        pair_count(services.drop_last()) + services.last().environments@.len()
    }
}

} // verus!
