use vstd::prelude::*;
use vstd::string::StringExecFns;

use crate::schema::opt_str_view;

verus! {

/// Health of one external collaborator.
#[derive(Debug, Clone)]
pub struct ServiceHealth {
    pub status: String,
    pub message: Option<String>,
    pub response_time_ms: Option<u64>,
}

pub ghost struct ServiceHealthV {
    pub status: Seq<char>,
    pub message: Option<Seq<char>>,
    pub response_time_ms: Option<u64>,
}

impl View for ServiceHealth {
    type V = ServiceHealthV;

    open spec fn view(&self) -> ServiceHealthV {
        ServiceHealthV {
            status: self.status@,
            message: opt_str_view(self.message),
            response_time_ms: self.response_time_ms,
        }
    }
}

impl ServiceHealth {
    /// A healthy report with the given note and measured latency.
    pub fn healthy(message: String, response_time_ms: u64) -> (r: ServiceHealth)
        ensures
            r@.status == "healthy"@,
            r@.message == Some(message@),
            r@.response_time_ms == Some(response_time_ms),
    {
        ServiceHealth {
            status: String::from_str("healthy"),
            message: Some(message),
            response_time_ms: Some(response_time_ms),
        }
    }

    /// An unhealthy report with the given note and measured latency.
    pub fn unhealthy(message: String, response_time_ms: u64) -> (r: ServiceHealth)
        ensures
            r@.status == "unhealthy"@,
            r@.message == Some(message@),
            r@.response_time_ms == Some(response_time_ms),
    {
        ServiceHealth {
            status: String::from_str("unhealthy"),
            message: Some(message),
            response_time_ms: Some(response_time_ms),
        }
    }
}

/// The aggregate health report: overall status, a timestamp, and the named
/// per-service reports.
#[derive(Debug)]
pub struct HealthStatus {
    pub status: String,
    pub timestamp: String,
    pub services: Vec<(String, ServiceHealth)>,
}

/// Every listed service reports the literal status `healthy`.
pub open spec fn all_services_healthy(s: Seq<(String, ServiceHealth)>) -> bool {
    forall|i: int| 0 <= i < s.len() ==> (#[trigger] s[i]).1@.status == "healthy"@
}

impl HealthStatus {
    /// Aggregates per-service reports: the overall status is `healthy`
    /// exactly when every service is, else `degraded`.
    pub fn from_services(timestamp: String, services: Vec<(String, ServiceHealth)>) -> (r:
        HealthStatus)
        ensures
            r.status@ == (if all_services_healthy(services@) {
                "healthy"@
            } else {
                "degraded"@
            }),
            r.timestamp@ == timestamp@,
            r.services@ == services@,
    {
        let healthy_word = String::from_str("healthy");
        let mut all_healthy = true;
        let mut i: usize = 0;
        while i < services.len()
            invariant
                0 <= i <= services@.len(),
                healthy_word@ == "healthy"@,
                all_healthy == (forall|j: int|
                    0 <= j < i ==> (#[trigger] services@[j]).1@.status == "healthy"@),
            decreases services@.len() - i,
        {
            if !(services[i].1.status == healthy_word) {
                all_healthy = false;
            }
            proof {
                if all_healthy {
                    assert forall|j: int|
                        0 <= j < i + 1 implies (#[trigger] services@[j]).1@.status == "healthy"@ by {
                    }
                }
            }
            i = i + 1;
        }
        let status = if all_healthy {
            String::from_str("healthy")
        } else {
            String::from_str("degraded")
        };
        HealthStatus { status, timestamp, services }
    }
}

} // verus!
