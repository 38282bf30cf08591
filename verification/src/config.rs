//! The route table: an immutable mapping from hostname to a backing workload,
//! loaded once at startup and consulted on every request.

use vstd::prelude::*;
use crate::text::str_eq;

verus! {

/// The global default for how long a request may wait for readiness, in
/// milliseconds.
pub const DEFAULT_TIMEOUT_MS: u64 = 30000;

/// How the backing workload is realised in the cluster.
#[derive(Clone, Copy, Debug, PartialEq, Eq, Structural)]
pub enum ServiceType {
    Deployment,
    Statefulset,
}

/// The text names a workload type goes by in a route document.
pub open spec fn service_type_of(s: Seq<char>) -> Option<ServiceType> {
    if s == "deployment"@ || s == "deploy"@ {
        Some(ServiceType::Deployment)
    } else if s == "statefulset"@ || s == "sts"@ {
        Some(ServiceType::Statefulset)
    } else {
        None
    }
}

/// Reads a workload type from its configured text form: "deployment" or
/// "deploy" for a Deployment, "statefulset" or "sts" for a StatefulSet,
/// anything else rejected.
pub fn parse_service_type(s: &str) -> (r: Option<ServiceType>)
    ensures
        r == service_type_of(s@),
{
    if str_eq(s, "deployment") || str_eq(s, "deploy") {
        Some(ServiceType::Deployment)
    } else if str_eq(s, "statefulset") || str_eq(s, "sts") {
        Some(ServiceType::Statefulset)
    } else {
        None
    }
}

/// Where the readiness oracle's metrics backend is reached, and the port
/// this process's own metrics are exposed on.
pub struct PrometheusConfig {
    pub address: String,
    pub exporter_port: u16,
}

/// What the process is started with: the path of the route document, the
/// port to serve on, and the metrics backend addresses.
pub struct CliArgs {
    pub prometheus: PrometheusConfig,
    pub conf: String,
    pub port: u16,
}

/// The mathematical value of one route.
pub struct ServiceView {
    pub host: Seq<char>,
    pub ty: ServiceType,
    pub namespace: Seq<char>,
    pub name: Seq<char>,
    pub service_name: Seq<char>,
    pub service_port: u16,
    pub timeout: Option<u64>,
}

/// One route: a hostname, the workload whose readiness gates admission, and
/// the backend service the request is forwarded to.  `timeout` is an optional
/// per-route override of the global default, in milliseconds.
pub struct Service {
    pub host: String,
    pub ty: ServiceType,
    pub namespace: String,
    pub name: String,
    pub service_name: String,
    pub service_port: u16,
    pub timeout: Option<u64>,
}

impl View for Service {
    type V = ServiceView;

    open spec fn view(&self) -> ServiceView {
        ServiceView {
            host: self.host@,
            ty: self.ty,
            namespace: self.namespace@,
            name: self.name@,
            service_name: self.service_name@,
            service_port: self.service_port,
            timeout: self.timeout,
        }
    }
}

impl Service {
    /// A field-for-field copy of the route, e.g. to hold in a request context
    /// that outlives a borrow of the table.
    pub fn duplicate(&self) -> (r: Service)
        ensures
            r@ == self@,
    {
        Service {
            host: self.host.clone(),
            ty: self.ty,
            namespace: self.namespace.clone(),
            name: self.name.clone(),
            service_name: self.service_name.clone(),
            service_port: self.service_port,
            timeout: self.timeout,
        }
    }
}

/// The mathematical value of the route table.
pub struct ConfigView {
    pub services: Seq<ServiceView>,
    pub timeout: u64,
}

/// The route table: the declared routes in order, and the global default
/// timeout in milliseconds.  Never mutated after loading.
pub struct Config {
    pub services: Vec<Service>,
    pub timeout: u64,
}

impl View for Config {
    type V = ConfigView;

    open spec fn view(&self) -> ConfigView {
        ConfigView {
            services: self.services@.map_values(|s: Service| s@),
            timeout: self.timeout,
        }
    }
}

/// The index of the first declared route whose host equals the given host
/// exactly, if any.
pub open spec fn first_match(services: Seq<ServiceView>, host: Seq<char>) -> Option<int>
    decreases services.len(),
{
    if services.len() == 0 {
        None
    } else if services[0].host == host {
        Some(0)
    } else {
        match first_match(services.drop_first(), host) {
            Some(i) => Some(i + 1),
            None => None,
        }
    }
}

/// Lookup is deterministic and first-declared-wins: when `first_match` finds
/// an index, that route's host matches and no earlier declared route's host
/// does; when it finds none, no declared route's host matches.
pub proof fn lemma_first_match_characterizes(services: Seq<ServiceView>, host: Seq<char>)
    ensures
        match first_match(services, host) {
            Some(i) => 0 <= i < services.len() && services[i].host == host && (forall|j: int|
                0 <= j < i ==> services[j].host != host),
            None => forall|j: int| 0 <= j < services.len() ==> services[j].host != host,
        },
    decreases services.len(),
{
    if services.len() != 0 && services[0].host != host {
        let sub = services.drop_first();
        lemma_first_match_characterizes(sub, host);
        assert(forall|j: int| 0 <= j < sub.len() ==> sub[j] == services[j + 1]);
        match first_match(sub, host) {
            Some(i) => {
                assert(services[i + 1].host == host);
                assert forall|j: int| 0 <= j < i + 1 implies services[j].host != host by {
                    if j > 0 {
                        assert(sub[j - 1] == services[j]);
                    }
                }
            },
            None => {
                assert forall|j: int| 0 <= j < services.len() implies services[j].host != host by {
                    if j > 0 {
                        assert(sub[j - 1] == services[j]);
                    }
                }
            },
        }
    }
}

/// The effective timeout of a route: its own override when present, the
/// global default otherwise.
pub open spec fn effective_timeout_spec(s: ServiceView, default_ms: u64) -> u64 {
    match s.timeout {
        Some(t) => t,
        None => default_ms,
    }
}

impl Config {
    /// The first declared route whose host equals `host` exactly — no
    /// wildcard or prefix matching, case-sensitive.
    pub fn lookup(&self, host: &str) -> (r: Option<usize>)
        ensures
            match r {
                Some(i) => first_match(self@.services, host@) == Some(i as int),
                None => first_match(self@.services, host@) is None,
            },
    {
        let n = self.services.len();
        let mut i: usize = 0;
        while i < n
            invariant
                n == self.services.len(),
                i <= n,
                forall|j: int| 0 <= j < i ==> self@.services[j].host != host@,
            decreases n - i,
        {
            if str_eq(self.services[i].host.as_str(), host) {
                proof {
                    assert(self@.services[i as int].host == host@);
                    lemma_first_match_characterizes(self@.services, host@);
                    match first_match(self@.services, host@) {
                        Some(k) => {
                            assert(!(k < i)) by {
                                if k < i {
                                    assert(self@.services[k].host != host@);
                                }
                            }
                            assert(!(k > i)) by {
                                if k > i {
                                    assert(self@.services[i as int].host != host@);
                                }
                            }
                        },
                        None => {
                            assert(self@.services[i as int].host != host@);
                        },
                    }
                }
                return Some(i);
            }
            i += 1;
        }
        proof {
            lemma_first_match_characterizes(self@.services, host@);
        }
        None
    }

    /// The timeout that governs the route at `i`: its own override when
    /// present, else this table's global default.
    pub fn effective_timeout(&self, i: usize) -> (r: u64)
        requires
            i < self.services@.len(),
        ensures
            r == effective_timeout_spec(self@.services[i as int], self@.timeout),
    {
        match self.services[i].timeout {
            Some(t) => t,
            None => self.timeout,
        }
    }
}

} // verus!
