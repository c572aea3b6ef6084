//! Semantic facts about simulated hosts: who a host is and which services it
//! offers. Every protocol-visible byte a host emits is derived from these.

use vstd::prelude::*;

verus! {

/// The view of an optional string.
pub open spec fn opt_str_view(o: Option<String>) -> Option<Seq<char>> {
    match o {
        Some(s) => Some(s@),
        None => None,
    }
}

/// One open service: a port and what answers on it.
#[derive(Debug)]
pub struct ServiceFacts {
    pub port: u16,
    /// `"tcp"` or `"udp"`.
    pub proto: String,
    /// `"ssh"`, `"http"`, `"dns"`, ...
    pub service: String,
    /// For example `"OpenSSH_9.6"`.
    pub version: Option<String>,
}

/// The mathematical content of a [`ServiceFacts`].
pub struct ServiceView {
    pub port: u16,
    pub proto: Seq<char>,
    pub service: Seq<char>,
    pub version: Option<Seq<char>>,
}

impl View for ServiceFacts {
    type V = ServiceView;

    open spec fn view(&self) -> ServiceView {
        ServiceView {
            port: self.port,
            proto: self.proto@,
            service: self.service@,
            version: opt_str_view(self.version),
        }
    }
}

/// The persona of one host: the facts from which all of its visible behaviour
/// is derived.
#[derive(Debug)]
pub struct HostFacts {
    pub ip: u32,
    pub mac: [u8; 6],
    pub hostname: Option<String>,
    /// `"linux"` and the like; it drives the TCP fingerprint.
    pub os: String,
    pub services: Vec<ServiceFacts>,
}

/// The mathematical content of a [`HostFacts`].
pub struct HostView {
    pub ip: u32,
    pub mac: Seq<u8>,
    pub hostname: Option<Seq<char>>,
    pub os: Seq<char>,
    pub services: Seq<ServiceView>,
}

/// The views of a sequence of services.
pub open spec fn services_view(s: Seq<ServiceFacts>) -> Seq<ServiceView> {
    s.map_values(|x: ServiceFacts| x@)
}

impl View for HostFacts {
    type V = HostView;

    open spec fn view(&self) -> HostView {
        HostView {
            ip: self.ip,
            mac: self.mac@,
            hostname: opt_str_view(self.hostname),
            os: self.os@,
            services: services_view(self.services@),
        }
    }
}

fn clone_opt_string(o: &Option<String>) -> (r: Option<String>)
    ensures
        r == *o,
{
    match o {
        Some(s) => Some(s.clone()),
        None => None,
    }
}

fn same_opt_string(a: &Option<String>, b: &Option<String>) -> (r: bool)
    ensures
        r == (opt_str_view(*a) == opt_str_view(*b)),
{
    match (a, b) {
        (Some(x), Some(y)) => *x == *y,
        (None, None) => true,
        _ => false,
    }
}

impl Clone for ServiceFacts {
    fn clone(&self) -> (r: Self)
        ensures
            r == *self,
    {
        ServiceFacts {
            port: self.port,
            proto: self.proto.clone(),
            service: self.service.clone(),
            version: clone_opt_string(&self.version),
        }
    }
}

impl ServiceFacts {
    /// Whether two services carry the same facts.
    pub fn same_as(&self, other: &ServiceFacts) -> (r: bool)
        ensures
            r == (self@ == other@),
    {
        self.port == other.port && self.proto == other.proto && self.service == other.service
            && same_opt_string(&self.version, &other.version)
    }
}

impl Clone for HostFacts {
    fn clone(&self) -> (r: Self)
        ensures
            r@ == self@,
    {
        let services = self.services.clone();
        assert(services@ =~= self.services@) by {
            assert forall|i: int| 0 <= i < services@.len() implies services@[i]
                == self.services@[i] by {
                assert(cloned::<ServiceFacts>(self.services@[i], services@[i]));
            }
        }
        HostFacts {
            ip: self.ip,
            mac: self.mac,
            hostname: clone_opt_string(&self.hostname),
            os: self.os.clone(),
            services,
        }
    }
}

impl HostFacts {
    /// Whether two personas carry the same facts.
    pub fn same_as(&self, other: &HostFacts) -> (r: bool)
        ensures
            r == (self@ == other@),
    {
        if self.ip != other.ip {
            return false;
        }
        let mut k: usize = 0;
        while k < 6
            invariant
                k <= 6,
                forall|j: int| 0 <= j < k ==> self.mac@[j] == other.mac@[j],
            decreases 6 - k,
        {
            if self.mac[k] != other.mac[k] {
                assert(self@.mac[k as int] != other@.mac[k as int]);
                return false;
            }
            k = k + 1;
        }
        assert(self.mac@ =~= other.mac@);
        if !same_opt_string(&self.hostname, &other.hostname) {
            return false;
        }
        if self.os != other.os {
            return false;
        }
        let n = self.services.len();
        if n != other.services.len() {
            assert(self@.services.len() != other@.services.len());
            return false;
        }
        let mut i: usize = 0;
        while i < n
            invariant
                n == self.services@.len(),
                n == other.services@.len(),
                i <= n,
                forall|j: int| 0 <= j < i ==> self.services@[j]@ == other.services@[j]@,
            decreases n - i,
        {
            if !self.services[i].same_as(&other.services[i]) {
                assert(self@.services[i as int] != other@.services[i as int]);
                return false;
            }
            i = i + 1;
        }
        assert(self@.services =~= other@.services);
        true
    }
}

impl PartialEq for ServiceFacts {
    fn eq(&self, other: &Self) -> (r: bool) {
        self.same_as(other)
    }
}

impl vstd::std_specs::cmp::PartialEqSpecImpl for ServiceFacts {
    open spec fn obeys_eq_spec() -> bool {
        true
    }

    open spec fn eq_spec(&self, other: &ServiceFacts) -> bool {
        self@ == other@
    }
}

impl Eq for ServiceFacts {

}

impl PartialEq for HostFacts {
    fn eq(&self, other: &Self) -> (r: bool) {
        self.same_as(other)
    }
}

impl vstd::std_specs::cmp::PartialEqSpecImpl for HostFacts {
    open spec fn obeys_eq_spec() -> bool {
        true
    }

    open spec fn eq_spec(&self, other: &HostFacts) -> bool {
        self@ == other@
    }
}

impl Eq for HostFacts {

}

} // verus!
