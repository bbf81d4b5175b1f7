//! The host names of the `url` crate.
use crate::checked::MallocCheckedSizeOf;
use crate::measurement::{lemma_over_fits, lemma_over_yields, Measurement};
use crate::ops::MallocSizeOfOps;
use crate::traits::MallocSizeOf;
use crate::walk::value_behind;
use url::Host;
use vstd::prelude::*;

verus! {

/// `url::Host`: a domain name or an address.
#[verifier::external_type_specification]
#[verifier::external_body]
#[verifier::reject_recursive_types(S)]
pub struct ExHost<S>(Host<S>);

/// The domain name of a host: the field of the variant `Domain` of `url::Host`,
/// and `None` for the other two variants.
///
/// Addresses are kept as types of the standard library that contracts cannot
/// speak of, so nothing is said of which hosts have a domain name.
#[verifier::external_body]
fn host_domain(host: &Host<String>) -> Option<&String> {
    match host {
        Host::Domain(name) => Some(name),
        Host::Ipv4(_) => None,
        Host::Ipv6(_) => None,
    }
}

/// The domain names that `host` may have, and `None` where it may be an address.
pub closed spec fn host_domains(host: &Host<String>) -> spec_fn(Option<String>) -> bool {
    |domain: Option<String>|
        exists|name: Option<&String>| #[trigger]
            call_ensures(host_domain, (host,), name) && domain == value_behind(name)
}

/// What measuring a host with this domain name, or without one, may return.
pub open spec fn domain_measurement() -> spec_fn(Option<String>) -> Measurement {
    |domain: Option<String>|
        match domain {
            Some(name) => name.measurement(),
            None => Measurement::nothing(),
        }
}

/// The size of a host with this domain name; an address owns nothing.
pub fn domain_size_of(domain: Option<&String>, ops: &mut MallocSizeOfOps) -> (n: usize)
    requires
        domain_measurement()(value_behind(domain)).fits(old(ops)@),
    ensures
        domain_measurement()(value_behind(domain)).yields(old(ops)@, final(ops)@, n as nat),
        final(ops)@.continues(old(ops)@),
{
    match domain {
        Some(name) => name.size_of(ops),
        None => 0,
    }
}

impl MallocSizeOf for Host<String> {
    open spec fn measurement(&self) -> Measurement {
        Measurement::over(host_domains(self), domain_measurement())
    }

    fn size_of(&self, ops: &mut MallocSizeOfOps) -> (n: usize) {
        let ghost origin = ops@;
        let ghost domains = host_domains(self);
        let domain = host_domain(self);
        let ghost name = value_behind(domain);
        proof {
            assert(domains(name));
            lemma_over_fits(domains, domain_measurement(), name, origin);
        }
        let n = domain_size_of(domain, ops);
        proof {
            lemma_over_yields(domains, domain_measurement(), name, origin, ops@, n as nat);
        }
        n
    }
}

impl MallocCheckedSizeOf for Host<String> {
    fn checked_size_of(&self, ops: &mut MallocSizeOfOps) -> (n: Option<usize>) {
        let ghost origin = ops@;
        let ghost domains = host_domains(self);
        let domain = host_domain(self);
        let n = match domain {
            Some(name) => name.checked_size_of(ops),
            None => Some(0),
        };
        proof {
            let name = value_behind(domain);
            assert(domains(name));
            match n {
                Some(n) => lemma_over_yields(
                    domains,
                    domain_measurement(),
                    name,
                    origin,
                    ops@,
                    n as nat,
                ),
                None => assert(!domain_measurement()(name).fits(origin)),
            }
        }
        n
    }
}

/// What is found of a host is what it says of itself.
proof fn law_found(host: &Host<String>, name: String)
    ensures
        host_domains(host)(Some(name)) <==> call_ensures(host_domain, (host,), Some(&name)),
        host_domains(host)(None) <==> call_ensures(host_domain, (host,), None),
{
}

} // verus!
