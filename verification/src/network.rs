//! The network of a sandbox: its proxy and its broker session, started and
//! stopped together.

use crate::broker::{session_filters, session_policy, BrokerSession};
use crate::models::{ContainerPolicy, ProxyAddress, WxcError};
use crate::proto::PolicyId;
use vstd::prelude::*;

verus! {

/// The network of a sandbox. The proxy is run elsewhere; here it is known
/// whether it is active and under which address.
#[derive(Debug)]
pub struct NetworkManager {
    proxy: Option<ProxyAddress>,
    broker: BrokerSession,
}

/// What the network of a sandbox does next.
#[derive(Debug)]
pub enum NetworkStep {
    /// Start the proxy of the sandbox with this SID and this process.
    StartProxy { principal: String, pid: u32 },
    /// Start the broker session of the sandbox with this SID and this process.
    StartBroker { principal: String, pid: u32 },
    /// Stop the proxy, then fail with this error.
    StopProxyAndFail(WxcError),
    /// Fail with this error.
    Fail(WxcError),
    /// The network is set up.
    Ready,
}

/// What is left to do to tear a network down.
#[derive(Debug, Clone, Copy, PartialEq, Eq, Structural)]
pub struct Teardown {
    /// The policy to have removed.
    pub policy: Option<PolicyId>,
    /// Whether the proxy is to be stopped.
    pub stop_proxy: bool,
}

/// Whether the next step is the broker session of a sandbox.
pub open spec fn starts_broker(s: NetworkStep, principal: Seq<char>, pid: u32) -> bool {
    s is StartBroker && s->StartBroker_principal@ == principal && s->StartBroker_pid == pid
}

impl NetworkManager {
    /// The address of the proxy that runs.
    pub closed spec fn spec_proxy(&self) -> Option<ProxyAddress> {
        self.proxy
    }

    /// The broker session: the policy that is in force, and the number of its
    /// filters.
    pub closed spec fn spec_session(&self) -> Option<(PolicyId, u32)> {
        self.broker@
    }

    /// The policy that is in force.
    pub open spec fn spec_policy(&self) -> Option<PolicyId> {
        session_policy(self.spec_session())
    }

    /// How many filters the broker installed.
    pub open spec fn spec_filters(&self) -> u32 {
        session_filters(self.spec_session())
    }

    /// A network without a proxy and without a policy.
    pub fn new() -> (m: NetworkManager)
        ensures
            m.spec_proxy() is None,
            m.spec_session() is None,
    {
        NetworkManager { proxy: None, broker: BrokerSession::new() }
    }

    /// The address of the proxy, if one is active.
    pub fn proxy_address(&self) -> (a: Option<&ProxyAddress>)
        ensures
            a is Some <==> self.spec_proxy() is Some,
            a is Some ==> *a->0 == self.spec_proxy()->0,
    {
        self.proxy.as_ref()
    }

    /// Whether the broker installed filters.
    pub fn rules_applied(&self) -> (r: bool)
        ensures
            r == (self.spec_filters() > 0),
            r <==> self.spec_session() is Some && (self.spec_session()->0).1 > 0,
    {
        self.broker.filters() > 0
    }

    /// The broker session.
    pub fn broker(&mut self) -> (b: &mut BrokerSession)
        ensures
            b@ == old(self).spec_session(),
            final(self).spec_session() == final(b)@,
            final(self).spec_proxy() == old(self).spec_proxy(),
    {
        &mut self.broker
    }

    /// Begins to set up the network of the sandbox with the SID `principal` and
    /// the process `pid`: with the proxy, if there is to be one. What the broker
    /// installs is bound to that process.
    pub fn start(&self, policy: &ContainerPolicy, principal: &str, pid: u32) -> (s: NetworkStep)
        ensures
            policy.network_proxy.spec_enabled() ==> s is StartProxy && s->StartProxy_principal@
                == principal@ && s->StartProxy_pid == pid,
            !policy.network_proxy.spec_enabled() ==> starts_broker(s, principal@, pid),
            s is StartProxy <==> policy.network_proxy.address is Some
                || policy.network_proxy.builtin_test_server,
            s is StartBroker ==> s->StartBroker_principal@ == principal@ && s->StartBroker_pid
                == pid,
            s is StartProxy || s is StartBroker,
    {
        let principal: String = principal.to_owned();
        if policy.network_proxy.is_enabled() {
            NetworkStep::StartProxy { principal, pid }
        } else {
            NetworkStep::StartBroker { principal, pid }
        }
    }

    /// Takes what came of starting the proxy. Without it there is no network;
    /// with it, the broker session of the same sandbox is next.
    pub fn proxy_started(
        &mut self,
        result: Result<ProxyAddress, WxcError>,
        principal: String,
        pid: u32,
    ) -> (s: NetworkStep)
        ensures
            final(self).spec_session() == old(self).spec_session(),
            s is StartBroker <==> result is Ok,
            s is StartBroker ==> s->StartBroker_principal@ == principal@ && s->StartBroker_pid
                == pid,
            match result {
                Ok(address) => starts_broker(s, principal@, pid) && final(self).spec_proxy() == Some(
                    address,
                ),
                Err(e) => s == NetworkStep::Fail(e) && final(self).spec_proxy() == old(
                    self,
                ).spec_proxy(),
            },
    {
        match result {
            Ok(address) => {
                self.proxy = Some(address);
                NetworkStep::StartBroker { principal, pid }
            },
            Err(e) => NetworkStep::Fail(e),
        }
    }

    /// Takes what came of starting the broker session. There is no other way to
    /// enforce the policy, so that its failure takes the proxy down as well.
    pub fn broker_started(&mut self, result: Result<bool, WxcError>) -> (s: NetworkStep)
        ensures
            final(self).spec_session() == old(self).spec_session(),
            match result {
                Ok(_) => s is Ready && final(self).spec_proxy() == old(self).spec_proxy(),
                Err(e) => final(self).spec_proxy() is None && s == (if old(self).spec_proxy() is Some {
                    NetworkStep::StopProxyAndFail(e)
                } else {
                    NetworkStep::Fail(e)
                }),
            },
    {
        match result {
            Ok(_) => NetworkStep::Ready,
            Err(e) => {
                if self.proxy.is_some() {
                    self.proxy = None;
                    NetworkStep::StopProxyAndFail(e)
                } else {
                    NetworkStep::Fail(e)
                }
            },
        }
    }

    /// Tears the network down; the policy only if `cleanup_policy` says so. A
    /// second call finds nothing to do.
    pub fn stop_all(&mut self, cleanup_policy: bool) -> (t: Teardown)
        ensures
            t.policy == (if cleanup_policy {
                old(self).spec_policy()
            } else {
                None
            }),
            t.policy is Some <==> cleanup_policy && old(self).spec_session() is Some,
            t.policy is Some ==> t.policy->0 == (old(self).spec_session()->0).0,
            t.stop_proxy == (old(self).spec_proxy() is Some),
            final(self).spec_proxy() is None,
            final(self).spec_session() == (if cleanup_policy {
                None
            } else {
                old(self).spec_session()
            }),
    {
        let policy: Option<PolicyId> = if cleanup_policy {
            self.broker.stop()
        } else {
            None
        };
        let stop_proxy: bool = self.proxy.is_some();
        self.proxy = None;
        Teardown { policy, stop_proxy }
    }
}

impl Default for NetworkManager {
    fn default() -> (m: NetworkManager)
        ensures
            m.spec_proxy() is None,
            m.spec_session() is None,
    {
        Self::new()
    }
}

} // verus!
