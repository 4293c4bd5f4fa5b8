//! What a script asks for of the network, and how setting it up can fail.

use vstd::prelude::*;

verus! {

/// What can go wrong in setting up the network of a sandbox.
#[derive(Debug)]
pub enum WxcError {
    NetworkProxy(String),
    Firewall(String),
}

/// An error with its text as a sequence of characters.
pub enum WxcErrorView {
    NetworkProxy(Seq<char>),
    Firewall(Seq<char>),
}

impl View for WxcError {
    type V = WxcErrorView;

    open spec fn view(&self) -> WxcErrorView {
        match *self {
            WxcError::NetworkProxy(s) => WxcErrorView::NetworkProxy(s@),
            WxcError::Firewall(s) => WxcErrorView::Firewall(s@),
        }
    }
}

impl WxcError {
    /// The text of the error.
    pub fn message(&self) -> (m: &str)
        ensures
            match self@ {
                WxcErrorView::NetworkProxy(s) => m@ == s,
                WxcErrorView::Firewall(s) => m@ == s,
            },
    {
        match self {
            WxcError::NetworkProxy(s) => s.as_str(),
            WxcError::Firewall(s) => s.as_str(),
        }
    }
}

/// The address of a proxy.
#[derive(Debug)]
pub struct ProxyAddress {
    pub host: String,
    pub port: u16,
}

impl ProxyAddress {
    /// The address of a proxy.
    pub fn new(host: String, port: u16) -> (a: ProxyAddress)
        ensures
            a == (ProxyAddress { host, port }),
    {
        ProxyAddress { host, port }
    }

    /// The host of the proxy.
    pub fn host(&self) -> (h: &str)
        ensures
            h@ == self.host@,
    {
        self.host.as_str()
    }
}

/// Which proxy a sandbox uses: one with an address, or one that is started for
/// tests.
#[derive(Debug)]
pub struct ProxyConfig {
    pub address: Option<ProxyAddress>,
    pub builtin_test_server: bool,
}

impl ProxyConfig {
    /// There is an address, or the server for tests is to be run.
    pub open spec fn spec_enabled(&self) -> bool {
        self.address is Some || self.builtin_test_server
    }

    /// Whether there is a proxy at all.
    pub fn is_enabled(&self) -> (r: bool)
        ensures
            r == self.spec_enabled(),
            r <==> self.address is Some || self.builtin_test_server,
    {
        self.address.is_some() || self.builtin_test_server
    }
}

/// What a script does by default with connections that no list speaks of.
#[derive(Debug, Clone, Copy, PartialEq, Eq, Structural)]
pub enum NetworkPolicy {
    Allow,
    Block,
}

/// What a script asks for of the network.
#[derive(Debug)]
pub struct ContainerPolicy {
    pub default_network_policy: NetworkPolicy,
    pub allowed_hosts: Vec<String>,
    pub blocked_hosts: Vec<String>,
    pub network_proxy: ProxyConfig,
}

/// Nothing is reachable unless a script asks for it.
impl Default for ContainerPolicy {
    fn default() -> (p: ContainerPolicy)
        ensures
            p.default_network_policy == NetworkPolicy::Block,
            p.allowed_hosts@.len() == 0,
            p.blocked_hosts@.len() == 0,
            !p.network_proxy.spec_enabled(),
    {
        ContainerPolicy {
            default_network_policy: NetworkPolicy::Block,
            allowed_hosts: Vec::new(),
            blocked_hosts: Vec::new(),
            network_proxy: ProxyConfig { address: None, builtin_test_server: false },
        }
    }
}

/// A script to be run.
#[derive(Debug)]
pub struct ExecutionRequest {
    pub policy: ContainerPolicy,
}

impl Default for ExecutionRequest {
    fn default() -> (r: ExecutionRequest)
        ensures
            r.policy.default_network_policy == NetworkPolicy::Block,
            r.policy.allowed_hosts@.len() == 0,
            r.policy.blocked_hosts@.len() == 0,
            !r.policy.network_proxy.spec_enabled(),
    {
        ExecutionRequest { policy: ContainerPolicy::default() }
    }
}

/// What a script is answered with that cannot be run.
#[derive(Debug)]
pub struct ScriptResponse {
    pub error_message: String,
}

impl ScriptResponse {
    /// The answer with this message.
    pub fn error(message: &str) -> (r: ScriptResponse)
        ensures
            r.error_message@ == message@,
    {
        ScriptResponse { error_message: message.to_owned() }
    }
}

} // verus!
