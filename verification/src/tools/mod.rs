//! The tool adapters, each guarded by the offline network policy, and the
//! research tools of the agent loop.
pub mod local_search;
pub mod rank;
pub mod scrape;
pub mod summarize;

use vstd::prelude::*;
use crate::runtime::validator;
use crate::telemetry::Telemetry;

verus! {

pub open spec fn blocked_message(endpoint: Seq<char>) -> Seq<char> {
    "blocked external request in offline mode: "@ + endpoint
}

/// The offline policy: with the network on, every request may go out;
/// offline, only requests to a local host may, and each blocked request is
/// counted.
pub open spec fn policy_allows(endpoint: Seq<char>, network_enabled: bool, allowed: Seq<Seq<char>>) -> bool {
    network_enabled || validator::is_local(validator::host_or_empty(endpoint), allowed)
}

/// Applies the offline policy to a request for `endpoint`.
pub fn enforce_offline_policy(
    endpoint: &str,
    network_enabled: bool,
    allowed_hosts: &[String],
    telemetry: &mut Telemetry,
) -> (r: Result<(), String>)
    ensures
        r is Ok <==> policy_allows(endpoint@, network_enabled, allowed_hosts@.map_values(|h: String| h@)),
        r is Ok ==> final(telemetry)@ == old(telemetry)@,
        r matches Err(m) ==> m@ == blocked_message(endpoint@) && final(telemetry)@
            == crate::telemetry::count_one_more(old(telemetry)@),
{
    if network_enabled {
        return Ok(());
    }
    let host = match validator::host_part(endpoint) {
        Some(h) => h,
        None => String::new(),
    };
    if !validator::is_local_host(host.as_str(), allowed_hosts) {
        telemetry.increment_blocked_network_attempts();
        let mut m = String::from_str("blocked external request in offline mode: ");
        m.append(endpoint);
        proof {
            reveal_strlit("blocked external request in offline mode: ");
        }
        return Err(m);
    }
    Ok(())
}

/// A tool that sends requests to an endpoint.
pub trait ToolAdapter {
    fn send(&self, endpoint: &str, telemetry: &mut Telemetry) -> Result<(), String>;
}

/// The web-search tool.
pub struct SearchAdapter {
    pub network_enabled: bool,
    pub allowed_hosts: Vec<String>,
}

/// The page-fetching tool.
pub struct FetchAdapter {
    pub network_enabled: bool,
    pub allowed_hosts: Vec<String>,
}

/// The retrieval tool.
pub struct RagAdapter {
    pub network_enabled: bool,
    pub allowed_hosts: Vec<String>,
}

impl ToolAdapter for SearchAdapter {
    fn send(&self, endpoint: &str, telemetry: &mut Telemetry) -> (r: Result<(), String>)
        ensures
            r is Ok <==> policy_allows(endpoint@, self.network_enabled, self.allowed_hosts.deep_view()),
            r is Ok ==> final(telemetry)@ == old(telemetry)@,
            r matches Err(m) ==> m@ == blocked_message(endpoint@) && final(telemetry)@
                == crate::telemetry::count_one_more(old(telemetry)@),
    {
        assert(self.allowed_hosts@.map_values(|h: String| h@) =~= self.allowed_hosts.deep_view());
        enforce_offline_policy(endpoint, self.network_enabled, self.allowed_hosts.as_slice(), telemetry)
    }
}

impl ToolAdapter for FetchAdapter {
    fn send(&self, endpoint: &str, telemetry: &mut Telemetry) -> (r: Result<(), String>)
        ensures
            r is Ok <==> policy_allows(endpoint@, self.network_enabled, self.allowed_hosts.deep_view()),
            r is Ok ==> final(telemetry)@ == old(telemetry)@,
            r matches Err(m) ==> m@ == blocked_message(endpoint@) && final(telemetry)@
                == crate::telemetry::count_one_more(old(telemetry)@),
    {
        assert(self.allowed_hosts@.map_values(|h: String| h@) =~= self.allowed_hosts.deep_view());
        enforce_offline_policy(endpoint, self.network_enabled, self.allowed_hosts.as_slice(), telemetry)
    }
}

impl ToolAdapter for RagAdapter {
    fn send(&self, endpoint: &str, telemetry: &mut Telemetry) -> (r: Result<(), String>)
        ensures
            r is Ok <==> policy_allows(endpoint@, self.network_enabled, self.allowed_hosts.deep_view()),
            r is Ok ==> final(telemetry)@ == old(telemetry)@,
            r matches Err(m) ==> m@ == blocked_message(endpoint@) && final(telemetry)@
                == crate::telemetry::count_one_more(old(telemetry)@),
    {
        assert(self.allowed_hosts@.map_values(|h: String| h@) =~= self.allowed_hosts.deep_view());
        enforce_offline_policy(endpoint, self.network_enabled, self.allowed_hosts.as_slice(), telemetry)
    }
}


/// A configuration that passes startup validation never has its own
/// endpoints blocked by the offline policy of the tool adapters.
pub proof fn lemma_validated_endpoints_pass_policy(cfg: crate::config::AppConfigView)
    requires
        validator::startup_verdict(cfg) is None,
    ensures
        forall|i: int|
            0 <= i < cfg.endpoints.len() ==> policy_allows(
                #[trigger] cfg.endpoints[i],
                cfg.network_enabled,
                cfg.allowed_hosts,
            ),
{
    if !cfg.network_enabled {
        validator::lemma_offline_verdict(cfg.endpoints, cfg.allowed_hosts);
        assert forall|i: int| 0 <= i < cfg.endpoints.len() implies policy_allows(
            #[trigger] cfg.endpoints[i],
            cfg.network_enabled,
            cfg.allowed_hosts,
        ) by {
            assert(validator::endpoint_problem(cfg.endpoints[i], cfg.allowed_hosts) is None);
        }
    }
}

/// With the network on, nothing is blocked.
pub proof fn lemma_online_allows_everything(endpoint: Seq<char>, allowed: Seq<Seq<char>>)
    ensures
        policy_allows(endpoint, true, allowed),
{
}

} // verus!
