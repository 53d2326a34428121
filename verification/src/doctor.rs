//! The `doctor` check: is this installation ready to run offline?
use vstd::prelude::*;
use crate::config::{AppConfig, AppConfigView};
use crate::runtime::validator;

verus! {

pub open spec fn no_model_files_message() -> Seq<char> {
    "doctor failed: no model files configured"@
}

pub open spec fn missing_model_file_message(path: Seq<char>) -> Seq<char> {
    "doctor failed: model file does not exist: "@ + path
}

pub open spec fn remote_keys_message() -> Seq<char> {
    "doctor failed: remote API keys are required"@
}

pub open spec fn non_local_endpoint_message(endpoint: Seq<char>) -> Seq<char> {
    "doctor failed: endpoint is non-local: "@ + endpoint
}

/// The position of the first model file that is not present.
pub open spec fn first_missing(present: Seq<bool>, from: int) -> Option<int>
    decreases present.len() - from,
{
    if from < 0 || from >= present.len() {
        None
    } else if !present[from] {
        Some(from)
    } else {
        first_missing(present, from + 1)
    }
}

/// The first endpoint whose host (empty when the URL names none) is not
/// local.
pub open spec fn first_non_local(endpoints: Seq<Seq<char>>, allowed: Seq<Seq<char>>, from: int) -> Option<Seq<char>>
    decreases endpoints.len() - from,
{
    if from < 0 || from >= endpoints.len() {
        None
    } else if !validator::is_local(validator::host_or_empty(endpoints[from]), allowed) {
        Some(endpoints[from])
    } else {
        first_non_local(endpoints, allowed, from + 1)
    }
}

/// What the doctor answers when `present[i]` tells whether the `i`-th model
/// file exists: model files must be configured and present, no remote keys
/// may be required, and every endpoint must be local. The first of these
/// that fails is reported.
pub open spec fn doctor_verdict(cfg: AppConfigView, present: Seq<bool>) -> Option<Seq<char>> {
    if cfg.model_files.len() == 0 {
        Some(no_model_files_message())
    } else {
        match first_missing(present, 0) {
            Some(i) => Some(missing_model_file_message(cfg.model_files[i])),
            None => if cfg.remote_api_keys_required {
                Some(remote_keys_message())
            } else {
                match first_non_local(cfg.endpoints, cfg.allowed_hosts, 0) {
                    Some(e) => Some(non_local_endpoint_message(e)),
                    None => None,
                }
            },
        }
    }
}

/// Checks that this installation can run offline: model files configured
/// and present, no remote keys required, every endpoint local. Whether
/// each model file exists on disk is read by the caller: `present[i]` says
/// whether `cfg.model_files[i]` exists.
pub fn run_doctor(cfg: &AppConfig, present: &[bool]) -> (r: Result<(), String>)
    requires
        present@.len() == cfg@.model_files.len(),
    ensures
        match r {
            Ok(()) => doctor_verdict(cfg@, present@) is None,
            Err(m) => doctor_verdict(cfg@, present@) == Some(m@),
        },
{
    if cfg.model_files.len() == 0 {
        proof {
            reveal_strlit("doctor failed: no model files configured");
        }
        return Err(String::from_str("doctor failed: no model files configured"));
    }
    let mut i: usize = 0;
    while i < present.len()
        invariant
            present@.len() == cfg@.model_files.len(),
            i <= present@.len(),
            first_missing(present@, 0) == first_missing(present@, i as int),
        decreases present@.len() - i,
    {
        if !present[i] {
            let mut m = String::from_str("doctor failed: model file does not exist: ");
            m.append(cfg.model_files[i].as_str());
            proof {
                reveal_strlit("doctor failed: model file does not exist: ");
            }
            return Err(m);
        }
        i = i + 1;
    }
    if cfg.remote_api_keys_required {
        proof {
            reveal_strlit("doctor failed: remote API keys are required");
        }
        return Err(String::from_str("doctor failed: remote API keys are required"));
    }
    let ghost allowed = cfg@.allowed_hosts;
    assert(cfg.allowed_hosts@.map_values(|h: String| h@) =~= allowed);
    let mut j: usize = 0;
    while j < cfg.endpoints.len()
        invariant
            present@.len() == cfg@.model_files.len(),
            cfg@.model_files.len() > 0,
            first_missing(present@, 0) is None,
            !cfg@.remote_api_keys_required,
            allowed == cfg@.allowed_hosts,
            cfg.allowed_hosts@.map_values(|h: String| h@) == allowed,
            j <= cfg@.endpoints.len(),
            first_non_local(cfg@.endpoints, allowed, 0) == first_non_local(cfg@.endpoints, allowed, j as int),
        decreases cfg@.endpoints.len() - j,
    {
        let endpoint = cfg.endpoints[j].as_str();
        let host = match validator::host_part(endpoint) {
            Some(h) => h,
            None => String::new(),
        };
        if !validator::is_local_host(host.as_str(), cfg.allowed_hosts.as_slice()) {
            let mut m = String::from_str("doctor failed: endpoint is non-local: ");
            m.append(endpoint);
            proof {
                reveal_strlit("doctor failed: endpoint is non-local: ");
            }
            return Err(m);
        }
        j = j + 1;
    }
    Ok(())
}

/// `first_non_local` finds nothing exactly when every endpoint from `from`
/// on is local.
pub proof fn lemma_first_non_local_none(endpoints: Seq<Seq<char>>, allowed: Seq<Seq<char>>, from: int)
    requires
        0 <= from,
    ensures
        first_non_local(endpoints, allowed, from) is None <==> forall|i: int|
            from <= i < endpoints.len() ==> validator::is_local(
                validator::host_or_empty(#[trigger] endpoints[i]),
                allowed,
            ),
    decreases endpoints.len() - from,
{
    if from < endpoints.len() {
        lemma_first_non_local_none(endpoints, allowed, from + 1);
    }
}

/// An installation that passes the doctor also passes startup validation,
/// provided no allowed host is the empty name (an empty allowed name lets
/// the doctor accept an endpoint URL without a host, which startup
/// validation refuses as invalid).
pub proof fn lemma_doctor_pass_implies_startup_pass(cfg: AppConfigView, present: Seq<bool>)
    requires
        doctor_verdict(cfg, present) is None,
        forall|i: int| 0 <= i < cfg.allowed_hosts.len() ==> #[trigger] cfg.allowed_hosts[i].len() > 0,
    ensures
        validator::startup_verdict(cfg) is None,
{
    if !cfg.network_enabled {
        lemma_first_non_local_none(cfg.endpoints, cfg.allowed_hosts, 0);
        validator::lemma_offline_verdict(cfg.endpoints, cfg.allowed_hosts);
        assert forall|i: int| 0 <= i < cfg.endpoints.len() implies validator::endpoint_problem(
            #[trigger] cfg.endpoints[i],
            cfg.allowed_hosts,
        ) is None by {
            let e = cfg.endpoints[i];
            let h = validator::host_or_empty(e);
            assert(validator::is_local(h, cfg.allowed_hosts));
            if h.len() == 0 {
                assert(!validator::is_builtin_local(h)) by {
                    reveal_strlit("localhost");
                    reveal_strlit("127.0.0.1");
                    reveal_strlit("::1");
                }
                if cfg.allowed_hosts.contains(h) {
                    let k = choose|k: int| 0 <= k < cfg.allowed_hosts.len() && cfg.allowed_hosts[k] == h;
                    assert(cfg.allowed_hosts[k].len() > 0);
                }
            }
        }
    }
}


proof fn lemma_first_missing_none(present: Seq<bool>, from: int)
    requires
        0 <= from,
    ensures
        first_missing(present, from) is None <==> forall|i: int| from <= i < present.len() ==> #[trigger] present[i],
        first_missing(present, from) matches Some(i) ==> from <= i < present.len() && !present[i],
    decreases present.len() - from,
{
    if from < present.len() {
        lemma_first_missing_none(present, from + 1);
    }
}

/// The doctor passes exactly when model files are configured, every one of
/// them is present, no remote keys are required, and every endpoint names a
/// local host (a URL without a host counting as the empty name). When it
/// fails, a missing file is named as one of those configured and absent.
pub proof fn lemma_doctor_passes_exactly_when_ready(cfg: AppConfigView, present: Seq<bool>)
    requires
        present.len() == cfg.model_files.len(),
    ensures
        doctor_verdict(cfg, present) is None <==> {
            &&& cfg.model_files.len() > 0
            &&& forall|i: int| 0 <= i < present.len() ==> #[trigger] present[i]
            &&& !cfg.remote_api_keys_required
            &&& forall|i: int|
                0 <= i < cfg.endpoints.len() ==> validator::is_local(
                    validator::host_or_empty(#[trigger] cfg.endpoints[i]),
                    cfg.allowed_hosts,
                )
        },
        cfg.model_files.len() > 0 && (exists|i: int| 0 <= i < present.len() && !present[i]) ==> exists|i: int|
            0 <= i < present.len() && !present[i] && doctor_verdict(cfg, present) == Some(
                missing_model_file_message(cfg.model_files[i]),
            ),
{
    lemma_first_missing_none(present, 0);
    lemma_first_non_local_none(cfg.endpoints, cfg.allowed_hosts, 0);
    if cfg.model_files.len() > 0 && (exists|i: int| 0 <= i < present.len() && !present[i]) {
        let i = first_missing(present, 0)->0;
        assert(0 <= i < present.len() && !present[i]);
    }
}

} // verus!
