//! Startup validation: in offline mode every configured endpoint must name
//! a local host.
use vstd::prelude::*;
use crate::config::AppConfig;
use crate::text;

verus! {

/// The host named by an endpoint URL: the text after the first `//`, up to
/// the next `/` and then up to the first `:`. There is none when the URL
/// has no `//`.
pub open spec fn endpoint_host_part(endpoint: Seq<char>) -> Option<Seq<char>> {
    match text::second_piece(endpoint, "//"@) {
        Some(after) => Some(text::first_piece(text::first_piece(after, seq!['/']), seq![':'])),
        None => None,
    }
}

/// The host as the doctor and the tool adapters read it: empty when the
/// URL names none.
pub open spec fn host_or_empty(endpoint: Seq<char>) -> Seq<char> {
    match endpoint_host_part(endpoint) {
        Some(h) => h,
        None => Seq::empty(),
    }
}

/// The names that are always local.
pub open spec fn is_builtin_local(host: Seq<char>) -> bool {
    host == "localhost"@ || host == "127.0.0.1"@ || host == "::1"@
}

/// A host is local when it is one of the loopback names or is allowed
/// explicitly.
pub open spec fn is_local(host: Seq<char>, allowed: Seq<Seq<char>>) -> bool {
    is_builtin_local(host) || allowed.contains(host)
}

pub open spec fn invalid_endpoint_message(endpoint: Seq<char>) -> Seq<char> {
    "invalid endpoint URL: "@ + endpoint
}

pub open spec fn non_local_endpoint_message(endpoint: Seq<char>, host: Seq<char>) -> Seq<char> {
    "offline mode forbids non-local endpoint: "@ + endpoint + " (host="@ + host + ")"@
}

/// The host of an endpoint, or the error message when the URL names none.
pub open spec fn endpoint_host_result(endpoint: Seq<char>) -> Result<Seq<char>, Seq<char>> {
    match endpoint_host_part(endpoint) {
        Some(h) => if h.len() > 0 { Ok(h) } else { Err(invalid_endpoint_message(endpoint)) },
        None => Err(invalid_endpoint_message(endpoint)),
    }
}

/// What is wrong with one endpoint in offline mode, if anything.
pub open spec fn endpoint_problem(endpoint: Seq<char>, allowed: Seq<Seq<char>>) -> Option<Seq<char>> {
    match endpoint_host_result(endpoint) {
        Ok(h) => if is_local(h, allowed) { None } else { Some(non_local_endpoint_message(endpoint, h)) },
        Err(m) => Some(m),
    }
}

/// The problem with the first endpoint that has one.
pub open spec fn first_endpoint_problem(endpoints: Seq<Seq<char>>, allowed: Seq<Seq<char>>) -> Option<Seq<char>>
    decreases endpoints.len(),
{
    if endpoints.len() == 0 {
        None
    } else {
        match endpoint_problem(endpoints[0], allowed) {
            Some(m) => Some(m),
            None => first_endpoint_problem(endpoints.drop_first(), allowed),
        }
    }
}

/// What startup validation answers: with the network on, everything is
/// accepted; offline, the first endpoint that is invalid or not local is
/// refused.
pub open spec fn startup_verdict(cfg: crate::config::AppConfigView) -> Option<Seq<char>> {
    if cfg.network_enabled {
        None
    } else {
        first_endpoint_problem(cfg.endpoints, cfg.allowed_hosts)
    }
}

/// Whether two strings are equal.
pub fn str_equal(a: &str, b: &str) -> (r: bool)
    ensures
        r == (a@ == b@),
{
    let x = String::from_str(a);
    let y = String::from_str(b);
    x == y
}

/// The host part of `endpoint` (see [`endpoint_host_part`]).
pub fn host_part(endpoint: &str) -> (r: Option<String>)
    ensures
        r matches Some(h) ==> endpoint_host_part(endpoint@) == Some(h@),
        r is None ==> endpoint_host_part(endpoint@) is None,
{
    let cs = text::chars_of(endpoint);
    let n = cs.len();
    let sep = text::chars_of("//");
    proof {
        reveal_strlit("//");
    }
    assert(cs@.subrange(0, n as int) =~= cs@);
    match text::find_from_exec(cs.as_slice(), sep.as_slice(), 0) {
        Some(i) => {
            proof {
                text::lemma_find_from_bounds(cs@, "//"@, 0);
            }
            let start = i + 2;
            let tail = &cs[start..n];
            let next = text::find_from_exec(tail, sep.as_slice(), 0);
            proof {
                text::lemma_find_from_bounds(tail@, "//"@, 0);
            }
            let end0 = match next {
                Some(k) => start + k,
                None => n,
            };
            let slash = text::find_char_in(cs.as_slice(), '/', start, end0);
            let end1 = match slash {
                Some(j) => j,
                None => end0,
            };
            let colon = text::find_char_in(cs.as_slice(), ':', start, end1);
            let end2 = match colon {
                Some(j) => j,
                None => end1,
            };
            proof {
                text::lemma_find_from_bounds(tail@, "//"@, 0);
                let after = cs@.skip(i + 2);
                assert(after =~= tail@);
                let second = text::first_piece(after, "//"@);
                assert(second =~= cs@.subrange(start as int, end0 as int)) by {
                    if next is Some {
                        assert(after.take(end0 - start) =~= cs@.subrange(start as int, end0 as int));
                    }
                }
                let a = text::first_piece(second, seq!['/']);
                assert(a =~= cs@.subrange(start as int, end1 as int)) by {
                    if slash is Some {
                        assert(second.take(end1 - start) =~= cs@.subrange(start as int, end1 as int));
                    }
                }
                if colon is Some {
                    assert(a.take(end2 - start) =~= cs@.subrange(start as int, end2 as int));
                }
                assert(text::first_piece(a, seq![':']) == cs@.subrange(start as int, end2 as int));
                assert("//"@.len() == 2);
                assert(text::second_piece(cs@, "//"@) == Some(second));
            }
            Some(text::string_of_range(endpoint, cs.as_slice(), start, end2))
        },
        None => None,
    }
}

/// The host named by `endpoint`, or a message saying the URL is invalid.
pub fn endpoint_host(endpoint: &str) -> (r: Result<String, String>)
    ensures
        match r {
            Ok(h) => endpoint_host_result(endpoint@) == Ok::<Seq<char>, Seq<char>>(h@),
            Err(m) => endpoint_host_result(endpoint@) == Err::<Seq<char>, Seq<char>>(m@),
        },
{
    match host_part(endpoint) {
        Some(h) => {
            if h.as_str().unicode_len() > 0 {
                return Ok(h);
            }
        },
        None => {},
    }
    let mut m = String::from_str("invalid endpoint URL: ");
    m.append(endpoint);
    proof {
        reveal_strlit("invalid endpoint URL: ");
    }
    Err(m)
}

/// Whether `host` is local: a loopback name or one of `allowed_hosts`.
pub fn is_local_host(host: &str, allowed_hosts: &[String]) -> (b: bool)
    ensures
        b == is_local(host@, allowed_hosts@.map_values(|h: String| h@)),
{
    proof {
        reveal_strlit("localhost");
        reveal_strlit("127.0.0.1");
        reveal_strlit("::1");
    }
    if str_equal(host, "localhost") || str_equal(host, "127.0.0.1") || str_equal(host, "::1") {
        return true;
    }
    let ghost allowed = allowed_hosts@.map_values(|h: String| h@);
    let mut i: usize = 0;
    while i < allowed_hosts.len()
        invariant
            i <= allowed_hosts@.len(),
            allowed == allowed_hosts@.map_values(|h: String| h@),
            forall|j: int| 0 <= j < i ==> allowed[j] != host@,
        decreases allowed_hosts@.len() - i,
    {
        if str_equal(allowed_hosts[i].as_str(), host) {
            assert(allowed[i as int] == host@);
            return true;
        }
        i = i + 1;
    }
    assert(!allowed.contains(host@));
    false
}

/// Checks the configuration at startup: offline, every endpoint must name a
/// local host.
pub fn validate_startup(cfg: &AppConfig) -> (r: Result<(), String>)
    ensures
        match r {
            Ok(()) => startup_verdict(cfg@) is None,
            Err(m) => startup_verdict(cfg@) == Some(m@),
        },
{
    if cfg.network_enabled {
        return Ok(());
    }
    let ghost endpoints = cfg@.endpoints;
    let ghost allowed = cfg@.allowed_hosts;
    assert(cfg.allowed_hosts@.map_values(|h: String| h@) =~= allowed);
    let mut i: usize = 0;
    assert(endpoints.skip(0) =~= endpoints);
    while i < cfg.endpoints.len()
        invariant
            endpoints == cfg@.endpoints,
            allowed == cfg@.allowed_hosts,
            cfg.allowed_hosts@.map_values(|h: String| h@) == allowed,
            !cfg.network_enabled,
            i <= endpoints.len(),
            first_endpoint_problem(endpoints, allowed) == first_endpoint_problem(endpoints.skip(i as int), allowed),
        decreases endpoints.len() - i,
    {
        let endpoint = cfg.endpoints[i].as_str();
        assert(endpoints.skip(i as int)[0] == endpoint@);
        assert(endpoints.skip(i as int).drop_first() =~= endpoints.skip(i + 1));
        let host = match endpoint_host(endpoint) {
            Ok(h) => h,
            Err(m) => {
                return Err(m);
            },
        };
        if !is_local_host(host.as_str(), cfg.allowed_hosts.as_slice()) {
            let mut m = String::from_str("offline mode forbids non-local endpoint: ");
            m.append(endpoint);
            m.append(" (host=");
            m.append(host.as_str());
            m.append(")");
            proof {
                reveal_strlit("offline mode forbids non-local endpoint: ");
                reveal_strlit(" (host=");
                reveal_strlit(")");
            }
            return Err(m);
        }
        i = i + 1;
    }
    Ok(())
}


/// The loopback names are local whatever hosts are allowed.
pub proof fn lemma_loopback_is_local(allowed: Seq<Seq<char>>)
    ensures
        is_local("localhost"@, allowed),
        is_local("127.0.0.1"@, allowed),
        is_local("::1"@, allowed),
{
}

/// Allowing more hosts never makes a local host non-local.
pub proof fn lemma_more_allowed_hosts_keep_local(host: Seq<char>, allowed: Seq<Seq<char>>, more: Seq<Seq<char>>)
    requires
        is_local(host, allowed),
    ensures
        is_local(host, allowed + more),
{
    if allowed.contains(host) {
        let i = choose|i: int| 0 <= i < allowed.len() && allowed[i] == host;
        assert((allowed + more)[i] == host);
    }
}

/// With the network on, startup validation accepts every configuration.
pub proof fn lemma_online_accepts_everything(cfg: crate::config::AppConfigView)
    requires
        cfg.network_enabled,
    ensures
        startup_verdict(cfg) is None,
{
}

/// Offline, startup validation accepts a configuration exactly when every
/// endpoint names a host that is local.
pub proof fn lemma_offline_verdict(endpoints: Seq<Seq<char>>, allowed: Seq<Seq<char>>)
    ensures
        first_endpoint_problem(endpoints, allowed) is None <==> forall|i: int|
            0 <= i < endpoints.len() ==> endpoint_problem(#[trigger] endpoints[i], allowed) is None,
    decreases endpoints.len(),
{
    if endpoints.len() > 0 {
        lemma_offline_verdict(endpoints.drop_first(), allowed);
        assert forall|i: int| 0 < i < endpoints.len() implies endpoints[i] == endpoints.drop_first()[i - 1] by {}
        if first_endpoint_problem(endpoints, allowed) is None {
            assert forall|i: int| 0 <= i < endpoints.len() implies endpoint_problem(
                #[trigger] endpoints[i],
                allowed,
            ) is None by {
                if i > 0 {
                    assert(endpoints[i] == endpoints.drop_first()[i - 1]);
                }
            }
        } else {
            if endpoint_problem(endpoints[0], allowed) is None {
                let j = choose|j: int|
                    0 <= j < endpoints.drop_first().len() && !(endpoint_problem(
                        #[trigger] endpoints.drop_first()[j],
                        allowed,
                    ) is None);
                assert(endpoints[j + 1] == endpoints.drop_first()[j]);
            }
        }
    }
}

} // verus!
