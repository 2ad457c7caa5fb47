use vstd::prelude::*;

use crate::config::SecurityConfig;
use crate::security::spec_should_record;
use crate::text::{str_eq, str_has_prefix};

verus! {

/// The class a request path falls into, used to filter what is logged:
/// asset, health-check and favicon traffic is low-signal noise, everything
/// else is a real request.
pub open spec fn spec_action_type(path: Seq<char>) -> Seq<char> {
    if "/assets/"@.is_prefix_of(path) || "/admin/assets"@.is_prefix_of(path) {
        "asset"@
    } else if path == "/health"@ {
        "health"@
    } else if path == "/favicon.ico"@ {
        "favicon"@
    } else {
        "request"@
    }
}

/// Classifies a request path for logging purposes.
pub fn determine_action_type(path: &str) -> (r: String)
    ensures
        r@ == spec_action_type(path@),
{
    if str_has_prefix(path, "/assets/") || str_has_prefix(path, "/admin/assets") {
        String::from_str("asset")
    } else if str_eq(path, "/health") {
        String::from_str("health")
    } else if str_eq(path, "/favicon.ico") {
        String::from_str("favicon")
    } else {
        String::from_str("request")
    }
}

/// Whether a completed request is written to the audit trail: never for
/// low-signal classes (assets, health checks, favicons), and otherwise
/// exactly when the policy records the outcome — failures always, successes
/// unless suppressed, nothing while logging is off.
pub open spec fn spec_should_log(action: Seq<char>, success: bool, cfg: SecurityConfig) -> bool {
    &&& action != "health"@
    &&& action != "favicon"@
    &&& action != "asset"@
    &&& spec_should_record(cfg, success)
}

/// Decides what, if anything, is written to the audit trail for one
/// completed request: nothing for suppressed outcomes and low-signal paths;
/// otherwise the resource key `method:path` and the action — the method,
/// prefixed `admin:` when the request was admin-authenticated.
pub fn plan_access_log(
    path: &str,
    method: &str,
    is_admin: bool,
    success: bool,
    config: &SecurityConfig,
) -> (r: Option<(String, String)>)
    ensures
        r is Some <==> spec_should_log(spec_action_type(path@), success, *config),
        r matches Some(entry) ==> ({
            &&& entry.0@ == method@ + ":"@ + path@
            &&& entry.1@ == if is_admin {
                "admin:"@ + method@
            } else {
                method@
            }
        }),
{
    let action_type = determine_action_type(path);
    if should_log(action_type.as_str(), success, config) {
        let key = String::from_str(method).concat(":").concat(path);
        let action = if is_admin {
            String::from_str("admin:").concat(method)
        } else {
            String::from_str(method)
        };
        Some((key, action))
    } else {
        None
    }
}

/// Decides whether one completed request is logged, from its action class,
/// its outcome, and the policy.
pub fn should_log(action: &str, success: bool, config: &SecurityConfig) -> (r: bool)
    ensures
        r == spec_should_log(action@, success, *config),
{
    if str_eq(action, "health") || str_eq(action, "favicon") || str_eq(action, "asset") {
        return false;
    }
    if !config.enable_logging {
        return false;
    }
    if success && !config.log_successful_attempts {
        return false;
    }
    true
}

} // verus!
