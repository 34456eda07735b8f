//! Request authentication and tenant scoping for the RPC surface: the
//! metadata signature check and the scope rules, over plain strings.

use vstd::prelude::*;
use vstd::string::StringExecFns;

use crate::outside::{ct_bytes_eq, sha256, sha256_of};
use crate::strutil::{hex_bytes, hex_of_bytes, str_eq};

verus! {

/// The authenticated identity of one request.
#[derive(Debug)]
pub struct RequestContext {
    pub tenant_id: String,
    pub principal_id: String,
    pub trace_id: Option<String>,
}

/// Why a request was refused at the door.
#[derive(Debug)]
pub enum AuthError {
    /// A required metadata entry is missing or empty.
    MissingMetadata,
    /// The carried signature does not match the principal and tenant.
    InvalidSignature,
}

/// The expected metadata signature: lower-case hex SHA-256 of
/// `<principal>:<tenant>`.
pub open spec fn spec_signature_of(principal: Seq<char>, tenant: Seq<char>) -> Seq<char> {
    hex_bytes(
        sha256_of(
            vstd::utf8::encode_utf8(principal) + vstd::utf8::encode_utf8(":"@)
                + vstd::utf8::encode_utf8(tenant),
        ),
    )
}

/// The metadata signature a caller must present for a principal within a
/// tenant.
pub fn compute_signature(principal_id: &str, tenant_id: &str) -> (r: String)
    ensures
        r@ == spec_signature_of(principal_id@, tenant_id@),
{
    let mut joined = String::from_str(principal_id);
    joined.append(":");
    joined.append(tenant_id);
    proof {
        crate::strutil::lemma_encode_utf8_concat(principal_id@ + ":"@, tenant_id@);
        crate::strutil::lemma_encode_utf8_concat(principal_id@, ":"@);
        assert(joined@ =~= (principal_id@ + ":"@) + tenant_id@);
    }
    let digest = sha256(joined.as_str().as_bytes());
    hex_of_bytes(digest.as_slice())
}

/// Authenticates the plain metadata values of one request: all three
/// entries must be present and nonempty, and the signature must match the
/// principal and tenant exactly; a present, nonempty trace id is carried
/// through.
pub fn extract_context(
    tenant_id: Option<String>,
    principal_id: Option<String>,
    signature: Option<String>,
    trace_id: Option<String>,
) -> (r: Result<RequestContext, AuthError>)
    ensures
        match r {
            Ok(ctx) => {
                &&& tenant_id matches Some(t) && t@ == ctx.tenant_id@ && t@.len() > 0
                &&& principal_id matches Some(p) && p@ == ctx.principal_id@ && p@.len() > 0
                &&& signature matches Some(s) && s@ == spec_signature_of(
                    ctx.principal_id@,
                    ctx.tenant_id@,
                )
                &&& crate::timer::opt_str_view(ctx.trace_id) == (match trace_id {
                    Some(tr) => if tr@.len() > 0 {
                        Some(tr@)
                    } else {
                        None
                    },
                    None => None,
                })
            },
            Err(AuthError::MissingMetadata) => {
                ||| !(tenant_id matches Some(t) && t@.len() > 0)
                ||| !(principal_id matches Some(p) && p@.len() > 0)
                ||| !(signature matches Some(s) && s@.len() > 0)
            },
            Err(AuthError::InvalidSignature) => {
                &&& tenant_id matches Some(t) && t@.len() > 0
                &&& principal_id matches Some(p) && p@.len() > 0
                &&& signature matches Some(s) && s@.len() > 0 && s@ != spec_signature_of(
                    principal_id->0@,
                    tenant_id->0@,
                )
            },
        },
{
    let tenant = match tenant_id {
        Some(t) => {
            if t.as_str().is_empty() {
                return Err(AuthError::MissingMetadata);
            }
            t
        },
        None => {
            return Err(AuthError::MissingMetadata);
        },
    };
    let principal = match principal_id {
        Some(p) => {
            if p.as_str().is_empty() {
                return Err(AuthError::MissingMetadata);
            }
            p
        },
        None => {
            return Err(AuthError::MissingMetadata);
        },
    };
    let sig = match signature {
        Some(s) => {
            if s.as_str().is_empty() {
                return Err(AuthError::MissingMetadata);
            }
            s
        },
        None => {
            return Err(AuthError::MissingMetadata);
        },
    };

    let expected = compute_signature(principal.as_str(), tenant.as_str());
    proof {
        vstd::utf8::encode_utf8_decode_utf8(sig@);
        vstd::utf8::encode_utf8_decode_utf8(expected@);
    }
    if !ct_bytes_eq(sig.as_str().as_bytes(), expected.as_str().as_bytes()) {
        return Err(AuthError::InvalidSignature);
    }

    let trace = match trace_id {
        Some(tr) => {
            if tr.as_str().is_empty() {
                None
            } else {
                Some(tr)
            }
        },
        None => None,
    };
    Ok(RequestContext { tenant_id: tenant, principal_id: principal, trace_id: trace })
}

/// Resolves the tenant a request may act on: an empty or matching requested
/// tenant resolves to the authenticated one; any other request is refused,
/// so a caller can neither read nor probe another tenant's scope.
pub fn enforce_tenant_scope(requested: &str, context: &RequestContext) -> (r: Option<String>)
    ensures
        match r {
            Some(t) => t@ == context.tenant_id@ && (requested@.len() == 0 || requested@
                == context.tenant_id@),
            None => requested@.len() > 0 && requested@ != context.tenant_id@,
        },
{
    if requested.is_empty() || str_eq(requested, context.tenant_id.as_str()) {
        Some(context.tenant_id.clone())
    } else {
        None
    }
}

/// Resolves the tenant scope of an event stream: as `enforce_tenant_scope`,
/// except that the all-tenants scope is granted exactly to callers
/// authenticated for it.
pub fn enforce_stream_scope(requested: &str, context: &RequestContext) -> (r: Option<String>)
    ensures
        match r {
            Some(t) => {
                ||| (t@ == context.tenant_id@ && (requested@.len() == 0 || requested@
                    == context.tenant_id@))
                ||| (t@ == "__all__"@ && requested@ == "__all__"@ && context.tenant_id@
                    == "__all__"@)
            },
            None => {
                &&& requested@.len() > 0
                &&& requested@ != context.tenant_id@
                &&& !(requested@ == "__all__"@ && context.tenant_id@ == "__all__"@)
            },
        },
{
    if requested.is_empty() || str_eq(requested, context.tenant_id.as_str()) {
        return Some(context.tenant_id.clone());
    }
    if str_eq(requested, "__all__") && str_eq(context.tenant_id.as_str(), "__all__") {
        return Some(String::from_str("__all__"));
    }
    None
}

} // verus!
