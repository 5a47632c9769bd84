//! Routing of gateway requests: `/function/{id}/...` is forwarded to the
//! function's trigger port on the local host, with the prefix removed.

use vstd::prelude::*;
use vstd::string::StringExecFns;

use crate::cpu_list::chars_of;
use crate::registry::FunctionRegistry;
use crate::text::{decimal, decimal_string};
use crate::types::{valid_function_id, FunctionId};

verus! {

/// The path a request is forwarded with: the request's path and query with
/// the prefix `/function/<id>` removed (`/` when nothing is left), or
/// unchanged when it does not start with that prefix.
pub open spec fn downstream_spec(path_and_query: Seq<char>, function_id: Seq<char>) -> Seq<char> {
    let prefix = "/function/"@ + function_id;
    if prefix.len() <= path_and_query.len() && path_and_query.take(prefix.len() as int) == prefix {
        let rest = path_and_query.skip(prefix.len() as int);
        if rest.len() == 0 {
            "/"@
        } else {
            rest
        }
    } else {
        path_and_query
    }
}

/// The path a request for `function_id` is forwarded with.
pub fn downstream_path(path_and_query: &str, function_id: &str) -> (r: String)
    ensures
        r@ == downstream_spec(path_and_query@, function_id@),
{
    let mut prefix = "/function/".to_string();
    proof {
        reveal_strlit("/function/");
    }
    prefix.append(function_id);
    let p = chars_of(prefix.as_str());
    let s = chars_of(path_and_query);
    if p.len() > s.len() {
        return path_and_query.to_string();
    }
    let mut i: usize = 0;
    while i < p.len()
        invariant
            i <= p@.len() <= s@.len(),
            p@ == "/function/"@ + function_id@,
            s@ == path_and_query@,
            forall|j: int| 0 <= j < i ==> s@[j] == p@[j],
        decreases p@.len() - i,
    {
        if s[i] != p[i] {
            proof {
                assert(s@.take(p@.len() as int)[i as int] != p@[i as int]);
                assert(s@.take(p@.len() as int) != p@);
            }
            return path_and_query.to_string();
        }
        i = i + 1;
    }
    proof {
        assert(s@.take(p@.len() as int) =~= p@);
    }
    if p.len() == s.len() {
        proof {
            reveal_strlit("/");
            assert(s@.skip(p@.len() as int) =~= Seq::<char>::empty());
        }
        return "/".to_string();
    }
    let mut rest: Vec<char> = Vec::new();
    let mut k: usize = p.len();
    while k < s.len()
        invariant
            p@.len() <= k <= s@.len(),
            rest@ == s@.subrange(p@.len() as int, k as int),
        decreases s@.len() - k,
    {
        rest.push(s[k]);
        proof {
            assert(rest@ =~= s@.subrange(p@.len() as int, k + 1));
        }
        k = k + 1;
    }
    proof {
        assert(rest@ =~= s@.skip(p@.len() as int));
    }
    crate::text::string_of_chars(&rest)
}

/// The URL a request is forwarded to: the function's trigger port on the
/// local host, with the downstream path.
pub open spec fn downstream_url_spec(port: u16, path: Seq<char>) -> Seq<char> {
    "http://127.0.0.1:"@ + decimal(port as nat) + path
}

/// The URL for `path` on local `port`.
pub fn downstream_url(port: u16, path: &str) -> (r: String)
    ensures
        r@ == downstream_url_spec(port, path@),
{
    let mut url = "http://127.0.0.1:".to_string();
    let p = decimal_string(port as u64);
    url.append(p.as_str());
    url.append(path);
    url
}

/// Why the gateway refuses to forward a request.
#[derive(Debug, Clone, Copy, PartialEq, Eq, Structural)]
pub enum RouteRefusal {
    /// The function identifier in the path is not a valid identifier.
    BadRequest,
    /// No function with that identifier is registered.
    NotFound,
}

impl RouteRefusal {
    /// The HTTP status the gateway answers with.
    pub fn status(&self) -> (r: u16)
        ensures
            r == (match self {
                RouteRefusal::BadRequest => 400u16,
                RouteRefusal::NotFound => 404u16,
            }),
    {
        match self {
            RouteRefusal::BadRequest => 400,
            RouteRefusal::NotFound => 404,
        }
    }
}

/// Where a request for `function_id` with `path_and_query` goes: refused as
/// a bad request when the identifier is invalid, as not found when no such
/// function is registered, else forwarded to the function's trigger port.
pub fn route_request(registry: &FunctionRegistry, function_id: &str, path_and_query: &str) -> (r: Result<String, RouteRefusal>)
    ensures
        !valid_function_id(function_id@) ==> r == Err::<String, RouteRefusal>(RouteRefusal::BadRequest),
        valid_function_id(function_id@) && !registry@.contains_key(function_id@) ==> r == Err::<String, RouteRefusal>(
            RouteRefusal::NotFound,
        ),
        valid_function_id(function_id@) && registry@.contains_key(function_id@) ==> (r matches Ok(url) && url@
            == downstream_url_spec(
            registry@[function_id@].config@.trigger_port,
            downstream_spec(path_and_query@, function_id@),
        )),
{
    let fid = match FunctionId::new(function_id) {
        Ok(f) => f,
        Err(_) => {
            return Err(RouteRefusal::BadRequest);
        },
    };
    let config = match registry.get_config(&fid) {
        Ok(c) => c,
        Err(_) => {
            return Err(RouteRefusal::NotFound);
        },
    };
    let path = downstream_path(path_and_query, function_id);
    Ok(downstream_url(config.trigger_port.value(), path.as_str()))
}

/// Whether a request header is passed on downstream: all but `host`.
pub fn forwards_header(name: &str) -> (r: bool)
    ensures
        r == (name@ != "host"@),
{
    let host = "host".to_string();
    let n = name.to_string();
    !(n == host)
}

} // verus!
