//! A call of the batchexecute endpoint, as the API operations build it.

use vstd::prelude::*;
use crate::json::{JsonValue, SJson};
use crate::rpc::RpcMethod;
use crate::text::{chars_of, push_str, string_of};

verus! {

/// One RPC call: the method, its parameters, the page it is made from, and
/// whether an empty (`null`) result is acceptable.
pub struct RpcCall {
    pub method: RpcMethod,
    pub params: JsonValue,
    pub source_path: String,
    pub allow_null: bool,
}

/// The view of a call.
pub struct SRpcCall {
    pub method: RpcMethod,
    pub params: SJson,
    pub source_path: Seq<char>,
    pub allow_null: bool,
}

pub open spec fn call_view(c: RpcCall) -> SRpcCall {
    SRpcCall {
        method: c.method,
        params: c.params@,
        source_path: c.source_path@,
        allow_null: c.allow_null,
    }
}

/// The page of a notebook: `/notebook/{id}`.
pub open spec fn notebook_path(notebook_id: Seq<char>) -> Seq<char> {
    "/notebook/"@ + notebook_id
}

pub fn notebook_path_exec(notebook_id: &str) -> (r: String)
    ensures
        r@ == notebook_path(notebook_id@),
{
    let mut p = chars_of("/notebook/");
    push_str(&mut p, notebook_id);
    string_of(p.as_slice())
}

/// The home page, `/`.
pub fn home_path() -> (r: String)
    ensures
        r@ == "/"@,
{
    string_of(chars_of("/").as_slice())
}

/// A call made from a notebook's page.
pub fn notebook_call(method: RpcMethod, params: JsonValue, notebook_id: &str, allow_null: bool) -> (r: RpcCall)
    ensures
        call_view(r) == (SRpcCall {
            method,
            params: params@,
            source_path: notebook_path(notebook_id@),
            allow_null,
        }),
{
    RpcCall { method, params, source_path: notebook_path_exec(notebook_id), allow_null }
}

/// A call made from the home page.
pub fn home_call(method: RpcMethod, params: JsonValue, allow_null: bool) -> (r: RpcCall)
    ensures
        call_view(r) == (SRpcCall { method, params: params@, source_path: "/"@, allow_null }),
{
    RpcCall { method, params, source_path: home_path(), allow_null }
}

} // verus!
