use vstd::prelude::*;
use crate::path::{has_prefix, starts_with};

verus! {

/// Which handler stack a request goes to.
#[derive(Debug, Clone, Copy, PartialEq, Eq, Structural)]
pub enum Stack {
    /// The RPC services.
    Rpc,
    /// File serving, the default.
    Http,
}

/// The content type that marks an RPC request.
pub open spec fn rpc_content_type() -> Seq<char> {
    seq!['a', 'p', 'p', 'l', 'i', 'c', 'a', 't', 'i', 'o', 'n', '/', 'g', 'r', 'p', 'c']
}

/// Picks the stack for a request from its `Content-Type` header alone, before
/// any of its body is read: RPC content types go to the RPC stack, anything
/// else (or no header) to file serving.
pub fn select_stack(content_type: Option<&str>) -> (r: Stack)
    ensures
        r == (if content_type matches Some(ct) && starts_with(ct@, rpc_content_type()) {
            Stack::Rpc
        } else {
            Stack::Http
        }),
{
    proof {
        reveal_strlit("application/grpc");
    }
    assert("application/grpc"@ =~= rpc_content_type());
    match content_type {
        Some(ct) => {
            if has_prefix(ct, "application/grpc") {
                Stack::Rpc
            } else {
                Stack::Http
            }
        },
        None => Stack::Http,
    }
}

} // verus!
