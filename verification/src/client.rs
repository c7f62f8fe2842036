//! What an agent answers when the server pushes a remote call to it.
use vstd::prelude::*;
use crate::api::{Rsp, RspView, RpcFnReq, RpcFnRsp};

verus! {

/// The agent's fixed answer to a call pushed by the server.
pub open spec fn agent_reply_text() -> Seq<char> {
    "this is rsp fn 001 from client"@
}

/// The agent's answer to a remote call that the server pushed to it: it does
/// its work and reports back with the first kind of answer, whatever was asked.
pub fn answer_server_request(_request: &RpcFnReq) -> (reply: RpcFnRsp)
    ensures
        reply@ == Some(RspView::RspFn001(agent_reply_text())),
{
    RpcFnRsp { rsp: Some(Rsp::RspFn001(String::from_str("this is rsp fn 001 from client"))) }
}

} // verus!
