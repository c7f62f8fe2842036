//! The messages of the torsen agent API, and their mathematical views.
use vstd::prelude::*;

verus! {

/// A heartbeat that an agent sends to announce itself.
#[derive(Clone, Debug, PartialEq, Eq, Default)]
pub struct HeartbeatReq {
    pub agent_id: String,
    pub agent_type: String,
}

/// One command that the server streams back to an agent in answer to a heartbeat.
#[derive(Clone, Debug, PartialEq, Eq, Default)]
pub struct HeartbeatRsp {
    pub cmd_type: i32,
    pub cmd_content: String,
}

/// The payload of the second kind of remote call: a name and an age.
#[derive(Clone, Debug, PartialEq, Eq, Default)]
pub struct ReqFn002 {
    pub name: String,
    pub age: i32,
}

/// The answer to the second kind of remote call.
#[derive(Clone, Debug, PartialEq, Eq, Default)]
pub struct RspFn002 {
    pub msg: String,
}

/// The request of a remote call, by kind.
#[derive(Clone, Debug, PartialEq, Eq)]
pub enum Req {
    ReqFn001(String),
    ReqFn002(ReqFn002),
}

/// The answer of a remote call, by kind.
#[derive(Clone, Debug, PartialEq, Eq)]
pub enum Rsp {
    RspFn001(String),
    RspFn002(RspFn002),
}

/// A remote call; it may carry no request at all.
#[derive(Clone, Debug, PartialEq, Eq, Default)]
pub struct RpcFnReq {
    pub req: Option<Req>,
}

/// The reply to a remote call; it may carry no answer at all.
#[derive(Clone, Debug, PartialEq, Eq, Default)]
pub struct RpcFnRsp {
    pub rsp: Option<Rsp>,
}

/// A heartbeat command as a value: its type and its text.
pub struct HeartbeatRspView {
    pub cmd_type: int,
    pub cmd_content: Seq<char>,
}

/// A remote-call request as a value.
pub enum ReqView {
    ReqFn001(Seq<char>),
    ReqFn002 { name: Seq<char>, age: int },
}

/// A remote-call answer as a value.
pub enum RspView {
    RspFn001(Seq<char>),
    RspFn002 { msg: Seq<char> },
}

impl View for HeartbeatRsp {
    type V = HeartbeatRspView;

    open spec fn view(&self) -> HeartbeatRspView {
        HeartbeatRspView { cmd_type: self.cmd_type as int, cmd_content: self.cmd_content@ }
    }
}

impl View for Req {
    type V = ReqView;

    open spec fn view(&self) -> ReqView {
        match self {
            Req::ReqFn001(text) => ReqView::ReqFn001(text@),
            Req::ReqFn002(r) => ReqView::ReqFn002 { name: r.name@, age: r.age as int },
        }
    }
}

impl View for Rsp {
    type V = RspView;

    open spec fn view(&self) -> RspView {
        match self {
            Rsp::RspFn001(text) => RspView::RspFn001(text@),
            Rsp::RspFn002(r) => RspView::RspFn002 { msg: r.msg@ },
        }
    }
}

impl View for RpcFnReq {
    type V = Option<ReqView>;

    open spec fn view(&self) -> Option<ReqView> {
        match &self.req {
            Some(r) => Some(r@),
            None => None,
        }
    }
}

impl View for RpcFnRsp {
    type V = Option<RspView>;

    open spec fn view(&self) -> Option<RspView> {
        match &self.rsp {
            Some(r) => Some(r@),
            None => None,
        }
    }
}

} // verus!
