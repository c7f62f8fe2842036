//! What the torsen server answers: the text of a heartbeat's commands, the
//! stream that carries them, and the reply to each kind of remote call.
use vstd::prelude::*;
use crate::api::{HeartbeatReq, Req, ReqView, Rsp, RspFn002, RspView, RpcFnReq, RpcFnRsp};
use crate::decimal::{int_text, push_i32};
use crate::heartbeat::{HeartbeatStream, HeartbeatStreamView};

verus! {

/// How many commands the server streams back for one heartbeat unless it is
/// built with another number.
pub const DEFAULT_HEARTBEAT_ROUNDS: u32 = 2;

/// The text of every command sent back to an agent that announced itself with
/// `agent_id` and `agent_type`.
pub open spec fn heartbeat_text(agent_id: Seq<char>, agent_type: Seq<char>) -> Seq<char> {
    "agent_id: "@ + agent_id + ", agent_type: "@ + agent_type
}

/// The reply to a remote call: nothing for nothing, and for each kind of
/// request the answer of the same kind that echoes it after `get req: `.
pub open spec fn rpc_reply(req: Option<ReqView>) -> Option<RspView> {
    match req {
        None => None,
        Some(ReqView::ReqFn001(text)) => Some(RspView::RspFn001("get req: "@ + text)),
        Some(ReqView::ReqFn002 { name, age }) => Some(
            RspView::RspFn002 { msg: "get req: "@ + name + ", "@ + int_text(age) },
        ),
    }
}

/// A reply is of the kind of its request: none for none, the first kind for
/// the first, the second for the second.
pub proof fn lemma_reply_kind_follows_request(req: Option<ReqView>)
    ensures
        req is None <==> rpc_reply(req) is None,
        (req matches Some(ReqView::ReqFn001(_))) <==> (rpc_reply(req) matches Some(
            RspView::RspFn001(_),
        )),
        (req matches Some(ReqView::ReqFn002 { .. })) <==> (rpc_reply(req) matches Some(
            RspView::RspFn002 { .. },
        )),
{
}

/// The command text names the agent field by field, whatever the lengths of
/// the fields: it opens with the id's label, the id follows it exactly, then
/// comes the type's label, and the type ends the text.
pub proof fn lemma_heartbeat_text_fields(agent_id: Seq<char>, agent_type: Seq<char>)
    ensures
        ({
            let t = heartbeat_text(agent_id, agent_type);
            let a = "agent_id: "@.len() as int;
            let b = a + agent_id.len();
            let c = b + ", agent_type: "@.len();
            &&& t.len() == c + agent_type.len()
            &&& t.subrange(0, a) == "agent_id: "@
            &&& t.subrange(a, b) == agent_id
            &&& t.subrange(b, c) == ", agent_type: "@
            &&& t.subrange(c, t.len() as int) == agent_type
        }),
{
    let t = heartbeat_text(agent_id, agent_type);
    let a = "agent_id: "@.len() as int;
    let b = a + agent_id.len();
    let c = b + ", agent_type: "@.len();
    assert(t.subrange(0, a) =~= "agent_id: "@);
    assert(t.subrange(a, b) =~= agent_id);
    assert(t.subrange(b, c) =~= ", agent_type: "@);
    assert(t.subrange(c, t.len() as int) =~= agent_type);
}

/// Two agents that announce the same type get the same command text only if
/// they announce the same id, and the other way round.
pub proof fn lemma_heartbeat_text_tells_agents_apart(
    id1: Seq<char>,
    type1: Seq<char>,
    id2: Seq<char>,
    type2: Seq<char>,
)
    requires
        heartbeat_text(id1, type1) == heartbeat_text(id2, type2),
        id1.len() == id2.len() || type1.len() == type2.len(),
    ensures
        id1 == id2,
        type1 == type2,
{
    lemma_heartbeat_text_fields(id1, type1);
    lemma_heartbeat_text_fields(id2, type2);
}

/// The answer to a request of the first kind carrying `text` is of the first
/// kind, and is `get req: ` followed by all of `text`, unchanged.
pub proof fn lemma_rpc_reply_echoes(text: Seq<char>)
    ensures
        rpc_reply(Some(ReqView::ReqFn001(text))) matches Some(RspView::RspFn001(r)) && {
            let p = "get req: "@.len() as int;
            &&& r.len() == p + text.len()
            &&& r.subrange(0, p) == "get req: "@
            &&& r.subrange(p, r.len() as int) == text
        },
{
    let r = "get req: "@ + text;
    let p = "get req: "@.len() as int;
    assert(r.subrange(0, p) =~= "get req: "@);
    assert(r.subrange(p, r.len() as int) =~= text);
}

/// The answer to a request of the second kind is of the second kind, and is
/// `get req: `, the name unchanged, `, `, and the age in decimal.
pub proof fn lemma_rpc_reply_names_and_ages(name: Seq<char>, age: int)
    ensures
        rpc_reply(Some(ReqView::ReqFn002 { name, age })) matches Some(RspView::RspFn002 { msg })
            && {
            let a = "get req: "@.len() as int;
            let b = a + name.len();
            let c = b + ", "@.len();
            &&& msg.len() == c + int_text(age).len()
            &&& msg.subrange(0, a) == "get req: "@
            &&& msg.subrange(a, b) == name
            &&& msg.subrange(b, c) == ", "@
            &&& msg.subrange(c, msg.len() as int) == int_text(age)
        },
{
    let msg = "get req: "@ + name + ", "@ + int_text(age);
    let a = "get req: "@.len() as int;
    let b = a + name.len();
    let c = b + ", "@.len();
    assert(msg.subrange(0, a) =~= "get req: "@);
    assert(msg.subrange(a, b) =~= name);
    assert(msg.subrange(b, c) =~= ", "@);
    assert(msg.subrange(c, msg.len() as int) =~= int_text(age));
}

/// The text of the commands that answer `req`.
pub fn heartbeat_content(req: &HeartbeatReq) -> (text: String)
    ensures
        text@ == heartbeat_text(req.agent_id@, req.agent_type@),
{
    let mut text = String::from_str("agent_id: ");
    text.append(req.agent_id.as_str());
    text.append(", agent_type: ");
    text.append(req.agent_type.as_str());
    text
}

/// The reply to the remote call `request`.
pub fn answer_rpc(request: RpcFnReq) -> (reply: RpcFnRsp)
    ensures
        reply@ == rpc_reply(request@),
{
    match request.req {
        None => RpcFnRsp { rsp: None },
        Some(Req::ReqFn001(text)) => {
            let mut answer = String::from_str("get req: ");
            answer.append(text.as_str());
            RpcFnRsp { rsp: Some(Rsp::RspFn001(answer)) }
        },
        Some(Req::ReqFn002(req)) => {
            let mut msg = String::from_str("get req: ");
            msg.append(req.name.as_str());
            msg.append(", ");
            push_i32(&mut msg, req.age);
            RpcFnRsp { rsp: Some(Rsp::RspFn002(RspFn002 { msg })) }
        },
    }
}

/// The torsen API server.
#[derive(Clone, Copy, Debug)]
pub struct TorsenServer {
    /// How many commands it streams back for one heartbeat.
    pub heartbeat_rounds: u32,
}

impl TorsenServer {
    /// A server that streams back `rounds` commands for each heartbeat.
    pub fn with_heartbeat_rounds(rounds: u32) -> (server: TorsenServer)
        ensures
            server.heartbeat_rounds == rounds,
    {
        TorsenServer { heartbeat_rounds: rounds }
    }

    /// Answers a heartbeat with a stream of this server's number of commands,
    /// each carrying the agent's id and type.
    pub fn heartbeat(&self, request: HeartbeatReq) -> (stream: HeartbeatStream)
        ensures
            stream@ == HeartbeatStreamView::fresh(
                heartbeat_text(request.agent_id@, request.agent_type@),
                self.heartbeat_rounds as nat,
            ),
    {
        let content = heartbeat_content(&request);
        HeartbeatStream::new(content, self.heartbeat_rounds)
    }

    /// Answers a remote call.
    pub fn rpc_fn(&self, request: RpcFnReq) -> (reply: RpcFnRsp)
        ensures
            reply@ == rpc_reply(request@),
    {
        answer_rpc(request)
    }

    /// Answers a remote call from an agent (the client-to-server direction).
    pub fn rpc_fn_c2s(&self, request: RpcFnReq) -> (reply: RpcFnRsp)
        ensures
            reply@ == rpc_reply(request@),
    {
        answer_rpc(request)
    }
}

impl Default for TorsenServer {
    fn default() -> (server: TorsenServer)
        ensures
            server.heartbeat_rounds == DEFAULT_HEARTBEAT_ROUNDS,
    {
        TorsenServer { heartbeat_rounds: DEFAULT_HEARTBEAT_ROUNDS }
    }
}

} // verus!
