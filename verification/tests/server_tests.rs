use torsen::api::{HeartbeatReq, HeartbeatRsp, Req, ReqFn002, Rsp, RspFn002, RpcFnReq, RpcFnRsp};
use torsen::client::answer_server_request;
use torsen::decimal::i32_text;
use torsen::heartbeat::{
    heartbeat_response, HeartbeatAction, HeartbeatEvent, HeartbeatStream, HEARTBEAT_PAUSE_MILLIS,
};
use torsen::server::{answer_rpc, heartbeat_content, TorsenServer, DEFAULT_HEARTBEAT_ROUNDS};

fn agent() -> HeartbeatReq {
    HeartbeatReq { agent_id: "agent_id_001".to_string(), agent_type: "agent_type_001".to_string() }
}

fn drive_faithfully(stream: &mut HeartbeatStream) -> Vec<HeartbeatAction> {
    let mut actions = Vec::new();
    let mut event = HeartbeatEvent::Ready;
    loop {
        let action = stream.step(event);
        actions.push(action.clone());
        match action {
            HeartbeatAction::Send(_) => event = HeartbeatEvent::Sent,
            HeartbeatAction::Pause(_) => event = HeartbeatEvent::Ready,
            HeartbeatAction::Finish => break,
        }
        assert!(actions.len() < 1000);
    }
    actions
}

fn command(cmd_type: i32, content: &str) -> HeartbeatAction {
    HeartbeatAction::Send(HeartbeatRsp { cmd_type, cmd_content: content.to_string() })
}

#[test]
fn decimal_text_of_integers() {
    assert_eq!(i32_text(0), "0");
    assert_eq!(i32_text(7), "7");
    assert_eq!(i32_text(18), "18");
    assert_eq!(i32_text(-5), "-5");
    assert_eq!(i32_text(1000), "1000");
    assert_eq!(i32_text(i32::MAX), "2147483647");
    assert_eq!(i32_text(i32::MIN), "-2147483648");
    for n in [-123456, -10, -1, 9, 10, 99, 100, 65535] {
        assert_eq!(i32_text(n), format!("{}", n));
    }
}

#[test]
fn heartbeat_text_names_agent() {
    assert_eq!(heartbeat_content(&agent()), "agent_id: agent_id_001, agent_type: agent_type_001");
    assert_eq!(heartbeat_content(&HeartbeatReq::default()), "agent_id: , agent_type: ");
}

#[test]
fn rpc_with_no_request_gets_no_answer() {
    assert_eq!(answer_rpc(RpcFnReq { req: None }), RpcFnRsp { rsp: None });
}

#[test]
fn rpc_fn_001_is_echoed() {
    let reply = answer_rpc(RpcFnReq {
        req: Some(Req::ReqFn001("this is req fn 001 content".to_string())),
    });
    assert_eq!(
        reply,
        RpcFnRsp { rsp: Some(Rsp::RspFn001("get req: this is req fn 001 content".to_string())) }
    );
}

#[test]
fn rpc_fn_002_names_and_ages() {
    let reply = answer_rpc(RpcFnReq {
        req: Some(Req::ReqFn002(ReqFn002 { name: "this is name content".to_string(), age: 18 })),
    });
    assert_eq!(
        reply,
        RpcFnRsp {
            rsp: Some(Rsp::RspFn002(RspFn002 { msg: "get req: this is name content, 18".to_string() })),
        }
    );
    let reply = answer_rpc(RpcFnReq {
        req: Some(Req::ReqFn002(ReqFn002 { name: "x".to_string(), age: -3 })),
    });
    assert_eq!(
        reply,
        RpcFnRsp { rsp: Some(Rsp::RspFn002(RspFn002 { msg: "get req: x, -3".to_string() })) }
    );
}

#[test]
fn server_rpc_entry_points_agree() {
    let server = TorsenServer::default();
    let req = RpcFnReq {
        req: Some(Req::ReqFn002(ReqFn002 { name: "n".to_string(), age: 0 })),
    };
    assert_eq!(server.rpc_fn(req.clone()), server.rpc_fn_c2s(req.clone()));
    assert_eq!(server.rpc_fn(req.clone()), answer_rpc(req));
}

#[test]
fn default_server_streams_two_commands() {
    let server = TorsenServer::default();
    assert_eq!(server.heartbeat_rounds, DEFAULT_HEARTBEAT_ROUNDS);
    let mut stream = server.heartbeat(agent());
    let content = "agent_id: agent_id_001, agent_type: agent_type_001";
    assert_eq!(
        drive_faithfully(&mut stream),
        vec![
            command(0, content),
            HeartbeatAction::Pause(200),
            command(1, content),
            HeartbeatAction::Pause(200),
            HeartbeatAction::Finish,
        ]
    );
    assert!(stream.is_finished());
    assert_eq!(stream.sent(), 2);
}

#[test]
fn ten_round_server_alternates_command_types() {
    let server = TorsenServer::with_heartbeat_rounds(10);
    let mut stream = server.heartbeat(agent());
    let actions = drive_faithfully(&mut stream);
    assert_eq!(actions.len(), 21);
    for i in 0..10 {
        match &actions[2 * i] {
            HeartbeatAction::Send(rsp) => {
                assert_eq!(rsp.cmd_type, (i % 2) as i32);
                assert_eq!(rsp.cmd_content, "agent_id: agent_id_001, agent_type: agent_type_001");
            }
            other => panic!("expected a command, got {:?}", other),
        }
        assert_eq!(actions[2 * i + 1], HeartbeatAction::Pause(HEARTBEAT_PAUSE_MILLIS));
    }
    assert_eq!(actions[20], HeartbeatAction::Finish);
}

#[test]
fn zero_rounds_finish_at_once() {
    let mut stream = HeartbeatStream::new("c".to_string(), 0);
    assert_eq!(stream.step(HeartbeatEvent::Ready), HeartbeatAction::Finish);
    assert!(stream.is_finished());
    assert_eq!(stream.step(HeartbeatEvent::Ready), HeartbeatAction::Finish);
}

#[test]
fn failed_delivery_ends_stream() {
    let mut stream = HeartbeatStream::new("c".to_string(), 3);
    assert_eq!(stream.step(HeartbeatEvent::Ready), command(0, "c"));
    assert_eq!(stream.step(HeartbeatEvent::SendFailed), HeartbeatAction::Finish);
    assert!(stream.is_finished());
    assert_eq!(stream.sent(), 0);
    for event in [HeartbeatEvent::Ready, HeartbeatEvent::Sent, HeartbeatEvent::SendFailed] {
        assert_eq!(stream.step(event), HeartbeatAction::Finish);
    }
}

#[test]
fn out_of_turn_report_ends_stream() {
    let mut stream = HeartbeatStream::new("c".to_string(), 3);
    assert_eq!(stream.step(HeartbeatEvent::Sent), HeartbeatAction::Finish);
    assert!(stream.is_finished());
    let mut stream = HeartbeatStream::new("c".to_string(), 3);
    assert_eq!(stream.step(HeartbeatEvent::Ready), command(0, "c"));
    assert_eq!(stream.step(HeartbeatEvent::Ready), HeartbeatAction::Finish);
}

#[test]
fn response_of_round() {
    let content = "hello".to_string();
    assert_eq!(heartbeat_response(&content, 0), HeartbeatRsp { cmd_type: 0, cmd_content: "hello".to_string() });
    assert_eq!(heartbeat_response(&content, 7), HeartbeatRsp { cmd_type: 1, cmd_content: "hello".to_string() });
}

#[test]
fn agent_answers_pushed_calls() {
    let expected = RpcFnRsp { rsp: Some(Rsp::RspFn001("this is rsp fn 001 from client".to_string())) };
    assert_eq!(answer_server_request(&RpcFnReq { req: None }), expected);
    assert_eq!(
        answer_server_request(&RpcFnReq { req: Some(Req::ReqFn001("do it".to_string())) }),
        expected
    );
}
