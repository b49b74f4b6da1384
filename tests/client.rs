use standup::client::{
    parse_response, ErrorMsg, GQLResponse, MeetingState, MeetingStatus, MsgType, RecivedMsg, API,
};
use standup::engine::add_member;
use standup::model::Meeting;

#[test]
fn parse_response_takes_data() {
    let r: GQLResponse<(u32, u32)> = GQLResponse { data: Some((3, 4)), error: Some(String::from("e")), errors: None };
    assert_eq!(parse_response(r, |d| d.0 + d.1).unwrap(), 7);
}

#[test]
fn parse_response_prefers_error_list() {
    let r: GQLResponse<u32> = GQLResponse {
        data: None,
        error: Some(String::from("single")),
        errors: Some(vec![ErrorMsg { message: String::from("a") }, ErrorMsg { message: String::from("b") }]),
    };
    let e = parse_response(r, |d| d).unwrap_err();
    assert_eq!(e.len(), 2);
    assert_eq!(e[0].message, "a");
    assert_eq!(e[1].message, "b");
}

#[test]
fn parse_response_single_error() {
    let r: GQLResponse<u32> = GQLResponse { data: None, error: Some(String::from("boom")), errors: None };
    let e = parse_response(r, |d| d).unwrap_err();
    assert_eq!(e.len(), 1);
    assert_eq!(e[0].message, "boom");
}

#[test]
fn parse_response_nothing() {
    let r: GQLResponse<u32> = GQLResponse { data: None, error: None, errors: None };
    let e = parse_response(r, |d| d).unwrap_err();
    assert_eq!(e.len(), 1);
    assert_eq!(e[0].message, "Unexpected error occured");
}

#[test]
fn api_urls_plain() {
    let api = API::new(String::from("localhost:7070"), false);
    assert_eq!(api.url(), "http://localhost:7070");
    assert_eq!(api.ws(), "ws://localhost:7070/ws");
}

#[test]
fn api_urls_secure() {
    let api = API::new(String::from("example.org"), true);
    assert_eq!(api.url(), "https://example.org");
    assert_eq!(api.ws(), "wss://example.org/ws");
}

#[test]
fn received_message_without_payload() {
    let msg: RecivedMsg<u32> = RecivedMsg { msg_type: MsgType::connection_ack, id: None, payload: None };
    assert!(msg.into_result(|d| d).is_none());
}

#[test]
fn received_message_with_data() {
    let msg: RecivedMsg<u32> = RecivedMsg {
        msg_type: MsgType::data,
        id: Some(String::from("1")),
        payload: Some(GQLResponse { data: Some(5), error: None, errors: None }),
    };
    assert_eq!(msg.into_result(|d| d * 2).unwrap().unwrap(), 10);
}

#[test]
fn received_message_with_error() {
    let msg: RecivedMsg<u32> = RecivedMsg {
        msg_type: MsgType::error,
        id: None,
        payload: Some(GQLResponse { data: None, error: Some(String::from("bad")), errors: None }),
    };
    let e = msg.into_result(|d| d).unwrap().unwrap_err();
    assert_eq!(e[0].message, "bad");
}

#[test]
fn state_starts_initializing() {
    let s = MeetingState::new();
    assert_eq!(s.meeting_status(), MeetingStatus::Initializing);
    assert!(s.members.is_empty());
    assert!(s.error_msgs.is_none());
}

#[test]
fn received_meeting_replaces_state() {
    let s = MeetingState::new();
    let s = s.received_meeting_result(Err(vec![ErrorMsg { message: String::from("old") }]));
    let m = add_member(Meeting::new(String::from("m1")), String::from("a"), String::from("Ann")).unwrap();
    let s = s.received_meeting_result(Ok(m));
    assert_eq!(s.meeting_status(), MeetingStatus::Ready);
    assert_eq!(s.id.as_deref(), Some("m1"));
    assert_eq!(s.members.len(), 1);
    assert_eq!(s.members[0].name, "Ann");
    assert!(s.error_msgs.is_none());
}

#[test]
fn received_errors_keep_the_copy() {
    let mut m = Meeting::new(String::from("m1"));
    m.memo = String::from("notes");
    let s = MeetingState::new().received_meeting_result(Ok(m));
    let s = s.received_meeting_result(Err(vec![ErrorMsg { message: String::from("Invalid member id") }]));
    assert_eq!(s.id.as_deref(), Some("m1"));
    assert_eq!(s.memo, "notes");
    let errs = s.error_msgs.unwrap();
    assert_eq!(errs.len(), 1);
    assert_eq!(errs[0].message, "Invalid member id");
}
