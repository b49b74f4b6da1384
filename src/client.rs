use vstd::prelude::*;
use crate::model::{Meeting, Member};

verus! {

/// One error as the GraphQL endpoint reports it.
#[derive(Debug)]
pub struct ErrorMsg {
    pub message: String,
}

/// The body of a GraphQL response: data on success, else one error or a list.
#[derive(Debug)]
pub struct GQLResponse<T> {
    pub data: Option<T>,
    pub error: Option<String>,
    pub errors: Option<Vec<ErrorMsg>>,
}

/// The message given when a response carries neither data nor errors.
pub open spec fn unexpected_message() -> Seq<char> {
    "Unexpected error occured"@
}

/// `r` is what `response` carries: the value that `get_value` makes of its
/// data, else its error list, else its single error, else a generic error.
pub open spec fn parsed<T, R, F: Fn(T) -> R>(
    response: GQLResponse<T>,
    get_value: F,
    r: Result<R, Vec<ErrorMsg>>,
) -> bool {
    match response.data {
        Some(d) => r matches Ok(v) && get_value.ensures((d,), v),
        None => match response.errors {
            Some(es) => r matches Err(e) && e@ == es@,
            None => match response.error {
                Some(s) => r matches Err(e) && e@.len() == 1 && e@[0].message == s,
                None => r matches Err(e) && e@.len() == 1 && e@[0].message@ == unexpected_message(),
            },
        },
    }
}

/// Takes the value out of a response with `get_value`, or the errors it
/// reports: `errors` first, then the single `error`, then a generic one.
pub fn parse_response<T, R, F: Fn(T) -> R>(response: GQLResponse<T>, get_value: F) -> (r: Result<
    R,
    Vec<ErrorMsg>,
>)
    requires
        forall|t: T| get_value.requires((t,)),
    ensures
        parsed(response, get_value, r),
{
    if let Some(data) = response.data {
        return Ok(get_value(data));
    }
    if let Some(es) = response.errors {
        return Err(es);
    }
    if let Some(message) = response.error {
        let mut v: Vec<ErrorMsg> = Vec::new();
        v.push(ErrorMsg { message });
        return Err(v);
    }
    let mut v: Vec<ErrorMsg> = Vec::new();
    proof {
        reveal_strlit("Unexpected error occured");
    }
    v.push(ErrorMsg { message: "Unexpected error occured".to_owned() });
    Err(v)
}

/// Where the meeting server is reached.
#[derive(Debug)]
pub struct API {
    origin: String,
    secure: bool,
}

impl API {
    /// A client of the server at `origin` (host and port), over TLS when `secure`.
    pub fn new(origin: String, secure: bool) -> (r: API)
        ensures
            r.origin() == origin@,
            r.secure() == secure,
    {
        API { origin, secure }
    }

    pub closed spec fn origin(&self) -> Seq<char> {
        self.origin@
    }

    pub closed spec fn secure(&self) -> bool {
        self.secure
    }

    /// The endpoint for queries and mutations.
    pub fn url(&self) -> (r: String)
        ensures
            r@ == (if self.secure() {
                "https://"@
            } else {
                "http://"@
            }) + self.origin(),
    {
        proof {
            reveal_strlit("https://");
            reveal_strlit("http://");
        }
        let scheme: &str = if self.secure {
            "https://"
        } else {
            "http://"
        };
        scheme.to_owned().concat(self.origin.as_str())
    }

    /// The endpoint for subscriptions.
    pub fn ws(&self) -> (r: String)
        ensures
            r@ == (if self.secure() {
                "wss://"@
            } else {
                "ws://"@
            }) + self.origin() + "/ws"@,
    {
        proof {
            reveal_strlit("wss://");
            reveal_strlit("ws://");
            reveal_strlit("/ws");
        }
        let scheme: &str = if self.secure {
            "wss://"
        } else {
            "ws://"
        };
        scheme.to_owned().concat(self.origin.as_str()).concat("/ws")
    }
}

/// The kinds of message the subscription socket receives.
#[derive(Debug, Clone, Copy, PartialEq, Eq, Structural)]
#[allow(non_camel_case_types)]
pub enum MsgType {
    connection_ack,
    data,
    error,
}

/// A message received on the subscription socket.
#[derive(Debug)]
pub struct RecivedMsg<T> {
    pub msg_type: MsgType,
    pub id: Option<String>,
    pub payload: Option<GQLResponse<T>>,
}

impl<T> RecivedMsg<T> {
    /// What the message carries for the listener: nothing for a message
    /// without payload, else the parsed payload.
    pub fn into_result<R, F: Fn(T) -> R>(self, get_value: F) -> (r: Option<Result<R, Vec<ErrorMsg>>>)
        requires
            forall|t: T| get_value.requires((t,)),
        ensures
            self.payload is None <==> r is None,
            self.payload matches Some(p) ==> (r matches Some(x) && parsed(p, get_value, x)),
    {
        match self.payload {
            None => None,
            Some(p) => Some(parse_response(p, get_value)),
        }
    }
}

/// Whether the client has a meeting to show yet.
#[derive(Debug, Clone, Copy, PartialEq, Eq, Structural)]
pub enum MeetingStatus {
    Initializing,
    Ready,
}

/// The client's copy of the meeting, and the errors of its last command.
#[derive(Debug)]
pub struct MeetingState {
    pub id: Option<String>,
    pub leader_id: Option<String>,
    pub members: Vec<Member>,
    pub memo: String,
    pub error_msgs: Option<Vec<ErrorMsg>>,
}

impl MeetingState {
    /// The state before any meeting was received.
    pub fn new() -> (r: MeetingState)
        ensures
            r.id is None,
            r.leader_id is None,
            r.members@.len() == 0,
            r.memo@.len() == 0,
            r.error_msgs is None,
    {
        MeetingState {
            id: None,
            leader_id: None,
            members: Vec::new(),
            memo: String::new(),
            error_msgs: None,
        }
    }

    /// Ready once a meeting id is known.
    pub fn meeting_status(&self) -> (r: MeetingStatus)
        ensures
            r == MeetingStatus::Ready <==> self.id is Some,
    {
        match self.id {
            Some(_) => MeetingStatus::Ready,
            None => MeetingStatus::Initializing,
        }
    }

    /// A received meeting replaces the local copy wholesale and clears the
    /// errors; received errors are recorded and the copy is kept.
    pub fn received_meeting_result(self, result: Result<Meeting, Vec<ErrorMsg>>) -> (r:
        MeetingState)
        ensures
            match result {
                Ok(m) => {
                    &&& r.id == Some(m.id)
                    &&& r.leader_id == m.leader_id
                    &&& r.members@ == m.members@
                    &&& r.memo == m.memo
                    &&& r.error_msgs is None
                },
                Err(e) => {
                    &&& r.id == self.id
                    &&& r.leader_id == self.leader_id
                    &&& r.members@ == self.members@
                    &&& r.memo == self.memo
                    &&& r.error_msgs matches Some(x) && x@ == e@
                },
            },
    {
        match result {
            Ok(m) => MeetingState {
                id: Some(m.id),
                leader_id: m.leader_id,
                members: m.members,
                memo: m.memo,
                error_msgs: None,
            },
            Err(e) => MeetingState {
                id: self.id,
                leader_id: self.leader_id,
                members: self.members,
                memo: self.memo,
                error_msgs: Some(e),
            },
        }
    }
}

} // verus!
