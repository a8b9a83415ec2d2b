//! Request and reply shapes of the serving interface.

use vstd::prelude::*;

verus! {

/// One role-tagged chat message.
#[derive(Debug)]
pub struct Message {
    pub role: String,
    pub content: String,
}

impl Clone for Message {
    fn clone(&self) -> (r: Self)
        ensures
            r == *self,
    {
        Message { role: self.role.clone(), content: self.content.clone() }
    }
}

/// A chat-completion request: an ordered sequence of messages.
#[derive(Debug)]
pub struct InferenceRunRequest {
    pub messages: Vec<Message>,
}

impl Clone for InferenceRunRequest {
    fn clone(&self) -> (r: Self)
        ensures
            r.messages@ == self.messages@,
    {
        let mut messages: Vec<Message> = Vec::new();
        let mut i: usize = 0;
        while i < self.messages.len()
            invariant
                i <= self.messages@.len(),
                messages@ =~= self.messages@.subrange(0, i as int),
            decreases self.messages@.len() - i,
        {
            messages.push(self.messages[i].clone());
            assert(messages@ =~= self.messages@.subrange(0, i + 1 as int));
            i = i + 1;
        }
        assert(messages@ =~= self.messages@);
        InferenceRunRequest { messages }
    }
}

/// The terminal and intermediate states a job can show to a caller.
#[derive(Debug, Clone, Copy, PartialEq, Eq, Structural)]
pub enum JobStatus {
    Okay,
    Queued,
    Completed,
    Error,
}

impl JobStatus {
    /// The wire form of the status.
    pub fn as_str(&self) -> (r: &'static str)
        ensures
            *self == JobStatus::Okay ==> r@ == "OK"@,
            *self == JobStatus::Queued ==> r@ == "QUEUED"@,
            *self == JobStatus::Completed ==> r@ == "COMPLETED"@,
            *self == JobStatus::Error ==> r@ == "ERROR"@,
    {
        match self {
            JobStatus::Okay => "OK",
            JobStatus::Queued => "QUEUED",
            JobStatus::Completed => "COMPLETED",
            JobStatus::Error => "ERROR",
        }
    }
}

/// The reply to a run request, and the value the result cache stores.
#[derive(Debug)]
pub struct InferenceRunReply {
    pub response: Option<Message>,
    pub status: JobStatus,
    pub uuid: String,
}

impl Clone for InferenceRunReply {
    fn clone(&self) -> (r: Self)
        ensures
            r == *self,
    {
        let response = match &self.response {
            Option::Some(m) => Option::Some(m.clone()),
            Option::None => Option::None,
        };
        InferenceRunReply { response, status: self.status, uuid: self.uuid.clone() }
    }
}

/// An inline success: the assistant's message, status `OK`.
pub fn ok_reply(uuid: String, content: String) -> (r: InferenceRunReply)
    ensures
        r.status == JobStatus::Okay,
        r.response matches Some(m) && m.role@ == "assistant"@ && m.content == content,
        r.uuid == uuid,
{
    InferenceRunReply {
        response: Some(Message { role: assistant_role(), content }),
        status: JobStatus::Okay,
        uuid,
    }
}

/// A drained job that completed: the assistant's message, status `COMPLETED`.
pub fn completed_reply(uuid: String, content: String) -> (r: InferenceRunReply)
    ensures
        r.status == JobStatus::Completed,
        r.response matches Some(m) && m.role@ == "assistant"@ && m.content == content,
        r.uuid == uuid,
{
    InferenceRunReply {
        response: Some(Message { role: assistant_role(), content }),
        status: JobStatus::Completed,
        uuid,
    }
}

/// A freshly queued job: no response yet, status `QUEUED`.
pub fn queued_reply(uuid: String) -> (r: InferenceRunReply)
    ensures
        r.status == JobStatus::Queued,
        r.response is None,
        r.uuid == uuid,
{
    InferenceRunReply { response: None, status: JobStatus::Queued, uuid }
}

/// A drained job whose generation failed: no response, status `ERROR`.
pub fn error_reply(uuid: String) -> (r: InferenceRunReply)
    ensures
        r.status == JobStatus::Error,
        r.response is None,
        r.uuid == uuid,
{
    InferenceRunReply { response: None, status: JobStatus::Error, uuid }
}

fn assistant_role() -> (r: String)
    ensures
        r@ == "assistant"@,
{
    let r: &str = "assistant";
    r.to_owned()
}

} // verus!
