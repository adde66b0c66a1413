//! The messages agents exchange, and how replies and context are built.
use vstd::prelude::*;
use crate::context::{merge_reply_context, merged_reply_context};
use crate::json::{Json, JsonValue, jv, jv_fields, jopt_str, jstr, object, push_field};
use crate::llm::opt_chars;
use crate::text::own;

verus! {

/// A message between agents. The transient context carries what must not
/// be kept (such as a model key): it is never copied into replies nor
/// written out.
#[derive(Debug)]
pub struct AgentMessage {
    pub id: String,
    pub from: String,
    pub to: String,
    pub content: String,
    pub context: JsonValue,
    pub transient_context: JsonValue,
    pub task_id: Option<String>,
    pub reply_id: Option<String>,
    pub msg_type: String,
}

impl AgentMessage {
    /// A generic message with a fresh id and no context.
    pub fn new(from: &str, to: &str, content: &str) -> (m: Self)
        ensures
            m.from@ == from@,
            m.to@ == to@,
            m.content@ == content@,
            jv(m.context) == Json::Null,
            jv(m.transient_context) == Json::Null,
            m.task_id is None,
            m.reply_id is None,
            m.msg_type@ == "generic"@,
    {
        AgentMessage {
            id: crate::clock::new_uuid(),
            from: own(from),
            to: own(to),
            content: own(content),
            context: JsonValue::Null,
            transient_context: JsonValue::Null,
            task_id: None,
            reply_id: None,
            msg_type: own("generic"),
        }
    }

    /// A generic message that belongs to task `task_id`.
    pub fn new_with_task(from: &str, to: &str, content: &str, task_id: &str) -> (m: Self)
        ensures
            m.from@ == from@,
            m.to@ == to@,
            m.content@ == content@,
            jv(m.context) == Json::Null,
            jv(m.transient_context) == Json::Null,
            opt_chars(m.task_id) == Some(task_id@),
            m.reply_id is None,
            m.msg_type@ == "generic"@,
    {
        let mut m = Self::new(from, to, content);
        m.task_id = Some(own(task_id));
        m
    }

    /// The reply to this message: back to its sender, with its context and
    /// task, but never its transient context.
    pub fn reply_to(&self, content: &str) -> (r: Self)
        ensures
            r.from@ == self.to@,
            r.to@ == self.from@,
            r.content@ == content@,
            jv(r.context) == jv(self.context),
            jv(r.transient_context) == Json::Null,
            opt_chars(r.task_id) == opt_chars(self.task_id),
            opt_chars(r.reply_id) == opt_chars(self.reply_id),
            r.msg_type@ == "reply"@,
    {
        AgentMessage {
            id: crate::clock::new_uuid(),
            from: self.to.clone(),
            to: self.from.clone(),
            content: own(content),
            context: self.context.deep_clone(),
            transient_context: JsonValue::Null,
            task_id: match &self.task_id {
                Some(t) => Some(t.clone()),
                None => None,
            },
            reply_id: match &self.reply_id {
                Some(t) => Some(t.clone()),
                None => None,
            },
            msg_type: own("reply"),
        }
    }

    /// The message with type `msg_type`.
    pub fn with_type(self, msg_type: &str) -> (r: Self)
        ensures
            r.msg_type@ == msg_type@,
            r.id == self.id && r.from == self.from && r.to == self.to && r.content == self.content,
            r.context == self.context && r.transient_context == self.transient_context,
            r.task_id == self.task_id && r.reply_id == self.reply_id,
    {
        let mut m = self;
        m.msg_type = own(msg_type);
        m
    }

    /// The message with `context` added to its context: fields of two
    /// objects are merged, the new ones winning; otherwise the new context
    /// replaces the old.
    pub fn with_context(self, context: JsonValue) -> (r: Self)
        ensures
            jv(r.context) == merged_reply_context(jv(self.context), jv(context)),
            r.id == self.id && r.from == self.from && r.to == self.to && r.content == self.content,
            r.transient_context == self.transient_context && r.msg_type == self.msg_type,
            r.task_id == self.task_id && r.reply_id == self.reply_id,
    {
        let mut m = self;
        let mut base = JsonValue::Null;
        std::mem::swap(&mut base, &mut m.context);
        m.context = merge_reply_context(base, context);
        m
    }

    /// The message with `context` added to its transient context, merged as
    /// `with_context` merges.
    pub fn with_transient_context(self, context: JsonValue) -> (r: Self)
        ensures
            jv(r.transient_context) == merged_reply_context(jv(self.transient_context), jv(context)),
            r.id == self.id && r.from == self.from && r.to == self.to && r.content == self.content,
            r.context == self.context && r.msg_type == self.msg_type,
            r.task_id == self.task_id && r.reply_id == self.reply_id,
    {
        let mut m = self;
        let mut base = JsonValue::Null;
        std::mem::swap(&mut base, &mut m.transient_context);
        m.transient_context = merge_reply_context(base, context);
        m
    }

    /// The message as part of task `task_id`.
    pub fn with_task_id(self, task_id: &str) -> (r: Self)
        ensures
            opt_chars(r.task_id) == Some(task_id@),
            r.id == self.id && r.from == self.from && r.to == self.to && r.content == self.content,
            r.context == self.context && r.transient_context == self.transient_context,
            r.msg_type == self.msg_type && r.reply_id == self.reply_id,
    {
        let mut m = self;
        m.task_id = Some(own(task_id));
        m
    }

    /// The message as it is written out: every field but the transient
    /// context.
    pub fn to_json(&self) -> (r: JsonValue)
        ensures
            jv(r) == Json::Object(
                seq![
                    ("id"@, Json::Str(self.id@)),
                    ("from"@, Json::Str(self.from@)),
                    ("to"@, Json::Str(self.to@)),
                    ("content"@, Json::Str(self.content@)),
                    ("context"@, jv(self.context)),
                    ("task_id"@, match self.task_id {
                        Some(t) => Json::Str(t@),
                        None => Json::Null,
                    }),
                    ("reply_id"@, match self.reply_id {
                        Some(t) => Json::Str(t@),
                        None => Json::Null,
                    }),
                    ("msg_type"@, Json::Str(self.msg_type@)),
                ],
            ),
    {
        let mut f: Vec<(String, JsonValue)> = Vec::new();
        assert(jv_fields(f@) =~= Seq::empty());
        push_field(&mut f, "id", jstr(self.id.as_str()));
        push_field(&mut f, "from", jstr(self.from.as_str()));
        push_field(&mut f, "to", jstr(self.to.as_str()));
        push_field(&mut f, "content", jstr(self.content.as_str()));
        push_field(&mut f, "context", self.context.deep_clone());
        push_field(&mut f, "task_id", jopt_str(self.task_id.as_ref()));
        push_field(&mut f, "reply_id", jopt_str(self.reply_id.as_ref()));
        push_field(&mut f, "msg_type", jstr(self.msg_type.as_str()));
        assert(jv_fields(f@) =~= seq![
            ("id"@, Json::Str(self.id@)),
            ("from"@, Json::Str(self.from@)),
            ("to"@, Json::Str(self.to@)),
            ("content"@, Json::Str(self.content@)),
            ("context"@, jv(self.context)),
            ("task_id"@, match self.task_id {
                Some(t) => Json::Str(t@),
                None => Json::Null,
            }),
            ("reply_id"@, match self.reply_id {
                Some(t) => Json::Str(t@),
                None => Json::Null,
            }),
            ("msg_type"@, Json::Str(self.msg_type@)),
        ]);
        object(f)
    }
}

} // verus!
