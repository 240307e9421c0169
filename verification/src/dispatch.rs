//! The decisions of the gateway: what a request leads to, and what follows
//! each answer of the store. The caller talks to the store; every choice is
//! made here.

use vstd::prelude::*;
use vstd::string::*;
use crate::bytes::text_view;
use crate::key::KeyGrammar;
use crate::protocol::{
    action_of, completed, parse_action, refused, request_view, Action, Request,
    RequestView, Response, ResponseView,
};
use crate::schema::{outcome_view, validation, SchemaRegistry};

verus! {

/// A mutation of the store. `value` is the text to store, `None` for a deletion.
pub struct Command {
    pub action: Action,
    pub key: String,
    pub value: Option<String>,
}

/// A message for the notification channel of a key.
pub struct Notice {
    pub channel: String,
    pub message: String,
}

/// What a request leads to: a reply at once, or a mutation of the store.
pub enum Effect {
    Reply(Response),
    Mutate(Command),
}

/// What follows a mutation: a reply, or the notification.
pub enum Followup {
    Reply(Response),
    Publish(Notice),
}

/// A mutation as a mathematical value.
pub struct CommandView {
    pub action: Action,
    pub key: Seq<char>,
    pub value: Option<Seq<char>>,
}

/// A notice as a mathematical value.
pub struct NoticeView {
    pub channel: Seq<char>,
    pub message: Seq<char>,
}

/// An effect as a mathematical value.
pub enum EffectView {
    Reply(ResponseView),
    Mutate(CommandView),
}

/// A follow-up as a mathematical value.
pub enum FollowupView {
    Reply(ResponseView),
    Publish(NoticeView),
}

impl View for Command {
    type V = CommandView;

    open spec fn view(&self) -> CommandView {
        CommandView { action: self.action, key: self.key@, value: text_view(self.value) }
    }
}

impl View for Notice {
    type V = NoticeView;

    open spec fn view(&self) -> NoticeView {
        NoticeView { channel: self.channel@, message: self.message@ }
    }
}

impl View for Effect {
    type V = EffectView;

    open spec fn view(&self) -> EffectView {
        match self {
            Effect::Reply(r) => EffectView::Reply(r@),
            Effect::Mutate(c) => EffectView::Mutate(c@),
        }
    }
}

impl View for Followup {
    type V = FollowupView;

    open spec fn view(&self) -> FollowupView {
        match self {
            Followup::Reply(r) => FollowupView::Reply(r@),
            Followup::Publish(n) => FollowupView::Publish(n@),
        }
    }
}

/// The text that a mutation stores: the payload, or `null` where there is none.
pub open spec fn stored_text(value: Option<Seq<char>>) -> Seq<char> {
    match value {
        Some(text) => text,
        None => "null"@,
    }
}

/// The mutation that a request with a known verb asks for.
pub open spec fn command_of(action: Action, request: RequestView) -> CommandView {
    CommandView {
        action,
        key: request.key,
        value: if action == Action::Delete {
            None
        } else {
            Some(stored_text(request.value))
        },
    }
}

/// The notification that announces a mutation, on the channel named after its key.
pub open spec fn notice_of(command: CommandView) -> NoticeView {
    NoticeView {
        channel: command.key,
        message: match command.action {
            Action::Put => "set: "@ + stored_text(command.value),
            Action::Delete => "del"@,
            Action::SetAdd => "sadd: "@ + stored_text(command.value),
            Action::SetRemove => "srem: "@ + stored_text(command.value),
        },
    }
}

/// The static configuration of the gateway.
pub struct Gateway {
    pub grammar: KeyGrammar,
    pub schemas: SchemaRegistry,
}

impl Gateway {
    /// What a request leads to. The checks come in this order: the decoding,
    /// the key, the payload where there is one, the verb.
    pub open spec fn decision(&self, decoded: Option<RequestView>) -> EffectView {
        match decoded {
            None => EffectView::Reply(refused("Invalid request format"@)),
            Some(request) => if !self.grammar.accepts(request.key) {
                EffectView::Reply(refused("Invalid key format"@))
            } else if request.value is Some && validation(
                self.schemas@,
                request.key,
                request.value->0,
            ) is Err {
                EffectView::Reply(
                    refused(validation(self.schemas@, request.key, request.value->0)->Err_0),
                )
            } else {
                match action_of(request.action) {
                    None => EffectView::Reply(refused("Invalid action"@)),
                    Some(action) => EffectView::Mutate(command_of(action, request)),
                }
            },
        }
    }

    /// Decides what a request leads to; `None` stands for bytes that could
    /// not be decoded as a request.
    pub fn handle_request(&self, decoded: Option<Request>) -> (effect: Effect)
        ensures
            effect@ == self.decision(request_view(decoded)),
    {
        let request = match decoded {
            Some(request) => request,
            None => {
                return Effect::Reply(Response::error("Invalid request format".to_owned()));
            },
        };
        if !self.grammar.is_valid(request.key.as_str()) {
            return Effect::Reply(Response::error("Invalid key format".to_owned()));
        }
        if let Some(value) = &request.value {
            match self.schemas.validate_json_schema(request.key.as_str(), value.as_str()) {
                Err(message) => {
                    return Effect::Reply(Response::error(message));
                },
                Ok(_) => {},
            }
        }
        match parse_action(request.action.as_str()) {
            None => Effect::Reply(Response::error("Invalid action".to_owned())),
            Some(action) => {
                let value = match action {
                    Action::Delete => None,
                    _ => match request.value {
                        Some(text) => Some(text),
                        None => Some("null".to_owned()),
                    },
                };
                Effect::Mutate(Command { action, key: request.key, value })
            },
        }
    }
}

/// The notification that announces a mutation.
pub fn notice_for(command: &Command) -> (notice: Notice)
    ensures
        notice@ == notice_of(command@),
{
    let mut message = match command.action {
        Action::Put => "set: ".to_owned(),
        Action::Delete => "del".to_owned(),
        Action::SetAdd => "sadd: ".to_owned(),
        Action::SetRemove => "srem: ".to_owned(),
    };
    match command.action {
        Action::Delete => {},
        _ => {
            match &command.value {
                Some(text) => message.append(text.as_str()),
                None => message.append("null"),
            }
        },
    }
    Notice { channel: command.key.clone(), message }
}

/// What follows the store's answer to a mutation.
pub open spec fn followup_of(command: CommandView, answer: Result<(), Seq<char>>) -> FollowupView {
    match answer {
        Err(reason) => FollowupView::Reply(refused(reason)),
        Ok(_) => FollowupView::Publish(notice_of(command)),
    }
}

/// The reply that the store's answer to the notification leads to.
pub open spec fn reply_of(answer: Result<(), Seq<char>>) -> ResponseView {
    match answer {
        Err(reason) => refused(reason),
        Ok(_) => completed(),
    }
}

/// Decides what follows a mutation: the notification is sent only where the
/// mutation succeeded; a failure is reported with the store's own text.
pub fn after_mutation(command: &Command, answer: Result<(), String>) -> (next: Followup)
    ensures
        next@ == followup_of(command@, outcome_view(answer)),
{
    match answer {
        Err(reason) => Followup::Reply(Response::error(reason)),
        Ok(_) => Followup::Publish(notice_for(command)),
    }
}

/// The reply once the notification was attempted: a failure to publish is
/// the error of the whole operation, though the mutation took place.
pub fn after_publish(answer: Result<(), String>) -> (response: Response)
    ensures
        response@ == reply_of(outcome_view(answer)),
{
    match answer {
        Err(reason) => Response::error(reason),
        Ok(_) => Response::ok(),
    }
}

} // verus!
