//! Reply routing: where a notice produced for an incoming command is
//! to be sent, and the errors a command can answer with.

use vstd::prelude::*;
use crate::text::{spec_dec, u64_to_string};

verus! {

/// A usage mistake by the sender of a command.  Never fatal; it is
/// answered with a notice carrying [`UserError::message`].
#[derive(Clone, Copy, PartialEq, Eq, Debug)]
pub enum UserError {
    /// A poll specification that does not parse.
    PollUsage,
    /// A vote whose argument is not a number.
    VoteUsage,
    /// A vote or an end command while no poll occupies the slot.
    NoPollRunning,
    /// A vote outside `1..=num_answers`.
    OutOfRange { num_answers: u64 },
    /// A channel reply requested from a direct-message context.
    NoChannel,
}

/// The reply text for each user error.
pub open spec fn spec_message(e: UserError) -> Seq<char> {
    match e {
        UserError::PollUsage => "usage: poll <minutes>|<question>|<answer 1>|<answer 2> ..."@,
        UserError::VoteUsage => "usage: vote <number>"@,
        UserError::NoPollRunning => "no poll running"@,
        UserError::OutOfRange { num_answers } => "choose a number between 1 and "@ + spec_dec(
            num_answers as nat,
        ),
        UserError::NoChannel => "cannot address channel from a direct message"@,
    }
}

impl UserError {
    /// The notice text to answer with.
    pub fn message(&self) -> (r: String)
        ensures
            r@ == spec_message(*self),
    {
        match self {
            UserError::PollUsage => "usage: poll <minutes>|<question>|<answer 1>|<answer 2> ...".to_owned(),
            UserError::VoteUsage => "usage: vote <number>".to_owned(),
            UserError::NoPollRunning => "no poll running".to_owned(),
            UserError::OutOfRange { num_answers } => {
                let mut m = "choose a number between 1 and ".to_owned();
                let n = u64_to_string(*num_answers);
                m.append(n.as_str());
                m
            },
            UserError::NoChannel => "cannot address channel from a direct message".to_owned(),
        }
    }
}

/// One notice to send: either to a channel or privately to a user.
#[derive(Debug, PartialEq, Eq)]
pub enum Directive {
    Channel { channel: String, text: String },
    Private { nick: String, text: String },
}

/// The mathematical value of a [`Directive`].
#[verifier::ext_equal]
pub enum DirectiveView {
    Channel { channel: Seq<char>, text: Seq<char> },
    Private { nick: Seq<char>, text: Seq<char> },
}

impl View for Directive {
    type V = DirectiveView;

    open spec fn view(&self) -> DirectiveView {
        match self {
            Directive::Channel { channel, text } => DirectiveView::Channel {
                channel: channel@,
                text: text@,
            },
            Directive::Private { nick, text } => DirectiveView::Private {
                nick: nick@,
                text: text@,
            },
        }
    }
}

/// Where the normal reply route of a context sends a text: to the
/// bound channel, else privately to the sender.
pub open spec fn spec_reply_route(ctx: ContextView, text: Seq<char>) -> DirectiveView {
    match ctx.channel {
        Some(c) => DirectiveView::Channel { channel: c, text: text },
        None => DirectiveView::Private { nick: ctx.sender, text: text },
    }
}

/// The origin of an incoming command: the sending user, and the
/// channel it arrived on, if any.  It decides where replies go.
pub struct MessageContext {
    sender: String,
    channel: Option<String>,
}

/// The mathematical value of a [`MessageContext`].
#[verifier::ext_equal]
pub struct ContextView {
    pub sender: Seq<char>,
    pub channel: Option<Seq<char>>,
}

impl View for MessageContext {
    type V = ContextView;

    closed spec fn view(&self) -> ContextView {
        ContextView {
            sender: self.sender@,
            channel: match &self.channel {
                Some(c) => Some(c@),
                None => None,
            },
        }
    }
}

impl MessageContext {
    /// Binds a context to its originating sender and channel.
    pub fn new(sender: String, channel: Option<String>) -> (r: MessageContext)
        ensures
            r@.sender == sender@,
            r@.channel == match channel {
                Some(c) => Some(c@),
                None => None::<Seq<char>>,
            },
    {
        MessageContext { sender, channel }
    }

    /// The normal reply route: the channel when one is bound, else a
    /// private notice to the sender.
    pub fn reply(&self, text: &str) -> (r: Directive)
        ensures
            r@ == spec_reply_route(self@, text@),
    {
        match &self.channel {
            Some(c) => Directive::Channel { channel: c.clone(), text: text.to_owned() },
            None => Directive::Private { nick: self.sender.clone(), text: text.to_owned() },
        }
    }

    /// A reply that must go to the channel; fails when the context is
    /// a direct message.
    pub fn channel_reply(&self, text: &str) -> (r: Result<Directive, UserError>)
        ensures
            match r {
                Ok(d) => self@.channel is Some && d@ == (DirectiveView::Channel {
                    channel: self@.channel->0,
                    text: text@,
                }),
                Err(e) => self@.channel is None && e == UserError::NoChannel,
            },
    {
        match &self.channel {
            Some(c) => Ok(Directive::Channel { channel: c.clone(), text: text.to_owned() }),
            None => Err(UserError::NoChannel),
        }
    }

    /// A reply sent privately to the sender, whatever the binding.
    pub fn private_reply(&self, text: &str) -> (r: Directive)
        ensures
            r@ == (DirectiveView::Private { nick: self@.sender, text: text@ }),
    {
        Directive::Private { nick: self.sender.clone(), text: text.to_owned() }
    }

    /// True exactly when no channel is bound.
    pub fn is_private(&self) -> (r: bool)
        ensures
            r == (self@.channel is None),
    {
        match &self.channel {
            Some(_) => false,
            None => true,
        }
    }
}

} // verus!
