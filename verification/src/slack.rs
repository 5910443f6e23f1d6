//! The shapes that travel between the core and the Slack transport: the
//! decoded slash-command form, and the response rendered back, either
//! visible to the whole channel or only to the caller.

use vstd::prelude::*;
use vstd::string::StringExecFns;

use crate::token::{User, slack_mention};

verus! {

pub type TeamId = String;

pub type ChannelId = String;

pub type UserId = String;

pub type UserName = String;

/// The fields of one inbound slash command, already decoded from the
/// form-encoded request by the transport layer.
pub struct SlashCommandData {
    pub token: String,
    pub team_id: TeamId,
    pub team_domain: String,
    pub channel_id: ChannelId,
    pub channel_name: String,
    pub user_id: UserId,
    pub user_name: UserName,
    pub command: String,
    pub text: String,
    pub response_url: String,
}

/// Whether a response is shown to the whole channel or only to the
/// caller.
#[derive(Debug, Copy, Clone, PartialEq, Eq)]
pub enum ResponseType {
    Ephemeral,
    InChannel,
}

/// One attachment of a response: a block of text.
pub struct SlackAttachment {
    text: String,
}

impl SlackAttachment {
    /// The attachment's text.
    pub closed spec fn spec_text(&self) -> Seq<char> {
        self.text@
    }

    pub fn text(&self) -> (r: &String)
        ensures
            r@ == self.spec_text(),
    {
        &self.text
    }
}

/// A response to one slash command: its visibility, an optional leading
/// text, and the attachments below it.
pub struct SlackResponse {
    response_type: ResponseType,
    text: Option<String>,
    attachments: Vec<SlackAttachment>,
}

impl SlackResponse {
    /// The response's visibility.
    pub closed spec fn spec_response_type(&self) -> ResponseType {
        self.response_type
    }

    /// The leading text, if any.
    pub closed spec fn spec_text(&self) -> Option<Seq<char>> {
        match self.text {
            Some(s) => Some(s@),
            None => None,
        }
    }

    /// The attachments, in order.
    pub closed spec fn spec_attachments(&self) -> Seq<SlackAttachment> {
        self.attachments@
    }

    pub fn response_type(&self) -> (r: ResponseType)
        ensures
            r == self.spec_response_type(),
    {
        self.response_type
    }

    pub fn text(&self) -> (r: &Option<String>)
        ensures
            r is Some <==> self.spec_text() is Some,
            r matches Some(s) ==> self.spec_text() == Some(s@),
    {
        &self.text
    }

    pub fn attachments(&self) -> (r: &Vec<SlackAttachment>)
        ensures
            r@ == self.spec_attachments(),
    {
        &self.attachments
    }

    /// A response shown only to the caller, with the given text and no
    /// attachments.
    pub fn ephemeral_text(text: &str) -> (r: SlackResponse)
        ensures
            r.spec_response_type() == ResponseType::Ephemeral,
            r.spec_text() == Some(text@),
            r.spec_attachments() == Seq::<SlackAttachment>::empty(),
    {
        SlackResponse {
            response_type: ResponseType::Ephemeral,
            text: Some(text.to_owned()),
            attachments: Vec::new(),
        }
    }

    /// A response shown to the whole channel, with the given text and no
    /// attachments.
    pub fn inchannel_text(text: &str) -> (r: SlackResponse)
        ensures
            r.spec_response_type() == ResponseType::InChannel,
            r.spec_text() == Some(text@),
            r.spec_attachments() == Seq::<SlackAttachment>::empty(),
    {
        SlackResponse {
            response_type: ResponseType::InChannel,
            text: Some(text.to_owned()),
            attachments: Vec::new(),
        }
    }
}

/// The help text shown when the command word is not recognized.
pub open spec fn help_text() -> Seq<char> {
    "\nToken manager. Use `/token get` to take hold of the token.\nOther commands available:\n\u{2022} `/token get` adds yourself to the queue\n\u{2022} `/token drop` removes yourself from the queue\n"@
}

/// A caller-only response carrying the help text as its sole attachment.
pub fn send_help() -> (r: SlackResponse)
    ensures
        r.spec_response_type() == ResponseType::Ephemeral,
        r.spec_text() is None,
        r.spec_attachments().len() == 1,
        r.spec_attachments()[0].spec_text() == help_text(),
{
    let text = String::from_str(
        "\nToken manager. Use `/token get` to take hold of the token.\nOther commands available:\n\u{2022} `/token get` adds yourself to the queue\n\u{2022} `/token drop` removes yourself from the queue\n",
    );
    let mut attachments: Vec<SlackAttachment> = Vec::new();
    attachments.push(SlackAttachment { text });
    SlackResponse { response_type: ResponseType::Ephemeral, text: None, attachments }
}

/// The items rendered one per line, each as a blue-circle bullet followed
/// by the user's mention, in order.
pub open spec fn rendered_list(items: Seq<User>) -> Seq<char>
    decreases items.len(),
{
    if items.len() == 0 {
        Seq::empty()
    } else {
        rendered_list(items.drop_last()) + ":large_blue_circle: "@ + slack_mention(items.last())
            + "\n"@
    }
}

/// Formats a list of users into a channel-visible response: the optional
/// leading text, and one attachment holding every user as a bullet line.
pub fn format_list(text: Option<String>, items: &Vec<User>) -> (r: SlackResponse)
    ensures
        r.spec_response_type() == ResponseType::InChannel,
        r.spec_text() == match text {
            Some(t) => Some(t@),
            None => None::<Seq<char>>,
        },
        r.spec_attachments().len() == 1,
        r.spec_attachments()[0].spec_text() == rendered_list(items@),
{
    let n = items.len();
    let mut string = String::new();
    let mut i: usize = 0;
    while i < n
        invariant
            n == items@.len(),
            i <= n,
            string@ == rendered_list(items@.subrange(0, i as int)),
        decreases n - i,
    {
        string.append(":large_blue_circle: ");
        let mention = items[i].as_slack_str();
        string.append(mention.as_str());
        string.append("\n");
        proof {
            let part = items@.subrange(0, i as int + 1);
            assert(part.drop_last() =~= items@.subrange(0, i as int));
            assert(part.last() == items@[i as int]);
            assert(string@ =~= rendered_list(part));
        }
        i = i + 1;
    }
    proof {
        assert(items@.subrange(0, n as int) =~= items@);
    }
    let attachment = SlackAttachment { text: string };
    let mut attachments: Vec<SlackAttachment> = Vec::new();
    attachments.push(attachment);
    SlackResponse { response_type: ResponseType::InChannel, text, attachments }
}

/// Checks the inbound command's team and command text. Both checks accept
/// everything today, so validation always succeeds.
pub fn validate_command(command: &SlashCommandData) -> (r: Result<(), &'static str>)
    ensures
        r is Ok,
{
    if !valid_team(command.team_id.as_str()) {
        return Err("invalid team");
    }
    if !valid_command(command.command.as_str()) {
        return Err("invalid command");
    }
    Ok(())
}

fn valid_team(_team: &str) -> (r: bool)
    ensures
        r,
{
    true
}

fn valid_command(_command: &str) -> (r: bool)
    ensures
        r,
{
    true
}

} // verus!
