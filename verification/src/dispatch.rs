//! The work behind the two routes: the greeting, and the slash-command
//! handler's core — authenticate, parse the command word, resolve the
//! channel's queue, run the command under that queue's own lock, and
//! render the response. The transport layer only decodes the request into
//! a [`SlashCommandData`] and serializes the [`SlackResponse`] back.

use vstd::prelude::*;
use vstd::string::StringExecFns;

use crate::commands::{Commands, spec_parse};
use crate::config::CommandConfig;
use crate::registry::Tokens;
use crate::slack::{
    ResponseType, SlackResponse, SlashCommandData, help_text, rendered_list, send_help,
};
use crate::token::{
    QueueError, Token, User, slack_mention, spec_drop, spec_get, spec_message, spec_step_back,
    spec_steal, spec_to_front, unique_ids,
};

verus! {

/// The greeting served at the root path.
pub fn index() -> (r: &'static str)
    ensures
        r@ == "Hello, World!"@,
{
    "Hello, World!"
}

/// How one command changes the queue: the outcome — success or the domain
/// error — and the state the queue is left in. A failing command leaves
/// the queue unchanged. Pure in (state, command, user): the same inputs
/// always give the same outcome.
pub open spec fn spec_apply(s: Seq<User>, cmd: Commands, u: User) -> (Result<(), QueueError>, Seq<
    User,
>) {
    match cmd {
        Commands::List => (Ok(()), s),
        Commands::Get => spec_get(s, u),
        Commands::Drop => spec_drop(s, u.id()),
        Commands::AfterYou => spec_step_back(s, u.id()),
        Commands::Barge => spec_to_front(s, u.id()),
        Commands::Steal => (
            match spec_steal(s, u.id()).0 {
                Ok(_) => Ok(()),
                Err(e) => Err(e),
            },
            spec_steal(s, u.id()).1,
        ),
    }
}

/// The message announcing a successful command beside the refreshed line,
/// or `None` for the commands announced silently.
pub open spec fn spec_announcement(cmd: Commands, u: User) -> Option<Seq<char>> {
    match cmd {
        Commands::List => None,
        Commands::Get => Some(slack_mention(u) + " joined the queue"@),
        Commands::Drop => Some(slack_mention(u) + " dropped the token"@),
        Commands::AfterYou => None,
        Commands::Barge => Some(slack_mention(u) + " barged to the front!"@),
        Commands::Steal => Some(slack_mention(u) + " stole the token!"@),
    }
}

/// Runs one command against the queue, while the caller holds the queue's
/// lock exclusively: mutates the queue as the command demands and returns
/// the announcement to show, or the domain error, with the queue left
/// unchanged.
pub fn apply(token: &mut Token, cmd: Commands, user: &User) -> (r: Result<
    Option<String>,
    QueueError,
>)
    requires
        old(token).wf(),
    ensures
        final(token).wf(),
        final(token)@ == spec_apply(old(token)@, cmd, *user).1,
        match r {
            Ok(msg) => {
                &&& spec_apply(old(token)@, cmd, *user).0 is Ok
                &&& match msg {
                    Some(m) => spec_announcement(cmd, *user) == Some(m@),
                    None => spec_announcement(cmd, *user) is None,
                }
            },
            Err(e) => spec_apply(old(token)@, cmd, *user).0 == Err::<(), QueueError>(e),
        },
{
    match cmd {
        Commands::List => Ok(None),
        Commands::Get => match token.get(user.clone()) {
            Ok(_) => {
                let mut m = user.as_slack_str();
                m.append(" joined the queue");
                Ok(Some(m))
            },
            Err(e) => Err(e),
        },
        Commands::Drop => match token.drop(user) {
            Ok(_) => {
                let mut m = user.as_slack_str();
                m.append(" dropped the token");
                Ok(Some(m))
            },
            Err(e) => Err(e),
        },
        Commands::AfterYou => match token.step_back(user) {
            Ok(_) => Ok(None),
            Err(e) => Err(e),
        },
        Commands::Barge => match token.to_front(user) {
            Ok(_) => {
                let mut m = user.as_slack_str();
                m.append(" barged to the front!");
                Ok(Some(m))
            },
            Err(e) => Err(e),
        },
        Commands::Steal => match token.steal(user) {
            Ok(_displaced) => {
                let mut m = user.as_slack_str();
                m.append(" stole the token!");
                Ok(Some(m))
            },
            Err(e) => Err(e),
        },
    }
}

/// The view of an optional owned text.
pub open spec fn opt_view(text: Option<String>) -> Option<Seq<char>> {
    match text {
        Some(t) => Some(t@),
        None => None,
    }
}

/// Whether `resp` renders the line `q` preceded by the leading `text`: a
/// channel-visible response whose sole attachment lists the members as
/// bullet lines — or, when nobody is queued, no attachment and the fixed
/// notice appended to the leading text.
pub open spec fn renders_list(resp: SlackResponse, text: Option<Seq<char>>, q: Seq<User>) -> bool {
    &&& resp.spec_response_type() == ResponseType::InChannel
    &&& if q.len() == 0 {
        &&& resp.spec_attachments().len() == 0
        &&& resp.spec_text() == Some(
            match text {
                Some(t) => t + "\nNo one in the Token queue"@,
                None => "No one in the Token queue"@,
            },
        )
    } else {
        &&& resp.spec_attachments().len() == 1
        &&& resp.spec_attachments()[0].spec_text() == rendered_list(q)
        &&& resp.spec_text() == text
    }
}

/// What the handler's response says about the states it observed under the
/// queue's lock: there is a queue state `s` seen by the command and a
/// queue state `q` seen by the rendering (both duplicate-free) such that,
/// for the request's user, either the command failed on `s` and the
/// response carries exactly that error's message to the caller alone, or
/// it succeeded and the response renders `q` behind the command's
/// announcement.
pub open spec fn observed_outcome(
    resp: SlackResponse,
    cmd: Commands,
    user_id: Seq<char>,
    user_name: Seq<char>,
    s: Seq<User>,
    q: Seq<User>,
) -> bool {
    &&& unique_ids(s)
    &&& unique_ids(q)
    &&& forall|u: User|
        u.id() == user_id && u.name() == user_name ==> match spec_apply(s, cmd, u).0 {
            Err(e) => {
                &&& resp.spec_response_type() == ResponseType::Ephemeral
                &&& resp.spec_text() == Some(spec_message(e))
                &&& resp.spec_attachments().len() == 0
            },
            Ok(_) => renders_list(resp, spec_announcement(cmd, u), q),
        }
}

/// Renders the channel's current line: the optional leading text and the
/// members as bullet lines, or a fixed notice when nobody is queued.
pub fn format_list(text: Option<String>, token: &Token) -> (r: SlackResponse)
    ensures
        renders_list(r, opt_view(text), token@),
{
    if token.len() == 0 {
        match text {
            Some(t) => {
                let mut m = t;
                m.append("\nNo one in the Token queue");
                SlackResponse::inchannel_text(m.as_str())
            },
            None => SlackResponse::inchannel_text("No one in the Token queue"),
        }
    } else {
        let items = token.iter();
        crate::slack::format_list(text, &items)
    }
}

/// The slash-command handler: rejects a request whose secret does not
/// match the configuration, and otherwise parses the command word, runs
/// it against the queue for the request's channel key, and renders the
/// response — the refreshed line with the announcement on success, the
/// domain error as a caller-only message, or the help text for an
/// unrecognized command.
pub fn slack(config: &CommandConfig, tokens: &Tokens, slash: &SlashCommandData) -> (r: Result<
    SlackResponse,
    &'static str,
>)
    ensures
        r is Err <==> slash.token@ != config.token@,
        slash.token@ == config.token@ && spec_parse(slash.text@) is None ==> (r matches Ok(resp)
            && resp.spec_response_type() == ResponseType::Ephemeral && resp.spec_text() is None
            && resp.spec_attachments().len() == 1 && resp.spec_attachments()[0].spec_text()
            == help_text()),
        slash.token@ == config.token@ ==> (spec_parse(slash.text@) matches Some(cmd) ==> (r matches
            Ok(resp) && exists|s: Seq<User>, q: Seq<User>|
            observed_outcome(resp, cmd, slash.user_id@, slash.user_name@, s, q))),
{
    if !config.token_matches(&slash.token) {
        return Err("token mismatch");
    }
    match crate::slack::validate_command(slash) {
        Err(e) => {
            return Err(e);
        },
        Ok(_) => {},
    }
    let command = Commands::parse(slash.text.as_str());
    let user = User::new(slash.user_id.clone(), slash.user_name.clone());
    let token_ref = tokens.resolve(&slash.team_id, &slash.channel_id);
    match command {
        None => Ok(send_help()),
        Some(Commands::List) => {
            let read = token_ref.acquire_read();
            let line = read.borrow();
            let ghost q = line@;
            let resp = format_list(None, line);
            read.release_read();
            proof {
                assert(observed_outcome(resp, Commands::List, slash.user_id@, slash.user_name@, q, q));
            }
            Ok(resp)
        },
        Some(cmd) => {
            let (mut t, write_handle) = token_ref.acquire_write();
            let ghost s = t@;
            let res = apply(&mut t, cmd, &user);
            write_handle.release_write(t);
            match res {
                Err(e) => {
                    let resp = SlackResponse::ephemeral_text(e.message());
                    proof {
                        assert(observed_outcome(resp, cmd, slash.user_id@, slash.user_name@, s, s));
                    }
                    Ok(resp)
                },
                Ok(msg) => {
                    let read = token_ref.acquire_read();
                    let line = read.borrow();
                    let ghost q = line@;
                    let resp = format_list(msg, line);
                    read.release_read();
                    proof {
                        assert(observed_outcome(resp, cmd, slash.user_id@, slash.user_name@, s, q));
                    }
                    Ok(resp)
                },
            }
        },
    }
}

} // verus!
