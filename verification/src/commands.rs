//! The command behaviors. Each one is a function from plain values —
//! parsed parameters, the invoking identity, and the outcomes of any
//! outside calls — to the structured reply it produces. Behaviors never
//! raise: bad arguments and collaborator failures become explanatory
//! reply text.

use vstd::prelude::*;
use vstd::string::*;

use crate::api::LookupOutcome;
use crate::channels::ChannelSet;
use crate::commandhandler::{lookup_spec, CommandHandler};
use crate::text::{
    comma_joined, dec_digits, i32_to_text, int_text, lower_of, param_at, param_str, parse_i32,
    parse_i32_spec, str_eq, to_lower, u64_to_text,
};
use crate::timestamp::{format_timestamp, timestamp_text, MAX_RENDERED_TIMESTAMP};
use crate::types::{CommandResponse, PermissionLevel, UserContext};

verus! {

/// One invocable command's registry metadata.
pub struct Command {
    /// The description the help behavior reports.
    pub about: String,
    /// Minimum level an identity needs to invoke the command.
    pub permission_needed: PermissionLevel,
    /// Per-identity cooldown after a successful invocation, in seconds.
    pub user_cooldown: u64,
}

impl Command {
    pub fn new(about: String, permission_needed: PermissionLevel, user_cooldown: u64) -> (c:
        Command)
        ensures
            c.about == about,
            c.permission_needed == permission_needed,
            c.user_cooldown == user_cooldown,
    {
        Command { about, permission_needed, user_cooldown }
    }
}

/// The behavior a command name routes to. A registry row whose name
/// matches no known behavior produces no output.
pub enum CommandKind {
    Help,
    Ping,
    Bot,
    Greeting,
    Expensive,
    SetPermissions,
    Join,
    Leave,
    Uid,
    Say,
    LastMessage,
    Unrecognized,
}

pub open spec fn kind_of(name: Seq<char>) -> CommandKind {
    if name == "help"@ {
        CommandKind::Help
    } else if name == "ping"@ {
        CommandKind::Ping
    } else if name == "bot"@ {
        CommandKind::Bot
    } else if name == "greeting"@ {
        CommandKind::Greeting
    } else if name == "expensive"@ {
        CommandKind::Expensive
    } else if name == "setpermissions"@ {
        CommandKind::SetPermissions
    } else if name == "join"@ {
        CommandKind::Join
    } else if name == "leave"@ {
        CommandKind::Leave
    } else if name == "uid"@ {
        CommandKind::Uid
    } else if name == "say"@ {
        CommandKind::Say
    } else if name == "lastmessage"@ {
        CommandKind::LastMessage
    } else {
        CommandKind::Unrecognized
    }
}

/// Routes a command name to its behavior, by exact match.
pub fn command_kind(name: &str) -> (k: CommandKind)
    ensures
        k == kind_of(name@),
{
    if str_eq(name, "help") {
        CommandKind::Help
    } else if str_eq(name, "ping") {
        CommandKind::Ping
    } else if str_eq(name, "bot") {
        CommandKind::Bot
    } else if str_eq(name, "greeting") {
        CommandKind::Greeting
    } else if str_eq(name, "expensive") {
        CommandKind::Expensive
    } else if str_eq(name, "setpermissions") {
        CommandKind::SetPermissions
    } else if str_eq(name, "join") {
        CommandKind::Join
    } else if str_eq(name, "leave") {
        CommandKind::Leave
    } else if str_eq(name, "uid") {
        CommandKind::Uid
    } else if str_eq(name, "say") {
        CommandKind::Say
    } else if str_eq(name, "lastmessage") {
        CommandKind::LastMessage
    } else {
        CommandKind::Unrecognized
    }
}

/// The names of all registry entries, in registry order.
pub open spec fn registry_names(registry: Seq<(String, Command)>) -> Seq<Seq<char>> {
    registry.map_values(|e: (String, Command)| e.0@)
}

/// What the help behavior replies: a single command's description when a
/// target is given, the comma-joined catalog of names otherwise.
pub open spec fn help_text(registry: Seq<(String, Command)>, target_raw: Seq<char>) -> Seq<char> {
    let target = lower_of(target_raw);
    if target.len() != 0 {
        match lookup_spec(registry, target) {
            Some(cmd) => "&"@ + target + ": "@ + cmd.about@,
            None => "Sorry, I don't know that command"@,
        }
    } else if registry.len() == 0 {
        "List of available commands"@
    } else {
        "List of available commands: "@ + comma_joined(registry_names(registry))
    }
}

/// Describes a command, or enumerates all of them. No side effects.
pub fn help(handler: &CommandHandler, params: &Vec<String>) -> (r: CommandResponse)
    ensures
        r.response@ == help_text(handler.command_list@, param_at(params.deep_view(), 0)),
        !r.questionable_output,
{
    let target = to_lower(param_str(params, 0));
    if !target.as_str().is_empty() {
        match handler.find(&target) {
            Some(cmd) => {
                let mut response = String::from_str("&");
                response.append(target.as_str());
                response.append(": ");
                response.append(cmd.about.as_str());
                CommandResponse { response, questionable_output: false }
            },
            None => CommandResponse {
                response: String::from_str("Sorry, I don't know that command"),
                questionable_output: false,
            },
        }
    } else {
        let n = handler.command_list.len();
        if n == 0 {
            CommandResponse {
                response: String::from_str("List of available commands"),
                questionable_output: false,
            }
        } else {
            let ghost names = registry_names(handler.command_list@);
            let mut response = String::from_str("List of available commands: ");
            let mut i: usize = 0;
            while i < n
                invariant
                    i <= n == handler.command_list@.len(),
                    names == registry_names(handler.command_list@),
                    names.len() == n,
                    response@ == "List of available commands: "@ + comma_joined(
                        names.take(i as int),
                    ),
                decreases n - i,
            {
                proof {
                    assert(names.take(i + 1).drop_last() =~= names.take(i as int));
                    assert(names.take(i + 1).last() == names[i as int]);
                    assert(names[i as int] == handler.command_list@[i as int].0@);
                }
                if i > 0 {
                    response.append(", ");
                }
                let entry = &handler.command_list[i];
                response.append(entry.0.as_str());
                proof {
                    if i == 0 {
                        assert(comma_joined(names.take(1)) == names[0]);
                        assert(response@ =~= "List of available commands: "@ + comma_joined(
                            names.take(1),
                        ));
                    } else {
                        assert(comma_joined(names.take(i + 1)) == comma_joined(names.take(i as int))
                            + ", "@ + names[i as int]);
                        assert(response@ =~= "List of available commands: "@ + comma_joined(
                            names.take(i + 1),
                        ));
                    }
                }
                i += 1;
            }
            proof {
                assert(names.take(n as int) =~= names);
            }
            CommandResponse { response, questionable_output: false }
        }
    }
}

/// What the ping behavior replies for a given uptime: the elapsed seconds
/// decomposed greedily into whole days, then hours, then minutes, then
/// seconds.
pub open spec fn uptime_text(total: nat) -> Seq<char> {
    "Pong! Uptime: "@ + dec_digits(total / 86400) + "d, "@ + dec_digits((total % 86400) / 3600)
        + "h, "@ + dec_digits((total % 3600) / 60) + "m, "@ + dec_digits(total % 60) + "s"@
}

/// Reports how long the process has been running, given the elapsed
/// seconds since start.
pub fn ping(elapsed_seconds: u64) -> (r: CommandResponse)
    ensures
        r.response@ == uptime_text(elapsed_seconds as nat),
        !r.questionable_output,
{
    let days = elapsed_seconds / 86400;
    let hours = (elapsed_seconds % 86400) / 3600;
    let minutes = (elapsed_seconds % 3600) / 60;
    let seconds = elapsed_seconds % 60;
    let mut response = String::from_str("Pong! Uptime: ");
    let days_text = u64_to_text(days);
    response.append(days_text.as_str());
    response.append("d, ");
    let hours_text = u64_to_text(hours);
    response.append(hours_text.as_str());
    response.append("h, ");
    let minutes_text = u64_to_text(minutes);
    response.append(minutes_text.as_str());
    response.append("m, ");
    let seconds_text = u64_to_text(seconds);
    response.append(seconds_text.as_str());
    response.append("s");
    CommandResponse { response, questionable_output: false }
}

/// A fixed description of the bot itself.
pub fn bot(_user_context: &UserContext) -> (r: CommandResponse)
    ensures
        r.response@ == "Bot made my 1xelerate. Written in Rust with Tokio, Postgresql, and Rander's Twitch IRC library."@,
        !r.questionable_output,
{
    CommandResponse {
        response: String::from_str(
            "Bot made my 1xelerate. Written in Rust with Tokio, Postgresql, and Rander's Twitch IRC library.",
        ),
        questionable_output: false,
    }
}

/// What the greeting behavior replies for each level.
pub open spec fn greeting_text(level: PermissionLevel) -> Seq<char> {
    match level {
        PermissionLevel::Superuser => "Greetings superuser"@,
        PermissionLevel::Moderator => "Hello moderator"@,
        PermissionLevel::User => "What's good"@,
    }
}

/// Greets the invoking identity according to its level.
pub fn greeting(user_context: &UserContext) -> (r: CommandResponse)
    ensures
        r.response@ == greeting_text(user_context.permissions),
        !r.questionable_output,
{
    let response = match user_context.permissions {
        PermissionLevel::Superuser => String::from_str("Greetings superuser"),
        PermissionLevel::Moderator => String::from_str("Hello moderator"),
        PermissionLevel::User => String::from_str("What's good"),
    };
    CommandResponse { response, questionable_output: false }
}

/// The reply of the deliberately slow test behavior; the delay itself is
/// the caller's, the reply is fixed.
pub fn expensive(_user_context: &UserContext) -> (r: CommandResponse)
    ensures
        r.response@ == "Test expensive command finished"@,
        !r.questionable_output,
{
    CommandResponse {
        response: String::from_str("Test expensive command finished"),
        questionable_output: false,
    }
}

/// What the say behavior echoes: every parameter followed by one space.
pub open spec fn say_text(params: Seq<Seq<char>>) -> Seq<char>
    decreases params.len(),
{
    if params.len() == 0 {
        Seq::empty()
    } else {
        say_text(params.drop_last()) + params.last() + " "@
    }
}

/// Echoes the parameters verbatim. The reply embeds user-supplied content,
/// so it is marked questionable and goes through moderation screening.
pub fn say(params: &Vec<String>) -> (r: CommandResponse)
    ensures
        r.response@ == say_text(params.deep_view()),
        r.questionable_output,
{
    let n = params.len();
    let mut phrase = String::new();
    let mut i: usize = 0;
    while i < n
        invariant
            i <= n == params@.len(),
            phrase@ == say_text(params.deep_view().take(i as int)),
        decreases n - i,
    {
        proof {
            assert(params.deep_view().take(i + 1).drop_last() =~= params.deep_view().take(
                i as int,
            ));
            assert(params.deep_view().take(i + 1).last() == params.deep_view()[i as int]);
        }
        phrase.append(params[i].as_str());
        phrase.append(" ");
        proof {
            assert(phrase@ =~= say_text(params.deep_view().take(i + 1)));
        }
        i += 1;
    }
    proof {
        assert(params.deep_view().take(n as int) =~= params.deep_view());
    }
    CommandResponse { response: phrase, questionable_output: true }
}

/// A permission update the store should perform, or the reply that rejects
/// the request before any store access.
pub enum SetPermissionsStep {
    Reject { response: CommandResponse },
    Update { login: String, value: i32 },
}

/// Whether a raw parameter is an acceptable new permission number: it must
/// parse as an integer other than the sentinel `-1`.
pub open spec fn set_value_ok(raw: Seq<char>) -> bool {
    parse_i32_spec(raw) matches Some(v) && v != -1
}

/// The new permission number a raw parameter denotes; meaningful only when
/// [`set_value_ok`] holds.
pub open spec fn set_value_of(raw: Seq<char>) -> i32 {
    parse_i32_spec(raw)->0
}

/// Validates the arguments of a permission change: a target login and an
/// integer value. Nothing is mutated here; on success the caller performs
/// the store update and reports its outcome to
/// [`setpermissions_result`].
pub fn setpermissions_request(params: &Vec<String>) -> (r: SetPermissionsStep)
    ensures
        lower_of(param_at(params.deep_view(), 0)).len() == 0 ==> (r
            matches SetPermissionsStep::Reject { response }
            && response.response@ == "Please provide a username after the set command!"@
            && !response.questionable_output),
        lower_of(param_at(params.deep_view(), 0)).len() != 0 && !set_value_ok(
            param_at(params.deep_view(), 1),
        ) ==> (r matches SetPermissionsStep::Reject { response } && response.response@
            == "Error parsing value to be set, please give an integer after the username!"@
            && !response.questionable_output),
        lower_of(param_at(params.deep_view(), 0)).len() != 0 && set_value_ok(
            param_at(params.deep_view(), 1),
        ) ==> (r matches SetPermissionsStep::Update { login, value } && login@ == lower_of(
            param_at(params.deep_view(), 0),
        ) && value == set_value_of(param_at(params.deep_view(), 1))),
{
    let target_user = to_lower(param_str(params, 0));
    if target_user.as_str().is_empty() {
        return SetPermissionsStep::Reject {
            response: CommandResponse {
                response: String::from_str("Please provide a username after the set command!"),
                questionable_output: false,
            },
        };
    }
    let parsed = parse_i32(param_str(params, 1));
    let target_value: i32 = match parsed {
        Some(v) => v,
        None => -1,
    };
    if target_value == -1 {
        return SetPermissionsStep::Reject {
            response: CommandResponse {
                response: String::from_str(
                    "Error parsing value to be set, please give an integer after the username!",
                ),
                questionable_output: false,
            },
        };
    }
    SetPermissionsStep::Update { login: target_user, value: target_value }
}

/// The outcome of the store's permission-column update, as the caller
/// hands it back.
pub enum StoreUpdateOutcome {
    /// The update ran; `rows` rows matched the target login.
    RowsAffected { rows: u64 },
    /// The store failed; the detail is logged by the caller, not echoed.
    StoreError,
}

pub open spec fn set_success_text(login: Seq<char>, value: int) -> Seq<char> {
    "Succesfully set "@ + login + "'s permissions column to "@ + int_text(value)
}

pub open spec fn set_failure_text(value: int) -> Seq<char> {
    "Error setting column permissions to value "@ + int_text(value)
}

/// The reply a permission update earns: zero affected rows means the
/// target login is unknown, a store error is reported without detail.
pub fn setpermissions_result(login: &String, value: i32, outcome: &StoreUpdateOutcome) -> (r:
    CommandResponse)
    ensures
        (outcome matches StoreUpdateOutcome::RowsAffected { rows } && rows == 0) ==> r.response@
            == "Sorry, that user wasn't found in my database!"@,
        (outcome matches StoreUpdateOutcome::RowsAffected { rows } && rows > 0) ==> r.response@
            == set_success_text(login@, value as int),
        outcome is StoreError ==> r.response@ == set_failure_text(value as int),
        !r.questionable_output,
{
    match outcome {
        StoreUpdateOutcome::RowsAffected { rows } => {
            if *rows == 0 {
                CommandResponse {
                    response: String::from_str("Sorry, that user wasn't found in my database!"),
                    questionable_output: false,
                }
            } else {
                let mut response = String::from_str("Succesfully set ");
                response.append(login.as_str());
                response.append("'s permissions column to ");
                let value_text = i32_to_text(value);
                response.append(value_text.as_str());
                CommandResponse { response, questionable_output: false }
            }
        },
        StoreUpdateOutcome::StoreError => {
            let mut response = String::from_str("Error setting column permissions to value ");
            let value_text = i32_to_text(value);
            response.append(value_text.as_str());
            CommandResponse { response, questionable_output: false }
        },
    }
}

/// A channel action to carry on with, or the reply that rejects it.
pub enum ChannelActionStep {
    Reject { response: CommandResponse },
    Proceed { channel: String },
}

/// Requires a non-empty channel argument for a join; on success the caller
/// verifies the channel against the identity service and hands the outcome
/// to [`join_verified`].
pub fn join_request(params: &Vec<String>) -> (r: ChannelActionStep)
    ensures
        lower_of(param_at(params.deep_view(), 0)).len() == 0 ==> (r
            matches ChannelActionStep::Reject { response } && response.response@
            == "Please provide a channel to join"@ && !response.questionable_output),
        lower_of(param_at(params.deep_view(), 0)).len() != 0 ==> (r
            matches ChannelActionStep::Proceed { channel } && channel@ == lower_of(
            param_at(params.deep_view(), 0),
        )),
{
    let target_channel = to_lower(param_str(params, 0));
    if target_channel.as_str().is_empty() {
        ChannelActionStep::Reject {
            response: CommandResponse {
                response: String::from_str("Please provide a channel to join"),
                questionable_output: false,
            },
        }
    } else {
        ChannelActionStep::Proceed { channel: target_channel }
    }
}

/// Gates a join on the identity lookup: only a channel the service knows
/// proceeds; an unreachable service aborts the join (fail closed).
pub fn join_verified(channel: String, outcome: &LookupOutcome) -> (r: ChannelActionStep)
    ensures
        (outcome matches LookupOutcome::Found { user }) ==> (r
            matches ChannelActionStep::Proceed { channel: c } && c == channel),
        outcome is NotFound ==> (r matches ChannelActionStep::Reject { response }
            && response.response@ == "Sorry, I couldn't find that channel"@
            && !response.questionable_output),
        outcome is Unreachable ==> (r matches ChannelActionStep::Reject { response }
            && response.response@
            == "Unable to verify if that channel exists, join aborted; Twitch API error"@
            && !response.questionable_output),
{
    match outcome {
        LookupOutcome::Found { user: _ } => ChannelActionStep::Proceed { channel },
        LookupOutcome::NotFound => ChannelActionStep::Reject {
            response: CommandResponse {
                response: String::from_str("Sorry, I couldn't find that channel"),
                questionable_output: false,
            },
        },
        LookupOutcome::Unreachable => ChannelActionStep::Reject {
            response: CommandResponse {
                response: String::from_str(
                    "Unable to verify if that channel exists, join aborted; Twitch API error",
                ),
                questionable_output: false,
            },
        },
    }
}

/// Adds the channel to the wanted set, atomically with the membership
/// check, and reports whether it was new; a channel already present is
/// reported as such and not announced again. The second component tells
/// the caller whether to push the updated set to the transport layer and
/// enqueue the join announcement.
pub fn join_channel(channels: &mut ChannelSet, channel: String) -> (r: (CommandResponse, bool))
    ensures
        final(channels)@ == old(channels)@.insert(channel@),
        r.1 == !old(channels)@.contains(channel@),
        r.1 ==> r.0.response@ == "Succesfully joined channel"@,
        !r.1 ==> r.0.response@ == "I've already joined that channel"@,
        !r.0.questionable_output,
{
    let was_new = channels.insert(channel);
    if was_new {
        (
            CommandResponse {
                response: String::from_str("Succesfully joined channel"),
                questionable_output: false,
            },
            true,
        )
    } else {
        (
            CommandResponse {
                response: String::from_str("I've already joined that channel"),
                questionable_output: false,
            },
            false,
        )
    }
}

/// Joining the same channel twice adds it exactly once: the first join
/// inserts it, the second finds it present and leaves the set unchanged.
pub proof fn lemma_join_exactly_once(channels: Set<Seq<char>>, channel: Seq<char>)
    ensures
        channels.insert(channel).contains(channel),
        channels.insert(channel).insert(channel) == channels.insert(channel),
{
    assert(channels.insert(channel).insert(channel) =~= channels.insert(channel));
}

/// Requires a non-empty channel argument for a leave. Leaving needs no
/// existence check against the identity service.
pub fn leave_request(params: &Vec<String>) -> (r: ChannelActionStep)
    ensures
        lower_of(param_at(params.deep_view(), 0)).len() == 0 ==> (r
            matches ChannelActionStep::Reject { response } && response.response@
            == "Please provide a channel to leave"@ && !response.questionable_output),
        lower_of(param_at(params.deep_view(), 0)).len() != 0 ==> (r
            matches ChannelActionStep::Proceed { channel } && channel@ == lower_of(
            param_at(params.deep_view(), 0),
        )),
{
    let target_channel = to_lower(param_str(params, 0));
    if target_channel.as_str().is_empty() {
        ChannelActionStep::Reject {
            response: CommandResponse {
                response: String::from_str("Please provide a channel to leave"),
                questionable_output: false,
            },
        }
    } else {
        ChannelActionStep::Proceed { channel: target_channel }
    }
}

/// Removes the channel from the wanted set, atomically with the membership
/// check; a channel not present is reported as such. The second component
/// tells the caller whether to push the updated set to the transport
/// layer.
pub fn leave_channel(channels: &mut ChannelSet, channel: &String) -> (r: (CommandResponse, bool))
    ensures
        final(channels)@ == old(channels)@.remove(channel@),
        r.1 == old(channels)@.contains(channel@),
        r.1 ==> r.0.response@ == "Succesfully left channel"@,
        !r.1 ==> r.0.response@ == "I'm not currently in that channel!"@,
        !r.0.questionable_output,
{
    let was_present = channels.remove(channel);
    if was_present {
        (
            CommandResponse {
                response: String::from_str("Succesfully left channel"),
                questionable_output: false,
            },
            true,
        )
    } else {
        (
            CommandResponse {
                response: String::from_str("I'm not currently in that channel!"),
                questionable_output: false,
            },
            false,
        )
    }
}

/// The invoking identity's own id, or the login to resolve remotely.
pub enum UidStep {
    Respond { response: CommandResponse },
    Lookup { login: String },
}

/// With no target, replies with the invoking identity's own id; otherwise
/// names the login the caller should resolve and hand to [`uid_result`].
pub fn uid_request(user_context: &UserContext, params: &Vec<String>) -> (r: UidStep)
    ensures
        lower_of(param_at(params.deep_view(), 0)).len() == 0 ==> (r matches UidStep::Respond {
            response,
        } && response.response@ == int_text(user_context.uid as int)
            && !response.questionable_output),
        lower_of(param_at(params.deep_view(), 0)).len() != 0 ==> (r matches UidStep::Lookup {
            login,
        } && login@ == lower_of(param_at(params.deep_view(), 0))),
{
    let target_user = to_lower(param_str(params, 0));
    if target_user.as_str().is_empty() {
        UidStep::Respond {
            response: CommandResponse {
                response: i32_to_text(user_context.uid),
                questionable_output: false,
            },
        }
    } else {
        UidStep::Lookup { login: target_user }
    }
}

/// The reply a remote id lookup earns: the id the service reported, or a
/// fixed message when the login is unknown or the service unreachable.
pub fn uid_result(outcome: &LookupOutcome) -> (r: CommandResponse)
    ensures
        outcome matches LookupOutcome::Found { user } ==> r.response@ == user.id@,
        outcome is NotFound ==> r.response@ == "Sorry, I couldn't find user"@,
        outcome is Unreachable ==> r.response@ == "Unable to fetch uid; Twitch API error"@,
        !r.questionable_output,
{
    match outcome {
        LookupOutcome::Found { user } => CommandResponse {
            response: user.id.clone(),
            questionable_output: false,
        },
        LookupOutcome::NotFound => CommandResponse {
            response: String::from_str("Sorry, I couldn't find user"),
            questionable_output: false,
        },
        LookupOutcome::Unreachable => CommandResponse {
            response: String::from_str("Unable to fetch uid; Twitch API error"),
            questionable_output: false,
        },
    }
}

/// Whose history to query, and in which channel.
pub struct LastMessageQuery {
    pub login: String,
    pub channel: String,
}

/// Fills in the history query's defaults: the target login defaults to the
/// invoking identity, the channel to the message's origin channel.
pub fn lastmessage_request(origin_channel: &str, user_context: &UserContext, params: &Vec<String>)
    -> (q: LastMessageQuery)
    ensures
        q.login@ == (if lower_of(param_at(params.deep_view(), 0)).len() == 0 {
            user_context.login@
        } else {
            lower_of(param_at(params.deep_view(), 0))
        }),
        q.channel@ == (if lower_of(param_at(params.deep_view(), 1)).len() == 0 {
            lower_of(origin_channel@)
        } else {
            lower_of(param_at(params.deep_view(), 1))
        }),
{
    let mut login = to_lower(param_str(params, 0));
    if login.as_str().is_empty() {
        login = user_context.login.clone();
    }
    let mut channel = to_lower(param_str(params, 1));
    if channel.as_str().is_empty() {
        channel = to_lower(origin_channel);
    }
    LastMessageQuery { login, channel }
}

/// The history reply: the stored message with its timestamp rendered in
/// front.
pub open spec fn last_message_text(login: Seq<char>, ts: int, message: Seq<char>) -> Seq<char> {
    "("@ + timestamp_text(ts) + ") "@ + login + ": "@ + message
}

/// The reply a history query earns: the most recent stored record,
/// formatted with its timestamp, or a fixed message when there is none.
/// The stored text is user-supplied, so a found record is marked
/// questionable.
pub fn lastmessage_result(target_login: &String, outcome: Option<(i64, String)>) -> (r:
    CommandResponse)
    requires
        outcome matches Some(record) ==> 0 <= record.0 <= MAX_RENDERED_TIMESTAMP,
    ensures
        outcome matches Some(record) ==> r.response@ == last_message_text(
            target_login@,
            record.0 as int,
            record.1@,
        ) && r.questionable_output,
        outcome is None ==> r.response@
            == "Sorry, I didn't find any logs for that user in the selected channel!"@
            && !r.questionable_output,
{
    match outcome {
        Some((ts, message)) => {
            let mut response = String::from_str("(");
            let ts_text = format_timestamp(ts);
            response.append(ts_text.as_str());
            response.append(") ");
            response.append(target_login.as_str());
            response.append(": ");
            response.append(message.as_str());
            CommandResponse { response, questionable_output: true }
        },
        None => CommandResponse {
            response: String::from_str(
                "Sorry, I didn't find any logs for that user in the selected channel!",
            ),
            questionable_output: false,
        },
    }
}

} // verus!
