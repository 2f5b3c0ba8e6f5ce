use borrowbot::api::{
    first_user, screen_verdict, BanphraseResponse, GetUsersResponse, LookupOutcome,
    ModerationOutcome, User,
};
use borrowbot::channels::ChannelSet;
use borrowbot::commandhandler::CommandHandler;
use borrowbot::commands::{
    bot, command_kind, expensive, greeting, help, join_channel, join_request, join_verified,
    lastmessage_request, lastmessage_result, leave_channel, leave_request, ping, say,
    setpermissions_request, setpermissions_result, uid_request, uid_result, ChannelActionStep,
    Command, CommandKind, SetPermissionsStep, StoreUpdateOutcome, UidStep,
};
use borrowbot::text::parse_i32;
use borrowbot::types::{PermissionLevel, UserContext};

fn sample_user(login: &str) -> User {
    User {
        id: String::from("44444"),
        login: String::from(login),
        display_name: String::from(login),
        type_field: String::new(),
        broadcaster_type: String::new(),
        description: String::new(),
        profile_image_url: String::new(),
        offline_image_url: String::new(),
        view_count: 0,
        email: None,
        created_at: String::new(),
    }
}

fn registry() -> CommandHandler {
    CommandHandler::new(vec![
        (
            String::from("ping"),
            Command::new(String::from("pong"), PermissionLevel::User, 5),
        ),
        (
            String::from("join"),
            Command::new(String::from("joins a channel"), PermissionLevel::Superuser, 5),
        ),
    ])
}

fn params(items: &[&str]) -> Vec<String> {
    items.iter().map(|s| String::from(*s)).collect()
}

#[test]
fn help_enumerates_all_commands() {
    let handler = registry();
    let r = help(&handler, &params(&[]));
    assert_eq!(r.response, "List of available commands: ping, join");
    assert!(!r.questionable_output);
}

#[test]
fn help_with_empty_registry() {
    let handler = CommandHandler::new(Vec::new());
    let r = help(&handler, &params(&[]));
    assert_eq!(r.response, "List of available commands");
}

#[test]
fn help_describes_one_command() {
    let handler = registry();
    let r = help(&handler, &params(&["ping"]));
    assert_eq!(r.response, "&ping: pong");
    // The target is lower-cased before the lookup.
    let r = help(&handler, &params(&["PING"]));
    assert_eq!(r.response, "&ping: pong");
}

#[test]
fn help_with_unknown_target() {
    let handler = registry();
    let r = help(&handler, &params(&["nosuch"]));
    assert_eq!(r.response, "Sorry, I don't know that command");
}

#[test]
fn ping_reports_decomposed_uptime() {
    // 90065 s = 1 day + 1 hour + 1 minute + 5 seconds.
    let r = ping(90065);
    assert_eq!(r.response, "Pong! Uptime: 1d, 1h, 1m, 5s");
    assert!(!r.questionable_output);
}

#[test]
fn ping_at_start() {
    assert_eq!(ping(0).response, "Pong! Uptime: 0d, 0h, 0m, 0s");
    assert_eq!(ping(59).response, "Pong! Uptime: 0d, 0h, 0m, 59s");
    assert_eq!(ping(86399).response, "Pong! Uptime: 0d, 23h, 59m, 59s");
    assert_eq!(ping(86400).response, "Pong! Uptime: 1d, 0h, 0m, 0s");
}

#[test]
fn bot_describes_itself() {
    let user = UserContext::new(1, String::from("alice"), 0);
    let r = bot(&user);
    assert_eq!(
        r.response,
        "Bot made my 1xelerate. Written in Rust with Tokio, Postgresql, and Rander's Twitch IRC library."
    );
    assert!(!r.questionable_output);
}

#[test]
fn greeting_matches_level() {
    let su = UserContext::new(1, String::from("a"), 2);
    let md = UserContext::new(2, String::from("b"), 1);
    let us = UserContext::new(3, String::from("c"), 0);
    assert_eq!(greeting(&su).response, "Greetings superuser");
    assert_eq!(greeting(&md).response, "Hello moderator");
    assert_eq!(greeting(&us).response, "What's good");
}

#[test]
fn expensive_reports_completion() {
    let user = UserContext::new(1, String::from("alice"), 0);
    assert_eq!(expensive(&user).response, "Test expensive command finished");
}

#[test]
fn say_echoes_with_trailing_spaces() {
    let r = say(&params(&["hello", "world"]));
    assert_eq!(r.response, "hello world ");
    assert!(r.questionable_output);
}

#[test]
fn say_with_no_words_is_silent() {
    let r = say(&params(&[]));
    assert_eq!(r.response, "");
}

#[test]
fn setpermissions_needs_a_username() {
    match setpermissions_request(&params(&[])) {
        SetPermissionsStep::Reject { response } => {
            assert_eq!(
                response.response,
                "Please provide a username after the set command!"
            );
        }
        _ => panic!("expected a rejection"),
    }
}

#[test]
fn setpermissions_needs_an_integer_value() {
    for bad in ["abc", "", "2x", "-1"] {
        match setpermissions_request(&params(&["alice", bad])) {
            SetPermissionsStep::Reject { response } => {
                assert_eq!(
                    response.response,
                    "Error parsing value to be set, please give an integer after the username!"
                );
            }
            _ => panic!("expected a rejection"),
        }
    }
}

#[test]
fn setpermissions_lowercases_target() {
    match setpermissions_request(&params(&["ALICE", "2"])) {
        SetPermissionsStep::Update { login, value } => {
            assert_eq!(login, "alice");
            assert_eq!(value, 2);
        }
        _ => panic!("expected an update"),
    }
}

#[test]
fn setpermissions_unknown_user_reports_not_found() {
    // Zero affected rows: the target login is not in the store. Nothing
    // else is mutated; the reply alone reports it.
    let r = setpermissions_result(
        &String::from("alice"),
        2,
        &StoreUpdateOutcome::RowsAffected { rows: 0 },
    );
    assert_eq!(r.response, "Sorry, that user wasn't found in my database!");
}

#[test]
fn setpermissions_reports_success_and_failure() {
    let ok = setpermissions_result(
        &String::from("alice"),
        2,
        &StoreUpdateOutcome::RowsAffected { rows: 1 },
    );
    assert_eq!(ok.response, "Succesfully set alice's permissions column to 2");
    let err = setpermissions_result(&String::from("alice"), 2, &StoreUpdateOutcome::StoreError);
    assert_eq!(err.response, "Error setting column permissions to value 2");
}

#[test]
fn parse_i32_matches_standard_parsing() {
    for text in ["0", "123", "+7", "-1", "-2147483648", "2147483647", "2147483648",
        "-2147483649", "abc", "", "+", "-", "1 2", "007"]
    {
        assert_eq!(parse_i32(text), text.parse::<i32>().ok(), "case {:?}", text);
    }
}

#[test]
fn uid_without_target_reports_own_id() {
    let user = UserContext::new(42, String::from("alice"), 0);
    match uid_request(&user, &params(&[])) {
        UidStep::Respond { response } => assert_eq!(response.response, "42"),
        _ => panic!("expected the invoking identity's own id"),
    }
    let negative = UserContext::new(-5, String::from("odd"), 0);
    match uid_request(&negative, &params(&[])) {
        UidStep::Respond { response } => assert_eq!(response.response, "-5"),
        _ => panic!("expected the invoking identity's own id"),
    }
}

#[test]
fn uid_with_target_resolves_remotely() {
    let user = UserContext::new(42, String::from("alice"), 0);
    match uid_request(&user, &params(&["BOB"])) {
        UidStep::Lookup { login } => assert_eq!(login, "bob"),
        _ => panic!("expected a remote lookup"),
    }
    let found = uid_result(&LookupOutcome::Found { user: sample_user("bob") });
    assert_eq!(found.response, "44444");
    let missing = uid_result(&LookupOutcome::NotFound);
    assert_eq!(missing.response, "Sorry, I couldn't find user");
    let down = uid_result(&LookupOutcome::Unreachable);
    assert_eq!(down.response, "Unable to fetch uid; Twitch API error");
}

#[test]
fn join_needs_a_channel() {
    match join_request(&params(&[])) {
        ChannelActionStep::Reject { response } => {
            assert_eq!(response.response, "Please provide a channel to join");
        }
        _ => panic!("expected a rejection"),
    }
}

#[test]
fn join_unknown_channel_is_aborted() {
    // Identity lookup answered "not found": no store write, no set change,
    // only the fixed reply.
    let set = ChannelSet::new();
    match join_verified(String::from("ghostchan"), &LookupOutcome::NotFound) {
        ChannelActionStep::Reject { response } => {
            assert_eq!(response.response, "Sorry, I couldn't find that channel");
        }
        _ => panic!("expected a rejection"),
    }
    assert_eq!(set.as_vec().len(), 0);
}

#[test]
fn join_fails_closed_when_lookup_is_unreachable() {
    match join_verified(String::from("newchan"), &LookupOutcome::Unreachable) {
        ChannelActionStep::Reject { response } => {
            assert_eq!(
                response.response,
                "Unable to verify if that channel exists, join aborted; Twitch API error"
            );
        }
        _ => panic!("expected a rejection"),
    }
}

#[test]
fn join_adds_a_channel_exactly_once() {
    let mut set = ChannelSet::new();
    let step = join_verified(
        String::from("newchan"),
        &LookupOutcome::Found { user: sample_user("newchan") },
    );
    let channel = match step {
        ChannelActionStep::Proceed { channel } => channel,
        _ => panic!("expected to proceed"),
    };
    let (first, announced) = join_channel(&mut set, channel.clone());
    assert_eq!(first.response, "Succesfully joined channel");
    assert!(announced);
    assert!(set.contains(&channel));
    // A second join of the same channel changes nothing and is not
    // announced again.
    let (second, announced_again) = join_channel(&mut set, channel.clone());
    assert_eq!(second.response, "I've already joined that channel");
    assert!(!announced_again);
    assert_eq!(set.as_vec().len(), 1);
}

#[test]
fn leave_needs_a_channel() {
    match leave_request(&params(&[])) {
        ChannelActionStep::Reject { response } => {
            assert_eq!(response.response, "Please provide a channel to leave");
        }
        _ => panic!("expected a rejection"),
    }
}

#[test]
fn leave_removes_a_present_channel() {
    let mut set = ChannelSet::new();
    join_channel(&mut set, String::from("chan"));
    let (gone, removed) = leave_channel(&mut set, &String::from("chan"));
    assert_eq!(gone.response, "Succesfully left channel");
    assert!(removed);
    assert_eq!(set.as_vec().len(), 0);
    let (absent, removed_again) = leave_channel(&mut set, &String::from("chan"));
    assert_eq!(absent.response, "I'm not currently in that channel!");
    assert!(!removed_again);
}

#[test]
fn lastmessage_defaults_to_invoker_and_origin() {
    let user = UserContext::new(1, String::from("Alice"), 0);
    let q = lastmessage_request("SomeChannel", &user, &params(&[]));
    // The invoker's login is taken as stored; the origin channel is
    // lower-cased.
    assert_eq!(q.login, "Alice");
    assert_eq!(q.channel, "somechannel");
    let q = lastmessage_request("somechannel", &user, &params(&["BOB", "OTHER"]));
    assert_eq!(q.login, "bob");
    assert_eq!(q.channel, "other");
}

#[test]
fn lastmessage_formats_the_found_record() {
    let r = lastmessage_result(&String::from("bob"), Some((0, String::from("hello there"))));
    assert_eq!(r.response, "(1970-01-01 00:00) bob: hello there");
    assert!(r.questionable_output);
    let r = lastmessage_result(&String::from("bob"), Some((1431648000, String::from("hi"))));
    assert_eq!(r.response, "(2015-05-15 00:00) bob: hi");
}

#[test]
fn lastmessage_without_records() {
    let r = lastmessage_result(&String::from("bob"), None);
    assert_eq!(
        r.response,
        "Sorry, I didn't find any logs for that user in the selected channel!"
    );
    assert!(!r.questionable_output);
}

#[test]
fn command_names_route_to_behaviors() {
    assert!(matches!(command_kind("help"), CommandKind::Help));
    assert!(matches!(command_kind("ping"), CommandKind::Ping));
    assert!(matches!(command_kind("bot"), CommandKind::Bot));
    assert!(matches!(command_kind("greeting"), CommandKind::Greeting));
    assert!(matches!(command_kind("expensive"), CommandKind::Expensive));
    assert!(matches!(
        command_kind("setpermissions"),
        CommandKind::SetPermissions
    ));
    assert!(matches!(command_kind("join"), CommandKind::Join));
    assert!(matches!(command_kind("leave"), CommandKind::Leave));
    assert!(matches!(command_kind("uid"), CommandKind::Uid));
    assert!(matches!(command_kind("say"), CommandKind::Say));
    assert!(matches!(command_kind("lastmessage"), CommandKind::LastMessage));
    assert!(matches!(command_kind("Ping"), CommandKind::Unrecognized));
    assert!(matches!(command_kind(""), CommandKind::Unrecognized));
}

#[test]
fn first_user_takes_the_first_entry() {
    let empty = GetUsersResponse { data: Vec::new() };
    assert!(first_user(empty).is_none());
    let full = GetUsersResponse { data: vec![sample_user("a"), sample_user("b")] };
    let u = first_user(full).expect("one user");
    assert_eq!(u.login, "a");
}

#[test]
fn moderation_verdict_follows_the_banned_flag() {
    let clean = BanphraseResponse {
        banned: false,
        input_message: String::from("hi"),
        banphrase_data: None,
    };
    assert!(matches!(screen_verdict(&clean), ModerationOutcome::Allowed));
    let dirty = BanphraseResponse {
        banned: true,
        input_message: String::from("hi"),
        banphrase_data: None,
    };
    assert!(matches!(screen_verdict(&dirty), ModerationOutcome::Disallowed));
}
