use pollbot::bot::{route, Action, Bot, NickGenerator, TimerRequest};
use pollbot::context::{Directive, MessageContext, UserError};

fn fresh_bot() -> Bot {
    Bot::new("!".to_string(), "#chan".to_string())
}

#[test]
fn extract_command_and_args() {
    let bot = fresh_bot();
    let (cmd, args) = bot.is_command("!poll 5|Q|A|B").unwrap();
    assert_eq!(cmd, "poll");
    assert_eq!(args, "5|Q|A|B");
}

#[test]
fn extract_rejects_unprefixed_line() {
    let bot = fresh_bot();
    assert!(bot.is_command("hello").is_none());
}

#[test]
fn extract_without_args_gives_empty_args() {
    let bot = fresh_bot();
    let (cmd, args) = bot.is_command("!endpoll").unwrap();
    assert_eq!(cmd, "endpoll");
    assert_eq!(args, "");
}

#[test]
fn extract_trims_args_and_keeps_inner_spaces() {
    let bot = fresh_bot();
    let (cmd, args) = bot.is_command("!vote   2  ").unwrap();
    assert_eq!(cmd, "vote");
    assert_eq!(args, "2");
    let (cmd, args) = bot.is_command("!poll 5|a b|c d|e f").unwrap();
    assert_eq!(cmd, "poll");
    assert_eq!(args, "5|a b|c d|e f");
}

#[test]
fn extract_splits_at_any_whitespace() {
    let bot = fresh_bot();
    let (cmd, args) = bot.is_command("!vote\t2").unwrap();
    assert_eq!(cmd, "vote");
    assert_eq!(args, "2");
    let (cmd, args) = bot.is_command("!poll\u{a0}5|Q|A|B").unwrap();
    assert_eq!(cmd, "poll");
    assert_eq!(args, "5|Q|A|B");
}

#[test]
fn extract_with_longer_marker() {
    let bot = Bot::new("~~".to_string(), "#chan".to_string());
    let (cmd, args) = bot.is_command("~~kill now").unwrap();
    assert_eq!(cmd, "kill");
    assert_eq!(args, "now");
    assert!(bot.is_command("~kill").is_none());
}

#[test]
fn routing_table() {
    assert_eq!(route("kill"), Action::Kill);
    assert_eq!(route("poll"), Action::StartPoll);
    assert_eq!(route("vote"), Action::Vote);
    assert_eq!(route("endpoll"), Action::EndPoll);
    assert_eq!(route("dance"), Action::Unknown);
    assert_eq!(route(""), Action::Unknown);
}

#[test]
fn start_announces_question_and_answers() {
    let mut bot = fresh_bot();
    let st = bot.start_poll("5|Best color?|Red|Green|Blue").unwrap();
    assert_eq!(st.minutes, 5);
    assert_eq!(
        st.announcements,
        vec![
            "Poll started: Best color?".to_string(),
            "  1: Red".to_string(),
            "  2: Green".to_string(),
            "  3: Blue".to_string(),
        ]
    );
}

#[test]
fn start_with_bad_spec_gives_usage_error() {
    let mut bot = fresh_bot();
    let e = bot.start_poll("nope").unwrap_err();
    assert_eq!(e, UserError::PollUsage);
    assert_eq!(
        e.message(),
        "usage: poll <minutes>|<question>|<answer 1>|<answer 2> ..."
    );
    assert!(matches!(bot.end_poll(), Err(UserError::NoPollRunning)));
}

#[test]
fn vote_mutates_poll_later_evaluated() {
    let mut bot = fresh_bot();
    bot.start_poll("1|Q|A|B").unwrap();
    assert_eq!(bot.vote("2").unwrap(), "vote counted");
    let msgs = bot.end_poll().unwrap();
    assert_eq!(
        msgs,
        vec![
            "Poll result for 'Q'".to_string(),
            "#1: A: 0 votes (0.00%)".to_string(),
            "#2: B: 1 votes (100.00%)".to_string(),
        ]
    );
}

#[test]
fn vote_out_of_range_changes_nothing() {
    let mut bot = fresh_bot();
    bot.start_poll("1|Q|A|B").unwrap();
    let e = bot.vote("5").unwrap_err();
    assert_eq!(e, UserError::OutOfRange { num_answers: 2 });
    assert_eq!(e.message(), "choose a number between 1 and 2");
    let e = bot.vote("0").unwrap_err();
    assert_eq!(e, UserError::OutOfRange { num_answers: 2 });
    let msgs = bot.end_poll().unwrap();
    assert_eq!(msgs[0], "No response to 'Q'");
}

#[test]
fn vote_non_numeric_is_usage_error() {
    let mut bot = fresh_bot();
    bot.start_poll("1|Q|A|B").unwrap();
    let e = bot.vote("first").unwrap_err();
    assert_eq!(e, UserError::VoteUsage);
    assert_eq!(e.message(), "usage: vote <number>");
}

#[test]
fn vote_without_poll_is_rejected_without_side_effect() {
    let mut bot = fresh_bot();
    let e = bot.vote("1").unwrap_err();
    assert_eq!(e, UserError::NoPollRunning);
    assert_eq!(e.message(), "no poll running");
    assert!(matches!(bot.end_poll(), Err(UserError::NoPollRunning)));
}

#[test]
fn explicit_end_makes_timer_a_noop() {
    let mut bot = fresh_bot();
    let st = bot.start_poll("1|Q|A|B").unwrap();
    bot.vote("1").unwrap();
    let msgs = bot.end_poll().unwrap();
    assert_eq!(msgs.len(), 3);
    assert_eq!(bot.expire(st.ticket), None);
}

#[test]
fn timer_fires_only_for_its_own_poll_instance() {
    let mut bot = fresh_bot();
    let first = bot.start_poll("1|Old?|A|B").unwrap();
    bot.end_poll().unwrap();
    let second = bot.start_poll("1|New?|C|D").unwrap();
    assert_ne!(first.ticket, second.ticket);
    assert_eq!(bot.expire(first.ticket), None);
    let msgs = bot.expire(second.ticket).unwrap();
    assert_eq!(msgs[0], "No response to 'New?'");
    assert_eq!(bot.expire(second.ticket), None);
}

#[test]
fn nick_generator_numbers_retries() {
    let mut names = NickGenerator { basename: "CrystalGBot".to_string(), attempt: 0 };
    assert_eq!(names.next(), Some("CrystalGBot".to_string()));
    assert_eq!(names.next(), Some("CrystalGBot2".to_string()));
    assert_eq!(names.next(), Some("CrystalGBot3".to_string()));
}

fn private_to(nick: &str, text: &str) -> Directive {
    Directive::Private { nick: nick.to_string(), text: text.to_string() }
}

fn to_channel(text: &str) -> Directive {
    Directive::Channel { channel: "#chan".to_string(), text: text.to_string() }
}

fn dm_ctx() -> MessageContext {
    MessageContext::new("alice".to_string(), None)
}

#[test]
fn handle_kill_terminates_silently() {
    let mut bot = fresh_bot();
    let h = bot.handle_command("kill", "", &dm_ctx());
    assert!(h.quit);
    assert!(h.directives.is_empty());
    assert!(h.timer.is_none());
}

#[test]
fn handle_unknown_command_answers_privately() {
    let mut bot = fresh_bot();
    let h = bot.handle_command("dance", "", &dm_ctx());
    assert!(!h.quit);
    assert_eq!(h.directives, vec![private_to("alice", "unknown command: dance")]);
    assert!(h.timer.is_none());
}

#[test]
fn handle_poll_announces_and_schedules_timer() {
    let mut bot = fresh_bot();
    let h = bot.handle_command("poll", "2|Q|A|B", &dm_ctx());
    assert!(!h.quit);
    assert_eq!(
        h.directives,
        vec![
            to_channel("Poll started: Q"),
            to_channel("  1: A"),
            to_channel("  2: B"),
        ]
    );
    let timer = h.timer.unwrap();
    assert_eq!(timer.minutes, 2);
    let ended = bot.handle_command("endpoll", "", &dm_ctx());
    assert_eq!(ended.directives[0], to_channel("No response to 'Q'"));
    assert_eq!(bot.expire(timer.ticket), None);
}

#[test]
fn handle_poll_with_bad_spec_replies_usage() {
    let mut bot = fresh_bot();
    let h = bot.handle_command("poll", "nope", &dm_ctx());
    assert_eq!(
        h.directives,
        vec![private_to(
            "alice",
            "usage: poll <minutes>|<question>|<answer 1>|<answer 2> ..."
        )]
    );
    assert!(h.timer.is_none());
}

#[test]
fn handle_vote_confirms_privately() {
    let mut bot = fresh_bot();
    bot.handle_command("poll", "2|Q|A|B", &dm_ctx());
    let h = bot.handle_command("vote", "1", &dm_ctx());
    assert_eq!(h.directives, vec![private_to("alice", "vote counted")]);
    let h = bot.handle_command("vote", "9", &dm_ctx());
    assert_eq!(h.directives, vec![private_to("alice", "choose a number between 1 and 2")]);
}

#[test]
fn handle_endpoll_without_poll_replies_error() {
    let mut bot = fresh_bot();
    let h = bot.handle_command("endpoll", "", &dm_ctx());
    assert_eq!(h.directives, vec![private_to("alice", "no poll running")]);
}

#[test]
fn timer_request_carries_fresh_ticket() {
    let mut bot = fresh_bot();
    let first = bot.handle_command("poll", "1|Q|A|B", &dm_ctx()).timer.unwrap();
    bot.handle_command("endpoll", "", &dm_ctx());
    let second = bot.handle_command("poll", "1|R|C|D", &dm_ctx()).timer.unwrap();
    assert_ne!(first, TimerRequest { ticket: second.ticket, minutes: second.minutes });
    assert_eq!(bot.expire(first.ticket), None);
    assert!(bot.expire(second.ticket).is_some());
}
