use pollbot::context::{Directive, MessageContext, UserError};

#[test]
fn reply_uses_channel_when_bound() {
    let ctx = MessageContext::new("alice".to_string(), Some("#chan".to_string()));
    match ctx.reply("hi") {
        Directive::Channel { channel, text } => {
            assert_eq!(channel, "#chan");
            assert_eq!(text, "hi");
        },
        Directive::Private { .. } => panic!("expected a channel notice"),
    }
    assert!(!ctx.is_private());
}

#[test]
fn reply_goes_private_without_channel() {
    let ctx = MessageContext::new("alice".to_string(), None);
    match ctx.reply("hi") {
        Directive::Private { nick, text } => {
            assert_eq!(nick, "alice");
            assert_eq!(text, "hi");
        },
        Directive::Channel { .. } => panic!("expected a private notice"),
    }
    assert!(ctx.is_private());
}

#[test]
fn channel_reply_fails_for_direct_message() {
    let ctx = MessageContext::new("alice".to_string(), None);
    let e = ctx.channel_reply("hi").unwrap_err();
    assert_eq!(e, UserError::NoChannel);
    assert_eq!(e.message(), "cannot address channel from a direct message");
}

#[test]
fn channel_reply_uses_channel_when_bound() {
    let ctx = MessageContext::new("alice".to_string(), Some("#chan".to_string()));
    match ctx.channel_reply("res").unwrap() {
        Directive::Channel { channel, text } => {
            assert_eq!(channel, "#chan");
            assert_eq!(text, "res");
        },
        Directive::Private { .. } => panic!("expected a channel notice"),
    }
}

#[test]
fn private_reply_ignores_channel_binding() {
    let ctx = MessageContext::new("alice".to_string(), Some("#chan".to_string()));
    match ctx.private_reply("vote counted") {
        Directive::Private { nick, text } => {
            assert_eq!(nick, "alice");
            assert_eq!(text, "vote counted");
        },
        Directive::Channel { .. } => panic!("expected a private notice"),
    }
}
