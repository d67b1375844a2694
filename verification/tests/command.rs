use augur::command::{admin_check, authorize, handle, Authorization, CommandAction, ADMIN_NEEDED, HELP_TEXT};
use augur::error::AugurError;

fn reply(a: CommandAction) -> Option<String> {
    match a {
        CommandAction::Reply(s) => Some(s),
        _ => None,
    }
}

#[test]
fn ping_answers_pong() {
    assert_eq!(reply(handle(">ping", true, 1, 2)), Some("Pong!".to_string()));
}

#[test]
fn help_lists_the_sub_commands() {
    assert_eq!(reply(handle("  >help extra", true, 1, 2)), Some(HELP_TEXT.to_string()));
    assert_eq!(HELP_TEXT, "```>royalroad add <link>\n>royalroad check\n>royalroad remove <link>```");
}

#[test]
fn messages_outside_a_guild_are_ignored() {
    assert!(matches!(handle(">ping", false, 1, 2), CommandAction::Ignore));
}

#[test]
fn empty_and_unknown_messages_are_ignored() {
    assert!(matches!(handle("   ", true, 1, 2), CommandAction::Ignore));
    assert!(matches!(handle("hello >ping", true, 1, 2), CommandAction::Ignore));
    assert!(matches!(handle(">PING", true, 1, 2), CommandAction::Ignore));
}

#[test]
fn royalroad_waits_for_the_permission_check() {
    match handle(">royalroad add https://www.royalroad.com/fiction/1", true, 1, 2) {
        CommandAction::CheckAdmin(args) => assert_eq!(
            args,
            vec![">royalroad".to_string(), "add".to_string(), "https://www.royalroad.com/fiction/1".to_string()]
        ),
        _ => panic!("expected a permission check"),
    }
}

#[test]
fn only_the_owner_forces_an_update() {
    assert!(matches!(handle(">force-update", true, 5, 5), CommandAction::ForceUpdate));
    assert!(matches!(handle(">force-update", true, 4, 5), CommandAction::Ignore));
}

#[test]
fn administrator_bit_makes_an_admin() {
    let roles = vec![(10, 0x400), (11, 0x8 | 0x1), (12, 0x8)];
    assert_eq!(admin_check(&vec![10, 11], &roles), Ok(true));
    assert_eq!(admin_check(&vec![12], &roles), Ok(true));
    assert_eq!(admin_check(&vec![10], &roles), Ok(false));
    assert_eq!(admin_check(&vec![], &roles), Ok(false));
}

#[test]
fn unknown_role_before_an_admin_role_is_an_error() {
    let roles = vec![(10, 0x400), (12, 0x8)];
    assert_eq!(admin_check(&vec![10, 99, 12], &roles), Err(AugurError::FailedDiscordRequest));
    assert_eq!(admin_check(&vec![12, 99], &roles), Ok(true));
}

#[test]
fn non_admins_are_refused() {
    let args = vec![">royalroad".to_string(), "check".to_string()];
    match authorize(args.clone(), &vec![10], &vec![(10, 0x10)]) {
        Ok(Authorization::Refuse(s)) => assert_eq!(s, ADMIN_NEEDED),
        _ => panic!("expected a refusal"),
    }
    match authorize(args.clone(), &vec![10], &vec![(10, 0x18)]) {
        Ok(Authorization::Run(a)) => assert_eq!(a, args),
        _ => panic!("expected the command to run"),
    }
    assert!(matches!(authorize(args, &vec![3], &vec![]), Err(AugurError::FailedDiscordRequest)));
}
