use fleet_tail::command::DEFAULT_LINES;
use fleet_tail::command::SPACE;
use fleet_tail::command::decimal_digits;
use fleet_tail::command::join_with;
use fleet_tail::command::tail_command;
use fleet_tail::errors::FleetError;
use fleet_tail::hosts::HostTarget;
use fleet_tail::hosts::identity_of;
use fleet_tail::hosts::parse_targets;
use fleet_tail::hosts::split_commas;
use fleet_tail::hosts::target_of;
use fleet_tail::identity::DEFAULT_IDENTITY_FILE_COUNT;
use fleet_tail::identity::IdentityChoice;
use fleet_tail::identity::check_identity_file;
use fleet_tail::identity::default_identity_file;

fn bytes(s: &str) -> Vec<u8> {
    s.as_bytes().to_vec()
}

#[test]
fn one_entry_parses_into_user_and_host() {
    let targets = parse_targets(&vec![bytes("alice@h1")]);
    assert_eq!(
        targets,
        vec![HostTarget { user: bytes("alice"), host: bytes("h1") }]
    );
}

#[test]
fn commas_separate_entries_within_one_argument() {
    let targets = parse_targets(&vec![bytes("alice@h1,bob@h2")]);
    assert_eq!(
        targets,
        vec![
            HostTarget { user: bytes("alice"), host: bytes("h1") },
            HostTarget { user: bytes("bob"), host: bytes("h2") },
        ]
    );
}

#[test]
fn entries_without_an_at_sign_are_skipped() {
    let targets = parse_targets(&vec![bytes("h1,alice@h2"), bytes("h3")]);
    assert_eq!(
        targets,
        vec![HostTarget { user: bytes("alice"), host: bytes("h2") }]
    );
}

#[test]
fn the_first_at_sign_splits_the_entry() {
    let t = target_of(&bytes("a@b@c")).unwrap();
    assert_eq!(t, HostTarget { user: bytes("a"), host: bytes("b@c") });
}

#[test]
fn empty_entries_hold_no_target() {
    assert_eq!(target_of(&bytes("")), None);
    let targets = parse_targets(&vec![bytes(",alice@h1,")]);
    assert_eq!(targets.len(), 1);
}

#[test]
fn split_commas_keeps_empty_pieces() {
    let pieces = split_commas(&bytes("a,,b"));
    assert_eq!(pieces, vec![bytes("a"), bytes(""), bytes("b")]);
    assert_eq!(split_commas(&bytes("")), vec![bytes("")]);
}

#[test]
fn identity_is_user_at_host() {
    assert_eq!(identity_of(&bytes("alice"), &bytes("h1")), bytes("alice@h1"));
}

#[test]
fn a_named_identity_file_always_wins() {
    let r = check_identity_file(true, &[true, true, true, true]);
    assert_eq!(r, Ok(IdentityChoice::Given));
}

#[test]
fn the_first_existing_default_is_chosen() {
    let r = check_identity_file(false, &[false, true, true, false]);
    assert_eq!(r, Ok(IdentityChoice::Default(1)));
}

// With no identity file named and none of the default files existing,
// resolution fails fatally before any connection could be attempted.
#[test]
fn no_identity_material_is_fatal() {
    let r = check_identity_file(false, &[false, false, false, false]);
    assert_eq!(r, Err(FleetError::CredentialResolution));
    assert!(r.unwrap_err().is_fatal());
}

#[test]
fn default_identity_files_are_searched_in_order() {
    assert_eq!(DEFAULT_IDENTITY_FILE_COUNT, 4);
    assert_eq!(default_identity_file(0), "~/.ssh/id_rsa");
    assert_eq!(default_identity_file(1), "~/.ssh/id_dsa");
    assert_eq!(default_identity_file(2), "~/.ssh/id_ecdsa");
    assert_eq!(default_identity_file(3), "~/.ssh/id_ed25519");
}

#[test]
fn decimal_rendering_is_exact() {
    assert_eq!(decimal_digits(0), bytes("0"));
    assert_eq!(decimal_digits(7), bytes("7"));
    assert_eq!(decimal_digits(10), bytes("10"));
    assert_eq!(decimal_digits(12345), bytes("12345"));
}

#[test]
fn join_with_spaces() {
    assert_eq!(join_with(&vec![], SPACE), bytes(""));
    assert_eq!(join_with(&vec![bytes("a.log")], SPACE), bytes("a.log"));
    assert_eq!(
        join_with(&vec![bytes("a.log"), bytes("b.log")], SPACE),
        bytes("a.log b.log")
    );
}

#[test]
fn tail_command_uses_the_default_line_count() {
    assert_eq!(DEFAULT_LINES, 10);
    let cmd = tail_command(None, &vec![bytes("/var/log/app.log")]);
    assert_eq!(cmd, bytes("tail -n 10 -f /var/log/app.log"));
}

#[test]
fn tail_command_with_named_line_count_and_files() {
    let cmd = tail_command(Some(5), &vec![bytes("/var/log/app.log")]);
    assert_eq!(cmd, bytes("tail -n 5 -f /var/log/app.log"));
    let cmd = tail_command(Some(200), &vec![bytes("x"), bytes("y")]);
    assert_eq!(cmd, bytes("tail -n 200 -f x y"));
}
