use omnyssh::ssh::key_setup::{
    build_authorized_keys_command, build_disable_password_command, build_reload_sshd_command,
    build_rollback_command, disable_password_command_at, disable_password_command_for, key_file_name, next_action,
    sanitize_hostname, KeySetupMachine, KeySetupState, KeySetupStep, KeyType, SetupAction,
    StepOutcome, MAX_HOSTNAME_LENGTH,
};
use omnyssh::ssh::key_setup::{timeout_report, TOTAL_TIMEOUT_SECS};

fn err(msg: &str) -> Result<(), anyhow::Error> {
    Err(anyhow::Error::msg(msg.to_string()))
}

#[test]
fn test_sanitize_hostname() {
    assert_eq!(sanitize_hostname("web-prod-1"), "web-prod-1");
    assert_eq!(sanitize_hostname("my server (prod)"), "my_server__prod_");
    assert_eq!(sanitize_hostname("../../etc/passwd"), "______etc_passwd");
    assert_eq!(sanitize_hostname(""), "unnamed_host");
    assert_eq!(sanitize_hostname("a/b\\c:d*e?f"), "a_b_c_d_e_f");

    let long_name = "a".repeat(100);
    assert_eq!(sanitize_hostname(&long_name).len(), MAX_HOSTNAME_LENGTH);
}

#[test]
fn test_key_setup_step_ordering() {
    let steps = KeySetupStep::all_steps();
    assert_eq!(steps[0], KeySetupStep::GenerateKey);
    assert_eq!(steps[5], KeySetupStep::FinalCheck);
    assert_eq!(steps.len(), 6);
}

#[test]
fn test_key_setup_machine_verify_failure_stops_process() {
    let mut machine = KeySetupMachine::new();
    machine.step_result(KeySetupStep::GenerateKey, Ok(()));
    machine.step_result(KeySetupStep::CopyPublicKey, Ok(()));
    machine.step_result(KeySetupStep::VerifyKeyAuth, err("connection refused"));

    assert_eq!(machine.state(), &KeySetupState::FailedSafe);
    assert!(!machine.password_disabled());
}

#[test]
fn test_key_setup_machine_no_sudo_partial_success() {
    let mut machine = KeySetupMachine::new();
    machine.set_has_sudo(false);

    machine.step_result(KeySetupStep::GenerateKey, Ok(()));
    machine.step_result(KeySetupStep::CopyPublicKey, Ok(()));
    machine.step_result(KeySetupStep::VerifyKeyAuth, Ok(()));

    assert_eq!(machine.state(), &KeySetupState::PartialSuccess);
    assert!(!machine.password_disabled());
}

#[test]
fn test_key_setup_machine_final_check_failure_triggers_rollback() {
    let mut machine = KeySetupMachine::new();
    machine.step_result(KeySetupStep::GenerateKey, Ok(()));
    machine.step_result(KeySetupStep::CopyPublicKey, Ok(()));
    machine.step_result(KeySetupStep::VerifyKeyAuth, Ok(()));
    machine.step_result(KeySetupStep::DisablePassword, Ok(()));
    machine.step_result(KeySetupStep::ReloadSshd, Ok(()));
    machine.step_result(KeySetupStep::FinalCheck, err("timeout"));

    assert_eq!(machine.state(), &KeySetupState::NeedsRollback);
    assert!(machine.password_disabled());
}

#[test]
fn test_authorized_keys_command_escapes_quotes() {
    let pubkey = "ssh-ed25519 AAAA... user's key";
    let cmd = build_authorized_keys_command(pubkey);

    assert!(cmd.contains("user'\\''s"));
    assert!(cmd.contains(">> ~/.ssh/authorized_keys"));
    assert!(!cmd.contains(" > ~/.ssh/authorized_keys"));
}

#[test]
fn test_disable_password_command_creates_backup() {
    let cmd = build_disable_password_command().expect("clock after 1970");

    assert!(cmd.contains("omnyssh_backup."));
    assert!(cmd.contains("sshd -t"));
    assert!(cmd.contains("'s/^Include\\s/#Include /'"));
    assert!(cmd.contains("PasswordAuthentication no"));
    assert!(cmd.contains("ChallengeResponseAuthentication no"));
    assert!(cmd.contains("KbdInteractiveAuthentication no"));
    assert!(cmd.contains("UsePAM no"));
}

#[test]
fn test_reload_sshd_uses_reload_not_restart() {
    let cmd = build_reload_sshd_command();

    assert!(cmd.contains("reload"));
    assert!(!cmd.contains("restart"));
}

#[test]
fn disable_command_names_backup_after_timestamp() {
    let cmd = disable_password_command_at("20240101_120000");
    assert_eq!(cmd.matches("sshd_config.omnyssh_backup.20240101_120000").count(), 2);
}

#[test]
fn rollback_command_restores_newest_backup() {
    let cmd = build_rollback_command();
    assert!(cmd.contains("ls -t /etc/ssh/sshd_config.omnyssh_backup.*"));
    assert!(cmd.contains("OMNYSSH_NO_BACKUP"));
}

#[test]
fn authorized_keys_command_exact() {
    let cmd = build_authorized_keys_command("k'e");
    assert_eq!(
        cmd,
        "mkdir -p ~/.ssh && chmod 700 ~/.ssh && \\\n           echo 'k'\\''e' >> ~/.ssh/authorized_keys && \\\n           chmod 600 ~/.ssh/authorized_keys"
    );
}

#[test]
fn key_type_names() {
    assert_eq!(KeyType::Ed25519.extension(), "ed25519");
    assert_eq!(KeyType::Rsa4096.extension(), "rsa");
    assert_eq!(key_file_name("web 1", KeyType::Ed25519), "omnyssh_web_1_ed25519");
    assert_eq!(KeySetupStep::VerifyKeyAuth.description(), "Verifying key authentication");
}

#[test]
fn sanitize_keeps_unicode_letters_and_truncates_by_character() {
    assert_eq!(sanitize_hostname("сервер.1"), "сервер_1");
    let long = "é".repeat(70);
    assert_eq!(sanitize_hostname(&long).chars().count(), 64);
}

#[test]
fn rollback_complete_restores_password() {
    let mut machine = KeySetupMachine::default();
    machine.step_result(KeySetupStep::DisablePassword, Ok(()));
    machine.step_result(KeySetupStep::ReloadSshd, err("x"));
    assert_eq!(machine.state(), &KeySetupState::NeedsRollback);
    machine.rollback_complete();
    assert_eq!(machine.state(), &KeySetupState::RolledBack);
    assert!(!machine.password_disabled());
}

fn run(outcomes: Vec<StepOutcome>) -> (KeySetupMachine, Vec<SetupAction>) {
    let mut machine = KeySetupMachine::new();
    let mut action = SetupAction::GenerateKey;
    let mut actions = vec![action];
    for o in outcomes {
        action = next_action(&mut machine, action, &o);
        actions.push(action);
    }
    (machine, actions)
}

#[test]
fn flow_full_success() {
    let (m, actions) = run(vec![
        StepOutcome::Succeeded,
        StepOutcome::Output(String::new()),
        StepOutcome::Succeeded,
        StepOutcome::Output(String::new()),
        StepOutcome::Output("ok".to_string()),
        StepOutcome::Output(String::new()),
        StepOutcome::Succeeded,
    ]);
    assert_eq!(
        actions,
        vec![
            SetupAction::GenerateKey,
            SetupAction::CopyPublicKey,
            SetupAction::VerifyKeyAuth,
            SetupAction::CheckSudo,
            SetupAction::DisablePassword,
            SetupAction::ReloadSshd,
            SetupAction::FinalCheck,
            SetupAction::Finish,
        ]
    );
    assert_eq!(m.state(), &KeySetupState::Success);
    assert!(m.password_disabled());
}

#[test]
fn flow_verify_failure_never_disables_password() {
    let (m, actions) = run(vec![StepOutcome::Succeeded, StepOutcome::Succeeded, StepOutcome::Failed]);
    assert_eq!(actions.last(), Some(&SetupAction::Finish));
    assert!(!actions.contains(&SetupAction::DisablePassword));
    assert_eq!(m.state(), &KeySetupState::FailedSafe);
    assert!(!m.password_disabled());
}

#[test]
fn flow_no_sudo_is_partial_success() {
    let (m, _) = run(vec![StepOutcome::Succeeded, StepOutcome::Succeeded, StepOutcome::Succeeded, StepOutcome::Succeeded, StepOutcome::Output("OMNYSSH_NO_SUDO\n".to_string())]);
    assert_eq!(m.state(), &KeySetupState::PartialSuccess);
    assert!(!m.password_disabled());
    let (m2, _) = run(vec![StepOutcome::Succeeded, StepOutcome::Succeeded, StepOutcome::Succeeded, StepOutcome::Failed]);
    assert_eq!(m2.state(), &KeySetupState::PartialSuccess);
}

#[test]
fn flow_config_error_fails_safe() {
    let (m, _) = run(vec![StepOutcome::Succeeded, StepOutcome::Succeeded, StepOutcome::Succeeded, StepOutcome::Succeeded, StepOutcome::Output("OMNYSSH_CONFIG_ERROR".to_string())]);
    assert_eq!(m.state(), &KeySetupState::FailedSafe);
    assert!(!m.password_disabled());
}

#[test]
fn flow_final_check_failure_rolls_back() {
    let (m, actions) = run(vec![
        StepOutcome::Succeeded,
        StepOutcome::Succeeded,
        StepOutcome::Succeeded,
        StepOutcome::Succeeded,
        StepOutcome::Output(String::new()),
        StepOutcome::Succeeded,
        StepOutcome::Failed,
        StepOutcome::Output("done".to_string()),
    ]);
    assert_eq!(actions[7], SetupAction::Rollback);
    assert_eq!(m.state(), &KeySetupState::RolledBack);
    assert!(!m.password_disabled());

    let (m2, _) = run(vec![
        StepOutcome::Succeeded,
        StepOutcome::Succeeded,
        StepOutcome::Succeeded,
        StepOutcome::Succeeded,
        StepOutcome::Output(String::new()),
        StepOutcome::Failed,
        StepOutcome::Output("OMNYSSH_NO_BACKUP".to_string()),
    ]);
    assert_eq!(m2.state(), &KeySetupState::NeedsRollback);
    assert!(m2.password_disabled());
}

#[test]
fn disable_password_command_names_the_backup_after_the_utc_time() {
    let cmd = disable_password_command_for(Ok((1_431_648_000, 5))).unwrap();
    assert_eq!(cmd, disable_password_command_at("20150515_000000"));
    let cmd = disable_password_command_for(Ok((0, 0))).unwrap();
    assert!(cmd.contains("omnyssh_backup.19700101_000000 &&"));
    assert_eq!(disable_password_command_for(Err((5, 0))), None);
    assert_eq!(disable_password_command_for(Ok((u64::MAX, 0))), None);
}

#[test]
fn sanitized_names_cannot_leave_the_ssh_directory() {
    assert_eq!(sanitize_hostname("../etc/passwd"), "___etc_passwd");
    assert_eq!(sanitize_hostname("a\\b c"), "a_b_c");
    assert_eq!(sanitize_hostname("héllo-1_x"), "héllo-1_x");
}

#[test]
fn timeout_ends_failed_safe_with_a_message() {
    let (state, message) = timeout_report(TOTAL_TIMEOUT_SECS);
    assert_eq!(state, KeySetupState::FailedSafe);
    assert_eq!(message, "Key setup timed out after 60 seconds");
}

#[test]
fn password_is_disabled_at_most_once() {
    // A rollback after a failed final check, then extra outcomes: the flow
    // never comes back to the disable command.
    let (_m, actions) = run(vec![
        StepOutcome::Succeeded,
        StepOutcome::Succeeded,
        StepOutcome::Succeeded,
        StepOutcome::Succeeded,
        StepOutcome::Output("done".to_string()),
        StepOutcome::Succeeded,
        StepOutcome::Failed,
        StepOutcome::Succeeded,
        StepOutcome::Succeeded,
        StepOutcome::Succeeded,
    ]);
    let disables = actions.iter().filter(|a| **a == SetupAction::DisablePassword).count();
    assert_eq!(disables, 1);
    assert_eq!(*actions.last().unwrap(), SetupAction::Finish);
}

#[test]
fn ascii_characters_kept_or_replaced() {
    assert_eq!(sanitize_hostname("A.b-c_9 x/y"), "A_b-c_9_x_y");
    assert_eq!(sanitize_hostname("a:b@c"), "a_b_c");
}
