//! Automatic SSH key setup: the step state machine, the key file name and
//! the remote commands.
//!
//! Safety rules kept here: password authentication is never disabled
//! without verified key authentication; the public key is appended to
//! `authorized_keys`, never written over it; `sshd_config` is backed up
//! before it is changed.

use std::path::PathBuf;
use std::time::{SystemTime, UNIX_EPOCH};

use vstd::prelude::*;

use crate::text::{
    chars_of, contains, contains_lit, fmt_u64, int_text, owned, push_char, push_str, string_of,
};
use crate::utils::platform::{home_dir, joined, opt_text, path_join};

verus! {

/// Longest sanitized host name used in a key file name.
pub const MAX_HOSTNAME_LENGTH: usize = 64;

// ---------------------------------------------------------------------------
// Key type
// ---------------------------------------------------------------------------

/// Supported SSH key types.
#[derive(Debug, Clone, Copy, PartialEq, Eq, Structural)]
pub enum KeyType {
    /// Ed25519 (recommended).
    Ed25519,
    /// RSA 4096-bit, for older systems.
    Rsa4096,
}

/// The file-name extension of a key type.
pub open spec fn key_extension(t: KeyType) -> Seq<char> {
    match t {
        KeyType::Ed25519 => "ed25519"@,
        KeyType::Rsa4096 => "rsa"@,
    }
}

impl KeyType {
    /// The file-name extension for this key type.
    pub fn extension(&self) -> (r: &'static str)
        ensures
            r@ == key_extension(*self),
    {
        match self {
            KeyType::Ed25519 => "ed25519",
            KeyType::Rsa4096 => "rsa",
        }
    }
}

// ---------------------------------------------------------------------------
// Steps and states
// ---------------------------------------------------------------------------

/// The steps of the key setup, in the order they run.
#[derive(Debug, Clone, Copy, PartialEq, Eq, PartialOrd, Ord, Structural)]
pub enum KeySetupStep {
    GenerateKey,
    CopyPublicKey,
    VerifyKeyAuth,
    DisablePassword,
    ReloadSshd,
    FinalCheck,
}

/// All steps, in order.
pub open spec fn step_order() -> Seq<KeySetupStep> {
    seq![
        KeySetupStep::GenerateKey,
        KeySetupStep::CopyPublicKey,
        KeySetupStep::VerifyKeyAuth,
        KeySetupStep::DisablePassword,
        KeySetupStep::ReloadSshd,
        KeySetupStep::FinalCheck,
    ]
}

/// The text shown for a step.
pub open spec fn step_description(s: KeySetupStep) -> Seq<char> {
    match s {
        KeySetupStep::GenerateKey => "Generating Ed25519 key pair"@,
        KeySetupStep::CopyPublicKey => "Copying public key to server"@,
        KeySetupStep::VerifyKeyAuth => "Verifying key authentication"@,
        KeySetupStep::DisablePassword => "Disabling password authentication"@,
        KeySetupStep::ReloadSshd => "Reloading SSH service"@,
        KeySetupStep::FinalCheck => "Final verification"@,
    }
}

impl KeySetupStep {
    /// All steps, in order.
    pub fn all_steps() -> (r: Vec<Self>)
        ensures
            r@ == step_order(),
    {
        let r = vec![
            KeySetupStep::GenerateKey,
            KeySetupStep::CopyPublicKey,
            KeySetupStep::VerifyKeyAuth,
            KeySetupStep::DisablePassword,
            KeySetupStep::ReloadSshd,
            KeySetupStep::FinalCheck,
        ];
        assert(r@ =~= step_order());
        r
    }

    /// The text shown for this step.
    pub fn description(&self) -> (r: &'static str)
        ensures
            r@ == step_description(*self),
    {
        match self {
            KeySetupStep::GenerateKey => "Generating Ed25519 key pair",
            KeySetupStep::CopyPublicKey => "Copying public key to server",
            KeySetupStep::VerifyKeyAuth => "Verifying key authentication",
            KeySetupStep::DisablePassword => "Disabling password authentication",
            KeySetupStep::ReloadSshd => "Reloading SSH service",
            KeySetupStep::FinalCheck => "Final verification",
        }
    }
}

/// Where the key setup stands.
#[derive(Debug, Clone, Copy, PartialEq, Eq, Structural)]
pub enum KeySetupState {
    /// Not started.
    NotStarted,
    /// In progress.
    InProgress,
    /// Done: key authentication works and password authentication is off.
    Success,
    /// The key works, but without sudo password authentication stays on.
    PartialSuccess,
    /// Failed with password authentication still on.
    FailedSafe,
    /// Failed after password authentication was turned off: roll back.
    NeedsRollback,
    /// The rollback is done.
    RolledBack,
}

/// The state machine's view: state, last step, sudo available, password
/// authentication disabled.
pub ghost struct MachineView {
    pub state: KeySetupState,
    pub current_step: Option<KeySetupStep>,
    pub has_sudo: bool,
    pub password_disabled: bool,
}

/// A fresh machine.
pub open spec fn machine_init() -> MachineView {
    MachineView {
        state: KeySetupState::NotStarted,
        current_step: None,
        has_sudo: true,
        password_disabled: false,
    }
}

/// The machine after `step` finished, successfully when `ok`.
///
/// Steps before `DisablePassword` fail safely; `VerifyKeyAuth` succeeding
/// without sudo is a partial success; `DisablePassword` succeeding marks
/// password authentication disabled; `ReloadSshd` or `FinalCheck` failing
/// needs a rollback; `FinalCheck` succeeding is success; any other success
/// keeps the setup in progress.
pub open spec fn step_next(m: MachineView, step: KeySetupStep, ok: bool) -> MachineView {
    let m1 = MachineView { current_step: Some(step), ..m };
    match step {
        KeySetupStep::GenerateKey | KeySetupStep::CopyPublicKey => if ok {
            MachineView { state: KeySetupState::InProgress, ..m1 }
        } else {
            MachineView { state: KeySetupState::FailedSafe, ..m1 }
        },
        KeySetupStep::VerifyKeyAuth => if !ok {
            MachineView { state: KeySetupState::FailedSafe, ..m1 }
        } else if !m.has_sudo {
            MachineView { state: KeySetupState::PartialSuccess, ..m1 }
        } else {
            MachineView { state: KeySetupState::InProgress, ..m1 }
        },
        KeySetupStep::DisablePassword => if ok {
            MachineView { password_disabled: true, ..m1 }
        } else {
            MachineView { state: KeySetupState::FailedSafe, ..m1 }
        },
        KeySetupStep::ReloadSshd => if ok {
            MachineView { state: KeySetupState::InProgress, ..m1 }
        } else {
            MachineView { state: KeySetupState::NeedsRollback, ..m1 }
        },
        KeySetupStep::FinalCheck => if ok {
            MachineView { state: KeySetupState::Success, ..m1 }
        } else {
            MachineView { state: KeySetupState::NeedsRollback, ..m1 }
        },
    }
}

/// The machine after a run of step results from `m`.
pub open spec fn run_steps(m: MachineView, trace: Seq<(KeySetupStep, bool)>) -> MachineView
    decreases trace.len(),
{
    if trace.len() == 0 {
        m
    } else {
        let prev = run_steps(m, trace.drop_last());
        step_next(prev, trace.last().0, trace.last().1)
    }
}

/// Tracks the progress of a key setup.
#[derive(Debug)]
pub struct KeySetupMachine {
    state: KeySetupState,
    current_step: Option<KeySetupStep>,
    has_sudo: bool,
    password_disabled: bool,
}

impl View for KeySetupMachine {
    type V = MachineView;

    closed spec fn view(&self) -> MachineView {
        MachineView {
            state: self.state,
            current_step: self.current_step,
            has_sudo: self.has_sudo,
            password_disabled: self.password_disabled,
        }
    }
}

impl KeySetupMachine {
    /// A machine that has not started, sudo assumed available.
    pub fn new() -> (r: Self)
        ensures
            r@ == machine_init(),
    {
        KeySetupMachine {
            state: KeySetupState::NotStarted,
            current_step: None,
            has_sudo: true,
            password_disabled: false,
        }
    }

    /// The current state.
    pub fn state(&self) -> (r: &KeySetupState)
        ensures
            *r == self@.state,
    {
        &self.state
    }

    /// Whether password authentication has been disabled.
    pub fn password_disabled(&self) -> (r: bool)
        ensures
            r == self@.password_disabled,
    {
        self.password_disabled
    }

    /// Records whether sudo is available.
    pub fn set_has_sudo(&mut self, has_sudo: bool)
        ensures
            final(self)@ == (MachineView { has_sudo, ..old(self)@ }),
    {
        self.has_sudo = has_sudo;
    }

    /// Records that `step` finished with `result`; see [`step_next`].
    pub fn step_result(&mut self, step: KeySetupStep, result: Result<(), anyhow::Error>)
        ensures
            final(self)@ == step_next(old(self)@, step, result is Ok),
    {
        self.current_step = Some(step);
        let ok = match result {
            Ok(()) => true,
            Err(_) => false,
        };
        match step {
            KeySetupStep::GenerateKey | KeySetupStep::CopyPublicKey => {
                self.state = if ok {
                    KeySetupState::InProgress
                } else {
                    KeySetupState::FailedSafe
                };
            },
            KeySetupStep::VerifyKeyAuth => {
                self.state = if !ok {
                    KeySetupState::FailedSafe
                } else if !self.has_sudo {
                    KeySetupState::PartialSuccess
                } else {
                    KeySetupState::InProgress
                };
            },
            KeySetupStep::DisablePassword => {
                if ok {
                    self.password_disabled = true;
                } else {
                    self.state = KeySetupState::FailedSafe;
                }
            },
            KeySetupStep::ReloadSshd => {
                self.state = if ok {
                    KeySetupState::InProgress
                } else {
                    KeySetupState::NeedsRollback
                };
            },
            KeySetupStep::FinalCheck => {
                self.state = if ok {
                    KeySetupState::Success
                } else {
                    KeySetupState::NeedsRollback
                };
            },
        }
    }

    /// Records that the rollback is done: password authentication is on
    /// again.
    pub fn rollback_complete(&mut self)
        ensures
            final(self)@ == (MachineView {
                state: KeySetupState::RolledBack,
                password_disabled: false,
                ..old(self)@
            }),
    {
        self.state = KeySetupState::RolledBack;
        self.password_disabled = false;
    }
}

impl Default for KeySetupMachine {
    fn default() -> (r: Self)
        ensures
            r@ == machine_init(),
    {
        Self::new()
    }
}

// ---------------------------------------------------------------------------
// Key file names
// ---------------------------------------------------------------------------

/// Whether `c` is alphabetic or numeric in Unicode, as
/// `char::is_alphanumeric` decides.
pub uninterp spec fn alphanumeric(c: char) -> bool;

/// An ASCII letter or digit.
pub open spec fn ascii_alphanumeric(c: char) -> bool {
    ('a' <= c <= 'z') || ('A' <= c <= 'Z') || ('0' <= c <= '9')
}

/// `char::is_alphanumeric`: its result is a function of the character
/// alone; on ASCII it holds exactly of letters and digits (std documents
/// it as alphabetic or numeric, which in ASCII are those).
#[verifier::external_body]
fn is_alphanumeric(c: char) -> (r: bool)
    ensures
        r == alphanumeric(c),
        (c as u32) < 128 ==> (r <==> ascii_alphanumeric(c)),
{
    c.is_alphanumeric()
}

/// A character allowed in a key file name as it is: alphanumeric, `-` or
/// `_`; every other character becomes `_`.
pub open spec fn safe_char(c: char) -> char {
    if alphanumeric(c) || c == '-' || c == '_' {
        c
    } else {
        '_'
    }
}

/// The host name as it appears in a key file name: each character made
/// safe, at most [`MAX_HOSTNAME_LENGTH`] characters, `unnamed_host` for an
/// empty name.
pub open spec fn sanitized(h: Seq<char>) -> Seq<char> {
    if h.len() == 0 {
        "unnamed_host"@
    } else {
        Seq::new(
            if h.len() > 64 {
                64
            } else {
                h.len()
            },
            |i: int| safe_char(h[i]),
        )
    }
}

/// A character that may stand in a key file name: in ASCII only a letter,
/// a digit, `-` or `_`.
pub open spec fn file_name_char(c: char) -> bool {
    (c as u32) < 128 ==> (ascii_alphanumeric(c) || c == '-' || c == '_')
}

/// An ASCII character as a key file name keeps it: a letter, a digit, `-`
/// or `_` stays, any other becomes `_`.
pub open spec fn ascii_kept(c: char) -> char {
    if ascii_alphanumeric(c) || c == '-' || c == '_' {
        c
    } else {
        '_'
    }
}

/// Sanitizes a host name for use in a key file name; see [`sanitized`].
/// Dots, slashes, backslashes and spaces become `_`, so the result cannot
/// leave the directory it is joined to.
pub fn sanitize_hostname(hostname: &str) -> (r: String)
    ensures
        r@ == sanitized(hostname@),
        forall|i: int| 0 <= i < r@.len() ==> file_name_char(#[trigger] r@[i]),
        forall|i: int|
            0 <= i < r@.len() && i < hostname@.len() && (hostname@[i] as u32) < 128 ==> #[trigger] r@[i]
                == ascii_kept(hostname@[i]),
        forall|i: int|
            0 <= i < r@.len() ==> {
                let c = #[trigger] r@[i];
                c != '.' && c != '/' && c != '\\' && c != ' '
            },
{
    let v = chars_of(hostname);
    if v.len() == 0 {
        let r = owned("unnamed_host");
        proof {
            reveal_strlit("unnamed_host");
            assert forall|i: int| 0 <= i < r@.len() implies file_name_char(#[trigger] r@[i]) by {
                assert(r@ == "unnamed_host"@);
            }
        }
        return r;
    }
    let n: usize = if v.len() > MAX_HOSTNAME_LENGTH {
        MAX_HOSTNAME_LENGTH
    } else {
        v.len()
    };
    let mut r = String::new();
    let mut i: usize = 0;
    while i < n
        invariant
            i <= n <= v.len(),
            n == (if v.len() > 64 {
                64
            } else {
                v.len()
            }),
            r@ == Seq::new(i as nat, |j: int| safe_char(v@[j])),
            forall|j: int| 0 <= j < i ==> file_name_char(#[trigger] r@[j]),
            forall|j: int|
                0 <= j < i && (v@[j] as u32) < 128 ==> #[trigger] r@[j] == ascii_kept(v@[j]),
        decreases n - i,
    {
        let c = v[i];
        let keep = is_alphanumeric(c) || c == '-' || c == '_';
        assert(keep ==> file_name_char(c));
        assert((c as u32) < 128 ==> (if keep {
            c
        } else {
            '_'
        }) == ascii_kept(c));
        push_char(
            &mut r,
            if keep {
                c
            } else {
                '_'
            },
        );
        i = i + 1;
        assert(r@ =~= Seq::new(i as nat, |j: int| safe_char(v@[j])));
    }
    r
}

/// The key file name for a host: `omnyssh_<sanitized name>_<extension>`.
pub open spec fn key_file_name_of(host: Seq<char>, t: KeyType) -> Seq<char> {
    "omnyssh_"@ + sanitized(host) + "_"@ + key_extension(t)
}

/// The key file name for a host; see [`key_file_name_of`].
pub fn key_file_name(host_name: &str, key_type: KeyType) -> (r: String)
    ensures
        r@ == key_file_name_of(host_name@, key_type),
{
    let mut r = owned("omnyssh_");
    let s = sanitize_hostname(host_name);
    push_str(&mut r, s.as_str());
    push_str(&mut r, "_");
    push_str(&mut r, key_type.extension());
    r
}

/// The key file for a host under the home directory `h`: `.ssh`, then the
/// key file name.
pub open spec fn key_path_of(h: Seq<char>, host: Seq<char>, t: KeyType) -> Seq<char> {
    joined(joined(h, ".ssh"@), key_file_name_of(host, t))
}

/// The key file for a host under the home directory `home`: `.ssh` joined
/// to it, then [`key_file_name`]; present whenever there is a home
/// directory.
pub fn key_path_under(home: Option<String>, host_name: &str, key_type: KeyType) -> (r: Option<
    String,
>)
    ensures
        opt_text(r) == (match home {
            Some(h) => Some(key_path_of(h@, host_name@, key_type)),
            None => None,
        }),
{
    match home {
        Some(home) => {
            let name = key_file_name(host_name, key_type);
            let ssh = path_join(home.as_str(), ".ssh");
            Some(path_join(ssh.as_str(), name.as_str()))
        },
        None => None,
    }
}

/// The path of the key file for a host: [`key_path_under`] the home
/// directory that `dirs::home_dir` reports; `None` when there is none.
pub fn key_path_for_host(host_name: &str, key_type: KeyType) -> (r: Option<String>)
    ensures
        r matches Some(p) ==> exists|h: Seq<char>| p@ == key_path_of(h, host_name@, key_type),
{
    key_path_under(home_dir(), host_name, key_type)
}

// ---------------------------------------------------------------------------
// Remote commands
// ---------------------------------------------------------------------------

/// `s` with every `'` replaced by `'\''` (close the quote, an escaped
/// quote, reopen), so that it can stand inside single quotes in a shell.
pub open spec fn escape_quotes(s: Seq<char>) -> Seq<char>
    decreases s.len(),
{
    if s.len() == 0 {
        Seq::empty()
    } else {
        escape_quotes(s.drop_last()) + if s.last() == '\'' {
            "'\\''"@
        } else {
            seq![s.last()]
        }
    }
}

/// The start of the command that appends a key to `authorized_keys`.
pub open spec fn authorized_keys_head() -> Seq<char> {
    r#"mkdir -p ~/.ssh && chmod 700 ~/.ssh && \
           echo '"#@
}

/// The end of the command that appends a key to `authorized_keys`.
pub open spec fn authorized_keys_tail() -> Seq<char> {
    r#"' >> ~/.ssh/authorized_keys && \
           chmod 600 ~/.ssh/authorized_keys"#@
}

/// The command that appends `key` to `~/.ssh/authorized_keys`.
pub open spec fn authorized_keys_command(key: Seq<char>) -> Seq<char> {
    authorized_keys_head() + escape_quotes(key) + authorized_keys_tail()
}

/// Builds the command that creates `~/.ssh` if needed, appends the public
/// key to `authorized_keys` (never overwriting it) and sets permissions.
pub fn build_authorized_keys_command(public_key: &str) -> (r: String)
    ensures
        r@ == authorized_keys_command(public_key@),
{
    let v = chars_of(public_key);
    let mut escaped = String::new();
    let mut i: usize = 0;
    assert(v@.take(0) =~= Seq::<char>::empty());
    while i < v.len()
        invariant
            i <= v.len(),
            escaped@ == escape_quotes(v@.take(i as int)),
        decreases v.len() - i,
    {
        assert(v@.take(i + 1).drop_last() == v@.take(i as int));
        assert(v@.take(i + 1).last() == v@[i as int]);
        if v[i] == '\'' {
            push_str(&mut escaped, "'\\''");
        } else {
            let ghost e0 = escaped@;
            push_char(&mut escaped, v[i]);
            assert(escaped@ == e0 + seq![v@[i as int]]);
        }
        i = i + 1;
    }
    assert(v@.take(v.len() as int) == v@);
    let mut r = owned(r#"mkdir -p ~/.ssh && chmod 700 ~/.ssh && \
           echo '"#);
    push_str(&mut r, escaped.as_str());
    push_str(&mut r, r#"' >> ~/.ssh/authorized_keys && \
           chmod 600 ~/.ssh/authorized_keys"#);
    r
}


/// The command that disables password authentication, given the backup's
/// timestamp: check for sudo, back up `sshd_config` under the timestamp,
/// comment out `Include` lines, turn off `PasswordAuthentication`,
/// `ChallengeResponseAuthentication`, `KbdInteractiveAuthentication` and
/// `UsePAM`, and validate with `sshd -t`, restoring the backup if that fails.
pub open spec fn disable_password_text(timestamp: Seq<char>) -> Seq<char> {
    r#"sudo -n true 2>/dev/null || { echo "OMNYSSH_NO_SUDO"; exit 1; }; \
           sudo cp /etc/ssh/sshd_config /etc/ssh/sshd_config.omnyssh_backup."#@ + timestamp + r#" && \
           sudo sed -i.bak 's/^Include\s/#Include /' /etc/ssh/sshd_config && \
           sudo sed -i.bak 's/^#\?PasswordAuthentication.*/PasswordAuthentication no/' /etc/ssh/sshd_config && \
           sudo sed -i.bak 's/^#\?ChallengeResponseAuthentication.*/ChallengeResponseAuthentication no/' /etc/ssh/sshd_config && \
           sudo sed -i.bak 's/^#\?KbdInteractiveAuthentication.*/KbdInteractiveAuthentication no/' /etc/ssh/sshd_config && \
           sudo sed -i.bak 's/^#\?UsePAM.*/UsePAM no/' /etc/ssh/sshd_config && \
           sudo sshd -t || { echo "OMNYSSH_CONFIG_ERROR"; sudo cp /etc/ssh/sshd_config.omnyssh_backup."#@ + timestamp + r#" /etc/ssh/sshd_config; exit 1; }"#@
}

/// `SystemTime::now`: the system clock's reading. Nothing is promised of it.
#[verifier::external_body]
fn system_now() -> (r: SystemTime) {
    SystemTime::now()
}

/// `SystemTime::duration_since(UNIX_EPOCH)`: `Ok` with the time since the
/// Unix epoch as whole seconds and the nanoseconds beyond them, or `Err`
/// with how long before the epoch the reading lies. It depends on the
/// reading, so nothing is promised of it.
#[verifier::external_body]
fn since_epoch(t: &SystemTime) -> (r: Result<(u64, u32), (u64, u32)>) {
    match t.duration_since(UNIX_EPOCH) {
        Ok(d) => Ok((d.as_secs(), d.subsec_nanos())),
        Err(e) => Err((e.duration().as_secs(), e.duration().subsec_nanos())),
    }
}

/// `YYYYMMDD_HHMMSS`: eight digits, `_`, six digits.
pub open spec fn stamp_shape(t: Seq<char>) -> bool {
    &&& t.len() == 15
    &&& t[8] == '_'
    &&& forall|i: int| 0 <= i < 15 && i != 8 ==> '0' <= #[trigger] t[i] <= '9'
}

/// What `chrono::DateTime::<Utc>::from_timestamp(secs, nanos)` formatted
/// with `%Y%m%d_%H%M%S` gives, `None` where chrono has no such time.
pub uninterp spec fn utc_stamp(secs: int, nanos: int) -> Option<Seq<char>>;

/// `chrono::DateTime::<Utc>::from_timestamp(secs, nanos)`, formatted with
/// `%Y%m%d_%H%M%S`; its result is named [`utc_stamp`]. From 1970 through
/// the year 9999 (`secs` up to 253402300799) with `nanos` under a second,
/// chrono has the time, and its format pads `%Y` to four digits and the
/// other fields to two.
#[verifier::external_body]
fn timestamp_text(secs: i64, nanos: u32) -> (r: Option<String>)
    ensures
        opt_text(r) == utc_stamp(secs as int, nanos as int),
        0 <= secs <= 253402300799 && nanos < 1_000_000_000 ==> r is Some && stamp_shape(r.unwrap()@),
{
    match chrono::DateTime::<chrono::Utc>::from_timestamp(secs, nanos) {
        Some(d) => Some(d.format("%Y%m%d_%H%M%S").to_string()),
        None => None,
    }
}

/// The command that disables password authentication, with its backup named
/// after `timestamp`; see [`disable_password_text`].
pub fn disable_password_command_at(timestamp: &str) -> (r: String)
    ensures
        r@ == disable_password_text(timestamp@),
{
    let mut r = owned(r#"sudo -n true 2>/dev/null || { echo "OMNYSSH_NO_SUDO"; exit 1; }; \
           sudo cp /etc/ssh/sshd_config /etc/ssh/sshd_config.omnyssh_backup."#);
    push_str(&mut r, timestamp);
    push_str(&mut r, r#" && \
           sudo sed -i.bak 's/^Include\s/#Include /' /etc/ssh/sshd_config && \
           sudo sed -i.bak 's/^#\?PasswordAuthentication.*/PasswordAuthentication no/' /etc/ssh/sshd_config && \
           sudo sed -i.bak 's/^#\?ChallengeResponseAuthentication.*/ChallengeResponseAuthentication no/' /etc/ssh/sshd_config && \
           sudo sed -i.bak 's/^#\?KbdInteractiveAuthentication.*/KbdInteractiveAuthentication no/' /etc/ssh/sshd_config && \
           sudo sed -i.bak 's/^#\?UsePAM.*/UsePAM no/' /etc/ssh/sshd_config && \
           sudo sshd -t || { echo "OMNYSSH_CONFIG_ERROR"; sudo cp /etc/ssh/sshd_config.omnyssh_backup."#);
    push_str(&mut r, timestamp);
    push_str(&mut r, r#" /etc/ssh/sshd_config; exit 1; }"#);
    r
}

/// The command that disables password authentication for a clock reading
/// `since` (see [`disable_password_command_for`]).
pub open spec fn disable_for(since: Result<(u64, u32), (u64, u32)>) -> Option<Seq<char>> {
    match since {
        Ok((s, n)) => if s <= i64::MAX {
            match utc_stamp(s as int, n as int) {
                Some(t) => Some(disable_password_text(t)),
                None => None,
            }
        } else {
            None
        },
        Err(_) => None,
    }
}

/// The command that disables password authentication for a clock reading
/// `since` (the time since the Unix epoch as seconds and nanoseconds, or
/// `Err` with how long before it), its backup named after that UTC time as
/// `YYYYMMDD_HHMMSS`. `None` for a reading before the epoch, or one past
/// what a signed 64-bit count of seconds or chrono holds.
pub fn disable_password_command_for(since: Result<(u64, u32), (u64, u32)>) -> (r: Option<String>)
    ensures
        opt_text(r) == disable_for(since),
        since matches Ok((s, n)) && s <= 253402300799 && n < 1_000_000_000 ==> (r matches Some(c)
            && exists|t: Seq<char>| stamp_shape(t) && c@ == disable_password_text(t)),
{
    match since {
        Ok((s, n)) => {
            if s <= 9223372036854775807u64 {
                match timestamp_text(s as i64, n) {
                    Some(t) => Some(disable_password_command_at(t.as_str())),
                    None => None,
                }
            } else {
                None
            }
        },
        Err(_) => None,
    }
}

/// Builds the command that disables password authentication, its backup
/// named after the current UTC time; `None` where the clock reads before
/// the Unix epoch or past what chrono holds.
pub fn build_disable_password_command() -> (r: Option<String>)
    ensures
        r matches Some(c) ==> exists|t: Seq<char>| c@ == disable_password_text(t),
{
    let now = system_now();
    let since = since_epoch(&now);
    let r = disable_password_command_for(since);
    proof {
        if r is Some {
            let (s, n) = since->Ok_0;
            assert(disable_for(since) == Some(disable_password_text(utc_stamp(s as int, n as int)->0)));
        }
    }
    r
}

/// Seconds the whole key setup may take before it is abandoned.
pub const TOTAL_TIMEOUT_SECS: u64 = 60;

/// The state and message a key setup ends with when it ran past
/// `total_secs` seconds: `FailedSafe`, with no rollback sent, and "Key
/// setup timed out after N seconds".
pub fn timeout_report(total_secs: u64) -> (r: (KeySetupState, String))
    ensures
        r.0 == KeySetupState::FailedSafe,
        r.1@ == "Key setup timed out after "@ + int_text(total_secs as int) + " seconds"@,
{
    let mut m = owned("Key setup timed out after ");
    push_str(&mut m, fmt_u64(total_secs).as_str());
    push_str(&mut m, " seconds");
    (KeySetupState::FailedSafe, m)
}

/// The command that reloads the SSH daemon through systemd or `service`.
pub open spec fn reload_sshd_text() -> Seq<char> {
    r#"if command -v systemctl &>/dev/null; then \
           sudo systemctl reload sshd 2>/dev/null || sudo systemctl reload ssh 2>/dev/null; \
       elif command -v service &>/dev/null; then \
           sudo service sshd reload 2>/dev/null || sudo service ssh reload 2>/dev/null; \
       else \
           echo "OMNYSSH_NO_INIT_SYSTEM"; exit 1; \
       fi"#@
}

/// Builds the command that reloads (not restarts, which would drop
/// existing connections) the SSH daemon.
pub fn build_reload_sshd_command() -> (r: String)
    ensures
        r@ == reload_sshd_text(),
{
    owned(r#"if command -v systemctl &>/dev/null; then \
           sudo systemctl reload sshd 2>/dev/null || sudo systemctl reload ssh 2>/dev/null; \
       elif command -v service &>/dev/null; then \
           sudo service sshd reload 2>/dev/null || sudo service ssh reload 2>/dev/null; \
       else \
           echo "OMNYSSH_NO_INIT_SYSTEM"; exit 1; \
       fi"#)
}

/// The command that restores the newest backup of `sshd_config` and reloads
/// the daemon, printing `OMNYSSH_NO_BACKUP` when there is none.
pub open spec fn rollback_text() -> Seq<char> {
    r#"BACKUP=$(ls -t /etc/ssh/sshd_config.omnyssh_backup.* 2>/dev/null | head -1); \
       if [ -n "$BACKUP" ]; then \
           sudo cp "$BACKUP" /etc/ssh/sshd_config && \
           (sudo systemctl reload sshd 2>/dev/null || sudo systemctl reload ssh 2>/dev/null || sudo service sshd reload 2>/dev/null || sudo service ssh reload); \
       else \
           echo "OMNYSSH_NO_BACKUP"; exit 1; \
       fi"#@
}

/// Builds the emergency rollback command.
pub fn build_rollback_command() -> (r: String)
    ensures
        r@ == rollback_text(),
{
    owned(r#"BACKUP=$(ls -t /etc/ssh/sshd_config.omnyssh_backup.* 2>/dev/null | head -1); \
       if [ -n "$BACKUP" ]; then \
           sudo cp "$BACKUP" /etc/ssh/sshd_config && \
           (sudo systemctl reload sshd 2>/dev/null || sudo systemctl reload ssh 2>/dev/null || sudo service sshd reload 2>/dev/null || sudo service ssh reload); \
       else \
           echo "OMNYSSH_NO_BACKUP"; exit 1; \
       fi"#)
}

/// The outcome of a key setup.
#[derive(Debug)]
pub struct KeySetupResult {
    /// The generated private key file.
    pub key_path: PathBuf,
    /// The final state of the setup.
    pub state: KeySetupState,
    /// What went wrong, if the setup failed.
    pub error_message: Option<String>,
}


// ---------------------------------------------------------------------------
// The setup flow
// ---------------------------------------------------------------------------

/// What the key setup does next.
#[derive(Debug, Clone, Copy, PartialEq, Eq, Structural)]
pub enum SetupAction {
    /// Generate (or reuse) the key pair.
    GenerateKey,
    /// Run [`build_authorized_keys_command`] with the public key.
    CopyPublicKey,
    /// Connect with the key alone.
    VerifyKeyAuth,
    /// Run `sudo -n true`.
    CheckSudo,
    /// Run [`build_disable_password_command`].
    DisablePassword,
    /// Run [`build_reload_sshd_command`].
    ReloadSshd,
    /// Connect with the key alone again.
    FinalCheck,
    /// Run [`build_rollback_command`].
    Rollback,
    /// Nothing more: the machine's state is the outcome.
    Finish,
}

/// How the last action ended.
#[derive(Debug, Clone)]
pub enum StepOutcome {
    /// It succeeded (an action that prints nothing the flow reads).
    Succeeded,
    /// It failed or timed out.
    Failed,
    /// The remote command ran and printed this.
    Output(String),
}

/// The view of a [`StepOutcome`].
pub ghost enum OutcomeView {
    Succeeded,
    Failed,
    Output(Seq<char>),
}

impl View for StepOutcome {
    type V = OutcomeView;

    open spec fn view(&self) -> OutcomeView {
        match self {
            StepOutcome::Succeeded => OutcomeView::Succeeded,
            StepOutcome::Failed => OutcomeView::Failed,
            StepOutcome::Output(s) => OutcomeView::Output(s@),
        }
    }
}

/// The action succeeded, whether or not it printed something.
pub open spec fn succeeded(o: OutcomeView) -> bool {
    !(o is Failed)
}

/// What the action printed (nothing for an action without output).
pub open spec fn printed(o: OutcomeView) -> Seq<char> {
    match o {
        OutcomeView::Output(s) => s,
        _ => Seq::empty(),
    }
}

/// The machine and the next action after `last` ended with `o`.
///
/// The steps run in order and the first failure ends the setup. Without
/// sudo (the check fails, or the disable command prints `OMNYSSH_NO_SUDO`)
/// the key is kept and password authentication left on. A disable command
/// that prints `OMNYSSH_CONFIG_ERROR` restored the backup and fails safely.
/// A failed reload or final check leads to a rollback; a rollback that does
/// not print `OMNYSSH_NO_BACKUP` restores password authentication.
pub open spec fn flow_step(m: MachineView, last: SetupAction, o: OutcomeView) -> (
    MachineView,
    SetupAction,
) {
    let ok = succeeded(o);
    match last {
        SetupAction::GenerateKey => (
            step_next(m, KeySetupStep::GenerateKey, ok),
            if ok {
                SetupAction::CopyPublicKey
            } else {
                SetupAction::Finish
            },
        ),
        SetupAction::CopyPublicKey => (
            step_next(m, KeySetupStep::CopyPublicKey, ok),
            if ok {
                SetupAction::VerifyKeyAuth
            } else {
                SetupAction::Finish
            },
        ),
        SetupAction::VerifyKeyAuth => (
            step_next(m, KeySetupStep::VerifyKeyAuth, ok),
            if ok {
                SetupAction::CheckSudo
            } else {
                SetupAction::Finish
            },
        ),
        SetupAction::CheckSudo => if ok {
            (m, SetupAction::DisablePassword)
        } else {
            (
                step_next(MachineView { has_sudo: false, ..m }, KeySetupStep::VerifyKeyAuth, true),
                SetupAction::Finish,
            )
        },
        SetupAction::DisablePassword => if !ok {
            (step_next(m, KeySetupStep::DisablePassword, false), SetupAction::Finish)
        } else if contains(printed(o), "OMNYSSH_NO_SUDO"@) {
            (
                step_next(MachineView { has_sudo: false, ..m }, KeySetupStep::VerifyKeyAuth, true),
                SetupAction::Finish,
            )
        } else if contains(printed(o), "OMNYSSH_CONFIG_ERROR"@) {
            (step_next(m, KeySetupStep::DisablePassword, false), SetupAction::Finish)
        } else {
            (step_next(m, KeySetupStep::DisablePassword, true), SetupAction::ReloadSshd)
        },
        SetupAction::ReloadSshd => (
            step_next(m, KeySetupStep::ReloadSshd, ok),
            if ok {
                SetupAction::FinalCheck
            } else {
                SetupAction::Rollback
            },
        ),
        SetupAction::FinalCheck => (
            step_next(m, KeySetupStep::FinalCheck, ok),
            if ok {
                SetupAction::Finish
            } else {
                SetupAction::Rollback
            },
        ),
        SetupAction::Rollback => if ok && !contains(printed(o), "OMNYSSH_NO_BACKUP"@) {
            (
                MachineView { state: KeySetupState::RolledBack, password_disabled: false, ..m },
                SetupAction::Finish,
            )
        } else {
            (m, SetupAction::Finish)
        },
        SetupAction::Finish => (m, SetupAction::Finish),
    }
}

/// Records how `last` ended in the machine and returns the next action; see
/// [`flow_step`]. A setup starts with [`SetupAction::GenerateKey`] on a new
/// machine and ends when this returns [`SetupAction::Finish`].
pub fn next_action(machine: &mut KeySetupMachine, last: SetupAction, outcome: &StepOutcome) -> (r:
    SetupAction)
    ensures
        (final(machine)@, r) == flow_step(old(machine)@, last, outcome@),
{
    let ok = match outcome {
        StepOutcome::Failed => false,
        _ => true,
    };
    let out: Vec<char> = match outcome {
        StepOutcome::Output(s) => chars_of(s.as_str()),
        _ => Vec::new(),
    };
    assert(out@ == printed(outcome@));
    let res: Result<(), anyhow::Error> = Ok(());
    match last {
        SetupAction::GenerateKey => {
            machine.step_result(KeySetupStep::GenerateKey, step_outcome(ok));
            if ok {
                SetupAction::CopyPublicKey
            } else {
                SetupAction::Finish
            }
        },
        SetupAction::CopyPublicKey => {
            machine.step_result(KeySetupStep::CopyPublicKey, step_outcome(ok));
            if ok {
                SetupAction::VerifyKeyAuth
            } else {
                SetupAction::Finish
            }
        },
        SetupAction::VerifyKeyAuth => {
            machine.step_result(KeySetupStep::VerifyKeyAuth, step_outcome(ok));
            if ok {
                SetupAction::CheckSudo
            } else {
                SetupAction::Finish
            }
        },
        SetupAction::CheckSudo => {
            if ok {
                SetupAction::DisablePassword
            } else {
                machine.set_has_sudo(false);
                machine.step_result(KeySetupStep::VerifyKeyAuth, res);
                SetupAction::Finish
            }
        },
        SetupAction::DisablePassword => {
            if !ok {
                machine.step_result(KeySetupStep::DisablePassword, step_outcome(false));
                SetupAction::Finish
            } else if contains_lit(&out, "OMNYSSH_NO_SUDO") {
                machine.set_has_sudo(false);
                machine.step_result(KeySetupStep::VerifyKeyAuth, res);
                SetupAction::Finish
            } else if contains_lit(&out, "OMNYSSH_CONFIG_ERROR") {
                machine.step_result(KeySetupStep::DisablePassword, step_outcome(false));
                SetupAction::Finish
            } else {
                machine.step_result(KeySetupStep::DisablePassword, res);
                SetupAction::ReloadSshd
            }
        },
        SetupAction::ReloadSshd => {
            machine.step_result(KeySetupStep::ReloadSshd, step_outcome(ok));
            if ok {
                SetupAction::FinalCheck
            } else {
                SetupAction::Rollback
            }
        },
        SetupAction::FinalCheck => {
            machine.step_result(KeySetupStep::FinalCheck, step_outcome(ok));
            if ok {
                SetupAction::Finish
            } else {
                SetupAction::Rollback
            }
        },
        SetupAction::Rollback => {
            if ok && !contains_lit(&out, "OMNYSSH_NO_BACKUP") {
                machine.rollback_complete();
            }
            SetupAction::Finish
        },
        SetupAction::Finish => SetupAction::Finish,
    }
}

/// The message of a failed step.
#[verifier::external_body]
fn step_error() -> (r: anyhow::Error) {
    anyhow::Error::msg("step failed")
}

/// `Ok(())` when `ok`, else an error.
fn step_outcome(ok: bool) -> (r: Result<(), anyhow::Error>)
    ensures
        r is Ok <==> ok,
{
    if ok {
        Ok(())
    } else {
        Err(step_error())
    }
}

/// The machine, next action and whether key authentication was verified,
/// after a setup from the start has seen `outs`.
pub open spec fn flow_run(outs: Seq<OutcomeView>) -> (MachineView, SetupAction, bool)
    decreases outs.len(),
{
    if outs.len() == 0 {
        (machine_init(), SetupAction::GenerateKey, false)
    } else {
        let (m, a, verified) = flow_run(outs.drop_last());
        let o = outs.last();
        let (m2, a2) = flow_step(m, a, o);
        (m2, a2, verified || (a == SetupAction::VerifyKeyAuth && succeeded(o)))
    }
}

/// What holds at every point of a setup run from the start.
pub open spec fn flow_safe(f: (MachineView, SetupAction, bool)) -> bool {
    let (m, a, verified) = f;
    &&& m.password_disabled ==> verified
    &&& (a == SetupAction::CheckSudo || a == SetupAction::DisablePassword) ==> verified
    &&& (a == SetupAction::GenerateKey || a == SetupAction::CopyPublicKey || a
        == SetupAction::VerifyKeyAuth || a == SetupAction::CheckSudo || a
        == SetupAction::DisablePassword) ==> !m.password_disabled
    &&& (a == SetupAction::ReloadSshd || a == SetupAction::FinalCheck) ==> m.password_disabled
    &&& m.state == KeySetupState::Success ==> m.password_disabled
    &&& m.state == KeySetupState::FailedSafe ==> !m.password_disabled
    &&& m.state == KeySetupState::PartialSuccess ==> !m.password_disabled
}

/// [`flow_safe`], with what the proof carries from step to step.
spec fn flow_inv(f: (MachineView, SetupAction, bool)) -> bool {
    let (m, a, verified) = f;
    &&& flow_safe(f)
    &&& (a == SetupAction::GenerateKey || a == SetupAction::CopyPublicKey || a
        == SetupAction::VerifyKeyAuth || a == SetupAction::CheckSudo || a
        == SetupAction::DisablePassword) ==> m.has_sudo
    &&& (a == SetupAction::CheckSudo || a == SetupAction::DisablePassword) ==> m.state
        == KeySetupState::InProgress
}

proof fn lemma_flow_inv(outs: Seq<OutcomeView>)
    ensures
        flow_inv(flow_run(outs)),
    decreases outs.len(),
{
    if outs.len() > 0 {
        lemma_flow_inv(outs.drop_last());
    }
}

/// Safety of the key setup flow: whatever the steps report, password
/// authentication is disabled only after key authentication was verified;
/// the disable command runs only after that verification and while password
/// authentication is still on; success means password authentication is
/// off; a safe failure or a partial success leaves it on.
pub proof fn lemma_flow_safe(outs: Seq<OutcomeView>)
    ensures
        flow_safe(flow_run(outs)),
{
    lemma_flow_inv(outs);
}


/// Where an action stands in the order of the setup.
pub open spec fn action_rank(a: SetupAction) -> int {
    match a {
        SetupAction::GenerateKey => 0,
        SetupAction::CopyPublicKey => 1,
        SetupAction::VerifyKeyAuth => 2,
        SetupAction::CheckSudo => 3,
        SetupAction::DisablePassword => 4,
        SetupAction::ReloadSshd => 5,
        SetupAction::FinalCheck => 6,
        SetupAction::Rollback => 7,
        SetupAction::Finish => 8,
    }
}

proof fn lemma_rank_grows(outs: Seq<OutcomeView>, i: int, j: int)
    requires
        0 <= i < j <= outs.len(),
    ensures
        action_rank(flow_run(outs.take(j)).1) >= action_rank(flow_run(outs.take(i)).1) + (if flow_run(
            outs.take(i),
        ).1 == SetupAction::Finish {
            0int
        } else {
            1int
        }),
    decreases j - i,
{
    assert(outs.take(j).drop_last() == outs.take(j - 1));
    if j - 1 > i {
        lemma_rank_grows(outs, i, j - 1);
    }
}

/// The setup moves forward only: each action it asks for comes after the
/// one before in the order generate, copy, verify, check sudo, disable
/// password, reload, final check, rollback, finish. So password
/// authentication is disabled at most once in a setup: once the disable
/// command was asked for, it is never asked for again.
pub proof fn lemma_disable_at_most_once(outs: Seq<OutcomeView>, i: int, j: int)
    requires
        0 <= i < j <= outs.len(),
    ensures
        action_rank(flow_run(outs.take(i)).1) <= action_rank(flow_run(outs.take(j)).1),
        flow_run(outs.take(i)).1 == SetupAction::DisablePassword ==> flow_run(outs.take(j)).1
            != SetupAction::DisablePassword,
{
    lemma_rank_grows(outs, i, j);
}

/// The state machine alone: password authentication is marked disabled only
/// after a `DisablePassword` step reported success, and a failed step never
/// marks it disabled.
pub proof fn lemma_disable_needs_success(m: MachineView, trace: Seq<(KeySetupStep, bool)>)
    requires
        !m.password_disabled,
    ensures
        run_steps(m, trace).password_disabled ==> exists|i: int|
            0 <= i < trace.len() && #[trigger] trace[i] == (KeySetupStep::DisablePassword, true),
    decreases trace.len(),
{
    if trace.len() > 0 {
        let t0 = trace.drop_last();
        lemma_disable_needs_success(m, t0);
        if run_steps(m, t0).password_disabled {
            let i = choose|i: int|
                0 <= i < t0.len() && #[trigger] t0[i] == (KeySetupStep::DisablePassword, true);
            assert(trace[i] == t0[i]);
        } else if run_steps(m, trace).password_disabled {
            assert(trace[trace.len() - 1] == (KeySetupStep::DisablePassword, true));
        }
    }
}

/// A failed step leaves the password flag as it was.
pub proof fn lemma_failure_keeps_password(m: MachineView, step: KeySetupStep)
    ensures
        step_next(m, step, false).password_disabled == m.password_disabled,
{
}


/// A sanitized host name is never empty and has at most
/// [`MAX_HOSTNAME_LENGTH`] characters; from a non-empty name, each of its
/// characters is alphanumeric, `-` or `_`, and it keeps the name's first
/// characters where they were already allowed.
pub proof fn lemma_sanitized_safe(h: Seq<char>)
    ensures
        1 <= sanitized(h).len() <= MAX_HOSTNAME_LENGTH,
        h.len() == 0 ==> sanitized(h) == "unnamed_host"@,
        h.len() > 0 ==> forall|i: int|
            0 <= i < sanitized(h).len() ==> {
                let c = #[trigger] sanitized(h)[i];
                alphanumeric(c) || c == '-' || c == '_'
            },
        forall|i: int|
            0 <= i < sanitized(h).len() && i < h.len() && (alphanumeric(h[i]) || h[i] == '-'
                || h[i] == '_') ==> #[trigger] sanitized(h)[i] == h[i],
{
    if h.len() == 0 {
        reveal_strlit("unnamed_host");
    }
}


/// What a POSIX shell reads from `s` written inside single quotes, up to the
/// closing quote that follows it: every character stands for itself, and the
/// only way out of the quotes is `'\''`, which stands for one `'` and
/// reopens them; `None` when `s` would end the quoted word early or run
/// something else.
pub open spec fn single_quoted_text(s: Seq<char>) -> Option<Seq<char>>
    decreases s.len(),
{
    if s.len() == 0 {
        Some(Seq::empty())
    } else if s[0] == '\'' {
        if s.len() >= 4 && s[1] == '\\' && s[2] == '\'' && s[3] == '\'' {
            match single_quoted_text(s.skip(4)) {
                Some(r) => Some(seq!['\''] + r),
                None => None,
            }
        } else {
            None
        }
    } else {
        match single_quoted_text(s.drop_first()) {
            Some(r) => Some(seq![s[0]] + r),
            None => None,
        }
    }
}

proof fn lemma_escape_append(a: Seq<char>, b: Seq<char>)
    ensures
        escape_quotes(a + b) == escape_quotes(a) + escape_quotes(b),
    decreases b.len(),
{
    if b.len() == 0 {
        assert(a + b == a);
    } else {
        lemma_escape_append(a, b.drop_last());
        assert((a + b).drop_last() == a + b.drop_last());
        assert((a + b).last() == b.last());
    }
}

proof fn lemma_single_quoted_prefix(a: Seq<char>, t: Seq<char>)
    ensures
        single_quoted_text(escape_quotes(a) + t) == (match single_quoted_text(t) {
            Some(r) => Some(a + r),
            None => None::<Seq<char>>,
        }),
    decreases a.len(),
{
    if a.len() == 0 {
        assert(escape_quotes(a) + t == t);
        match single_quoted_text(t) {
            Some(r) => assert(a + r == r),
            None => {},
        }
    } else {
        let c = a[0];
        let rest = a.drop_first();
        assert(a == seq![c] + rest);
        lemma_escape_append(seq![c], rest);
        assert(seq![c].drop_last() == Seq::<char>::empty());
        assert(seq![c].last() == c);
        assert(escape_quotes(Seq::<char>::empty()) == Seq::<char>::empty());
        lemma_single_quoted_prefix(rest, t);
        let s = escape_quotes(a) + t;
        if c == '\'' {
            reveal_strlit("'\\''");
            assert(escape_quotes(seq![c]) =~= "'\\''"@);
            assert(s == escape_quotes(seq![c]) + (escape_quotes(rest) + t));
            assert(s.skip(4) == escape_quotes(rest) + t);
        } else {
            assert(escape_quotes(seq![c]) =~= seq![c]);
            assert(s.drop_first() == escape_quotes(rest) + t);
        }
        match single_quoted_text(t) {
            Some(r) => assert(seq![c] + (rest + r) == a + r),
            None => {},
        }
    }
}

/// The public key reaches `echo` unchanged: written between the single
/// quotes of [`authorized_keys_command`], its escaped form reads back as
/// exactly the key, so no key text can end the quoting and change the
/// `>>` (append) redirection.
pub proof fn lemma_key_quoted_exactly(key: Seq<char>)
    ensures
        single_quoted_text(escape_quotes(key)) == Some(key),
{
    lemma_single_quoted_prefix(key, Seq::empty());
    assert(escape_quotes(key) + Seq::<char>::empty() == escape_quotes(key));
    assert(key + Seq::<char>::empty() == key);
}

} // verus!
