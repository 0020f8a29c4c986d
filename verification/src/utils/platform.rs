//! Locations of the configuration files, resolved through the `dirs` crate
//! so that no home directory is written into the code. Paths are held as
//! text (directories whose names are not valid UTF-8 are read lossily).

use std::path::Path;

use vstd::prelude::*;

verus! {

/// The text of `part` adjoined to the path `base`, as `Path::join` builds it
/// on the platform the library runs on: a function of the two texts alone.
pub uninterp spec fn joined(base: Seq<char>, part: Seq<char>) -> Seq<char>;

/// The user's home directory (`dirs::home_dir`) as text. It depends on the
/// environment of the running process, so nothing is promised of it.
#[verifier::external_body]
pub(crate) fn home_dir() -> (r: Option<String>) {
    match dirs::home_dir() {
        Some(p) => Some(p.to_string_lossy().into_owned()),
        None => None,
    }
}

/// The user's configuration directory (`dirs::config_dir`) as text. It
/// depends on the environment of the running process, so nothing is
/// promised of it.
#[verifier::external_body]
pub(crate) fn config_dir() -> (r: Option<String>) {
    match dirs::config_dir() {
        Some(p) => Some(p.to_string_lossy().into_owned()),
        None => None,
    }
}

/// `Path::join` on text: the result is [`joined`] of the two texts (both are
/// UTF-8, so the joined path is too and reads back without loss).
#[verifier::external_body]
pub(crate) fn path_join(base: &str, part: &str) -> (r: String)
    ensures
        r@ == joined(base@, part@),
{
    Path::new(base).join(part).to_string_lossy().into_owned()
}

/// An optional path as optional text.
pub open spec fn opt_text(o: Option<String>) -> Option<Seq<char>> {
    match o {
        Some(s) => Some(s@),
        None => None,
    }
}

/// `.ssh/config` under the home directory `h`.
pub open spec fn ssh_config_under(h: Seq<char>) -> Seq<char> {
    joined(joined(h, ".ssh"@), "config"@)
}

/// `omnyssh` under the configuration directory `d`.
pub open spec fn app_dir_under(d: Seq<char>) -> Seq<char> {
    joined(d, "omnyssh"@)
}

/// The SSH config file under the home directory `home`: `.ssh/config`
/// joined to it, whenever there is a home directory.
pub fn ssh_config_path_under(home: Option<String>) -> (r: Option<String>)
    ensures
        opt_text(r) == (match home {
            Some(h) => Some(ssh_config_under(h@)),
            None => None,
        }),
{
    match home {
        Some(h) => {
            let ssh = path_join(h.as_str(), ".ssh");
            Some(path_join(ssh.as_str(), "config"))
        },
        None => None,
    }
}

/// The user's SSH config file: [`ssh_config_path_under`] the home directory
/// that `dirs::home_dir` reports; `None` when there is no home directory.
pub fn ssh_config_path() -> (r: Option<String>)
    ensures
        r matches Some(p) ==> exists|h: Seq<char>| p@ == ssh_config_under(h),
{
    ssh_config_path_under(home_dir())
}

/// The application's directory under the configuration directory `config`:
/// `omnyssh` joined to it, whenever there is a configuration directory.
pub fn app_config_dir_under(config: Option<String>) -> (r: Option<String>)
    ensures
        opt_text(r) == (match config {
            Some(d) => Some(app_dir_under(d@)),
            None => None,
        }),
{
    match config {
        Some(d) => Some(path_join(d.as_str(), "omnyssh")),
        None => None,
    }
}

/// The application's configuration directory: [`app_config_dir_under`] the
/// directory that `dirs::config_dir` reports; `None` when there is none.
pub fn app_config_dir() -> (r: Option<String>)
    ensures
        r matches Some(p) ==> exists|d: Seq<char>| p@ == app_dir_under(d),
{
    app_config_dir_under(config_dir())
}

/// `file` joined to the application's directory `dir`, whenever there is one.
pub fn config_file_under(dir: Option<String>, file: &str) -> (r: Option<String>)
    ensures
        opt_text(r) == (match dir {
            Some(d) => Some(joined(d@, file@)),
            None => None,
        }),
{
    match dir {
        Some(d) => Some(path_join(d.as_str(), file)),
        None => None,
    }
}

/// `file` inside the application's configuration directory.
fn app_config_file(file: &str) -> (r: Option<String>)
    ensures
        r matches Some(p) ==> exists|d: Seq<char>| p@ == joined(app_dir_under(d), file@),
{
    config_file_under(app_config_dir(), file)
}

/// The main configuration file, `config.toml`.
pub fn app_config_path() -> (r: Option<String>)
    ensures
        r matches Some(p) ==> exists|d: Seq<char>| p@ == joined(app_dir_under(d), "config.toml"@),
{
    app_config_file("config.toml")
}

/// The manual hosts file, `hosts.toml`.
pub fn hosts_config_path() -> (r: Option<String>)
    ensures
        r matches Some(p) ==> exists|d: Seq<char>| p@ == joined(app_dir_under(d), "hosts.toml"@),
{
    app_config_file("hosts.toml")
}

/// The snippets file, `snippets.toml`.
pub fn snippets_config_path() -> (r: Option<String>)
    ensures
        r matches Some(p) ==> exists|d: Seq<char>| p@ == joined(
            app_dir_under(d),
            "snippets.toml"@,
        ),
{
    app_config_file("snippets.toml")
}

} // verus!
