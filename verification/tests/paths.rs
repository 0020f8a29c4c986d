use omnyssh::ssh::key_setup::{key_path_under, KeyType};
use omnyssh::utils::platform::{app_config_dir_under, config_file_under, ssh_config_path_under};

#[test]
fn paths_under_a_home_directory() {
    let home = "/home/alice".to_string();
    assert_eq!(
        ssh_config_path_under(Some(home.clone())),
        Some("/home/alice/.ssh/config".to_string())
    );
    assert_eq!(ssh_config_path_under(None), None);
    assert_eq!(
        key_path_under(Some(home), "web 1", KeyType::Ed25519),
        Some("/home/alice/.ssh/omnyssh_web_1_ed25519".to_string())
    );
    assert_eq!(key_path_under(None, "web", KeyType::Rsa4096), None);
    assert_eq!(
        key_path_under(Some("/root/".to_string()), "db.example.com", KeyType::Rsa4096),
        Some("/root/.ssh/omnyssh_db_example_com_rsa".to_string())
    );
}

#[test]
fn paths_under_a_config_directory() {
    let dir = app_config_dir_under(Some("/cfg".to_string()));
    assert_eq!(dir, Some("/cfg/omnyssh".to_string()));
    assert_eq!(
        config_file_under(dir, "hosts.toml"),
        Some("/cfg/omnyssh/hosts.toml".to_string())
    );
    assert_eq!(app_config_dir_under(None), None);
    assert_eq!(config_file_under(None, "hosts.toml"), None);
}
