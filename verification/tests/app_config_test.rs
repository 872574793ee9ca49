use tui_1password::app_config::{config_path, root_dir_candidates, token_path, AppConfig};

#[test]
fn defaults_of_the_settings() {
    let config = AppConfig::defaults(String::from("/home/me/.tui-1password"));
    assert_eq!(
        config,
        AppConfig {
            headers: vec![String::from("id"), String::from("title"), String::from("updated_at")],
            root_dir: String::from("/home/me/.tui-1password"),
            debug: true,
            clipboard_bin: String::from("wl-copy"),
        }
    );
}

#[test]
fn paths_in_the_root_directory() {
    assert_eq!(config_path("/home/me/.tui-1password"), "/home/me/.tui-1password/tui-1password.yaml");
    assert_eq!(config_path(""), "/tui-1password.yaml");
    assert_eq!(token_path("/home/me/.tui-1password"), "/home/me/.tui-1password/token");
}

#[test]
fn root_directories_in_the_order_of_the_variables() {
    assert_eq!(
        root_dir_candidates(
            Some(String::from("/opt/tui")),
            Some(String::from("/home/me/.config")),
            Some(String::from("/home/me"))
        ),
        vec![
            String::from("/opt/tui"),
            String::from("/home/me/.config/tui-1password"),
            String::from("/home/me/.tui-1password")
        ]
    );
    assert_eq!(
        root_dir_candidates(None, None, Some(String::from("/home/me"))),
        vec![String::from("/home/me/.tui-1password")]
    );
    assert_eq!(
        root_dir_candidates(None, Some(String::from("/x")), None),
        vec![String::from("/x/tui-1password")]
    );
    assert_eq!(root_dir_candidates(None, None, None), Vec::<String>::new());
}
