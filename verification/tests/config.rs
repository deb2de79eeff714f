use jev_copilot::config::{
    address, arg_value, asset_root, choose_host, choose_port, env_candidates, healthcheck_url,
    load_config, read_settings, trim_slash, AssetRoot, Config,
};

fn pair(name: &str, value: &str) -> (String, String) {
    (name.to_string(), value.to_string())
}

fn given(text: &str) -> Option<String> {
    Some(text.to_string())
}

#[test]
fn defaults_hold_where_nothing_is_set() {
    assert_eq!(
        load_config(&vec![], &vec![]),
        Config {
            jev_base: "https://openrouter.ai/api".to_string(),
            jev_model: "jev-latest".to_string(),
            draft_base: "https://openrouter.ai/api/v1".to_string(),
            draft_model: "deepseek/deepseek-chat-v3.1".to_string(),
            vision_base: "https://openrouter.ai/api/v1".to_string(),
            vision_model: "qwen/qwen3.7-flash".to_string(),
        }
    );
}

#[test]
fn the_environment_decides_over_the_files_and_earlier_files_over_later_ones() {
    let env = vec![pair("TYPESAFE_MODEL", "from-env"), pair("TEXT_MODEL", "")];
    let files = vec![
        "# TEXT_MODEL=comment\n  TEXT_MODEL = first \r\nTYPESAFE_MODEL=file\nVISION_MODEL=\n".to_string(),
        "TEXT_MODEL=second\nVISION_MODEL=a=b\nTYPESAFE_BASE_URL=http://x///".to_string(),
    ];
    let config = load_config(&env, &files);
    assert_eq!(config.jev_model, "from-env");
    assert_eq!(config.draft_model, "first");
    assert_eq!(config.vision_model, "a=b");
    assert_eq!(config.jev_base, "http://x");
    assert_eq!(config.draft_base, "https://openrouter.ai/api/v1");
}

#[test]
fn settings_files_are_read_line_by_line() {
    assert_eq!(
        read_settings("A=1\n\n#B=2\n  # C=3\nnothing\n D = 4 5 \nE=\n=6\nF=#7"),
        vec![pair("A", "1"), pair("D", "4 5"), pair("", "6"), pair("F", "#7")]
    );
}

#[test]
fn slashes_at_the_end_of_a_base_are_dropped() {
    let url = "https://a/b//".to_string();
    assert_eq!(trim_slash(Some(&url), "x"), "https://a/b");
    assert_eq!(trim_slash(None, "https://c/"), "https://c");
    assert_eq!(trim_slash(Some(&String::new()), "x"), "");
}

#[test]
fn the_argument_behind_a_name() {
    let args: Vec<String> = ["jev", "--port", "1", "--port", "2", "--host"]
        .iter()
        .map(|a| a.to_string())
        .collect();
    assert_eq!(arg_value(&args, "--port"), given("1"));
    assert_eq!(arg_value(&args, "--host"), None);
    assert_eq!(arg_value(&args, "--other"), None);
}

#[test]
fn the_port_comes_from_the_command_line_first() {
    assert_eq!(choose_port(&given("80"), &given("90")), 80);
    assert_eq!(choose_port(&None, &given("90")), 90);
    assert_eq!(choose_port(&None, &None), 8778);
    assert_eq!(choose_port(&given("eighty"), &given("90")), 8778);
    assert_eq!(choose_port(&given("65536"), &None), 8778);
}

#[test]
fn the_host_is_loopback_unless_told_otherwise() {
    assert_eq!(choose_host(&None, &None), "127.0.0.1");
    assert_eq!(choose_host(&None, &given("0.0.0.0")), "0.0.0.0");
    assert_eq!(choose_host(&given("::"), &given("0.0.0.0")), "::");
}

#[test]
fn the_health_check_asks_a_destination() {
    assert_eq!(healthcheck_url("0.0.0.0", 8778), "http://127.0.0.1:8778/healthz");
    assert_eq!(healthcheck_url("::", 1), "http://127.0.0.1:1/healthz");
    assert_eq!(healthcheck_url("box", 80), "http://box:80/healthz");
    assert_eq!(address("127.0.0.1", 65535), "127.0.0.1:65535");
}

#[test]
fn assets_lie_where_they_are_said_to_lie() {
    assert_eq!(asset_root(&given("/srv"), true, true), AssetRoot::Given("/srv".to_string()));
    assert_eq!(asset_root(&given(""), true, true), AssetRoot::Manifest);
    assert_eq!(asset_root(&None, false, true), AssetRoot::Executable);
    assert_eq!(asset_root(&None, false, false), AssetRoot::Manifest);
}

#[test]
fn settings_files_lie_in_the_root_and_next_to_it() {
    let root = "/srv/app";
    let parent = "/srv";
    let names = |list: &[&str]| list.iter().map(|n| n.to_string()).collect::<Vec<String>>();
    assert_eq!(
        env_candidates(&root, Some(&parent)),
        vec![
            (&root, names(&[".env"])),
            (&parent, names(&["jev-lab", ".env"])),
            (&parent, names(&["jev-ultrafast", ".env"])),
        ]
    );
    let alone = env_candidates(&root, None);
    assert_eq!(alone[1].0, &root);
    assert_eq!(alone[2].0, &root);
}
