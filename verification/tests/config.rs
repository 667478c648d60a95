use hermes::config::{
    config_sources, Config, ConfigSource, ENVIRONMENT_PREFIX, SYSTEM_CONFIG_PATH,
};

fn file_name(s: &str) -> String {
    String::from(s)
}

fn optional(path: &str) -> ConfigSource {
    ConfigSource::File { path: file_name(path), required: false }
}

fn required(path: &str) -> ConfigSource {
    ConfigSource::File { path: file_name(path), required: true }
}

fn environment() -> ConfigSource {
    ConfigSource::Environment { prefix: file_name("HERMES") }
}

#[test]
fn the_well_known_names() {
    assert_eq!(SYSTEM_CONFIG_PATH, "/etc/hermes/config.toml");
    assert_eq!(ENVIRONMENT_PREFIX, "HERMES");
}

#[test]
fn without_a_home_only_the_system_file_and_the_environment_are_read() {
    assert_eq!(
        config_sources(None, None, None),
        vec![optional("/etc/hermes/config.toml"), environment()]
    );
}

#[test]
fn the_platform_file_is_left_out_without_a_home() {
    assert_eq!(
        config_sources(None, Some(file_name("/cfg/hermes/config.toml")), None),
        vec![optional("/etc/hermes/config.toml"), environment()]
    );
}

#[test]
fn the_home_file_follows_the_system_file() {
    assert_eq!(
        config_sources(Some(file_name("/home/u/.config/hermes/config.toml")), None, None),
        vec![
            optional("/etc/hermes/config.toml"),
            optional("/home/u/.config/hermes/config.toml"),
            environment()
        ]
    );
}

#[test]
fn the_platform_file_is_read_once_when_it_is_the_home_file() {
    let path = "/home/u/.config/hermes/config.toml";
    assert_eq!(
        config_sources(Some(file_name(path)), Some(file_name(path)), None),
        vec![optional("/etc/hermes/config.toml"), optional(path), environment()]
    );
}

#[test]
fn another_platform_file_follows_the_home_file() {
    assert_eq!(
        config_sources(
            Some(file_name("/Users/u/.config/hermes/config.toml")),
            Some(file_name("/Users/u/Library/Application Support/hermes/config.toml")),
            None
        ),
        vec![
            optional("/etc/hermes/config.toml"),
            optional("/Users/u/.config/hermes/config.toml"),
            optional("/Users/u/Library/Application Support/hermes/config.toml"),
            environment()
        ]
    );
}

#[test]
fn an_explicit_file_is_required_and_comes_before_the_environment() {
    assert_eq!(
        config_sources(None, None, Some(file_name("extra.toml"))),
        vec![optional("/etc/hermes/config.toml"), required("extra.toml"), environment()]
    );
}

#[test]
fn the_full_chain() {
    assert_eq!(
        config_sources(Some(file_name("a")), Some(file_name("b")), Some(file_name("c"))),
        vec![
            optional("/etc/hermes/config.toml"),
            optional("a"),
            optional("b"),
            required("c"),
            environment()
        ]
    );
}

#[test]
fn an_explicit_file_is_read_even_if_it_was_discovered_too() {
    assert_eq!(
        config_sources(Some(file_name("a")), None, Some(file_name("a"))),
        vec![optional("/etc/hermes/config.toml"), optional("a"), required("a"), environment()]
    );
}

#[test]
fn settings_hold_a_token_and_a_chat() {
    let config = Config { token: file_name("123:abc"), chat_id: -1001 };
    assert_eq!(config.token, "123:abc");
    assert_eq!(config.chat_id, -1001);
}
