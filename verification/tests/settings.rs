use kexsh::config::{
    config_path, default_prefix, default_true, parse_prefix, Config, ConfigFile, ConfigTables,
    KeyCode, KeyModifiers, KeysTable, PrefixKey, RawConfig, UiTable, CONTROL,
};
use kexsh::credential::{self, credential_path, Credential, CredentialFile, SaveFailure};
use kexsh::error::KexshError;
use kexsh::paths::join;

/// Parses TOML text into the tables of a configuration file.
fn parsed(content: &str) -> Result<ConfigTables, String> {
    let table = content.parse::<toml::Table>().map_err(|e| e.to_string())?;
    Ok(ConfigTables {
        keys: table.get("keys").map(|keys| KeysTable {
            prefix: keys.get("prefix").map(|v| v.as_str().unwrap().to_string()),
        }),
        ui: table.get("ui").map(|ui| UiTable {
            status_bar: ui.get("status_bar").map(|v| v.as_bool().unwrap()),
        }),
    })
}

fn from_toml(content: &str) -> Result<Config, KexshError> {
    Config::from_toml(parsed(content))
}

const CTRL: KeyModifiers = KeyModifiers { bits: CONTROL };

#[test]
fn default_config() {
    let cfg = Config::default();
    assert_eq!(cfg.prefix.code, KeyCode::Char('a'));
    assert_eq!(cfg.prefix.modifiers, CTRL);
    assert!(cfg.status_bar);
}

#[test]
fn parse_valid_toml() {
    let cfg = from_toml(
        r#"
[keys]
prefix = "ctrl-b"

[ui]
status_bar = false
"#,
    )
    .unwrap();
    assert_eq!(cfg.prefix.code, KeyCode::Char('b'));
    assert_eq!(cfg.prefix.modifiers, CTRL);
    assert!(!cfg.status_bar);
}

#[test]
fn missing_fields_use_defaults() {
    let cfg = from_toml("").unwrap();
    assert_eq!(cfg.prefix.code, KeyCode::Char('a'));
    assert!(cfg.status_bar);
}

#[test]
fn partial_config() {
    let cfg = from_toml("[ui]\nstatus_bar = false\n").unwrap();
    assert_eq!(cfg.prefix.code, KeyCode::Char('a'));
    assert!(!cfg.status_bar);
}

#[test]
fn invalid_prefix_errors() {
    assert!(from_toml("[keys]\nprefix = \"alt-x\"\n").is_err());
    assert!(from_toml("[keys]\nprefix = \"ctrl-\"\n").is_err());
    assert!(from_toml("[keys]\nprefix = \"ctrl-ab\"\n").is_err());
}

#[test]
fn invalid_toml_errors() {
    assert!(from_toml("not valid toml [[[").is_err());
}

#[test]
fn control_bit_is_the_one_of_the_terminal_library() {
    assert_eq!(crossterm::event::KeyModifiers::CONTROL.bits(), CONTROL);
}

#[test]
fn prefix_errors_say_what_is_wrong() {
    assert_eq!(
        parse_prefix("Alt-X").unwrap_err(),
        KexshError::Config("unsupported prefix format: alt-x (expected ctrl-<char>)".to_string())
    );
    assert_eq!(
        parse_prefix("ctrl-1").unwrap_err(),
        KexshError::Config("invalid prefix key: ctrl-1".to_string())
    );
}

#[test]
fn prefix_ignores_blanks_and_case() {
    for text in ["ctrl-g", "CTRL-G", "  Ctrl-g\t", "\nctrl-G\r\n", "\u{a0}ctrl-g"] {
        let key = parse_prefix(text).unwrap();
        assert_eq!(key.code, KeyCode::Char('g'));
        assert_eq!(key.modifiers, CTRL);
    }
    // The Kelvin sign is an upper-case letter whose lower case is the ASCII letter.
    assert_eq!(parse_prefix("ctrl-\u{212a}").unwrap().code, KeyCode::Char('k'));
}

#[test]
fn key_names() {
    let key = parse_prefix("ctrl-b").unwrap();
    assert_eq!(key.display_name(), "Ctrl-b");
    assert_eq!(key.to_config_string(), "ctrl-b");
    let again = parse_prefix(&key.to_config_string()).unwrap();
    assert_eq!(again.code, key.code);

    let both = PrefixKey { code: KeyCode::Char('x'), modifiers: KeyModifiers { bits: CONTROL | 1 } };
    assert_eq!(both.display_name(), "Ctrl-x");
    let plain = PrefixKey { code: KeyCode::Char('x'), modifiers: KeyModifiers { bits: 1 } };
    assert_eq!(plain.display_name(), "Char('x')");
    assert_eq!(plain.to_config_string(), "Char('x')");
    let named = PrefixKey { code: KeyCode::Named("F(1)".to_string()), modifiers: CTRL };
    assert_eq!(named.display_name(), "F(1)");
}

#[test]
fn defaults_of_the_file() {
    assert_eq!(default_prefix(), "ctrl-a");
    assert!(default_true());
    let raw = RawConfig::default();
    assert_eq!(raw.keys.prefix, "ctrl-a");
    assert!(raw.ui.status_bar);
}

#[test]
fn each_absent_key_has_its_default() {
    let filled = |content| parsed(content).unwrap().filled();
    for content in ["", "[keys]\n", "[ui]\n", "[keys]\n[ui]\n"] {
        assert_eq!(filled(content).keys.prefix, "ctrl-a");
        assert!(filled(content).ui.status_bar);
    }
    let raw = filled("[keys]\n[ui]\nstatus_bar = false\n");
    assert_eq!(raw.keys.prefix, "ctrl-a");
    assert!(!raw.ui.status_bar);
    let raw = filled("[keys]\nprefix = \"x\"\n[ui]\n");
    assert_eq!(raw.keys.prefix, "x");
    assert!(raw.ui.status_bar);
}

#[test]
fn loading_configuration() {
    let cfg = Config::load(ConfigFile::Missing).unwrap();
    assert_eq!(cfg.prefix.code, KeyCode::Char('a'));
    let unreadable = ConfigFile::Unreadable { path: "/c".to_string(), reason: "denied".to_string() };
    assert_eq!(
        Config::load(unreadable).unwrap_err().message(),
        "Config error: failed to read /c: denied"
    );
    assert_eq!(
        Config::load(ConfigFile::Parsed(Err("line 1".to_string()))).unwrap_err().message(),
        "Config error: parse error: line 1"
    );
    let cfg = Config::load(ConfigFile::Parsed(parsed("[keys]\nprefix = \"ctrl-z\"\n"))).unwrap();
    assert_eq!(cfg.prefix.code, KeyCode::Char('z'));
}

#[test]
fn configuration_paths() {
    assert_eq!(config_path(Some("/home/ann")), "/home/ann/.config/kexsh/config.toml");
    assert_eq!(config_path(None), "~/.config/kexsh/config.toml");
    assert_eq!(join("/a/", "b"), "/a/b");
    assert_eq!(join("", "b"), "b");
}

#[test]
fn credential_paths() {
    assert_eq!(credential_path(Some("/cfg"), Some("/home/ann")), "/cfg/kexsh/credentials.json");
    assert_eq!(credential_path(None, Some("/home/ann")), "/home/ann/.config/kexsh/credentials.json");
    assert_eq!(credential_path(None, None), "~/.config/kexsh/credentials.json");
}

#[test]
fn credentials_that_were_read() {
    let cred = Credential {
        token: "test-token".to_string(),
        server_url: "https://app.kex.sh".to_string(),
    };
    let loaded = credential::load(CredentialFile::Read(cred.clone())).unwrap();
    assert_eq!(loaded, cred);
    assert!(credential::load(CredentialFile::Unreadable).unwrap_err().message().contains("kexsh login"));
    assert_eq!(
        credential::load(CredentialFile::Malformed("eof".to_string())).unwrap_err().message(),
        "Config error: invalid credentials: eof"
    );
}

#[test]
fn credentials_that_were_written() {
    assert_eq!(credential::save(Ok(())), Ok(()));
    let said = |failure| credential::save(Err(failure)).unwrap_err().message();
    assert_eq!(
        said(SaveFailure::CreateDir("x".to_string())),
        "Config error: cannot create config dir: x"
    );
    assert_eq!(said(SaveFailure::Serialize("x".to_string())), "Config error: serialize error: x");
    assert_eq!(
        said(SaveFailure::Write("x".to_string())),
        "Config error: cannot write credentials: x"
    );
    assert!(said(SaveFailure::Permissions("x".to_string())).starts_with("Config error: "));
    assert_eq!(credential::remove(Ok(())), Ok(()));
    assert_eq!(
        credential::remove(Err("x".to_string())).unwrap_err().message(),
        "Config error: cannot remove credentials: x"
    );
}

#[test]
fn error_messages() {
    let text = || "x".to_string();
    assert_eq!(KexshError::Io(text()).message(), "IO error: x");
    assert_eq!(KexshError::Json(text()).message(), "JSON error: x");
    assert_eq!(KexshError::Server(text()).message(), "Server error: x");
    assert_eq!(KexshError::Ipc(text()).message(), "IPC error: x");
    assert_eq!(KexshError::Config(text()).message(), "Config error: x");
}
