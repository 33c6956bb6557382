//! User configuration: the prefix key and the status bar.

use vstd::prelude::*;
use vstd::string::*;

use crate::error::{ErrorView, KexshError, Result};
use crate::paths;
use crate::text;

verus! {

/// The bit of the control key in [`KeyModifiers`].
pub const CONTROL: u8 = 0b0000_0010;

/// A key: a character, or any other key by the name it is shown under.
#[derive(Debug, Clone, PartialEq, Eq)]
pub enum KeyCode {
    Char(char),
    Named(String),
}

/// The modifier keys held down, one bit each.
#[derive(Debug, Clone, Copy, PartialEq, Eq)]
pub struct KeyModifiers {
    pub bits: u8,
}

/// The key that starts a command.
#[derive(Debug, Clone)]
pub struct PrefixKey {
    pub code: KeyCode,
    pub modifiers: KeyModifiers,
}

/// What the user can set.
#[derive(Debug, Clone)]
pub struct Config {
    pub prefix: PrefixKey,
    pub status_bar: bool,
}

/// The `[keys]` table of a configuration file.
#[derive(Debug, Clone)]
pub struct RawKeysConfig {
    pub prefix: String,
}

/// The `[ui]` table of a configuration file.
#[derive(Debug, Clone)]
pub struct RawUiConfig {
    pub status_bar: bool,
}

/// A configuration file, with defaults in place of what it leaves out.
#[derive(Debug, Clone)]
pub struct RawConfig {
    pub keys: RawKeysConfig,
    pub ui: RawUiConfig,
}

/// The `[keys]` table as a configuration file has it: a key that it leaves out is absent.
#[derive(Debug, Clone)]
pub struct KeysTable {
    pub prefix: Option<String>,
}

/// The `[ui]` table as a configuration file has it.
#[derive(Debug, Clone)]
pub struct UiTable {
    pub status_bar: Option<bool>,
}

/// The tables of a configuration file as it has them.
#[derive(Debug, Clone)]
pub struct ConfigTables {
    pub keys: Option<KeysTable>,
    pub ui: Option<UiTable>,
}

impl ConfigTables {
    /// The prefix key: the one that the file names, or else `ctrl-a`.
    pub open spec fn prefix(self) -> Seq<char> {
        match self.keys {
            Some(KeysTable { prefix: Some(prefix) }) => prefix@,
            _ => "ctrl-a"@,
        }
    }

    /// Whether the status bar is shown: as the file says, or else it is.
    pub open spec fn status_bar(self) -> bool {
        match self.ui {
            Some(UiTable { status_bar: Some(shown) }) => shown,
            _ => true,
        }
    }

    /// Puts the defaults in place of what the file leaves out, table by table and key by
    /// key.
    pub fn filled(self) -> (raw: RawConfig)
        ensures
            raw.keys.prefix@ == self.prefix(),
            raw.ui.status_bar == self.status_bar(),
    {
        let keys = match self.keys {
            Some(KeysTable { prefix: Some(prefix) }) => RawKeysConfig { prefix },
            Some(KeysTable { prefix: None }) => RawKeysConfig { prefix: default_prefix() },
            None => RawKeysConfig::default(),
        };
        let ui = match self.ui {
            Some(UiTable { status_bar: Some(status_bar) }) => RawUiConfig { status_bar },
            Some(UiTable { status_bar: None }) => RawUiConfig { status_bar: default_true() },
            None => RawUiConfig::default(),
        };
        RawConfig { keys, ui }
    }
}

/// What became of reading the configuration file.
#[derive(Debug)]
pub enum ConfigFile {
    /// There is no file.
    Missing,
    /// The file could not be read, for the reason given.
    Unreadable { path: String, reason: String },
    /// The file was read, and parsed as TOML or not, for the reason given.
    Parsed(std::result::Result<ConfigTables, String>),
}

/// How a character key that has no shorter name is shown.
pub uninterp spec fn char_key_debug(c: char) -> Seq<char>;

impl PrefixKey {
    /// Whether the control key is held down.
    pub open spec fn has_control(self) -> bool {
        self.modifiers.bits & CONTROL == CONTROL
    }

    /// The key as text: control and a character as `lead` and the character, anything
    /// else by the name of the key alone.
    pub open spec fn name(self, lead: Seq<char>) -> Seq<char> {
        match self.code {
            KeyCode::Char(c) => if self.has_control() {
                lead.push(c)
            } else {
                char_key_debug(c)
            },
            KeyCode::Named(name) => name@,
        }
    }

    /// Control and a character.
    pub open spec fn is_control(self, c: char) -> bool {
        self.code == KeyCode::Char(c) && self.modifiers.bits == CONTROL
    }
}

/// `KeyModifiers::contains` of crossterm, on flags given by their bits: every bit of the
/// second is set in the first.
#[verifier::external_body]
fn modifiers_contain(bits: u8, flags: u8) -> (contained: bool)
    ensures
        contained == (bits & flags == flags),
{
    crossterm::event::KeyModifiers::from_bits_retain(bits).contains(
        crossterm::event::KeyModifiers::from_bits_retain(flags),
    )
}

/// The `Debug` text of crossterm's `KeyCode::Char`; what it is has a name.
#[verifier::external_body]
fn char_key_text(c: char) -> (shown: String)
    ensures
        shown@ == char_key_debug(c),
{
    format!("{:?}", crossterm::event::KeyCode::Char(c))
}

impl PrefixKey {
    fn named(&self, lead: &str) -> (shown: String)
        ensures
            shown@ == self.name(lead@),
    {
        match &self.code {
            KeyCode::Char(c) => {
                if modifiers_contain(self.modifiers.bits, CONTROL) {
                    let mut shown = lead.to_owned();
                    shown.push(*c);
                    shown
                } else {
                    char_key_text(*c)
                }
            },
            KeyCode::Named(name) => name.clone(),
        }
    }

    /// The key as the user sees it, such as `Ctrl-a`.
    pub fn display_name(&self) -> (shown: String)
        ensures
            shown@ == self.name("Ctrl-"@),
    {
        self.named("Ctrl-")
    }

    /// The key as the configuration file has it, such as `ctrl-a`.
    pub fn to_config_string(&self) -> (shown: String)
        ensures
            shown@ == self.name("ctrl-"@),
    {
        self.named("ctrl-")
    }
}

impl Default for PrefixKey {
    fn default() -> (key: PrefixKey)
        ensures
            key.is_control('a'),
    {
        PrefixKey { code: KeyCode::Char('a'), modifiers: KeyModifiers { bits: CONTROL } }
    }
}

impl Default for Config {
    fn default() -> (config: Config)
        ensures
            config.prefix.is_control('a'),
            config.status_bar,
    {
        Config { prefix: PrefixKey::default(), status_bar: true }
    }
}

/// The prefix key where the file names none.
pub fn default_prefix() -> (prefix: String)
    ensures
        prefix@ == "ctrl-a"@,
{
    "ctrl-a".to_owned()
}

/// Whether the status bar is shown where the file does not say.
pub fn default_true() -> (shown: bool)
    ensures
        shown,
{
    true
}

impl Default for RawKeysConfig {
    fn default() -> (keys: RawKeysConfig)
        ensures
            keys.prefix@ == "ctrl-a"@,
    {
        RawKeysConfig { prefix: default_prefix() }
    }
}

impl Default for RawUiConfig {
    fn default() -> (ui: RawUiConfig)
        ensures
            ui.status_bar,
    {
        RawUiConfig { status_bar: default_true() }
    }
}

impl Default for RawConfig {
    fn default() -> (raw: RawConfig)
        ensures
            raw.keys.prefix@ == "ctrl-a"@,
            raw.ui.status_bar,
    {
        RawConfig { keys: RawKeysConfig::default(), ui: RawUiConfig::default() }
    }
}

/// The character of a prefix key, or why a text names none. Blanks at the ends and the
/// case of letters do not matter.
pub open spec fn prefix_char(s: Seq<char>) -> std::result::Result<char, ErrorView> {
    let key = text::lowercased(text::trimmed(s));
    if "ctrl-"@.is_prefix_of(key) {
        let rest = key.skip("ctrl-"@.len() as int);
        if rest.len() == 1 && 'a' <= rest[0] <= 'z' {
            Ok(rest[0])
        } else {
            Err(ErrorView::Config("invalid prefix key: "@ + key))
        }
    } else {
        Err(
            ErrorView::Config(
                "unsupported prefix format: "@ + key + " (expected ctrl-<char>)"@,
            ),
        )
    }
}

/// Whether `r` is what the text of a prefix key stands for.
pub open spec fn parsed_prefix(s: Seq<char>, r: Result<PrefixKey>) -> bool {
    match r {
        Ok(key) => exists|c: char|
            #![trigger key.is_control(c)]
            prefix_char(s) == Ok::<char, ErrorView>(c) && key.is_control(c),
        Err(error) => prefix_char(s) == Err::<char, ErrorView>(error@),
    }
}

/// Whether a text starts with another.
fn has_prefix(s: &str, prefix: &str) -> (found: bool)
    ensures
        found == prefix@.is_prefix_of(s@),
{
    let n = prefix.unicode_len();
    if s.unicode_len() < n {
        return false;
    }
    text::same_text(s.substring_char(0, n), prefix)
}

/// Reads a prefix key such as `ctrl-a`.
pub fn parse_prefix(s: &str) -> (parsed: Result<PrefixKey>)
    ensures
        parsed_prefix(s@, parsed),
{
    let key = text::to_lowercase(text::trim(s));
    let lead = "ctrl-";
    if has_prefix(key.as_str(), lead) {
        let len = key.as_str().unicode_len();
        let start = lead.unicode_len();
        let rest = key.as_str().substring_char(start, len);
        proof {
            assert(rest@ =~= key@.skip(start as int));
        }
        if rest.unicode_len() == 1 {
            let c = rest.get_char(0);
            if 'a' <= c && c <= 'z' {
                let found = PrefixKey {
                    code: KeyCode::Char(c),
                    modifiers: KeyModifiers { bits: CONTROL },
                };
                proof {
                    assert(found.is_control(c));
                }
                return Ok(found);
            }
        }
        return Err(KexshError::Config("invalid prefix key: ".to_owned().concat(key.as_str())));
    }
    Err(
        KexshError::Config(
            "unsupported prefix format: ".to_owned().concat(key.as_str()).concat(
                " (expected ctrl-<char>)",
            ),
        ),
    )
}

/// The configuration file below a home directory.
pub open spec fn config_path_in(home: Option<Seq<char>>) -> Seq<char> {
    match home {
        Some(home) => paths::joined(home, ".config/kexsh/config.toml"@),
        None => "~/.config/kexsh/config.toml"@,
    }
}

/// The configuration file below a home directory, where that is known.
fn dirs_config_path(home: Option<&str>) -> (path: Option<String>)
    ensures
        path is Some <==> home is Some,
        path matches Some(p) ==> p@ == config_path_in(Some(home->0@)),
{
    match home {
        Some(home) => Some(paths::join(home, ".config/kexsh/config.toml")),
        None => None,
    }
}

/// Where the configuration file is, given the user's home directory.
pub fn config_path(home: Option<&str>) -> (path: String)
    ensures
        path@ == config_path_in(
            match home {
                Some(h) => Some(h@),
                None => None,
            },
        ),
{
    match dirs_config_path(home) {
        Some(path) => path,
        None => "~/.config/kexsh/config.toml".to_owned(),
    }
}

impl Config {
    /// Whether `r` is the configuration that a parsed file stands for.
    pub open spec fn is_from(
        parsed: std::result::Result<ConfigTables, String>,
        r: Result<Config>,
    ) -> bool {
        match parsed {
            Err(reason) => r matches Err(error) && error@ == ErrorView::Config(
                "parse error: "@ + reason@,
            ),
            Ok(tables) => match r {
                Ok(config) => parsed_prefix(tables.prefix(), Ok(config.prefix))
                    && config.status_bar == tables.status_bar(),
                Err(error) => parsed_prefix(tables.prefix(), Err(error)),
            },
        }
    }

    /// The configuration for what became of parsing the file's TOML text.
    pub fn from_toml(parsed: std::result::Result<ConfigTables, String>) -> (config: Result<Config>)
        ensures
            Config::is_from(parsed, config),
    {
        match parsed {
            Err(reason) => Err(
                KexshError::Config("parse error: ".to_owned().concat(reason.as_str())),
            ),
            Ok(tables) => {
                let raw = tables.filled();
                match parse_prefix(raw.keys.prefix.as_str()) {
                    Ok(prefix) => Ok(Config { prefix, status_bar: raw.ui.status_bar }),
                    Err(error) => Err(error),
                }
            },
        }
    }

    /// The configuration for what became of reading the file: the default where there is
    /// none.
    pub fn load(file: ConfigFile) -> (config: Result<Config>)
        ensures
            match file {
                ConfigFile::Missing => config matches Ok(c) && c.prefix.is_control('a')
                    && c.status_bar,
                ConfigFile::Unreadable { path, reason } => config matches Err(error) && error@
                    == ErrorView::Config("failed to read "@ + path@ + ": "@ + reason@),
                ConfigFile::Parsed(parsed) => Config::is_from(parsed, config),
            },
    {
        match file {
            ConfigFile::Missing => Ok(Config::default()),
            ConfigFile::Unreadable { path, reason } => Err(
                KexshError::Config(
                    "failed to read ".to_owned().concat(path.as_str()).concat(": ").concat(
                        reason.as_str(),
                    ),
                ),
            ),
            ConfigFile::Parsed(parsed) => Config::from_toml(parsed),
        }
    }
}

/// A control key with a letter, written the way the configuration file has it, is read
/// back as that letter.
pub proof fn config_string_round_trip(key: PrefixKey, c: char)
    requires
        key.is_control(c),
        'a' <= c <= 'z',
    ensures
        prefix_char(key.name("ctrl-"@)) == Ok::<char, ErrorView>(c),
{
    reveal_strlit("ctrl-");
    let s = key.name("ctrl-"@);
    assert(CONTROL & CONTROL == CONTROL) by (bit_vector);
    assert(s =~= "ctrl-"@.push(c));
    assert(vstd::utf8::is_ascii_chars(s));
    text::trimmed_stays_ascii(s);
    assert(text::lowercased(s) =~= s);
    assert("ctrl-"@.is_prefix_of(s));
    assert(s.skip(5) =~= seq![c]);
}

/// The case of ASCII letters in a prefix key does not matter.
pub proof fn prefix_ignores_case(s: Seq<char>)
    requires
        vstd::utf8::is_ascii_chars(s),
    ensures
        prefix_char(text::ascii_lowercased(s)) == prefix_char(s),
{
    text::trimming_keeps_case(s);
    text::trimmed_stays_ascii(s);
    text::trimmed_stays_ascii(text::ascii_lowercased(s));
    text::trimming_keeps_case(text::trimmed(s));
}

/// White space at the ends of a prefix key does not matter.
pub proof fn prefix_ignores_blanks(s: Seq<char>, blank: char)
    requires
        text::is_blank(blank),
    ensures
        prefix_char(seq![blank] + s) == prefix_char(s),
        prefix_char(s.push(blank)) == prefix_char(s),
{
    text::trimmed_ignores_blanks(s, blank);
}

proof fn default_prefix_is_control_a()
    ensures
        prefix_char("ctrl-a"@) == Ok::<char, ErrorView>('a'),
{
    reveal_strlit("ctrl-a");
    reveal_strlit("ctrl-");
    let key = PrefixKey {
        code: KeyCode::Char('a'),
        modifiers: KeyModifiers { bits: CONTROL },
    };
    config_string_round_trip(key, 'a');
    assert(CONTROL & CONTROL == CONTROL) by (bit_vector);
    assert(key.name("ctrl-"@) =~= "ctrl-a"@);
}

/// A file that names no prefix key has control and `a`, whatever else it says.
pub proof fn absent_prefix_is_the_default(tables: ConfigTables, r: Result<Config>)
    requires
        tables.keys matches Some(keys) ==> keys.prefix is None,
        Config::is_from(Ok(tables), r),
    ensures
        r matches Ok(config) && config.prefix.is_control('a') && config.status_bar
            == tables.status_bar(),
{
    default_prefix_is_control_a();
}

/// A file that does not say whether the status bar is shown has it shown, whatever else it
/// says.
pub proof fn absent_status_bar_is_shown(tables: ConfigTables, r: Result<Config>)
    requires
        tables.ui matches Some(ui) ==> ui.status_bar is None,
        Config::is_from(Ok(tables), r),
    ensures
        r matches Ok(config) ==> config.status_bar,
{
}

/// The configuration of an empty file is the default configuration.
pub proof fn empty_file_is_the_default(tables: ConfigTables, r: Result<Config>)
    requires
        tables.keys is None,
        tables.ui is None,
        Config::is_from(Ok(tables), r),
    ensures
        r matches Ok(config) && config.prefix.is_control('a') && config.status_bar,
{
    absent_prefix_is_the_default(tables, r);
}

/// A text names a prefix key exactly where, without the white space at its ends and in lower
/// case, it is `ctrl-` and one ASCII letter, and it names that letter. A text that only
/// starts so is refused as a key, any other as a format.
pub proof fn prefix_is_control_and_a_letter(s: Seq<char>, c: char)
    ensures
        ({
            let key = text::lowercased(text::trimmed(s));
            &&& prefix_char(s) == Ok::<char, ErrorView>(c) <==> key == "ctrl-"@.push(c) && 'a'
                <= c <= 'z'
            &&& prefix_char(s) is Err && "ctrl-"@.is_prefix_of(key) ==> prefix_char(s) == Err::<
                char,
                ErrorView,
            >(ErrorView::Config("invalid prefix key: "@ + key))
            &&& !"ctrl-"@.is_prefix_of(key) ==> prefix_char(s) == Err::<char, ErrorView>(
                ErrorView::Config(
                    "unsupported prefix format: "@ + key + " (expected ctrl-<char>)"@,
                ),
            )
        }),
{
    reveal_strlit("ctrl-");
    let key = text::lowercased(text::trimmed(s));
    let lead = "ctrl-"@;
    if prefix_char(s) == Ok::<char, ErrorView>(c) {
        assert(key =~= lead.push(c)) by {
            assert(key.skip(5)[0] == key[5]);
            assert forall|i: int| 0 <= i < 5 implies key[i] == lead[i] by {}
        }
    }
    if key == lead.push(c) {
        assert(lead.is_prefix_of(key));
        assert(key.skip(5) =~= seq![c]);
    }
}

/// A character key with control, alone or among other modifiers, is shown by what leads and
/// the character; any other named key by its name.
pub proof fn control_keys_show_their_character(key: PrefixKey, lead: Seq<char>)
    ensures
        (key.code matches KeyCode::Char(c) && key.modifiers.bits & 2 == 2) ==> key.name(lead)
            == lead.push(key.code->Char_0),
        (key.code matches KeyCode::Char(c) && key.modifiers.bits & 2 != 2) ==> key.name(lead)
            == char_key_debug(key.code->Char_0),
        key.code matches KeyCode::Named(name) ==> key.name(lead) == name@,
{
}

/// What a parsed file names is taken as it is, and a file that was not parsed is refused
/// with the reason.
pub proof fn named_settings_are_taken(
    tables: ConfigTables,
    reason: String,
    refused: Result<Config>,
    taken: Result<Config>,
)
    requires
        Config::is_from(Err(reason), refused),
        Config::is_from(Ok(tables), taken),
    ensures
        (refused matches Err(error) && error@ == ErrorView::Config("parse error: "@ + reason@)),
        taken matches Ok(config) ==> (tables.ui matches Some(ui) ==> (
        ui.status_bar matches Some(shown) ==> config.status_bar == shown)),
        tables.keys matches Some(keys) ==> (keys.prefix matches Some(prefix) ==> match taken {
            Ok(config) => exists|c: char|
                #![trigger config.prefix.is_control(c)]
                prefix_char(prefix@) == Ok::<char, ErrorView>(c) && config.prefix.is_control(c),
            Err(error) => prefix_char(prefix@) == Err::<char, ErrorView>(error@),
        }),
{
}

/// Control and a character are that character and no modifier but control.
pub proof fn control_alone_is_held(key: PrefixKey, c: char)
    ensures
        key.is_control(c) <==> key.code == KeyCode::Char(c) && key.modifiers.bits == 2,
{
}

/// The configuration file lies below the home directory where that is known.
pub proof fn configuration_lies_below_home(home: Seq<char>)
    ensures
        home.is_prefix_of(config_path_in(Some(home))),
        ".config/kexsh/config.toml"@.is_suffix_of(config_path_in(Some(home))),
        config_path_in(None) == "~/.config/kexsh/config.toml"@,
{
    paths::joined_paths_are_below(home, ".config/kexsh/config.toml"@);
}

/// A control key with a letter that is written to a configuration file is read back as the
/// same key.
pub proof fn written_keys_are_read(
    key: PrefixKey,
    c: char,
    written: String,
    content: &str,
    read: Result<PrefixKey>,
)
    requires
        key.is_control(c),
        'a' <= c <= 'z',
        call_ensures(PrefixKey::to_config_string, (&key,), written),
        content@ == written@,
        call_ensures(parse_prefix, (content,), read),
    ensures
        (read matches Ok(same) && same.is_control(c)),
{
    config_string_round_trip(key, c);
}

/// A key is shown as it is written, but for the capital that it is shown with.
pub proof fn keys_are_shown_with_a_capital(
    key: PrefixKey,
    c: char,
    written: String,
    shown: String,
)
    requires
        key.is_control(c),
        call_ensures(PrefixKey::to_config_string, (&key,), written),
        call_ensures(PrefixKey::display_name, (&key,), shown),
    ensures
        written@ == "ctrl-"@.push(c),
        shown@ == "Ctrl-"@.push(c),
{
    assert(CONTROL & CONTROL == CONTROL) by (bit_vector);
    control_keys_show_their_character(key, "ctrl-"@);
    control_keys_show_their_character(key, "Ctrl-"@);
}

/// A file that is not there is as good as an empty one, a file that was read is taken as it
/// was parsed, and one that could not be read is an error.
pub proof fn a_missing_file_is_an_empty_one(
    missing: Result<Config>,
    tables: ConfigTables,
    parsed: Result<Config>,
    path: String,
    reason: String,
    unreadable: Result<Config>,
)
    requires
        call_ensures(Config::load, (ConfigFile::Missing,), missing),
        call_ensures(Config::load, (ConfigFile::Parsed(Ok(tables)),), parsed),
        call_ensures(Config::load, (ConfigFile::Unreadable { path, reason },), unreadable),
    ensures
        (missing matches Ok(config) && config.prefix.is_control('a') && config.status_bar),
        tables.keys is None && tables.ui is None ==> (parsed matches Ok(config)
            && config.prefix.is_control('a') && config.status_bar),
        parsed matches Ok(config) ==> config.status_bar == (match tables.ui {
            Some(UiTable { status_bar: Some(shown) }) => shown,
            _ => true,
        }),
        (unreadable matches Err(error) && error@.message() == "Config error: "@ + (
        "failed to read "@ + path@ + ": "@ + reason@)),
{
    if tables.keys is None && tables.ui is None {
        empty_file_is_the_default(tables, parsed);
    }
}

} // verus!
