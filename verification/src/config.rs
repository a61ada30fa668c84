//! The program settings: whether to check the remote command library
//! daily, where the commands come from, and which shell is used.
use vstd::prelude::*;
use crate::text::{same_text, to_lower, lowercase, chars_of, trim_chars, trimmed, string_of};

verus! {

/// Settings of the daily remote check.
#[derive(Debug)]
pub struct GeneralConfig {
    pub auto_check_remote: bool,
    pub last_check: String,
}

impl Default for GeneralConfig {
    fn default() -> (c: Self)
        ensures
            c.auto_check_remote,
            c.last_check@.len() == 0,
    {
        GeneralConfig { auto_check_remote: true, last_check: String::new() }
    }
}

/// Where the commands come from: `mode` is "local" or "remote".
#[derive(Debug)]
pub struct CommandsSourceConfig {
    pub mode: String,
    pub path: String,
    pub url: String,
}

impl Default for CommandsSourceConfig {
    fn default() -> (c: Self)
        ensures
            c.mode@ == "local"@,
            c.path@ == "~/.sac/commands.toml"@,
            c.url@.len() == 0,
    {
        CommandsSourceConfig {
            mode: String::from_str("local"),
            path: String::from_str("~/.sac/commands.toml"),
            url: String::new(),
        }
    }
}

/// The shell whose integration is installed.
#[derive(Debug)]
pub struct ShellConfig {
    pub shell_type: String,
}

impl Default for ShellConfig {
    fn default() -> (c: Self)
        ensures
            c.shell_type@ == "zsh"@,
    {
        ShellConfig { shell_type: String::from_str("zsh") }
    }
}

/// The mathematical value of the settings.
pub ghost struct ConfigModel {
    pub auto_check_remote: bool,
    pub last_check: Seq<char>,
    pub mode: Seq<char>,
    pub path: Seq<char>,
    pub url: Seq<char>,
    pub shell_type: Seq<char>,
}

/// All settings.
#[derive(Debug)]
pub struct Config {
    pub general: GeneralConfig,
    pub commands_source: CommandsSourceConfig,
    pub shell: ShellConfig,
}

impl View for Config {
    type V = ConfigModel;

    open spec fn view(&self) -> ConfigModel {
        ConfigModel {
            auto_check_remote: self.general.auto_check_remote,
            last_check: self.general.last_check@,
            mode: self.commands_source.mode@,
            path: self.commands_source.path@,
            url: self.commands_source.url@,
            shell_type: self.shell.shell_type@,
        }
    }
}

/// The default settings.
pub open spec fn default_config() -> ConfigModel {
    ConfigModel {
        auto_check_remote: true,
        last_check: Seq::empty(),
        mode: "local"@,
        path: "~/.sac/commands.toml"@,
        url: Seq::empty(),
        shell_type: "zsh"@,
    }
}

impl Default for Config {
    fn default() -> (c: Self)
        ensures
            c@ == default_config(),
    {
        let c = Config {
            general: GeneralConfig::default(),
            commands_source: CommandsSourceConfig::default(),
            shell: ShellConfig::default(),
        };
        assert(c@.last_check =~= Seq::<char>::empty());
        assert(c@.url =~= Seq::<char>::empty());
        c
    }
}

/// Why a setting could not be changed.
#[derive(Debug)]
pub enum ConfigError {
    /// The value of a yes/no setting is neither "true" nor "false".
    InvalidBool { value: String },
    /// No setting has this key.
    UnknownKey { key: String },
}

impl ConfigError {
    /// The human-readable description of the error.
    pub open spec fn message_text(self) -> Seq<char> {
        match self {
            ConfigError::InvalidBool { value } => "Invalid boolean value: '"@ + value@ + "'"@,
            ConfigError::UnknownKey { key } => "Unknown config key: '"@ + key@ + "'"@,
        }
    }

    /// The human-readable description of the error.
    pub fn message(&self) -> (r: String)
        ensures
            r@ == self.message_text(),
    {
        let (mut r, text) = match self {
            ConfigError::InvalidBool { value } => (String::from_str("Invalid boolean value: '"), value),
            ConfigError::UnknownKey { key } => (String::from_str("Unknown config key: '"), key),
        };
        r.append(text.as_str());
        r.append("'");
        r
    }
}

/// The value of a yes/no setting as std's `bool::from_str` reads it:
/// exactly "true" or "false".
pub open spec fn bool_text(s: Seq<char>) -> Option<bool> {
    if s == "true"@ {
        Some(true)
    } else if s == "false"@ {
        Some(false)
    } else {
        None
    }
}

/// Reads "true" or "false".
pub fn parse_bool(s: &str) -> (r: Option<bool>)
    ensures
        r == bool_text(s@),
{
    if same_text(s, "true") {
        Some(true)
    } else if same_text(s, "false") {
        Some(false)
    } else {
        None
    }
}

/// The keys of the settings, in dotted form.
pub open spec fn key_known(key: Seq<char>) -> bool {
    ||| key == "general.auto_check_remote"@
    ||| key == "general.last_check"@
    ||| key == "commands_source.mode"@
    ||| key == "commands_source.path"@
    ||| key == "commands_source.url"@
    ||| key == "shell.type"@
}

/// The settings after setting `key` to `value`; `None` when the key is
/// unknown or the value of the yes/no setting does not read.
pub open spec fn applied(c: ConfigModel, key: Seq<char>, value: Seq<char>) -> Option<ConfigModel> {
    if key == "general.auto_check_remote"@ {
        match bool_text(value) {
            Some(b) => Some(ConfigModel { auto_check_remote: b, ..c }),
            None => None,
        }
    } else if key == "general.last_check"@ {
        Some(ConfigModel { last_check: value, ..c })
    } else if key == "commands_source.mode"@ {
        Some(ConfigModel { mode: value, ..c })
    } else if key == "commands_source.path"@ {
        Some(ConfigModel { path: value, ..c })
    } else if key == "commands_source.url"@ {
        Some(ConfigModel { url: value, ..c })
    } else if key == "shell.type"@ {
        Some(ConfigModel { shell_type: value, ..c })
    } else {
        None
    }
}

/// The answer to a yes/no prompt is yes: it reads "y" once trimmed and
/// lower-cased.
pub open spec fn answers_yes(answer: Seq<char>) -> bool {
    lowercase(trimmed(answer)) == "y"@
}

/// Whether the answer to a yes/no prompt is yes.
pub fn is_yes(answer: &str) -> (r: bool)
    ensures
        r == answers_yes(answer@),
{
    let chars = chars_of(answer);
    let t = string_of(trim_chars(chars.as_slice()).as_slice());
    let lower = to_lower(t.as_str());
    same_text(lower.as_str(), "y")
}

impl Config {
    /// Sets the setting named by the dotted `key` to `value`.
    pub fn set(&mut self, key: &str, value: &str) -> (r: Result<(), ConfigError>)
        ensures
            r is Ok <==> applied(old(self)@, key@, value@) is Some,
            r is Ok ==> final(self)@ == applied(old(self)@, key@, value@)->0,
            r is Err ==> final(self)@ == old(self)@,
            r matches Err(ConfigError::UnknownKey { key: k }) ==> !key_known(key@) && k@ == key@,
            r matches Err(ConfigError::InvalidBool { value: v }) ==> key@
                == "general.auto_check_remote"@ && v@ == value@,
    {
        if same_text(key, "general.auto_check_remote") {
            match parse_bool(value) {
                Some(b) => {
                    self.general.auto_check_remote = b;
                    Ok(())
                },
                None => Err(ConfigError::InvalidBool { value: String::from_str(value) }),
            }
        } else if same_text(key, "general.last_check") {
            self.general.last_check = String::from_str(value);
            Ok(())
        } else if same_text(key, "commands_source.mode") {
            self.commands_source.mode = String::from_str(value);
            Ok(())
        } else if same_text(key, "commands_source.path") {
            self.commands_source.path = String::from_str(value);
            Ok(())
        } else if same_text(key, "commands_source.url") {
            self.commands_source.url = String::from_str(value);
            Ok(())
        } else if same_text(key, "shell.type") {
            self.shell.shell_type = String::from_str(value);
            Ok(())
        } else {
            Err(ConfigError::UnknownKey { key: String::from_str(key) })
        }
    }

    /// Commands come from a remote library: the mode is "remote" and a URL
    /// is set.
    pub open spec fn remote_source(self) -> bool {
        self.commands_source.mode@ == "remote"@ && self.commands_source.url@.len() > 0
    }

    /// Whether commands come from a remote library with a URL set.
    pub fn sync_enabled(&self) -> (r: bool)
        ensures
            r == self.remote_source(),
    {
        same_text(self.commands_source.mode.as_str(), "remote")
            && !self.commands_source.url.as_str().is_empty()
    }

    /// Whether today's automatic remote check is still due: it is enabled
    /// and the last check was not on `today`.
    pub fn daily_check_due(&self, today: &str) -> (r: bool)
        ensures
            r == (self.general.auto_check_remote && self.general.last_check@ != today@),
    {
        self.general.auto_check_remote && !same_text(self.general.last_check.as_str(), today)
    }
}

} // verus!
