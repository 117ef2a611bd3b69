//! Configuration, read from `dictate.toml` next to the executable.
//!
//! A file rather than a settings UI: this is a personal tool, and a UI is the single largest
//! source of complexity in every dictation app that has one.
use vstd::prelude::*;

verus! {

/// The name of the file.
pub const FILE_NAME: &'static str = "dictate.toml";

/// The commented file that is written where there is none.
pub const STARTER: &'static str = r#"# dictate configuration

# Hold this to record. Released, it transcribes and types.
# Modifier-only bindings work and are usually the most comfortable, because they
# cannot collide with an application shortcut. Examples:
#   "CtrlLeft+WinLeft"   "CtrlRight"   "AltRight"   "Ctrl+Space"   "F13"
hotkey = "CtrlLeft+WinLeft"

# Absolute path to a GGUF speech model.
# Handy's models live under ~/.cache/huggingface/hub if you already have it installed.
model = "C:/path/to/model.gguf"

# Language hint. Comment out to let the model detect, which is less accurate on
# short utterances.
language = "en"

# Ignore recordings shorter than this, so an accidental tap does not produce a
# hallucinated transcript.
min_recording_ms = 400

# Keep the model resident between dictations. Costs idle RAM, saves seconds per
# dictation, since loading dominates everything else.
keep_model_loaded = true

# Start with Windows. Toggling this and restarting is enough in either direction.
autostart = false
"#;

#[derive(Debug, Clone)]
pub struct Config {
    /// Hold-to-talk binding, e.g. `"Ctrl+Space"`, `"CtrlRight"`, `"F13"`.
    ///
    /// A modifier-only binding like `"CtrlRight"` is allowed and is usually the most comfortable,
    /// since it cannot collide with an application shortcut.
    pub hotkey: String,
    /// Absolute path to a GGUF model file.
    pub model: String,
    /// Language hint (ISO code). `None` lets the model detect, which costs accuracy on short
    /// utterances, so pin it if you always dictate in one language.
    pub language: Option<String>,
    /// Discard recordings shorter than this. Guards against an accidental tap producing a
    /// hallucinated transcript from a fraction of a second of noise.
    pub min_recording_ms: u64,
    /// Keep the model in memory between dictations.
    ///
    /// Loading is the slowest step by far, so this trades idle RAM for latency. Turn it off if the
    /// model is large and you dictate rarely.
    pub keep_model_loaded: bool,
    /// Start with Windows (HKCU Run key). Asserted on every launch, so toggling it here and
    /// restarting is enough in either direction.
    pub autostart: bool,
}

/// What a config file says. Only the hotkey and the model have to be in it.
#[derive(Debug)]
pub struct ConfigFields {
    pub hotkey: String,
    pub model: String,
    pub language: Option<String>,
    pub min_recording_ms: Option<u64>,
    pub keep_model_loaded: Option<bool>,
    pub autostart: Option<bool>,
}

/// What was found where the config file should be.
#[derive(Debug)]
pub enum ConfigFile {
    /// Nothing, so the [`STARTER`] was written there.
    Missing,
    /// A file, and whether there is a model where it says.
    Found { fields: ConfigFields, model_exists: bool },
}

/// Why there is no config to run with.
#[derive(Debug)]
pub enum ConfigError {
    /// There was no file. Now there is one to fill in.
    StarterWritten { path: String },
    /// The file names a model that does not exist.
    ModelNotFound { model: String, path: String },
}

pub fn default_min_ms() -> (r: u64)
    ensures
        r == 400,
{
    400
}

pub fn default_true() -> (r: bool)
    ensures
        r,
{
    true
}

/// `config` is what `fields` say, with the defaults for what they leave open.
pub open spec fn is_config_of(config: Config, fields: ConfigFields) -> bool {
    &&& config.hotkey == fields.hotkey
    &&& config.model == fields.model
    &&& config.language == fields.language
    &&& config.min_recording_ms == (match fields.min_recording_ms {
        Some(ms) => ms,
        None => 400,
    })
    &&& config.keep_model_loaded == (match fields.keep_model_loaded {
        Some(keep) => keep,
        None => true,
    })
    &&& config.autostart == (match fields.autostart {
        Some(start) => start,
        None => false,
    })
}

impl Default for Config {
    fn default() -> (r: Config)
        ensures
            r.hotkey@ == "CtrlRight"@,
            r.model@ == "model.gguf"@,
            r.language is Some,
            r.language->0@ == "en"@,
            r.min_recording_ms == 400,
            r.keep_model_loaded,
            !r.autostart,
    {
        Config {
            hotkey: "CtrlRight".to_string(),
            model: "model.gguf".to_string(),
            language: Some("en".to_string()),
            min_recording_ms: default_min_ms(),
            keep_model_loaded: default_true(),
            autostart: false,
        }
    }
}

impl Config {
    /// The config in a file, with the defaults for what the file leaves open.
    pub fn from_fields(fields: ConfigFields) -> (r: Config)
        ensures
            is_config_of(r, fields),
    {
        Config {
            hotkey: fields.hotkey,
            model: fields.model,
            language: fields.language,
            min_recording_ms: match fields.min_recording_ms {
                Some(ms) => ms,
                None => default_min_ms(),
            },
            keep_model_loaded: match fields.keep_model_loaded {
                Some(keep) => keep,
                None => default_true(),
            },
            autostart: match fields.autostart {
                Some(start) => start,
                None => false,
            },
        }
    }

    /// The config, once the file at `path` was looked for: there has to be one, and the model that
    /// it names has to exist.
    pub fn load_or_init(path: &str, file: ConfigFile) -> (r: Result<Config, ConfigError>)
        ensures
            match file {
                ConfigFile::Missing => {
                    r matches Err(ConfigError::StarterWritten { path: p }) && p@ == path@
                },
                ConfigFile::Found { fields, model_exists } => if model_exists {
                    r matches Ok(config) && is_config_of(config, fields)
                } else {
                    r matches Err(ConfigError::ModelNotFound { model, path: p }) && model
                        == fields.model && p@ == path@
                },
            },
    {
        match file {
            ConfigFile::Missing => Err(ConfigError::StarterWritten { path: path.to_string() }),
            ConfigFile::Found { fields, model_exists } => {
                if model_exists {
                    Ok(Config::from_fields(fields))
                } else {
                    Err(
                        ConfigError::ModelNotFound {
                            model: fields.model,
                            path: path.to_string(),
                        },
                    )
                }
            },
        }
    }
}

impl ConfigError {
    /// What the user is told.
    pub open spec fn text(self) -> Seq<char> {
        match self {
            ConfigError::StarterWritten { path } => "No config found, so one was written to "@
                + path@ + ".\nSet `model` to a .gguf file and run again."@,
            ConfigError::ModelNotFound { model, path } => "Model not found: "@ + model@
                + "\nSet `model` in "@ + path@ + " to a .gguf file."@,
        }
    }

    /// What the user is told.
    pub fn message(&self) -> (r: String)
        ensures
            r@ == self.text(),
    {
        match self {
            ConfigError::StarterWritten { path } => {
                let mut out = "No config found, so one was written to ".to_string();
                out.append(path.as_str());
                out.append(".\nSet `model` to a .gguf file and run again.");
                out
            },
            ConfigError::ModelNotFound { model, path } => {
                let mut out = "Model not found: ".to_string();
                out.append(model.as_str());
                out.append("\nSet `model` in ");
                out.append(path.as_str());
                out.append(" to a .gguf file.");
                out
            },
        }
    }
}

/// A config is what the file says, whatever that is, and has a default only for what the file
/// leaves open.
pub proof fn law_the_file_is_followed(config: Config, fields: ConfigFields)
    requires
        is_config_of(config, fields),
    ensures
        config.hotkey@ == fields.hotkey@,
        config.model@ == fields.model@,
        fields.language is None ==> config.language is None,
        fields.language matches Some(language) ==> config.language is Some
            && config.language->0@ == language@,
        fields.min_recording_ms is None ==> config.min_recording_ms == 400,
        fields.min_recording_ms matches Some(ms) ==> config.min_recording_ms == ms,
        fields.keep_model_loaded is None ==> config.keep_model_loaded,
        fields.keep_model_loaded matches Some(keep) ==> config.keep_model_loaded == keep,
        fields.autostart is None ==> !config.autostart,
        fields.autostart matches Some(start) ==> config.autostart == start,
{
}

/// The user is told which file and which model are meant, to the letter.
pub proof fn law_errors_name_the_files(model: String, path: String)
    ensures
        (ConfigError::StarterWritten { path }).text() == "No config found, so one was written to "@
            + path@ + ".\nSet `model` to a .gguf file and run again."@,
        (ConfigError::ModelNotFound { model, path }).text() == "Model not found: "@ + model@
            + "\nSet `model` in "@ + path@ + " to a .gguf file."@,
{
}

} // verus!
