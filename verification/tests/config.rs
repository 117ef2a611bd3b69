use dictate::config::{
    default_min_ms, default_true, Config, ConfigError, ConfigFields, ConfigFile, FILE_NAME, STARTER,
};
use dictate::hotkey::{accept_hotkey, Binding};
use handy_keys::{Hotkey, Key, Modifiers};

fn fields(hotkey: &str, model: &str) -> ConfigFields {
    ConfigFields {
        hotkey: hotkey.to_string(),
        model: model.to_string(),
        language: None,
        min_recording_ms: None,
        keep_model_loaded: None,
        autostart: None,
    }
}

#[test]
fn default_config_is_the_documented_one() {
    let config = Config::default();
    assert_eq!(config.hotkey, "CtrlRight");
    assert_eq!(config.model, "model.gguf");
    assert_eq!(config.language, Some("en".to_string()));
    assert_eq!(config.min_recording_ms, 400);
    assert!(config.keep_model_loaded);
    assert!(!config.autostart);
    assert_eq!(default_min_ms(), 400);
    assert!(default_true());
    assert_eq!(FILE_NAME, "dictate.toml");
}

#[test]
fn fields_left_open_get_their_defaults() {
    let config = Config::from_fields(fields("F13", "m.gguf"));
    assert_eq!(config.hotkey, "F13");
    assert_eq!(config.model, "m.gguf");
    assert_eq!(config.language, None);
    assert_eq!(config.min_recording_ms, 400);
    assert!(config.keep_model_loaded);
    assert!(!config.autostart);
}

#[test]
fn fields_that_are_there_are_taken() {
    let config = Config::from_fields(ConfigFields {
        language: Some("de".to_string()),
        min_recording_ms: Some(0),
        keep_model_loaded: Some(false),
        autostart: Some(true),
        ..fields("CtrlRight", "m.gguf")
    });
    assert_eq!(config.language, Some("de".to_string()));
    assert_eq!(config.min_recording_ms, 0);
    assert!(!config.keep_model_loaded);
    assert!(config.autostart);
}

#[test]
fn a_missing_file_stops_the_first_run() {
    let error = Config::load_or_init("C:/d/dictate.toml", ConfigFile::Missing).unwrap_err();
    assert!(matches!(&error, ConfigError::StarterWritten { .. }));
    assert_eq!(
        error.message(),
        "No config found, so one was written to C:/d/dictate.toml.\n\
         Set `model` to a .gguf file and run again."
    );
}

#[test]
fn a_missing_model_is_reported() {
    let file = ConfigFile::Found { fields: fields("F13", "C:/m.gguf"), model_exists: false };
    let error = Config::load_or_init("C:/d/dictate.toml", file).unwrap_err();
    assert!(matches!(&error, ConfigError::ModelNotFound { .. }));
    assert_eq!(
        error.message(),
        "Model not found: C:/m.gguf\nSet `model` in C:/d/dictate.toml to a .gguf file."
    );
}

#[test]
fn a_complete_file_is_loaded() {
    let file = ConfigFile::Found { fields: fields("F13", "C:/m.gguf"), model_exists: true };
    let config = Config::load_or_init("C:/d/dictate.toml", file).unwrap();
    assert_eq!(config.model, "C:/m.gguf");
}

#[test]
fn the_starter_is_the_documented_file() {
    let table = STARTER.parse::<toml::Table>().unwrap();
    assert_eq!(table["hotkey"].as_str(), Some("CtrlLeft+WinLeft"));
    assert_eq!(table["model"].as_str(), Some("C:/path/to/model.gguf"));
    assert_eq!(table["language"].as_str(), Some("en"));
    assert_eq!(table["min_recording_ms"].as_integer(), Some(400));
    assert_eq!(table["keep_model_loaded"].as_bool(), Some(true));
    assert_eq!(table["autostart"].as_bool(), Some(false));
    assert_eq!(table.len(), 6);
    assert!(STARTER.starts_with("# dictate configuration\n"));
    let examples = "#   \"CtrlLeft+WinLeft\"   \"CtrlRight\"   \"AltRight\"   \"Ctrl+Space\"   \"F13\"\n";
    assert!(STARTER.contains(examples));
    assert_eq!(binding("CtrlLeft+WinLeft").1, None);
}

fn binding(hotkey: &str) -> (u32, Option<String>) {
    let b = Config::from_fields(fields(hotkey, "m.gguf")).binding().unwrap();
    (b.modifiers, b.key)
}

#[test]
fn documented_hotkeys_are_valid() {
    assert_eq!(binding("CtrlRight"), (1 << 7, None));
    assert_eq!(binding("CtrlLeft+WinLeft"), (1 << 2 | 1 << 0, None));
    assert_eq!(binding("AltRight"), (1 << 8, None));
    assert_eq!(binding("Ctrl+Space"), (1 << 2 | 1 << 7, Some("Space".to_string())));
    assert_eq!(binding("F13"), (0, Some("F13".to_string())));
    assert!(Config::default().binding().is_ok());
}

#[test]
fn what_is_no_hotkey_is_reported() {
    let error = Config::from_fields(fields("Ctrl+Nope", "m.gguf")).binding().unwrap_err();
    assert_eq!(error.hotkey, "Ctrl+Nope");
    assert_eq!(error.reason, "Unknown key: Nope");
    assert_eq!(error.message(), "'Ctrl+Nope' is not a valid hotkey");
    assert!(Config::from_fields(fields("", "m.gguf")).binding().is_err());
    assert!(Config::from_fields(fields("A+B", "m.gguf")).binding().is_err());
}

#[test]
fn a_reading_is_passed_on() {
    let read = Binding { modifiers: 3, key: Some("K".to_string()) };
    let accepted = accept_hotkey("x", Ok(read)).unwrap();
    assert_eq!((accepted.modifiers, accepted.key), (3, Some("K".to_string())));
    let refused = accept_hotkey("x", Err("why".to_string())).unwrap_err();
    assert_eq!((refused.hotkey, refused.reason), ("x".to_string(), "why".to_string()));
}

#[test]
fn every_key_name_is_read_as_that_key() {
    for name in ["A", "0", "F24", "Space", "Left", "-", "\\", "KeypadPlus", "MouseX2", "Dictation"] {
        let (modifiers, key) = binding(name);
        let hotkey = Hotkey::new(
            Modifiers::from_bits_retain(modifiers),
            key.map(|k| k.parse::<Key>().unwrap()),
        )
        .unwrap();
        assert_eq!(hotkey, name.parse::<Hotkey>().unwrap());
    }
}
