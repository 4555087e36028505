use battery_health_keeper::keeper::{
    poll_is_due, presets, BatteryHealthKeeperApp, SettingsLoad,
};
use battery_health_keeper::settings::{
    default_charge_limit, default_language, startup_locale, Settings,
};
use serde_json::Value;

fn from_json(json: &str) -> Settings {
    let value: Value = serde_json::from_str(json).unwrap();
    let language = value
        .get("language")
        .map(|v| v.as_str().unwrap().to_string());
    let charge_limit = value
        .get("charge_limit")
        .map(|v| u8::try_from(v.as_u64().unwrap()).unwrap());
    Settings::from_fields(language, charge_limit)
}

fn to_json(settings: &Settings) -> String {
    let mut map = serde_json::Map::new();
    map.insert(
        "language".to_string(),
        Value::from(settings.language.clone()),
    );
    map.insert("charge_limit".to_string(), Value::from(settings.charge_limit));
    serde_json::to_string(&Value::Object(map)).unwrap()
}

#[test]
fn test_settings_serde_roundtrip() {
    let json = to_json(&Settings {
        language: "hu".into(),
        charge_limit: 85,
    });
    let loaded = from_json(&json);
    assert_eq!(loaded.charge_limit, 85);
    assert_eq!(loaded.language, "hu");

    let legacy_json = r#"{
            "language": "hu",
            "cycles": [
                { "enabled": true, "charge_to": 89, "discharge_to": 15 },
                { "enabled": false, "charge_to": null, "discharge_to": null }
            ]
        }"#;
    let legacy_loaded = from_json(legacy_json);
    assert_eq!(legacy_loaded.language, "hu");
    assert_eq!(legacy_loaded.charge_limit, 80);
}

#[test]
fn test_settings_defaults_from_empty_json() {
    let settings = from_json("{}");
    assert_eq!(settings.charge_limit, 80);
    assert_eq!(settings.language, "en");
}

#[test]
fn defaults() {
    assert_eq!(default_charge_limit(), 80);
    assert_eq!(default_language(), "en");
    assert_eq!(presets(), vec![60, 80, 100]);
}

#[test]
fn locale_priority() {
    let saved = Settings {
        language: "hu".into(),
        charge_limit: 70,
    };
    assert_eq!(startup_locale(Some("de"), Some(&saved)), "de");
    assert_eq!(startup_locale(Some("de"), None), "de");
    assert_eq!(startup_locale(None, Some(&saved)), "hu");
    assert_eq!(startup_locale(None, None), "en");
}

#[test]
fn poll_interval() {
    assert!(!poll_is_due(0));
    assert!(!poll_is_due(4));
    assert!(poll_is_due(5));
    assert!(poll_is_due(600));
}

fn no_files() -> Vec<Option<String>> {
    vec![None, None, None, None]
}

#[test]
fn startup_state() {
    let saved = Settings {
        language: "hu".into(),
        charge_limit: 65,
    };
    let app = BatteryHealthKeeperApp::new(None, Some(&saved), &no_files(), vec![]);
    assert_eq!(app.charge_limit, 65);
    assert_eq!(app.language.locale, "hu");
    assert_eq!(
        app.message,
        "No battery found. On Linux, battery control uses /sys/class/power_supply."
    );
    let app = BatteryHealthKeeperApp::new(Some("de"), Some(&saved), &no_files(), vec![]);
    assert_eq!(app.language.locale, "de");
    let app = BatteryHealthKeeperApp::new(None, None, &no_files(), vec![]);
    assert_eq!(app.charge_limit, 80);
    assert_eq!(app.language.locale, "en");
}

#[test]
fn saved_settings_come_back() {
    let saved = Settings {
        language: "hu".into(),
        charge_limit: 65,
    };
    let app = BatteryHealthKeeperApp::new(None, Some(&saved), &no_files(), vec![]);
    let kept = app.settings();
    let mut later = BatteryHealthKeeperApp::new(None, None, &no_files(), vec![]);
    later.load_settings_into_app(SettingsLoad::Loaded(
        kept,
        vec![Some("status.settings_loaded=Betöltve:".to_string())],
    ));
    assert_eq!(later.charge_limit, 65);
    assert_eq!(later.language.locale, "hu");
    assert_eq!(later.message, "Betöltve: battery-health-keeper.json");
    assert_eq!(later.settings().language, "hu");
    assert_eq!(later.settings().charge_limit, 65);
}

#[test]
fn settings_messages() {
    let mut app = BatteryHealthKeeperApp::new(None, None, &no_files(), vec![]);
    app.save_settings(Ok(()));
    assert_eq!(app.message, "Settings saved to battery-health-keeper.json");
    app.save_settings(Err("disk full".to_string()));
    assert_eq!(app.message, "Could not save settings: disk full");
    app.load_settings_into_app(SettingsLoad::Missing);
    assert_eq!(app.message, "No saved settings file exists yet.");
    app.load_settings_into_app(SettingsLoad::Failed("bad json".to_string()));
    assert_eq!(app.message, "Could not load settings: bad json");
    assert_eq!(app.charge_limit, 80);
    app.change_language("hu", &vec![Some("status.language_changed=Nyelv".to_string())]);
    assert_eq!(app.message, "Nyelv: hu");
    assert_eq!(app.language.locale, "hu");
}

#[test]
fn chosen_limit_stays_in_range() {
    let mut app = BatteryHealthKeeperApp::new(None, None, &no_files(), vec![]);
    for (chosen, kept) in [(0, 50), (49, 50), (50, 50), (77, 77), (100, 100), (101, 100), (255, 100)]
    {
        app.choose_limit(chosen);
        assert_eq!(app.charge_limit, kept);
    }
}

#[test]
fn saved_limit_is_brought_into_range() {
    for (saved, kept) in [(0, 50), (49, 50), (50, 50), (85, 85), (100, 100), (200, 100)] {
        let settings = Settings {
            language: "en".into(),
            charge_limit: saved,
        };
        let app = BatteryHealthKeeperApp::new(None, Some(&settings), &no_files(), vec![]);
        assert_eq!(app.charge_limit, kept);
        let mut app = BatteryHealthKeeperApp::new(None, None, &no_files(), vec![]);
        app.load_settings_into_app(SettingsLoad::Loaded(settings, no_files()));
        assert_eq!(app.charge_limit, kept);
    }
}
