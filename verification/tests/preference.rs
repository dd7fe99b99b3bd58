use std::str::FromStr;

use chasam_core::preference::ColorScheme;
use chasam_core::preference::Language;
use chasam_core::preference::Preference;

#[test]
fn test_language() {
    let language = Language::from_str("pt").unwrap();
    assert_eq!(language, Language::Portuguese);

    let language_str = Language::English.code();
    assert_eq!(language_str, "en");
}

#[test]
fn unknown_language_codes_are_rejected() {
    assert!(Language::from_str("de").is_err());
    assert!(Language::from_str("").is_err());
    assert!(Language::from_str("EN").is_err());
}

#[test]
fn preference_updates_keep_the_other_fields() {
    let mut pref = Preference::new(ColorScheme::Light, Language::Spanish, "/corpus/db");
    assert_eq!(pref.color_scheme, ColorScheme::Light);
    assert_eq!(pref.language, Language::Spanish);
    assert_eq!(pref.database_path, "/corpus/db");

    pref.set_color_scheme(ColorScheme::Dark);
    assert_eq!(pref.color_scheme, ColorScheme::Dark);
    assert_eq!(pref.language, Language::Spanish);

    pref.set_language("pt");
    assert_eq!(pref.language, Language::Portuguese);
    // an unknown code falls back to English
    pref.set_language("zz");
    assert_eq!(pref.language, Language::English);

    pref.set_database_path("/elsewhere");
    assert_eq!(pref.database_path, "/elsewhere");
    assert_eq!(pref.color_scheme, ColorScheme::Dark);
}

#[test]
fn defaults_follow_the_system() {
    let pref = Preference::default();
    assert_eq!(pref.color_scheme, ColorScheme::Default);
    assert_eq!(pref.language, Language::English);
    assert_eq!(pref.database_path, "");
}
