use feelingwise::settings::{detect_system_language, language_from_locale, language_variables, AppSettings};

#[test]
fn test_default_settings() {
    let settings = AppSettings::default();
    assert!(settings.start_on_login);
    assert!(settings.minimize_to_tray);
    assert!(!settings.first_run_complete);
}

#[test]
fn defaults_with_language() {
    let s = AppSettings::with_language("ro");
    assert_eq!(s.language, "ro");
    assert_eq!(s.selected_model, "phi3:mini");
    assert_eq!(s.persona, "adult");
    assert_eq!(AppSettings::default().language, "en");
}

#[test]
fn locale_values_give_language_codes() {
    assert_eq!(language_from_locale("en_US.UTF-8"), Some("en".to_string()));
    assert_eq!(language_from_locale("RO_ro"), Some("ro".to_string()));
    assert_eq!(language_from_locale("de.UTF-8"), Some("de".to_string()));
    assert_eq!(language_from_locale("C"), None);
    assert_eq!(language_from_locale("C.UTF-8"), None);
    assert_eq!(language_from_locale("POSIX"), None);
    assert_eq!(language_from_locale(""), None);
    assert_eq!(language_from_locale("_US"), None);
}

#[test]
fn first_usable_variable_wins() {
    assert_eq!(language_variables(), vec!["LANG", "LANGUAGE", "LC_ALL", "LC_MESSAGES"]);
    let values = vec![None, Some("C".to_string()), Some("fr_FR.UTF-8".to_string()), Some("de_DE".to_string())];
    assert_eq!(detect_system_language(&values), "fr");
    assert_eq!(detect_system_language(&vec![None, None, None, None]), "en");
    assert_eq!(detect_system_language(&vec![Some("POSIX".to_string())]), "en");
}
