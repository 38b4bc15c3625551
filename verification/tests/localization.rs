use tfm2_editor::localization::{check_locale_file, LocaleFile, Localization};

fn locale(code: &str, name: &str, strings: &[(&str, &str)]) -> LocaleFile {
    LocaleFile {
        locale: code.to_string(),
        name: name.to_string(),
        strings: strings.iter().map(|(k, v)| (k.to_string(), v.to_string())).collect(),
    }
}

fn english() -> LocaleFile {
    locale(
        "en-US",
        "English",
        &[("app.made_by", "Made by {author}"), ("tabs.economy", "Economy"), ("tabs.players", "Players")],
    )
}

fn translator(requested: &str, development: bool) -> Localization {
    let german = locale("de-DE", "Deutsch", &[("tabs.economy", "Wirtschaft")]);
    let french = locale("fr-FR", "français", &[]);
    Localization::from_parts(
        english(),
        vec![german, french],
        requested.to_string(),
        Vec::new(),
        "/tmp/locales".to_string(),
        development,
    )
}

#[test]
fn placeholders_are_replaced() {
    let mut localization = translator("en-US", false);
    assert_eq!(localization.tr_with("app.made_by", &[("author", "jal-io")]), "Made by jal-io");
}

#[test]
fn saved_language_is_used_when_available() {
    let localization = translator("de-DE", false);
    assert_eq!(localization.current_language(), "de-DE");
    assert_eq!(localization.current_language_name(), "Deutsch");
    assert_eq!(localization.debug_issue_count(), 0);
}

#[test]
fn unavailable_saved_language_falls_back_to_english_with_a_diagnostic() {
    let localization = translator("xx-XX", false);
    assert_eq!(localization.current_language(), "en-US");
    assert_eq!(localization.current_language_name(), "English");
    assert_eq!(localization.debug_issue_count(), 1);
    assert!(localization.debug_report().contains("Saved language 'xx-XX' is unavailable; using en-US"));
}

#[test]
fn missing_translations_fall_back_and_are_recorded_once() {
    let mut localization = translator("de-DE", false);
    assert_eq!(localization.tr("tabs.economy"), "Wirtschaft");
    assert_eq!(localization.tr("tabs.players"), "Players");
    assert_eq!(localization.tr("tabs.players"), "Players");
    assert_eq!(localization.tr("no.such.key"), "no.such.key");
    assert_eq!(localization.debug_issue_count(), 2);
    let mut english_only = translator("en-US", true);
    assert_eq!(english_only.tr("tabs.players"), "Players");
    assert_eq!(english_only.debug_issue_count(), 0);
    assert_eq!(english_only.tr("no.such.key"), "[[no.such.key]]");
    assert_eq!(english_only.debug_issue_count(), 1);
}

#[test]
fn selecting_a_language_needs_it_loaded() {
    let mut localization = translator("en-US", false);
    assert_eq!(localization.select_language("fr-FR"), Ok(()));
    assert_eq!(localization.current_language(), "fr-FR");
    assert_eq!(
        localization.select_language("it-IT"),
        Err("Language 'it-IT' is not available".to_string())
    );
    assert_eq!(localization.current_language(), "fr-FR");
    assert!(localization.has_language("de-DE"));
    assert!(!localization.has_language("it-IT"));
}

#[test]
fn languages_are_listed_by_lower_case_name() {
    let localization = translator("en-US", false);
    let names = localization
        .available_languages()
        .into_iter()
        .map(|(code, _)| code)
        .collect::<Vec<_>>();
    assert_eq!(names, vec!["de-DE", "en-US", "fr-FR"]);
}

#[test]
fn diagnostics_are_reported_line_by_line() {
    let mut localization = translator("en-US", false);
    localization.add_diagnostic("first".to_string());
    let report = localization.debug_report();
    assert!(report.contains("first"));
    assert_eq!(localization.debug_issue_count(), 1);
}

#[test]
fn locale_files_need_a_code_and_a_name() {
    assert!(check_locale_file(english(), "en-US.json").is_ok());
    assert_eq!(
        check_locale_file(locale(" ", "X", &[]), "a.json").err(),
        Some("Invalid locale a.json: 'locale' cannot be empty".to_string())
    );
    assert_eq!(
        check_locale_file(locale("x", "", &[]), "b.json").err(),
        Some("Invalid locale b.json: 'name' cannot be empty".to_string())
    );
}

#[test]
fn active_language_and_english_stay_loaded() {
    let mut localization = translator("xx-XX", false);
    assert!(localization.has_language(localization.current_language()));
    assert!(localization.has_language("en-US"));
    assert_eq!(localization.select_language("de-DE"), Ok(()));
    assert!(localization.select_language("it-IT").is_err());
    localization.tr("tabs.players");
    localization.tr_with("app.made_by", &[("author", "x")]);
    assert_eq!(localization.current_language(), "de-DE");
    assert!(localization.has_language(localization.current_language()));
    assert!(localization.has_language("en-US"));
}

#[test]
fn each_lookup_adds_at_most_one_issue() {
    let mut localization = translator("fr-FR", false);
    let start = localization.debug_issue_count();
    localization.tr("tabs.players");
    assert_eq!(localization.debug_issue_count(), start + 1);
    localization.tr("tabs.players");
    assert_eq!(localization.debug_issue_count(), start + 1);
    localization.tr("another.key");
    assert_eq!(localization.debug_issue_count(), start + 2);
}
