use battery_health_keeper::language::{
    find_lang_dir, lang_dir_candidates, locale_files, translate_battery_status, Language,
};
use battery_health_keeper::path::FilePath;

const EN: &str = "# English\n\
app.title=Battery Health Keeper\n\
app.subtitle=Set maximum battery charge limit.\n\
button.apply=Apply limit\n\
ui.thresholds_unsupported=not supported\n\
ui.permission_required=permission required\n\
battery.status.charging=charging\n\
battery.status.discharging=discharging\n";

const HU: &str = "# Magyar\r\n\
app.title = Akkumulátor egészségmegőrző\r\n\
button.apply = Korlát alkalmazása\r\n\
status.discharging=merülés\r\n\
ui.thresholds_writable=írható küszöbértékek\r\n\
ui.thresholds_unsupported=nem támogatott\r\n\
ui.permission_required=engedély szükséges\r\n";

fn own_file(contents: &str) -> Vec<Option<String>> {
    vec![Some(contents.to_string()), Some(EN.to_string()), None, None]
}

#[test]
fn test_language_loading() {
    let en = Language::load_locale("en", &own_file(EN));
    assert_eq!(en.text("app.title", ""), "Battery Health Keeper");
    assert_eq!(en.text("button.apply", ""), "Apply limit");
    assert_eq!(translate_battery_status("Discharging", &en), "discharging");

    let hu = Language::load_locale("hu", &own_file(HU));
    assert_eq!(hu.text("app.title", ""), "Akkumulátor egészségmegőrző");
    assert_eq!(hu.text("button.apply", ""), "Korlát alkalmazása");
    assert_eq!(translate_battery_status("Discharging", &hu), "merülés");
    assert_eq!(
        hu.text("ui.thresholds_writable", ""),
        "írható küszöbértékek"
    );
    assert_eq!(en.text("ui.thresholds_unsupported", ""), "not supported");
    assert_eq!(hu.text("ui.thresholds_unsupported", ""), "nem támogatott");
    assert_eq!(en.text("ui.permission_required", ""), "permission required");
    assert_eq!(hu.text("ui.permission_required", ""), "engedély szükséges");
}

#[test]
fn test_missing_locale_falls_back_to_english() {
    let attempts = vec![None, Some(EN.to_string()), None, None];
    let lang = Language::load_locale("xx_nonexistent", &attempts);
    assert_eq!(lang.locale, "xx_nonexistent");
    assert_eq!(lang.text("app.title", "FALLBACK"), "Battery Health Keeper");
    assert_eq!(lang.text("totally.bogus.key", "FALLBACK"), "FALLBACK");
}

#[test]
fn test_translate_battery_status_all_variants() {
    let en = Language::load_locale("en", &own_file(EN));

    assert_eq!(translate_battery_status("Charging", &en), "charging");
    assert_eq!(translate_battery_status("Discharging", &en), "discharging");
    assert_eq!(
        translate_battery_status("Not charging", &en),
        "not charging"
    );
    assert_eq!(translate_battery_status("Full", &en), "full");
    assert_eq!(translate_battery_status("Unknown", &en), "unknown");

    assert_eq!(translate_battery_status("CHARGING", &en), "charging");
    assert_eq!(translate_battery_status("full", &en), "full");

    assert_eq!(
        translate_battery_status("SomeWeirdValue", &en),
        "SomeWeirdValue"
    );
}

#[test]
fn specific_status_key_comes_before_the_general_one() {
    let both = "status.charging=general\nbattery.status.charging=specific\n";
    let language = Language::load_locale("xx", &own_file(both));
    assert_eq!(translate_battery_status("Charging", &language), "specific");
    let general = Language::load_locale("xx", &own_file("status.charging=general\n"));
    assert_eq!(translate_battery_status("Charging", &general), "general");
}

#[test]
fn status_with_other_letters_is_kept() {
    let en = Language::load_locale("en", &own_file(EN));
    // The Kelvin sign is no ASCII letter.
    assert_eq!(translate_battery_status("un\u{212a}nown", &en), "un\u{212a}nown");
    assert_eq!(translate_battery_status(" full", &en), " full");
    assert_eq!(translate_battery_status("", &en), "");
}

#[test]
fn language_file_syntax() {
    let contents = "\n  # a = comment\n#b=comment\nplain line\n = empty key\n\u{a0}key \t=  a = b \u{3000}\nkey2=\nkey=first\nkey=second";
    let language = Language::load_locale("xx", &own_file(contents));
    assert_eq!(language.text("key", "?"), "second");
    assert_eq!(language.text("key2", "?"), "");
    assert_eq!(language.text("", "?"), "empty key");
    assert_eq!(language.text("b", "?"), "?");
    assert_eq!(language.text("plain line", "?"), "?");
    let one = Language::load_locale("xx", &own_file("\u{a0}key \t=  a = b \u{3000}"));
    assert_eq!(one.text("key", "?"), "a = b");
}

#[test]
fn no_language_file_gives_fallbacks() {
    let language = Language::load_locale("de", &vec![None, None, None, None]);
    assert_eq!(language.locale, "de");
    assert_eq!(language.text("app.title", "Title"), "Title");
}

#[test]
fn environment_names_the_locale() {
    assert_eq!(Language::load(Some("hu"), &own_file(HU)).locale, "hu");
    assert_eq!(Language::load(None, &own_file(EN)).locale, "en");
    assert_eq!(
        Language::load(None, &own_file(EN)).text("button.apply", ""),
        "Apply limit"
    );
}

#[test]
fn locale_file_order() {
    let dir = FilePath::of("/opt/keeper/lang");
    let files = locale_files(&dir, "hu");
    assert_eq!(
        files,
        vec![
            FilePath::of("/opt/keeper/lang/hu.lang"),
            FilePath::of("/opt/keeper/lang/en.lang"),
            FilePath::of("lang/hu.lang"),
            FilePath::of("lang/en.lang"),
        ]
    );
}

#[test]
fn language_directory_order() {
    let exe = FilePath::of("/opt/keeper/bin");
    let candidates = lang_dir_candidates(Some(&exe));
    assert_eq!(
        candidates,
        vec![
            FilePath::of("lang"),
            FilePath::of("/opt/keeper/bin/lang"),
            FilePath::of("/opt/keeper/bin/../../lang"),
        ]
    );
    assert_eq!(
        find_lang_dir(&candidates, &vec![false, true, true]),
        FilePath::of("/opt/keeper/bin/lang")
    );
    assert_eq!(
        find_lang_dir(&candidates, &vec![true, true, true]),
        FilePath::of("lang")
    );
    assert_eq!(
        find_lang_dir(&candidates, &vec![false, false, false]),
        FilePath::of("lang")
    );
    assert_eq!(lang_dir_candidates(None), vec![FilePath::of("lang")]);
}

fn names(list: &[&str]) -> Vec<String> {
    list.iter().map(|s| s.to_string()).collect()
}

#[test]
fn locales_are_sorted_and_unique() {
    let files = names(&[
        "hu.lang", "readme.txt", "en.lang", ".lang", "de.lang.bak", "zh_TW.lang", "en.lang",
        "Zulu.lang", "árvíz.lang", "x.y.lang", "..lang", "lang", "en.LANG",
    ]);
    assert_eq!(
        Language::available_locales(&files),
        names(&[".", "Zulu", "en", "hu", "x.y", "zh_TW", "árvíz"])
    );
    assert_eq!(Language::available_locales(&vec![]), names(&[]));
}

#[test]
fn locales_do_not_depend_on_file_order() {
    let a = names(&["b.lang", "a.lang", "ab.lang"]);
    let b = names(&["ab.lang", "b.lang", "a.lang"]);
    assert_eq!(
        Language::available_locales(&a),
        Language::available_locales(&b)
    );
    assert_eq!(Language::available_locales(&a), names(&["a", "ab", "b"]));
}
