//! Saved user preferences.
use vstd::prelude::*;
use vstd::string::*;

use crate::keeper;

verus! {

/// The settings file, in the working directory.
pub const SETTINGS_FILE: &'static str = "battery-health-keeper.json";

/// What the user chose to keep between runs.
pub struct Settings {
    pub language: String,
    pub charge_limit: u8,
}

/// What `Settings` stand for.
pub struct SettingsView {
    pub language: Seq<char>,
    pub charge_limit: nat,
}

impl View for Settings {
    type V = SettingsView;

    open spec fn view(&self) -> SettingsView {
        SettingsView { language: self.language@, charge_limit: self.charge_limit as nat }
    }
}

/// The charge limit in percent where the settings name none.
pub fn default_charge_limit() -> (r: u8)
    ensures
        r == 80,
{
    80
}

/// The language where the settings name none.
pub fn default_language() -> (r: String)
    ensures
        r@ == "en"@,
{
    "en".to_owned()
}

/// The locale to start with: the environment's, else the saved one, else English.
pub open spec fn first_locale(env: Option<Seq<char>>, saved: Option<SettingsView>) -> Seq<char> {
    match (env, saved) {
        (Some(locale), _) => locale,
        (None, Some(settings)) => settings.language,
        (None, None) => "en"@,
    }
}

/// The charge limit to start with: the saved one, brought into the range on offer, else the
/// default.
pub open spec fn first_charge_limit(saved: Option<SettingsView>) -> nat {
    match saved {
        Some(settings) => keeper::in_limit_range(settings.charge_limit),
        None => 80,
    }
}

/// The characters of a borrowed text that may be missing.
pub open spec fn maybe_str(s: Option<&str>) -> Option<Seq<char>> {
    match s {
        Some(s) => Some(s@),
        None => None,
    }
}

/// What settings that may be missing stand for.
pub open spec fn maybe_settings(s: Option<&Settings>) -> Option<SettingsView> {
    match s {
        Some(s) => Some(s@),
        None => None,
    }
}

/// Picks the locale to start with.
pub fn startup_locale(env: Option<&str>, saved: Option<&Settings>) -> (r: String)
    ensures
        r@ == first_locale(maybe_str(env), maybe_settings(saved)),
{
    match (env, saved) {
        (Some(locale), _) => locale.to_owned(),
        (None, Some(settings)) => settings.language.clone(),
        (None, None) => default_language(),
    }
}

/// The settings in a file that may leave either field out.
pub open spec fn with_defaults(
    language: Option<Seq<char>>,
    charge_limit: Option<u8>,
) -> SettingsView {
    SettingsView {
        language: match language {
            Some(language) => language,
            None => "en"@,
        },
        charge_limit: match charge_limit {
            Some(limit) => limit as nat,
            None => 80,
        },
    }
}

impl Settings {
    /// Builds settings from the fields that a settings file holds; a field that the file
    /// leaves out has its default.
    pub fn from_fields(language: Option<String>, charge_limit: Option<u8>) -> (r: Settings)
        ensures
            r@ == with_defaults(crate::battery::maybe_text(language), charge_limit),
    {
        Settings {
            language: match language {
                Some(language) => language,
                None => default_language(),
            },
            charge_limit: match charge_limit {
                Some(limit) => limit,
                None => default_charge_limit(),
            },
        }
    }
}

/// A file that holds both fields gives exactly the settings that were written to it.
pub proof fn complete_fields_are_kept(saved: SettingsView, charge_limit: u8)
    requires
        saved.charge_limit == charge_limit,
    ensures
        with_defaults(Some(saved.language), Some(charge_limit)) == saved,
{
}

/// The environment's locale counts before the saved one, whatever was saved.
pub proof fn environment_locale_comes_first(locale: Seq<char>, saved: Option<SettingsView>)
    ensures
        first_locale(Some(locale), saved) == locale,
        saved matches Some(s) ==> first_locale(None, saved) == s.language,
{
}

/// A field that a settings file leaves out has its default, English and eighty percent, and does
/// not touch the other.
pub proof fn missing_fields_have_defaults(language: Option<Seq<char>>, charge_limit: Option<u8>)
    ensures
        with_defaults(language, charge_limit).language == "en"@ || language is Some,
        with_defaults(language, charge_limit).charge_limit == 80 || charge_limit is Some,
        language matches Some(l) ==> with_defaults(language, charge_limit).language == l,
        charge_limit matches Some(n) ==> with_defaults(language, charge_limit).charge_limit == n,
{
}

/// Without saved settings the program starts in English, unless the environment asks for another
/// locale, and with a limit of eighty percent.
pub proof fn start_without_settings()
    ensures
        first_locale(None, None) == "en"@,
        first_charge_limit(None) == 80,
{
}

} // verus!
