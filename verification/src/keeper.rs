//! The application's state: what the window shows and what its buttons do to it.
use vstd::prelude::*;
use vstd::string::*;

use crate::battery;
use crate::battery::Battery;
use crate::battery::BatteryView;
use crate::battery::Readings;
use crate::battery::ReadingsView;
use crate::battery::ThresholdSupport;
use crate::language;
use crate::language::Language;
use crate::language::LanguageView;
use crate::settings;
use crate::settings::Settings;
use crate::settings::SettingsView;
use crate::settings::SETTINGS_FILE;
use crate::text;
use crate::threshold;

verus! {

/// Seconds between two looks at the batteries.
pub const POLL_INTERVAL_SECS: u64 = 5;

/// The least charge limit on offer, in percent.
pub const LEAST_LIMIT: u8 = 50;

/// The greatest charge limit on offer, in percent.
pub const GREATEST_LIMIT: u8 = 100;

/// The limit on offer that is nearest to `limit`.
pub open spec fn in_limit_range(limit: nat) -> nat {
    if limit < LEAST_LIMIT {
        LEAST_LIMIT as nat
    } else if limit > GREATEST_LIMIT {
        GREATEST_LIMIT as nat
    } else {
        limit
    }
}

/// Brings a limit into the range on offer.
pub fn limit_in_range(limit: u8) -> (r: u8)
    ensures
        r == in_limit_range(limit as nat),
{
    if limit < LEAST_LIMIT {
        LEAST_LIMIT
    } else if limit > GREATEST_LIMIT {
        GREATEST_LIMIT
    } else {
        limit
    }
}

/// The limits that one click chooses.
pub fn presets() -> (r: Vec<u8>)
    ensures
        r@ == seq![60u8, 80u8, 100u8],
{
    vec![60, 80, 100]
}

/// The state behind the window.
pub struct BatteryHealthKeeperApp {
    /// The limit that the user has chosen, from fifty to one hundred percent. It takes effect
    /// when it is applied.
    pub charge_limit: u8,
    pub language: Language,
    /// The status line.
    pub message: String,
    pub batteries: Vec<Battery>,
}

/// What the state stands for.
pub struct AppView {
    pub charge_limit: nat,
    pub language: LanguageView,
    pub message: Seq<char>,
    pub batteries: Seq<BatteryView>,
}

impl View for BatteryHealthKeeperApp {
    type V = AppView;

    open spec fn view(&self) -> AppView {
        AppView {
            charge_limit: self.charge_limit as nat,
            language: self.language@,
            message: self.message@,
            batteries: battery::battery_views(self.batteries@),
        }
    }
}

impl AppView {
    /// The limit is one of those on offer.
    pub open spec fn is_well_formed(self) -> bool {
        LEAST_LIMIT <= self.charge_limit <= GREATEST_LIMIT
    }
}

/// Every battery has this support; so does every battery of an empty list.
pub open spec fn all_have(batteries: Seq<BatteryView>, support: ThresholdSupport) -> bool {
    forall|i: int|
        0 <= i < batteries.len() ==> (#[trigger] batteries[i]).threshold_support == support
}

/// What is said where no threshold may be written.
pub open spec fn denied_text(language: LanguageView) -> Seq<char> {
    language.text(
        "status.thresholds_permission_denied"@,
        "Battery found, but write permission is denied. Run with sudo or configure a udev rule."@,
    )
}

/// The status line after a scan for batteries.
pub open spec fn scan_message(batteries: Seq<BatteryView>, language: LanguageView) -> Seq<char> {
    if batteries.len() == 0 {
        language.text(
            "status.no_battery"@,
            "No battery found. On Linux, battery control uses /sys/class/power_supply."@,
        )
    } else if all_have(batteries, ThresholdSupport::Unsupported) {
        threshold::unsupported_text(language)
    } else if all_have(batteries, ThresholdSupport::ReadOnly) {
        denied_text(language)
    } else {
        text::decimal(batteries.len()) + " "@ + language.text(
            "status.battery_detected"@,
            "battery detected"@,
        )
    }
}

/// The state after a scan that found `batteries`.
pub open spec fn rescanned(app: AppView, batteries: Seq<BatteryView>) -> AppView {
    AppView { batteries, message: scan_message(batteries, app.language), ..app }
}

/// Each battery updated from the readings of the same place.
pub open spec fn all_updated(
    batteries: Seq<BatteryView>,
    readings: Seq<ReadingsView>,
) -> Seq<BatteryView> {
    Seq::new(batteries.len(), |i: int| battery::updated(batteries[i], readings[i]))
}

/// The views of a list of readings.
pub open spec fn readings_views(v: Seq<Readings>) -> Seq<ReadingsView> {
    v.map_values(|r: Readings| r@)
}

/// Tells whether every battery has this support.
pub fn all_batteries_have(batteries: &Vec<Battery>, support: ThresholdSupport) -> (r: bool)
    ensures
        r == all_have(battery::battery_views(batteries@), support),
{
    let ghost views = battery::battery_views(batteries@);
    let mut i: usize = 0;
    while i < batteries.len()
        invariant
            i <= batteries.len(),
            views == battery::battery_views(batteries@),
            forall|j: int| 0 <= j < i ==> (#[trigger] views[j]).threshold_support == support,
        decreases batteries.len() - i,
    {
        if batteries[i].threshold_support != support {
            assert(views[i as int].threshold_support != support);
            return false;
        }
        i = i + 1;
    }
    true
}

/// Says what is said where no threshold may be written.
pub fn denied_message(language: &Language) -> (r: String)
    ensures
        r@ == denied_text(language@),
{
    language.text(
        "status.thresholds_permission_denied",
        "Battery found, but write permission is denied. Run with sudo or configure a udev rule.",
    ).to_owned()
}

/// `first`, then a separator, then `second`.
pub fn joined_text(first: &str, separator: &str, second: &str) -> (r: String)
    ensures
        r@ == first@ + separator@ + second@,
{
    let mut r = first.to_owned();
    r.append(separator);
    r.append(second);
    r
}

/// What an attempt to load the settings gave.
pub enum SettingsLoad {
    /// There is no settings file.
    Missing,
    /// The settings, and what reading each language file of their locale gave.
    Loaded(Settings, Vec<Option<String>>),
    /// Why the file could not be read or understood.
    Failed(String),
}

/// The state after settings were loaded: the limit is that of the settings, brought into the
/// range on offer, and the language is theirs.
pub open spec fn settings_loaded(
    app: AppView,
    saved: SettingsView,
    language: LanguageView,
) -> AppView {
    AppView {
        charge_limit: in_limit_range(saved.charge_limit),
        language,
        message: language.text("status.settings_loaded"@, "Settings loaded from"@) + " "@
            + SETTINGS_FILE@,
        ..app
    }
}

/// The state after an attempt to load the settings.
pub open spec fn after_settings_load(app: AppView, load: SettingsLoad) -> AppView {
    match load {
        SettingsLoad::Missing => AppView {
            message: app.language.text(
                "status.settings_missing"@,
                "No saved settings file exists yet."@,
            ),
            ..app
        },
        SettingsLoad::Loaded(saved, attempts) => settings_loaded(
            app,
            saved@,
            language::loaded_language(saved.language@, attempts@),
        ),
        SettingsLoad::Failed(error) => AppView {
            message: app.language.text(
                "status.settings_load_error"@,
                "Could not load settings"@,
            ) + ": "@ + error@,
            ..app
        },
    }
}

/// The state after the settings were saved, or after that failed for the reason given.
pub open spec fn after_save(app: AppView, error: Option<Seq<char>>) -> AppView {
    AppView {
        message: match error {
            None => app.language.text("status.settings_saved"@, "Settings saved to"@) + " "@
                + SETTINGS_FILE@,
            Some(error) => app.language.text(
                "status.settings_save_error"@,
                "Could not save settings"@,
            ) + ": "@ + error,
        },
        ..app
    }
}

/// The state after a switch to `locale`, whose strings are those of `language`.
pub open spec fn after_language_change(
    app: AppView,
    locale: Seq<char>,
    language: LanguageView,
) -> AppView {
    AppView {
        language,
        message: language.text("status.language_changed"@, "Language changed"@) + ": "@ + locale,
        ..app
    }
}

/// The settings that the state amounts to.
pub open spec fn settings_of(app: AppView) -> SettingsView {
    SettingsView { language: app.language.locale, charge_limit: app.charge_limit }
}

impl BatteryHealthKeeperApp {
    /// Builds the state at start-up. `attempts` holds what reading each language file of the
    /// start-up locale gave, `batteries` what the first scan found.
    pub fn new(
        env_locale: Option<&str>,
        saved: Option<&Settings>,
        attempts: &Vec<Option<String>>,
        batteries: Vec<Battery>,
    ) -> (r: BatteryHealthKeeperApp)
        ensures
            r@.charge_limit == settings::first_charge_limit(settings::maybe_settings(saved)),
            r@.language == language::loaded_language(
                settings::first_locale(
                    settings::maybe_str(env_locale),
                    settings::maybe_settings(saved),
                ),
                attempts@,
            ),
            r@.batteries == battery::battery_views(batteries@),
            r@.message == scan_message(r@.batteries, r@.language),
            r@.is_well_formed(),
            saved is None ==> r.charge_limit == 80,
            saved matches Some(s) ==> 50 <= s.charge_limit <= 100 ==> r.charge_limit
                == s.charge_limit,
            env_locale matches Some(locale) ==> r.language.locale@ == locale@,
            env_locale is None ==> (saved matches Some(s) ==> r.language.locale@ == s.language@),
            env_locale is None && saved is None ==> r.language.locale@ == "en"@,
    {
        let language = match (env_locale, saved) {
            (Some(locale), _) => Language::load_locale(locale, attempts),
            (None, Some(settings)) => Language::load_locale(settings.language.as_str(), attempts),
            (None, None) => Language::load(None, attempts),
        };
        let charge_limit: u8 = match saved {
            Some(settings) => limit_in_range(settings.charge_limit),
            None => settings::default_charge_limit(),
        };
        let message = language.text("status.ready", "Ready").to_owned();
        let mut app = BatteryHealthKeeperApp {
            charge_limit,
            language,
            message,
            batteries: Vec::new(),
        };
        app.refresh_batteries(batteries);
        app
    }

    /// Takes over the batteries that a scan found, and says what was found.
    pub fn refresh_batteries(&mut self, batteries: Vec<Battery>)
        ensures
            final(self)@ == rescanned(old(self)@, battery::battery_views(batteries@)),
            old(self)@.is_well_formed() ==> final(self)@.is_well_formed(),
    {
        self.batteries = batteries;
        self.message =
        if self.batteries.len() == 0 {
            self.language.text(
                "status.no_battery",
                "No battery found. On Linux, battery control uses /sys/class/power_supply.",
            ).to_owned()
        } else if all_batteries_have(&self.batteries, ThresholdSupport::Unsupported) {
            threshold::unsupported_message(&self.language)
        } else if all_batteries_have(&self.batteries, ThresholdSupport::ReadOnly) {
            denied_message(&self.language)
        } else {
            let count = text::decimal_text(self.batteries.len() as u64);
            joined_text(
                count.as_str(),
                " ",
                self.language.text("status.battery_detected", "battery detected"),
            )
        };
    }

    /// Refreshes the batteries already known; none is added or removed.
    pub fn poll_batteries(&mut self, readings: &Vec<Readings>)
        requires
            readings.len() == old(self).batteries.len(),
        ensures
            final(self)@ == (AppView {
                batteries: all_updated(old(self)@.batteries, readings_views(readings@)),
                ..old(self)@
            }),
            old(self)@.is_well_formed() ==> final(self)@.is_well_formed(),
    {
        let ghost before = self@;
        let ghost new = all_updated(before.batteries, readings_views(readings@));
        let n: usize = self.batteries.len();
        let mut i: usize = 0;
        while i < n
            invariant
                i <= n,
                n == readings.len(),
                n == self.batteries.len(),
                n == before.batteries.len(),
                new == all_updated(before.batteries, readings_views(readings@)),
                self.charge_limit == before.charge_limit,
                self.language@ == before.language,
                self.message@ == before.message,
                forall|j: int| 0 <= j < i ==> (#[trigger] self.batteries@[j])@ == new[j],
                forall|j: int|
                    i <= j < n ==> (#[trigger] self.batteries@[j])@ == before.batteries[j],
            decreases n - i,
        {
            battery::update_battery_readings(&mut self.batteries[i], &readings[i]);
            i = i + 1;
        }
        assert(battery::battery_views(self.batteries@) =~= new);
    }

    /// The settings to save.
    pub fn settings(&self) -> (r: Settings)
        ensures
            r@ == settings_of(self@),
            r.charge_limit == self.charge_limit,
            r.language@ == self.language.locale@,
    {
        Settings { language: self.language.locale.clone(), charge_limit: self.charge_limit }
    }

    /// Says how saving the settings went.
    pub fn save_settings(&mut self, result: Result<(), String>)
        ensures
            final(self)@ == after_save(
                old(self)@,
                match result {
                    Ok(_) => None,
                    Err(error) => Some(error@),
                },
            ),
            old(self)@.is_well_formed() ==> final(self)@.is_well_formed(),
    {
        self.message =
        match result {
            Ok(_) => joined_text(
                self.language.text("status.settings_saved", "Settings saved to"),
                " ",
                SETTINGS_FILE,
            ),
            Err(error) => joined_text(
                self.language.text("status.settings_save_error", "Could not save settings"),
                ": ",
                error.as_str(),
            ),
        };
    }

    /// Takes over loaded settings, or says why there are none. The limit is not applied.
    pub fn load_settings_into_app(&mut self, load: SettingsLoad)
        ensures
            final(self)@ == after_settings_load(old(self)@, load),
            load is Loaded || old(self)@.is_well_formed() ==> final(self)@.is_well_formed(),
            load matches SettingsLoad::Loaded(saved, _) ==> final(self).language.locale@
                == saved.language@,
            load matches SettingsLoad::Loaded(saved, _) ==> 50 <= saved.charge_limit <= 100
                ==> final(self).charge_limit == saved.charge_limit,
            !(load is Loaded) ==> final(self).charge_limit == old(self).charge_limit,
    {
        match load {
            SettingsLoad::Missing => {
                self.message =
                self.language.text(
                    "status.settings_missing",
                    "No saved settings file exists yet.",
                ).to_owned();
            },
            SettingsLoad::Loaded(saved, attempts) => {
                self.charge_limit = limit_in_range(saved.charge_limit);
                self.language = Language::load_locale(saved.language.as_str(), &attempts);
                self.message =
                joined_text(
                    self.language.text("status.settings_loaded", "Settings loaded from"),
                    " ",
                    SETTINGS_FILE,
                );
            },
            SettingsLoad::Failed(error) => {
                self.message =
                joined_text(
                    self.language.text("status.settings_load_error", "Could not load settings"),
                    ": ",
                    error.as_str(),
                );
            },
        }
    }

    /// Switches the language and says so.
    pub fn change_language(&mut self, locale: &str, attempts: &Vec<Option<String>>)
        ensures
            final(self)@ == after_language_change(
                old(self)@,
                locale@,
                language::loaded_language(locale@, attempts@),
            ),
            old(self)@.is_well_formed() ==> final(self)@.is_well_formed(),
    {
        self.language = Language::load_locale(locale, attempts);
        self.message =
        joined_text(
            self.language.text("status.language_changed", "Language changed"),
            ": ",
            locale,
        );
    }

    /// Chooses a limit, brought into the range from fifty to one hundred percent.
    pub fn choose_limit(&mut self, limit: u8)
        ensures
            final(self)@ == (AppView {
                charge_limit: in_limit_range(limit as nat),
                ..old(self)@
            }),
            final(self)@.is_well_formed(),
            50 <= limit <= 100 ==> final(self).charge_limit == limit,
            limit < 50 ==> final(self).charge_limit == 50,
            limit > 100 ==> final(self).charge_limit == 100,
    {
        self.charge_limit = limit_in_range(limit);
    }
}

/// Tells whether the batteries are due for another look, `elapsed_secs` whole seconds after
/// the last.
pub fn poll_is_due(elapsed_secs: u64) -> (r: bool)
    ensures
        r == (elapsed_secs >= POLL_INTERVAL_SECS),
{
    elapsed_secs >= POLL_INTERVAL_SECS
}

/// Loading the settings that were saved restores the limit and the locale, whatever happened
/// in between, and leaves the batteries alone.
pub proof fn saved_settings_are_restored(
    before: AppView,
    later: AppView,
    saved: Settings,
    attempts: Vec<Option<String>>,
)
    requires
        before.is_well_formed(),
        saved@ == settings_of(before),
    ensures
        settings_of(after_settings_load(later, SettingsLoad::Loaded(saved, attempts)))
            == settings_of(before),
        after_settings_load(later, SettingsLoad::Loaded(saved, attempts)).charge_limit
            == before.charge_limit,
        after_settings_load(later, SettingsLoad::Loaded(saved, attempts)).language.locale
            == before.language.locale,
        after_settings_load(later, SettingsLoad::Loaded(saved, attempts)).batteries
            == later.batteries,
{
}

/// Settings with any limit leave a limit from fifty to one hundred percent, at start-up and when
/// they are loaded later; a limit in that range is taken as it is.
pub proof fn saved_limit_is_brought_into_range(
    app: AppView,
    saved: SettingsView,
    language: LanguageView,
)
    ensures
        50 <= settings::first_charge_limit(Some(saved)) <= 100,
        50 <= settings::first_charge_limit(None) <= 100,
        settings_loaded(app, saved, language).is_well_formed(),
        50 <= saved.charge_limit <= 100 ==> settings::first_charge_limit(Some(saved))
            == saved.charge_limit && settings_loaded(app, saved, language).charge_limit
            == saved.charge_limit,
{
}

/// A load that fails, or finds no file, changes nothing but the status line.
pub proof fn failed_load_changes_only_the_message(app: AppView, load: SettingsLoad)
    requires
        !(load is Loaded),
    ensures
        after_settings_load(app, load) == (AppView {
            message: after_settings_load(app, load).message,
            ..app
        }),
{
}

/// Every limit that can be chosen lies between fifty and one hundred percent. A limit in that
/// range is taken as it is, a lesser one becomes fifty and a greater one a hundred.
pub proof fn chosen_limit_is_in_range(limit: nat)
    ensures
        50 <= in_limit_range(limit) <= 100,
        50 <= limit <= 100 ==> in_limit_range(limit) == limit,
        limit < 50 ==> in_limit_range(limit) == 50,
        limit > 100 ==> in_limit_range(limit) == 100,
{
}

/// A poll neither adds nor removes a battery, nor changes which is which.
pub proof fn poll_keeps_devices(batteries: Seq<BatteryView>, readings: Seq<ReadingsView>, i: int)
    requires
        0 <= i < batteries.len(),
    ensures
        all_updated(batteries, readings).len() == batteries.len(),
        all_updated(batteries, readings)[i].name == batteries[i].name,
        all_updated(batteries, readings)[i].root == batteries[i].root,
        battery::is_consistent(all_updated(batteries, readings)[i]),
{
    battery::update_is_consistent(batteries[i], readings[i]);
    battery::update_keeps_identity(batteries[i], readings[i]);
}

/// The settings to save hold the limit that was chosen and the locale in use, as they are.
pub proof fn settings_hold_the_choice(app: AppView)
    ensures
        settings_of(app).charge_limit == app.charge_limit,
        settings_of(app).language == app.language.locale,
{
}

/// Settings that were saved at start-up bring back the limit and the locale, unless the
/// environment asks for another locale.
pub proof fn saved_settings_come_back_at_the_start(before: AppView)
    requires
        before.is_well_formed(),
    ensures
        settings::first_charge_limit(Some(settings_of(before))) == before.charge_limit,
        settings::first_locale(None, Some(settings_of(before))) == before.language.locale,
{
}

/// Loaded settings bring their locale, with the strings of the first of its language files that
/// could be read, and the status line says so in that language.
pub proof fn loaded_settings_bring_their_language(
    app: AppView,
    saved: Settings,
    attempts: Vec<Option<String>>,
    word: Seq<char>,
)
    requires
        language::is_wording(
            word,
            language::loaded_language(saved.language@, attempts@),
            "status.settings_loaded"@,
            "Settings loaded from"@,
        ),
    ensures
        ({
            let after = after_settings_load(app, SettingsLoad::Loaded(saved, attempts));
            &&& after.language == language::loaded_language(saved.language@, attempts@)
            &&& after.language.locale == saved.language@
            &&& after.message == word + " battery-health-keeper.json"@
            &&& after.batteries == app.batteries
        }),
{
    reveal_strlit(" ");
    reveal_strlit("battery-health-keeper.json");
    reveal_strlit(" battery-health-keeper.json");
    assert(word + " "@ + SETTINGS_FILE@ =~= word + " battery-health-keeper.json"@);
}

/// A load without a file says so, and one that fails gives the reason; both change nothing else.
pub proof fn failed_load_gives_the_reason(app: AppView, error: String, word: Seq<char>)
    requires
        language::is_wording(
            word,
            app.language,
            "status.settings_load_error"@,
            "Could not load settings"@,
        ),
    ensures
        language::is_wording(
            after_settings_load(app, SettingsLoad::Missing).message,
            app.language,
            "status.settings_missing"@,
            "No saved settings file exists yet."@,
        ),
        after_settings_load(app, SettingsLoad::Failed(error)) == (AppView {
            message: word + ": "@ + error@,
            ..app
        }),
{
}

/// Saving changes nothing but the status line, which names the file or the reason of a failure.
pub proof fn save_is_reported(
    app: AppView,
    error: Seq<char>,
    saved_word: Seq<char>,
    failed_word: Seq<char>,
)
    requires
        language::is_wording(
            saved_word,
            app.language,
            "status.settings_saved"@,
            "Settings saved to"@,
        ),
        language::is_wording(
            failed_word,
            app.language,
            "status.settings_save_error"@,
            "Could not save settings"@,
        ),
    ensures
        after_save(app, None) == (AppView {
            message: saved_word + " battery-health-keeper.json"@,
            ..app
        }),
        after_save(app, Some(error)) == (AppView { message: failed_word + ": "@ + error, ..app }),
{
    reveal_strlit(" ");
    reveal_strlit("battery-health-keeper.json");
    reveal_strlit(" battery-health-keeper.json");
    assert(saved_word + " "@ + SETTINGS_FILE@ =~= saved_word + " battery-health-keeper.json"@);
}

/// A switch of the language brings the new strings, names the locale in the new language, and
/// leaves limit and batteries alone.
pub proof fn language_change_is_reported(
    app: AppView,
    locale: Seq<char>,
    language: LanguageView,
    word: Seq<char>,
)
    requires
        language::is_wording(
            word,
            language,
            "status.language_changed"@,
            "Language changed"@,
        ),
    ensures
        after_language_change(app, locale, language).language == language,
        after_language_change(app, locale, language).message == word + ": "@ + locale,
        after_language_change(app, locale, language).charge_limit == app.charge_limit,
        after_language_change(app, locale, language).batteries == app.batteries,
{
}

/// A scan takes over exactly the batteries that were found and leaves limit and language alone.
/// The status line says that there is none, that none has a threshold, that every one of them
/// refuses to be written, or else how many there are.
pub proof fn scan_is_reported(app: AppView, batteries: Seq<BatteryView>, word: Seq<char>)
    requires
        language::is_wording(
            word,
            app.language,
            "status.battery_detected"@,
            "battery detected"@,
        ),
    ensures
        ({
            let after = rescanned(app, batteries);
            let no_threshold = forall|i: int|
                0 <= i < batteries.len() ==> (#[trigger] batteries[i]).threshold_support
                    == ThresholdSupport::Unsupported;
            let all_refuse = forall|i: int|
                0 <= i < batteries.len() ==> (#[trigger] batteries[i]).threshold_support
                    == ThresholdSupport::ReadOnly;
            &&& after.batteries == batteries
            &&& after.charge_limit == app.charge_limit
            &&& after.language == app.language
            &&& batteries.len() == 0 ==> language::is_wording(
                after.message,
                app.language,
                "status.no_battery"@,
                "No battery found. On Linux, battery control uses /sys/class/power_supply."@,
            )
            &&& batteries.len() > 0 && no_threshold ==> language::is_wording(
                after.message,
                app.language,
                "status.thresholds_unsupported"@,
                "Battery found, but charge thresholds are not supported by this hardware or kernel driver."@,
            )
            &&& batteries.len() > 0 && all_refuse ==> language::is_wording(
                after.message,
                app.language,
                "status.thresholds_permission_denied"@,
                "Battery found, but write permission is denied. Run with sudo or configure a udev rule."@,
            )
            &&& batteries.len() > 0 && !no_threshold && !all_refuse ==> after.message
                == text::decimal(batteries.len()) + " "@ + word
        }),
{
    assert(batteries.len() > 0 ==> batteries[0].threshold_support
        != ThresholdSupport::Unsupported || batteries[0].threshold_support
        != ThresholdSupport::ReadOnly);
}

/// A poll brings every battery the readings of its own directory, and no other.
pub proof fn poll_updates_each_battery_from_its_own_readings(
    batteries: Seq<BatteryView>,
    readings: Seq<ReadingsView>,
    i: int,
    n: nat,
    t: Seq<char>,
)
    requires
        0 <= i < batteries.len(),
        readings.len() == batteries.len(),
    ensures
        all_updated(batteries, readings)[i] == battery::updated(batteries[i], readings[i]),
        battery::shows_number(readings[i].capacity, n, 255) ==> all_updated(
            batteries,
            readings,
        )[i].capacity == Some(n),
        battery::shows_text(readings[i].status, t) ==> all_updated(batteries, readings)[i].status
            == t,
{
    battery::update_shows_the_present_charge_and_status(batteries[i], readings[i], n, t);
}

} // verus!
