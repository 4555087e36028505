//! The hardware panel: what the window says of each battery.
use vstd::prelude::*;
use vstd::string::*;

use crate::battery;
use crate::battery::Battery;
use crate::battery::BatteryView;
use crate::battery::ThresholdSupport;
use crate::capacity;
use crate::language;
use crate::language::Language;
use crate::language::LanguageView;
use crate::locales;
use crate::text;

verus! {

/// The wear of this battery can be computed without overflow.
pub open spec fn has_computable_health(b: BatteryView) -> bool {
    match (b.full_capacity, b.design_capacity) {
        (Some(full), Some(design)) => full * 100 <= u64::MAX || design == 0,
        _ => true,
    }
}

/// The capacity line: `57.1 Wh / 90.1 Wh design (63%)`, or as much of it as is known.
pub open spec fn capacity_info(b: BatteryView, language: LanguageView) -> Seq<char> {
    let unit = b.capacity_unit;
    let design_word = language.text("ui.design_capacity"@, "design"@);
    match (b.full_capacity, b.design_capacity) {
        (Some(full), Some(design)) => {
            let both = capacity::micro_capacity_text(full, unit) + " / "@
                + capacity::micro_capacity_text(design, unit) + " "@ + design_word;
            match capacity::health_percent(full, design) {
                Some(health) => both + " ("@ + text::decimal(health as nat) + "%)"@,
                None => both,
            }
        },
        (Some(full), None) => capacity::micro_capacity_text(full, unit),
        (None, Some(design)) => capacity::micro_capacity_text(design, unit) + " "@ + design_word,
        (None, None) => language.text("ui.unavailable"@, "N/A"@),
    }
}

/// What is said of a battery's charge threshold.
pub open spec fn support_text(support: ThresholdSupport, language: LanguageView) -> Seq<char> {
    match support {
        ThresholdSupport::Writable => language.text(
            "ui.thresholds_writable"@,
            "thresholds writable"@,
        ),
        ThresholdSupport::ReadOnly => language.text(
            "ui.permission_required"@,
            "permission required"@,
        ),
        ThresholdSupport::Unsupported => language.text(
            "ui.thresholds_unsupported"@,
            "not supported"@,
        ),
    }
}

/// The threshold in force, where it is known.
pub open spec fn limit_info(threshold: Option<nat>, language: LanguageView) -> Seq<char> {
    match threshold {
        Some(t) => ", "@ + language.text("ui.current_limit"@, "Active limit"@) + ": "@
            + text::decimal(t) + "%"@,
        None => Seq::empty(),
    }
}

/// The summary of one battery: name, charge, status, threshold in force and support.
pub open spec fn summary_text(b: BatteryView, language: LanguageView) -> Seq<char> {
    let charge = match b.capacity {
        Some(n) => n,
        None => 0,
    };
    b.name + ": "@ + text::decimal(charge) + "% ("@ + language::status_text(b.status, language)
        + limit_info(b.current_threshold, language) + ", "@ + support_text(
        b.threshold_support,
        language,
    ) + ")"@
}

/// A text, with a question mark for one that is missing.
pub open spec fn or_question_mark(s: Option<Seq<char>>) -> Seq<char> {
    match s {
        Some(s) => s,
        None => "?"@,
    }
}

/// What goes before each detail of a battery: its name, where there are several.
pub open spec fn name_prefix(b: BatteryView, several: bool) -> Seq<char> {
    if several {
        b.name + " — "@
    } else {
        Seq::empty()
    }
}

/// The three details of one battery: type, charge cycles so far, capacity.
pub open spec fn detail_texts(b: BatteryView, several: bool, language: LanguageView) -> Seq<
    Seq<char>,
> {
    let prefix = name_prefix(b, several);
    let cycles = match b.cycle_count {
        Some(n) => text::decimal(n),
        None => language.text("ui.unavailable"@, "N/A"@),
    };
    seq![
        prefix + language.text("ui.battery_type"@, "Battery type"@) + ": "@ + or_question_mark(
            b.technology,
        ) + " ("@ + or_question_mark(b.manufacturer) + ", "@ + or_question_mark(b.model_name)
            + ")"@,
        prefix + language.text("ui.charging_cycles"@, "Charge cycles (total)"@) + ": "@ + cycles,
        prefix + language.text("ui.full_capacity"@, "Full capacity"@) + ": "@ + capacity_info(
            b,
            language,
        ),
    ]
}

/// The heading of the panel: a summary for each battery, or one line that there is none.
pub open spec fn heading_texts(batteries: Seq<BatteryView>, language: LanguageView) -> Seq<
    Seq<char>,
> {
    if batteries.len() == 0 {
        seq![language.text("ui.no_battery"@, "No battery detected"@)]
    } else {
        Seq::new(batteries.len(), |i: int| summary_text(batteries[i], language))
    }
}

/// The details of the first `n` batteries, one battery after the other.
pub open spec fn all_details(batteries: Seq<BatteryView>, n: int, language: LanguageView) -> Seq<
    Seq<char>,
>
    decreases n,
{
    if n <= 0 {
        Seq::empty()
    } else {
        all_details(batteries, n - 1, language) + detail_texts(
            batteries[n - 1],
            batteries.len() > 1,
            language,
        )
    }
}

/// Tells whether the wear of a battery can be computed without overflow.
pub fn health_is_computable(battery: &Battery) -> (r: bool)
    ensures
        r == has_computable_health(battery@),
{
    match (battery.full_capacity, battery.design_capacity) {
        (Some(full), Some(design)) => full <= u64::MAX / 100 || design == 0,
        _ => true,
    }
}

/// Writes the capacity line of a battery.
pub fn format_capacity_info(battery: &Battery, language: &Language) -> (r: String)
    requires
        has_computable_health(battery@),
    ensures
        r@ == capacity_info(battery@, language@),
{
    let unit = battery.capacity_unit;
    match (battery.full_capacity, battery.design_capacity) {
        (Some(full), Some(design)) => {
            let mut r = capacity::format_micro_capacity(full, unit);
            r.append(" / ");
            r.append(capacity::format_micro_capacity(design, unit).as_str());
            r.append(" ");
            r.append(language.text("ui.design_capacity", "design"));
            match capacity::battery_health_percent(full, design) {
                Some(health) => {
                    r.append(" (");
                    r.append(text::decimal_text(health as u64).as_str());
                    r.append("%)");
                },
                None => {},
            }
            r
        },
        (Some(full), None) => capacity::format_micro_capacity(full, unit),
        (None, Some(design)) => {
            let mut r = capacity::format_micro_capacity(design, unit);
            r.append(" ");
            r.append(language.text("ui.design_capacity", "design"));
            r
        },
        (None, None) => language.text("ui.unavailable", "N/A").to_owned(),
    }
}

/// Says what a battery's charge threshold allows.
fn support_word<'a>(support: ThresholdSupport, language: &'a Language) -> (r: &'a str)
    ensures
        r@ == support_text(support, language@),
{
    match support {
        ThresholdSupport::Writable => language.text(
            "ui.thresholds_writable",
            "thresholds writable",
        ),
        ThresholdSupport::ReadOnly => language.text(
            "ui.permission_required",
            "permission required",
        ),
        ThresholdSupport::Unsupported => language.text(
            "ui.thresholds_unsupported",
            "not supported",
        ),
    }
}

/// Writes the summary of one battery.
pub fn battery_summary(battery: &Battery, language: &Language) -> (r: String)
    ensures
        r@ == summary_text(battery@, language@),
{
    let charge: u8 = match battery.capacity {
        Some(n) => n,
        None => 0,
    };
    let mut limit = String::new();
    match battery.current_threshold {
        Some(t) => {
            assert(limit@ + ", "@ =~= ", "@);
            limit.append(", ");
            limit.append(language.text("ui.current_limit", "Active limit"));
            limit.append(": ");
            limit.append(text::decimal_text(t as u64).as_str());
            limit.append("%");
        },
        None => {},
    }
    let mut r = battery.name.clone();
    r.append(": ");
    r.append(text::decimal_text(charge as u64).as_str());
    r.append("% (");
    r.append(language::translate_battery_status(battery.status.as_str(), language));
    r.append(limit.as_str());
    r.append(", ");
    r.append(support_word(battery.threshold_support, language));
    r.append(")");
    r
}

fn text_or_question_mark(s: &Option<String>) -> (r: &str)
    ensures
        r@ == or_question_mark(battery::maybe_text(*s)),
{
    match s {
        Some(s) => s.as_str(),
        None => "?",
    }
}

/// Writes the details of one battery; `several` says that other batteries are shown too.
pub fn battery_details(battery: &Battery, several: bool, language: &Language) -> (r: Vec<String>)
    requires
        has_computable_health(battery@),
    ensures
        locales::texts(r@) == detail_texts(battery@, several, language@),
{
    let mut prefix = String::new();
    if several {
        assert(prefix@ + battery.name@ =~= battery.name@);
        prefix.append(battery.name.as_str());
        prefix.append(" — ");
    }
    let mut kind = prefix.clone();
    kind.append(language.text("ui.battery_type", "Battery type"));
    kind.append(": ");
    kind.append(text_or_question_mark(&battery.technology));
    kind.append(" (");
    kind.append(text_or_question_mark(&battery.manufacturer));
    kind.append(", ");
    kind.append(text_or_question_mark(&battery.model_name));
    kind.append(")");
    let mut cycles = prefix.clone();
    cycles.append(language.text("ui.charging_cycles", "Charge cycles (total)"));
    cycles.append(": ");
    match battery.cycle_count {
        Some(n) => {
            cycles.append(text::decimal_text(n as u64).as_str());
        },
        None => {
            cycles.append(language.text("ui.unavailable", "N/A"));
        },
    }
    let mut full = prefix;
    full.append(language.text("ui.full_capacity", "Full capacity"));
    full.append(": ");
    full.append(format_capacity_info(battery, language).as_str());
    let mut r: Vec<String> = Vec::new();
    r.push(kind);
    r.push(cycles);
    r.push(full);
    assert(locales::texts(r@) =~= detail_texts(battery@, several, language@));
    r
}

/// Writes the heading of the panel.
pub fn panel_heading(batteries: &Vec<Battery>, language: &Language) -> (r: Vec<String>)
    ensures
        locales::texts(r@) == heading_texts(battery::battery_views(batteries@), language@),
{
    let ghost views = battery::battery_views(batteries@);
    let mut r: Vec<String> = Vec::new();
    if batteries.len() == 0 {
        r.push(language.text("ui.no_battery", "No battery detected").to_owned());
        assert(locales::texts(r@) =~= heading_texts(views, language@));
        return r;
    }
    let mut i: usize = 0;
    while i < batteries.len()
        invariant
            i <= batteries.len(),
            views == battery::battery_views(batteries@),
            r.len() == i,
            forall|j: int| 0 <= j < i ==> (#[trigger] r@[j])@ == summary_text(views[j], language@),
        decreases batteries.len() - i,
    {
        assert(views[i as int] == batteries@[i as int]@);
        r.push(battery_summary(&batteries[i], language));
        i = i + 1;
    }
    assert(locales::texts(r@) =~= heading_texts(views, language@));
    r
}

/// Writes the details of every battery, one battery after the other.
pub fn panel_details(batteries: &Vec<Battery>, language: &Language) -> (r: Vec<String>)
    requires
        forall|i: int|
            0 <= i < batteries.len() ==> has_computable_health((#[trigger] batteries@[i])@),
    ensures
        locales::texts(r@) == all_details(
            battery::battery_views(batteries@),
            batteries.len() as int,
            language@,
        ),
{
    let ghost views = battery::battery_views(batteries@);
    let mut r: Vec<String> = Vec::new();
    let mut i: usize = 0;
    assert(locales::texts(r@) =~= Seq::<Seq<char>>::empty());
    while i < batteries.len()
        invariant
            i <= batteries.len(),
            views == battery::battery_views(batteries@),
            locales::texts(r@) == all_details(views, i as int, language@),
            forall|i: int|
                0 <= i < batteries.len() ==> has_computable_health((#[trigger] batteries@[i])@),
        decreases batteries.len() - i,
    {
        let ghost before = r@;
        assert(views[i as int] == batteries@[i as int]@);
        let mut details = battery_details(&batteries[i], batteries.len() > 1, language);
        let ghost added = details@;
        r.append(&mut details);
        assert(locales::texts(r@) =~= locales::texts(before) + locales::texts(added));
        i = i + 1;
    }
    r
}

/// Every battery has exactly three details.
pub proof fn every_battery_has_three_details(
    batteries: Seq<BatteryView>,
    n: int,
    language: LanguageView,
)
    requires
        0 <= n,
    ensures
        all_details(batteries, n, language).len() == 3 * n,
    decreases n,
{
    if n > 0 {
        every_battery_has_three_details(batteries, n - 1, language);
    }
}

/// `percent` is the wear that is shown for these capacities: the whole percentage that is left, of
/// a battery that holds less than it was designed for, and one hundred for any other.
pub open spec fn is_wear(percent: nat, full: nat, design: nat) -> bool {
    &&& design > 0
    &&& full < design ==> percent * design <= 100 * full < (percent + 1) * design
    &&& full >= design ==> percent == 100
}

/// Every figure on the capacity line is that of its own capacity and carries the battery's own
/// unit. The full capacity comes first, the design capacity is marked by its word, and the wear
/// follows where it is known.
pub proof fn capacity_line_carries_the_units(
    b: BatteryView,
    language: LanguageView,
    word: Seq<char>,
    percent: nat,
)
    requires
        language::is_wording(word, language, "ui.design_capacity"@, "design"@),
    ensures
        ({
            let line = capacity_info(b, language);
            &&& b.full_capacity matches Some(full) ==> capacity::micro_capacity_text(
                full,
                b.capacity_unit,
            ).is_prefix_of(line)
            &&& b.full_capacity matches Some(full) ==> b.design_capacity is None ==> line
                == capacity::micro_capacity_text(full, b.capacity_unit)
            &&& b.full_capacity is None ==> (b.design_capacity matches Some(design) ==> line
                == capacity::micro_capacity_text(design, b.capacity_unit) + " "@ + word)
            &&& b.full_capacity is None && b.design_capacity is None ==> language::is_wording(
                line,
                language,
                "ui.unavailable"@,
                "N/A"@,
            )
            &&& b.full_capacity matches Some(full) ==> (b.design_capacity matches Some(design) ==> {
                let both = capacity::micro_capacity_text(full, b.capacity_unit) + " / "@
                    + capacity::micro_capacity_text(design, b.capacity_unit) + " "@ + word;
                &&& design == 0 ==> line == both
                &&& is_wear(percent, full, design) ==> line == both + " ("@ + text::decimal(percent)
                    + "%)"@
            })
        }),
{
    match (b.full_capacity, b.design_capacity) {
        (Some(full), Some(design)) => {
            let line = capacity_info(b, language);
            let first = capacity::micro_capacity_text(full, b.capacity_unit);
            assert(line.take(first.len() as int) =~= first);
            capacity::health_is_the_whole_percentage(full, design);
            if is_wear(percent, full, design) && full < design {
                let h = capacity::health_percent(full, design)->0 as nat;
                assert(h == percent) by (nonlinear_arith)
                    requires
                        h * design <= 100 * full < (h + 1) * design,
                        percent * design <= 100 * full < (percent + 1) * design,
                        design > 0,
                ;
            }
        },
        (Some(full), None) => {
            let line = capacity_info(b, language);
            assert(line.take(line.len() as int) =~= line);
        },
        _ => {},
    }
}

/// The wear cannot be computed only where both capacities are known, the design capacity is not
/// zero and a hundred times the full capacity does not fit in 64 bits.
pub proof fn only_overflow_stops_the_wear(b: BatteryView)
    ensures
        !has_computable_health(b) <==> b.full_capacity is Some && b.full_capacity->0 * 100
            > 0xffff_ffff_ffff_ffff && b.design_capacity is Some && b.design_capacity->0 > 0,
{
}

/// Each kind of support has words of its own.
pub proof fn support_is_worded(language: LanguageView)
    ensures
        language::is_wording(
            support_text(ThresholdSupport::Writable, language),
            language,
            "ui.thresholds_writable"@,
            "thresholds writable"@,
        ),
        language::is_wording(
            support_text(ThresholdSupport::ReadOnly, language),
            language,
            "ui.permission_required"@,
            "permission required"@,
        ),
        language::is_wording(
            support_text(ThresholdSupport::Unsupported, language),
            language,
            "ui.thresholds_unsupported"@,
            "not supported"@,
        ),
{
}

/// The summary of a battery shows its own name, its charge (zero where that is not known), its
/// status in the user's language, the threshold in force where there is one, and the support.
pub proof fn summary_shows_the_battery(
    b: BatteryView,
    language: LanguageView,
    charge: nat,
    limit_word: Seq<char>,
    limit: Seq<char>,
)
    requires
        b.capacity is Some ==> b.capacity == Some(charge),
        b.capacity is None ==> charge == 0,
        language::is_wording(limit_word, language, "ui.current_limit"@, "Active limit"@),
        b.current_threshold is None ==> limit.len() == 0,
        b.current_threshold matches Some(t) ==> limit == ", "@ + limit_word + ": "@ + text::decimal(
            t,
        ) + "%"@,
    ensures
        summary_text(b, language) == b.name + ": "@ + text::decimal(charge) + "% ("@
            + language::status_text(b.status, language) + limit + ", "@ + support_text(
            b.threshold_support,
            language,
        ) + ")"@,
{
    assert(limit =~= limit_info(b.current_threshold, language));
}

/// `shown` is the text itself, or a question mark for one that is missing.
pub open spec fn is_shown_as(s: Option<Seq<char>>, shown: Seq<char>) -> bool {
    &&& s is Some ==> s == Some(shown)
    &&& s is None ==> shown == "?"@
}

/// The details of a battery are its type, its cycles and its capacity, each under its heading;
/// where several batteries are shown, each line starts with the name of its battery.
pub proof fn details_show_the_battery(
    b: BatteryView,
    language: LanguageView,
    headings: (Seq<char>, Seq<char>, Seq<char>),
    kind: (Seq<char>, Seq<char>, Seq<char>),
)
    requires
        language::is_wording(headings.0, language, "ui.battery_type"@, "Battery type"@),
        language::is_wording(headings.1, language, "ui.charging_cycles"@, "Charge cycles (total)"@),
        language::is_wording(headings.2, language, "ui.full_capacity"@, "Full capacity"@),
        is_shown_as(b.technology, kind.0),
        is_shown_as(b.manufacturer, kind.1),
        is_shown_as(b.model_name, kind.2),
    ensures
        detail_texts(b, false, language).len() == 3,
        detail_texts(b, true, language).len() == 3,
        forall|j: int|
            0 <= j < 3 ==> #[trigger] detail_texts(b, true, language)[j] == b.name + " — "@
                + detail_texts(b, false, language)[j],
        ({
            let lines = detail_texts(b, false, language);
            &&& lines[0] == headings.0 + ": "@ + kind.0 + " ("@ + kind.1 + ", "@ + kind.2 + ")"@
            &&& b.cycle_count matches Some(n) ==> lines[1] == headings.1 + ": "@ + text::decimal(n)
            &&& b.cycle_count is None ==> exists|na: Seq<char>|
                language::is_wording(na, language, "ui.unavailable"@, "N/A"@) && lines[1]
                    == #[trigger] (headings.1 + ": "@ + na)
            &&& lines[2] == headings.2 + ": "@ + capacity_info(b, language)
        }),
{
    let lines = detail_texts(b, false, language);
    let several = detail_texts(b, true, language);
    let nothing = Seq::<char>::empty();
    assert(nothing + headings.0 =~= headings.0);
    assert(nothing + headings.1 =~= headings.1);
    assert(nothing + headings.2 =~= headings.2);
    let na = language.text("ui.unavailable"@, "N/A"@);
    assert(b.cycle_count is None ==> lines[1] == headings.1 + ": "@ + na);
    assert(several[0] =~= b.name + " — "@ + lines[0]);
    assert(several[1] =~= b.name + " — "@ + lines[1]);
    assert(several[2] =~= b.name + " — "@ + lines[2]);
}

/// The heading has a summary for every battery, in order, and says that there is none only where
/// there is none.
pub proof fn heading_has_every_battery(batteries: Seq<BatteryView>, language: LanguageView, i: int)
    ensures
        batteries.len() > 0 ==> heading_texts(batteries, language).len() == batteries.len(),
        0 <= i < batteries.len() ==> heading_texts(batteries, language)[i] == summary_text(
            batteries[i],
            language,
        ),
        batteries.len() == 0 ==> heading_texts(batteries, language).len() == 1
            && language::is_wording(
            heading_texts(batteries, language)[0],
            language,
            "ui.no_battery"@,
            "No battery detected"@,
        ),
{
}

/// The details of every battery are shown, in order, three lines for each, with the names of the
/// batteries exactly where there are several.
pub proof fn panel_has_the_details_of_every_battery(
    batteries: Seq<BatteryView>,
    n: int,
    language: LanguageView,
    i: int,
    j: int,
)
    requires
        0 <= i < n <= batteries.len(),
        0 <= j < 3,
    ensures
        all_details(batteries, n, language).len() == 3 * n,
        batteries.len() == 1 ==> all_details(batteries, n, language)[3 * i + j] == detail_texts(
            batteries[i],
            false,
            language,
        )[j],
        batteries.len() > 1 ==> all_details(batteries, n, language)[3 * i + j] == detail_texts(
            batteries[i],
            true,
            language,
        )[j],
    decreases n,
{
    every_battery_has_three_details(batteries, n, language);
    every_battery_has_three_details(batteries, n - 1, language);
    if i < n - 1 {
        panel_has_the_details_of_every_battery(batteries, n - 1, language, i, j);
    }
}

} // verus!
