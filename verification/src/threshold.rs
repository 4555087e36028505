//! Setting a battery's charge limit: which threshold files to write, and what to say when a
//! write fails.
use vstd::prelude::*;
use vstd::string::*;

use crate::battery;
use crate::battery::Battery;
use crate::battery::BatteryView;
use crate::language;
use crate::language::Language;
use crate::language::LanguageView;
use crate::path::FilePath;
use crate::text;

verus! {

/// What was found at a battery's threshold paths just before a limit is set.
pub struct ThresholdProbe {
    /// The end-threshold file exists.
    pub end_exists: bool,
    /// The start-threshold file exists.
    pub start_exists: bool,
    /// Contents of the start-threshold file, `None` where it could not be read.
    pub start: Option<String>,
}

/// What a `ThresholdProbe` stands for.
pub struct ProbeView {
    pub end_exists: bool,
    pub start_exists: bool,
    pub start: Option<Seq<char>>,
}

impl View for ThresholdProbe {
    type V = ProbeView;

    open spec fn view(&self) -> ProbeView {
        ProbeView {
            end_exists: self.end_exists,
            start_exists: self.start_exists,
            start: battery::maybe_text(self.start),
        }
    }
}

/// One file to write, with its whole contents.
pub struct ThresholdWrite {
    pub path: FilePath,
    pub contents: String,
}

/// What a `ThresholdWrite` stands for.
pub struct WriteView {
    pub path: Seq<u8>,
    pub contents: Seq<char>,
}

impl View for ThresholdWrite {
    type V = WriteView;

    open spec fn view(&self) -> WriteView {
        WriteView { path: self.path@, contents: self.contents@ }
    }
}

/// The writes that set a charge limit, in order: the start threshold where it is in the way,
/// then the end threshold. A failure of the first is of no account.
pub struct LimitWrites {
    pub start: Option<ThresholdWrite>,
    pub end: ThresholdWrite,
}

/// What `LimitWrites` stand for.
pub struct LimitWritesView {
    pub start: Option<WriteView>,
    pub end: WriteView,
}

impl View for LimitWrites {
    type V = LimitWritesView;

    open spec fn view(&self) -> LimitWritesView {
        LimitWritesView {
            start: match self.start {
                Some(w) => Some(w@),
                None => None,
            },
            end: self.end@,
        }
    }
}

/// Why a write failed.
pub struct WriteFailure {
    pub permission_denied: bool,
    /// The system's own words.
    pub message: String,
}

/// What a `WriteFailure` stands for.
pub struct FailureView {
    pub permission_denied: bool,
    pub message: Seq<char>,
}

impl View for WriteFailure {
    type V = FailureView;

    open spec fn view(&self) -> FailureView {
        FailureView { permission_denied: self.permission_denied, message: self.message@ }
    }
}

/// What is said of a battery without charge thresholds.
pub open spec fn unsupported_text(language: LanguageView) -> Seq<char> {
    language.text(
        "status.thresholds_unsupported"@,
        "Battery found, but charge thresholds are not supported by this hardware or kernel driver."@,
    )
}

/// What is said of a threshold write that failed: a refused permission is explained, any other
/// failure is given in the system's words.
pub open spec fn failure_text(error: FailureView, language: LanguageView) -> Seq<char> {
    if error.permission_denied {
        language.text(
            "status.permission_denied"@,
            "Permission denied. Grant access to the battery threshold files or run the app with the required permissions."@,
        )
    } else {
        error.message
    }
}

/// The write of one threshold: the percentage in decimal.
pub open spec fn threshold_write(path: Seq<u8>, value: nat) -> WriteView {
    WriteView { path, contents: text::decimal(value) }
}

/// The start threshold to write before an end threshold of `limit`: five below the limit,
/// where the start threshold in force is not below the limit already.
pub open spec fn start_write(b: BatteryView, limit: nat, probe: ProbeView) -> Option<WriteView> {
    match (b.start_threshold_path, battery::number_reading(probe.start, u8::MAX as nat)) {
        (Some(path), Some(start)) => if probe.start_exists && start >= limit {
            Some(
                threshold_write(
                    path,
                    if limit >= 5 {
                        (limit - 5) as nat
                    } else {
                        0
                    },
                ),
            )
        } else {
            None
        },
        _ => None,
    }
}

/// The writes that set `limit` on a battery, or what to say where it has no end threshold.
pub open spec fn limit_writes(
    b: BatteryView,
    limit: nat,
    probe: ProbeView,
    language: LanguageView,
) -> Result<LimitWritesView, Seq<char>> {
    match b.end_threshold_path {
        Some(path) => if probe.end_exists {
            Ok(
                LimitWritesView {
                    start: start_write(b, limit, probe),
                    end: threshold_write(path, limit),
                },
            )
        } else {
            Err(unsupported_text(language))
        },
        None => Err(unsupported_text(language)),
    }
}

/// Words the failure of a threshold write.
pub fn format_threshold_error(error: &WriteFailure, language: &Language) -> (r: String)
    ensures
        r@ == failure_text(error@, language@),
{
    if error.permission_denied {
        language.text(
            "status.permission_denied",
            "Permission denied. Grant access to the battery threshold files or run the app with the required permissions.",
        ).to_owned()
    } else {
        error.message.clone()
    }
}

/// Prepares the write of one threshold percentage.
pub fn write_single_threshold(path: &FilePath, value: u8) -> (r: ThresholdWrite)
    ensures
        r@ == threshold_write(path@, value as nat),
{
    ThresholdWrite { path: path.clone(), contents: text::decimal_text(value as u64) }
}

/// Says what is said of a battery without charge thresholds.
pub fn unsupported_message(language: &Language) -> (r: String)
    ensures
        r@ == unsupported_text(language@),
{
    language.text(
        "status.thresholds_unsupported",
        "Battery found, but charge thresholds are not supported by this hardware or kernel driver.",
    ).to_owned()
}

/// Works out how to set an end-of-charge limit. The kernel wants the start threshold below the
/// end threshold, so a start threshold that is not is lowered first.
pub fn apply_charge_limit(
    battery: &Battery,
    limit: u8,
    probe: &ThresholdProbe,
    language: &Language,
) -> (r: Result<LimitWrites, String>)
    ensures
        r is Ok <==> limit_writes(battery@, limit as nat, probe@, language@) is Ok,
        r matches Ok(w) ==> limit_writes(battery@, limit as nat, probe@, language@) == Ok::<
            LimitWritesView,
            Seq<char>,
        >(w@),
        r matches Err(e) ==> limit_writes(battery@, limit as nat, probe@, language@) == Err::<
            LimitWritesView,
            Seq<char>,
        >(e@),
{
    match &battery.end_threshold_path {
        None => Err(unsupported_message(language)),
        Some(end_path) => {
            if !probe.end_exists {
                return Err(unsupported_message(language));
            }
            let mut start: Option<ThresholdWrite> = None;
            match &battery.start_threshold_path {
                Some(start_path) => {
                    if probe.start_exists {
                        match battery::read_u8(&probe.start) {
                            Some(current) => {
                                if current >= limit {
                                    let lower: u8 = limit.saturating_sub(5);
                                    start = Some(write_single_threshold(start_path, lower));
                                }
                            },
                            None => {},
                        }
                    }
                },
                None => {},
            }
            Ok(LimitWrites { start, end: write_single_threshold(end_path, limit) })
        },
    }
}

/// The start threshold in force once the writes are done: the one written, else the one found.
pub open spec fn start_in_force(w: LimitWritesView, probe: ProbeView) -> Option<nat> {
    match w.start {
        Some(write) => battery::number_reading(Some(write.contents), u8::MAX as nat),
        None => battery::number_reading(probe.start, u8::MAX as nat),
    }
}

/// Once a limit above zero is set, the start threshold of the battery lies below the end
/// threshold.
pub proof fn start_lies_below_end(
    b: BatteryView,
    limit: nat,
    probe: ProbeView,
    language: LanguageView,
)
    requires
        0 < limit <= 255,
        limit_writes(b, limit, probe, language) is Ok,
        b.start_threshold_path is Some,
        probe.start_exists,
        battery::number_reading(probe.start, u8::MAX as nat) is Some,
    ensures
        start_in_force(
            limit_writes(b, limit, probe, language)->Ok_0,
            probe,
        ) matches Some(start) && start < limit,
{
    let lower: nat = if limit >= 5 {
        (limit - 5) as nat
    } else {
        0
    };
    lemma_threshold_reads_back(lower, Seq::empty(), Seq::empty());
    assert(Seq::<char>::empty() + text::decimal(lower) + Seq::<char>::empty() =~= text::decimal(
        lower,
    ));
}

proof fn lemma_threshold_reads_back(value: nat, before: Seq<char>, after: Seq<char>)
    requires
        value <= 255,
        forall|i: int| 0 <= i < before.len() ==> text::is_white_space(#[trigger] before[i]),
        forall|i: int| 0 <= i < after.len() ==> text::is_white_space(#[trigger] after[i]),
    ensures
        battery::number_reading(
            Some(before + text::decimal(value) + after),
            u8::MAX as nat,
        ) == Some(value),
{
    text::decimal_reads_back(value, u8::MAX as nat, before, after);
}

/// A limit that was written is the threshold that the next look at the battery shows, when the
/// kernel gives the written text back with any whitespace after it.
pub proof fn written_limit_is_read_back(
    b: BatteryView,
    limit: nat,
    probe: ProbeView,
    language: LanguageView,
    after: Seq<char>,
    readings: battery::ReadingsView,
)
    requires
        limit <= 255,
        limit_writes(b, limit, probe, language) is Ok,
        forall|i: int| 0 <= i < after.len() ==> text::is_white_space(#[trigger] after[i]),
        readings.end_threshold == Some(
            limit_writes(b, limit, probe, language)->Ok_0.end.contents + after,
        ),
    ensures
        battery::updated(b, readings).current_threshold == Some(limit),
        limit_writes(b, limit, probe, language)->Ok_0.end.path
            == battery::updated(b, readings).end_threshold_path->0,
{
    lemma_threshold_reads_back(limit, Seq::empty(), after);
    assert(Seq::<char>::empty() + text::decimal(limit) + after =~= text::decimal(limit) + after);
}

/// A limit can be set exactly where the battery has an end-threshold file that is there; else it
/// is said that thresholds are not supported.
pub proof fn limit_needs_an_end_threshold(
    b: BatteryView,
    limit: nat,
    probe: ProbeView,
    language: LanguageView,
)
    ensures
        limit_writes(b, limit, probe, language) is Ok <==> b.end_threshold_path is Some
            && probe.end_exists,
        limit_writes(b, limit, probe, language) matches Err(e) ==> language::is_wording(
            e,
            language,
            "status.thresholds_unsupported"@,
            "Battery found, but charge thresholds are not supported by this hardware or kernel driver."@,
        ),
{
}

/// The end threshold is set to the limit itself, whatever the start threshold is.
pub proof fn end_threshold_is_the_limit(
    b: BatteryView,
    limit: nat,
    probe: ProbeView,
    language: LanguageView,
)
    requires
        limit_writes(b, limit, probe, language) is Ok,
    ensures
        b.end_threshold_path == Some(limit_writes(b, limit, probe, language)->Ok_0.end.path),
        limit_writes(b, limit, probe, language)->Ok_0.end.contents == text::decimal(limit),
{
}

/// A start threshold below the limit is left alone. So is one that cannot be read as a
/// percentage, one whose file is not there, and one that the battery does not have.
pub proof fn start_threshold_out_of_the_way_is_left_alone(
    b: BatteryView,
    limit: nat,
    probe: ProbeView,
    language: LanguageView,
    start: nat,
)
    requires
        limit_writes(b, limit, probe, language) is Ok,
        b.start_threshold_path is None || !probe.start_exists || !battery::shows_a_number(
            probe.start,
            255,
        ) || (battery::shows_number(probe.start, start, 255) && start < limit),
    ensures
        limit_writes(b, limit, probe, language)->Ok_0.start is None,
{
    battery::number_reading_is_what_the_file_shows(probe.start, start, 255);
}

/// A start threshold that is not below the limit is lowered first, in its own file: to five below
/// the limit, or to zero where the limit is less than five.
pub proof fn start_threshold_in_the_way_is_lowered(
    b: BatteryView,
    limit: nat,
    probe: ProbeView,
    language: LanguageView,
    start: nat,
)
    requires
        limit_writes(b, limit, probe, language) is Ok,
        b.start_threshold_path is Some,
        probe.start_exists,
        battery::shows_number(probe.start, start, 255),
        limit <= start,
    ensures
        limit_writes(b, limit, probe, language)->Ok_0.start matches Some(w) && {
            &&& b.start_threshold_path == Some(w.path)
            &&& limit < 5 ==> w.contents == text::decimal(0)
            &&& forall|n: nat| n + 5 == limit ==> w.contents == #[trigger] text::decimal(n)
        },
{
    battery::number_reading_is_what_the_file_shows(probe.start, start, 255);
}

/// A refused permission is explained in the user's language; every other failure is told in the
/// system's own words.
pub proof fn failure_is_told(error: FailureView, language: LanguageView)
    ensures
        error.permission_denied ==> language::is_wording(
            failure_text(error, language),
            language,
            "status.permission_denied"@,
            "Permission denied. Grant access to the battery threshold files or run the app with the required permissions."@,
        ),
        !error.permission_denied ==> failure_text(error, language) == error.message,
{
}

} // verus!
