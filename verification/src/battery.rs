//! Batteries under `/sys/class/power_supply`: discovery, live readings and threshold files.
use vstd::prelude::*;
use vstd::string::*;

use crate::path;
use crate::path::FilePath;
use crate::text;

verus! {

/// What a battery's charge threshold allows.
#[derive(Debug, Clone, Copy, PartialEq, Eq, Structural)]
pub enum ThresholdSupport {
    /// The hardware or the kernel driver exposes no charge threshold.
    Unsupported,
    /// The threshold file is there but cannot be opened for writing.
    ReadOnly,
    /// The threshold file can be written.
    Writable,
}

/// One battery.
///
/// Capacities are in micro-units: µWh where the driver reports energy, µAh where it reports
/// charge. `cycle_count` counts the charge cycles so far.
pub struct Battery {
    /// The battery's sysfs directory.
    pub root: FilePath,
    /// Device name, such as `BAT0`.
    pub name: String,
    /// Charge in percent.
    pub capacity: Option<u8>,
    /// Status as the kernel words it.
    pub status: String,
    /// The charge threshold in force.
    pub current_threshold: Option<u8>,
    pub threshold_support: ThresholdSupport,
    pub end_threshold_path: Option<FilePath>,
    pub start_threshold_path: Option<FilePath>,
    /// `true` when the threshold can be written.
    pub writable: bool,
    pub technology: Option<String>,
    pub manufacturer: Option<String>,
    pub model_name: Option<String>,
    pub cycle_count: Option<u32>,
    /// Present full-charge capacity.
    pub full_capacity: Option<u64>,
    /// Full-charge capacity when new.
    pub design_capacity: Option<u64>,
    /// `Wh` or `Ah`.
    pub capacity_unit: &'static str,
}

/// What a `Battery` stands for.
pub struct BatteryView {
    pub root: Seq<u8>,
    pub name: Seq<char>,
    pub capacity: Option<nat>,
    pub status: Seq<char>,
    pub current_threshold: Option<nat>,
    pub threshold_support: ThresholdSupport,
    pub end_threshold_path: Option<Seq<u8>>,
    pub start_threshold_path: Option<Seq<u8>>,
    pub writable: bool,
    pub technology: Option<Seq<char>>,
    pub manufacturer: Option<Seq<char>>,
    pub model_name: Option<Seq<char>>,
    pub cycle_count: Option<nat>,
    pub full_capacity: Option<nat>,
    pub design_capacity: Option<nat>,
    pub capacity_unit: Seq<char>,
}

/// The characters of a text that may be missing.
pub open spec fn maybe_text(s: Option<String>) -> Option<Seq<char>> {
    match s {
        Some(s) => Some(s@),
        None => None,
    }
}

pub open spec fn maybe_u8(n: Option<u8>) -> Option<nat> {
    match n {
        Some(n) => Some(n as nat),
        None => None,
    }
}

pub open spec fn maybe_u32(n: Option<u32>) -> Option<nat> {
    match n {
        Some(n) => Some(n as nat),
        None => None,
    }
}

pub open spec fn maybe_u64(n: Option<u64>) -> Option<nat> {
    match n {
        Some(n) => Some(n as nat),
        None => None,
    }
}

impl View for Battery {
    type V = BatteryView;

    open spec fn view(&self) -> BatteryView {
        BatteryView {
            root: self.root@,
            name: self.name@,
            capacity: maybe_u8(self.capacity),
            status: self.status@,
            current_threshold: maybe_u8(self.current_threshold),
            threshold_support: self.threshold_support,
            end_threshold_path: path::maybe_path(self.end_threshold_path),
            start_threshold_path: path::maybe_path(self.start_threshold_path),
            writable: self.writable,
            technology: maybe_text(self.technology),
            manufacturer: maybe_text(self.manufacturer),
            model_name: maybe_text(self.model_name),
            cycle_count: maybe_u32(self.cycle_count),
            full_capacity: maybe_u64(self.full_capacity),
            design_capacity: maybe_u64(self.design_capacity),
            capacity_unit: self.capacity_unit@,
        }
    }
}

/// Which threshold files lie in a battery's directory.
#[derive(Debug, Clone, Copy, PartialEq, Eq, Structural)]
pub struct ThresholdNodes {
    /// `charge_control_end_threshold`
    pub end_standard: bool,
    /// `charge_stop_threshold`
    pub end_legacy: bool,
    /// `charge_control_start_threshold`
    pub start_standard: bool,
    /// `charge_start_threshold`
    pub start_legacy: bool,
}

/// What one look at a battery's directory gave. A text is a whole file, `None` where it could
/// not be read.
pub struct Readings {
    pub nodes: ThresholdNodes,
    /// The file at the end-threshold path exists.
    pub end_exists: bool,
    /// The file at the end-threshold path can be opened for writing.
    pub end_opens: bool,
    pub end_threshold: Option<String>,
    pub capacity: Option<String>,
    pub status: Option<String>,
    pub technology: Option<String>,
    pub manufacturer: Option<String>,
    pub model_name: Option<String>,
    pub cycle_count: Option<String>,
    pub energy_full: Option<String>,
    pub energy_full_design: Option<String>,
    pub charge_full: Option<String>,
    pub charge_full_design: Option<String>,
}

/// What `Readings` stand for.
pub struct ReadingsView {
    pub nodes: ThresholdNodes,
    pub end_exists: bool,
    pub end_opens: bool,
    pub end_threshold: Option<Seq<char>>,
    pub capacity: Option<Seq<char>>,
    pub status: Option<Seq<char>>,
    pub technology: Option<Seq<char>>,
    pub manufacturer: Option<Seq<char>>,
    pub model_name: Option<Seq<char>>,
    pub cycle_count: Option<Seq<char>>,
    pub energy_full: Option<Seq<char>>,
    pub energy_full_design: Option<Seq<char>>,
    pub charge_full: Option<Seq<char>>,
    pub charge_full_design: Option<Seq<char>>,
}

impl View for Readings {
    type V = ReadingsView;

    open spec fn view(&self) -> ReadingsView {
        ReadingsView {
            nodes: self.nodes,
            end_exists: self.end_exists,
            end_opens: self.end_opens,
            end_threshold: maybe_text(self.end_threshold),
            capacity: maybe_text(self.capacity),
            status: maybe_text(self.status),
            technology: maybe_text(self.technology),
            manufacturer: maybe_text(self.manufacturer),
            model_name: maybe_text(self.model_name),
            cycle_count: maybe_text(self.cycle_count),
            energy_full: maybe_text(self.energy_full),
            energy_full_design: maybe_text(self.energy_full_design),
            charge_full: maybe_text(self.charge_full),
            charge_full_design: maybe_text(self.charge_full_design),
        }
    }
}

/// Where the kernel lists the power supplies.
pub const POWER_SUPPLY_DIR: &'static str = "/sys/class/power_supply";

/// The names of the files that readings are taken from, in the order of the fields.
pub open spec fn reading_names() -> Seq<Seq<char>> {
    seq![
        "capacity"@,
        "status"@,
        "technology"@,
        "manufacturer"@,
        "model_name"@,
        "cycle_count"@,
        "energy_full"@,
        "energy_full_design"@,
        "charge_full"@,
        "charge_full_design"@,
    ]
}

/// `contents` are those of the field that the file `name` of a battery's directory belongs to.
pub open spec fn is_field_of(
    r: ReadingsView,
    name: Seq<char>,
    contents: Option<Seq<char>>,
) -> bool {
    &&& name == "capacity"@ ==> r.capacity == contents
    &&& name == "status"@ ==> r.status == contents
    &&& name == "technology"@ ==> r.technology == contents
    &&& name == "manufacturer"@ ==> r.manufacturer == contents
    &&& name == "model_name"@ ==> r.model_name == contents
    &&& name == "cycle_count"@ ==> r.cycle_count == contents
    &&& name == "energy_full"@ ==> r.energy_full == contents
    &&& name == "energy_full_design"@ ==> r.energy_full_design == contents
    &&& name == "charge_full"@ ==> r.charge_full == contents
    &&& name == "charge_full_design"@ ==> r.charge_full_design == contents
}

/// Every field has a file, and one only.
pub proof fn every_field_has_its_file()
    ensures
        reading_names().contains("capacity"@),
        reading_names().contains("status"@),
        reading_names().contains("technology"@),
        reading_names().contains("manufacturer"@),
        reading_names().contains("model_name"@),
        reading_names().contains("cycle_count"@),
        reading_names().contains("energy_full"@),
        reading_names().contains("energy_full_design"@),
        reading_names().contains("charge_full"@),
        reading_names().contains("charge_full_design"@),
        reading_names().no_duplicates(),
{
    assert(reading_names()[0] == "capacity"@);
    assert(reading_names()[1] == "status"@);
    assert(reading_names()[2] == "technology"@);
    assert(reading_names()[3] == "manufacturer"@);
    assert(reading_names()[4] == "model_name"@);
    assert(reading_names()[5] == "cycle_count"@);
    assert(reading_names()[6] == "energy_full"@);
    assert(reading_names()[7] == "energy_full_design"@);
    assert(reading_names()[8] == "charge_full"@);
    assert(reading_names()[9] == "charge_full_design"@);
    lemma_names_differ();
}

proof fn lemma_names_differ()
    ensures
        reading_names().no_duplicates(),
        reading_names()[0] == "capacity"@,
        reading_names()[1] == "status"@,
        reading_names()[2] == "technology"@,
        reading_names()[3] == "manufacturer"@,
        reading_names()[4] == "model_name"@,
        reading_names()[5] == "cycle_count"@,
        reading_names()[6] == "energy_full"@,
        reading_names()[7] == "energy_full_design"@,
        reading_names()[8] == "charge_full"@,
        reading_names()[9] == "charge_full_design"@,
{
    reveal_strlit("capacity");
    reveal_strlit("status");
    reveal_strlit("technology");
    reveal_strlit("manufacturer");
    reveal_strlit("model_name");
    reveal_strlit("cycle_count");
    reveal_strlit("energy_full");
    reveal_strlit("energy_full_design");
    reveal_strlit("charge_full");
    reveal_strlit("charge_full_design");
    let names = reading_names();
    assert(names[0].len() == 8 && names[0][0] == 'c' && names[0][1] == 'a');
    assert(names[1].len() == 6 && names[1][0] == 's' && names[1][1] == 't');
    assert(names[2].len() == 10 && names[2][0] == 't' && names[2][1] == 'e');
    assert(names[3].len() == 12 && names[3][0] == 'm' && names[3][1] == 'a');
    assert(names[4].len() == 10 && names[4][0] == 'm' && names[4][1] == 'o');
    assert(names[5].len() == 11 && names[5][0] == 'c' && names[5][1] == 'y');
    assert(names[6].len() == 11 && names[6][0] == 'e' && names[6][1] == 'n');
    assert(names[7].len() == 18 && names[7][0] == 'e' && names[7][1] == 'n');
    assert(names[8].len() == 11 && names[8][0] == 'c' && names[8][1] == 'h');
    assert(names[9].len() == 18 && names[9][0] == 'c' && names[9][1] == 'h');
    assert(names.no_duplicates());
}

/// The file that tells what kind of device lies in `root`.
pub fn kind_file(root: &FilePath) -> (r: FilePath)
    ensures
        r@ == path::joined(root@, path::path_of("type"@)),
{
    root.join("type")
}

/// The files that readings are taken from, in the order of `reading_names`.
pub fn reading_files(root: &FilePath) -> (r: Vec<FilePath>)
    ensures
        path::path_views(r@) == reading_names().map_values(
            |name: Seq<char>| path::joined(root@, path::path_of(name)),
        ),
{
    let mut r: Vec<FilePath> = Vec::new();
    r.push(root.join("capacity"));
    r.push(root.join("status"));
    r.push(root.join("technology"));
    r.push(root.join("manufacturer"));
    r.push(root.join("model_name"));
    r.push(root.join("cycle_count"));
    r.push(root.join("energy_full"));
    r.push(root.join("energy_full_design"));
    r.push(root.join("charge_full"));
    r.push(root.join("charge_full_design"));
    assert(path::path_views(r@) =~= reading_names().map_values(
        |name: Seq<char>| path::joined(root@, path::path_of(name)),
    ));
    r
}

fn clone_text(s: &Option<String>) -> (r: Option<String>)
    ensures
        maybe_text(r) == maybe_text(*s),
{
    match s {
        Some(s) => Some(s.clone()),
        None => None,
    }
}

impl Readings {
    /// Puts readings together. `files` holds the contents of the files that `reading_files`
    /// names, in that order.
    pub fn from_files(
        nodes: ThresholdNodes,
        end_exists: bool,
        end_opens: bool,
        end_threshold: Option<String>,
        files: &Vec<Option<String>>,
    ) -> (r: Readings)
        requires
            files.len() == reading_names().len(),
        ensures
            r@ == (ReadingsView {
                nodes,
                end_exists,
                end_opens,
                end_threshold: maybe_text(end_threshold),
                capacity: maybe_text(files@[0]),
                status: maybe_text(files@[1]),
                technology: maybe_text(files@[2]),
                manufacturer: maybe_text(files@[3]),
                model_name: maybe_text(files@[4]),
                cycle_count: maybe_text(files@[5]),
                energy_full: maybe_text(files@[6]),
                energy_full_design: maybe_text(files@[7]),
                charge_full: maybe_text(files@[8]),
                charge_full_design: maybe_text(files@[9]),
            }),
            forall|k: int|
                0 <= k < files.len() ==> is_field_of(
                    r@,
                    #[trigger] reading_names()[k],
                    maybe_text(files@[k]),
                ),
    {
        proof {
            lemma_names_differ();
        }

        Readings {
            nodes,
            end_exists,
            end_opens,
            end_threshold,
            capacity: clone_text(&files[0]),
            status: clone_text(&files[1]),
            technology: clone_text(&files[2]),
            manufacturer: clone_text(&files[3]),
            model_name: clone_text(&files[4]),
            cycle_count: clone_text(&files[5]),
            energy_full: clone_text(&files[6]),
            energy_full_design: clone_text(&files[7]),
            charge_full: clone_text(&files[8]),
            charge_full_design: clone_text(&files[9]),
        }
    }
}

/// The end-threshold file in `root`: the standard name before the legacy one.
pub open spec fn end_path(root: Seq<u8>, standard: bool, legacy: bool) -> Option<Seq<u8>> {
    if standard {
        Some(path::joined(root, path::path_of("charge_control_end_threshold"@)))
    } else if legacy {
        Some(path::joined(root, path::path_of("charge_stop_threshold"@)))
    } else {
        None
    }
}

/// The start-threshold file in `root`: the standard name before the legacy one.
pub open spec fn start_path(root: Seq<u8>, standard: bool, legacy: bool) -> Option<Seq<u8>> {
    if standard {
        Some(path::joined(root, path::path_of("charge_control_start_threshold"@)))
    } else if legacy {
        Some(path::joined(root, path::path_of("charge_start_threshold"@)))
    } else {
        None
    }
}

/// Finds the end-threshold file, given which of its two names exist in `root`.
pub fn find_end_threshold_path(root: &FilePath, standard: bool, legacy: bool) -> (r: Option<
    FilePath,
>)
    ensures
        path::maybe_path(r) == end_path(root@, standard, legacy),
{
    if standard {
        return Some(root.join("charge_control_end_threshold"));
    }
    if legacy {
        return Some(root.join("charge_stop_threshold"));
    }
    None
}

/// Finds the start-threshold file, given which of its two names exist in `root`.
pub fn find_start_threshold_path(root: &FilePath, standard: bool, legacy: bool) -> (r: Option<
    FilePath,
>)
    ensures
        path::maybe_path(r) == start_path(root@, standard, legacy),
{
    if standard {
        return Some(root.join("charge_control_start_threshold"));
    }
    if legacy {
        return Some(root.join("charge_start_threshold"));
    }
    None
}

/// The support that an end-threshold path gives, with whether the file exists and opens for
/// writing.
pub open spec fn support_of(has_path: bool, exists: bool, opens: bool) -> ThresholdSupport {
    if !has_path || !exists {
        ThresholdSupport::Unsupported
    } else if opens {
        ThresholdSupport::Writable
    } else {
        ThresholdSupport::ReadOnly
    }
}

/// Tells an unsupported, a read-only and a writable threshold apart. `exists` and `opens` say
/// whether the file at `end_path` exists and opens for writing.
pub fn check_threshold_support(end_path: Option<&FilePath>, exists: bool, opens: bool) -> (r:
    ThresholdSupport)
    ensures
        r == support_of(end_path is Some, exists, opens),
{
    match end_path {
        None => ThresholdSupport::Unsupported,
        Some(_) => {
            if !exists {
                ThresholdSupport::Unsupported
            } else if opens {
                ThresholdSupport::Writable
            } else {
                ThresholdSupport::ReadOnly
            }
        },
    }
}

/// A file's text without the whitespace around it.
pub open spec fn trimmed_reading(contents: Option<Seq<char>>) -> Option<Seq<char>> {
    match contents {
        Some(s) => Some(text::trimmed(s)),
        None => None,
    }
}

/// The number in a file, where it holds one of at most `max`.
pub open spec fn number_reading(contents: Option<Seq<char>>, max: nat) -> Option<nat> {
    match contents {
        Some(s) => text::parsed_number(text::trimmed(s), max),
        None => None,
    }
}

/// Trims the contents of a sysfs file.
pub fn read_trimmed(contents: &Option<String>) -> (r: Option<String>)
    ensures
        maybe_text(r) == trimmed_reading(maybe_text(*contents)),
{
    match contents {
        Some(s) => Some(text::trim(s.as_str()).to_owned()),
        None => None,
    }
}

fn read_u64(contents: &Option<String>, max: u64) -> (r: Option<u64>)
    ensures
        maybe_u64(r) == number_reading(maybe_text(*contents), max as nat),
        r matches Some(n) ==> n <= max,
{
    match contents {
        Some(s) => text::parse_number(text::trim(s.as_str()), max),
        None => None,
    }
}

/// Reads a sysfs file that holds a percentage.
pub fn read_u8(contents: &Option<String>) -> (r: Option<u8>)
    ensures
        maybe_u8(r) == number_reading(maybe_text(*contents), u8::MAX as nat),
{
    match read_u64(contents, 255) {
        Some(n) => Some(n as u8),
        None => None,
    }
}

fn read_u32(contents: &Option<String>) -> (r: Option<u32>)
    ensures
        maybe_u32(r) == number_reading(maybe_text(*contents), u32::MAX as nat),
{
    match read_u64(contents, 0xffff_ffff) {
        Some(n) => Some(n as u32),
        None => None,
    }
}

/// The end-threshold path that counts: the one already known, else the one found now.
pub open spec fn settled_end_path(b: BatteryView, nodes: ThresholdNodes) -> Option<Seq<u8>> {
    match b.end_threshold_path {
        Some(p) => Some(p),
        None => end_path(b.root, nodes.end_standard, nodes.end_legacy),
    }
}

/// The start-threshold path that counts: the one already known, else the one found now.
pub open spec fn settled_start_path(b: BatteryView, nodes: ThresholdNodes) -> Option<Seq<u8>> {
    match b.start_threshold_path {
        Some(p) => Some(p),
        None => start_path(b.root, nodes.start_standard, nodes.start_legacy),
    }
}

/// The battery after one look at its directory. Charge and status keep their last value where
/// they cannot be read; every other reading is taken as it is. Energy counts before charge.
pub open spec fn updated(b: BatteryView, r: ReadingsView) -> BatteryView {
    let end = settled_end_path(b, r.nodes);
    let support = support_of(end is Some, r.end_exists, r.end_opens);
    let energy_full = number_reading(r.energy_full, u64::MAX as nat);
    let energy_design = number_reading(r.energy_full_design, u64::MAX as nat);
    let by_energy = energy_full is Some || energy_design is Some;
    BatteryView {
        capacity: match number_reading(r.capacity, u8::MAX as nat) {
            Some(n) => Some(n),
            None => b.capacity,
        },
        status: match trimmed_reading(r.status) {
            Some(s) => s,
            None => b.status,
        },
        end_threshold_path: end,
        start_threshold_path: settled_start_path(b, r.nodes),
        threshold_support: support,
        writable: support == ThresholdSupport::Writable,
        current_threshold: if end is Some {
            number_reading(r.end_threshold, u8::MAX as nat)
        } else {
            None
        },
        technology: trimmed_reading(r.technology),
        manufacturer: trimmed_reading(r.manufacturer),
        model_name: trimmed_reading(r.model_name),
        cycle_count: number_reading(r.cycle_count, u32::MAX as nat),
        full_capacity: if by_energy {
            energy_full
        } else {
            number_reading(r.charge_full, u64::MAX as nat)
        },
        design_capacity: if by_energy {
            energy_design
        } else {
            number_reading(r.charge_full_design, u64::MAX as nat)
        },
        capacity_unit: if by_energy {
            "Wh"@
        } else {
            "Ah"@
        },
        ..b
    }
}

/// The end-threshold path to look at before an update: the one already known, else the one
/// that `nodes` gives.
pub fn end_path_to_probe(battery: &Battery, nodes: ThresholdNodes) -> (r: Option<FilePath>)
    ensures
        path::maybe_path(r) == settled_end_path(battery@, nodes),
{
    match &battery.end_threshold_path {
        Some(p) => Some(p.clone()),
        None => find_end_threshold_path(&battery.root, nodes.end_standard, nodes.end_legacy),
    }
}

/// Refreshes a battery from one look at its directory. The readings of the end-threshold file
/// are those of the file at `end_path_to_probe`.
pub fn update_battery_readings(battery: &mut Battery, readings: &Readings)
    ensures
        final(battery)@ == updated(old(battery)@, readings@),
{
    let ghost before = battery@;
    let nodes = readings.nodes;
    match read_u8(&readings.capacity) {
        Some(capacity) => {
            battery.capacity = Some(capacity);
        },
        None => {},
    }
    match read_trimmed(&readings.status) {
        Some(status) => {
            battery.status = status;
        },
        None => {},
    }
    if battery.end_threshold_path.is_none() {
        battery.end_threshold_path =
        find_end_threshold_path(&battery.root, nodes.end_standard, nodes.end_legacy);
    }
    if battery.start_threshold_path.is_none() {
        battery.start_threshold_path =
        find_start_threshold_path(&battery.root, nodes.start_standard, nodes.start_legacy);
    }
    battery.threshold_support =
    check_threshold_support(
        battery.end_threshold_path.as_ref(),
        readings.end_exists,
        readings.end_opens,
    );
    battery.writable = battery.threshold_support == ThresholdSupport::Writable;
    battery.current_threshold = if battery.end_threshold_path.is_some() {
        read_u8(&readings.end_threshold)
    } else {
        None
    };
    battery.technology = read_trimmed(&readings.technology);
    battery.manufacturer = read_trimmed(&readings.manufacturer);
    battery.model_name = read_trimmed(&readings.model_name);
    battery.cycle_count = read_u32(&readings.cycle_count);
    let energy_full = read_u64(&readings.energy_full, u64::MAX);
    let energy_design = read_u64(&readings.energy_full_design, u64::MAX);
    if energy_full.is_some() || energy_design.is_some() {
        battery.full_capacity = energy_full;
        battery.design_capacity = energy_design;
        battery.capacity_unit = "Wh";
    } else {
        battery.full_capacity = read_u64(&readings.charge_full, u64::MAX);
        battery.design_capacity = read_u64(&readings.charge_full_design, u64::MAX);
        battery.capacity_unit = "Ah";
    }
    assert(battery@ == updated(before, readings@));
}

/// One entry of `/sys/class/power_supply`, as it was found.
pub struct PowerSupply {
    /// Device name.
    pub name: String,
    /// The device's directory.
    pub root: FilePath,
    /// Contents of its `type` file.
    pub kind: Option<String>,
    pub readings: Readings,
}

/// What a `PowerSupply` stands for.
pub struct PowerSupplyView {
    pub name: Seq<char>,
    pub root: Seq<u8>,
    pub kind: Option<Seq<char>>,
    pub readings: ReadingsView,
}

impl View for PowerSupply {
    type V = PowerSupplyView;

    open spec fn view(&self) -> PowerSupplyView {
        PowerSupplyView {
            name: self.name@,
            root: self.root@,
            kind: maybe_text(self.kind),
            readings: self.readings@,
        }
    }
}

/// The views of a list of devices.
pub open spec fn supply_views(v: Seq<PowerSupply>) -> Seq<PowerSupplyView> {
    v.map_values(|d: PowerSupply| d@)
}

/// The views of a list of batteries.
pub open spec fn battery_views(v: Seq<Battery>) -> Seq<BatteryView> {
    v.map_values(|b: Battery| b@)
}

/// A device whose `type` file says `Battery`.
pub open spec fn is_battery(d: PowerSupplyView) -> bool {
    trimmed_reading(d.kind) == Some("Battery"@)
}

/// Tells whether these contents of a `type` file are those of a battery.
pub fn is_battery_kind(kind: &Option<String>) -> (r: bool)
    ensures
        r == (trimmed_reading(maybe_text(*kind)) == Some("Battery"@)),
{
    match read_trimmed(kind) {
        Some(kind) => text::same_text(kind.as_str(), "Battery"),
        None => false,
    }
}

/// A battery of which only the directory is known.
pub open spec fn fresh_battery(d: PowerSupplyView) -> BatteryView {
    let nodes = d.readings.nodes;
    let end = end_path(d.root, nodes.end_standard, nodes.end_legacy);
    let support = support_of(end is Some, d.readings.end_exists, d.readings.end_opens);
    BatteryView {
        root: d.root,
        name: d.name,
        capacity: None,
        status: "Unknown"@,
        current_threshold: None,
        threshold_support: support,
        end_threshold_path: end,
        start_threshold_path: start_path(d.root, nodes.start_standard, nodes.start_legacy),
        writable: support == ThresholdSupport::Writable,
        technology: None,
        manufacturer: None,
        model_name: None,
        cycle_count: None,
        full_capacity: None,
        design_capacity: None,
        capacity_unit: "Wh"@,
    }
}

/// The battery that a device is, with its first readings.
pub open spec fn discovered(d: PowerSupplyView) -> BatteryView {
    updated(fresh_battery(d), d.readings)
}

/// The batteries among `devices`, in the order of the devices.
pub open spec fn batteries_among(devices: Seq<PowerSupplyView>) -> Seq<BatteryView>
    decreases devices.len(),
{
    if devices.len() == 0 {
        Seq::empty()
    } else if is_battery(devices.last()) {
        batteries_among(devices.drop_last()).push(discovered(devices.last()))
    } else {
        batteries_among(devices.drop_last())
    }
}

/// Makes a battery of a device, unless the device is something else.
pub fn discover_battery(device: &PowerSupply) -> (r: Option<Battery>)
    ensures
        r is Some <==> is_battery(device@),
        r matches Some(b) ==> b@ == discovered(device@),
{
    if !is_battery_kind(&device.kind) {
        return None;
    }
    let nodes = device.readings.nodes;
    let end_threshold_path = find_end_threshold_path(
        &device.root,
        nodes.end_standard,
        nodes.end_legacy,
    );
    let start_threshold_path = find_start_threshold_path(
        &device.root,
        nodes.start_standard,
        nodes.start_legacy,
    );
    let threshold_support = check_threshold_support(
        end_threshold_path.as_ref(),
        device.readings.end_exists,
        device.readings.end_opens,
    );
    let mut battery = Battery {
        root: device.root.clone(),
        name: device.name.clone(),
        capacity: None,
        status: "Unknown".to_owned(),
        current_threshold: None,
        threshold_support,
        end_threshold_path,
        start_threshold_path,
        writable: threshold_support == ThresholdSupport::Writable,
        technology: None,
        manufacturer: None,
        model_name: None,
        cycle_count: None,
        full_capacity: None,
        design_capacity: None,
        capacity_unit: "Wh",
    };
    assert(battery@ == fresh_battery(device@));
    update_battery_readings(&mut battery, &device.readings);
    Some(battery)
}

/// Picks the batteries out of the devices that were found.
pub fn discover_batteries(devices: &Vec<PowerSupply>) -> (r: Vec<Battery>)
    ensures
        battery_views(r@) == batteries_among(supply_views(devices@)),
{
    let mut r: Vec<Battery> = Vec::new();
    let mut i: usize = 0;
    let ghost all = supply_views(devices@);
    assert(battery_views(r@) =~= batteries_among(all.take(0)));
    while i < devices.len()
        invariant
            i <= devices.len(),
            all == supply_views(devices@),
            battery_views(r@) == batteries_among(all.take(i as int)),
        decreases devices.len() - i,
    {
        let ghost before = r@;
        assert(all.take(i + 1).drop_last() =~= all.take(i as int));
        assert(all.take(i + 1).last() == devices@[i as int]@);
        match discover_battery(&devices[i]) {
            Some(battery) => {
                r.push(battery);
                assert(battery_views(r@) =~= battery_views(before).push(battery@));
            },
            None => {},
        }
        i = i + 1;
    }
    assert(all.take(devices@.len() as int) =~= all);
    r
}

/// What holds of every battery that was discovered or updated: the writable flag says what the
/// support says, and without an end-threshold file there is neither support nor a threshold.
pub open spec fn is_consistent(b: BatteryView) -> bool {
    &&& b.writable <==> b.threshold_support == ThresholdSupport::Writable
    &&& b.end_threshold_path is None ==> b.threshold_support == ThresholdSupport::Unsupported
    &&& b.end_threshold_path is None ==> b.current_threshold is None
    &&& b.capacity_unit == "Wh"@ || b.capacity_unit == "Ah"@
}

/// Every update leaves a consistent battery, whatever was there before and whatever was read.
pub proof fn update_is_consistent(b: BatteryView, r: ReadingsView)
    ensures
        is_consistent(updated(b, r)),
{
}

/// Every discovered battery is consistent.
pub proof fn discovery_is_consistent(devices: Seq<PowerSupplyView>)
    ensures
        forall|i: int|
            0 <= i < batteries_among(devices).len() ==> is_consistent(
                #[trigger] batteries_among(devices)[i],
            ),
    decreases devices.len(),
{
    if devices.len() > 0 {
        let before = batteries_among(devices.drop_last());
        discovery_is_consistent(devices.drop_last());
        update_is_consistent(fresh_battery(devices.last()), devices.last().readings);
        assert forall|i: int| 0 <= i < batteries_among(devices).len() implies is_consistent(
            #[trigger] batteries_among(devices)[i],
        ) by {
            if i < before.len() {
                assert(is_consistent(before[i]));
            }
        }
    }
}

/// An update never renames or moves a battery, and never forgets a threshold file.
pub proof fn update_keeps_identity(b: BatteryView, r: ReadingsView)
    ensures
        updated(b, r).root == b.root,
        updated(b, r).name == b.name,
        b.end_threshold_path is Some ==> updated(b, r).end_threshold_path == b.end_threshold_path,
        b.start_threshold_path is Some ==> updated(b, r).start_threshold_path
            == b.start_threshold_path,
{
}

/// Charge and status that cannot be read keep their last value.
pub proof fn unreadable_charge_and_status_are_kept(b: BatteryView, r: ReadingsView)
    requires
        r.capacity is None,
        r.status is None,
    ensures
        updated(b, r).capacity == b.capacity,
        updated(b, r).status == b.status,
{
}

/// Looking twice at the same state of a directory changes nothing the second time.
pub proof fn update_is_idempotent(b: BatteryView, r: ReadingsView)
    ensures
        updated(updated(b, r), r) == updated(b, r),
{
}

/// The standard threshold files count before the legacy ones.
pub proof fn standard_names_come_first(root: Seq<u8>, legacy: bool)
    ensures
        end_path(root, true, legacy) == Some(
            path::joined(root, path::path_of("charge_control_end_threshold"@)),
        ),
        start_path(root, true, legacy) == Some(
            path::joined(root, path::path_of("charge_control_start_threshold"@)),
        ),
{
}

/// Where energy is reported, the battery's charge figures do not count.
pub proof fn energy_counts_before_charge(
    b: BatteryView,
    r: ReadingsView,
    charge_full: Option<Seq<char>>,
    charge_full_design: Option<Seq<char>>,
)
    requires
        number_reading(r.energy_full, u64::MAX as nat) is Some || number_reading(
            r.energy_full_design,
            u64::MAX as nat,
        ) is Some,
    ensures
        updated(b, r).capacity_unit == "Wh"@,
        updated(b, ReadingsView { charge_full, charge_full_design, ..r }) == updated(b, r),
{
}

/// These contents of a file are the number `n`, and it is at most `max`.
pub open spec fn shows_number(contents: Option<Seq<char>>, n: nat, max: nat) -> bool {
    contents matches Some(s) && text::holds_number(s, n) && n <= max
}

/// These contents of a file are some number of at most `max`.
pub open spec fn shows_a_number(contents: Option<Seq<char>>, max: nat) -> bool {
    exists|n: nat| shows_number(contents, n, max)
}

/// These contents of a file are the text `t`, with whitespace around it or not.
pub open spec fn shows_text(contents: Option<Seq<char>>, t: Seq<char>) -> bool {
    &&& text::has_no_margin(t)
    &&& contents matches Some(s) && exists|before: Seq<char>, after: Seq<char>|
        text::is_blank(before) && text::is_blank(after) && s == #[trigger] (before + t + after)
}

/// A number is read where the file holds it, and only there.
pub proof fn number_reading_is_what_the_file_shows(contents: Option<Seq<char>>, n: nat, max: nat)
    ensures
        number_reading(contents, max) == Some(n) <==> shows_number(contents, n, max),
        number_reading(contents, max) is Some <==> shows_a_number(contents, max),
{
    match contents {
        Some(s) => {
            text::numbers_are_read_as_written(s, n, max);
            match number_reading(contents, max) {
                Some(m) => {
                    text::numbers_are_read_as_written(s, m, max);
                    assert(shows_number(contents, m, max));
                },
                None => {
                    assert forall|m: nat| !shows_number(contents, m, max) by {
                        text::numbers_are_read_as_written(s, m, max);
                    }
                },
            }
        },
        None => {},
    }
}

/// A text is read where the file holds it, and only there; a file that is there holds one.
pub proof fn text_reading_is_what_the_file_shows(contents: Option<Seq<char>>, t: Seq<char>)
    ensures
        trimmed_reading(contents) == Some(t) <==> shows_text(contents, t),
        trimmed_reading(contents) is Some <==> contents is Some,
{
    match contents {
        Some(s) => {
            if trimmed_reading(contents) == Some(t) {
                let margin = text::trimming_cuts_the_margin(s);
                assert(s == margin.0 + t + margin.1);
            }
            if shows_text(contents, t) {
                let (before, after) = choose|before: Seq<char>, after: Seq<char>|
                    text::is_blank(before) && text::is_blank(after) && s == #[trigger] (before + t
                        + after);
                text::trimming_finds_the_text(before, t, after);
            }
        },
        None => {},
    }
}

/// After an update charge and status are those that the files show now, whatever was known
/// before; where a file shows none, the last one stays.
pub proof fn update_shows_the_present_charge_and_status(
    b: BatteryView,
    r: ReadingsView,
    n: nat,
    t: Seq<char>,
)
    ensures
        shows_number(r.capacity, n, 255) ==> updated(b, r).capacity == Some(n),
        !shows_a_number(r.capacity, 255) ==> updated(b, r).capacity == b.capacity,
        shows_text(r.status, t) ==> updated(b, r).status == t,
        r.status is None ==> updated(b, r).status == b.status,
{
    number_reading_is_what_the_file_shows(r.capacity, n, 255);
    text_reading_is_what_the_file_shows(r.status, t);
}

/// After an update the descriptive fields and the cycle count are those that the files show now,
/// each from its own file, and nothing where a file shows none.
pub proof fn update_shows_the_present_details(
    b: BatteryView,
    r: ReadingsView,
    n: nat,
    t: Seq<char>,
)
    ensures
        updated(b, r).technology == Some(t) <==> shows_text(r.technology, t),
        updated(b, r).manufacturer == Some(t) <==> shows_text(r.manufacturer, t),
        updated(b, r).model_name == Some(t) <==> shows_text(r.model_name, t),
        updated(b, r).cycle_count == Some(n) <==> shows_number(r.cycle_count, n, 0xffff_ffff),
{
    text_reading_is_what_the_file_shows(r.technology, t);
    text_reading_is_what_the_file_shows(r.manufacturer, t);
    text_reading_is_what_the_file_shows(r.model_name, t);
    number_reading_is_what_the_file_shows(r.cycle_count, n, 0xffff_ffff);
}

/// After an update the capacities are those that the files show now: the energy figures in `Wh`
/// where one of them is there, else the charge figures in `Ah`. The full capacity comes from the
/// file of the full one, the design capacity from that of the design.
pub proof fn update_shows_the_present_capacities(b: BatteryView, r: ReadingsView, n: nat)
    ensures
        ({
            let max = 0xffff_ffff_ffff_ffff;
            let by_energy = shows_a_number(r.energy_full, max) || shows_a_number(
                r.energy_full_design,
                max,
            );
            let u = updated(b, r);
            &&& by_energy ==> u.capacity_unit == "Wh"@
            &&& by_energy ==> (u.full_capacity == Some(n) <==> shows_number(r.energy_full, n, max))
            &&& by_energy ==> (u.design_capacity == Some(n) <==> shows_number(
                r.energy_full_design,
                n,
                max,
            ))
            &&& !by_energy ==> u.capacity_unit == "Ah"@
            &&& !by_energy ==> (u.full_capacity == Some(n) <==> shows_number(r.charge_full, n, max))
            &&& !by_energy ==> (u.design_capacity == Some(n) <==> shows_number(
                r.charge_full_design,
                n,
                max,
            ))
        }),
{
    let max = 0xffff_ffff_ffff_ffff;
    number_reading_is_what_the_file_shows(r.energy_full, n, max);
    number_reading_is_what_the_file_shows(r.energy_full_design, n, max);
    number_reading_is_what_the_file_shows(r.charge_full, n, max);
    number_reading_is_what_the_file_shows(r.charge_full_design, n, max);
}

/// After an update the threshold in force is the one that the end-threshold file shows now, and
/// the support is that of the file as it is now.
pub proof fn update_shows_the_present_threshold(b: BatteryView, r: ReadingsView, n: nat)
    ensures
        ({
            let u = updated(b, r);
            let there = u.end_threshold_path is Some && r.end_exists;
            &&& u.current_threshold == Some(n) <==> u.end_threshold_path is Some && shows_number(
                r.end_threshold,
                n,
                255,
            )
            &&& u.threshold_support == ThresholdSupport::Writable <==> there && r.end_opens
            &&& u.threshold_support == ThresholdSupport::ReadOnly <==> there && !r.end_opens
            &&& u.threshold_support == ThresholdSupport::Unsupported <==> !there
            &&& u.writable <==> there && r.end_opens
        }),
{
    number_reading_is_what_the_file_shows(r.end_threshold, n, 255);
}

/// A threshold file that was not known before is looked for in the battery's directory, under its
/// standard name, then under the legacy one; each kind has names of its own.
pub proof fn update_finds_threshold_files(b: BatteryView, r: ReadingsView)
    ensures
        ({
            let end = updated(b, r).end_threshold_path;
            &&& b.end_threshold_path is None && r.nodes.end_standard ==> end == Some(
                path::joined(b.root, path::path_of("charge_control_end_threshold"@)),
            )
            &&& b.end_threshold_path is None && !r.nodes.end_standard && r.nodes.end_legacy ==> end
                == Some(path::joined(b.root, path::path_of("charge_stop_threshold"@)))
            &&& end is None <==> b.end_threshold_path is None && !r.nodes.end_standard
                && !r.nodes.end_legacy
        }),
        ({
            let start = updated(b, r).start_threshold_path;
            &&& b.start_threshold_path is None && r.nodes.start_standard ==> start == Some(
                path::joined(b.root, path::path_of("charge_control_start_threshold"@)),
            )
            &&& b.start_threshold_path is None && !r.nodes.start_standard && r.nodes.start_legacy
                ==> start == Some(path::joined(b.root, path::path_of("charge_start_threshold"@)))
            &&& start is None <==> b.start_threshold_path is None && !r.nodes.start_standard
                && !r.nodes.start_legacy
        }),
{
}

/// The files of the thresholds are found under the standard names, then under the legacy ones,
/// and nowhere else.
pub proof fn threshold_files_are_found(root: Seq<u8>, standard: bool, legacy: bool)
    ensures
        end_path(root, standard, legacy) is None <==> !standard && !legacy,
        start_path(root, standard, legacy) is None <==> !standard && !legacy,
        !standard && legacy ==> end_path(root, standard, legacy) == Some(
            path::joined(root, path::path_of("charge_stop_threshold"@)),
        ),
        !standard && legacy ==> start_path(root, standard, legacy) == Some(
            path::joined(root, path::path_of("charge_start_threshold"@)),
        ),
{
}

/// A threshold can be written where its file exists and opens for writing, is read-only where it
/// exists and does not open, and is not supported where there is no file.
pub proof fn support_follows_the_file(has_path: bool, present: bool, opens: bool)
    ensures
        support_of(has_path, present, opens) == ThresholdSupport::Writable <==> has_path && present
            && opens,
        support_of(has_path, present, opens) == ThresholdSupport::ReadOnly <==> has_path && present
            && !opens,
        support_of(has_path, present, opens) == ThresholdSupport::Unsupported <==> !(has_path
            && present),
{
}

/// A discovered battery has the name and the directory of its device and shows its first
/// readings; without a status file its status is `Unknown`, and without a readable charge it has
/// none. All else is what an update with the same readings gives of any battery.
pub proof fn discovered_battery_shows_its_first_readings(
    d: PowerSupplyView,
    n: nat,
    t: Seq<char>,
    any: BatteryView,
)
    ensures
        ({
            let b = discovered(d);
            let u = updated(
                BatteryView {
                    root: d.root,
                    end_threshold_path: None,
                    start_threshold_path: None,
                    ..any
                },
                d.readings,
            );
            &&& b.name == d.name
            &&& b.root == d.root
            &&& b.capacity == Some(n) <==> shows_number(d.readings.capacity, n, 255)
            &&& shows_text(d.readings.status, t) ==> b.status == t
            &&& d.readings.status is None ==> b.status == "Unknown"@
            &&& b == (BatteryView { name: d.name, capacity: b.capacity, status: b.status, ..u })
        }),
{
    let fresh = fresh_battery(d);
    update_shows_the_present_charge_and_status(fresh, d.readings, n, t);
    number_reading_is_what_the_file_shows(d.readings.capacity, n, 255);
}

/// A device is a battery exactly where its `type` file says `Battery`.
pub proof fn battery_is_told_by_its_type(d: PowerSupplyView)
    ensures
        is_battery(d) <==> shows_text(d.kind, "Battery"@),
{
    text_reading_is_what_the_file_shows(d.kind, "Battery"@);
}

/// Discovery takes every battery, no other device, and keeps the order: it treats one device
/// after the other, each by itself.
pub proof fn discovery_treats_each_device_by_itself(
    before: Seq<PowerSupplyView>,
    d: PowerSupplyView,
    after: Seq<PowerSupplyView>,
)
    ensures
        batteries_among(before + seq![d] + after) == batteries_among(before) + (if shows_text(
            d.kind,
            "Battery"@,
        ) {
            seq![discovered(d)]
        } else {
            Seq::empty()
        }) + batteries_among(after),
        batteries_among(Seq::empty()) == Seq::<BatteryView>::empty(),
    decreases after.len(),
{
    battery_is_told_by_its_type(d);
    let all = before + seq![d] + after;
    if after.len() == 0 {
        assert(all.drop_last() =~= before);
        assert(all.last() == d);
        assert(batteries_among(after) =~= Seq::<BatteryView>::empty());
        assert(batteries_among(all) =~= batteries_among(before) + (if is_battery(d) {
            seq![discovered(d)]
        } else {
            Seq::empty()
        }) + batteries_among(after));
    } else {
        let short = after.drop_last();
        discovery_treats_each_device_by_itself(before, d, short);
        assert(all.drop_last() =~= before + seq![d] + short);
        assert(all.last() == after.last());
        assert(batteries_among(all) =~= batteries_among(before) + (if is_battery(d) {
            seq![discovered(d)]
        } else {
            Seq::empty()
        }) + batteries_among(after));
    }
}

} // verus!
