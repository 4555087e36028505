use battery_health_keeper::battery::{
    check_threshold_support, discover_batteries, end_path_to_probe, find_end_threshold_path,
    find_start_threshold_path, kind_file, read_u8, reading_files, update_battery_readings, Battery,
    PowerSupply, Readings, ThresholdNodes, ThresholdSupport,
};
use battery_health_keeper::keeper::BatteryHealthKeeperApp;
use battery_health_keeper::language::Language;
use battery_health_keeper::limit_run::{LimitAction, LimitEvent, Pending};
use battery_health_keeper::panel::{
    battery_details, battery_summary, format_capacity_info, health_is_computable, panel_details,
    panel_heading,
};
use battery_health_keeper::path::FilePath;
use battery_health_keeper::threshold::{
    apply_charge_limit, format_threshold_error, ThresholdProbe, WriteFailure,
};

fn text(s: &str) -> Option<String> {
    Some(s.to_string())
}

fn nodes(end_standard: bool, end_legacy: bool, start_standard: bool, start_legacy: bool) -> ThresholdNodes {
    ThresholdNodes {
        end_standard,
        end_legacy,
        start_standard,
        start_legacy,
    }
}

fn readings() -> Readings {
    Readings {
        nodes: nodes(true, false, true, false),
        end_exists: true,
        end_opens: true,
        end_threshold: text("80\n"),
        capacity: text("57\n"),
        status: text("Discharging\n"),
        technology: text("Li-poly\n"),
        manufacturer: text("ACME\n"),
        model_name: text("X1 \n"),
        cycle_count: text("123\n"),
        energy_full: text("57150000\n"),
        energy_full_design: text("90060000\n"),
        charge_full: text("5000000\n"),
        charge_full_design: text("6000000\n"),
    }
}

fn blank_readings() -> Readings {
    Readings {
        nodes: nodes(false, false, false, false),
        end_exists: false,
        end_opens: false,
        end_threshold: None,
        capacity: None,
        status: None,
        technology: None,
        manufacturer: None,
        model_name: None,
        cycle_count: None,
        energy_full: None,
        energy_full_design: None,
        charge_full: None,
        charge_full_design: None,
    }
}

fn supply(name: &str, kind: Option<String>, readings: Readings) -> PowerSupply {
    PowerSupply {
        name: name.to_string(),
        root: FilePath::of("/sys/class/power_supply").join(name),
        kind,
        readings,
    }
}

fn battery(name: &str, readings: Readings) -> Battery {
    discover_batteries(&vec![supply(name, text("Battery\n"), readings)])
        .pop()
        .unwrap()
}

fn english() -> Language {
    Language::load_locale("en", &vec![])
}

#[test]
fn test_find_threshold_paths_fallback() {
    let root = FilePath::of("/b");
    assert!(find_end_threshold_path(&root, false, false).is_none());
    assert!(find_start_threshold_path(&root, false, false).is_none());
    assert_eq!(
        find_end_threshold_path(&root, false, true),
        Some(FilePath::of("/b/charge_stop_threshold"))
    );
    assert_eq!(
        find_start_threshold_path(&root, false, true),
        Some(FilePath::of("/b/charge_start_threshold"))
    );
    assert_eq!(
        find_end_threshold_path(&root, true, true),
        Some(FilePath::of("/b/charge_control_end_threshold"))
    );
    assert_eq!(
        find_start_threshold_path(&root, true, true),
        Some(FilePath::of("/b/charge_control_start_threshold"))
    );
}

#[test]
fn test_threshold_support_check() {
    let path = FilePath::of("/nonexistent/sysfs/battery/threshold");
    assert_eq!(
        check_threshold_support(None, true, true),
        ThresholdSupport::Unsupported
    );
    assert_eq!(
        check_threshold_support(Some(&path), false, false),
        ThresholdSupport::Unsupported
    );
    assert_eq!(
        check_threshold_support(Some(&path), true, false),
        ThresholdSupport::ReadOnly
    );
    assert_eq!(
        check_threshold_support(Some(&path), true, true),
        ThresholdSupport::Writable
    );
}

#[test]
fn only_batteries_are_discovered() {
    let found = discover_batteries(&vec![
        supply("AC", text("Mains\n"), blank_readings()),
        supply("BAT1", text("Battery\n"), readings()),
        supply("BAT2", None, readings()),
        supply("BAT0", text(" Battery"), blank_readings()),
        supply("BAT3", text("battery"), readings()),
    ]);
    let names: Vec<&str> = found.iter().map(|b| b.name.as_str()).collect();
    assert_eq!(names, vec!["BAT1", "BAT0"]);
    let b = &found[0];
    assert_eq!(b.root, FilePath::of("/sys/class/power_supply/BAT1"));
    assert_eq!(b.capacity, Some(57));
    assert_eq!(b.status, "Discharging");
    assert_eq!(b.current_threshold, Some(80));
    assert_eq!(b.threshold_support, ThresholdSupport::Writable);
    assert!(b.writable);
    assert_eq!(b.technology.as_deref(), Some("Li-poly"));
    assert_eq!(b.model_name.as_deref(), Some("X1"));
    assert_eq!(b.cycle_count, Some(123));
    assert_eq!(b.full_capacity, Some(57_150_000));
    assert_eq!(b.design_capacity, Some(90_060_000));
    assert_eq!(b.capacity_unit, "Wh");
    let blank = &found[1];
    assert_eq!(blank.capacity, None);
    assert_eq!(blank.status, "Unknown");
    assert_eq!(blank.threshold_support, ThresholdSupport::Unsupported);
    assert!(!blank.writable);
    assert_eq!(blank.capacity_unit, "Ah");
}

#[test]
fn unreadable_charge_and_status_are_kept() {
    let mut b = battery("BAT0", readings());
    let mut r = blank_readings();
    r.capacity = text("300");
    update_battery_readings(&mut b, &r);
    assert_eq!(b.capacity, Some(57));
    assert_eq!(b.status, "Discharging");
    assert_eq!(b.technology, None);
    assert_eq!(b.cycle_count, None);
    assert_eq!(b.full_capacity, None);
    assert_eq!(b.threshold_support, ThresholdSupport::Unsupported);
    assert_eq!(
        b.end_threshold_path,
        Some(FilePath::of(
            "/sys/class/power_supply/BAT0/charge_control_end_threshold"
        ))
    );
}

#[test]
fn charge_counts_where_energy_is_missing() {
    let mut r = readings();
    r.energy_full = text("n/a");
    r.energy_full_design = None;
    let b = battery("BAT0", r);
    assert_eq!(b.full_capacity, Some(5_000_000));
    assert_eq!(b.design_capacity, Some(6_000_000));
    assert_eq!(b.capacity_unit, "Ah");
    let mut r = readings();
    r.energy_full = None;
    let b = battery("BAT0", r);
    assert_eq!(b.full_capacity, None);
    assert_eq!(b.design_capacity, Some(90_060_000));
    assert_eq!(b.capacity_unit, "Wh");
}

#[test]
fn threshold_file_found_later_is_taken() {
    let mut b = battery("BAT0", blank_readings());
    assert!(end_path_to_probe(&b, nodes(false, false, false, false)).is_none());
    let legacy = FilePath::of("/sys/class/power_supply/BAT0/charge_stop_threshold");
    assert_eq!(
        end_path_to_probe(&b, nodes(false, true, false, false)),
        Some(legacy.clone())
    );
    let mut r = readings();
    r.nodes = nodes(false, true, false, true);
    r.end_opens = false;
    update_battery_readings(&mut b, &r);
    assert_eq!(b.end_threshold_path, Some(legacy.clone()));
    assert_eq!(b.threshold_support, ThresholdSupport::ReadOnly);
    // A path once found is kept.
    update_battery_readings(&mut b, &readings());
    assert_eq!(b.end_threshold_path, Some(legacy));
}

#[test]
fn percentages_are_read() {
    assert_eq!(read_u8(&text(" 80\n")), Some(80));
    assert_eq!(read_u8(&text("256")), None);
    assert_eq!(read_u8(&None), None);
}

fn probe(start: Option<&str>) -> ThresholdProbe {
    ThresholdProbe {
        end_exists: true,
        start_exists: true,
        start: start.map(|s| s.to_string()),
    }
}

#[test]
fn start_threshold_is_lowered_where_it_is_in_the_way() {
    let b = battery("BAT0", readings());
    let start_path = FilePath::of("/sys/class/power_supply/BAT0/charge_control_start_threshold");
    for (start, limit, lowered) in [
        ("80\n", 80, Some("75")),
        ("96", 60, Some("55")),
        ("79", 80, None),
        ("0", 3, None),
        ("3", 3, Some("0")),
        ("junk", 60, None),
    ] {
        let writes = apply_charge_limit(&b, limit, &probe(Some(start)), &english())
            .ok()
            .unwrap();
        assert_eq!(
            writes.end.path,
            FilePath::of("/sys/class/power_supply/BAT0/charge_control_end_threshold")
        );
        assert_eq!(writes.end.contents, limit.to_string());
        match (writes.start, lowered) {
            (Some(w), Some(value)) => {
                assert_eq!(w.path, start_path);
                assert_eq!(w.contents, value);
            }
            (None, None) => {}
            _ => panic!("{start} {limit}"),
        }
    }
    let mut gone = probe(Some("90"));
    gone.start_exists = false;
    let writes = apply_charge_limit(&b, 80, &gone, &english()).ok().unwrap();
    assert!(writes.start.is_none());
    assert!(apply_charge_limit(&b, 80, &probe(None), &english())
        .ok()
        .unwrap()
        .start
        .is_none());
}

#[test]
fn battery_without_end_threshold_takes_no_limit() {
    let unsupported = "Battery found, but charge thresholds are not supported by this hardware or kernel driver.";
    let b = battery("BAT0", blank_readings());
    assert_eq!(
        apply_charge_limit(&b, 80, &probe(None), &english()).err(),
        text(unsupported)
    );
    let b = battery("BAT0", readings());
    let mut gone = probe(None);
    gone.end_exists = false;
    assert_eq!(
        apply_charge_limit(&b, 80, &gone, &english()).err(),
        text(unsupported)
    );
}

#[test]
fn failures_are_worded() {
    let denied = WriteFailure {
        permission_denied: true,
        message: "EACCES".to_string(),
    };
    assert_eq!(
        format_threshold_error(&denied, &english()),
        "Permission denied. Grant access to the battery threshold files or run the app with the required permissions."
    );
    let other = WriteFailure {
        permission_denied: false,
        message: "Invalid argument (os error 22)".to_string(),
    };
    assert_eq!(
        format_threshold_error(&other, &english()),
        "Invalid argument (os error 22)"
    );
}

#[test]
fn written_limit_is_shown_by_the_next_look() {
    let mut b = battery("BAT0", readings());
    let writes = apply_charge_limit(&b, 65, &probe(None), &english()).ok().unwrap();
    let mut r = readings();
    r.end_threshold = Some(format!("{}\n", writes.end.contents));
    update_battery_readings(&mut b, &r);
    assert_eq!(b.current_threshold, Some(65));
}

fn read_only() -> Readings {
    let mut r = readings();
    r.end_opens = false;
    r
}

fn app(batteries: Vec<Battery>) -> BatteryHealthKeeperApp {
    BatteryHealthKeeperApp::new(None, None, &vec![], batteries)
}

#[test]
fn scan_messages() {
    let unsupported = "Battery found, but charge thresholds are not supported by this hardware or kernel driver.";
    let denied = "Battery found, but write permission is denied. Run with sudo or configure a udev rule.";
    assert_eq!(
        app(vec![battery("BAT0", blank_readings())]).message,
        unsupported
    );
    assert_eq!(app(vec![battery("BAT0", read_only())]).message, denied);
    assert_eq!(
        app(vec![
            battery("BAT0", read_only()),
            battery("BAT1", blank_readings())
        ])
        .message,
        "2 battery detected"
    );
    let mut a = app(vec![]);
    a.refresh_batteries(vec![battery("BAT0", readings())]);
    assert_eq!(a.message, "1 battery detected");
}

#[test]
fn limit_is_applied_to_every_battery_with_a_threshold() {
    let mut a = app(vec![
        battery("BAT0", readings()),
        battery("BAT1", read_only()),
        battery("BAT2", blank_readings()),
    ]);
    let (mut run, action) = a.apply_limit(70);
    assert!(matches!(action, LimitAction::Probe(0)));
    let action = a.apply_step(&mut run, LimitEvent::Probed(probe(Some("75"))));
    match action {
        LimitAction::Write(place, writes) => {
            assert_eq!(place, 0);
            assert_eq!(writes.start.unwrap().contents, "65");
            assert_eq!(writes.end.contents, "70");
        }
        _ => panic!(),
    }
    let action = a.apply_step(&mut run, LimitEvent::Written(Ok(())));
    assert!(matches!(action, LimitAction::Probe(1)));
    let action = a.apply_step(&mut run, LimitEvent::Probed(probe(None)));
    match action {
        LimitAction::Write(place, writes) => {
            assert_eq!(place, 1);
            assert_eq!(Some(writes.end.path), a.batteries[1].end_threshold_path);
            assert_eq!(writes.end.contents, "70");
        }
        _ => panic!(),
    }
    let action = a.apply_step(&mut run, LimitEvent::Written(Ok(())));
    assert!(matches!(action, LimitAction::Poll));
    let mut new = readings();
    new.end_threshold = text("70");
    let action = a.apply_step(
        &mut run,
        LimitEvent::Polled(vec![new, read_only(), blank_readings()]),
    );
    assert!(matches!(action, LimitAction::Done));
    assert_eq!(run.pending, Pending::Nothing);
    assert_eq!(a.message, "Charge limit applied: 70%");
    assert_eq!(a.batteries[0].current_threshold, Some(70));
}

#[test]
fn read_only_battery_beside_a_writable_one_is_reported() {
    let mut a = app(vec![
        battery("BAT0", read_only()),
        battery("BAT1", readings()),
    ]);
    let (mut run, action) = a.apply_limit(70);
    assert!(matches!(action, LimitAction::Probe(0)));
    let action = a.apply_step(&mut run, LimitEvent::Probed(probe(None)));
    assert!(matches!(action, LimitAction::Write(0, _)));
    let action = a.apply_step(
        &mut run,
        LimitEvent::Written(Err(WriteFailure {
            permission_denied: true,
            message: "Permission denied (os error 13)".to_string(),
        })),
    );
    assert!(matches!(action, LimitAction::Probe(1)));
    a.apply_step(&mut run, LimitEvent::Probed(probe(None)));
    a.apply_step(&mut run, LimitEvent::Written(Ok(())));
    a.apply_step(&mut run, LimitEvent::Polled(vec![read_only(), readings()]));
    assert_eq!(
        a.message,
        "Could not set thresholds: BAT0: Permission denied. Grant access to the battery threshold files or run the app with the required permissions."
    );
}

#[test]
fn errors_of_all_batteries_are_reported() {
    let mut a = app(vec![
        battery("BAT0", readings()),
        battery("BAT1", readings()),
        battery("BAT2", readings()),
    ]);
    let (mut run, _) = a.apply_limit(100);
    let mut gone = probe(None);
    gone.end_exists = false;
    let action = a.apply_step(&mut run, LimitEvent::Probed(gone));
    assert!(matches!(action, LimitAction::Probe(1)));
    a.apply_step(&mut run, LimitEvent::Probed(probe(None)));
    a.apply_step(
        &mut run,
        LimitEvent::Written(Err(WriteFailure {
            permission_denied: false,
            message: "busy".to_string(),
        })),
    );
    a.apply_step(&mut run, LimitEvent::Probed(probe(None)));
    let action = a.apply_step(&mut run, LimitEvent::Written(Ok(())));
    assert!(matches!(action, LimitAction::Poll));
    a.apply_step(
        &mut run,
        LimitEvent::Polled(vec![readings(), readings(), readings()]),
    );
    assert_eq!(
        a.message,
        "Could not set thresholds: BAT0: Battery found, but charge thresholds are not supported by this hardware or kernel driver.; BAT1: busy"
    );
}

#[test]
fn reset_chooses_one_hundred_percent() {
    let mut a = app(vec![battery("BAT0", readings())]);
    let (mut run, action) = a.reset_limit();
    assert_eq!(a.charge_limit, 100);
    assert!(matches!(action, LimitAction::Probe(0)));
    a.apply_step(&mut run, LimitEvent::Probed(probe(None)));
    a.apply_step(&mut run, LimitEvent::Written(Ok(())));
    a.apply_step(&mut run, LimitEvent::Polled(vec![readings()]));
    assert_eq!(a.message, "Charge limit reset to 100%");
}

#[test]
fn run_without_a_writable_battery_ends_at_once() {
    let mut a = app(vec![battery("BAT0", blank_readings())]);
    let (_, action) = a.apply_limit(70);
    assert!(matches!(action, LimitAction::Done));
    assert_eq!(
        a.message,
        "Battery found, but charge thresholds are not supported by this hardware or kernel driver."
    );
    let mut a = app(vec![]);
    a.apply_limit(70);
    assert_eq!(
        a.message,
        "Battery found, but charge thresholds are not supported by this hardware or kernel driver."
    );
    let mut a = app(vec![
        battery("BAT0", blank_readings()),
        battery("BAT1", read_only()),
    ]);
    let (_, action) = a.apply_limit(70);
    assert!(matches!(action, LimitAction::Done));
    assert_eq!(
        a.message,
        "Battery found, but write permission is denied. Run with sudo or configure a udev rule."
    );
}

#[test]
fn capacity_lines() {
    let en = english();
    let mut b = battery("BAT0", readings());
    assert_eq!(
        format_capacity_info(&b, &en),
        "57.1 Wh / 90.1 Wh design (63%)"
    );
    b.design_capacity = Some(0);
    assert_eq!(format_capacity_info(&b, &en), "57.1 Wh / 0.0 Wh design");
    b.design_capacity = None;
    assert_eq!(format_capacity_info(&b, &en), "57.1 Wh");
    b.full_capacity = None;
    assert_eq!(format_capacity_info(&b, &en), "N/A");
    b.design_capacity = Some(90_060_000);
    assert_eq!(format_capacity_info(&b, &en), "90.1 Wh design");
    b.full_capacity = Some(u64::MAX / 100 + 1);
    assert!(!health_is_computable(&b));
    b.full_capacity = Some(u64::MAX / 100);
    assert!(health_is_computable(&b));
}

#[test]
fn battery_summaries() {
    let en = english();
    let mut b = battery("BAT0", readings());
    assert_eq!(
        battery_summary(&b, &en),
        "BAT0: 57% (discharging, Active limit: 80%, thresholds writable)"
    );
    b.capacity = None;
    b.current_threshold = None;
    b.threshold_support = ThresholdSupport::ReadOnly;
    assert_eq!(
        battery_summary(&b, &en),
        "BAT0: 0% (discharging, permission required)"
    );
    b.threshold_support = ThresholdSupport::Unsupported;
    assert_eq!(
        battery_summary(&b, &en),
        "BAT0: 0% (discharging, not supported)"
    );
}

#[test]
fn battery_detail_lines() {
    let en = english();
    let b = battery("BAT0", readings());
    assert_eq!(
        battery_details(&b, false, &en),
        vec![
            "Battery type: Li-poly (ACME, X1)",
            "Charge cycles (total): 123",
            "Full capacity: 57.1 Wh / 90.1 Wh design (63%)",
        ]
    );
    let blank = battery("BAT1", blank_readings());
    assert_eq!(
        battery_details(&blank, true, &en),
        vec![
            "BAT1 — Battery type: ? (?, ?)",
            "BAT1 — Charge cycles (total): N/A",
            "BAT1 — Full capacity: N/A",
        ]
    );
}

#[test]
fn panel_lists_every_battery() {
    let en = english();
    assert_eq!(panel_heading(&vec![], &en), vec!["No battery detected"]);
    assert!(panel_details(&vec![], &en).is_empty());
    let one = vec![battery("BAT0", readings())];
    assert_eq!(panel_heading(&one, &en).len(), 1);
    assert_eq!(
        panel_details(&one, &en)[0],
        "Battery type: Li-poly (ACME, X1)"
    );
    let two = vec![battery("BAT0", readings()), battery("BAT1", readings())];
    assert_eq!(panel_heading(&two, &en).len(), 2);
    let details = panel_details(&two, &en);
    assert_eq!(details.len(), 6);
    assert_eq!(details[3], "BAT1 — Battery type: Li-poly (ACME, X1)");
}

#[test]
fn readings_come_from_their_files() {
    let root = FilePath::of("/b");
    assert_eq!(kind_file(&root), FilePath::of("/b/type"));
    let files = reading_files(&root);
    let names = [
        "capacity", "status", "technology", "manufacturer", "model_name", "cycle_count",
        "energy_full", "energy_full_design", "charge_full", "charge_full_design",
    ];
    let expected: Vec<FilePath> = names.iter().map(|name| root.join(name)).collect();
    assert_eq!(files, expected);
    let contents: Vec<Option<String>> = names.iter().map(|name| text(name)).collect();
    let r = Readings::from_files(nodes(true, false, false, true), true, false, text("80"), &contents);
    assert_eq!(r.nodes, nodes(true, false, false, true));
    assert!(r.end_exists && !r.end_opens);
    assert_eq!(r.end_threshold, text("80"));
    assert_eq!(r.capacity, text("capacity"));
    assert_eq!(r.status, text("status"));
    assert_eq!(r.technology, text("technology"));
    assert_eq!(r.manufacturer, text("manufacturer"));
    assert_eq!(r.model_name, text("model_name"));
    assert_eq!(r.cycle_count, text("cycle_count"));
    assert_eq!(r.energy_full, text("energy_full"));
    assert_eq!(r.energy_full_design, text("energy_full_design"));
    assert_eq!(r.charge_full, text("charge_full"));
    assert_eq!(r.charge_full_design, text("charge_full_design"));
}
