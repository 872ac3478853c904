use xsar_display::data::{Sample, SensorRun};
use xsar_display::parameters::{field, field_header, field_spec, Rgb, Rgba, FIELD_COUNT, MAX_LOADED_RUNS};
use xsar_display::session::{colour_for_run, GroupVisibility, LoadedRuns, NtcModel};

fn run(name: &str, elapsed: &[i64]) -> SensorRun {
    SensorRun {
        source_path: format!("/tmp/{name}"),
        display_name: name.to_string(),
        started_at: "2026-07-22 10:00:00".to_string(),
        ended_at: "2026-07-22 10:00:00".to_string(),
        samples: elapsed
            .iter()
            .map(|ms| Sample { elapsed_milliseconds: *ms, values: vec!["0".to_string(); 17] })
            .collect(),
    }
}

#[test]
fn model_labels() {
    assert_eq!(NtcModel::Beta.label(), "β model");
    assert_eq!(NtcModel::SteinhartHart.label(), "Steinhart–Hart");
    assert_eq!(NtcModel::Both.label(), "Both models");
}

#[test]
fn temperature_fields_start_with_the_reference() {
    assert_eq!(
        NtcModel::Beta.temperature_fields(),
        vec![field::BMP_C, field::T0_BETA, field::T1_BETA, field::T2_BETA]
    );
    assert_eq!(
        NtcModel::SteinhartHart.temperature_fields(),
        vec![field::BMP_C, field::T0_SH, field::T1_SH, field::T2_SH]
    );
    assert_eq!(
        NtcModel::Both.temperature_fields(),
        vec![field::BMP_C, field::T0_BETA, field::T0_SH, field::T1_BETA, field::T1_SH, field::T2_BETA, field::T2_SH]
    );
}

#[test]
fn residual_fields_drop_the_reference() {
    for model in [NtcModel::Beta, NtcModel::SteinhartHart, NtcModel::Both] {
        let all = model.temperature_fields();
        let residual = model.ntc_temperature_fields();
        assert_eq!(residual, all[1..].to_vec());
        assert!(!residual.contains(&field::BMP_C));
    }
}

#[test]
fn default_groups() {
    let groups = GroupVisibility::default();
    assert!(groups.temperatures && groups.temperature_delta && groups.voltages);
    assert!(!groups.resistances && !groups.pressure);
}

#[test]
fn run_colours_cycle_alpha() {
    let base = Rgb { r: 1, g: 2, b: 3 };
    let alphas: Vec<u8> = (0..6).map(|i| colour_for_run(base, i).a).collect();
    assert_eq!(alphas, vec![255, 205, 165, 125, 255, 205]);
    assert_eq!(colour_for_run(base, 2), Rgba { r: 1, g: 2, b: 3, a: 165 });
}

#[test]
fn schema_fields() {
    assert_eq!(FIELD_COUNT, 17);
    assert_eq!(field_header(field::BMP_MSLP_PA), "BmpMslpPa");
    let spec = field_spec(field::T1_BETA);
    assert_eq!(spec.header, "T1");
    assert_eq!(spec.label, "A1 β");
    assert_eq!(spec.colour, Rgb { r: 100, g: 220, b: 120 });
    assert_eq!(field_spec(field::BMP_C).label, "BMP180 reference");
    for i in 0..FIELD_COUNT {
        assert_eq!(field_spec(i).header, field_header(i));
    }
}

#[test]
fn added_run_is_selected_until_the_limit() {
    let mut runs = LoadedRuns::new();
    assert!(runs.is_empty());
    assert_eq!(runs.selected_run_name(), "No run selected");
    for i in 0..MAX_LOADED_RUNS {
        assert!(!runs.is_full());
        assert!(runs.add_run(run(&format!("r{i}"), &[0, 1000])));
        assert_eq!(runs.selected_index(), Some(i));
        assert_eq!(runs.selected_run_name(), format!("r{i}"));
    }
    assert!(runs.is_full());
    assert!(!runs.add_run(run("extra", &[0])));
    assert_eq!(runs.len(), MAX_LOADED_RUNS);
    assert_eq!(runs.selected_index(), Some(MAX_LOADED_RUNS - 1));
}

#[test]
fn removing_selects_the_first_remaining_run() {
    let mut runs = LoadedRuns::new();
    assert!(runs.remove_selected().is_none());
    runs.add_run(run("a", &[0]));
    runs.add_run(run("b", &[0]));
    runs.add_run(run("c", &[0]));
    runs.select(1);
    runs.select(7);
    assert_eq!(runs.selected_index(), Some(1));
    let removed = runs.remove_selected().unwrap();
    assert_eq!(removed.display_name, "b");
    assert_eq!(runs.selected_index(), Some(0));
    let names: Vec<&str> = runs.runs().iter().map(|r| r.display_name.as_str()).collect();
    assert_eq!(names, vec!["a", "c"]);
    runs.remove_selected();
    runs.remove_selected();
    assert!(runs.is_empty());
    assert_eq!(runs.selected_index(), None);
    assert!(runs.selected_run().is_none());
}

#[test]
fn clearing_forgets_runs_and_selection() {
    let mut runs = LoadedRuns::new();
    runs.add_run(run("a", &[0, 5]));
    runs.clear();
    assert!(runs.is_empty());
    assert_eq!(runs.selected_index(), None);
    assert_eq!(runs.maximum_duration_milliseconds(), 0);
}

#[test]
fn maximum_duration_is_the_longest_run_or_zero() {
    let mut runs = LoadedRuns::new();
    assert_eq!(runs.maximum_duration_milliseconds(), 0);
    runs.add_run(run("a", &[0, 4000]));
    runs.add_run(run("b", &[0, 9000, 7000]));
    runs.add_run(run("c", &[]));
    assert_eq!(runs.maximum_duration_milliseconds(), 7000);
    let mut negative = LoadedRuns::new();
    negative.add_run(run("n", &[0, -3000]));
    assert_eq!(negative.maximum_duration_milliseconds(), 0);
    assert_eq!(runs.selected_run().unwrap().display_name, "c");
}
