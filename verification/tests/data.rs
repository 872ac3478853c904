use xsar_display::data::{
    build_column_map, display_name_for, parse_reader, parse_record, required_cell, run_from_table,
    sentinel_for_field, Column, CsvTable, LoadError, RowError, Sentinel,
};
use xsar_display::parameters::field;

const HEADER: &str =
    "timestamp,Vtrack,VccEst,BmpC,BmpPa,BmpMslpPa,V0,R0,T0,T0sh,V1,R1,T1,T1sh,V2,R2,T2,T2sh\n";

const ROW_0: &str = "2026-07-22 10:00:00,2.5,5.14,24.0,94000,101000,2.8,10000,24.2,24.1,2.7,4700,24.3,24.2,2.9,10010,24.1,24.0\n";
const ROW_3: &str = "2026-07-22 10:00:03,2.5,5.14,24.1,94001,101001,2.8,10001,24.3,24.2,2.7,4701,24.4,24.3,2.9,10011,24.2,24.1\n";

fn strings(cells: &[&str]) -> Vec<String> {
    cells.iter().map(|c| c.to_string()).collect()
}

fn header_cells() -> Vec<String> {
    strings(HEADER.trim_end().split(',').collect::<Vec<_>>().as_slice())
}

#[test]
fn elapsed_time_is_relative_to_each_run() {
    let csv = format!(
        "{HEADER}2026-07-22 10:00:00,2.5,5.14,24.0,94000,101000,2.8,10000,24.2,24.1,2.7,4700,24.3,24.2,2.9,10010,24.1,24.0\n\
         2026-07-22 10:00:03,2.5,5.14,24.1,94001,101001,2.8,10001,24.3,24.2,2.7,4701,24.4,24.3,2.9,10011,24.2,24.1\n"
    );

    let report = parse_reader(csv.as_bytes(), "run.csv".to_string()).unwrap();

    assert_eq!(report.run.samples.len(), 2);
    assert_eq!(report.run.samples[0].elapsed_milliseconds as f64 / 1000.0, 0.0);
    assert_eq!(report.run.samples[1].elapsed_milliseconds as f64 / 1000.0, 3.0);
    assert_eq!(report.run.samples[0].values[field::BMP_C].parse::<f64>().unwrap(), 24.0);
}

#[test]
fn malformed_rows_are_skipped_without_discarding_the_run() {
    let csv = format!(
        "{HEADER}bad timestamp,2.5,5.14,24.0,94000,101000,2.8,10000,24.2,24.1,2.7,4700,24.3,24.2,2.9,10010,24.1,24.0\n\
         2026-07-22 10:00:03,2.5,5.14,24.1,94001,101001,2.8,10001,24.3,24.2,2.7,4701,24.4,24.3,2.9,10011,24.2,24.1\n"
    );

    let report = parse_reader(csv.as_bytes(), "run.csv".to_string()).unwrap();

    assert_eq!(report.skipped_rows, 1);
    assert_eq!(report.run.samples.len(), 1);
}

#[test]
fn first_valid_row_sets_start_and_provenance() {
    let csv = format!("{HEADER}{ROW_3}{ROW_0}");
    let report = parse_reader(csv.as_bytes(), "/data/captures/run.csv".to_string()).unwrap();
    assert_eq!(report.skipped_rows, 0);
    assert_eq!(report.run.started_at, "2026-07-22 10:00:03");
    assert_eq!(report.run.ended_at, "2026-07-22 10:00:00");
    assert_eq!(report.run.source_path, "/data/captures/run.csv");
    assert_eq!(report.run.display_name, "run.csv");
    // logger order is kept, so an earlier timestamp later in the file is negative
    assert_eq!(report.run.samples[0].elapsed_milliseconds, 0);
    assert_eq!(report.run.samples[1].elapsed_milliseconds, -3000);
    assert_eq!(report.run.duration_milliseconds(), -3000);
}

#[test]
fn elapsed_time_crosses_midnight() {
    let late = ROW_0.replace("2026-07-22 10:00:00", "2026-07-22 23:59:59");
    let early = ROW_0.replace("2026-07-22 10:00:00", "2026-07-23 00:00:01");
    let csv = format!("{HEADER}{late}{early}");
    let report = parse_reader(csv.as_bytes(), "run.csv".to_string()).unwrap();
    assert_eq!(report.run.samples[1].elapsed_milliseconds, 2000);
}

#[test]
fn cells_are_trimmed_before_reading() {
    let spaced = ROW_3.replace(",24.1,94001", ",  24.1  ,94001").replace("2026-07-22 10:00:03,", " 2026-07-22 10:00:03 ,");
    let csv = format!("{HEADER}{ROW_0}{spaced}");
    let report = parse_reader(csv.as_bytes(), "run.csv".to_string()).unwrap();
    assert_eq!(report.skipped_rows, 0);
    assert_eq!(report.run.samples[1].values[field::BMP_C], "24.1");
    assert_eq!(report.run.samples[1].elapsed_milliseconds, 3000);
    assert_eq!(report.run.ended_at, "2026-07-22 10:00:03");
}

#[test]
fn rows_with_bad_numbers_or_lengths_are_skipped() {
    let bad_number = ROW_3.replace(",24.1,94001", ",warm,94001");
    let short = "2026-07-22 10:00:04,2.5\n";
    let csv = format!("{HEADER}{ROW_0}{bad_number}{short}{ROW_3}");
    let report = parse_reader(csv.as_bytes(), "run.csv".to_string()).unwrap();
    assert_eq!(report.skipped_rows, 2);
    assert_eq!(report.run.samples.len(), 2);
    assert_eq!(report.run.samples[1].elapsed_milliseconds, 3000);
}

#[test]
fn no_valid_rows_is_an_error() {
    let csv = format!("{HEADER}bad,1,2,3,4,5,6,7,8,9,10,11,12,13,14,15,16,17\n");
    assert!(matches!(
        parse_reader(csv.as_bytes(), "run.csv".to_string()),
        Err(LoadError::NoValidRows)
    ));
    assert!(matches!(
        parse_reader(HEADER.as_bytes(), "run.csv".to_string()),
        Err(LoadError::NoValidRows)
    ));
}

#[test]
fn missing_columns_are_reported_in_schema_order() {
    let without_bmp = HEADER.replace(",BmpC,", ",Bmp,").replace(",T2sh", ",X");
    let csv = format!("{without_bmp}{ROW_0}");
    assert!(matches!(
        parse_reader(csv.as_bytes(), "run.csv".to_string()),
        Err(LoadError::MissingColumn(Column::Field(2)))
    ));
    let without_time = HEADER.replace("timestamp,", "time,");
    let csv = format!("{without_time}{ROW_0}");
    assert!(matches!(
        parse_reader(csv.as_bytes(), "run.csv".to_string()),
        Err(LoadError::MissingColumn(Column::Timestamp))
    ));
    assert!(matches!(
        parse_reader(b"", "run.csv".to_string()),
        Err(LoadError::MissingColumn(Column::Timestamp))
    ));
}

#[test]
fn unreadable_header_is_an_error() {
    let bytes: &[u8] = b"time\xff\xfestamp,Vtrack\n1,2\n";
    assert!(matches!(
        parse_reader(bytes, "run.csv".to_string()),
        Err(LoadError::HeaderUnreadable(_))
    ));
}

#[test]
fn columns_are_found_at_their_first_header() {
    let mut headers = strings(&["BmpC", "x"]);
    headers.extend(header_cells());
    let map = build_column_map(&headers).unwrap();
    assert_eq!(map.timestamp, 2);
    assert_eq!(map.fields.len(), 17);
    assert_eq!(map.fields[field::BMP_C], 0);
    assert_eq!(map.fields[field::VTRACK], 3);
    assert_eq!(map.fields[field::T2_SH], 19);
}

#[test]
fn records_are_checked_timestamp_first_then_fields_in_order() {
    let map = build_column_map(&header_cells()).unwrap();
    let good = strings(ROW_0.trim_end().split(',').collect::<Vec<_>>().as_slice());
    let row = parse_record(&good, &map).unwrap();
    assert_eq!(row.timestamp, "2026-07-22 10:00:00");
    assert_eq!(row.values.len(), 17);
    assert_eq!(row.values[field::R2], "10010");

    let mut bad = good.clone();
    bad[0] = "2026-13-40 10:00:00".to_string();
    bad[5] = "x".to_string();
    assert_eq!(parse_record(&bad, &map).err(), Some(RowError::InvalidTimestamp));

    let mut bad = good.clone();
    bad[5] = "x".to_string();
    bad[9] = "y".to_string();
    assert_eq!(parse_record(&bad, &map).err(), Some(RowError::InvalidNumber(4)));

    let short = good[..6].to_vec();
    assert_eq!(
        parse_record(&short, &map).err(),
        Some(RowError::MissingCell(Column::Field(field::V0)))
    );
    assert_eq!(
        parse_record(&Vec::new(), &map).err(),
        Some(RowError::MissingCell(Column::Timestamp))
    );
}

#[test]
fn required_cell_reads_by_column() {
    let map = build_column_map(&header_cells()).unwrap();
    let good = strings(ROW_0.trim_end().split(',').collect::<Vec<_>>().as_slice());
    assert_eq!(required_cell(&good, &map, Column::Field(field::BMP_C)).unwrap(), "24.0");
    assert_eq!(required_cell(&good, &map, Column::Timestamp).unwrap(), "2026-07-22 10:00:00");
    assert_eq!(
        required_cell(&good[..2].to_vec(), &map, Column::Field(field::BMP_C)).err(),
        Some(RowError::MissingCell(Column::Field(field::BMP_C)))
    );
}

#[test]
fn display_name_falls_back_to_sensor_run() {
    assert_eq!(display_name_for(Some("a.csv".to_string())), "a.csv");
    assert_eq!(display_name_for(None), "sensor run");
    let csv = format!("{HEADER}{ROW_0}");
    let report = parse_reader(csv.as_bytes(), "/data/..".to_string()).unwrap();
    assert_eq!(report.run.display_name, "sensor run");
}

#[test]
fn sentinels_by_field() {
    for f in [field::T0_BETA, field::T0_SH, field::T1_BETA, field::T1_SH, field::T2_BETA, field::T2_SH] {
        assert_eq!(sentinel_for_field(f), Some(Sentinel::Temperature));
    }
    for f in [field::R0, field::R1, field::R2] {
        assert_eq!(sentinel_for_field(f), Some(Sentinel::Resistance));
    }
    for f in [field::VTRACK, field::VCC_EST, field::BMP_C, field::BMP_PA, field::BMP_MSLP_PA, field::V0, field::V1, field::V2] {
        assert_eq!(sentinel_for_field(f), None);
    }
}

fn cells(line: &str) -> Vec<String> {
    strings(line.trim_end().split(',').collect::<Vec<_>>().as_slice())
}

#[test]
fn timestamps_are_kept_in_canonical_form() {
    let loose = ROW_0.replace("2026-07-22 10:00:00", "2026-7-22 10:00:00");
    let csv = format!("{HEADER}{loose}{ROW_3}");
    let report = parse_reader(csv.as_bytes(), "run.csv".to_string()).unwrap();
    assert_eq!(report.run.started_at, "2026-07-22 10:00:00");
    assert_eq!(report.run.ended_at, "2026-07-22 10:00:03");
    assert_eq!(report.run.samples[1].elapsed_milliseconds, 3000);
}

#[test]
fn runs_are_built_from_read_tables() {
    let table = CsvTable {
        headers: Ok(header_cells()),
        rows: vec![None, Some(cells(ROW_0)), Some(cells("x,1")), Some(cells(ROW_3))],
    };
    let report = run_from_table(&table, "/logs/a.csv".to_string(), None).unwrap();
    assert!(report.run.samples.iter().all(|s| s.values.len() == 17));
    assert_eq!(report.skipped_rows, 2);
    assert_eq!(report.run.display_name, "sensor run");
    assert_eq!(report.run.source_path, "/logs/a.csv");
    assert_eq!(report.run.samples.len(), 2);
    assert_eq!(report.run.samples[1].elapsed_milliseconds, 3000);

    let unread = CsvTable { headers: Err("bad header".to_string()), rows: vec![Some(cells(ROW_0))] };
    match run_from_table(&unread, "a".to_string(), None) {
        Err(LoadError::HeaderUnreadable(message)) => assert_eq!(message, "bad header"),
        _ => panic!("expected a header error"),
    }
}

#[test]
fn reordered_columns_give_the_same_run() {
    // move the timestamp to the end and add a column that the schema does not use
    let reorder = |line: &str| {
        let mut c = cells(line);
        let ts = c.remove(0);
        c.push(ts);
        c.insert(3, "note".to_string());
        c
    };
    let plain = CsvTable {
        headers: Ok(header_cells()),
        rows: vec![Some(cells(ROW_0)), Some(cells(ROW_3))],
    };
    let moved = CsvTable {
        headers: Ok(reorder(HEADER)),
        rows: vec![Some(reorder(ROW_0)), Some(reorder(ROW_3))],
    };
    let a = run_from_table(&plain, "p".to_string(), None).unwrap();
    let b = run_from_table(&moved, "p".to_string(), None).unwrap();
    assert_eq!(a.skipped_rows, b.skipped_rows);
    assert_eq!(a.run.started_at, b.run.started_at);
    for (x, y) in a.run.samples.iter().zip(b.run.samples.iter()) {
        assert_eq!(x.elapsed_milliseconds, y.elapsed_milliseconds);
        assert_eq!(x.values, y.values);
    }
}

#[test]
fn run_is_named_after_the_file() {
    let csv = format!("{HEADER}{ROW_0}");
    let named = |path: &str| parse_reader(csv.as_bytes(), path.to_string()).unwrap().run.display_name;
    assert_eq!(named("/tmp/a/run.csv"), "run.csv");
    assert_eq!(named("run.csv"), "run.csv");
    assert_eq!(named("logs/b.csv/"), "b.csv");
    assert_eq!(named("/"), "sensor run");
    assert_eq!(named(""), "sensor run");
}

#[test]
fn unreadable_header_keeps_the_csv_message() {
    let bytes: &[u8] = b"time\xff\xfestamp,Vtrack\n1,2\n";
    match parse_reader(bytes, "run.csv".to_string()) {
        Err(LoadError::HeaderUnreadable(message)) => assert!(!message.is_empty()),
        _ => panic!("expected a header error"),
    }
}
