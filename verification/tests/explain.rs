use vortex_core::explain::{batch_values, plan_partitions, probe_scan_output_rows};

const PLAN: &str = "HashJoinExec: mode=CollectLeft, metrics=[output_rows=2, elapsed=1ms]\n\
    DataSourceExec: file_groups={1 group: [[dim.vortex]]}, metrics=[output_rows=2, x=1]\r\n\
    DataSourceExec: file_groups={12 groups: [[fact.vortex]]}, metrics=[output_rows= 10.00 K ]\n\
    DataSourceExec: file_groups={3 groups: [[fact.vortex]]}, metrics=[output_rows=7]";

#[test]
fn rows_are_read_from_the_first_line_on_the_file() {
    assert_eq!(probe_scan_output_rows(PLAN, "dim.vortex"), Ok("2".to_string()));
    assert_eq!(probe_scan_output_rows(PLAN, "fact.vortex"), Ok("10.00 K ]".to_string()));
    assert_eq!(probe_scan_output_rows(PLAN, ""), Ok("2".to_string()));
}

#[test]
fn rows_end_at_a_comma_or_the_line() {
    let plan = "DataSourceExec: f.vortex output_rows=\u{3000}10.00 K\u{a0}, output_bytes=1\n";
    assert_eq!(probe_scan_output_rows(plan, "f.vortex"), Ok("10.00 K".to_string()));
    let plan = "DataSourceExec: f.vortex é output_rows=5";
    assert_eq!(probe_scan_output_rows(plan, "f.vortex"), Ok("5".to_string()));
    let plan = "DataSourceExec: f.vortex output_rows=";
    assert_eq!(probe_scan_output_rows(plan, "f.vortex"), Ok(String::new()));
}

#[test]
fn what_is_missing_is_named() {
    assert_eq!(
        probe_scan_output_rows("a\nb", "f.vortex"),
        Err("no DataSourceExec for f.vortex in:\na\nb".to_string())
    );
    assert_eq!(
        probe_scan_output_rows("x\nDataSourceExec: f.vortex\r\ny", "f.vortex"),
        Err("no output_rows in: DataSourceExec: f.vortex".to_string())
    );
    // The carriage return before a line feed is no part of the line.
    assert!(probe_scan_output_rows("DataSourceExec output_rows=1 f\r\n", "f\r").is_err());
    assert!(probe_scan_output_rows("DataSourceExec output_rows=1 f\r", "f\r").is_ok());
}

#[test]
fn partitions_are_counted_in_the_first_scan() {
    assert_eq!(plan_partitions(PLAN), Ok(1));
    assert_eq!(plan_partitions("é DataSourceExec: file_groups={12 groups"), Ok(12));
    assert_eq!(
        plan_partitions("DataSourceExec: nothing"),
        Err("EXPLAIN plan did not contain a DataSourceExec".to_string())
    );
    assert_eq!(
        plan_partitions("DataSourceExec: file_groups={x"),
        Err("cannot parse integer from empty string".to_string())
    );
    assert_eq!(
        plan_partitions("DataSourceExec: file_groups={99999999999999999999999"),
        Err("number too large to fit in target type".to_string())
    );
}

#[test]
fn batches_are_read_in_order() {
    assert_eq!(batch_values(&[vec![3, 1], vec![], vec![2]]), vec![3, 1, 2]);
    assert_eq!(batch_values(&[]), Vec::<i32>::new());
}
