use polygon_csv::batch::Batch;
use polygon_csv::csv::write_csv;
use polygon_csv::date::{date_of_timestamp_ms, Date, MAX_TIMESTAMP_MS};
use polygon_csv::record::Record;

const HEADER: &str = "symbol,date,open,close,low,height,count,volume,volume_weight";

fn row(symbol: &str, date: Date, open: f32, close: f32, low: f32, height: f32, count: i32, volume: f32, vw: f32) -> Record {
    Record {
        symbol: symbol.to_string(),
        date,
        open: format!("{}", open),
        close: format!("{}", close),
        low: format!("{}", low),
        height: format!("{}", height),
        count,
        volume: format!("{}", volume),
        volume_weight: format!("{}", vw),
    }
}

#[test]
fn empty_accumulator_writes_header_only() {
    let batch = Batch::new();
    let out = batch.to_csv();
    assert_eq!(out, format!("{}\n", HEADER));
}

#[test]
fn single_row_exact_output() {
    let date = Date { year: 2024, month: 1, day: 2 };
    let rows = vec![row("NVDA", date, 50.0, 51.5, 49.0, 52.0, 1000, 2000.0, 50.8)];
    let out = write_csv(&rows);
    assert_eq!(out, format!("{}\nNVDA,2024-01-02,50,51.5,49,52,1000,2000,50.8\n", HEADER));
}

#[test]
fn date_is_zero_padded() {
    let rows = vec![row("A", Date { year: 987, month: 3, day: 7 }, 1.0, 1.0, 1.0, 1.0, 1, 1.0, 1.0)];
    let out = write_csv(&rows);
    assert!(out.contains("A,0987-03-07,"));
}

#[test]
fn negative_count_renders_with_sign() {
    let rows = vec![row("A", Date { year: 2024, month: 1, day: 2 }, 1.0, 1.0, 1.0, 1.0, -42, 1.0, 1.0)];
    let out = write_csv(&rows);
    assert!(out.contains(",-42,"));
}

#[test]
fn output_keeps_symbol_and_date_order() {
    // no implicit sorting: lines come out in accumulator order
    let rows = vec![
        row("ZZZ", Date { year: 2024, month: 1, day: 3 }, 1.0, 1.0, 1.0, 1.0, 1, 1.0, 1.0),
        row("ZZZ", Date { year: 2024, month: 1, day: 2 }, 2.0, 2.0, 2.0, 2.0, 2, 2.0, 2.0),
        row("AAA", Date { year: 2023, month: 12, day: 29 }, 3.0, 3.0, 3.0, 3.0, 3, 3.0, 3.0),
    ];
    let out = write_csv(&rows);
    let lines: Vec<&str> = out.lines().collect();
    assert_eq!(lines.len(), 4);
    assert!(lines[1].starts_with("ZZZ,2024-01-03,"));
    assert!(lines[2].starts_with("ZZZ,2024-01-02,"));
    assert!(lines[3].starts_with("AAA,2023-12-29,"));
}

#[test]
fn csv_round_trips_through_a_parser() {
    let rows = vec![
        row("NVDA", Date { year: 2024, month: 1, day: 2 }, 50.0, 51.5, 49.0, 52.0, 1000, 2000.0, 50.8),
        row("NVDA", Date { year: 2024, month: 2, day: 29 }, 51.25, 50.125, 48.5, 52.75, 2345, 31.5, 49.9),
        row("MSFT", Date { year: 2023, month: 11, day: 7 }, 330.0, 331.0, 329.5, 333.0, 999, 12000.0, 330.4),
    ];
    let out = write_csv(&rows);
    let lines: Vec<&str> = out.lines().collect();
    assert_eq!(lines[0], HEADER);
    assert_eq!(lines.len(), rows.len() + 1);
    for (line, r) in lines[1..].iter().zip(rows.iter()) {
        let fields: Vec<&str> = line.split(',').collect();
        assert_eq!(fields.len(), 9);
        assert_eq!(fields[0], r.symbol);
        assert_eq!(
            fields[1],
            format!("{:04}-{:02}-{:02}", r.date.year, r.date.month, r.date.day)
        );
        let close_enough = |text: &str, reference: &str| {
            let a: f32 = text.parse().unwrap();
            let b: f32 = reference.parse().unwrap();
            (a - b).abs() <= f32::EPSILON * a.abs().max(b.abs())
        };
        assert!(close_enough(fields[2], &r.open));
        assert!(close_enough(fields[3], &r.close));
        assert!(close_enough(fields[4], &r.low));
        assert!(close_enough(fields[5], &r.height));
        let count: i32 = fields[6].parse().unwrap();
        assert_eq!(count, r.count);
        assert!(close_enough(fields[7], &r.volume));
        assert!(close_enough(fields[8], &r.volume_weight));
    }
}

#[test]
fn timestamp_to_date_known_values() {
    let d = date_of_timestamp_ms(0).unwrap();
    assert_eq!((d.year, d.month, d.day), (1970, 1, 1));
    // leap day
    let d = date_of_timestamp_ms(1709164800000).unwrap();
    assert_eq!((d.year, d.month, d.day), (2024, 2, 29));
    // time of day is discarded
    let d = date_of_timestamp_ms(1704153600000 + 86399999).unwrap();
    assert_eq!((d.year, d.month, d.day), (2024, 1, 2));
    // the last representable millisecond
    let d = date_of_timestamp_ms(MAX_TIMESTAMP_MS).unwrap();
    assert_eq!((d.year, d.month, d.day), (9999, 12, 31));
}

#[test]
fn timestamp_out_of_range_has_no_date() {
    assert!(date_of_timestamp_ms(-1).is_none());
    assert!(date_of_timestamp_ms(MAX_TIMESTAMP_MS + 1).is_none());
    assert!(date_of_timestamp_ms(i64::MIN).is_none());
    assert!(date_of_timestamp_ms(i64::MAX).is_none());
}
