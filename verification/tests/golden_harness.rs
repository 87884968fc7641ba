//! The golden-export harness: which columns of an exported CSV are compared,
//! how CSV rows are split, and how two cells are compared.

use std::collections::BTreeMap;

const TOLERANCE: f64 = 1e-6;

#[derive(Debug, Clone, Copy, PartialEq, Eq)]
struct TradingViewGoldenCase {
    family: &'static str,
    file_name: &'static str,
    columns: &'static [&'static str],
}

const SOURCE_ALIGNED_GOLDEN_CASES: &[TradingViewGoldenCase] = &[
    TradingViewGoldenCase {
        family: "volume_liquidity_sweep",
        file_name: "volume_liquidity_sweep.csv",
        columns: &[
            "bar_index",
            "bull_signal",
            "bear_signal",
            "bull_level",
            "bear_level",
        ],
    },
    TradingViewGoldenCase {
        family: "volumetric_trend_ribbon",
        file_name: "volumetric_trend_ribbon.csv",
        columns: &[
            "bar_index",
            "base",
            "vwsd",
            "upper",
            "lower",
            "side",
            "bull_cross",
            "bear_cross",
        ],
    },
    TradingViewGoldenCase {
        family: "wyckoff_phase",
        file_name: "wyckoff_phase.csv",
        columns: &[
            "bar_index",
            "range_high",
            "range_low",
            "range_position",
            "volume_ratio",
            "trend_slope_pct",
            "phase",
        ],
    },
];

fn schema(family: &str) -> &'static TradingViewGoldenCase {
    SOURCE_ALIGNED_GOLDEN_CASES
        .iter()
        .find(|case| case.family == family)
        .unwrap_or_else(|| panic!("{family} is missing from SOURCE_ALIGNED_GOLDEN_CASES"))
}

fn parse_csv_row(line: &str) -> Result<Vec<String>, String> {
    let mut fields = Vec::new();
    let mut field = String::new();
    let mut chars = line.chars().peekable();
    let mut in_quotes = false;
    let mut after_quote = false;

    while let Some(ch) = chars.next() {
        if in_quotes {
            match ch {
                '"' if chars.peek() == Some(&'"') => {
                    chars.next();
                    field.push('"');
                }
                '"' => {
                    in_quotes = false;
                    after_quote = true;
                }
                _ => field.push(ch),
            }
            continue;
        }

        if after_quote {
            match ch {
                ',' => {
                    fields.push(std::mem::take(&mut field));
                    after_quote = false;
                }
                ' ' | '\t' => {}
                _ => return Err(format!("unexpected character {ch:?} after closing quote")),
            }
            continue;
        }

        match ch {
            ',' => fields.push(std::mem::take(&mut field)),
            '"' if field.is_empty() => in_quotes = true,
            '"' => return Err("quote inside unquoted field".to_string()),
            _ => field.push(ch),
        }
    }

    if in_quotes {
        return Err("unterminated quoted field".to_string());
    }

    fields.push(field);
    Ok(fields)
}

fn comparable_indicator_columns<'a>(
    schema: &'a TradingViewGoldenCase,
    expected: &[BTreeMap<String, String>],
) -> Result<Vec<&'a str>, String> {
    let Some(first_row) = expected.first() else {
        return Ok(schema
            .columns
            .iter()
            .copied()
            .filter(|column| *column != "bar_index")
            .collect());
    };
    let comparable = schema
        .columns
        .iter()
        .copied()
        .filter(|column| *column != "bar_index" && first_row.contains_key(*column))
        .collect::<Vec<_>>();
    if comparable.is_empty() {
        return Err(format!(
            "{} expected CSV must include at least one declared indicator column; declared columns: {}",
            schema.family,
            schema.columns.join(",")
        ));
    }
    Ok(comparable)
}

fn assert_cell_close(family: &str, row_idx: usize, column: &str, expected: &str, actual: &str) {
    if expected == actual {
        return;
    }
    let expected_number = parse_number_cell(expected);
    let actual_number = parse_number_cell(actual);
    if let (Ok(expected_number), Ok(actual_number)) = (expected_number, actual_number) {
        if expected_number.is_nan() && actual_number.is_nan() {
            return;
        }
        assert!(
            (expected_number - actual_number).abs() <= TOLERANCE,
            "{family} row {row_idx} column {column}: expected {expected}, got {actual}"
        );
    } else {
        panic!("{family} row {row_idx} column {column}: expected {expected}, got {actual}");
    }
}

fn parse_number_cell(value: &str) -> Result<f64, std::num::ParseFloatError> {
    value.replace(',', "").parse::<f64>()
}

#[test]
fn expected_indicator_csvs_may_include_extra_tradingview_export_columns() {
    let schema = schema("volume_liquidity_sweep");
    let expected = vec![BTreeMap::from([
        ("time".to_string(), "2026-06-18".to_string()),
        ("open".to_string(), "100".to_string()),
        ("bar_index".to_string(), "0".to_string()),
        ("bull_signal".to_string(), "1".to_string()),
    ])];

    assert_eq!(
        comparable_indicator_columns(schema, &expected).expect("bull_signal should be comparable"),
        vec!["bull_signal"]
    );
}

#[test]
fn expected_indicator_csvs_need_at_least_one_declared_indicator_column() {
    let schema = schema("volume_liquidity_sweep");
    let expected = vec![BTreeMap::from([
        ("time".to_string(), "2026-06-18".to_string()),
        ("open".to_string(), "100".to_string()),
        ("bar_index".to_string(), "0".to_string()),
    ])];

    let err = comparable_indicator_columns(schema, &expected)
        .expect_err("unrelated export columns should not be comparable");
    assert!(err.contains(
        "volume_liquidity_sweep expected CSV must include at least one declared indicator column"
    ));
}

#[test]
fn csv_parser_allows_quoted_commas_and_escaped_quotes() {
    let row = "time,\"1,234.50\",\"say \"\"hi\"\"\",plain,\"\"\"quoted\"\"\"";

    assert_eq!(
        parse_csv_row(row).expect("quoted CSV row should parse"),
        vec!["time", "1,234.50", "say \"hi\"", "plain", "\"quoted\""]
    );
}

#[test]
fn csv_parser_rejects_unterminated_quotes() {
    let err = parse_csv_row("time,\"1,234.50").expect_err("unterminated quote should fail");

    assert!(err.contains("unterminated quoted field"));
}

#[test]
fn csv_parser_rejects_quotes_inside_unquoted_fields() {
    let err = parse_csv_row("time,12\"34").expect_err("unquoted quote should fail");

    assert!(err.contains("quote inside unquoted field"));
}

#[test]
fn cell_comparator_allows_comma_formatted_numbers() {
    assert_cell_close("family", 0, "level", "1,234.5000001", "1234.5");
}
