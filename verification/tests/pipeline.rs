use solver_pipeline::config::{assemble, extract_run_params, initial_board_state, BoardState};
use solver_pipeline::decimal::Decimal;
use solver_pipeline::document::{extract_float, extract_i32, extract_str, DocEntry, DocValue};
use solver_pipeline::errors::{ConfigError, FieldKind, PipelineError, ValidationError};
use solver_pipeline::gate::{check_memory, DEFAULT_SAFETY_DIVISOR};
use solver_pipeline::sizing::SizingToken;

fn dec(mantissa: u64, scale: u32) -> Decimal {
    Decimal { negative: false, mantissa, scale }
}

fn txt(s: &str) -> DocValue {
    DocValue::Text(s.to_string())
}

fn obj(entries: Vec<(&str, DocValue)>) -> DocValue {
    let mut v = Vec::new();
    for (key, value) in entries {
        v.push(DocEntry { key: key.to_string(), value });
    }
    DocValue::Object(v)
}

fn street(bet: &str, raise: &str) -> DocValue {
    obj(vec![("bet", txt(bet)), ("raise", txt(raise))])
}

fn path(keys: &[&str]) -> Vec<String> {
    keys.iter().map(|k| k.to_string()).collect()
}

/// The end-to-end document: pot 100, stack 1000, no rake, flop bet
/// sizing "50%,e" with raise "2x", all other streets empty.
fn full_doc() -> DocValue {
    obj(vec![
        ("oop_range", txt("66+,A8s+,A5s-A2s:0.5")),
        ("ip_range", txt("QQ-22,AQs-A2s")),
        (
            "public_card",
            obj(vec![("flop", txt("Td9d6h")), ("turn", txt("")), ("river", txt(""))]),
        ),
        (
            "tree_config",
            obj(vec![
                ("starting_pot", DocValue::Integer(100)),
                ("effective_stack", DocValue::Integer(1000)),
                ("rake_rate", DocValue::Num(dec(0, 0))),
                ("rake_cap", DocValue::Num(dec(0, 0))),
                ("oop_flop_bet_sizes", street("50%,e", "2x")),
                ("ip_flop_bet_sizes", street("", "")),
                ("oop_turn_bet_sizes", street("", "")),
                ("ip_turn_bet_sizes", street("", "")),
                ("oop_river_bet_sizes", street("", "")),
                ("ip_river_bet_sizes", street("", "")),
                ("turn_donk_sizes", txt("")),
                ("river_donk_sizes", txt("")),
            ]),
        ),
        ("max_num_iterations", DocValue::Integer(1)),
        ("target_exploitability", DocValue::Num(dec(5, 3))),
        ("compress_level", DocValue::Integer(0)),
    ])
}

#[test]
fn board_state_derivation() {
    assert_eq!(initial_board_state("", ""), Ok(BoardState::Flop));
    assert_eq!(initial_board_state("Th", ""), Ok(BoardState::Turn));
    assert_eq!(initial_board_state("Th", "2c"), Ok(BoardState::River));
    assert_eq!(
        initial_board_state("", "2c"),
        Err(ValidationError::IllegalBoardProgression)
    );
}

#[test]
fn memory_gate_passes_within_budget() {
    let c = check_memory(10, 100, 1).unwrap();
    assert_eq!(c.required, 10);
    assert_eq!(c.budget, 100);
    // the boundary case: exactly the budget still passes
    assert!(check_memory(10, 100, 10).is_ok());
}

#[test]
fn memory_gate_rejects_over_budget() {
    let e = check_memory(11, 100, 10).unwrap_err();
    assert_eq!(e.required, 11);
    assert_eq!(e.available, 100);
    assert_eq!(e.budget, 10);
}

#[test]
fn memory_gate_default_divisor_compares_directly() {
    assert_eq!(DEFAULT_SAFETY_DIVISOR, 1);
    assert!(check_memory(100, 100, DEFAULT_SAFETY_DIVISOR).is_ok());
    assert!(check_memory(101, 100, DEFAULT_SAFETY_DIVISOR).is_err());
}

#[test]
fn extract_str_reads_nested_text() {
    let doc = full_doc();
    let s = extract_str(&doc, &path(&["public_card", "flop"])).unwrap();
    assert_eq!(s, "Td9d6h");
}

#[test]
fn extract_missing_key_names_first_unresolvable() {
    let doc = full_doc();
    let e = extract_str(&doc, &path(&["public_card", "burn"])).unwrap_err();
    match e {
        ConfigError::MissingKey { path: p, key_index } => {
            assert_eq!(p, vec!["public_card".to_string(), "burn".to_string()]);
            assert_eq!(key_index, 1);
        }
        _ => panic!("expected a missing key"),
    }
}

#[test]
fn extract_through_scalar_is_missing_key() {
    let doc = full_doc();
    // walking a key into a text leaf stops at that key
    let e = extract_str(&doc, &path(&["oop_range", "deeper"])).unwrap_err();
    match e {
        ConfigError::MissingKey { key_index, .. } => assert_eq!(key_index, 1),
        _ => panic!("expected a missing key"),
    }
}

#[test]
fn extract_type_mismatch_names_kinds() {
    let doc = full_doc();
    let e = extract_str(&doc, &path(&["max_num_iterations"])).unwrap_err();
    match e {
        ConfigError::TypeMismatch { expected, actual, .. } => {
            assert_eq!(expected, FieldKind::Text);
            assert_eq!(actual, FieldKind::Integer);
        }
        _ => panic!("expected a type mismatch"),
    }
}

#[test]
fn extract_i32_rejects_out_of_range() {
    let doc = obj(vec![("big", DocValue::Integer(1 << 40))]);
    let e = extract_i32(&doc, &path(&["big"])).unwrap_err();
    assert!(matches!(e, ConfigError::TypeMismatch { .. }));
}

#[test]
fn extract_i32_rejects_decimal_leaf() {
    let doc = obj(vec![("n", DocValue::Num(dec(15, 1)))]);
    let e = extract_i32(&doc, &path(&["n"])).unwrap_err();
    match e {
        ConfigError::TypeMismatch { expected, actual, .. } => {
            assert_eq!(expected, FieldKind::Integer);
            assert_eq!(actual, FieldKind::Num);
        }
        _ => panic!("expected a type mismatch"),
    }
}

#[test]
fn extract_float_coerces_integer_leaf() {
    let doc = obj(vec![("n", DocValue::Integer(-4))]);
    let d = extract_float(&doc, &path(&["n"])).unwrap();
    assert!(d.negative);
    assert_eq!(d.mantissa, 4);
    assert_eq!(d.scale, 0);
}

#[test]
fn assemble_full_document() {
    let doc = full_doc();
    let out = assemble(&doc).unwrap();
    assert_eq!(out.cards.oop_range, "66+,A8s+,A5s-A2s:0.5");
    assert_eq!(out.cards.flop, "Td9d6h");
    assert_eq!(out.cards.turn, "");
    assert_eq!(out.tree.initial_state, BoardState::Flop);
    assert_eq!(out.tree.starting_pot, 100);
    assert_eq!(out.tree.effective_stack, 1000);
    assert_eq!(out.tree.rake_rate, dec(0, 0));
    assert_eq!(out.tree.rake_cap, dec(0, 0));
    assert_eq!(
        out.tree.flop_sizes.oop.bet,
        vec![SizingToken::PotPercent(dec(50, 0)), SizingToken::EffectiveStack]
    );
    assert_eq!(
        out.tree.flop_sizes.oop.raise,
        vec![SizingToken::Multiplier(dec(2, 0))]
    );
    assert!(out.tree.flop_sizes.ip.bet.is_empty());
    assert!(out.tree.river_sizes.oop.raise.is_empty());
    assert!(out.tree.turn_donk_sizes.is_none());
    assert!(out.tree.river_donk_sizes.is_none());
    assert_eq!(out.tree.add_allin_threshold, dec(15, 1));
    assert_eq!(out.tree.force_allin_threshold, dec(15, 2));
    assert_eq!(out.tree.merging_threshold, dec(1, 1));
}

#[test]
fn run_params_and_solve_target() {
    let doc = full_doc();
    let params = extract_run_params(&doc).unwrap();
    assert_eq!(params.max_iterations, 1);
    assert_eq!(params.compress_level, 0);
    assert_eq!(params.target_fraction, dec(5, 3));
    // target exploitability = pot * fraction = 100 * 0.005 = 0.500
    let target = params.target_fraction.scale_by(100).unwrap();
    assert_eq!(target, dec(500, 3));
    // a roomy free-byte reading yields a clearance
    assert!(check_memory(1 << 20, 1 << 30, DEFAULT_SAFETY_DIVISOR).is_ok());
}

#[test]
fn assemble_missing_top_level_key_aborts() {
    let doc = obj(vec![("ip_range", txt("AA"))]);
    let e = assemble(&doc).unwrap_err();
    match e {
        PipelineError::Config(ConfigError::MissingKey { path: p, key_index }) => {
            assert_eq!(p, vec!["oop_range".to_string()]);
            assert_eq!(key_index, 0);
        }
        _ => panic!("expected a missing key"),
    }
}

#[test]
fn assemble_missing_nested_key_aborts() {
    let mut doc = full_doc();
    // remove public_card.turn
    if let DocValue::Object(ref mut entries) = doc {
        for entry in entries.iter_mut() {
            if entry.key == "public_card" {
                entry.value = obj(vec![("flop", txt("Td9d6h")), ("river", txt(""))]);
            }
        }
    }
    let e = assemble(&doc).unwrap_err();
    match e {
        PipelineError::Config(ConfigError::MissingKey { path: p, key_index }) => {
            assert_eq!(p, vec!["public_card".to_string(), "turn".to_string()]);
            assert_eq!(key_index, 1);
        }
        _ => panic!("expected a missing key"),
    }
}

#[test]
fn assemble_rejects_river_without_turn() {
    let mut doc = full_doc();
    if let DocValue::Object(ref mut entries) = doc {
        for entry in entries.iter_mut() {
            if entry.key == "public_card" {
                entry.value = obj(vec![
                    ("flop", txt("Td9d6h")),
                    ("turn", txt("")),
                    ("river", txt("2c")),
                ]);
            }
        }
    }
    let e = assemble(&doc).unwrap_err();
    assert_eq!(
        e,
        PipelineError::Validation(ValidationError::IllegalBoardProgression)
    );
}

#[test]
fn assemble_rejects_empty_flop() {
    let mut doc = full_doc();
    if let DocValue::Object(ref mut entries) = doc {
        for entry in entries.iter_mut() {
            if entry.key == "public_card" {
                entry.value = obj(vec![("flop", txt("")), ("turn", txt("")), ("river", txt(""))]);
            }
        }
    }
    let e = assemble(&doc).unwrap_err();
    assert_eq!(e, PipelineError::Validation(ValidationError::EmptyFlop));
}

#[test]
fn assemble_reports_bad_sizing_token() {
    let mut doc = full_doc();
    if let DocValue::Object(ref mut entries) = doc {
        for entry in entries.iter_mut() {
            if entry.key == "tree_config" {
                if let DocValue::Object(ref mut tc) = entry.value {
                    for field in tc.iter_mut() {
                        if field.key == "oop_flop_bet_sizes" {
                            field.value = street("50%,potx2", "2x");
                        }
                    }
                }
            }
        }
    }
    let e = assemble(&doc).unwrap_err();
    match e {
        PipelineError::Grammar(g) => {
            assert_eq!(g.token, "potx2");
            assert_eq!(g.position, 1);
        }
        _ => panic!("expected a grammar error"),
    }
}

#[test]
fn assemble_parses_turn_donk_sizes() {
    let mut doc = full_doc();
    if let DocValue::Object(ref mut entries) = doc {
        for entry in entries.iter_mut() {
            if entry.key == "tree_config" {
                if let DocValue::Object(ref mut tc) = entry.value {
                    for field in tc.iter_mut() {
                        if field.key == "turn_donk_sizes" {
                            field.value = txt("30%,75%");
                        }
                    }
                }
            }
        }
    }
    let out = assemble(&doc).unwrap();
    assert_eq!(
        out.tree.turn_donk_sizes,
        Some(vec![
            SizingToken::PotPercent(dec(30, 0)),
            SizingToken::PotPercent(dec(75, 0)),
        ])
    );
    assert!(out.tree.river_donk_sizes.is_none());
}

#[test]
fn run_params_missing_key_aborts() {
    let doc = obj(vec![("max_num_iterations", DocValue::Integer(5))]);
    let e = extract_run_params(&doc).unwrap_err();
    match e {
        PipelineError::Config(ConfigError::MissingKey { path: p, key_index }) => {
            assert_eq!(p, vec!["target_exploitability".to_string()]);
            assert_eq!(key_index, 0);
        }
        _ => panic!("expected a missing key"),
    }
}

#[test]
fn assemble_turn_only_board_is_turn_state() {
    let mut doc = full_doc();
    if let DocValue::Object(ref mut entries) = doc {
        for entry in entries.iter_mut() {
            if entry.key == "public_card" {
                entry.value = obj(vec![
                    ("flop", txt("Td9d6h")),
                    ("turn", txt("Qc")),
                    ("river", txt("")),
                ]);
            }
        }
    }
    let out = assemble(&doc).unwrap();
    assert_eq!(out.tree.initial_state, BoardState::Turn);
    assert_eq!(out.cards.turn, "Qc");
}
