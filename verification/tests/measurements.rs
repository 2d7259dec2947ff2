use bench_transaction::measurements::{
    EpilogueMeasurements, MeasurementsPrinter, Poseidon2Measurements, TraceLenSummary,
    TransactionMeasurements, ROWS_PER_PERMUTATION,
};
use bench_transaction::note_cycles::NoteCycles;
use bench_transaction::note_id::{NoteId, FIELD_ORDER};
use serde_json::Value;

fn id(elements: [u64; 4]) -> NoteId {
    NoteId { elements }
}

fn tx_measurements(note_execution: Vec<(NoteId, usize)>) -> TransactionMeasurements {
    TransactionMeasurements {
        prologue: 3000,
        notes_processing: 1800,
        note_execution,
        tx_script_processing: 40,
        epilogue: 71000,
        auth_procedure: 69000,
        after_tx_cycles_obtained: 500,
    }
}

fn parse(text: &str) -> Value {
    serde_json::from_str(text).unwrap()
}

#[test]
fn epilogue_keeps_its_parts() {
    let epilogue = EpilogueMeasurements::from_parts(10, 7, 2);
    assert_eq!(
        epilogue.to_json(),
        parse(r#"{"total": 10, "auth_procedure": 7, "after_tx_cycles_obtained": 2}"#)
    );
    let largest = EpilogueMeasurements::from_parts(usize::MAX, 0, 0);
    assert_eq!(largest.to_json()["total"], Value::from(usize::MAX));
}

#[test]
fn poseidon2_report_is_complete() {
    let poseidon2 =
        Poseidon2Measurements::from_trace_summary(TraceLenSummary { hash_chiplet_len: 96 });
    let expected = r#"{
        "hash_chiplet_rows": 96,
        "rows_per_permutation": 32,
        "total_permutations": 3,
        "sampled_work": [
            {
                "op": "HPERM",
                "counting_rule": "each invocation contributes 1 Poseidon2 permutation"
            },
            {
                "op": "MPVERIFY",
                "counting_rule": "each Merkle path node contributes 1 Poseidon2 permutation"
            },
            {
                "op": "MRUPDATE",
                "counting_rule": "each Merkle path node contributes 2 Poseidon2 permutations"
            },
            {
                "op": "VM control-block hashing",
                "counting_rule": "included when the VM routes the work through the hash chiplet"
            }
        ],
        "excluded_work": "host-side Rust Poseidon2 calls outside VM execution are not counted"
    }"#;
    assert_eq!(poseidon2.to_json(), parse(expected));
}

#[test]
fn permutations_account_for_rows() {
    let rows_and_permutations: [(usize, usize); 6] =
        [(0, 0), (31, 0), (32, 1), (33, 1), (63, 1), (6400, 200)];
    for (rows, permutations) in rows_and_permutations {
        let json = Poseidon2Measurements::from_trace_summary(TraceLenSummary {
            hash_chiplet_len: rows,
        })
        .to_json();
        assert_eq!(json["hash_chiplet_rows"], Value::from(rows));
        assert_eq!(json["total_permutations"], Value::from(permutations));
    }
    let largest = TraceLenSummary { hash_chiplet_len: usize::MAX };
    let json = Poseidon2Measurements::from_trace_summary(largest).to_json();
    assert_eq!(json["total_permutations"], Value::from(usize::MAX / ROWS_PER_PERMUTATION));
}

#[test]
fn whole_permutations_are_recognised() {
    assert!(TraceLenSummary { hash_chiplet_len: 0 }.has_whole_permutations());
    assert!(TraceLenSummary { hash_chiplet_len: 64 }.has_whole_permutations());
    assert!(!TraceLenSummary { hash_chiplet_len: 65 }.has_whole_permutations());
    assert!(!TraceLenSummary { hash_chiplet_len: 16 }.has_whole_permutations());
}

#[test]
fn notes_are_listed_by_hexadecimal_identifier() {
    let notes = vec![(id([16, 32, 48, 64]), 1500), (id([0, 0, 0, 0x0123_4567_89ab_cdef]), 300)];
    let json = NoteCycles::from_notes(&notes).to_json();
    let expected = r#"{
        "0x1000000000000000200000000000000030000000000000004000000000000000": 1500,
        "0x000000000000000000000000000000000000000000000000efcdab8967452301": 300
    }"#;
    assert_eq!(json, parse(expected));
}

#[test]
fn hexadecimal_identifier_is_that_of_the_protocol() {
    let elements = [1u64, 0xfedc_ba98_7654_3210, FIELD_ORDER - 1, 255];
    let word = miden_protocol::Word::new(elements.map(miden_protocol::Felt::new));
    let name = miden_protocol::note::NoteId::from_raw(word).to_hex();
    let json = NoteCycles::from_notes(&vec![(id(elements), 9)]).to_json();
    assert_eq!(json[&name], Value::from(9usize));
    assert_eq!(name, "0x01000000000000001032547698badcfe00000000ffffffffff00000000000000");
}

#[test]
fn identifier_elements_are_taken_modulo_the_field_order() {
    let notes = vec![(id([FIELD_ORDER, 0, 0, 0]), 1), (id([0, FIELD_ORDER + 7, 0, 0]), 2)];
    let reduced = vec![(id([0, 0, 0, 0]), 1), (id([0, 7, 0, 0]), 2)];
    assert_eq!(
        NoteCycles::from_notes(&notes).to_json(),
        NoteCycles::from_notes(&reduced).to_json()
    );
}

#[test]
fn the_last_entry_of_a_note_counts() {
    let notes = vec![(id([1, 0, 0, 0]), 5), (id([2, 0, 0, 0]), 6), (id([1, 0, 0, 0]), 7)];
    let json = NoteCycles::from_notes(&notes).to_json();
    let expected = r#"{
        "0x0100000000000000000000000000000000000000000000000000000000000000": 7,
        "0x0200000000000000000000000000000000000000000000000000000000000000": 6
    }"#;
    assert_eq!(json, parse(expected));
}

#[test]
fn there_is_one_entry_per_distinct_note() {
    let notes: Vec<(NoteId, usize)> = (0..40usize).map(|i| (id([i as u64 % 20, 1, 2, 3]), i)).collect();
    let json = NoteCycles::from_notes(&notes).to_json();
    assert_eq!(json.as_object().unwrap().len(), 20);
    assert_eq!(NoteCycles::from_notes(&vec![]).to_json(), parse("{}"));
}

#[test]
fn notes_are_in_ascending_order() {
    let notes = vec![
        (id([3, 0, 0, 0]), 1),
        (id([1, 0, 0, 0]), 2),
        (id([0x10, 0, 0, 0]), 3),
        (id([2, 0, 0, 0]), 4),
        (id([0x100, 0, 0, 0]), 5),
    ];
    let listed = format!("{:?}", NoteCycles::from_notes(&notes));
    let at = |name: &str| listed.find(name).unwrap();
    assert!(at("\"0x0001") < at("\"0x0100"));
    assert!(at("\"0x0100") < at("\"0x0200"));
    assert!(at("\"0x0200") < at("\"0x0300"));
    assert!(at("\"0x0300") < at("\"0x1000"));
}

#[test]
fn order_of_notes_does_not_matter() {
    let trace_summary = TraceLenSummary { hash_chiplet_len: 32 };
    let notes = vec![(id([3, 0, 0, 0]), 1), (id([1, 0, 0, 0]), 2), (id([2, 0, 0, 0]), 3)];
    let reversed: Vec<(NoteId, usize)> = notes.iter().rev().copied().collect();
    let printer = MeasurementsPrinter::new(tx_measurements(notes), trace_summary);
    let other = MeasurementsPrinter::new(tx_measurements(reversed), trace_summary);
    assert_eq!(printer.to_json(), other.to_json());
    assert_eq!(format!("{printer:?}"), format!("{other:?}"));
}

#[test]
fn printer_reports_every_stage() {
    let notes = vec![(id([16, 32, 48, 64]), 1500)];
    let printer = MeasurementsPrinter::new(
        tx_measurements(notes),
        TraceLenSummary { hash_chiplet_len: 320 },
    );
    let json = printer.to_json();
    assert_eq!(json.as_object().unwrap().len(), 6);
    assert_eq!(json["prologue"], Value::from(3000usize));
    assert_eq!(json["notes_processing"], Value::from(1800usize));
    assert_eq!(
        json["note_execution"],
        parse(r#"{"0x1000000000000000200000000000000030000000000000004000000000000000": 1500}"#)
    );
    assert_eq!(json["tx_script_processing"], Value::from(40usize));
    assert_eq!(json["epilogue"], EpilogueMeasurements::from_parts(71000, 69000, 500).to_json());
    assert_eq!(json["poseidon2"]["total_permutations"], Value::from(10usize));
    assert_eq!(printer.clone().to_json(), json);
}

#[test]
fn distinct_measurements_are_reported_differently() {
    let trace_summary = TraceLenSummary { hash_chiplet_len: 320 };
    let json = MeasurementsPrinter::new(tx_measurements(vec![]), trace_summary).to_json();
    let with_note = tx_measurements(vec![(id([0, 0, 0, 0]), 0)]);
    assert_ne!(MeasurementsPrinter::new(with_note, trace_summary).to_json(), json);
    let mut other_epilogue = tx_measurements(vec![]);
    other_epilogue.auth_procedure += 1;
    assert_ne!(MeasurementsPrinter::new(other_epilogue, trace_summary).to_json(), json);
    let other_trace = TraceLenSummary { hash_chiplet_len: 321 };
    assert_ne!(MeasurementsPrinter::new(tx_measurements(vec![]), other_trace).to_json(), json);
}
