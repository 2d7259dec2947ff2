use bench_transaction::measurements::{
    MeasurementsPrinter, TraceLenSummary, TransactionMeasurements,
};
use bench_transaction::note_id::NoteId;
use bench_transaction::results::{
    fill_bench_results, write_bench_results_to_json, BenchResultsError,
};
use serde_json::Value;

fn printer(prologue: usize) -> MeasurementsPrinter {
    let tx_measurements = TransactionMeasurements {
        prologue,
        notes_processing: 2,
        note_execution: vec![(NoteId { elements: [1, 2, 3, 4] }, 3)],
        tx_script_processing: 4,
        epilogue: 7,
        auth_procedure: 5,
        after_tx_cycles_obtained: 1,
    };
    MeasurementsPrinter::new(tx_measurements, TraceLenSummary { hash_chiplet_len: 64 })
}

fn named(name: &str, prologue: usize) -> (String, MeasurementsPrinter) {
    (name.to_string(), printer(prologue))
}

fn parse(text: &str) -> Value {
    serde_json::from_str(text).unwrap()
}

#[test]
fn fresh_file_holds_exactly_the_results() {
    let text = write_bench_results_to_json("{}", vec![named("b", 1), named("a", 2)]).unwrap();
    let document = parse(&text);
    assert_eq!(document.as_object().unwrap().len(), 2);
    assert_eq!(document["a"], printer(2).to_json());
    assert_eq!(document["b"], printer(1).to_json());
}

#[test]
fn written_text_is_exact() {
    let text = write_bench_results_to_json("{}", vec![named("consume single P2ID note", 1)]).unwrap();
    let expected = r#"{
  "consume single P2ID note": {
    "epilogue": {
      "after_tx_cycles_obtained": 1,
      "auth_procedure": 5,
      "total": 7
    },
    "note_execution": {
      "0x0100000000000000020000000000000003000000000000000400000000000000": 3
    },
    "notes_processing": 2,
    "poseidon2": {
      "excluded_work": "host-side Rust Poseidon2 calls outside VM execution are not counted",
      "hash_chiplet_rows": 64,
      "rows_per_permutation": 32,
      "sampled_work": [
        {
          "counting_rule": "each invocation contributes 1 Poseidon2 permutation",
          "op": "HPERM"
        },
        {
          "counting_rule": "each Merkle path node contributes 1 Poseidon2 permutation",
          "op": "MPVERIFY"
        },
        {
          "counting_rule": "each Merkle path node contributes 2 Poseidon2 permutations",
          "op": "MRUPDATE"
        },
        {
          "counting_rule": "included when the VM routes the work through the hash chiplet",
          "op": "VM control-block hashing"
        }
      ],
      "total_permutations": 2
    },
    "prologue": 1,
    "tx_script_processing": 4
  }
}"#;
    assert_eq!(text, expected);
}

#[test]
fn text_does_not_depend_on_the_order_of_members() {
    let text = write_bench_results_to_json(r#"{"b": 1, "a": 2}"#, vec![]).unwrap();
    assert_eq!(text, "{\n  \"a\": 2,\n  \"b\": 1\n}");
}

#[test]
fn other_members_are_kept() {
    let file = r#"{"note": "kept", "nested": {"x": [1, -2, null, true, 2.5]}, "a": 0}"#;
    let text = write_bench_results_to_json(file, vec![named("a", 1)]).unwrap();
    let document = parse(&text);
    assert_eq!(document.as_object().unwrap().len(), 3);
    assert_eq!(document["note"], Value::from("kept"));
    assert_eq!(document["nested"], parse(file)["nested"]);
    assert_eq!(document["a"], printer(1).to_json());
}

#[test]
fn the_last_result_of_a_benchmark_counts() {
    let results = vec![named("a", 1), named("b", 2), named("a", 3)];
    let document = parse(&write_bench_results_to_json("{}", results).unwrap());
    assert_eq!(document.as_object().unwrap().len(), 2);
    assert_eq!(document["a"]["prologue"], Value::from(3usize));
}

#[test]
fn null_counts_as_an_empty_object() {
    let from_null = write_bench_results_to_json("null", vec![named("a", 1)]).unwrap();
    let from_object = write_bench_results_to_json("{}", vec![named("a", 1)]).unwrap();
    assert_eq!(from_null, from_object);
    assert_eq!(write_bench_results_to_json(" null ", vec![]).unwrap(), "null");
}

#[test]
fn text_that_is_no_json_is_rejected() {
    for file in ["", "{", "{} x", "{'a': 1}", "[1,]"] {
        let result = write_bench_results_to_json(file, vec![named("a", 1)]);
        assert!(matches!(result, Err(BenchResultsError::InvalidJson(_))));
    }
    let result = write_bench_results_to_json("nul", vec![]);
    assert!(matches!(result, Err(BenchResultsError::InvalidJson(_))));
}

#[test]
fn rejection_tells_the_reason() {
    let reason = |file: &str| match write_bench_results_to_json(file, vec![]) {
        Err(BenchResultsError::InvalidJson(message)) => message,
        _ => panic!("the text is no JSON document"),
    };
    assert_eq!(reason(""), "EOF while parsing a value at line 1 column 0");
    assert_eq!(reason("{} x"), "trailing characters at line 1 column 4");
    assert_eq!(reason("{\n\"a\" 1}"), "expected `:` at line 2 column 5");
}

#[test]
fn documents_without_members_are_rejected() {
    for file in ["[]", "[{}]", "1", "\"{}\"", "true", "0.5"] {
        let result = write_bench_results_to_json(file, vec![named("a", 1)]);
        assert!(matches!(result, Err(BenchResultsError::NotAnObject)));
    }
    assert_eq!(write_bench_results_to_json("[ ]", vec![]).unwrap(), "[]");
}

#[test]
fn writing_again_changes_nothing() {
    let file = r#"{"kept": [1, {"x": "y"}], "b": false}"#;
    let once = write_bench_results_to_json(file, vec![named("a", 1), named("b", 2)]).unwrap();
    let twice = write_bench_results_to_json(&once, vec![named("a", 1), named("b", 2)]).unwrap();
    assert_eq!(once, twice);
}

#[test]
fn writing_in_batches_is_writing_at_once() {
    let first = write_bench_results_to_json("{}", vec![named("a", 1), named("b", 2)]).unwrap();
    let second = write_bench_results_to_json(&first, vec![named("c", 3), named("a", 4)]).unwrap();
    let results = vec![named("a", 1), named("b", 2), named("c", 3), named("a", 4)];
    assert_eq!(write_bench_results_to_json("{}", results).unwrap(), second);
}

#[test]
fn names_and_texts_are_read_back() {
    let name = "quote \" backslash \\ newline \n control \u{1} unicode \u{1f980}";
    let text = write_bench_results_to_json("{}", vec![named(name, usize::MAX)]).unwrap();
    let document = parse(&text);
    assert_eq!(document[name], printer(usize::MAX).to_json());
}

#[test]
fn deepest_readable_document_is_read_back() {
    let deepest = format!("{}{}", "[".repeat(126), "]".repeat(126));
    let file = format!("{{\"deep\": {deepest}}}");
    let text = write_bench_results_to_json(&file, vec![named("a", 1)]).unwrap();
    assert_eq!(parse(&text)["deep"], parse(&deepest));
    let too_deep = format!("{{\"deep\": [{deepest}]}}");
    let result = write_bench_results_to_json(&too_deep, vec![]);
    assert!(matches!(result, Err(BenchResultsError::InvalidJson(_))));
}

#[test]
fn filling_sets_each_report() {
    let filled = fill_bench_results(parse(r#"{"x": 1}"#), &vec![named("a", 1), named("b", 2)]);
    assert_eq!(filled.as_object().unwrap().len(), 3);
    assert_eq!(filled["x"], Value::from(1usize));
    assert_eq!(filled["a"], printer(1).to_json());
    assert_eq!(filled["b"], printer(2).to_json());
}
