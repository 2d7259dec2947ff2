//! The measurements of one transaction, in the form in which they are reported.
use crate::json::{json_from_items, json_from_text, json_from_usize, json_new_object, json_set};
use crate::note_cycles::NoteCycles;
use crate::note_id::NoteId;
use vstd::prelude::*;

#[allow(unused_imports)]
use crate::json::{empty_object, json_tree, Json};
#[allow(unused_imports)]
use crate::note_id::word_hex;
#[allow(unused_imports)]
use crate::note_cycles::{
    ascending_names, law_notes_and_entries_agree, law_order_of_notes_does_not_matter,
    name_before, note_cycles, note_cycles_json,
};

verus! {

/// The cycle counts of the stages of an executed transaction.
#[derive(Debug)]
pub struct TransactionMeasurements {
    pub prologue: usize,
    pub notes_processing: usize,
    /// The executed notes, each with the number of cycles of its execution.
    pub note_execution: Vec<(NoteId, usize)>,
    pub tx_script_processing: usize,
    pub epilogue: usize,
    pub auth_procedure: usize,
    pub after_tx_cycles_obtained: usize,
}

/// The part of a summary of trace lengths that the report is made from.
#[derive(Debug, Clone, Copy)]
pub struct TraceLenSummary {
    /// The number of rows of the hash chiplet.
    pub hash_chiplet_len: usize,
}

impl TraceLenSummary {
    /// Whether the hash chiplet holds whole permutations only, as it does in every complete
    /// trace.
    pub fn has_whole_permutations(&self) -> (whole: bool)
        ensures
            whole <==> self.hash_chiplet_len % ROWS_PER_PERMUTATION == 0,
            whole <==> exists|permutations: nat|
                self.hash_chiplet_len == #[trigger] (32 * permutations),
    {
        proof {
            let permutations = (self.hash_chiplet_len / 32) as nat;
            assert(self.hash_chiplet_len % 32 == 0 ==> self.hash_chiplet_len == 32 * permutations);
        }
        self.hash_chiplet_len % ROWS_PER_PERMUTATION == 0
    }
}

/// What is reported of one transaction.
pub struct MeasurementsView {
    pub prologue: nat,
    pub notes_processing: nat,
    pub note_execution: Map<Seq<char>, nat>,
    pub tx_script_processing: nat,
    pub epilogue: EpilogueView,
    pub poseidon2: Poseidon2View,
}

impl MeasurementsView {
    /// The JSON object that reports these measurements.
    pub open spec fn json(self) -> Json {
        empty_object().with_member("prologue"@, Json::Integer(self.prologue as int)).with_member(
            "notes_processing"@,
            Json::Integer(self.notes_processing as int),
        ).with_member("note_execution"@, note_cycles_json(self.note_execution)).with_member(
            "tx_script_processing"@,
            Json::Integer(self.tx_script_processing as int),
        ).with_member("epilogue"@, self.epilogue.json()).with_member(
            "poseidon2"@,
            self.poseidon2.json(),
        )
    }
}

/// What is reported of the epilogue of a transaction.
pub struct EpilogueView {
    pub total: nat,
    pub auth_procedure: nat,
    pub after_tx_cycles_obtained: nat,
}

impl EpilogueView {
    /// The JSON object that reports these measurements.
    pub open spec fn json(self) -> Json {
        empty_object().with_member("total"@, Json::Integer(self.total as int)).with_member(
            "auth_procedure"@,
            Json::Integer(self.auth_procedure as int),
        ).with_member(
            "after_tx_cycles_obtained"@,
            Json::Integer(self.after_tx_cycles_obtained as int),
        )
    }
}

/// What is reported of the use of Poseidon2.
pub struct Poseidon2View {
    pub hash_chiplet_rows: nat,
    pub rows_per_permutation: nat,
    pub total_permutations: nat,
    pub sampled_work: Seq<SampledWorkView>,
    pub excluded_work: Seq<char>,
}

impl Poseidon2View {
    /// The JSON object that reports these measurements.
    pub open spec fn json(self) -> Json {
        empty_object().with_member(
            "hash_chiplet_rows"@,
            Json::Integer(self.hash_chiplet_rows as int),
        ).with_member(
            "rows_per_permutation"@,
            Json::Integer(self.rows_per_permutation as int),
        ).with_member(
            "total_permutations"@,
            Json::Integer(self.total_permutations as int),
        ).with_member(
            "sampled_work"@,
            Json::Array(self.sampled_work.map_values(|work: SampledWorkView| work.json())),
        ).with_member("excluded_work"@, Json::Text(self.excluded_work))
    }
}

/// How one kind of work is counted.
pub struct SampledWorkView {
    pub op: Seq<char>,
    pub counting_rule: Seq<char>,
}

impl SampledWorkView {
    /// The JSON object that reports this rule.
    pub open spec fn json(self) -> Json {
        empty_object().with_member("op"@, Json::Text(self.op)).with_member(
            "counting_rule"@,
            Json::Text(self.counting_rule),
        )
    }
}

/// What is reported of a transaction with these measurements and this trace.
pub open spec fn reported(
    tx_measurements: TransactionMeasurements,
    trace_summary: TraceLenSummary,
) -> MeasurementsView {
    MeasurementsView {
        prologue: tx_measurements.prologue as nat,
        notes_processing: tx_measurements.notes_processing as nat,
        note_execution: note_cycles(tx_measurements.note_execution@),
        tx_script_processing: tx_measurements.tx_script_processing as nat,
        epilogue: EpilogueView {
            total: tx_measurements.epilogue as nat,
            auth_procedure: tx_measurements.auth_procedure as nat,
            after_tx_cycles_obtained: tx_measurements.after_tx_cycles_obtained as nat,
        },
        poseidon2: poseidon2_usage(trace_summary.hash_chiplet_len as nat),
    }
}

/// What is reported of the use of Poseidon2 in a trace whose hash chiplet has this many rows.
pub open spec fn poseidon2_usage(hash_chiplet_rows: nat) -> Poseidon2View {
    Poseidon2View {
        hash_chiplet_rows,
        rows_per_permutation: 32,
        total_permutations: hash_chiplet_rows / 32,
        sampled_work: seq![
            SampledWorkView {
                op: "HPERM"@,
                counting_rule: "each invocation contributes 1 Poseidon2 permutation"@,
            },
            SampledWorkView {
                op: "MPVERIFY"@,
                counting_rule: "each Merkle path node contributes 1 Poseidon2 permutation"@,
            },
            SampledWorkView {
                op: "MRUPDATE"@,
                counting_rule: "each Merkle path node contributes 2 Poseidon2 permutations"@,
            },
            SampledWorkView {
                op: "VM control-block hashing"@,
                counting_rule: "included when the VM routes the work through the hash chiplet"@,
            },
        ],
        excluded_work: "host-side Rust Poseidon2 calls outside VM execution are not counted"@,
    }
}

/// The cycle count of each transaction stage, in the form in which it is reported.
#[derive(Debug)]
pub struct MeasurementsPrinter {
    prologue: usize,
    notes_processing: usize,
    note_execution: NoteCycles,
    tx_script_processing: usize,
    epilogue: EpilogueMeasurements,
    poseidon2: Poseidon2Measurements,
}

impl View for MeasurementsPrinter {
    type V = MeasurementsView;

    closed spec fn view(&self) -> MeasurementsView {
        MeasurementsView {
            prologue: self.prologue as nat,
            notes_processing: self.notes_processing as nat,
            note_execution: self.note_execution@,
            tx_script_processing: self.tx_script_processing as nat,
            epilogue: self.epilogue@,
            poseidon2: self.poseidon2@,
        }
    }
}

impl MeasurementsPrinter {
    /// The names under which the executed notes are listed, in the order in which they are kept.
    pub closed spec fn note_names(&self) -> Seq<Seq<char>> {
        self.note_execution.names()
    }

    /// Puts together what is reported of a transaction. The executed notes are listed in
    /// ascending order of their names.
    pub fn new(
        tx_measurements: TransactionMeasurements,
        trace_summary: TraceLenSummary,
    ) -> (result: Self)
        ensures
            result@ == reported(tx_measurements, trace_summary),
            result@.prologue == tx_measurements.prologue,
            result@.notes_processing == tx_measurements.notes_processing,
            result@.tx_script_processing == tx_measurements.tx_script_processing,
            result@.epilogue.total == tx_measurements.epilogue,
            result@.epilogue.auth_procedure == tx_measurements.auth_procedure,
            result@.epilogue.after_tx_cycles_obtained == tx_measurements.after_tx_cycles_obtained,
            ({
                let notes = tx_measurements.note_execution@;
                let listed = result@.note_execution;
                &&& (forall|i: int|
                    0 <= i < notes.len() && (forall|j: int|
                        i < j < notes.len() ==> (#[trigger] notes[j]).0@ != notes[i].0@)
                        ==> listed.contains_key(word_hex((#[trigger] notes[i]).0@))
                        && listed[word_hex(notes[i].0@)] == notes[i].1)
                &&& (forall|name: Seq<char>| #[trigger]
                    listed.contains_key(name) ==> exists|i: int|
                        0 <= i < notes.len() && word_hex((#[trigger] notes[i]).0@) == name)
            }),
            result@.poseidon2.hash_chiplet_rows == trace_summary.hash_chiplet_len,
            result@.poseidon2.rows_per_permutation == 32,
            result@.poseidon2.total_permutations == trace_summary.hash_chiplet_len as int / 32,
            result@.poseidon2.sampled_work.len() == 4,
            result@.poseidon2.sampled_work[0].op == "HPERM"@,
            result@.poseidon2.sampled_work[0].counting_rule
                == "each invocation contributes 1 Poseidon2 permutation"@,
            result@.poseidon2.sampled_work[1].op == "MPVERIFY"@,
            result@.poseidon2.sampled_work[1].counting_rule
                == "each Merkle path node contributes 1 Poseidon2 permutation"@,
            result@.poseidon2.sampled_work[2].op == "MRUPDATE"@,
            result@.poseidon2.sampled_work[2].counting_rule
                == "each Merkle path node contributes 2 Poseidon2 permutations"@,
            result@.poseidon2.sampled_work[3].op == "VM control-block hashing"@,
            result@.poseidon2.sampled_work[3].counting_rule
                == "included when the VM routes the work through the hash chiplet"@,
            result@.poseidon2.excluded_work
                == "host-side Rust Poseidon2 calls outside VM execution are not counted"@,
            ascending_names(result.note_names()),
            forall|i: int, j: int|
                0 <= i < j < result.note_names().len() ==> name_before(
                    #[trigger] result.note_names()[i],
                    #[trigger] result.note_names()[j],
                ),
            result.note_names().to_set() == result@.note_execution.dom(),
    {
        proof {
            law_poseidon2_usage(trace_summary.hash_chiplet_len as nat);
        }
        let note_execution_map: NoteCycles = NoteCycles::from_notes(
            &tx_measurements.note_execution,
        );
        MeasurementsPrinter {
            prologue: tx_measurements.prologue,
            notes_processing: tx_measurements.notes_processing,
            note_execution: note_execution_map,
            tx_script_processing: tx_measurements.tx_script_processing,
            epilogue: EpilogueMeasurements::from_parts(
                tx_measurements.epilogue,
                tx_measurements.auth_procedure,
                tx_measurements.after_tx_cycles_obtained,
            ),
            poseidon2: Poseidon2Measurements::from_trace_summary(trace_summary),
        }
    }

    /// The JSON object that reports these measurements.
    pub fn to_json(&self) -> (value: serde_json::Value)
        ensures
            json_tree(value) == self@.json(),
    {
        let mut value: serde_json::Value = json_new_object();
        json_set(&mut value, "prologue", json_from_usize(self.prologue));
        json_set(&mut value, "notes_processing", json_from_usize(self.notes_processing));
        json_set(&mut value, "note_execution", self.note_execution.to_json());
        json_set(&mut value, "tx_script_processing", json_from_usize(self.tx_script_processing));
        json_set(&mut value, "epilogue", self.epilogue.to_json());
        json_set(&mut value, "poseidon2", self.poseidon2.to_json());
        value
    }
}

impl Clone for MeasurementsPrinter {
    fn clone(&self) -> (result: Self)
        ensures
            result@ == self@,
            result.note_names() == self.note_names(),
    {
        MeasurementsPrinter {
            prologue: self.prologue,
            notes_processing: self.notes_processing,
            note_execution: self.note_execution.clone(),
            tx_script_processing: self.tx_script_processing,
            epilogue: self.epilogue,
            poseidon2: self.poseidon2,
        }
    }
}

/// The cycle counts of different intervals in the epilogue, namely:
/// - `total`, the number of cycles of the whole epilogue;
/// - `auth_procedure`, the number of cycles of the authentication procedure;
/// - `after_tx_cycles_obtained`, the number of cycles from the moment at which the cycle count is
///   obtained for the computation of the fee to the end of the epilogue.
#[derive(Debug, Clone, Copy)]
pub struct EpilogueMeasurements {
    total: usize,
    auth_procedure: usize,
    after_tx_cycles_obtained: usize,
}

impl View for EpilogueMeasurements {
    type V = EpilogueView;

    closed spec fn view(&self) -> EpilogueView {
        EpilogueView {
            total: self.total as nat,
            auth_procedure: self.auth_procedure as nat,
            after_tx_cycles_obtained: self.after_tx_cycles_obtained as nat,
        }
    }
}

impl EpilogueMeasurements {
    /// Puts the three cycle counts together.
    pub fn from_parts(
        total: usize,
        auth_procedure: usize,
        after_tx_cycles_obtained: usize,
    ) -> (result: Self)
        ensures
            result@ == (EpilogueView {
                total: total as nat,
                auth_procedure: auth_procedure as nat,
                after_tx_cycles_obtained: after_tx_cycles_obtained as nat,
            }),
            result@.total == total,
            result@.auth_procedure == auth_procedure,
            result@.after_tx_cycles_obtained == after_tx_cycles_obtained,
    {
        Self { total, auth_procedure, after_tx_cycles_obtained }
    }

    /// The JSON object that reports these measurements.
    pub fn to_json(&self) -> (value: serde_json::Value)
        ensures
            json_tree(value) == self@.json(),
    {
        let mut value: serde_json::Value = json_new_object();
        json_set(&mut value, "total", json_from_usize(self.total));
        json_set(&mut value, "auth_procedure", json_from_usize(self.auth_procedure));
        json_set(
            &mut value,
            "after_tx_cycles_obtained",
            json_from_usize(self.after_tx_cycles_obtained),
        );
        value
    }
}

/// The number of rows that one Poseidon2 permutation takes in the hash chiplet.
pub const ROWS_PER_PERMUTATION: usize = 32;

/// A summary of how the use of Poseidon2 is counted from the trace.
#[derive(Debug, Clone, Copy)]
pub struct Poseidon2Measurements {
    hash_chiplet_rows: usize,
    rows_per_permutation: usize,
    total_permutations: usize,
    sampled_work: [Poseidon2SampledWork; 4],
    excluded_work: &'static str,
}

impl View for Poseidon2Measurements {
    type V = Poseidon2View;

    closed spec fn view(&self) -> Poseidon2View {
        Poseidon2View {
            hash_chiplet_rows: self.hash_chiplet_rows as nat,
            rows_per_permutation: self.rows_per_permutation as nat,
            total_permutations: self.total_permutations as nat,
            sampled_work: self.sampled_work@.map_values(|work: Poseidon2SampledWork| work@),
            excluded_work: self.excluded_work@,
        }
    }
}

impl Poseidon2Measurements {
    /// Counts the permutations in the hash chiplet. Rows behind the last whole permutation do
    /// not count.
    pub fn from_trace_summary(trace_summary: TraceLenSummary) -> (result: Self)
        ensures
            result@ == poseidon2_usage(trace_summary.hash_chiplet_len as nat),
            result@.hash_chiplet_rows == trace_summary.hash_chiplet_len,
            result@.rows_per_permutation == 32,
            result@.total_permutations == trace_summary.hash_chiplet_len as int / 32,
            result@.sampled_work.len() == 4,
            result@.sampled_work[0].op == "HPERM"@,
            result@.sampled_work[0].counting_rule
                == "each invocation contributes 1 Poseidon2 permutation"@,
            result@.sampled_work[1].op == "MPVERIFY"@,
            result@.sampled_work[1].counting_rule
                == "each Merkle path node contributes 1 Poseidon2 permutation"@,
            result@.sampled_work[2].op == "MRUPDATE"@,
            result@.sampled_work[2].counting_rule
                == "each Merkle path node contributes 2 Poseidon2 permutations"@,
            result@.sampled_work[3].op == "VM control-block hashing"@,
            result@.sampled_work[3].counting_rule
                == "included when the VM routes the work through the hash chiplet"@,
            result@.excluded_work
                == "host-side Rust Poseidon2 calls outside VM execution are not counted"@,
    {
        let hash_chiplet_rows: usize = trace_summary.hash_chiplet_len;
        let result = Self {
            hash_chiplet_rows,
            rows_per_permutation: ROWS_PER_PERMUTATION,
            total_permutations: hash_chiplet_rows / ROWS_PER_PERMUTATION,
            sampled_work: [
                Poseidon2SampledWork {
                    op: "HPERM",
                    counting_rule: "each invocation contributes 1 Poseidon2 permutation",
                },
                Poseidon2SampledWork {
                    op: "MPVERIFY",
                    counting_rule: "each Merkle path node contributes 1 Poseidon2 permutation",
                },
                Poseidon2SampledWork {
                    op: "MRUPDATE",
                    counting_rule: "each Merkle path node contributes 2 Poseidon2 permutations",
                },
                Poseidon2SampledWork {
                    op: "VM control-block hashing",
                    counting_rule: "included when the VM routes the work through the hash chiplet",
                },
            ],
            excluded_work: "host-side Rust Poseidon2 calls outside VM execution are not counted",
        };
        assert(result@.sampled_work =~= poseidon2_usage(hash_chiplet_rows as nat).sampled_work);
        result
    }

    /// The JSON object that reports these measurements.
    pub fn to_json(&self) -> (value: serde_json::Value)
        ensures
            json_tree(value) == self@.json(),
    {
        let mut items: Vec<serde_json::Value> = Vec::new();
        for i in 0..4usize
            invariant
                items@.len() == i,
                forall|j: int|
                    0 <= j < i ==> json_tree(#[trigger] items@[j]) == self.sampled_work@[j]@.json(),
        {
            items.push(self.sampled_work[i].to_json());
        }
        assert(items@.map_values(|item: serde_json::Value| json_tree(item))
            =~= self@.sampled_work.map_values(|work: SampledWorkView| work.json()));

        let mut value: serde_json::Value = json_new_object();
        json_set(&mut value, "hash_chiplet_rows", json_from_usize(self.hash_chiplet_rows));
        json_set(&mut value, "rows_per_permutation", json_from_usize(self.rows_per_permutation));
        json_set(&mut value, "total_permutations", json_from_usize(self.total_permutations));
        json_set(&mut value, "sampled_work", json_from_items(items));
        json_set(&mut value, "excluded_work", json_from_text(self.excluded_work));
        value
    }
}

/// How one kind of work is counted.
#[derive(Debug, Clone, Copy)]
pub struct Poseidon2SampledWork {
    op: &'static str,
    counting_rule: &'static str,
}

impl View for Poseidon2SampledWork {
    type V = SampledWorkView;

    closed spec fn view(&self) -> SampledWorkView {
        SampledWorkView { op: self.op@, counting_rule: self.counting_rule@ }
    }
}

impl Poseidon2SampledWork {
    /// The JSON object that reports this rule.
    pub fn to_json(&self) -> (value: serde_json::Value)
        ensures
            json_tree(value) == self@.json(),
    {
        let mut value: serde_json::Value = json_new_object();
        json_set(&mut value, "op", json_from_text(self.op));
        json_set(&mut value, "counting_rule", json_from_text(self.counting_rule));
        value
    }
}

/// The same is reported in whichever order distinct notes were executed.
pub proof fn law_order_of_notes_is_not_reported(
    a: TransactionMeasurements,
    b: TransactionMeasurements,
    trace_summary: TraceLenSummary,
)
    requires
        a.prologue == b.prologue,
        a.notes_processing == b.notes_processing,
        a.tx_script_processing == b.tx_script_processing,
        a.epilogue == b.epilogue,
        a.auth_procedure == b.auth_procedure,
        a.after_tx_cycles_obtained == b.after_tx_cycles_obtained,
        a.note_execution@.to_multiset() == b.note_execution@.to_multiset(),
        forall|i: int, j: int|
            0 <= i < j < a.note_execution@.len() ==> (#[trigger] a.note_execution@[i]).0@ != (
            #[trigger] a.note_execution@[j]).0@,
    ensures
        reported(a, trace_summary) == reported(b, trace_summary),
{
    law_order_of_notes_does_not_matter(a.note_execution@, b.note_execution@);
}

/// Every row of the hash chiplet belongs to one of the counted permutations, unless it is among
/// the rows of a last, incomplete one.
pub proof fn law_permutations_account_for_rows(hash_chiplet_rows: nat)
    ensures
        ({
            let usage = poseidon2_usage(hash_chiplet_rows);
            let counted = usage.total_permutations * 32;
            &&& usage.rows_per_permutation == 32
            &&& counted <= hash_chiplet_rows < counted + 32
            &&& hash_chiplet_rows % 32 == 0 ==> counted == hash_chiplet_rows
        }),
{
}

/// The report of a transaction has exactly these members.
pub proof fn law_report_members(measurements: MeasurementsView)
    ensures
        measurements.json().members().dom() == set![
            "prologue"@,
            "notes_processing"@,
            "note_execution"@,
            "tx_script_processing"@,
            "epilogue"@,
            "poseidon2"@,
        ],
        measurements.json().members()["prologue"@] == Json::Integer(measurements.prologue as int),
        measurements.json().members()["notes_processing"@] == Json::Integer(
            measurements.notes_processing as int,
        ),
        measurements.json().members()["note_execution"@] == note_cycles_json(
            measurements.note_execution,
        ),
        measurements.json().members()["tx_script_processing"@] == Json::Integer(
            measurements.tx_script_processing as int,
        ),
        measurements.json().members()["epilogue"@] == measurements.epilogue.json(),
        measurements.json().members()["poseidon2"@] == measurements.poseidon2.json(),
{
    reveal_strlit("prologue");
    assert("prologue"@.len() == 8);
    reveal_strlit("notes_processing");
    assert("notes_processing"@.len() == 16);
    reveal_strlit("note_execution");
    assert("note_execution"@.len() == 14);
    reveal_strlit("tx_script_processing");
    assert("tx_script_processing"@.len() == 20);
    reveal_strlit("epilogue");
    assert("epilogue"@.len() == 8);
    reveal_strlit("poseidon2");
    assert("poseidon2"@.len() == 9);
    assert("prologue"@[0] != "epilogue"@[0]);
}

/// The report of an epilogue has exactly these members.
pub proof fn law_epilogue_members(epilogue: EpilogueView)
    ensures
        epilogue.json().members().dom() == set![
            "total"@,
            "auth_procedure"@,
            "after_tx_cycles_obtained"@,
        ],
        epilogue.json().members()["total"@] == Json::Integer(epilogue.total as int),
        epilogue.json().members()["auth_procedure"@] == Json::Integer(
            epilogue.auth_procedure as int,
        ),
        epilogue.json().members()["after_tx_cycles_obtained"@] == Json::Integer(
            epilogue.after_tx_cycles_obtained as int,
        ),
{
    reveal_strlit("total");
    assert("total"@.len() == 5);
    reveal_strlit("auth_procedure");
    assert("auth_procedure"@.len() == 14);
    reveal_strlit("after_tx_cycles_obtained");
    assert("after_tx_cycles_obtained"@.len() == 24);
}

/// The report of the use of Poseidon2 has exactly these members.
pub proof fn law_poseidon2_members(poseidon2: Poseidon2View)
    ensures
        poseidon2.json().members().dom() == set![
            "hash_chiplet_rows"@,
            "rows_per_permutation"@,
            "total_permutations"@,
            "sampled_work"@,
            "excluded_work"@,
        ],
        poseidon2.json().members()["hash_chiplet_rows"@] == Json::Integer(
            poseidon2.hash_chiplet_rows as int,
        ),
        poseidon2.json().members()["rows_per_permutation"@] == Json::Integer(
            poseidon2.rows_per_permutation as int,
        ),
        poseidon2.json().members()["total_permutations"@] == Json::Integer(
            poseidon2.total_permutations as int,
        ),
        poseidon2.json().members()["sampled_work"@] == Json::Array(
            poseidon2.sampled_work.map_values(|work: SampledWorkView| work.json()),
        ),
        poseidon2.json().members()["excluded_work"@] == Json::Text(poseidon2.excluded_work),
{
    reveal_strlit("hash_chiplet_rows");
    assert("hash_chiplet_rows"@.len() == 17);
    reveal_strlit("rows_per_permutation");
    assert("rows_per_permutation"@.len() == 20);
    reveal_strlit("total_permutations");
    assert("total_permutations"@.len() == 18);
    reveal_strlit("sampled_work");
    assert("sampled_work"@.len() == 12);
    reveal_strlit("excluded_work");
    assert("excluded_work"@.len() == 13);
}

/// The report of a counting rule has exactly these members.
pub proof fn law_sampled_work_members(work: SampledWorkView)
    ensures
        work.json().members().dom() == set!["op"@, "counting_rule"@],
        work.json().members()["op"@] == Json::Text(work.op),
        work.json().members()["counting_rule"@] == Json::Text(work.counting_rule),
{
    reveal_strlit("op");
    assert("op"@.len() == 2);
    reveal_strlit("counting_rule");
    assert("counting_rule"@.len() == 13);
}

/// The report tells the measurements: transactions that are reported alike were measured alike.
pub proof fn law_report_determines_measurements(a: MeasurementsView, b: MeasurementsView)
    requires
        a.json() == b.json(),
    ensures
        a == b,
{
    law_report_members(a);
    law_report_members(b);
    law_epilogue_members(a.epilogue);
    law_epilogue_members(b.epilogue);
    law_poseidon2_members(a.poseidon2);
    law_poseidon2_members(b.poseidon2);
    let (m, n) = (a.note_execution, b.note_execution);
    let to_json = |n: nat| Json::Integer(n as int);
    assert(m.map_values(to_json) == n.map_values(to_json));
    assert(m.map_values(to_json).dom() == m.dom() && n.map_values(to_json).dom() == n.dom());
    assert forall|name: Seq<char>| m.contains_key(name) implies m[name] == n[name] by {
        assert(m.map_values(to_json)[name] == Json::Integer(m[name] as int));
        assert(n.map_values(to_json)[name] == Json::Integer(n[name] as int));
    }
    assert(m =~= n);
    let (v, w) = (a.poseidon2.sampled_work, b.poseidon2.sampled_work);
    let work_json = |work: SampledWorkView| work.json();
    assert(v.map_values(work_json) == w.map_values(work_json));
    assert(v.map_values(work_json).len() == v.len() && w.map_values(work_json).len() == w.len());
    assert forall|i: int| 0 <= i < v.len() implies v[i] == w[i] by {
        assert(v.map_values(work_json)[i] == v[i].json());
        assert(w.map_values(work_json)[i] == w[i].json());
        law_sampled_work_members(v[i]);
        law_sampled_work_members(w[i]);
    }
    assert(v =~= w);
}

/// Every stage is reported with its own cycle count, whatever the notes and the trace are, and
/// every note with its own.
pub proof fn law_stages_are_reported(
    tx_measurements: TransactionMeasurements,
    trace_summary: TraceLenSummary,
)
    ensures
        ({
            let report = reported(tx_measurements, trace_summary);
            &&& report.prologue == tx_measurements.prologue
            &&& report.notes_processing == tx_measurements.notes_processing
            &&& report.tx_script_processing == tx_measurements.tx_script_processing
            &&& report.epilogue.total == tx_measurements.epilogue
            &&& report.epilogue.auth_procedure == tx_measurements.auth_procedure
            &&& report.epilogue.after_tx_cycles_obtained
                == tx_measurements.after_tx_cycles_obtained
            &&& report.poseidon2.hash_chiplet_rows == trace_summary.hash_chiplet_len
        }),
        ({
            let notes = tx_measurements.note_execution@;
            let listed = reported(tx_measurements, trace_summary).note_execution;
            &&& (forall|i: int|
                0 <= i < notes.len() && (forall|j: int|
                    i < j < notes.len() ==> (#[trigger] notes[j]).0@ != notes[i].0@)
                    ==> listed.contains_key(word_hex((#[trigger] notes[i]).0@))
                    && listed[word_hex(notes[i].0@)] == notes[i].1)
            &&& (forall|name: Seq<char>| #[trigger]
                listed.contains_key(name) ==> exists|i: int|
                    0 <= i < notes.len() && word_hex((#[trigger] notes[i]).0@) == name)
        }),
{
    law_notes_and_entries_agree(tx_measurements.note_execution@);
}

/// Transactions that are reported alike took the same number of cycles in every stage, executed
/// the same notes with the same last counts, and have as many rows in the hash chiplet.
pub proof fn law_equal_reports_come_from_equal_counts(
    a: TransactionMeasurements,
    a_trace: TraceLenSummary,
    b: TransactionMeasurements,
    b_trace: TraceLenSummary,
)
    requires
        reported(a, a_trace).json() == reported(b, b_trace).json(),
    ensures
        a.prologue == b.prologue,
        a.notes_processing == b.notes_processing,
        a.tx_script_processing == b.tx_script_processing,
        a.epilogue == b.epilogue,
        a.auth_procedure == b.auth_procedure,
        a.after_tx_cycles_obtained == b.after_tx_cycles_obtained,
        a_trace.hash_chiplet_len == b_trace.hash_chiplet_len,
        note_cycles(a.note_execution@) == note_cycles(b.note_execution@),
{
    law_report_determines_measurements(reported(a, a_trace), reported(b, b_trace));
}

/// The report of Poseidon2 use: the rows themselves, 32 rows to a permutation, as many
/// permutations as the rows hold, and the same texts for every trace.
pub proof fn law_poseidon2_usage(rows: nat)
    ensures
        poseidon2_usage(rows).hash_chiplet_rows == rows,
        poseidon2_usage(rows).rows_per_permutation == 32,
        poseidon2_usage(rows).total_permutations == rows as int / 32,
        poseidon2_usage(rows).sampled_work.len() == 4,
        poseidon2_usage(rows).sampled_work[0].op == "HPERM"@,
        poseidon2_usage(rows).sampled_work[0].counting_rule
            == "each invocation contributes 1 Poseidon2 permutation"@,
        poseidon2_usage(rows).sampled_work[1].op == "MPVERIFY"@,
        poseidon2_usage(rows).sampled_work[1].counting_rule
            == "each Merkle path node contributes 1 Poseidon2 permutation"@,
        poseidon2_usage(rows).sampled_work[2].op == "MRUPDATE"@,
        poseidon2_usage(rows).sampled_work[2].counting_rule
            == "each Merkle path node contributes 2 Poseidon2 permutations"@,
        poseidon2_usage(rows).sampled_work[3].op == "VM control-block hashing"@,
        poseidon2_usage(rows).sampled_work[3].counting_rule
            == "included when the VM routes the work through the hash chiplet"@,
        poseidon2_usage(rows).excluded_work
            == "host-side Rust Poseidon2 calls outside VM execution are not counted"@,
{
}

/// A permutation more takes 32 rows more and is one more in the count.
pub proof fn law_next_permutation_is_counted(rows: nat)
    ensures
        poseidon2_usage(rows + 32).total_permutations == poseidon2_usage(rows).total_permutations
            + 1,
        rows < 32 ==> poseidon2_usage(rows).total_permutations == 0,
{
}

} // verus!
