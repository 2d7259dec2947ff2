//! The file of benchmark results: a JSON object with one member for each benchmark.
use crate::json::{
    json_from_str, json_is_null, json_is_object, json_set, json_to_string_pretty,
};
use crate::measurements::MeasurementsPrinter;
use vstd::prelude::*;

#[allow(unused_imports)]
use crate::json::{
    empty_object, json_tree, max_text_depth, parse_text, pretty_text, reads_as, Json,
};
#[allow(unused_imports)]
use crate::measurements::MeasurementsView;

verus! {

/// Why benchmark results cannot be put into a file.
#[derive(Debug)]
pub enum BenchResultsError {
    /// The file does not hold a JSON document, for the reason in the message.
    InvalidJson(String),
    /// The document in the file is neither an object nor null, so it has no members to set.
    NotAnObject,
}

/// The benchmarks' names and what is reported of each.
pub open spec fn results_view(tx_benchmarks: Seq<(String, MeasurementsPrinter)>) -> Seq<
    (Seq<char>, MeasurementsView),
> {
    tx_benchmarks.map_values(|result: (String, MeasurementsPrinter)| (result.0@, result.1@))
}

/// The document in which the report of each benchmark has been set as the member with the
/// benchmark's name, one after the other.
pub open spec fn filled(document: Json, results: Seq<(Seq<char>, MeasurementsView)>) -> Json
    decreases results.len(),
{
    if results.len() == 0 {
        document
    } else {
        filled(document, results.drop_last()).with_member(
            results.last().0,
            results.last().1.json(),
        )
    }
}

/// Whether the results can be set in the document: there are none, or members can be set.
pub open spec fn fillable(document: Json, results: Seq<(Seq<char>, MeasurementsView)>) -> bool {
    results.len() == 0 || document.accepts_members()
}

/// Whether `text` is what a file with the contents `file` holds once the results have been put
/// into it. A document without decimal numbers can be read back from it.
pub open spec fn written(
    file: Seq<char>,
    results: Seq<(Seq<char>, MeasurementsView)>,
    text: Seq<char>,
) -> bool {
    match parse_text(file) {
        Ok(document) => {
            &&& fillable(document, results)
            &&& text == pretty_text(filled(document, results))
            &&& document.integral() ==> reads_as(text, filled(document, results))
        },
        Err(_) => false,
    }
}

/// Sets the report of each benchmark in the document.
pub fn fill_bench_results(
    benchmark_json: serde_json::Value,
    tx_benchmarks: &Vec<(String, MeasurementsPrinter)>,
) -> (result: serde_json::Value)
    requires
        fillable(json_tree(benchmark_json), results_view(tx_benchmarks@)),
    ensures
        json_tree(result) == filled(json_tree(benchmark_json), results_view(tx_benchmarks@)),
        ({
            let (before, after) = (json_tree(benchmark_json), json_tree(result));
            let benchmarks = tx_benchmarks@;
            &&& (forall|i: int|
                0 <= i < benchmarks.len() && (forall|j: int|
                    i < j < benchmarks.len() ==> (#[trigger] benchmarks[j]).0@ != benchmarks[i].0@)
                    ==> after is Object && after->Object_0.contains_key(
                    (#[trigger] benchmarks[i]).0@,
                ) && after->Object_0[benchmarks[i].0@] == benchmarks[i].1@.json())
            &&& (forall|name: Seq<char>|
                before is Object && (forall|i: int|
                    0 <= i < benchmarks.len() ==> (#[trigger] benchmarks[i]).0@ != name) ==> after
                    is Object && (#[trigger] after->Object_0.contains_key(name)
                    <==> before->Object_0.contains_key(name)) && after->Object_0[name]
                    == before->Object_0[name])
            &&& (forall|name: Seq<char>|
                before is Null && benchmarks.len() > 0 && #[trigger] after->Object_0.contains_key(name)
                    ==> exists|i: int| 0 <= i < benchmarks.len() && (#[trigger] benchmarks[i]).0@ == name)
            &&& benchmarks.len() == 0 ==> after == before
        }),
{
    let ghost document = json_tree(benchmark_json);
    let ghost results = results_view(tx_benchmarks@);
    let mut value: serde_json::Value = benchmark_json;
    for i in 0..tx_benchmarks.len()
        invariant
            results == results_view(tx_benchmarks@),
            fillable(document, results),
            json_tree(value) == filled(document, results.take(i as int)),
    {
        assert(results.take(i + 1).drop_last() =~= results.take(i as int));
        assert(results.take(i + 1).last() == results[i as int]);
        json_set(&mut value, tx_benchmarks[i].0.as_str(), tx_benchmarks[i].1.to_json());
    }
    assert(results.take(results.len() as int) =~= results);
    proof {
        law_every_result_is_set(document, tx_benchmarks@);
    }
    value
}

/// The contents of the file of benchmark results once the results have been put into it, made
/// from the contents that it has now.
pub fn write_bench_results_to_json(
    benchmark_file: &str,
    tx_benchmarks: Vec<(String, MeasurementsPrinter)>,
) -> (result: Result<String, BenchResultsError>)
    ensures
        result matches Err(BenchResultsError::InvalidJson(_)) <==> parse_text(
            benchmark_file@,
        ) is Err,
        result matches Err(BenchResultsError::InvalidJson(message)) ==> message@ == parse_text(
            benchmark_file@,
        )->Err_0,
        result matches Err(BenchResultsError::NotAnObject) <==> (parse_text(
            benchmark_file@,
        ) matches Ok(document) && !fillable(document, results_view(tx_benchmarks@))),
        result matches Ok(text) ==> written(
            benchmark_file@,
            results_view(tx_benchmarks@),
            text@,
        ),
        result matches Err(BenchResultsError::NotAnObject) <==> (parse_text(
            benchmark_file@,
        ) matches Ok(document) && tx_benchmarks@.len() > 0 && document !is Object && document
            !is Null),
        result matches Ok(text) ==> exists|after: Json|
            {
                let before = parse_text(benchmark_file@)->Ok_0;
                let benchmarks = tx_benchmarks@;
                &&& text@ == #[trigger] pretty_text(after)
                &&& before.integral() ==> parse_text(text@) is Ok && parse_text(text@)->Ok_0 == after
                &&& (forall|i: int|
                    0 <= i < benchmarks.len() && (forall|j: int|
                        i < j < benchmarks.len() ==> (#[trigger] benchmarks[j]).0@ != benchmarks[i].0@)
                        ==> after is Object && after->Object_0.contains_key(
                        (#[trigger] benchmarks[i]).0@,
                    ) && after->Object_0[benchmarks[i].0@] == benchmarks[i].1@.json())
                &&& (forall|name: Seq<char>|
                    before is Object && (forall|i: int|
                        0 <= i < benchmarks.len() ==> (#[trigger] benchmarks[i]).0@ != name) ==> after
                        is Object && (#[trigger] after->Object_0.contains_key(name)
                        <==> before->Object_0.contains_key(name)) && after->Object_0[name]
                        == before->Object_0[name])
                &&& (forall|name: Seq<char>|
                    before is Null && benchmarks.len() > 0 && #[trigger] after->Object_0.contains_key(name)
                        ==> exists|i: int| 0 <= i < benchmarks.len() && (#[trigger] benchmarks[i]).0@ == name)
                &&& benchmarks.len() == 0 ==> after == before
            },
        benchmark_file@ == "{}"@ ==> reads_as(benchmark_file@, empty_object()),
{
    let benchmark_json: serde_json::Value = match json_from_str(benchmark_file) {
        Ok(value) => value,
        Err(message) => {
            return Err(BenchResultsError::InvalidJson(message));
        },
    };
    if tx_benchmarks.len() > 0 && !json_is_object(&benchmark_json) && !json_is_null(
        &benchmark_json,
    ) {
        return Err(BenchResultsError::NotAnObject);
    }
    let ghost document = json_tree(benchmark_json);
    let filled_json: serde_json::Value = fill_bench_results(benchmark_json, &tx_benchmarks);
    let text: String = json_to_string_pretty(&filled_json);
    proof {
        lemma_filled_nests(document, results_view(tx_benchmarks@));
        if document.integral() {
            lemma_filled_integral(document, results_view(tx_benchmarks@));
        }
        assert(text@ == pretty_text(json_tree(filled_json)));
    }
    Ok(text)
}

proof fn lemma_filled_integral(document: Json, results: Seq<(Seq<char>, MeasurementsView)>)
    requires
        document.integral(),
    ensures
        filled(document, results).integral(),
    decreases results.len(),
{
    if results.len() > 0 {
        lemma_filled_integral(document, results.drop_last());
        let before = filled(document, results.drop_last());
        let after = filled(document, results);
        lemma_report_integral(results.last().1);
        assert forall|name: Seq<char>| after.members().contains_key(name) implies (
        #[trigger] after.members()[name]).integral() by {
            if name != results.last().0 {
                assert(before.members()[name].integral());
            }
        }
    }
}

proof fn lemma_filled_nests(document: Json, results: Seq<(Seq<char>, MeasurementsView)>)
    requires
        document.nests_within(max_text_depth()),
    ensures
        filled(document, results).nests_within(max_text_depth()),
    decreases results.len(),
{
    if results.len() > 0 {
        lemma_filled_nests(document, results.drop_last());
        let before = filled(document, results.drop_last());
        let after = filled(document, results);
        let depth = (max_text_depth() - 1) as nat;
        lemma_report_nests(results.last().1);
        lemma_nests_deeper(results.last().1.json(), 4, depth);
        assert forall|name: Seq<char>| after.members().contains_key(name) implies (
        #[trigger] after.members()[name]).nests_within(depth) by {
            if name != results.last().0 {
                assert(before.members()[name].nests_within(depth));
            }
        }
    }
}

proof fn lemma_nests_deeper(value: Json, depth: nat, deeper: nat)
    requires
        value.nests_within(depth),
        depth <= deeper,
    ensures
        value.nests_within(deeper),
    decreases depth,
{
    match value {
        Json::Array(items) => {
            assert forall|i: int| 0 <= i < items.len() implies (#[trigger] items[i]).nests_within(
                (deeper - 1) as nat,
            ) by {
                lemma_nests_deeper(items[i], (depth - 1) as nat, (deeper - 1) as nat);
            }
        },
        Json::Object(members) => {
            assert forall|name: Seq<char>| members.contains_key(name) implies (
            #[trigger] members[name]).nests_within((deeper - 1) as nat) by {
                lemma_nests_deeper(members[name], (depth - 1) as nat, (deeper - 1) as nat);
            }
        },
        _ => {},
    }
}

proof fn lemma_report_integral(measurements: MeasurementsView)
    ensures
        measurements.json().integral(),
{
    reveal_with_fuel(Json::integral, 5);
}

proof fn lemma_report_nests(measurements: MeasurementsView)
    ensures
        measurements.json().nests_within(4),
{
    reveal_with_fuel(Json::nests_within, 5);
}

/// Whether result `i` is the last one of the benchmark with this name.
pub open spec fn is_last_result(
    results: Seq<(Seq<char>, MeasurementsView)>,
    name: Seq<char>,
    i: int,
) -> bool {
    &&& 0 <= i < results.len()
    &&& results[i].0 == name
    &&& forall|j: int| i < j < results.len() ==> (#[trigger] results[j]).0 != name
}

/// The document holds the last report of every benchmark under the benchmark's name.
pub proof fn law_results_are_stored(
    document: Json,
    results: Seq<(Seq<char>, MeasurementsView)>,
    i: int,
)
    requires
        0 <= i < results.len(),
        forall|j: int| i < j < results.len() ==> (#[trigger] results[j]).0 != results[i].0,
    ensures
        filled(document, results) is Object,
        filled(document, results).members().contains_key(results[i].0),
        filled(document, results).members()[results[i].0] == results[i].1.json(),
    decreases results.len(),
{
    let rest = results.drop_last();
    if i < rest.len() {
        assert(results.last().0 != results[i].0);
        assert forall|j: int| i < j < rest.len() implies (#[trigger] rest[j]).0 != rest[i].0 by {
            assert(rest[j] == results[j]);
        }
        law_results_are_stored(document, rest, i);
    }
}

/// The members of the document that no benchmark is named after stay as they are, and no other
/// members are added.
pub proof fn law_other_members_are_kept(
    document: Json,
    results: Seq<(Seq<char>, MeasurementsView)>,
    name: Seq<char>,
)
    requires
        forall|i: int| 0 <= i < results.len() ==> (#[trigger] results[i]).0 != name,
    ensures
        filled(document, results).members().contains_key(name) <==> document.members().contains_key(
            name,
        ),
        filled(document, results).members()[name] == document.members()[name],
    decreases results.len(),
{
    if results.len() > 0 {
        let rest = results.drop_last();
        assert forall|i: int| 0 <= i < rest.len() implies (#[trigger] rest[i]).0 != name by {
            assert(rest[i] == results[i]);
        }
        law_other_members_are_kept(document, rest, name);
    }
}

/// There is a last result of every benchmark that has one.
proof fn lemma_last_result(
    results: Seq<(Seq<char>, MeasurementsView)>,
    name: Seq<char>,
    i: int,
) -> (last: int)
    requires
        0 <= i < results.len(),
        results[i].0 == name,
    ensures
        is_last_result(results, name, last),
    decreases results.len() - i,
{
    if exists|j: int| i < j < results.len() && (#[trigger] results[j]).0 == name {
        let j = choose|j: int| i < j < results.len() && (#[trigger] results[j]).0 == name;
        lemma_last_result(results, name, j)
    } else {
        i
    }
}

/// Setting the same results a second time changes nothing.
pub proof fn law_filling_again_changes_nothing(
    document: Json,
    results: Seq<(Seq<char>, MeasurementsView)>,
)
    ensures
        filled(filled(document, results), results) == filled(document, results),
{
    if results.len() > 0 {
        let once = filled(document, results);
        let twice = filled(once, results);
        assert forall|name: Seq<char>| #[trigger]
            twice.members().contains_key(name) == once.members().contains_key(name)
                && twice.members()[name] == once.members()[name] by {
            if exists|i: int| 0 <= i < results.len() && (#[trigger] results[i]).0 == name {
                let i = choose|i: int| 0 <= i < results.len() && (#[trigger] results[i]).0 == name;
                let last = lemma_last_result(results, name, i);
                law_results_are_stored(document, results, last);
                law_results_are_stored(once, results, last);
            } else {
                law_other_members_are_kept(once, results, name);
            }
        }
        assert(twice.members() =~= once.members());
    }
}

/// Setting results in two batches is setting them all at once.
pub proof fn law_filling_in_batches(
    document: Json,
    first: Seq<(Seq<char>, MeasurementsView)>,
    second: Seq<(Seq<char>, MeasurementsView)>,
)
    ensures
        filled(filled(document, first), second) == filled(document, first + second),
    decreases second.len(),
{
    if second.len() == 0 {
        assert(first + second =~= first);
    } else {
        law_filling_in_batches(document, first, second.drop_last());
        assert((first + second).drop_last() =~= first + second.drop_last());
    }
}

/// The file that a run leaves behind, when it found one without decimal numbers, can be read
/// again: it holds the document with the results, and takes further results if the document
/// that the run found has members.
pub proof fn law_written_file_is_read_back(
    file: Seq<char>,
    results: Seq<(Seq<char>, MeasurementsView)>,
    text: Seq<char>,
    further: Seq<(Seq<char>, MeasurementsView)>,
)
    requires
        written(file, results, text),
        parse_text(file)->Ok_0.integral(),
    ensures
        reads_as(text, filled(parse_text(file)->Ok_0, results)),
        parse_text(file)->Ok_0.accepts_members() ==> fillable(
            parse_text(text)->Ok_0,
            further,
        ),
{
}

/// Putting the same results a second time into a file that held no decimal numbers leaves it as
/// it is.
pub proof fn law_writing_again_changes_nothing(
    file: Seq<char>,
    results: Seq<(Seq<char>, MeasurementsView)>,
    text: Seq<char>,
    again: Seq<char>,
)
    requires
        written(file, results, text),
        parse_text(file)->Ok_0.integral(),
        written(text, results, again),
    ensures
        again == text,
{
    law_filling_again_changes_nothing(parse_text(file)->Ok_0, results);
}

/// Putting results in two runs into a file that held no decimal numbers leaves the file that one
/// run with all of them leaves.
pub proof fn law_writing_in_batches(
    file: Seq<char>,
    first: Seq<(Seq<char>, MeasurementsView)>,
    text: Seq<char>,
    second: Seq<(Seq<char>, MeasurementsView)>,
    last_text: Seq<char>,
)
    requires
        written(file, first, text),
        parse_text(file)->Ok_0.integral(),
        written(text, second, last_text),
    ensures
        written(file, first + second, last_text),
{
    let document = parse_text(file)->Ok_0;
    law_filling_in_batches(document, first, second);
    lemma_filled_integral(document, first);
}

/// A file that starts as the object without members ends with a member for each benchmark, and
/// no other.
pub proof fn law_fresh_file_holds_the_results(
    file: Seq<char>,
    results: Seq<(Seq<char>, MeasurementsView)>,
    text: Seq<char>,
    name: Seq<char>,
)
    requires
        reads_as(file, empty_object()),
        written(file, results, text),
    ensures
        reads_as(text, filled(empty_object(), results)),
        filled(empty_object(), results).members().contains_key(name) <==> exists|i: int|
            0 <= i < results.len() && (#[trigger] results[i]).0 == name,
{
    assert(empty_object().integral());
    if exists|i: int| 0 <= i < results.len() && (#[trigger] results[i]).0 == name {
        let i = choose|i: int| 0 <= i < results.len() && (#[trigger] results[i]).0 == name;
        let last = lemma_last_result(results, name, i);
        law_results_are_stored(empty_object(), results, last);
    } else {
        law_other_members_are_kept(empty_object(), results, name);
    }
}

/// The results are those of all the benchmarks, one for each, in order.
pub proof fn law_every_benchmark_has_its_result(
    tx_benchmarks: Seq<(String, MeasurementsPrinter)>,
    i: int,
)
    ensures
        results_view(tx_benchmarks).len() == tx_benchmarks.len(),
        0 <= i < tx_benchmarks.len() ==> results_view(tx_benchmarks)[i].0 == tx_benchmarks[i].0@
            && results_view(tx_benchmarks)[i].1 == tx_benchmarks[i].1@,
{
}

/// Results can be set in objects and in null, and no results in anything.
pub proof fn law_what_takes_results(document: Json, results: Seq<(Seq<char>, MeasurementsView)>)
    ensures
        fillable(document, results) <==> results.len() == 0 || document is Object || document
            is Null,
{
}

/// The document holds the report of every benchmark under the benchmark's name, the last one
/// where a name occurs again; the other members of an object stay as they are, and null gets no
/// others.
pub proof fn law_every_result_is_set(
    document: Json,
    tx_benchmarks: Seq<(String, MeasurementsPrinter)>,
)
    ensures
        ({
            let after = filled(document, results_view(tx_benchmarks));
            &&& (forall|i: int|
                0 <= i < tx_benchmarks.len() && (forall|j: int|
                    i < j < tx_benchmarks.len() ==> (#[trigger] tx_benchmarks[j]).0@
                        != tx_benchmarks[i].0@) ==> after is Object
                    && after->Object_0.contains_key((#[trigger] tx_benchmarks[i]).0@)
                    && after->Object_0[tx_benchmarks[i].0@] == tx_benchmarks[i].1@.json())
            &&& (forall|name: Seq<char>|
                document is Object && (forall|i: int|
                    0 <= i < tx_benchmarks.len() ==> (#[trigger] tx_benchmarks[i]).0@ != name)
                    ==> after is Object && (#[trigger] after->Object_0.contains_key(name)
                    <==> document->Object_0.contains_key(name)) && after->Object_0[name]
                    == document->Object_0[name])
            &&& (forall|name: Seq<char>|
                document is Null && tx_benchmarks.len() > 0
                    && #[trigger] after->Object_0.contains_key(name) ==> exists|i: int|
                    0 <= i < tx_benchmarks.len() && (#[trigger] tx_benchmarks[i]).0@ == name)
            &&& tx_benchmarks.len() == 0 ==> after == document
        }),
{
    let results = results_view(tx_benchmarks);
    let after = filled(document, results);
    assert forall|i: int|
        0 <= i < tx_benchmarks.len() && (forall|j: int|
            i < j < tx_benchmarks.len() ==> (#[trigger] tx_benchmarks[j]).0@
                != tx_benchmarks[i].0@) implies after is Object && after->Object_0.contains_key(
        (#[trigger] tx_benchmarks[i]).0@,
    ) && after->Object_0[tx_benchmarks[i].0@] == tx_benchmarks[i].1@.json() by {
        assert forall|j: int| i < j < results.len() implies (#[trigger] results[j]).0
            != results[i].0 by {
            assert(tx_benchmarks[j].0@ != tx_benchmarks[i].0@);
        }
        law_results_are_stored(document, results, i);
    }
    lemma_filled_is_object(document, results);
    assert forall|name: Seq<char>|
        document is Object && (forall|i: int|
            0 <= i < tx_benchmarks.len() ==> (#[trigger] tx_benchmarks[i]).0@ != name) implies after
        is Object && (#[trigger] after->Object_0.contains_key(name)
        <==> document->Object_0.contains_key(name)) && after->Object_0[name]
        == document->Object_0[name] by {
        lemma_not_named(tx_benchmarks, name);
        law_other_members_are_kept(document, results, name);
    }
    assert forall|name: Seq<char>|
        document is Null && tx_benchmarks.len() > 0
            && #[trigger] after->Object_0.contains_key(name) implies exists|i: int|
        0 <= i < tx_benchmarks.len() && (#[trigger] tx_benchmarks[i]).0@ == name by {
        if forall|i: int|
            0 <= i < tx_benchmarks.len() ==> (#[trigger] tx_benchmarks[i]).0@ != name {
            lemma_not_named(tx_benchmarks, name);
            law_other_members_are_kept(document, results, name);
        }
    }
}

proof fn lemma_not_named(tx_benchmarks: Seq<(String, MeasurementsPrinter)>, name: Seq<char>)
    requires
        forall|i: int| 0 <= i < tx_benchmarks.len() ==> (#[trigger] tx_benchmarks[i]).0@ != name,
    ensures
        forall|i: int|
            0 <= i < results_view(tx_benchmarks).len() ==> (
            #[trigger] results_view(tx_benchmarks)[i]).0 != name,
{
    assert forall|i: int| 0 <= i < results_view(tx_benchmarks).len() implies (
    #[trigger] results_view(tx_benchmarks)[i]).0 != name by {
        assert(tx_benchmarks[i].0@ != name);
    }
}

proof fn lemma_filled_is_object(document: Json, results: Seq<(Seq<char>, MeasurementsView)>)
    ensures
        results.len() > 0 ==> filled(document, results) is Object,
{
}

} // verus!
