//! The number of cycles that the execution of each note took, by the note's identifier.
use crate::json::{json_from_usize, json_new_object, json_set};
use crate::note_id::{note_id_to_hex, NoteId};
use vstd::prelude::*;
use vstd::utf8::encode_utf8;

#[allow(unused_imports)]
use crate::json::{empty_object, json_tree, Json};
#[allow(unused_imports)]
use crate::note_id::{law_hex_identifies_note, word_hex};

verus! {

/// Whether `i` is where `a` first differs from `b`, and `a` comes first there: it ends, or its
/// byte is the smaller one.
pub open spec fn bytes_before_at(a: Seq<u8>, b: Seq<u8>, i: int) -> bool {
    &&& 0 <= i <= a.len()
    &&& i < b.len()
    &&& forall|j: int| 0 <= j < i ==> a[j] == b[j]
    &&& i == a.len() || a[i] < b[i]
}

/// Whether the name `a` comes before the name `b` in the order of strings: the lexicographic
/// order of their UTF-8 bytes.
pub open spec fn name_before(a: Seq<char>, b: Seq<char>) -> bool {
    exists|i: int| bytes_before_at(encode_utf8(a), encode_utf8(b), i)
}

/// Whether the names are in ascending order, so that none occurs twice.
pub open spec fn ascending_names(names: Seq<Seq<char>>) -> bool {
    forall|i: int, j: int|
        0 <= i < j < names.len() ==> name_before(#[trigger] names[i], #[trigger] names[j])
}

proof fn lemma_name_before_irreflexive(a: Seq<char>)
    ensures
        !name_before(a, a),
{
}

proof fn lemma_name_before_transitive(a: Seq<char>, b: Seq<char>, c: Seq<char>)
    requires
        name_before(a, b),
        name_before(b, c),
    ensures
        name_before(a, c),
{
    let (x, y, z) = (encode_utf8(a), encode_utf8(b), encode_utf8(c));
    let i = choose|i: int| bytes_before_at(x, y, i);
    let j = choose|j: int| bytes_before_at(y, z, j);
    assert(bytes_before_at(
        x,
        z,
        if i < j {
            i
        } else {
            j
        },
    ));
}

proof fn lemma_name_before_total(a: Seq<char>, b: Seq<char>, i: int)
    requires
        0 <= i <= encode_utf8(a).len(),
        i <= encode_utf8(b).len(),
        forall|j: int| 0 <= j < i ==> encode_utf8(a)[j] == encode_utf8(b)[j],
        i == encode_utf8(a).len() || i == encode_utf8(b).len() || encode_utf8(a)[i]
            != encode_utf8(b)[i],
    ensures
        name_before(a, b) == bytes_before_at(encode_utf8(a), encode_utf8(b), i),
        name_before(b, a) == bytes_before_at(encode_utf8(b), encode_utf8(a), i),
        a == b || name_before(a, b) || name_before(b, a),
{
    let (x, y) = (encode_utf8(a), encode_utf8(b));
    if name_before(a, b) {
        let k = choose|k: int| bytes_before_at(x, y, k);
        assert(k == i);
    }
    if name_before(b, a) {
        let k = choose|k: int| bytes_before_at(y, x, k);
        assert(k == i);
    }
    assert(bytes_before_at(x, y, i) || bytes_before_at(y, x, i) || i == x.len() && i == y.len());
    if i == x.len() && i == y.len() {
        assert(x =~= y);
        vstd::utf8::encode_utf8_decode_utf8(a);
        vstd::utf8::encode_utf8_decode_utf8(b);
    }
}

/// Whether `a` comes before `b` in the order of strings.
fn is_before(a: &str, b: &str) -> (before: bool)
    ensures
        before == name_before(a@, b@),
        !before ==> a@ == b@ || name_before(b@, a@),
{
    let x: &[u8] = a.as_bytes();
    let y: &[u8] = b.as_bytes();
    let mut i: usize = 0;
    while i < x.len() && i < y.len() && x[i] == y[i]
        invariant
            i <= x@.len(),
            i <= y@.len(),
            forall|j: int| 0 <= j < i ==> x@[j] == y@[j],
        decreases x@.len() - i,
    {
        i += 1;
    }
    proof {
        lemma_name_before_total(a@, b@, i as int);
    }
    i < y.len() && (i == x.len() || x[i] < y[i])
}

/// Whether the entries are in ascending order of their names, so that no name occurs twice.
spec fn ascending(entries: Seq<(String, usize)>) -> bool {
    forall|i: int, j: int|
        0 <= i < j < entries.len() ==> name_before(
            (#[trigger] entries[i]).0@,
            (#[trigger] entries[j]).0@,
        )
}

/// The mapping that a sequence of entries stands for.
spec fn entries_map(entries: Seq<(String, usize)>) -> Map<Seq<char>, nat>
    decreases entries.len(),
{
    if entries.len() == 0 {
        Map::empty()
    } else {
        entries_map(entries.drop_last()).insert(entries.last().0@, entries.last().1 as nat)
    }
}

proof fn lemma_entries_map(entries: Seq<(String, usize)>)
    requires
        ascending(entries),
    ensures
        forall|i: int|
            0 <= i < entries.len() ==> entries_map(entries).contains_key(
                (#[trigger] entries[i]).0@,
            ) && entries_map(entries)[entries[i].0@] == entries[i].1,
        forall|name: Seq<char>| #[trigger]
            entries_map(entries).contains_key(name) ==> exists|i: int|
                0 <= i < entries.len() && (#[trigger] entries[i]).0@ == name,
    decreases entries.len(),
{
    if entries.len() > 0 {
        let rest = entries.drop_last();
        lemma_entries_map(rest);
        let last = entries.len() - 1;
        assert forall|i: int| 0 <= i < entries.len() implies entries_map(entries).contains_key(
            (#[trigger] entries[i]).0@,
        ) && entries_map(entries)[entries[i].0@] == entries[i].1 by {
            if i < last {
                assert(rest[i] == entries[i]);
                assert(name_before(entries[i].0@, entries[last].0@));
                lemma_name_before_irreflexive(entries[last].0@);
            }
        }
        assert forall|name: Seq<char>| #[trigger]
            entries_map(entries).contains_key(name) implies exists|i: int|
            0 <= i < entries.len() && (#[trigger] entries[i]).0@ == name by {
            if name == entries[last].0@ {
            } else {
                assert(entries_map(rest).contains_key(name));
                let i = choose|i: int| 0 <= i < rest.len() && (#[trigger] rest[i]).0@ == name;
                assert(entries[i].0@ == name);
            }
        }
    }
}

/// The names of a sequence of entries.
spec fn entry_names(entries: Seq<(String, usize)>) -> Seq<Seq<char>> {
    entries.map_values(|entry: (String, usize)| entry.0@)
}

proof fn lemma_entry_names(entries: Seq<(String, usize)>)
    requires
        ascending(entries),
    ensures
        ascending_names(entry_names(entries)),
        entry_names(entries).to_set() == entries_map(entries).dom(),
{
    let names = entry_names(entries);
    lemma_entries_map(entries);
    assert forall|i: int, j: int| 0 <= i < j < names.len() implies name_before(
        #[trigger] names[i],
        #[trigger] names[j],
    ) by {
        assert(name_before(entries[i].0@, entries[j].0@));
    }
    assert forall|name: Seq<char>|
        names.to_set().contains(name) == #[trigger] entries_map(entries).contains_key(name) by {
        if entries_map(entries).contains_key(name) {
            let i = choose|i: int| 0 <= i < entries.len() && (#[trigger] entries[i]).0@ == name;
            assert(names[i] == name);
        }
        if names.contains(name) {
            let i = choose|i: int| 0 <= i < names.len() && names[i] == name;
            assert(entries[i].0@ == name);
        }
    }
    assert(names.to_set() =~= entries_map(entries).dom());
}

/// Sets the entry with this name, in place of the one that had it before.
fn set_entry(entries: &mut Vec<(String, usize)>, name: String, cycles: usize)
    requires
        ascending(old(entries)@),
    ensures
        ascending(final(entries)@),
        entries_map(final(entries)@) == entries_map(old(entries)@).insert(name@, cycles as nat),
{
    let ghost before = entries@;
    let ghost key = name@;
    let mut pos: usize = 0;
    while pos < entries.len() && is_before(entries[pos].0.as_str(), name.as_str())
        invariant
            entries@ == before,
            name@ == key,
            pos <= before.len(),
            forall|i: int| 0 <= i < pos ==> name_before((#[trigger] before[i]).0@, key),
        ensures
            pos < before.len() ==> before[pos as int].0@ == key || name_before(
                key,
                before[pos as int].0@,
            ),
        decreases before.len() - pos,
    {
        pos += 1;
    }
    let ghost at = pos as int;
    if pos < entries.len() && entries[pos].0 == name {
        entries.set(pos, (name, cycles));
        proof {
            assert forall|i: int, j: int| 0 <= i < j < entries@.len() implies name_before(
                (#[trigger] entries@[i]).0@,
                (#[trigger] entries@[j]).0@,
            ) by {
                assert(name_before(before[i].0@, before[j].0@));
            }
        }
    } else {
        entries.insert(pos, (name, cycles));
        proof {
            assert forall|i: int| at <= i < before.len() implies name_before(
                key,
                (#[trigger] before[i]).0@,
            ) by {
                if at < i {
                    assert(name_before(before[at].0@, before[i].0@));
                    lemma_name_before_transitive(key, before[at].0@, before[i].0@);
                }
            }
            assert forall|i: int, j: int| 0 <= i < j < entries@.len() implies name_before(
                (#[trigger] entries@[i]).0@,
                (#[trigger] entries@[j]).0@,
            ) by {
                let (k, l) = (
                    if i < at {
                        i
                    } else {
                        i - 1
                    },
                    if j < at {
                        j
                    } else {
                        j - 1
                    },
                );
                if i != at && j != at {
                    assert(name_before(before[k].0@, before[l].0@));
                } else if i == at {
                    assert(name_before(key, before[l].0@));
                } else {
                    assert(name_before(before[k].0@, key));
                }
            }
        }
    }
    proof {
        let after = entries@;
        lemma_entries_map(before);
        lemma_entries_map(after);
        let expected = entries_map(before).insert(key, cycles as nat);
        assert(after[at].0@ == key && after[at].1 == cycles);
        assert forall|other: Seq<char>| #[trigger]
            entries_map(after).contains_key(other) == expected.contains_key(other) && (
            expected.contains_key(other) ==> entries_map(after)[other] == expected[other]) by {
            if other != key {
                let shift: int = after.len() - before.len();
                if entries_map(after).contains_key(other) {
                    let i = choose|i: int|
                        0 <= i < after.len() && (#[trigger] after[i]).0@ == other;
                    let k = if i < at {
                        i
                    } else {
                        i - shift
                    };
                    assert(before[k] == after[i]);
                }
                if entries_map(before).contains_key(other) {
                    let i = choose|i: int|
                        0 <= i < before.len() && (#[trigger] before[i]).0@ == other;
                    let k = if i < at {
                        i
                    } else {
                        i + shift
                    };
                    assert(after[k] == before[i]);
                }
            }
        }
        assert(entries_map(after) =~= expected);
    }
}

/// The number of cycles by the hexadecimal form of the note identifier, for notes in the order
/// in which they were executed: of two entries for one note, the later one counts.
pub open spec fn note_cycles(notes: Seq<(NoteId, usize)>) -> Map<Seq<char>, nat>
    decreases notes.len(),
{
    if notes.len() == 0 {
        Map::empty()
    } else {
        note_cycles(notes.drop_last()).insert(word_hex(notes.last().0@), notes.last().1 as nat)
    }
}

/// The JSON object with one integer member for each note.
pub open spec fn note_cycles_json(cycles: Map<Seq<char>, nat>) -> Json {
    Json::Object(cycles.map_values(|n: nat| Json::Integer(n as int)))
}

/// The number of cycles that the execution of each note took, by the hexadecimal form of the
/// note's identifier. The entries are in ascending order of these names.
#[derive(Debug)]
pub struct NoteCycles {
    entries: Vec<(String, usize)>,
}

impl View for NoteCycles {
    type V = Map<Seq<char>, nat>;

    closed spec fn view(&self) -> Map<Seq<char>, nat> {
        entries_map(self.entries@)
    }
}

impl NoteCycles {
    #[verifier::type_invariant]
    spec fn well_formed(self) -> bool {
        ascending(self.entries@)
    }

    /// The names of the entries, in the order in which they are kept.
    pub closed spec fn names(&self) -> Seq<Seq<char>> {
        entry_names(self.entries@)
    }

    /// Collects the entries of the executed notes.
    pub fn from_notes(notes: &Vec<(NoteId, usize)>) -> (result: NoteCycles)
        ensures
            result@ == note_cycles(notes@),
            forall|i: int|
                0 <= i < notes@.len() && (forall|j: int|
                    i < j < notes@.len() ==> (#[trigger] notes@[j]).0@ != notes@[i].0@)
                    ==> result@.contains_key(word_hex((#[trigger] notes@[i]).0@))
                    && result@[word_hex(notes@[i].0@)] == notes@[i].1,
            forall|name: Seq<char>| #[trigger]
                result@.contains_key(name) ==> exists|i: int|
                    0 <= i < notes@.len() && word_hex((#[trigger] notes@[i]).0@) == name,
            ascending_names(result.names()),
            forall|i: int, j: int|
                0 <= i < j < result.names().len() ==> name_before(
                    #[trigger] result.names()[i],
                    #[trigger] result.names()[j],
                ),
            result.names().to_set() == result@.dom(),
    {
        let mut entries: Vec<(String, usize)> = Vec::new();
        for i in 0..notes.len()
            invariant
                ascending(entries@),
                entries_map(entries@) == note_cycles(notes@.take(i as int)),
        {
            assert(notes@.take(i + 1).drop_last() =~= notes@.take(i as int));
            let name: String = note_id_to_hex(&notes[i].0);
            set_entry(&mut entries, name, notes[i].1);
        }
        assert(notes@.take(notes@.len() as int) =~= notes@);
        proof {
            lemma_entry_names(entries@);
            law_notes_and_entries_agree(notes@);
        }
        NoteCycles { entries }
    }

    /// The JSON object with one member for each note.
    pub fn to_json(&self) -> (value: serde_json::Value)
        ensures
            json_tree(value) == note_cycles_json(self@),
            json_tree(value) is Object,
            forall|name: Seq<char>| #[trigger]
                json_tree(value)->Object_0.contains_key(name) <==> self@.contains_key(name),
            forall|name: Seq<char>|
                self@.contains_key(name) ==> #[trigger] json_tree(value)->Object_0[name]
                    == Json::Integer(self@[name] as int),
    {
        let mut value: serde_json::Value = json_new_object();
        assert(note_cycles_json(entries_map(self.entries@.take(0)))->Object_0 =~= Map::empty());
        for i in 0..self.entries.len()
            invariant
                json_tree(value) == note_cycles_json(entries_map(self.entries@.take(i as int))),
        {
            let ghost done = self.entries@.take(i as int);
            let ghost next = self.entries@.take(i + 1);
            assert(next.drop_last() =~= done);
            json_set(&mut value, self.entries[i].0.as_str(), json_from_usize(self.entries[i].1));
            assert(json_tree(value)->Object_0 =~= note_cycles_json(entries_map(next))->Object_0);
        }
        assert(self.entries@.take(self.entries@.len() as int) =~= self.entries@);
        value
    }
}

impl Clone for NoteCycles {
    fn clone(&self) -> (result: NoteCycles)
        ensures
            result@ == self@,
            result.names() == self.names(),
    {
        proof {
            use_type_invariant(self);
        }
        let mut entries: Vec<(String, usize)> = Vec::new();
        for i in 0..self.entries.len()
            invariant
                entries@ =~= self.entries@.take(i as int),
        {
            entries.push((self.entries[i].0.clone(), self.entries[i].1));
        }
        assert(entries@ =~= self.entries@);
        NoteCycles { entries }
    }
}

/// A name is listed exactly when it is the hexadecimal form of an executed note's identifier, and
/// with the number of cycles of the last such entry.
proof fn lemma_note_cycles(notes: Seq<(NoteId, usize)>, name: Seq<char>)
    ensures
        note_cycles(notes).contains_key(name) <==> exists|i: int|
            0 <= i < notes.len() && word_hex((#[trigger] notes[i]).0@) == name,
        forall|i: int|
            0 <= i < notes.len() && word_hex((#[trigger] notes[i]).0@) == name && (forall|j: int|
                i < j < notes.len() ==> word_hex((#[trigger] notes[j]).0@) != name)
                ==> note_cycles(notes)[name] == notes[i].1,
    decreases notes.len(),
{
    if notes.len() > 0 {
        let rest = notes.drop_last();
        let last = notes.len() - 1;
        lemma_note_cycles(rest, name);
        assert forall|i: int|
            0 <= i < notes.len() && word_hex((#[trigger] notes[i]).0@) == name && (forall|j: int|
                i < j < notes.len() ==> word_hex((#[trigger] notes[j]).0@) != name) implies (
        note_cycles(notes)[name] == notes[i].1) by {
            if i < last {
                assert(word_hex(notes[last].0@) != name);
                assert(rest[i] == notes[i]);
                assert forall|j: int| i < j < rest.len() implies word_hex((#[trigger] rest[j]).0@)
                    != name by {
                    assert(rest[j] == notes[j]);
                }
            }
        }
        if note_cycles(notes).contains_key(name) && word_hex(notes[last].0@) != name {
            let i = choose|i: int| 0 <= i < rest.len() && word_hex((#[trigger] rest[i]).0@) == name;
            assert(word_hex(notes[i].0@) == name);
        }
        if exists|i: int| 0 <= i < notes.len() && word_hex((#[trigger] notes[i]).0@) == name {
            let i = choose|i: int|
                0 <= i < notes.len() && word_hex((#[trigger] notes[i]).0@) == name;
            if i < last {
                assert(word_hex(rest[i].0@) == name);
            }
        }
    }
}

/// The hexadecimal form of a note's identifier is listed exactly when the note was executed, and
/// it is listed with the number of cycles of the note's last entry.
pub proof fn law_every_note_is_listed(notes: Seq<(NoteId, usize)>, id: NoteId)
    ensures
        note_cycles(notes).contains_key(word_hex(id@)) <==> exists|i: int|
            0 <= i < notes.len() && (#[trigger] notes[i]).0@ == id@,
        forall|i: int|
            0 <= i < notes.len() && (#[trigger] notes[i]).0@ == id@ && (forall|j: int|
                i < j < notes.len() ==> (#[trigger] notes[j]).0@ != id@) ==> note_cycles(
                notes,
            )[word_hex(id@)] == notes[i].1,
{
    lemma_note_cycles(notes, word_hex(id@));
    assert forall|i: int| 0 <= i < notes.len() implies (word_hex((#[trigger] notes[i]).0@)
        == word_hex(id@) <==> notes[i].0@ == id@) by {
        law_hex_identifies_note(notes[i].0, id);
    }
}

/// When no note was executed twice, there are as many entries as executed notes.
pub proof fn law_one_entry_per_note(notes: Seq<(NoteId, usize)>)
    requires
        forall|i: int, j: int|
            0 <= i < j < notes.len() ==> (#[trigger] notes[i]).0@ != (#[trigger] notes[j]).0@,
    ensures
        note_cycles(notes).dom().finite(),
        note_cycles(notes).len() == notes.len(),
    decreases notes.len(),
{
    if notes.len() > 0 {
        let rest = notes.drop_last();
        let last = notes.len() - 1;
        assert forall|i: int, j: int| 0 <= i < j < rest.len() implies (#[trigger] rest[i]).0@ != (
        #[trigger] rest[j]).0@ by {
            assert(notes[i].0@ != notes[j].0@);
        }
        law_one_entry_per_note(rest);
        law_every_note_is_listed(rest, notes[last].0);
        if note_cycles(rest).contains_key(word_hex(notes[last].0@)) {
            let i = choose|i: int|
                0 <= i < rest.len() && (#[trigger] rest[i]).0@ == notes[last].0@;
            assert(notes[i].0@ == notes[last].0@);
        }
    }
}

/// Names in ascending order are determined by which names they are.
pub proof fn law_ascending_names_are_determined(a: Seq<Seq<char>>, b: Seq<Seq<char>>)
    requires
        ascending_names(a),
        ascending_names(b),
        a.to_set() == b.to_set(),
    ensures
        a == b,
    decreases a.len(),
{
    if a.len() == 0 {
        if b.len() > 0 {
            assert(b.to_set().contains(b[0]));
        }
        assert(a =~= b);
    } else {
        assert(a.to_set().contains(a.last()));
        let j = choose|j: int| 0 <= j < b.len() && b[j] == a.last();
        assert(b.to_set().contains(b.last()));
        let i = choose|i: int| 0 <= i < a.len() && a[i] == b.last();
        if j < b.len() - 1 {
            assert(name_before(b[j], b[b.len() - 1]));
            lemma_name_before_irreflexive(a.last());
            if i < a.len() - 1 {
                assert(name_before(a[i], a[a.len() - 1]));
                lemma_name_before_transitive(a.last(), b.last(), a.last());
            }
        }
        assert(a.last() == b.last());
        lemma_names_without_last(a);
        lemma_names_without_last(b);
        law_ascending_names_are_determined(a.drop_last(), b.drop_last());
        assert(a =~= a.drop_last().push(a.last()));
        assert(b =~= b.drop_last().push(b.last()));
    }
}

proof fn lemma_names_without_last(names: Seq<Seq<char>>)
    requires
        names.len() > 0,
        ascending_names(names),
    ensures
        ascending_names(names.drop_last()),
        names.drop_last().to_set() == names.to_set().remove(names.last()),
{
    let rest = names.drop_last();
    let last = names.len() - 1;
    assert forall|i: int, j: int| 0 <= i < j < rest.len() implies name_before(
        #[trigger] rest[i],
        #[trigger] rest[j],
    ) by {
        assert(name_before(names[i], names[j]));
    }
    assert forall|name: Seq<char>|
        rest.to_set().contains(name) == #[trigger] names.to_set().remove(names.last()).contains(
            name,
        ) by {
        if rest.contains(name) {
            let i = choose|i: int| 0 <= i < rest.len() && rest[i] == name;
            assert(names[i] == name);
            assert(name_before(names[i], names[last]));
            lemma_name_before_irreflexive(name);
        }
        if names.contains(name) && name != names.last() {
            let i = choose|i: int| 0 <= i < names.len() && names[i] == name;
            assert(rest[i] == name);
        }
    }
    assert(rest.to_set() =~= names.to_set().remove(names.last()));
}

/// The order in which distinct notes were executed does not matter.
pub proof fn law_order_of_notes_does_not_matter(
    a: Seq<(NoteId, usize)>,
    b: Seq<(NoteId, usize)>,
)
    requires
        forall|i: int, j: int|
            0 <= i < j < a.len() ==> (#[trigger] a[i]).0@ != (#[trigger] a[j]).0@,
        a.to_multiset() == b.to_multiset(),
    ensures
        note_cycles(a) == note_cycles(b),
{
    assert(a.no_duplicates());
    a.lemma_multiset_has_no_duplicates();
    b.lemma_multiset_has_no_duplicates_conv();
    assert forall|x: (NoteId, usize)| a.contains(x) == #[trigger] b.contains(x) by {
        vstd::seq_lib::to_multiset_contains(a, x);
        vstd::seq_lib::to_multiset_contains(b, x);
    }
    assert forall|i: int, j: int| 0 <= i < j < b.len() implies (#[trigger] b[i]).0@ != (
    #[trigger] b[j]).0@ by {
        assert(b.contains(b[i]) && b.contains(b[j]));
        let k = choose|k: int| 0 <= k < a.len() && a[k] == b[i];
        let l = choose|l: int| 0 <= l < a.len() && a[l] == b[j];
        assert(k != l);
    }
    assert forall|name: Seq<char>| #[trigger]
        note_cycles(a).contains_key(name) == note_cycles(b).contains_key(name) && (note_cycles(
            a,
        ).contains_key(name) ==> note_cycles(a)[name] == note_cycles(b)[name]) by {
        lemma_note_cycles(a, name);
        lemma_note_cycles(b, name);
        if note_cycles(a).contains_key(name) {
            lemma_same_entry(a, b, name);
        }
        if note_cycles(b).contains_key(name) {
            lemma_same_entry(b, a, name);
        }
    }
    assert(note_cycles(a) =~= note_cycles(b));
}

proof fn lemma_same_entry(a: Seq<(NoteId, usize)>, b: Seq<(NoteId, usize)>, name: Seq<char>)
    requires
        forall|i: int, j: int|
            0 <= i < j < a.len() ==> (#[trigger] a[i]).0@ != (#[trigger] a[j]).0@,
        forall|i: int, j: int|
            0 <= i < j < b.len() ==> (#[trigger] b[i]).0@ != (#[trigger] b[j]).0@,
        forall|x: (NoteId, usize)| a.contains(x) == #[trigger] b.contains(x),
        note_cycles(a).contains_key(name),
    ensures
        note_cycles(b).contains_key(name),
        note_cycles(a)[name] == note_cycles(b)[name],
{
    lemma_note_cycles(a, name);
    lemma_note_cycles(b, name);
    let i = choose|i: int| 0 <= i < a.len() && word_hex((#[trigger] a[i]).0@) == name;
    assert(b.contains(a[i]));
    let j = choose|j: int| 0 <= j < b.len() && b[j] == a[i];
    assert forall|k: int| i < k < a.len() implies word_hex((#[trigger] a[k]).0@) != name by {
        law_hex_identifies_note(a[i].0, a[k].0);
    }
    assert forall|k: int| j < k < b.len() implies word_hex((#[trigger] b[k]).0@) != name by {
        law_hex_identifies_note(b[j].0, b[k].0);
    }
    assert(word_hex(b[j].0@) == name);
}

/// The entries are those of the executed notes: each note's last entry counts, under the
/// hexadecimal form of its identifier, and there is no other entry.
pub proof fn law_notes_and_entries_agree(notes: Seq<(NoteId, usize)>)
    ensures
        forall|i: int|
            0 <= i < notes.len() && (forall|j: int|
                i < j < notes.len() ==> (#[trigger] notes[j]).0@ != notes[i].0@)
                ==> note_cycles(notes).contains_key(word_hex((#[trigger] notes[i]).0@))
                && note_cycles(notes)[word_hex(notes[i].0@)] == notes[i].1,
        forall|name: Seq<char>| #[trigger]
            note_cycles(notes).contains_key(name) ==> exists|i: int|
                0 <= i < notes.len() && word_hex((#[trigger] notes[i]).0@) == name,
{
    assert forall|i: int|
        0 <= i < notes.len() && (forall|j: int|
            i < j < notes.len() ==> (#[trigger] notes[j]).0@ != notes[i].0@) implies note_cycles(
        notes,
    ).contains_key(word_hex((#[trigger] notes[i]).0@)) && note_cycles(notes)[word_hex(notes[i].0@)]
        == notes[i].1 by {
        law_every_note_is_listed(notes, notes[i].0);
    }
    assert forall|name: Seq<char>| #[trigger]
        note_cycles(notes).contains_key(name) implies exists|i: int|
        0 <= i < notes.len() && word_hex((#[trigger] notes[i]).0@) == name by {
        lemma_note_cycles(notes, name);
    }
}

/// The report of the notes' cycles has a member for each entry and no other, which is the
/// number of cycles itself.
pub proof fn law_cycles_are_reported(cycles: Map<Seq<char>, nat>, name: Seq<char>)
    ensures
        note_cycles_json(cycles) is Object,
        note_cycles_json(cycles)->Object_0.contains_key(name) <==> cycles.contains_key(name),
        cycles.contains_key(name) ==> note_cycles_json(cycles)->Object_0[name] == Json::Integer(
            cycles[name] as int,
        ),
{
}

/// The first byte in which two names differ decides their order.
pub proof fn law_first_difference_decides(a: Seq<char>, b: Seq<char>, i: int)
    requires
        0 <= i < encode_utf8(a).len(),
        i < encode_utf8(b).len(),
        forall|j: int| 0 <= j < i ==> encode_utf8(a)[j] == encode_utf8(b)[j],
        encode_utf8(a)[i] < encode_utf8(b)[i],
    ensures
        name_before(a, b),
        !name_before(b, a),
{
    lemma_name_before_total(a, b, i);
}

/// A name comes before the names that it begins.
pub proof fn law_beginning_comes_first(a: Seq<char>, b: Seq<char>)
    requires
        encode_utf8(a).len() < encode_utf8(b).len(),
        forall|j: int| 0 <= j < encode_utf8(a).len() ==> encode_utf8(a)[j] == encode_utf8(b)[j],
    ensures
        name_before(a, b),
        !name_before(b, a),
{
    lemma_name_before_total(a, b, encode_utf8(a).len() as int);
}

} // verus!
