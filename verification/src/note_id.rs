//! Note identifiers and the hexadecimal form under which the report lists them.
use vstd::arithmetic::power::pow;
use vstd::prelude::*;

verus! {

/// The order of the field that the elements of a note identifier belong to.
pub const FIELD_ORDER: u64 = 0xffff_ffff_0000_0001;

/// The identifier of a note: a word of four field elements, each given by an integer that is
/// taken modulo the order of the field.
#[derive(Debug, Clone, Copy)]
pub struct NoteId {
    pub elements: [u64; 4],
}

impl View for NoteId {
    type V = Seq<nat>;

    /// The four field elements.
    open spec fn view(&self) -> Seq<nat> {
        Seq::new(4, |i: int| (self.elements[i] % FIELD_ORDER) as nat)
    }
}

/// The digit of the hexadecimal system that stands for `n`, in lower case.
pub open spec fn hex_digit(n: nat) -> char {
    if n < 10 {
        (48 + n) as char
    } else {
        (87 + n) as char
    }
}

/// Byte `k` of `n` in little-endian order.
pub open spec fn le_byte(n: nat, k: nat) -> nat
    decreases k,
{
    if k == 0 {
        n % 256
    } else {
        le_byte(n / 256, (k - 1) as nat)
    }
}

/// Byte `k` of a word of field elements: each element takes eight bytes, in little-endian order.
pub open spec fn word_byte(word: Seq<nat>, k: nat) -> nat {
    le_byte(word[k as int / 8], k % 8)
}

/// The hexadecimal form of a word of four field elements: `0x`, then two digits for each of its
/// 32 bytes, the high half of the byte first.
pub open spec fn word_hex(word: Seq<nat>) -> Seq<char> {
    seq!['0', 'x'] + Seq::new(
        64,
        |j: int|
            {
                let byte = word_byte(word, (j / 2) as nat);
                hex_digit(
                    if j % 2 == 0 {
                        byte / 16
                    } else {
                        byte % 16
                    },
                )
            },
    )
}

/// Calls `miden_protocol::note::NoteId::to_hex` on the identifier with these elements: the bytes
/// of the word in lower-case hexadecimal, behind `0x`, where the bytes of an element are those
/// of its canonical representative.
#[verifier::external_body]
pub(crate) fn note_id_to_hex(id: &NoteId) -> (hex: String)
    ensures
        hex@ == word_hex(id@),
{
    let word = miden_protocol::Word::new(id.elements.map(miden_protocol::Felt::new));
    miden_protocol::note::NoteId::from_raw(word).to_hex()
}

spec fn pow256(n: nat) -> nat
    decreases n,
{
    if n == 0 {
        1
    } else {
        256 * pow256((n - 1) as nat)
    }
}

/// Numbers of `n` bytes that agree in every byte are equal.
proof fn lemma_le_bytes_injective(a: nat, b: nat, n: nat)
    requires
        a < pow256(n),
        b < pow256(n),
        forall|k: nat| k < n ==> #[trigger] le_byte(a, k) == le_byte(b, k),
    ensures
        a == b,
    decreases n,
{
    if n > 0 {
        assert(le_byte(a, 0) == le_byte(b, 0));
        assert forall|k: nat| k < n - 1 implies #[trigger] le_byte(a / 256, k) == le_byte(
            b / 256,
            k,
        ) by {
            assert(le_byte(a, k + 1) == le_byte(b, k + 1));
        }
        lemma_le_bytes_injective(a / 256, b / 256, (n - 1) as nat);
    }
}

proof fn lemma_le_byte_bound(n: nat, k: nat)
    ensures
        le_byte(n, k) < 256,
    decreases k,
{
    if k > 0 {
        lemma_le_byte_bound(n / 256, (k - 1) as nat);
    }
}

proof fn lemma_hex_digit_injective(a: nat, b: nat)
    requires
        a < 16,
        b < 16,
        hex_digit(a) == hex_digit(b),
    ensures
        a == b,
{
}

/// Distinct note identifiers have distinct hexadecimal forms.
pub proof fn law_hex_identifies_note(a: NoteId, b: NoteId)
    ensures
        word_hex(a@) == word_hex(b@) <==> a@ == b@,
{
    if word_hex(a@) == word_hex(b@) {
        assert forall|k: nat| k < 32 implies #[trigger] word_byte(a@, k) == word_byte(b@, k) by {
            let x = word_byte(a@, k);
            let y = word_byte(b@, k);
            lemma_le_byte_bound(a@[k as int / 8], k % 8);
            lemma_le_byte_bound(b@[k as int / 8], k % 8);
            assert(word_hex(a@)[2 + 2 * k as int] == hex_digit(x / 16));
            assert(word_hex(b@)[2 + 2 * k as int] == hex_digit(y / 16));
            assert(word_hex(a@)[3 + 2 * k as int] == hex_digit(x % 16));
            assert(word_hex(b@)[3 + 2 * k as int] == hex_digit(y % 16));
            lemma_hex_digit_injective(x / 16, y / 16);
            lemma_hex_digit_injective(x % 16, y % 16);
        }
        assert(pow256(8) == 0x1_0000_0000_0000_0000) by {
            reveal_with_fuel(pow256, 9);
        }
        assert forall|i: int| 0 <= i < 4 implies a@[i] == b@[i] by {
            assert forall|k: nat| k < 8 implies #[trigger] le_byte(a@[i], k) == le_byte(
                b@[i],
                k,
            ) by {
                assert(word_byte(a@, (8 * i + k) as nat) == word_byte(b@, (8 * i + k) as nat));
            }
            lemma_le_bytes_injective(a@[i], b@[i], 8);
        }
        assert(a@ =~= b@);
    }
}

/// The elements of an identifier are the residues of its integers.
pub proof fn law_elements_are_residues(id: NoteId, i: int)
    requires
        0 <= i < 4,
    ensures
        id@.len() == 4,
        id@[i] == id.elements[i] as int % 0xffff_ffff_0000_0001,
{
}

proof fn lemma_le_byte_is_base_256_digit(n: nat, k: nat)
    ensures
        le_byte(n, k) == n as int / pow(256, k) % 256,
    decreases k,
{
    reveal(pow);
    if k > 0 {
        lemma_le_byte_is_base_256_digit(n / 256, (k - 1) as nat);
        vstd::arithmetic::power::lemma_pow_positive(256, (k - 1) as nat);
        vstd::arithmetic::div_mod::lemma_div_denominator(n as int, 256, pow(256, (k - 1) as nat));
    }
}

/// The hexadecimal form of a word is `0x` and 64 digits, which spell the base-256 digits of the
/// elements, the lowest first.
pub proof fn law_hex_spells_elements(word: Seq<nat>, i: int, k: nat, high: int, low: int)
    requires
        0 <= i < 4,
        k < 8,
        0 <= high < 16,
        0 <= low < 16,
        word[i] as int / pow(256, k) % 256 == 16 * high + low,
    ensures
        word_hex(word).len() == 66,
        word_hex(word)[0] == '0',
        word_hex(word)[1] == 'x',
        word_hex(word)[2 + 16 * i + 2 * k] as int == (if high < 10 {
            '0' as int + high
        } else {
            'a' as int + high - 10
        }),
        word_hex(word)[3 + 16 * i + 2 * k] as int == (if low < 10 {
            '0' as int + low
        } else {
            'a' as int + low - 10
        }),
{
    lemma_le_byte_is_base_256_digit(word[i], k);
    let at = (8 * i + k) as nat;
    assert(at as int / 8 == i && at % 8 == k);
    assert(word_byte(word, at) == 16 * high + low);
    assert((2 * at as int) / 2 == at && (2 * at as int) % 2 == 0);
    assert((2 * at as int + 1) / 2 == at && (2 * at as int + 1) % 2 == 1);
    assert(word_hex(word)[2 + 2 * at as int] == hex_digit(word_byte(word, at) / 16));
    assert(word_hex(word)[3 + 2 * at as int] == hex_digit(word_byte(word, at) % 16));
}

} // verus!
