//! Session identifiers: 128-bit numbers that travel as the text of a UUID
//! in the hyphenated form, such as `67e55044-10b1-426f-9247-bb680e5fe0c8`.

use vstd::prelude::*;
use vstd::utf8::is_ascii_chars;

verus! {

/// The lower-case hexadecimal digit of a value below 16.
pub open spec fn hex_digit(nibble: u128) -> char {
    if nibble == 0 {
        '0'
    } else if nibble == 1 {
        '1'
    } else if nibble == 2 {
        '2'
    } else if nibble == 3 {
        '3'
    } else if nibble == 4 {
        '4'
    } else if nibble == 5 {
        '5'
    } else if nibble == 6 {
        '6'
    } else if nibble == 7 {
        '7'
    } else if nibble == 8 {
        '8'
    } else if nibble == 9 {
        '9'
    } else if nibble == 10 {
        'a'
    } else if nibble == 11 {
        'b'
    } else if nibble == 12 {
        'c'
    } else if nibble == 13 {
        'd'
    } else if nibble == 14 {
        'e'
    } else {
        'f'
    }
}

/// Whether `c` is a hexadecimal digit in lower case.
pub open spec fn is_lower_hex(c: char) -> bool {
    ('0' <= c <= '9') || ('a' <= c <= 'f')
}

/// The four bits of `id` at place `k` of 32, most significant first.
pub open spec fn nibble(id: u128, k: int) -> u128 {
    (id >> ((124 - 4 * k) as u128)) & 0xf
}

/// How many hyphens stand before place `i` of the hyphenated form.
pub open spec fn hyphens_before(i: int) -> int {
    if i < 8 {
        0
    } else if i < 13 {
        1
    } else if i < 18 {
        2
    } else if i < 23 {
        3
    } else {
        4
    }
}

/// The hyphenated form of the UUID with the bits `id`: its 32 hexadecimal
/// digits in lower case, most significant first, in groups of 8, 4, 4, 4
/// and 12 with a hyphen between two groups.
pub open spec fn hyphenated(id: u128) -> Seq<char> {
    Seq::new(
        36,
        |i: int|
            if i == 8 || i == 13 || i == 18 || i == 23 {
                '-'
            } else {
                hex_digit(nibble(id, i - hyphens_before(i)))
            },
    )
}

/// The bits of the UUID that `Uuid::parse_str` reads from a `text` that is
/// not in the hyphenated lower-case form, where it reads one.
pub uninterp spec fn parsed(text: Seq<char>) -> Option<u128>;

/// The identifier that a text spells, where it spells one: the hyphenated
/// form of an identifier spells that identifier, and any other text what
/// `Uuid::parse_str` makes of it.
pub open spec fn identifier_of(text: Seq<char>) -> Option<u128> {
    if exists|id: u128| hyphenated(id) == text {
        Some(choose|id: u128| hyphenated(id) == text)
    } else {
        parsed(text)
    }
}

/// Whether `id` is marked as a random UUID: version 4, in the variant of
/// RFC 4122.
pub open spec fn is_random(id: u128) -> bool {
    (id >> 76) & 0xf == 4 && (id >> 62) & 0x3 == 2
}

proof fn lemma_nibble_small(id: u128, k: int)
    requires
        0 <= k < 32,
    ensures
        nibble(id, k) < 16,
{
    let shift = (124 - 4 * k) as u128;
    assert(((id >> shift) & 0xf) < 16) by (bit_vector);
}

proof fn lemma_hex_digit_injective(x: u128, y: u128)
    requires
        x < 16,
        y < 16,
        hex_digit(x) == hex_digit(y),
    ensures
        x == y,
{
    assert(hex_digit(x) as u32 == hex_digit(y) as u32);
    assert(x < 10 ==> hex_digit(x) as u32 == 0x30 + x);
    assert(10 <= x < 16 ==> hex_digit(x) as u32 == 0x61 + x - 10);
    assert(y < 10 ==> hex_digit(y) as u32 == 0x30 + y);
    assert(10 <= y < 16 ==> hex_digit(y) as u32 == 0x61 + y - 10);
}

proof fn lemma_nibbles_decide(a: u128, b: u128)
    requires
        forall|k: int| 0 <= k < 32 ==> nibble(a, k) == nibble(b, k),
    ensures
        a == b,
{
    assert(nibble(a, 0) == nibble(b, 0));
    assert(nibble(a, 1) == nibble(b, 1));
    assert(nibble(a, 2) == nibble(b, 2));
    assert(nibble(a, 3) == nibble(b, 3));
    assert(nibble(a, 4) == nibble(b, 4));
    assert(nibble(a, 5) == nibble(b, 5));
    assert(nibble(a, 6) == nibble(b, 6));
    assert(nibble(a, 7) == nibble(b, 7));
    assert(nibble(a, 8) == nibble(b, 8));
    assert(nibble(a, 9) == nibble(b, 9));
    assert(nibble(a, 10) == nibble(b, 10));
    assert(nibble(a, 11) == nibble(b, 11));
    assert(nibble(a, 12) == nibble(b, 12));
    assert(nibble(a, 13) == nibble(b, 13));
    assert(nibble(a, 14) == nibble(b, 14));
    assert(nibble(a, 15) == nibble(b, 15));
    assert(nibble(a, 16) == nibble(b, 16));
    assert(nibble(a, 17) == nibble(b, 17));
    assert(nibble(a, 18) == nibble(b, 18));
    assert(nibble(a, 19) == nibble(b, 19));
    assert(nibble(a, 20) == nibble(b, 20));
    assert(nibble(a, 21) == nibble(b, 21));
    assert(nibble(a, 22) == nibble(b, 22));
    assert(nibble(a, 23) == nibble(b, 23));
    assert(nibble(a, 24) == nibble(b, 24));
    assert(nibble(a, 25) == nibble(b, 25));
    assert(nibble(a, 26) == nibble(b, 26));
    assert(nibble(a, 27) == nibble(b, 27));
    assert(nibble(a, 28) == nibble(b, 28));
    assert(nibble(a, 29) == nibble(b, 29));
    assert(nibble(a, 30) == nibble(b, 30));
    assert(nibble(a, 31) == nibble(b, 31));
    assert(nibble(a, 0) == (a >> 124u128) & 0xf && nibble(b, 0) == (b >> 124u128) & 0xf);
    assert(nibble(a, 1) == (a >> 120u128) & 0xf && nibble(b, 1) == (b >> 120u128) & 0xf);
    assert(nibble(a, 2) == (a >> 116u128) & 0xf && nibble(b, 2) == (b >> 116u128) & 0xf);
    assert(nibble(a, 3) == (a >> 112u128) & 0xf && nibble(b, 3) == (b >> 112u128) & 0xf);
    assert(nibble(a, 4) == (a >> 108u128) & 0xf && nibble(b, 4) == (b >> 108u128) & 0xf);
    assert(nibble(a, 5) == (a >> 104u128) & 0xf && nibble(b, 5) == (b >> 104u128) & 0xf);
    assert(nibble(a, 6) == (a >> 100u128) & 0xf && nibble(b, 6) == (b >> 100u128) & 0xf);
    assert(nibble(a, 7) == (a >> 96u128) & 0xf && nibble(b, 7) == (b >> 96u128) & 0xf);
    assert(nibble(a, 8) == (a >> 92u128) & 0xf && nibble(b, 8) == (b >> 92u128) & 0xf);
    assert(nibble(a, 9) == (a >> 88u128) & 0xf && nibble(b, 9) == (b >> 88u128) & 0xf);
    assert(nibble(a, 10) == (a >> 84u128) & 0xf && nibble(b, 10) == (b >> 84u128) & 0xf);
    assert(nibble(a, 11) == (a >> 80u128) & 0xf && nibble(b, 11) == (b >> 80u128) & 0xf);
    assert(nibble(a, 12) == (a >> 76u128) & 0xf && nibble(b, 12) == (b >> 76u128) & 0xf);
    assert(nibble(a, 13) == (a >> 72u128) & 0xf && nibble(b, 13) == (b >> 72u128) & 0xf);
    assert(nibble(a, 14) == (a >> 68u128) & 0xf && nibble(b, 14) == (b >> 68u128) & 0xf);
    assert(nibble(a, 15) == (a >> 64u128) & 0xf && nibble(b, 15) == (b >> 64u128) & 0xf);
    assert(nibble(a, 16) == (a >> 60u128) & 0xf && nibble(b, 16) == (b >> 60u128) & 0xf);
    assert(nibble(a, 17) == (a >> 56u128) & 0xf && nibble(b, 17) == (b >> 56u128) & 0xf);
    assert(nibble(a, 18) == (a >> 52u128) & 0xf && nibble(b, 18) == (b >> 52u128) & 0xf);
    assert(nibble(a, 19) == (a >> 48u128) & 0xf && nibble(b, 19) == (b >> 48u128) & 0xf);
    assert(nibble(a, 20) == (a >> 44u128) & 0xf && nibble(b, 20) == (b >> 44u128) & 0xf);
    assert(nibble(a, 21) == (a >> 40u128) & 0xf && nibble(b, 21) == (b >> 40u128) & 0xf);
    assert(nibble(a, 22) == (a >> 36u128) & 0xf && nibble(b, 22) == (b >> 36u128) & 0xf);
    assert(nibble(a, 23) == (a >> 32u128) & 0xf && nibble(b, 23) == (b >> 32u128) & 0xf);
    assert(nibble(a, 24) == (a >> 28u128) & 0xf && nibble(b, 24) == (b >> 28u128) & 0xf);
    assert(nibble(a, 25) == (a >> 24u128) & 0xf && nibble(b, 25) == (b >> 24u128) & 0xf);
    assert(nibble(a, 26) == (a >> 20u128) & 0xf && nibble(b, 26) == (b >> 20u128) & 0xf);
    assert(nibble(a, 27) == (a >> 16u128) & 0xf && nibble(b, 27) == (b >> 16u128) & 0xf);
    assert(nibble(a, 28) == (a >> 12u128) & 0xf && nibble(b, 28) == (b >> 12u128) & 0xf);
    assert(nibble(a, 29) == (a >> 8u128) & 0xf && nibble(b, 29) == (b >> 8u128) & 0xf);
    assert(nibble(a, 30) == (a >> 4u128) & 0xf && nibble(b, 30) == (b >> 4u128) & 0xf);
    assert(nibble(a, 31) == (a >> 0u128) & 0xf && nibble(b, 31) == (b >> 0u128) & 0xf);
    assert(a == b) by (bit_vector)
        requires
            (a >> 124u128) & 0xf == (b >> 124u128) & 0xf,
            (a >> 120u128) & 0xf == (b >> 120u128) & 0xf,
            (a >> 116u128) & 0xf == (b >> 116u128) & 0xf,
            (a >> 112u128) & 0xf == (b >> 112u128) & 0xf,
            (a >> 108u128) & 0xf == (b >> 108u128) & 0xf,
            (a >> 104u128) & 0xf == (b >> 104u128) & 0xf,
            (a >> 100u128) & 0xf == (b >> 100u128) & 0xf,
            (a >> 96u128) & 0xf == (b >> 96u128) & 0xf,
            (a >> 92u128) & 0xf == (b >> 92u128) & 0xf,
            (a >> 88u128) & 0xf == (b >> 88u128) & 0xf,
            (a >> 84u128) & 0xf == (b >> 84u128) & 0xf,
            (a >> 80u128) & 0xf == (b >> 80u128) & 0xf,
            (a >> 76u128) & 0xf == (b >> 76u128) & 0xf,
            (a >> 72u128) & 0xf == (b >> 72u128) & 0xf,
            (a >> 68u128) & 0xf == (b >> 68u128) & 0xf,
            (a >> 64u128) & 0xf == (b >> 64u128) & 0xf,
            (a >> 60u128) & 0xf == (b >> 60u128) & 0xf,
            (a >> 56u128) & 0xf == (b >> 56u128) & 0xf,
            (a >> 52u128) & 0xf == (b >> 52u128) & 0xf,
            (a >> 48u128) & 0xf == (b >> 48u128) & 0xf,
            (a >> 44u128) & 0xf == (b >> 44u128) & 0xf,
            (a >> 40u128) & 0xf == (b >> 40u128) & 0xf,
            (a >> 36u128) & 0xf == (b >> 36u128) & 0xf,
            (a >> 32u128) & 0xf == (b >> 32u128) & 0xf,
            (a >> 28u128) & 0xf == (b >> 28u128) & 0xf,
            (a >> 24u128) & 0xf == (b >> 24u128) & 0xf,
            (a >> 20u128) & 0xf == (b >> 20u128) & 0xf,
            (a >> 16u128) & 0xf == (b >> 16u128) & 0xf,
            (a >> 12u128) & 0xf == (b >> 12u128) & 0xf,
            (a >> 8u128) & 0xf == (b >> 8u128) & 0xf,
            (a >> 4u128) & 0xf == (b >> 4u128) & 0xf,
            (a >> 0u128) & 0xf == (b >> 0u128) & 0xf,
    ;
}

/// The hyphenated form has 36 characters, all of them ASCII: hyphens at the
/// places 8, 13, 18 and 23, and a hexadecimal digit in lower case at every
/// other place.
pub proof fn lemma_hyphenated_shape(id: u128)
    ensures
        hyphenated(id).len() == 36,
        is_ascii_chars(hyphenated(id)),
        forall|i: int|
            0 <= i < 36 && (i == 8 || i == 13 || i == 18 || i == 23) ==> #[trigger] hyphenated(
                id,
            )[i] == '-',
        forall|i: int|
            0 <= i < 36 && !(i == 8 || i == 13 || i == 18 || i == 23) ==> is_lower_hex(
                #[trigger] hyphenated(id)[i],
            ),
{
    assert forall|i: int| 0 <= i < 36 implies '\0' <= #[trigger] hyphenated(id)[i] <= '\u{7f}'
        && (!(i == 8 || i == 13 || i == 18 || i == 23) ==> is_lower_hex(hyphenated(id)[i])) by {
        if !(i == 8 || i == 13 || i == 18 || i == 23) {
            lemma_nibble_small(id, i - hyphens_before(i));
        }
    }
}

/// Two identifiers with the same hyphenated form are the same.
pub proof fn lemma_hyphenated_injective(a: u128, b: u128)
    requires
        hyphenated(a) == hyphenated(b),
    ensures
        a == b,
{
    assert forall|k: int| 0 <= k < 32 implies nibble(a, k) == nibble(b, k) by {
        let i = if k < 8 {
            k
        } else if k < 12 {
            k + 1
        } else if k < 16 {
            k + 2
        } else if k < 20 {
            k + 3
        } else {
            k + 4
        };
        assert(hyphenated(a)[i] == hyphenated(b)[i]);
        assert(i - hyphens_before(i) == k);
        lemma_nibble_small(a, k);
        lemma_nibble_small(b, k);
        assert(hyphenated(a)[i] == hex_digit(nibble(a, k)));
        assert(hyphenated(b)[i] == hex_digit(nibble(b, k)));
        lemma_hex_digit_injective(nibble(a, k), nibble(b, k));
    }
    lemma_nibbles_decide(a, b);
}

/// The hyphenated form of an identifier spells that identifier.
pub proof fn lemma_hyphenated_reads_back(id: u128)
    ensures
        identifier_of(hyphenated(id)) == Some(id),
{
    let found = choose|x: u128| hyphenated(x) == hyphenated(id);
    lemma_hyphenated_injective(found, id);
}

/// `Uuid::new_v4` of the `uuid` crate: the bits of a random UUID. Of the
/// value only its marks are claimed, which the crate sets on every one.
#[verifier::external_body]
pub(crate) fn fresh_id() -> (id: u128)
    ensures
        is_random(id),
{
    uuid::Uuid::new_v4().as_u128()
}

/// `to_string` of the `uuid` crate's `Uuid`, on the UUID made of `id` by
/// `Uuid::from_u128`: the hyphenated form in lower case.
#[verifier::external_body]
fn uuid_to_string(id: u128) -> (text: String)
    ensures
        text@ == hyphenated(id),
{
    uuid::Uuid::from_u128(id).to_string()
}

/// `Uuid::parse_str` of the `uuid` crate, with the UUID that it reads handed
/// back as its bits by `Uuid::as_u128`. The hyphenated lower-case form of an
/// identifier is read as that identifier; of any other text the crate
/// decides, in more forms than one.
#[verifier::external_body]
fn uuid_parse_str(text: &str) -> (id: Option<u128>)
    ensures
        forall|x: u128| hyphenated(x) == text@ ==> id == Some(x),
        (forall|x: u128| hyphenated(x) != text@) ==> id == parsed(text@),
{
    match uuid::Uuid::parse_str(text) {
        Ok(uuid) => Some(uuid.as_u128()),
        Err(_) => None,
    }
}

/// The text of an identifier.
pub fn id_to_text(id: u128) -> (text: String)
    ensures
        text@ == hyphenated(id),
{
    uuid_to_string(id)
}

/// The identifier that a text spells, if it spells one.
pub fn id_from_text(text: &str) -> (id: Option<u128>)
    ensures
        id == identifier_of(text@),
{
    let id = uuid_parse_str(text);
    proof {
        if exists|x: u128| hyphenated(x) == text@ {
            let found = choose|x: u128| hyphenated(x) == text@;
            assert(id == Some(found));
        }
    }
    id
}

} // verus!
