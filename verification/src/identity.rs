//! Account ids.
use vstd::prelude::*;
use vstd::string::*;
use vstd::utf8::*;

use crate::text::{chars_of, trim};

verus! {

pub open spec fn texts(values: Seq<&str>) -> Seq<Seq<char>> {
    values.map_values(|v: &str| v@)
}

/// The first of the values that is not blank, trimmed.
pub open spec fn first_non_blank(values: Seq<Seq<char>>) -> Option<Seq<char>>
    decreases values.len(),
{
    if values.len() == 0 {
        None
    } else if !crate::text::is_blank(values[0]) {
        Some(crate::text::trimmed(values[0]))
    } else {
        first_non_blank(values.drop_first())
    }
}

/// The same, or nothing but an empty text where all are blank.
pub open spec fn first_non_empty_of(values: Seq<Seq<char>>) -> Seq<char> {
    match first_non_blank(values) {
        Some(s) => s,
        None => Seq::empty(),
    }
}

pub open spec fn is_hex_digit(c: char) -> bool {
    '0' <= c <= '9' || 'a' <= c <= 'f' || 'A' <= c <= 'F'
}

/// The places of the dashes in a UUID.
pub open spec fn is_dash_place(i: int) -> bool {
    i == 8 || i == 13 || i == 18 || i == 23
}

/// Hexadecimal digits in groups of 8, 4, 4, 4 and 12, with dashes between them.
pub open spec fn uuid_like(s: Seq<char>) -> bool {
    &&& s.len() == 36
    &&& forall|i: int|
        0 <= i < 36 ==> if is_dash_place(i) {
            #[trigger] s[i] == '-'
        } else {
            is_hex_digit(s[i])
        }
}

/// The first of the ids that is like a UUID, trimmed.
pub open spec fn first_uuid(ids: Seq<Seq<char>>) -> Option<Seq<char>>
    decreases ids.len(),
{
    if ids.len() == 0 {
        None
    } else if uuid_like(crate::text::trimmed(ids[0])) {
        Some(crate::text::trimmed(ids[0]))
    } else {
        first_uuid(ids.drop_first())
    }
}

/// The id of an account that is known by several: the first that is like a UUID, or the first that
/// is not blank.
pub open spec fn canonical(ids: Seq<Seq<char>>) -> Seq<char> {
    match first_uuid(ids) {
        Some(id) => id,
        None => first_non_empty_of(ids),
    }
}

/// The first of the values that is not blank, trimmed.
pub fn first_non_empty(values: &[&str]) -> (r: String)
    ensures
        r@ == first_non_empty_of(texts(values@)),
{
    let ghost all = texts(values@);
    assert(all.skip(0) == all);
    for i in 0..values.len()
        invariant
            all == texts(values@),
            first_non_blank(all) == first_non_blank(all.skip(i as int)),
    {
        assert(all.skip(i as int)[0] == values@[i as int]@);
        let value = trim(values[i]);
        if !value.is_empty() {
            return value.to_string();
        }
        assert(all.skip(i as int).drop_first() == all.skip(i + 1));
    }
    String::new()
}

pub fn is_uuid_like(value: &str) -> (r: bool)
    ensures
        r == uuid_like(value@),
{
    let chars = chars_of(value);
    if chars.len() != 36 {
        return false;
    }
    for i in 0..chars.len()
        invariant
            chars@ == value@,
            chars.len() == 36,
            forall|k: int|
                0 <= k < i ==> if is_dash_place(k) {
                    #[trigger] value@[k] == '-'
                } else {
                    is_hex_digit(value@[k])
                },
    {
        let c: char = chars[i];
        let fits: bool = if i == 8 || i == 13 || i == 18 || i == 23 {
            c == '-'
        } else {
            ('0' <= c && c <= '9') || ('a' <= c && c <= 'f') || ('A' <= c && c <= 'F')
        };
        assert(c == value@[i as int]);
        if !fits {
            return false;
        }
    }
    true
}

/// The first id that is like a UUID, or the first that is not blank.
pub fn canonical_account_id(ids: &[&str]) -> (r: String)
    ensures
        r@ == canonical(texts(ids@)),
{
    let ghost all = texts(ids@);
    assert(all.skip(0) == all);
    for i in 0..ids.len()
        invariant
            all == texts(ids@),
            first_uuid(all) == first_uuid(all.skip(i as int)),
    {
        assert(all.skip(i as int)[0] == ids@[i as int]@);
        let id = trim(ids[i]);
        if is_uuid_like(id) {
            return id.to_string();
        }
        assert(all.skip(i as int).drop_first() == all.skip(i + 1));
    }
    first_non_empty(ids)
}

/// Every one of the values is blank.
pub open spec fn all_blank(values: Seq<Seq<char>>) -> bool {
    forall|i: int| 0 <= i < values.len() ==> crate::text::is_blank(#[trigger] values[i])
}

proof fn lemma_first_non_blank(values: Seq<Seq<char>>)
    ensures
        first_non_blank(values) is None <==> all_blank(values),
        first_non_blank(values) matches Some(s) ==> s.len() > 0 && crate::text::is_trimmed(s),
    decreases values.len(),
{
    if values.len() > 0 {
        let rest = values.drop_first();
        lemma_first_non_blank(rest);
        crate::text::lemma_trimmed_has_no_outer_space(values[0]);
        assert(forall|i: int| 0 <= i < rest.len() ==> rest[i] == values[i + 1]);
        if all_blank(rest) && crate::text::is_blank(values[0]) {
            assert forall|i: int| 0 <= i < values.len() implies crate::text::is_blank(
                #[trigger] values[i],
            ) by {
                if i > 0 {
                    assert(rest[i - 1] == values[i]);
                }
            }
        }
    }
}

/// The first value that is not blank has no outer white space, and is empty only where there is none.
pub proof fn lemma_first_non_empty(values: Seq<Seq<char>>)
    ensures
        crate::text::is_trimmed(first_non_empty_of(values)),
        first_non_empty_of(values).len() == 0 <==> all_blank(values),
{
    lemma_first_non_blank(values);
}

proof fn lemma_first_uuid(ids: Seq<Seq<char>>)
    ensures
        first_uuid(ids) matches Some(s) ==> s.len() == 36 && crate::text::is_trimmed(s)
            && !all_blank(ids),
    decreases ids.len(),
{
    if ids.len() > 0 {
        let rest = ids.drop_first();
        lemma_first_uuid(rest);
        crate::text::lemma_trimmed_has_no_outer_space(ids[0]);
        assert(forall|i: int| 0 <= i < rest.len() ==> rest[i] == ids[i + 1]);
        assert(all_blank(ids) ==> all_blank(rest));
    }
}

/// A canonical id has no outer white space, and is empty only where every given id is blank.
pub proof fn lemma_canonical(ids: Seq<Seq<char>>)
    ensures
        crate::text::is_trimmed(canonical(ids)),
        canonical(ids).len() == 0 <==> all_blank(ids),
{
    lemma_first_uuid(ids);
    lemma_first_non_blank(ids);
}

/// The canonical form of a single id is the trimmed id.
pub proof fn lemma_canonical_single(id: Seq<char>)
    ensures
        canonical(seq![id]) == crate::text::trimmed(id),
{
    reveal_with_fuel(first_uuid, 2);
    reveal_with_fuel(first_non_blank, 2);
    assert(seq![id].drop_first() =~= Seq::empty());
    if crate::text::is_blank(id) {
        assert(crate::text::trimmed(id) =~= Seq::empty());
    }
}

/// Taking the canonical id of a canonical id changes nothing.
pub proof fn lemma_canonical_idempotent(ids: Seq<Seq<char>>)
    ensures
        canonical(seq![canonical(ids)]) == canonical(ids),
{
    lemma_canonical(ids);
    lemma_canonical_single(canonical(ids));
    crate::text::lemma_trimmed_fixed(canonical(ids));
}

/// The canonical one of two ids stays canonical beside the second.
pub proof fn lemma_canonical_again(a: Seq<char>, b: Seq<char>)
    ensures
        canonical(seq![canonical(seq![a, b]), b]) == canonical(seq![a, b]),
{
    let c = canonical(seq![a, b]);
    lemma_canonical_pair(a, b);
    lemma_canonical_pair(c, b);
    crate::text::lemma_trimmed_idempotent(a);
    crate::text::lemma_trimmed_idempotent(b);
}

/// The canonical one of two ids: the first, unless only the second is like a UUID or not blank.
pub proof fn lemma_canonical_pair(a: Seq<char>, b: Seq<char>)
    ensures
        canonical(seq![a, b]) == if uuid_like(crate::text::trimmed(a)) {
            crate::text::trimmed(a)
        } else if uuid_like(crate::text::trimmed(b)) || crate::text::is_blank(a) {
            crate::text::trimmed(b)
        } else {
            crate::text::trimmed(a)
        },
{
    reveal_with_fuel(first_uuid, 3);
    reveal_with_fuel(first_non_blank, 3);
    assert(seq![a, b].drop_first() =~= seq![b]);
    assert(seq![b].drop_first() =~= Seq::empty());
    if crate::text::is_blank(b) {
        assert(crate::text::trimmed(b) =~= Seq::empty());
    }
}

/// A UUID among the ids wins over everything that is none.
pub proof fn lemma_uuid_wins(ids: Seq<Seq<char>>, i: int)
    requires
        0 <= i < ids.len(),
        uuid_like(crate::text::trimmed(ids[i])),
    ensures
        uuid_like(canonical(ids)),
    decreases ids.len(),
{
    if !uuid_like(crate::text::trimmed(ids[0])) {
        assert(ids.drop_first()[i - 1] == ids[i]);
        lemma_uuid_wins(ids.drop_first(), i - 1);
        lemma_uuid_found(ids.drop_first(), i - 1);
    }
}

proof fn lemma_uuid_found(ids: Seq<Seq<char>>, i: int)
    requires
        0 <= i < ids.len(),
        uuid_like(crate::text::trimmed(ids[i])),
    ensures
        first_uuid(ids) is Some,
    decreases ids.len(),
{
    if !uuid_like(crate::text::trimmed(ids[0])) {
        assert(ids.drop_first()[i - 1] == ids[i]);
        lemma_uuid_found(ids.drop_first(), i - 1);
    }
}

/// A long id can be cut after its first six bytes and before its last four.
pub open spec fn shortens(value: Seq<char>) -> bool {
    let t = crate::text::trimmed(value);
    let n = encode_utf8(t).len();
    n > 12 ==> crate::text::cuts(t, 6) && crate::text::cuts(t, n - 4)
}

/// The id, or its first six and last four bytes where it has more than twelve.
pub open spec fn shortened(value: Seq<char>) -> Seq<char> {
    let t = crate::text::trimmed(value);
    let n = encode_utf8(t).len();
    if n <= 12 {
        t
    } else {
        crate::text::byte_prefix(t, 6) + "..."@ + crate::text::byte_suffix(t, n - 4)
    }
}

/// Tells whether `short_account_id` can cut `value`.
pub fn can_shorten(value: &str) -> (r: bool)
    ensures
        r == shortens(value@),
{
    let t = trim(value);
    let n: usize = t.as_bytes().len();
    n <= 12 || (t.is_char_boundary(6) && t.is_char_boundary(n - 4))
}

/// The id, with its middle left out where it is long.
pub fn short_account_id(value: &str) -> (r: String)
    requires
        shortens(value@),
    ensures
        r@ == shortened(value@),
{
    let t = trim(value);
    let n: usize = t.as_bytes().len();
    if n <= 12 {
        return t.to_string();
    }
    let (head, after) = t.split_at(6);
    let (before, tail) = t.split_at(n - 4);
    proof {
        encode_utf8_decode_utf8(head@);
        encode_utf8_decode_utf8(tail@);
        assert(encode_utf8(t@).subrange(n - 4, n as int) =~= encode_utf8(t@).skip(n - 4));
    }
    head.to_string().concat("...").concat(tail)
}

} // verus!
