//! What holds of texts and of ids, whatever they are.
use vstd::prelude::*;
use vstd::utf8::*;

#[allow(unused_imports)]
use crate::text::{is_blank, is_space, pad_end, pad_start, trimmed, truncated};

verus! {

/// A text of white space only.
pub open spec fn all_space(s: Seq<char>) -> bool {
    forall|i: int| 0 <= i < s.len() ==> is_space(#[trigger] s[i])
}

proof fn lemma_trim_start(space: Seq<char>, s: Seq<char>)
    requires
        all_space(space),
        s.len() > 0,
        !is_space(s[0]),
    ensures
        crate::text::trim_start(space + s) == s,
    decreases space.len(),
{
    if space.len() == 0 {
        assert(space + s =~= s);
    } else {
        assert((space + s)[0] == space[0]);
        assert((space + s).drop_first() =~= space.drop_first() + s);
        assert forall|i: int| 0 <= i < space.drop_first().len() implies is_space(
            #[trigger] space.drop_first()[i],
        ) by {
            assert(space.drop_first()[i] == space[i + 1]);
        }
        lemma_trim_start(space.drop_first(), s);
    }
}

proof fn lemma_trim_end(s: Seq<char>, space: Seq<char>)
    requires
        all_space(space),
        s.len() > 0,
        !is_space(s.last()),
    ensures
        crate::text::trim_end(s + space) == s,
    decreases space.len(),
{
    if space.len() == 0 {
        assert(s + space =~= s);
    } else {
        assert((s + space).last() == space.last());
        assert(is_space(space[space.len() - 1]));
        assert((s + space).drop_last() =~= s + space.drop_last());
        assert forall|i: int| 0 <= i < space.drop_last().len() implies is_space(
            #[trigger] space.drop_last()[i],
        ) by {
            assert(space.drop_last()[i] == space[i]);
        }
        lemma_trim_end(s, space.drop_last());
    }
}

/// Trimming takes away the white space at both ends, and nothing else.
pub proof fn lemma_trimmed(before: Seq<char>, s: Seq<char>, after: Seq<char>)
    requires
        all_space(before),
        all_space(after),
        s.len() > 0,
        !is_space(s[0]),
        !is_space(s.last()),
    ensures
        trimmed(before + s + after) == s,
        !is_blank(before + s + after),
{
    assert(before + s + after =~= before + (s + after));
    assert((s + after)[0] == s[0]);
    lemma_trim_start(before, s + after);
    lemma_trim_end(s, after);
}

/// A text is blank exactly where it is white space only.
pub proof fn lemma_blank(s: Seq<char>)
    ensures
        is_blank(s) <==> all_space(s),
    decreases s.len(),
{
    if s.len() > 0 {
        if is_space(s.first()) {
            lemma_blank(s.drop_first());
            assert forall|i: int| 0 <= i < s.len() && all_space(s.drop_first()) implies is_space(
                #[trigger] s[i],
            ) by {
                if i > 0 {
                    assert(s.drop_first()[i - 1] == s[i]);
                }
            }
            if all_space(s) {
                assert forall|i: int| 0 <= i < s.drop_first().len() implies is_space(
                    #[trigger] s.drop_first()[i],
                ) by {
                    assert(s.drop_first()[i] == s[i + 1]);
                }
            }
        } else {
            assert(!is_space(s[0]));
            lemma_front_stays(s);
        }
    }
}

proof fn lemma_front_stays(s: Seq<char>)
    requires
        s.len() > 0,
        !is_space(s[0]),
    ensures
        crate::text::trim_end(s).len() > 0,
    decreases s.len(),
{
    if is_space(s.last()) {
        assert(s.drop_last().len() > 0) by {
            if s.len() == 1 {
                assert(s.last() == s[0]);
            }
        }
        assert(s.drop_last()[0] == s[0]);
        lemma_front_stays(s.drop_last());
    }
}

/// The usual white space is white space, as are the spaces of typography; letters, digits, dots and
/// what has a width of zero are not, and nothing behind the ideographic space is.
pub proof fn lemma_space(c: char)
    ensures
        is_space(' ') && is_space('\t') && is_space('\n') && is_space('\r'),
        is_space('\u{a0}') && is_space('\u{2003}') && is_space('\u{202f}') && is_space('\u{3000}'),
        '!' <= c <= '~' ==> !is_space(c),
        '\u{a1}' <= c < '\u{1680}' ==> !is_space(c),
        '\u{200b}' <= c < '\u{2028}' ==> !is_space(c),
        c > '\u{3000}' ==> !is_space(c),
{
}

/// Padding keeps the text and fills up to the width with spaces, behind it or before it.
pub proof fn lemma_padded(s: Seq<char>, width: nat, i: int)
    ensures
        s.len() >= width ==> pad_end(s, width) == s && pad_start(s, width) == s,
        s.len() < width ==> pad_end(s, width).len() == width && pad_start(s, width).len() == width,
        pad_end(s, width).take(s.len() as int) == s,
        pad_start(s, width).skip(pad_start(s, width).len() - s.len()) == s,
        s.len() <= i < width ==> pad_end(s, width)[i] == ' ',
        0 <= i < width - s.len() ==> pad_start(s, width)[i] == ' ',
{
    assert(pad_end(s, width).take(s.len() as int) =~= s);
    assert(pad_start(s, width).skip(pad_start(s, width).len() - s.len()) =~= s);
    if s.len() >= width {
        assert(pad_end(s, width) =~= s);
        assert(pad_start(s, width) =~= s);
    }
}

/// The first place in which two texts differ decides their order; a text comes before those that it
/// begins.
pub proof fn lemma_text_order(common: Seq<char>, a: Seq<char>, b: Seq<char>)
    ensures
        a.len() > 0 && b.len() > 0 && a[0] < b[0] ==> crate::text::lex_less(common + a, common + b),
        a.len() > 0 && b.len() > 0 && a[0] > b[0] ==> !crate::text::lex_less(common + a, common + b),
        a.len() == 0 && b.len() > 0 ==> crate::text::lex_less(common + a, common + b),
        b.len() == 0 ==> !crate::text::lex_less(common + a, common + b),
    decreases common.len(),
{
    if common.len() == 0 {
        assert(common + a =~= a);
        assert(common + b =~= b);
    } else {
        let rest = common.drop_first();
        assert((common + a).drop_first() =~= rest + a);
        assert((common + b).drop_first() =~= rest + b);
        assert((common + a)[0] == common[0] && (common + b)[0] == common[0]);
        lemma_text_order(rest, a, b);
    }
}

/// A text that is longer than allowed is cut after so many bytes and marked; a shorter one is only
/// trimmed.
pub proof fn lemma_truncated(value: Seq<char>, max_len: int)
    requires
        crate::text::truncates(value, max_len),
        0 <= max_len,
    ensures
        encode_utf8(trimmed(value)).len() <= max_len ==> truncated(value, max_len) == trimmed(value),
        encode_utf8(trimmed(value)).len() > max_len ==> exists|m: int|
            0 <= m <= trimmed(value).len() && truncated(value, max_len) == trimmed(value).take(m)
                + "..."@ && encode_utf8(#[trigger] trimmed(value).take(m)).len() == max_len,
{
    let t = trimmed(value);
    if encode_utf8(t).len() > max_len {
        lemma_cut(t, max_len);
        let m = crate::text::byte_prefix(t, max_len).len() as int;
        assert(t.take(m) =~= crate::text::byte_prefix(t, max_len));
    }
}

proof fn lemma_cut(t: Seq<char>, n: int)
    requires
        crate::text::cuts(t, n),
        0 <= n <= encode_utf8(t).len(),
    ensures
        t == crate::text::byte_prefix(t, n) + crate::text::byte_suffix(t, n),
        encode_utf8(crate::text::byte_prefix(t, n)) == encode_utf8(t).subrange(0, n),
        encode_utf8(crate::text::byte_suffix(t, n)) == encode_utf8(t).skip(n),
{
    let bytes = encode_utf8(t);
    encode_utf8_valid_utf8(t);
    encode_utf8_decode_utf8(t);
    valid_utf8_split(bytes, n);
    decode_utf8_split(bytes, n);
    assert(bytes.subrange(n, bytes.len() as int) =~= bytes.skip(n));
    decode_utf8_encode_utf8(bytes.subrange(0, n));
    decode_utf8_encode_utf8(bytes.skip(n));
}

/// A long id is shown by its first six bytes and its last four; a short one is shown whole.
pub proof fn lemma_short_id(value: Seq<char>)
    requires
        crate::identity::shortens(value),
    ensures
        encode_utf8(trimmed(value)).len() <= 12 ==> crate::identity::shortened(value) == trimmed(
            value,
        ),
        encode_utf8(trimmed(value)).len() > 12 ==> exists|m: int, k: int|
            0 <= m <= trimmed(value).len() && 0 <= k <= trimmed(value).len()
                && crate::identity::shortened(value) == trimmed(value).take(m) + "..."@ + trimmed(
                value,
            ).skip(k) && encode_utf8(#[trigger] trimmed(value).take(m)).len() == 6 && encode_utf8(
                #[trigger] trimmed(value).skip(k),
            ).len() == 4,
{
    let t = trimmed(value);
    let n = encode_utf8(t).len() as int;
    if n > 12 {
        lemma_cut(t, 6);
        lemma_cut(t, n - 4);
        let m = crate::text::byte_prefix(t, 6).len() as int;
        let k = crate::text::byte_prefix(t, n - 4).len() as int;
        assert(t.take(m) =~= crate::text::byte_prefix(t, 6));
        assert(t.skip(k) =~= crate::text::byte_suffix(t, n - 4));
    }
}

/// Of several ids, the first that is like a UUID counts; where none is, the first that is not blank.
pub proof fn lemma_canonical_of(ids: Seq<Seq<char>>, i: int)
    requires
        0 <= i < ids.len(),
    ensures
        crate::identity::uuid_like(trimmed(ids[i])) && (forall|k: int|
            0 <= k < i ==> !crate::identity::uuid_like(trimmed(#[trigger] ids[k])))
            ==> crate::identity::canonical(ids) == trimmed(ids[i]),
        (forall|k: int|
            0 <= k < ids.len() ==> !crate::identity::uuid_like(trimmed(#[trigger] ids[k])))
            && !is_blank(ids[i]) && (forall|k: int| 0 <= k < i ==> is_blank(#[trigger] ids[k]))
            ==> crate::identity::canonical(ids) == trimmed(ids[i]),
{
    if crate::identity::uuid_like(trimmed(ids[i])) && (forall|k: int|
        0 <= k < i ==> !crate::identity::uuid_like(trimmed(#[trigger] ids[k]))) {
        lemma_first_uuid(ids, i);
    }
    if forall|k: int| 0 <= k < ids.len() ==> !crate::identity::uuid_like(
        trimmed(#[trigger] ids[k]),
    ) {
        lemma_no_uuid(ids);
        if !is_blank(ids[i]) && (forall|k: int| 0 <= k < i ==> is_blank(#[trigger] ids[k])) {
            lemma_first_text(ids, i);
        }
    }
}

proof fn lemma_first_uuid(ids: Seq<Seq<char>>, i: int)
    requires
        0 <= i < ids.len(),
        crate::identity::uuid_like(trimmed(ids[i])),
        forall|k: int| 0 <= k < i ==> !crate::identity::uuid_like(trimmed(#[trigger] ids[k])),
    ensures
        crate::identity::first_uuid(ids) == Some(trimmed(ids[i])),
    decreases ids.len(),
{
    if i > 0 {
        let rest = ids.drop_first();
        assert(!crate::identity::uuid_like(trimmed(ids[0])));
        assert forall|k: int| 0 <= k < i - 1 implies !crate::identity::uuid_like(
            trimmed(#[trigger] rest[k]),
        ) by {
            assert(rest[k] == ids[k + 1]);
        }
        lemma_first_uuid(rest, i - 1);
    }
}

proof fn lemma_no_uuid(ids: Seq<Seq<char>>)
    requires
        forall|k: int| 0 <= k < ids.len() ==> !crate::identity::uuid_like(trimmed(#[trigger] ids[k])),
    ensures
        crate::identity::first_uuid(ids) is None,
    decreases ids.len(),
{
    if ids.len() > 0 {
        let rest = ids.drop_first();
        assert(!crate::identity::uuid_like(trimmed(ids[0])));
        assert forall|k: int| 0 <= k < rest.len() implies !crate::identity::uuid_like(
            trimmed(#[trigger] rest[k]),
        ) by {
            assert(rest[k] == ids[k + 1]);
        }
        lemma_no_uuid(rest);
    }
}

/// The first text that is not blank is found, without its outer white space.
pub proof fn lemma_first_text(values: Seq<Seq<char>>, i: int)
    requires
        0 <= i < values.len(),
        !is_blank(values[i]),
        forall|k: int| 0 <= k < i ==> is_blank(#[trigger] values[k]),
    ensures
        crate::identity::first_non_empty_of(values) == trimmed(values[i]),
    decreases values.len(),
{
    if i > 0 {
        let rest = values.drop_first();
        assert(is_blank(values[0]));
        assert forall|k: int| 0 <= k < i - 1 implies is_blank(#[trigger] rest[k]) by {
            assert(rest[k] == values[k + 1]);
        }
        lemma_first_text(rest, i - 1);
    }
}

/// A UUID has thirty-six characters: hexadecimal digits of either case, and dashes between its five
/// groups.
pub proof fn lemma_uuid(s: Seq<char>, i: int)
    requires
        crate::identity::uuid_like(s),
        0 <= i < 36,
    ensures
        s.len() == 36,
        s[i] == '-' <==> i == 8 || i == 13 || i == 18 || i == 23,
        s[i] != '-' ==> '0' <= s[i] <= '9' || 'a' <= s[i] <= 'f' || 'A' <= s[i] <= 'F',
{
}

/// Texts are equal but for capitals exactly where each of their characters is.
pub proof fn lemma_ignoring_case(a: Seq<char>, b: Seq<char>)
    ensures
        crate::text::eq_ignore_case(a, a),
        crate::text::eq_ignore_case(a, b) ==> crate::text::eq_ignore_case(b, a) && a.len() == b.len(),
        crate::text::eq_ignore_case(a, b) ==> forall|i: int|
            0 <= i < a.len() ==> #[trigger] a[i] == b[i] || (a[i] as int + 32 == b[i] as int && 'A'
                <= a[i] <= 'Z') || (b[i] as int + 32 == a[i] as int && 'A' <= b[i] <= 'Z'),
{
    if crate::text::eq_ignore_case(a, b) {
        let x = crate::text::ascii_lowercase(a);
        let y = crate::text::ascii_lowercase(b);
        assert(x.len() == a.len() && y.len() == b.len());
        assert forall|i: int| 0 <= i < a.len() implies #[trigger] a[i] == b[i] || (a[i] as int + 32
            == b[i] as int && 'A' <= a[i] <= 'Z') || (b[i] as int + 32 == a[i] as int && 'A' <= b[i]
            <= 'Z') by {
            assert(x[i] == crate::text::ascii_lower(a[i]));
            assert(y[i] == crate::text::ascii_lower(b[i]));
        }
    }
}

} // verus!
