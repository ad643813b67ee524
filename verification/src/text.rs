//! Text: trimming, case, search, ordering, numbers and padding, over sequences of characters.
use vstd::prelude::*;
use vstd::string::*;
use vstd::utf8::*;

verus! {

/// `String::push` appends one character.
pub assume_specification[ String::push ](s: &mut String, c: char)
    ensures
        final(s)@ == old(s)@.push(c),
;

/// A character of the Unicode property `White_Space`.
pub open spec fn is_space(c: char) -> bool {
    ||| '\u{9}' <= c <= '\u{d}'
    ||| c == ' '
    ||| c == '\u{85}'
    ||| c == '\u{a0}'
    ||| c == '\u{1680}'
    ||| '\u{2000}' <= c <= '\u{200a}'
    ||| c == '\u{2028}'
    ||| c == '\u{2029}'
    ||| c == '\u{202f}'
    ||| c == '\u{205f}'
    ||| c == '\u{3000}'
}

/// `s` without its leading white space.
pub open spec fn trim_start(s: Seq<char>) -> Seq<char>
    decreases s.len(),
{
    if s.len() > 0 && is_space(s.first()) {
        trim_start(s.drop_first())
    } else {
        s
    }
}

/// `s` without its trailing white space.
pub open spec fn trim_end(s: Seq<char>) -> Seq<char>
    decreases s.len(),
{
    if s.len() > 0 && is_space(s.last()) {
        trim_end(s.drop_last())
    } else {
        s
    }
}

/// `s` without white space at either end.
pub open spec fn trimmed(s: Seq<char>) -> Seq<char> {
    trim_end(trim_start(s))
}

/// `s` holds nothing but white space.
pub open spec fn is_blank(s: Seq<char>) -> bool {
    trimmed(s).len() == 0
}

/// The characters of a string.
pub fn chars_of(s: &str) -> (r: Vec<char>)
    ensures
        r@ == s@,
{
    let mut r: Vec<char> = Vec::new();
    for c in it: s.chars()
        invariant
            r@ == s@.take(it.index()),
            it.seq() == s@,
    {
        r.push(c);
    }
    r
}

pub fn is_whitespace(c: char) -> (r: bool)
    ensures
        r == is_space(c),
{
    ('\u{9}' <= c && c <= '\u{d}') || c == ' ' || c == '\u{85}' || c == '\u{a0}' || c == '\u{1680}'
        || ('\u{2000}' <= c && c <= '\u{200a}') || c == '\u{2028}' || c == '\u{2029}' || c
        == '\u{202f}' || c == '\u{205f}' || c == '\u{3000}'
}

/// The part of `s` between its leading and its trailing white space.
pub fn trim(s: &str) -> (r: &str)
    ensures
        r@ == trimmed(s@),
{
    let chars = chars_of(s);
    let n: usize = chars.len();
    let mut i: usize = 0;
    assert(s@.skip(0) == s@);
    while i < n && is_whitespace(chars[i])
        invariant
            i <= n == chars.len(),
            chars@ == s@,
            trim_start(s@) == trim_start(s@.skip(i as int)),
        decreases n - i,
    {
        assert(s@.skip(i as int).drop_first() == s@.skip(i + 1));
        i = i + 1;
    }
    let mut j: usize = n;
    assert(s@.subrange(i as int, n as int) == s@.skip(i as int));
    while j > i && is_whitespace(chars[j - 1])
        invariant
            i <= j <= n == chars.len(),
            chars@ == s@,
            trim_end(s@.skip(i as int)) == trim_end(s@.subrange(i as int, j as int)),
        decreases j,
    {
        assert(s@.subrange(i as int, j as int).drop_last() == s@.subrange(i as int, j - 1));
        j = j - 1;
    }
    s.substring_char(i, j)
}

/// The trimmed text as a string of its own.
pub fn trim_text(s: &str) -> (r: String)
    ensures
        r@ == trimmed(s@),
{
    trim(s).to_string()
}

pub fn blank(s: &str) -> (r: bool)
    ensures
        r == is_blank(s@),
{
    trim(s).is_empty()
}

/// `s` ends where it would be trimmed.
pub open spec fn is_trimmed(s: Seq<char>) -> bool {
    s.len() > 0 ==> !is_space(s.first()) && !is_space(s.last())
}

proof fn lemma_trim_start(s: Seq<char>)
    ensures
        trim_start(s).len() <= s.len(),
        trim_start(s) == s.skip(s.len() - trim_start(s).len()),
        trim_start(s).len() > 0 ==> !is_space(trim_start(s).first()),
    decreases s.len(),
{
    if s.len() > 0 && is_space(s.first()) {
        lemma_trim_start(s.drop_first());
        let t = trim_start(s.drop_first());
        assert(s.drop_first().skip(s.len() - 1 - t.len()) == s.skip(s.len() - t.len()));
    } else {
        assert(s.skip(0) == s);
    }
}

proof fn lemma_trim_end(s: Seq<char>)
    ensures
        trim_end(s).len() <= s.len(),
        trim_end(s) == s.take(trim_end(s).len() as int),
        trim_end(s).len() > 0 ==> !is_space(trim_end(s).last()),
    decreases s.len(),
{
    if s.len() > 0 && is_space(s.last()) {
        lemma_trim_end(s.drop_last());
        let t = trim_end(s.drop_last());
        assert(s.drop_last().take(t.len() as int) == s.take(t.len() as int));
    } else {
        assert(s.take(s.len() as int) == s);
    }
}

/// Trimmed text begins and ends with something other than white space.
pub proof fn lemma_trimmed_has_no_outer_space(s: Seq<char>)
    ensures
        is_trimmed(trimmed(s)),
{
    lemma_trim_start(s);
    lemma_trim_end(trim_start(s));
}

/// Text that has no outer white space is its own trimmed text.
pub proof fn lemma_trimmed_fixed(s: Seq<char>)
    requires
        is_trimmed(s),
    ensures
        trimmed(s) == s,
{
}

/// Trimming twice is trimming once.
pub proof fn lemma_trimmed_idempotent(s: Seq<char>)
    ensures
        trimmed(trimmed(s)) == trimmed(s),
{
    lemma_trimmed_has_no_outer_space(s);
    lemma_trimmed_fixed(trimmed(s));
}

/// The two strings hold the same characters.
pub fn same_text(a: &str, b: &str) -> (r: bool)
    ensures
        r == (a@ == b@),
{
    let x = chars_of(a);
    let y = chars_of(b);
    same_chars(&x, &y)
}

fn same_chars(x: &Vec<char>, y: &Vec<char>) -> (r: bool)
    ensures
        r == (x@ == y@),
{
    if x.len() != y.len() {
        return false;
    }
    for i in 0..x.len()
        invariant
            x.len() == y.len(),
            forall|j: int| 0 <= j < i ==> x[j] == y[j],
    {
        if x[i] != y[i] {
            return false;
        }
    }
    assert(x@ =~= y@);
    true
}

/// An ASCII capital becomes the small letter, any other character stays.
pub open spec fn ascii_lower(c: char) -> char {
    if 'A' <= c <= 'Z' {
        (c as u32 + 32) as char
    } else {
        c
    }
}

pub open spec fn ascii_lowercase(s: Seq<char>) -> Seq<char> {
    s.map_values(|c: char| ascii_lower(c))
}

/// Equality that does not tell ASCII capitals from small letters.
pub open spec fn eq_ignore_case(a: Seq<char>, b: Seq<char>) -> bool {
    ascii_lowercase(a) == ascii_lowercase(b)
}

fn ascii_lower_char(c: char) -> (r: char)
    ensures
        r == ascii_lower(c),
{
    if 'A' <= c && c <= 'Z' {
        let b: u8 = c as u8;
        (b + 32) as char
    } else {
        c
    }
}

pub fn to_ascii_lowercase(s: &str) -> (r: String)
    ensures
        r@ == ascii_lowercase(s@),
{
    let chars = chars_of(s);
    let mut r = String::new();
    for i in 0..chars.len()
        invariant
            chars@ == s@,
            r@ == ascii_lowercase(s@.take(i as int)),
    {
        r.push(ascii_lower_char(chars[i]));
        assert(ascii_lowercase(s@.take(i + 1)) == ascii_lowercase(s@.take(i as int)).push(
            ascii_lower(s@[i as int]),
        ));
    }
    assert(s@.take(s@.len() as int) == s@);
    r
}

pub fn eq_ignore_ascii_case(a: &str, b: &str) -> (r: bool)
    ensures
        r == eq_ignore_case(a@, b@),
{
    let x = to_ascii_lowercase(a);
    let y = to_ascii_lowercase(b);
    x == y
}

/// What `str::to_lowercase` makes of a text that is not all ASCII.
pub uninterp spec fn unicode_lowercase(s: Seq<char>) -> Seq<char>;

/// The lower case of a text.
pub open spec fn lowercase(s: Seq<char>) -> Seq<char> {
    if is_ascii_chars(s) {
        ascii_lowercase(s)
    } else {
        unicode_lowercase(s)
    }
}

/// `str::to_lowercase`: on text that is all ASCII it is the ASCII lower case, and on other text it is
/// a function of the text alone.
#[verifier::external_body]
pub(crate) fn to_lowercase(s: &str) -> (r: String)
    ensures
        r@ == lowercase(s@),
        !is_ascii_chars(s@) ==> r@ == unicode_lowercase(s@),
{
    s.to_lowercase()
}

/// The lower case of an empty text is empty.
pub proof fn lemma_lowercase_empty(s: Seq<char>)
    requires
        s.len() == 0,
    ensures
        lowercase(s).len() == 0,
{
}

/// `part` stands somewhere in `s`.
pub open spec fn holds(s: Seq<char>, part: Seq<char>) -> bool {
    exists|i: int| 0 <= i <= s.len() - part.len() && #[trigger] s.subrange(i, i + part.len()) == part
}

/// `part` stands in `s` at `i`.
fn holds_at(s: &Vec<char>, part: &Vec<char>, i: usize) -> (r: bool)
    requires
        i + part.len() <= s.len(),
    ensures
        r == (s@.subrange(i as int, i + part.len()) == part@),
{
    for j in 0..part.len()
        invariant
            i + part.len() <= s.len(),
            forall|k: int| 0 <= k < j ==> s[i + k] == part[k],
    {
        if s[i + j] != part[j] {
            assert(s@.subrange(i as int, i + part.len())[j as int] != part@[j as int]);
            return false;
        }
    }
    assert(s@.subrange(i as int, i + part.len()) =~= part@);
    true
}

pub fn contains(s: &str, part: &str) -> (r: bool)
    ensures
        r == holds(s@, part@),
{
    let x = chars_of(s);
    let y = chars_of(part);
    if y.len() > x.len() {
        return false;
    }
    let last: usize = x.len() - y.len();
    for i in 0..last
        invariant
            x@ == s@,
            y@ == part@,
            last == x.len() - y.len(),
            forall|k: int| 0 <= k < i ==> #[trigger] s@.subrange(k, k + part@.len()) != part@,
    {
        if holds_at(&x, &y, i) {
            return true;
        }
    }
    holds_at(&x, &y, last)
}

/// Lexicographic order by code point.
pub open spec fn lex_less(a: Seq<char>, b: Seq<char>) -> bool
    decreases b.len(),
{
    b.len() > 0 && (a.len() == 0 || a[0] < b[0] || (a[0] == b[0] && lex_less(
        a.drop_first(),
        b.drop_first(),
    )))
}

pub fn chars_less(a: &Vec<char>, b: &Vec<char>) -> (r: bool)
    ensures
        r == lex_less(a@, b@),
{
    let mut i: usize = 0;
    assert(a@.skip(0) == a@);
    assert(b@.skip(0) == b@);
    while i < a.len() && i < b.len()
        invariant
            i <= a.len(),
            i <= b.len(),
            lex_less(a@, b@) == lex_less(a@.skip(i as int), b@.skip(i as int)),
        decreases a.len() - i,
    {
        if a[i] < b[i] {
            return true;
        }
        if a[i] != b[i] {
            return false;
        }
        assert(a@.skip(i as int).drop_first() == a@.skip(i + 1));
        assert(b@.skip(i as int).drop_first() == b@.skip(i + 1));
        i = i + 1;
    }
    i < b.len()
}

pub proof fn lemma_lex_irreflexive(a: Seq<char>)
    ensures
        !lex_less(a, a),
    decreases a.len(),
{
    if a.len() > 0 {
        lemma_lex_irreflexive(a.drop_first());
    }
}

pub proof fn lemma_lex_transitive(a: Seq<char>, b: Seq<char>, c: Seq<char>)
    requires
        lex_less(a, b),
        lex_less(b, c),
    ensures
        lex_less(a, c),
    decreases c.len(),
{
    if a.len() > 0 && a[0] == b[0] && b[0] == c[0] {
        lemma_lex_transitive(a.drop_first(), b.drop_first(), c.drop_first());
    }
}

pub proof fn lemma_lex_total(a: Seq<char>, b: Seq<char>)
    ensures
        lex_less(a, b) || lex_less(b, a) || a == b,
    decreases a.len(),
{
    if a.len() > 0 && b.len() > 0 && a[0] == b[0] {
        lemma_lex_total(a.drop_first(), b.drop_first());
        if a.drop_first() == b.drop_first() {
            assert(a =~= seq![a[0]] + a.drop_first());
            assert(b =~= seq![b[0]] + b.drop_first());
        }
    } else if a.len() == 0 && b.len() == 0 {
        assert(a =~= b);
    }
}

/// The character of a decimal digit.
pub open spec fn digit(d: nat) -> char {
    (48 + d) as char
}

/// The decimal digits of a number, most significant first.
pub open spec fn decimal(n: nat) -> Seq<char>
    decreases n,
{
    if n < 10 {
        seq![digit(n)]
    } else {
        decimal(n / 10).push(digit(n % 10))
    }
}

/// Appends the decimal digits of `n`.
pub fn push_decimal(out: &mut String, n: u64)
    ensures
        final(out)@ == old(out)@ + decimal(n as nat),
    decreases n,
{
    if n >= 10 {
        push_decimal(out, n / 10);
    }
    let d: u8 = (n % 10) as u8;
    out.push((48 + d) as char);
}

pub fn decimal_text(n: u64) -> (r: String)
    ensures
        r@ == decimal(n as nat),
{
    let mut r = String::new();
    push_decimal(&mut r, n);
    r
}

/// Digits in groups of three, counted from the right, with commas between the groups.
pub open spec fn grouped(digits: Seq<char>) -> Seq<char>
    decreases digits.len(),
{
    if digits.len() <= 3 {
        digits
    } else {
        grouped(digits.take(digits.len() - 3)) + seq![','] + digits.skip(digits.len() - 3)
    }
}

/// Appends the first `n` of `digits` in groups.
pub fn push_grouped(out: &mut String, digits: &Vec<char>, n: usize)
    requires
        n <= digits.len(),
    ensures
        final(out)@ == old(out)@ + grouped(digits@.take(n as int)),
    decreases n,
{
    let ghost start = out@;
    let mut from: usize = 0;
    if n > 3 {
        from = n - 3;
        push_grouped(out, digits, from);
        out.push(',');
        assert(digits@.take(n as int).take(n - 3) == digits@.take(n - 3));
    }
    let ghost head = out@;
    assert(digits@.subrange(from as int, from as int) == Seq::<char>::empty());
    assert(head + Seq::<char>::empty() == head);
    for i in from..n
        invariant
            from <= n <= digits.len(),
            out@ == head + digits@.subrange(from as int, i as int),
    {
        out.push(digits[i]);
        assert(digits@.subrange(from as int, i + 1) == digits@.subrange(from as int, i as int).push(
            digits@[i as int],
        ));
    }
    assert(digits@.subrange(from as int, n as int) == digits@.take(n as int).skip(from as int));
    if n > 3 {
        assert(out@ =~= start + grouped(digits@.take(n as int)));
    } else {
        assert(digits@.take(n as int).skip(0) == digits@.take(n as int));
    }
}

/// `n` times the character `c`.
pub open spec fn repeated(c: char, n: nat) -> Seq<char> {
    Seq::new(n, |i: int| c)
}

pub fn push_repeated(out: &mut String, c: char, n: usize)
    ensures
        final(out)@ == old(out)@ + repeated(c, n as nat),
{
    let ghost start = out@;
    assert(start + repeated(c, 0) == start);
    for i in 0..n
        invariant
            out@ == start + repeated(c, i as nat),
    {
        out.push(c);
        assert(repeated(c, (i + 1) as nat) == repeated(c, i as nat).push(c));
    }
}

/// The number of characters by which `s` falls short of `width`.
pub open spec fn shortfall(s: Seq<char>, width: nat) -> nat {
    if s.len() < width {
        (width - s.len()) as nat
    } else {
        0
    }
}

/// `s` filled with spaces on the right up to `width` characters.
pub open spec fn pad_end(s: Seq<char>, width: nat) -> Seq<char> {
    s + repeated(' ', shortfall(s, width))
}

/// `s` filled with spaces on the left up to `width` characters.
pub open spec fn pad_start(s: Seq<char>, width: nat) -> Seq<char> {
    repeated(' ', shortfall(s, width)) + s
}

fn missing(s: &str, width: usize) -> (r: usize)
    ensures
        r == shortfall(s@, width as nat),
{
    let n: usize = s.unicode_len();
    if n < width {
        width - n
    } else {
        0
    }
}

pub fn push_pad_end(out: &mut String, s: &str, width: usize)
    ensures
        final(out)@ == old(out)@ + pad_end(s@, width as nat),
{
    let ghost start = out@;
    out.append(s);
    push_repeated(out, ' ', missing(s, width));
    assert(out@ =~= start + pad_end(s@, width as nat));
}

pub fn push_pad_start(out: &mut String, s: &str, width: usize)
    ensures
        final(out)@ == old(out)@ + pad_start(s@, width as nat),
{
    let ghost start = out@;
    push_repeated(out, ' ', missing(s, width));
    out.append(s);
    assert(out@ =~= start + pad_start(s@, width as nat));
}

/// The place of the first `c` in `s`, or the length of `s` where there is none.
pub open spec fn first_index(s: Seq<char>, c: char) -> nat
    decreases s.len(),
{
    if s.len() == 0 || s[0] == c {
        0
    } else {
        1 + first_index(s.drop_first(), c)
    }
}

/// The place of the first `c` at or after `from`.
pub fn find_char(s: &Vec<char>, from: usize, c: char) -> (r: usize)
    requires
        from <= s.len(),
    ensures
        from <= r <= s.len(),
        r == from + first_index(s@.skip(from as int), c),
        r < s.len() ==> s[r as int] == c,
{
    let mut i: usize = from;
    while i < s.len() && s[i] != c
        invariant
            from <= i <= s.len(),
            from + first_index(s@.skip(from as int), c) == i + first_index(s@.skip(i as int), c),
        decreases s.len() - i,
    {
        assert(s@.skip(i as int).drop_first() == s@.skip(i + 1));
        i = i + 1;
    }
    i
}

/// The string of the characters from `from` up to `to`.
pub fn text_between(s: &Vec<char>, from: usize, to: usize) -> (r: String)
    requires
        from <= to <= s.len(),
    ensures
        r@ == s@.subrange(from as int, to as int),
{
    let mut r = String::new();
    for i in from..to
        invariant
            from <= to <= s.len(),
            r@ == s@.subrange(from as int, i as int),
    {
        r.push(s[i]);
        assert(s@.subrange(from as int, i + 1) == s@.subrange(from as int, i as int).push(
            s@[i as int],
        ));
    }
    r
}

pub open spec fn begins_with(s: Seq<char>, prefix: Seq<char>) -> bool {
    prefix.len() <= s.len() && s.take(prefix.len() as int) == prefix
}

/// `s` without as many copies of `prefix` as it begins with.
pub open spec fn strip_prefixes(s: Seq<char>, prefix: Seq<char>) -> Seq<char>
    decreases s.len(),
{
    if prefix.len() > 0 && begins_with(s, prefix) {
        strip_prefixes(s.skip(prefix.len() as int), prefix)
    } else {
        s
    }
}

pub fn trim_start_matches(s: &str, prefix: &str) -> (r: String)
    ensures
        r@ == strip_prefixes(s@, prefix@),
{
    let x = chars_of(s);
    let p = chars_of(prefix);
    let mut i: usize = 0;
    assert(s@.skip(0) == s@);
    while p.len() > 0 && p.len() <= x.len() - i && holds_at(&x, &p, i)
        invariant
            x@ == s@,
            p@ == prefix@,
            i <= x.len(),
            strip_prefixes(s@, prefix@) == strip_prefixes(s@.skip(i as int), prefix@),
        decreases x.len() - i,
    {
        assert(s@.skip(i as int).take(p@.len() as int) == s@.subrange(i as int, i + p@.len()));
        assert(s@.skip(i as int).skip(p@.len() as int) == s@.skip(i + p@.len()));
        i = i + p.len();
    }
    if p.len() <= x.len() - i {
        assert(s@.skip(i as int).take(p@.len() as int) == s@.subrange(i as int, i + p@.len()));
    }
    assert(s@.skip(i as int) == s@.subrange(i as int, s@.len() as int));
    text_between(&x, i, x.len())
}

/// The characters that the first `n` bytes of the UTF-8 form of `s` stand for.
pub open spec fn byte_prefix(s: Seq<char>, n: int) -> Seq<char> {
    decode_utf8(encode_utf8(s).subrange(0, n))
}

/// The characters that the bytes from `n` on of the UTF-8 form of `s` stand for.
pub open spec fn byte_suffix(s: Seq<char>, n: int) -> Seq<char> {
    decode_utf8(encode_utf8(s).skip(n))
}

/// `s` can be cut after its first `n` bytes.
pub open spec fn cuts(s: Seq<char>, n: int) -> bool {
    is_char_boundary(encode_utf8(s), n)
}

/// `value` can be cut at `max_len` bytes after trimming, if it is that long.
pub open spec fn truncates(value: Seq<char>, max_len: int) -> bool {
    encode_utf8(trimmed(value)).len() > max_len ==> cuts(trimmed(value), max_len)
}

/// The trimmed text, or its first `max_len` bytes and an ellipsis where it is longer.
pub open spec fn truncated(value: Seq<char>, max_len: int) -> Seq<char> {
    if encode_utf8(trimmed(value)).len() <= max_len {
        trimmed(value)
    } else {
        byte_prefix(trimmed(value), max_len) + "..."@
    }
}

/// Tells whether `truncate` can cut `value` at `max_len` bytes.
pub fn can_truncate(value: &str, max_len: usize) -> (r: bool)
    ensures
        r == truncates(value@, max_len as int),
{
    let t = trim(value);
    t.as_bytes().len() <= max_len || t.is_char_boundary(max_len)
}

/// The trimmed text, cut to its first `max_len` bytes and marked with an ellipsis where it is longer.
pub fn truncate(value: &str, max_len: usize) -> (r: String)
    requires
        truncates(value@, max_len as int),
    ensures
        r@ == truncated(value@, max_len as int),
{
    let t = trim(value);
    if t.as_bytes().len() <= max_len {
        return t.to_string();
    }
    let (head, tail) = t.split_at(max_len);
    proof {
        encode_utf8_decode_utf8(head@);
    }
    head.to_string().concat("...")
}

} // verus!
