//! Character-level helpers shared by the rest of the library.

use vstd::prelude::*;
use vstd::std_specs::iter::IteratorSpec;

verus! {

/// The decimal digit `d` (0..=9) as a character.
pub open spec fn digit_char(d: nat) -> char {
    if d == 0 { '0' }
    else if d == 1 { '1' }
    else if d == 2 { '2' }
    else if d == 3 { '3' }
    else if d == 4 { '4' }
    else if d == 5 { '5' }
    else if d == 6 { '6' }
    else if d == 7 { '7' }
    else if d == 8 { '8' }
    else { '9' }
}

/// The decimal representation of `n`, without leading zeros ("0" for zero).
pub open spec fn decimal(n: nat) -> Seq<char>
    decreases n,
{
    if n < 10 {
        seq![digit_char(n)]
    } else {
        decimal(n / 10).push(digit_char(n % 10))
    }
}

/// Collects the characters of `s`, in order.
pub fn chars_of(s: &str) -> (v: Vec<char>)
    ensures
        v@ == s@,
{
    broadcast use vstd::string::axiom_spec_iter, vstd::string::next_postcondition;

    let mut it = s.chars();
    let mut v: Vec<char> = Vec::new();
    loop
        invariant
            v@ + it.remaining() == s@,
            it.obeys_prophetic_iter_laws(),
            it.decrease() is Some,
        ensures
            v@ == s@,
        decreases it.decrease()->0,
    {
        match it.next() {
            Some(c) => {
                assert(v@.push(c) + it.remaining() =~= s@);
                v.push(c);
            },
            None => {
                assert(v@ =~= s@);
                break;
            },
        }
    }
    v
}

/// Builds a `String` from characters by std's `FromIterator<char>` for
/// `String`. Trusted: the string is claimed to hold exactly the characters
/// of `v`, in order, as std documents for collecting characters.
#[verifier::external_body]
pub(crate) fn string_from_chars(v: &[char]) -> (s: String)
    ensures
        s@ == v@,
{
    v.iter().collect()
}

/// The character of the digit `d`.
pub fn digit_to_char(d: u128) -> (c: char)
    requires
        d < 10,
    ensures
        c == digit_char(d as nat),
{
    if d == 0 { '0' }
    else if d == 1 { '1' }
    else if d == 2 { '2' }
    else if d == 3 { '3' }
    else if d == 4 { '4' }
    else if d == 5 { '5' }
    else if d == 6 { '6' }
    else if d == 7 { '7' }
    else if d == 8 { '8' }
    else { '9' }
}

/// Appends the decimal representation of `n` to `out`.
pub fn push_decimal(out: &mut Vec<char>, n: u128)
    ensures
        final(out)@ == old(out)@ + decimal(n as nat),
    decreases n,
{
    if n < 10 {
        out.push(digit_to_char(n));
        assert(decimal(n as nat) == seq![digit_char(n as nat)]);
    } else {
        push_decimal(out, n / 10);
        out.push(digit_to_char(n % 10));
        assert(decimal(n as nat) == decimal((n / 10) as nat).push(digit_char((n % 10) as nat)));
    }
}

} // verus!

verus! {

/// `s` cut at every `sep` byte, as `<[u8]>::split` cuts it: `k` separators
/// give `k + 1` pieces, empty ones included.
pub open spec fn split_on(s: Seq<u8>, sep: u8) -> Seq<Seq<u8>>
    decreases s.len(),
{
    if s.len() == 0 {
        seq![Seq::<u8>::empty()]
    } else if s.last() == sep {
        split_on(s.drop_last(), sep).push(Seq::<u8>::empty())
    } else {
        let p = split_on(s.drop_last(), sep);
        p.update(p.len() - 1, p.last().push(s.last()))
    }
}

pub proof fn lemma_split_on_nonempty(s: Seq<u8>, sep: u8)
    ensures
        split_on(s, sep).len() >= 1,
    decreases s.len(),
{
    if s.len() > 0 {
        lemma_split_on_nonempty(s.drop_last(), sep);
    }
}

/// Splits `s` at every `sep` byte.
pub fn split_bytes(s: &[u8], sep: u8) -> (r: Vec<Vec<u8>>)
    ensures
        r.deep_view() == split_on(s@, sep),
{
    let mut result: Vec<Vec<u8>> = Vec::new();
    let mut cur: Vec<u8> = Vec::new();
    let mut i: usize = 0;
    assert(s@.take(0) =~= Seq::<u8>::empty());
    assert(result.deep_view().push(cur@) =~= split_on(s@.take(0), sep));
    while i < s.len()
        invariant
            i <= s@.len(),
            result.deep_view().push(cur@) =~= split_on(s@.take(i as int), sep),
        decreases s@.len() - i,
    {
        let b = s[i];
        assert(s@.take(i + 1).drop_last() =~= s@.take(i as int));
        let ghost before = result.deep_view();
        if b == sep {
            let done = cur;
            assert(done.deep_view() =~= done@);
            result.push(done);
            cur = Vec::new();
            assert(result.deep_view() =~= before.push(done@));
        } else {
            cur.push(b);
        }
        i = i + 1;
        assert(result.deep_view().push(cur@) =~= split_on(s@.take(i as int), sep));
    }
    assert(s@.take(i as int) =~= s@);
    let ghost before = result.deep_view();
    assert(cur.deep_view() =~= cur@);
    result.push(cur);
    assert(result.deep_view() =~= before.push(cur@));
    result
}

/// `b` with ASCII upper-case letters mapped to lower case.
pub open spec fn ascii_lower(b: u8) -> u8 {
    if 65 <= b <= 90 { (b + 32) as u8 } else { b }
}

/// `needle` occurs in `hay` at `i`, ignoring ASCII case.
pub open spec fn ci_match_at(hay: Seq<u8>, needle: Seq<u8>, i: int) -> bool {
    &&& 0 <= i
    &&& i + needle.len() <= hay.len()
    &&& forall|j: int| 0 <= j < needle.len() ==> ascii_lower(#[trigger] hay[i + j]) == ascii_lower(needle[j])
}

/// `needle` occurs somewhere in `hay`, ignoring ASCII case.
pub open spec fn contains_ci(hay: Seq<u8>, needle: Seq<u8>) -> bool {
    exists|i: int| ci_match_at(hay, needle, i)
}

/// The ASCII digits of `s`, in order.
pub open spec fn ascii_digits(s: Seq<u8>) -> Seq<u8>
    decreases s.len(),
{
    if s.len() == 0 {
        Seq::<u8>::empty()
    } else if 48 <= s.last() <= 57 {
        ascii_digits(s.drop_last()).push(s.last())
    } else {
        ascii_digits(s.drop_last())
    }
}

/// Bytes read as Latin-1 characters (identity on ASCII).
pub open spec fn bytes_as_chars(s: Seq<u8>) -> Seq<char> {
    Seq::new(s.len(), |i: int| s[i] as char)
}

pub fn lower_byte(b: u8) -> (r: u8)
    ensures
        r == ascii_lower(b),
{
    if 65 <= b && b <= 90 { b + 32 } else { b }
}

/// Keeps the ASCII digits of `s`.
pub fn keep_ascii_digits(s: &[u8]) -> (r: Vec<u8>)
    ensures
        r@ == ascii_digits(s@),
{
    let mut r: Vec<u8> = Vec::new();
    let mut i: usize = 0;
    while i < s.len()
        invariant
            i <= s@.len(),
            r@ == ascii_digits(s@.take(i as int)),
        decreases s@.len() - i,
    {
        assert(s@.take(i + 1).drop_last() =~= s@.take(i as int));
        if 48 <= s[i] && s[i] <= 57 {
            r.push(s[i]);
        }
        i = i + 1;
    }
    assert(s@.take(i as int) =~= s@);
    r
}

} // verus!

verus! {

/// `p` is a prefix of `s`.
pub open spec fn starts_with(s: Seq<char>, p: Seq<char>) -> bool {
    p.len() <= s.len() && s.subrange(0, p.len() as int) == p
}

/// `p` is a suffix of `s`.
pub open spec fn ends_with(s: Seq<char>, p: Seq<char>) -> bool {
    p.len() <= s.len() && s.subrange(s.len() - p.len(), s.len() as int) == p
}

/// Appends every character of `s` to `out`.
pub fn push_all(out: &mut Vec<char>, s: &[char])
    ensures
        final(out)@ == old(out)@ + s@,
{
    let mut i: usize = 0;
    while i < s.len()
        invariant
            i <= s@.len(),
            out@ == old(out)@ + s@.take(i as int),
        decreases s@.len() - i,
    {
        out.push(s[i]);
        i = i + 1;
        assert(s@.take(i as int) =~= s@.take(i - 1).push(s@[i - 1]));
    }
    assert(s@.take(i as int) =~= s@);
}

/// The concatenation of two character sequences.
pub fn concat_chars(a: &[char], b: &[char]) -> (r: Vec<char>)
    ensures
        r@ == a@ + b@,
{
    let mut r: Vec<char> = Vec::new();
    push_all(&mut r, a);
    push_all(&mut r, b);
    assert(r@ =~= a@ + b@);
    r
}

/// Character-wise equality.
pub fn chars_equal(a: &[char], b: &[char]) -> (r: bool)
    ensures
        r == (a@ == b@),
{
    if a.len() != b.len() {
        return false;
    }
    let mut i: usize = 0;
    while i < a.len()
        invariant
            a@.len() == b@.len(),
            i <= a@.len(),
            forall|k: int| 0 <= k < i ==> a@[k] == b@[k],
        decreases a@.len() - i,
    {
        if a[i] != b[i] {
            return false;
        }
        i = i + 1;
    }
    assert(a@ =~= b@);
    true
}

/// Whether `p` is a prefix of `s`.
pub fn chars_starts_with(s: &[char], p: &[char]) -> (r: bool)
    ensures
        r == starts_with(s@, p@),
{
    if p.len() > s.len() {
        return false;
    }
    let mut i: usize = 0;
    while i < p.len()
        invariant
            p@.len() <= s@.len(),
            i <= p@.len(),
            forall|k: int| 0 <= k < i ==> s@[k] == p@[k],
        decreases p@.len() - i,
    {
        if s[i] != p[i] {
            assert(s@.subrange(0, p@.len() as int)[i as int] != p@[i as int]);
            return false;
        }
        i = i + 1;
    }
    assert(s@.subrange(0, p@.len() as int) =~= p@);
    true
}

/// Whether `p` is a suffix of `s`.
pub fn chars_ends_with(s: &[char], p: &[char]) -> (r: bool)
    ensures
        r == ends_with(s@, p@),
{
    if p.len() > s.len() {
        return false;
    }
    let off = s.len() - p.len();
    let mut i: usize = 0;
    while i < p.len()
        invariant
            p@.len() <= s@.len(),
            s@.len() <= usize::MAX,
            off == s@.len() - p@.len(),
            i <= p@.len(),
            forall|k: int| 0 <= k < i ==> s@[off + k] == p@[k],
        decreases p@.len() - i,
    {
        if s[off + i] != p[i] {
            assert(s@.subrange(off as int, s@.len() as int)[i as int] != p@[i as int]);
            return false;
        }
        i = i + 1;
    }
    assert(s@.subrange(off as int, s@.len() as int) =~= p@);
    true
}

/// Decodes UTF-8 by std's `String::from_utf8`, keeping only whether it
/// succeeded and the text. Trusted: it is claimed to succeed exactly on the
/// byte sequences that vstd's `valid_utf8` accepts, and then to give vstd's
/// `decode_utf8` of them, as std documents (`Err` when the bytes are not
/// UTF-8, the decoded text otherwise).
#[verifier::external_body]
pub(crate) fn utf8_to_string(bytes: Vec<u8>) -> (r: Option<String>)
    ensures
        r is Some <==> vstd::utf8::valid_utf8(bytes@),
        r matches Some(s) ==> s@ == vstd::utf8::decode_utf8(bytes@),
{
    String::from_utf8(bytes).ok()
}

/// Characters with the Unicode `White_Space` property, which `char::is_whitespace` tests.
pub open spec fn is_white_space(c: char) -> bool {
    let u = c as u32;
    (0x09 <= u <= 0x0d) || u == 0x20 || u == 0x85 || u == 0xa0 || u == 0x1680
        || (0x2000 <= u <= 0x200a) || u == 0x2028 || u == 0x2029 || u == 0x202f
        || u == 0x205f || u == 0x3000
}

pub fn white_space(c: char) -> (r: bool)
    ensures
        r == is_white_space(c),
{
    let u = c as u32;
    (0x09 <= u && u <= 0x0d) || u == 0x20 || u == 0x85 || u == 0xa0 || u == 0x1680
        || (0x2000 <= u && u <= 0x200a) || u == 0x2028 || u == 0x2029 || u == 0x202f
        || u == 0x205f || u == 0x3000
}

/// Number of leading characters of `s` that satisfy `pred`.
pub open spec fn leading_count(s: Seq<char>, pred: spec_fn(char) -> bool) -> nat
    decreases s.len(),
{
    if s.len() > 0 && pred(s[0]) { 1 + leading_count(s.drop_first(), pred) } else { 0 }
}

/// Number of trailing characters of `s` that satisfy `pred`.
pub open spec fn trailing_count(s: Seq<char>, pred: spec_fn(char) -> bool) -> nat
    decreases s.len(),
{
    if s.len() > 0 && pred(s.last()) { 1 + trailing_count(s.drop_last(), pred) } else { 0 }
}

/// `s` without the leading and the trailing characters that satisfy `pred`
/// (`str::trim_matches` with a character predicate).
pub open spec fn trim_by(s: Seq<char>, pred: spec_fn(char) -> bool) -> Seq<char> {
    let t = s.skip(leading_count(s, pred) as int);
    t.take(t.len() - trailing_count(t, pred))
}

pub proof fn lemma_leading_count(s: Seq<char>, pred: spec_fn(char) -> bool, i: int)
    requires
        0 <= i <= s.len(),
        forall|k: int| 0 <= k < i ==> pred(s[k]),
    ensures
        leading_count(s, pred) == i + leading_count(s.skip(i), pred),
    decreases i,
{
    if i > 0 {
        assert(pred(s[0]));
        lemma_leading_count(s.drop_first(), pred, i - 1);
        assert(s.drop_first().skip(i - 1) =~= s.skip(i));
    } else {
        assert(s.skip(0) =~= s);
    }
}

pub proof fn lemma_trailing_count(s: Seq<char>, pred: spec_fn(char) -> bool, j: int)
    requires
        0 <= j <= s.len(),
        forall|k: int| j <= k < s.len() ==> pred(s[k]),
    ensures
        trailing_count(s, pred) == (s.len() - j) + trailing_count(s.take(j), pred),
    decreases s.len() - j,
{
    if j < s.len() {
        lemma_trailing_count(s.drop_last(), pred, j);
        assert(s.drop_last().take(j) =~= s.take(j));
    } else {
        assert(s.take(j) =~= s);
    }
}

/// `s` without leading and trailing white space (`str::trim`).
pub fn trim_white_space(s: &[char]) -> (r: Vec<char>)
    ensures
        r@ == trim_by(s@, |c: char| is_white_space(c)),
{
    let ghost pred = |c: char| is_white_space(c);
    let mut i: usize = 0;
    while i < s.len() && white_space(s[i])
        invariant
            i <= s@.len(),
            pred == (|c: char| is_white_space(c)),
            forall|k: int| 0 <= k < i ==> is_white_space(s@[k]),
        decreases s@.len() - i,
    {
        i = i + 1;
    }
    proof {
        lemma_leading_count(s@, pred, i as int);
        if i < s@.len() {
            assert(!pred(s@.skip(i as int)[0]));
        }
        assert(leading_count(s@.skip(i as int), pred) == 0);
    }
    let ghost t = s@.skip(i as int);
    let mut j: usize = s.len();
    while j > i && white_space(s[j - 1])
        invariant
            i <= j <= s@.len(),
            t == s@.skip(i as int),
            pred == (|c: char| is_white_space(c)),
            forall|k: int| j <= k < s@.len() ==> is_white_space(s@[k]),
        decreases j,
    {
        j = j - 1;
    }
    proof {
        lemma_trailing_count(t, pred, j - i);
        if j > i {
            assert(t.take(j - i).last() == s@[j - 1]);
        }
        assert(trailing_count(t.take(j - i), pred) == 0);
    }
    let mut r: Vec<char> = Vec::new();
    let mut k: usize = i;
    while k < j
        invariant
            i <= k <= j <= s@.len(),
            r@ =~= s@.subrange(i as int, k as int),
        decreases j - k,
    {
        r.push(s[k]);
        k = k + 1;
    }
    assert(r@ =~= t.take(t.len() - trailing_count(t, pred)));
    r
}

/// The first `n` characters of `s`, or all of them when it is shorter.
pub open spec fn prefix_chars(s: Seq<char>, n: nat) -> Seq<char> {
    if s.len() <= n { s } else { s.take(n as int) }
}

/// Keeps at most `n` leading characters (`chars().take(n).collect()`).
pub fn take_chars(s: &[char], n: usize) -> (r: Vec<char>)
    ensures
        r@ == prefix_chars(s@, n as nat),
{
    let mut r: Vec<char> = Vec::new();
    let mut k: usize = 0;
    while k < s.len() && k < n
        invariant
            k <= s@.len(),
            k <= n,
            r@ =~= s@.take(k as int),
        decreases s@.len() - k,
    {
        r.push(s[k]);
        k = k + 1;
    }
    assert(s@.len() <= n ==> s@.take(k as int) =~= s@);
    r
}

} // verus!

verus! {

/// `s` with every `from` replaced by `to`.
pub open spec fn replace_char(s: Seq<char>, from: char, to: char) -> Seq<char> {
    Seq::new(s.len(), |i: int| if s[i] == from { to } else { s[i] })
}

/// `s` without any occurrence of `c`.
pub open spec fn without_char(s: Seq<char>, c: char) -> Seq<char>
    decreases s.len(),
{
    if s.len() == 0 {
        s
    } else if s.last() == c {
        without_char(s.drop_last(), c)
    } else {
        without_char(s.drop_last(), c).push(s.last())
    }
}

/// ASCII upper-case letters mapped to lower case.
pub open spec fn ascii_lower_char(c: char) -> char {
    if 'A' <= c <= 'Z' { ((c as u32) + 32) as char } else { c }
}

/// Equality that ignores the case of ASCII letters (`str::eq_ignore_ascii_case`).
pub open spec fn eq_ignore_ascii_case(a: Seq<char>, b: Seq<char>) -> bool {
    a.len() == b.len() && forall|i: int| 0 <= i < a.len() ==> ascii_lower_char(#[trigger] a[i]) == ascii_lower_char(b[i])
}

pub fn replace_chars(s: &[char], from: char, to: char) -> (r: Vec<char>)
    ensures
        r@ == replace_char(s@, from, to),
{
    let mut r: Vec<char> = Vec::new();
    let mut i: usize = 0;
    while i < s.len()
        invariant
            i <= s@.len(),
            r@ =~= replace_char(s@, from, to).take(i as int),
        decreases s@.len() - i,
    {
        if s[i] == from {
            r.push(to);
        } else {
            r.push(s[i]);
        }
        i = i + 1;
    }
    assert(replace_char(s@, from, to).take(i as int) =~= replace_char(s@, from, to));
    r
}

pub fn remove_chars(s: &[char], c: char) -> (r: Vec<char>)
    ensures
        r@ == without_char(s@, c),
{
    let mut r: Vec<char> = Vec::new();
    let mut i: usize = 0;
    while i < s.len()
        invariant
            i <= s@.len(),
            r@ == without_char(s@.take(i as int), c),
        decreases s@.len() - i,
    {
        assert(s@.take(i + 1).drop_last() =~= s@.take(i as int));
        if s[i] != c {
            r.push(s[i]);
        }
        i = i + 1;
    }
    assert(s@.take(i as int) =~= s@);
    r
}

pub fn lower_ascii_char(c: char) -> (r: char)
    ensures
        r == ascii_lower_char(c),
{
    if 'A' <= c && c <= 'Z' {
        let b = (c as u8) + 32;
        b as char
    } else {
        c
    }
}

pub fn chars_eq_ignore_ascii_case(a: &[char], b: &[char]) -> (r: bool)
    ensures
        r == eq_ignore_ascii_case(a@, b@),
{
    if a.len() != b.len() {
        return false;
    }
    let mut i: usize = 0;
    while i < a.len()
        invariant
            a@.len() == b@.len(),
            i <= a@.len(),
            forall|k: int| 0 <= k < i ==> ascii_lower_char(#[trigger] a@[k]) == ascii_lower_char(b@[k]),
        decreases a@.len() - i,
    {
        if lower_ascii_char(a[i]) != lower_ascii_char(b[i]) {
            return false;
        }
        i = i + 1;
    }
    true
}

/// The characters of `s` from index `n` on.
pub fn skip_chars(s: &[char], n: usize) -> (r: Vec<char>)
    requires
        n <= s@.len(),
    ensures
        r@ == s@.skip(n as int),
{
    let mut r: Vec<char> = Vec::new();
    let mut i: usize = n;
    while i < s.len()
        invariant
            n <= i <= s@.len(),
            r@ =~= s@.subrange(n as int, i as int),
        decreases s@.len() - i,
    {
        r.push(s[i]);
        i = i + 1;
    }
    r
}

} // verus!

verus! {

/// The lower-case form of a text under Unicode's full case mapping, as
/// `str::to_lowercase` produces it.
pub uninterp spec fn lowercase(s: Seq<char>) -> Seq<char>;

/// Lower-cases a text by std's `str::to_lowercase`. Trusted: the result is
/// claimed to be `lowercase` of the argument, a name for the full Unicode
/// lower-case mapping that depends on the text alone; nothing else is
/// claimed of that mapping.
#[verifier::external_body]
pub(crate) fn to_lower(s: &str) -> (r: String)
    ensures
        r@ == lowercase(s@),
{
    s.to_lowercase()
}

/// `needle` occurs in `hay` as a contiguous run.
pub open spec fn contains_text(hay: Seq<char>, needle: Seq<char>) -> bool {
    exists|i: int| 0 <= i && i + needle.len() <= hay.len() && #[trigger] hay.subrange(i, i + needle.len()) == needle
}

/// Whether `needle` occurs in `hay` (`str::contains` with a string pattern).
pub fn chars_contain(hay: &[char], needle: &[char]) -> (r: bool)
    ensures
        r == contains_text(hay@, needle@),
{
    if needle.len() > hay.len() {
        return false;
    }
    if needle.len() == 0 {
        assert(hay@.subrange(0int, 0int + needle@.len()) =~= needle@);
        return true;
    }
    let last = hay.len() - needle.len();
    let mut i: usize = 0;
    while i < last + 1
        invariant
            0 < needle@.len() <= hay@.len(),
            hay@.len() <= usize::MAX,
            last == hay@.len() - needle@.len(),
            i <= last + 1,
            forall|k: int| 0 <= k < i ==> #[trigger] hay@.subrange(k, k + needle@.len()) != needle@,
        decreases last + 1 - i,
    {
        let mut j: usize = 0;
        let mut same = true;
        while j < needle.len()
            invariant
                i <= last,
                hay@.len() <= usize::MAX,
                last == hay@.len() - needle@.len(),
                j <= needle@.len(),
                same == (forall|m: int| 0 <= m < j ==> hay@[i + m] == needle@[m]),
            decreases needle@.len() - j,
        {
            if hay[i + j] != needle[j] {
                same = false;
            }
            j = j + 1;
        }
        if same {
            assert(hay@.subrange(i as int, i + needle@.len()) =~= needle@);
            return true;
        }
        assert(hay@.subrange(i as int, i + needle@.len()) != needle@) by {
            let m = choose|m: int| 0 <= m < j && hay@[i + m] != needle@[m];
            assert(hay@.subrange(i as int, i + needle@.len())[m] != needle@[m]);
        }
        i = i + 1;
    }
    false
}

/// Lexicographic order of texts by code point (the order of `str`'s `Ord`).
pub open spec fn text_lt(a: Seq<char>, b: Seq<char>) -> bool
    decreases a.len(),
{
    if a.len() == 0 {
        b.len() > 0
    } else if b.len() == 0 {
        false
    } else if a[0] != b[0] {
        (a[0] as u32) < (b[0] as u32)
    } else {
        text_lt(a.drop_first(), b.drop_first())
    }
}

/// Whether `a` sorts before `b` (see `text_lt`).
pub fn chars_lt(a: &[char], b: &[char]) -> (r: bool)
    ensures
        r == text_lt(a@, b@),
{
    let mut i: usize = 0;
    assert(a@.skip(0) =~= a@ && b@.skip(0) =~= b@);
    while i < a.len() && i < b.len()
        invariant
            i <= a@.len(),
            i <= b@.len(),
            text_lt(a@, b@) == text_lt(a@.skip(i as int), b@.skip(i as int)),
        decreases a@.len() - i,
    {
        assert(a@.skip(i as int)[0] == a@[i as int] && b@.skip(i as int)[0] == b@[i as int]);
        if a[i] != b[i] {
            return (a[i] as u32) < (b[i] as u32);
        }
        assert(a@.skip(i as int).drop_first() =~= a@.skip(i + 1));
        assert(b@.skip(i as int).drop_first() =~= b@.skip(i + 1));
        i = i + 1;
    }
    i < b.len()
}

} // verus!

verus! {

pub proof fn lemma_text_lt_irreflexive(a: Seq<char>)
    ensures
        !text_lt(a, a),
    decreases a.len(),
{
    if a.len() > 0 {
        lemma_text_lt_irreflexive(a.drop_first());
    }
}

pub proof fn lemma_text_lt_transitive(a: Seq<char>, b: Seq<char>, c: Seq<char>)
    requires
        text_lt(a, b),
        text_lt(b, c),
    ensures
        text_lt(a, c),
    decreases a.len(),
{
    if a.len() > 0 && b.len() > 0 && c.len() > 0 && a[0] == b[0] && b[0] == c[0] {
        lemma_text_lt_transitive(a.drop_first(), b.drop_first(), c.drop_first());
    }
}

pub proof fn lemma_text_lt_total(a: Seq<char>, b: Seq<char>)
    requires
        a != b,
    ensures
        text_lt(a, b) || text_lt(b, a),
    decreases a.len(),
{
    if a.len() > 0 && b.len() > 0 && a[0] == b[0] {
        if a.drop_first() == b.drop_first() {
            assert(a =~= seq![a[0]] + a.drop_first());
            assert(b =~= seq![b[0]] + b.drop_first());
        }
        lemma_text_lt_total(a.drop_first(), b.drop_first());
    } else if a.len() > 0 && b.len() > 0 {
        vstd::utf8::char_u32_cast(a[0], a[0] as u32);
        vstd::utf8::char_u32_cast(b[0], b[0] as u32);
    } else if a.len() == 0 && b.len() == 0 {
        assert(a =~= b);
    }
}

pub proof fn lemma_text_lt_asymmetric(a: Seq<char>, b: Seq<char>)
    requires
        text_lt(a, b),
    ensures
        !text_lt(b, a),
{
    if text_lt(b, a) {
        lemma_text_lt_transitive(a, b, a);
        lemma_text_lt_irreflexive(a);
    }
}

/// Copies a list of strings.
pub fn clone_strings(v: &Vec<String>) -> (r: Vec<String>)
    ensures
        r@ == v@,
        r.deep_view() == v.deep_view(),
{
    let mut r: Vec<String> = Vec::new();
    let mut i: usize = 0;
    while i < v.len()
        invariant
            i <= v@.len(),
            r@ =~= v@.take(i as int),
        decreases v@.len() - i,
    {
        r.push(v[i].clone());
        i = i + 1;
    }
    assert(r@ =~= v@);
    assert(r.deep_view() =~= v.deep_view());
    r
}

} // verus!

verus! {

/// The decimal representation of an integer, with a leading `-` when negative.
pub open spec fn int_decimal(v: int) -> Seq<char> {
    if v < 0 { seq!['-'] + decimal((-v) as nat) } else { decimal(v as nat) }
}

/// Appends the decimal representation of `v`.
pub fn push_int(out: &mut Vec<char>, v: i64)
    ensures
        final(out)@ == old(out)@ + int_decimal(v as int),
{
    if v < 0 {
        out.push('-');
        let m: u128 = (-(v as i128)) as u128;
        let ghost mid = out@;
        push_decimal(out, m);
        assert(out@ =~= old(out)@ + (seq!['-'] + decimal((-v) as nat)));
    } else {
        push_decimal(out, v as u128);
    }
}

/// The decimal text of `v`.
pub fn int_text(v: i64) -> (r: String)
    ensures
        r@ == int_decimal(v as int),
{
    let mut out: Vec<char> = Vec::new();
    push_int(&mut out, v);
    assert(out@ =~= int_decimal(v as int));
    string_from_chars(out.as_slice())
}

/// The parts joined with `sep` between consecutive parts.
pub open spec fn joined(parts: Seq<Seq<char>>, sep: Seq<char>) -> Seq<char>
    decreases parts.len(),
{
    if parts.len() == 0 {
        Seq::<char>::empty()
    } else if parts.len() == 1 {
        parts[0]
    } else {
        joined(parts.drop_last(), sep) + sep + parts.last()
    }
}

/// Joins strings with a separator (`[String]::join`).
pub fn join_strings(parts: &Vec<String>, sep: &str) -> (r: String)
    ensures
        r@ == joined(parts.deep_view(), sep@),
{
    let ghost ps = parts.deep_view();
    let mut r = String::new();
    let mut i: usize = 0;
    while i < parts.len()
        invariant
            i <= ps.len(),
            ps == parts.deep_view(),
            r@ == joined(ps.take(i as int), sep@),
        decreases ps.len() - i,
    {
        assert(ps.take(i + 1).drop_last() =~= ps.take(i as int));
        assert(ps.take(i + 1).last() == parts@[i as int]@);
        if i > 0 {
            r.append(sep);
        } else {
            assert(ps.take(i as int).len() == 0);
            assert(r@ =~= Seq::<char>::empty());
        }
        r.append(parts[i].as_str());
        proof {
            if i == 0 {
                assert(r@ =~= ps.take(1)[0]);
            }
        }
        i = i + 1;
    }
    assert(ps.take(i as int) =~= ps);
    r
}

} // verus!

verus! {

/// `s` with ASCII letters lower-cased (`str::to_ascii_lowercase`).
pub open spec fn ascii_lower_text(s: Seq<char>) -> Seq<char> {
    Seq::new(s.len(), |i: int| ascii_lower_char(s[i]))
}

pub fn to_ascii_lower(s: &[char]) -> (r: Vec<char>)
    ensures
        r@ == ascii_lower_text(s@),
{
    let mut r: Vec<char> = Vec::new();
    let mut i: usize = 0;
    while i < s.len()
        invariant
            i <= s@.len(),
            r@ =~= ascii_lower_text(s@).take(i as int),
        decreases s@.len() - i,
    {
        r.push(lower_ascii_char(s[i]));
        i = i + 1;
    }
    assert(ascii_lower_text(s@).take(i as int) =~= ascii_lower_text(s@));
    r
}

/// Whether two lists of strings hold the same texts in the same order.
pub fn strings_equal(a: &Vec<String>, b: &Vec<String>) -> (r: bool)
    ensures
        r == (a.deep_view() == b.deep_view()),
{
    if a.len() != b.len() {
        assert(a.deep_view().len() != b.deep_view().len());
        return false;
    }
    let mut i: usize = 0;
    while i < a.len()
        invariant
            a@.len() == b@.len(),
            i <= a@.len(),
            forall|k: int| 0 <= k < i ==> a.deep_view()[k] == b.deep_view()[k],
        decreases a@.len() - i,
    {
        if a[i] != b[i] {
            assert(a.deep_view()[i as int] != b.deep_view()[i as int]);
            return false;
        }
        i = i + 1;
    }
    assert(a.deep_view() =~= b.deep_view());
    true
}

/// A list of strings from literals.
pub fn strings_of(items: &[&str]) -> (r: Vec<String>)
    ensures
        r.deep_view() == items@.map_values(|s: &str| s@),
{
    let mut r: Vec<String> = Vec::new();
    let mut i: usize = 0;
    while i < items.len()
        invariant
            i <= items@.len(),
            r.deep_view() =~= items@.map_values(|s: &str| s@).take(i as int),
        decreases items@.len() - i,
    {
        let ghost before = r.deep_view();
        r.push(String::from_str(items[i]));
        assert(r.deep_view() =~= before.push(items@[i as int]@));
        i = i + 1;
    }
    assert(items@.map_values(|s: &str| s@).take(i as int) =~= items@.map_values(|s: &str| s@));
    r
}

} // verus!

verus! {

/// Ids in strictly ascending order.
pub open spec fn strictly_sorted(ids: Seq<Seq<char>>) -> bool {
    forall|i: int, j: int| 0 <= i < j < ids.len() ==> text_lt(#[trigger] ids[i], #[trigger] ids[j])
}

/// How many ids of `sel` sort before `id`.
pub open spec fn count_before(sel: Seq<Seq<char>>, id: Seq<char>) -> int
    decreases sel.len(),
{
    if sel.len() == 0 {
        0
    } else {
        count_before(sel.drop_last(), id) + if text_lt(sel.last(), id) { 1int } else { 0int }
    }
}

pub proof fn lemma_count_before(sel: Seq<Seq<char>>, id: Seq<char>, p: int)
    requires
        0 <= p <= sel.len(),
        forall|k: int| 0 <= k < p ==> text_lt(#[trigger] sel[k], id),
        forall|k: int| p <= k < sel.len() ==> !text_lt(#[trigger] sel[k], id),
    ensures
        count_before(sel, id) == p,
    decreases sel.len(),
{
    if sel.len() > 0 {
        if p == sel.len() {
            lemma_count_before(sel.drop_last(), id, p - 1);
        } else {
            lemma_count_before(sel.drop_last(), id, p);
        }
    }
}

/// In a strictly sorted list, the ids before position `count_before` are
/// the ones that sort before `id`.
pub proof fn lemma_count_before_splits(sel: Seq<Seq<char>>, id: Seq<char>)
    requires
        strictly_sorted(sel),
    ensures
        0 <= count_before(sel, id) <= sel.len(),
        forall|k: int| 0 <= k < count_before(sel, id) ==> text_lt(#[trigger] sel[k], id),
        forall|k: int| count_before(sel, id) <= k < sel.len() ==> !text_lt(#[trigger] sel[k], id),
    decreases sel.len(),
{
    if sel.len() > 0 {
        let init = sel.drop_last();
        assert(strictly_sorted(init)) by {
            assert forall|i: int, j: int| 0 <= i < j < init.len() implies text_lt(#[trigger] init[i], #[trigger] init[j]) by {
                assert(init[i] == sel[i] && init[j] == sel[j]);
            }
        }
        lemma_count_before_splits(init, id);
        let q = count_before(init, id);
        if text_lt(sel.last(), id) {
            assert forall|k: int| 0 <= k < init.len() implies text_lt(#[trigger] init[k], id) by {
                assert(text_lt(sel[k], sel[sel.len() - 1]));
                lemma_text_lt_transitive(sel[k], sel.last(), id);
            }
            if q < init.len() {
                assert(text_lt(init[q], id));
            }
        }
        assert forall|k: int| 0 <= k < count_before(sel, id) implies text_lt(#[trigger] sel[k], id) by {
            if k < init.len() {
                assert(sel[k] == init[k]);
            }
        }
        assert forall|k: int| count_before(sel, id) <= k < sel.len() implies !text_lt(#[trigger] sel[k], id) by {
            if k < init.len() {
                assert(sel[k] == init[k]);
            }
        }
    }
}

/// Toggling an id in a strictly sorted list keeps it sorted, flips whether
/// the id is there and leaves every other id as it was; toggling it again
/// gives the list back.
pub proof fn lemma_toggle(sel: Seq<Seq<char>>, id: Seq<char>)
    requires
        strictly_sorted(sel),
    ensures
        ({
            let p = count_before(sel, id);
            let t = if sel.contains(id) { sel.remove(p) } else { sel.insert(p, id) };
            &&& strictly_sorted(t)
            &&& t.contains(id) == !sel.contains(id)
            &&& forall|x: Seq<char>| x != id ==> (t.contains(x) == sel.contains(x))
            &&& count_before(t, id) == p
            &&& (if t.contains(id) { t.remove(p) } else { t.insert(p, id) }) == sel
        }),
{
    lemma_count_before_splits(sel, id);
    let p = count_before(sel, id);
    lemma_text_lt_irreflexive(id);
    if sel.contains(id) {
        let q = choose|q: int| 0 <= q < sel.len() && sel[q] == id;
        if q > p {
            assert(text_lt(sel[p], sel[q]));
        }
        assert(q == p);
        let t = sel.remove(p);
        assert forall|i: int, j: int| 0 <= i < j < t.len() implies text_lt(#[trigger] t[i], #[trigger] t[j]) by {
            let a = if i < p { i } else { i + 1 };
            let b = if j < p { j } else { j + 1 };
            assert(t[i] == sel[a] && t[j] == sel[b]);
        }
        assert forall|k: int| 0 <= k < t.len() implies #[trigger] t[k] != id by {
            if k >= p {
                assert(t[k] == sel[k + 1]);
                assert(text_lt(sel[p], sel[k + 1]));
            }
        }
        assert forall|k: int| 0 <= k < p implies text_lt(#[trigger] t[k], id) by {
            assert(t[k] == sel[k]);
        }
        assert forall|k: int| p <= k < t.len() implies !text_lt(#[trigger] t[k], id) by {
            assert(t[k] == sel[k + 1]);
        }
        lemma_count_before(t, id, p);
        assert forall|x: Seq<char>| x != id implies (t.contains(x) == sel.contains(x)) by {
            if sel.contains(x) {
                let k = choose|k: int| 0 <= k < sel.len() && sel[k] == x;
                if k < p {
                    assert(t[k] == x);
                } else {
                    assert(k != p);
                    assert(t[k - 1] == x);
                }
            }
        }
        assert(t.insert(p, id) =~= sel);
    } else {
        let t = sel.insert(p, id);
        lemma_insert_sorted(sel, id, p);
        assert(t[p] == id);
        assert forall|k: int| 0 <= k < p implies text_lt(#[trigger] t[k], id) by {
            assert(t[k] == sel[k]);
        }
        assert forall|k: int| p <= k < t.len() implies !text_lt(#[trigger] t[k], id) by {
            if k > p {
                assert(t[k] == sel[k - 1]);
            }
        }
        lemma_count_before(t, id, p);
        assert forall|x: Seq<char>| x != id implies (t.contains(x) == sel.contains(x)) by {
            if sel.contains(x) {
                let k = choose|k: int| 0 <= k < sel.len() && sel[k] == x;
                if k < p {
                    assert(t[k] == x);
                } else {
                    assert(t[k + 1] == x);
                }
            }
        }
        assert(t.remove(p) =~= sel);
    }
}

pub proof fn lemma_insert_sorted(sel: Seq<Seq<char>>, id: Seq<char>, p: int)
    requires
        strictly_sorted(sel),
        0 <= p <= sel.len(),
        forall|k: int| 0 <= k < p ==> text_lt(#[trigger] sel[k], id),
        forall|k: int| p <= k < sel.len() ==> !text_lt(#[trigger] sel[k], id),
        !sel.contains(id),
    ensures
        strictly_sorted(sel.insert(p, id)),
{
    let ins = sel.insert(p, id);
    assert forall|i: int, j: int| 0 <= i < j < ins.len() implies text_lt(#[trigger] ins[i], #[trigger] ins[j]) by {
        if j == p {
            assert(ins[i] == sel[i]);
        } else if i == p {
            assert(ins[j] == sel[j - 1]);
            assert(sel[j - 1] != id);
            lemma_text_lt_total(sel[j - 1], id);
        } else if i < p && j > p {
            assert(text_lt(sel[i], id));
            assert(sel[j - 1] != id);
            lemma_text_lt_total(sel[j - 1], id);
            lemma_text_lt_transitive(sel[i], id, sel[j - 1]);
        } else if j < p {
        } else {
            assert(ins[i] == sel[i - 1] && ins[j] == sel[j - 1]);
        }
    }
}

/// Whether the strings are in strictly ascending order (see `strictly_sorted`).
pub fn strings_sorted(v: &Vec<String>) -> (r: bool)
    ensures
        r == strictly_sorted(v.deep_view()),
{
    let ghost sel = v.deep_view();
    if v.len() < 2 {
        return true;
    }
    let mut i: usize = 1;
    while i < v.len()
        invariant
            1 <= i <= sel.len(),
            sel == v.deep_view(),
            forall|a: int, b: int| 0 <= a < b < i ==> text_lt(#[trigger] sel[a], #[trigger] sel[b]),
        decreases sel.len() - i,
    {
        let ok = chars_lt(chars_of(v[i - 1].as_str()).as_slice(), chars_of(v[i].as_str()).as_slice());
        assert(sel[i - 1] == v@[i - 1]@ && sel[i as int] == v@[i as int]@);
        if !ok {
            return false;
        }
        proof {
            assert forall|a: int, b: int| 0 <= a < b < i + 1 implies text_lt(#[trigger] sel[a], #[trigger] sel[b]) by {
                if b == i && a < i - 1 {
                    lemma_text_lt_transitive(sel[a], sel[i - 1], sel[b]);
                }
            }
        }
        i = i + 1;
    }
    true
}

/// Adds `id` to a strictly ascending list unless present (`BTreeSet::insert`);
/// returns whether it was added.
pub fn insert_sorted_id(set: &mut Vec<String>, id: String) -> (added: bool)
    requires
        strictly_sorted(old(set).deep_view()),
    ensures
        strictly_sorted(final(set).deep_view()),
        added == !old(set).deep_view().contains(id@),
        final(set).deep_view() == if added {
            old(set).deep_view().insert(count_before(old(set).deep_view(), id@), id@)
        } else {
            old(set).deep_view()
        },
{
    let ghost sel = set.deep_view();
    let c = chars_of(id.as_str());
    let mut p: usize = 0;
    while p < set.len() && chars_lt(chars_of(set[p].as_str()).as_slice(), c.as_slice())
        invariant
            p <= set@.len(),
            sel == set.deep_view(),
            c@ == id@,
            forall|k: int| 0 <= k < p ==> text_lt(#[trigger] sel[k], id@),
        decreases set@.len() - p,
    {
        p = p + 1;
    }
    proof {
        assert forall|k: int| p <= k < sel.len() implies !text_lt(#[trigger] sel[k], id@) by {
            if k > p && text_lt(sel[k], id@) {
                assert(text_lt(sel[p as int], sel[k]));
                lemma_text_lt_transitive(sel[p as int], sel[k], id@);
            }
        }
        lemma_count_before(sel, id@, p as int);
        assert(sel.contains(id@) <==> (p < sel.len() && sel[p as int] == id@)) by {
            if sel.contains(id@) {
                let q = choose|q: int| 0 <= q < sel.len() && sel[q] == id@;
                lemma_text_lt_irreflexive(id@);
                if q > p {
                    assert(text_lt(sel[p as int], sel[q]));
                }
            }
        }
    }
    if p < set.len() && set[p] == id {
        return false;
    }
    set.insert(p, id);
    proof {
        lemma_insert_sorted(sel, id@, p as int);
    }
    assert(set.deep_view() =~= sel.insert(p as int, id@));
    true
}

} // verus!

verus! {

pub proof fn lemma_insert_contains(s: Seq<Seq<char>>, p: int, id: Seq<char>)
    requires
        0 <= p <= s.len(),
    ensures
        forall|x: Seq<char>| s.insert(p, id).contains(x) <==> (s.contains(x) || x == id),
{
    let t = s.insert(p, id);
    assert forall|x: Seq<char>| t.contains(x) <==> (s.contains(x) || x == id) by {
        if t.contains(x) {
            let q = choose|q: int| 0 <= q < t.len() && t[q] == x;
            if q < p {
                assert(s[q] == x);
            } else if q > p {
                assert(s[q - 1] == x);
            }
        }
        if s.contains(x) {
            let q = choose|q: int| 0 <= q < s.len() && s[q] == x;
            if q < p {
                assert(t[q] == x);
            } else {
                assert(t[q + 1] == x);
            }
        }
        if x == id {
            assert(t[p] == x);
        }
    }
}

pub proof fn lemma_push_contains(s: Seq<Seq<char>>, a: Seq<char>)
    ensures
        forall|x: Seq<char>| s.push(a).contains(x) <==> (s.contains(x) || x == a),
{
    let t = s.push(a);
    assert forall|x: Seq<char>| t.contains(x) <==> (s.contains(x) || x == a) by {
        if t.contains(x) {
            let q = choose|q: int| 0 <= q < t.len() && t[q] == x;
            if q < s.len() {
                assert(s[q] == x);
            }
        }
        if s.contains(x) {
            let q = choose|q: int| 0 <= q < s.len() && s[q] == x;
            assert(t[q] == x);
        }
        if x == a {
            assert(t[s.len() as int] == x);
        }
    }
}

} // verus!

verus! {

pub proof fn lemma_count_before_bounds(sel: Seq<Seq<char>>, id: Seq<char>)
    ensures
        0 <= count_before(sel, id) <= sel.len(),
    decreases sel.len(),
{
    if sel.len() > 0 {
        lemma_count_before_bounds(sel.drop_last(), id);
    }
}

} // verus!
