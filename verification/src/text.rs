//! Text built and compared character by character.

use vstd::prelude::*;
use vstd::string::*;
use vstd::utf8::*;

use crate::selection;

verus! {

/// The decimal digit for a value below ten.
pub open spec fn digit(d: nat) -> char {
    (48 + d) as char
}

/// A natural number in decimal, without leading zeros.
pub open spec fn decimal(n: nat) -> Seq<char>
    decreases n,
{
    if n < 10 {
        seq![digit(n)]
    } else {
        decimal(n / 10).push(digit(n % 10))
    }
}

/// The lower-case hexadecimal digit for a value below sixteen.
pub open spec fn hex_digit(d: nat) -> char {
    if d < 10 {
        (48 + d) as char
    } else {
        (87 + d) as char
    }
}

/// A natural number in lower-case hexadecimal, without leading zeros.
pub open spec fn hexadecimal(n: nat) -> Seq<char>
    decreases n,
{
    if n < 16 {
        seq![hex_digit(n)]
    } else {
        hexadecimal(n / 16).push(hex_digit(n % 16))
    }
}

/// The content of an optional text.
pub open spec fn opt_content(s: Option<String>) -> Option<Seq<char>> {
    match s {
        Some(s) => Some(s@),
        None => None,
    }
}

/// The contents of a list of texts.
pub open spec fn contents(texts: Seq<String>) -> Seq<Seq<char>> {
    texts.map_values(|s: String| s@)
}

/// Being a text other than `s`.
pub open spec fn other_than(s: Seq<char>) -> spec_fn(Seq<char>) -> bool {
    |t: Seq<char>| t != s
}

/// A list of texts without the text `s`.
pub open spec fn without(texts: Seq<Seq<char>>, s: Seq<char>) -> Seq<Seq<char>> {
    texts.filter(other_than(s))
}

/// Whether one byte sequence comes before another in a dictionary.
pub open spec fn bytes_before(a: Seq<u8>, b: Seq<u8>) -> bool
    decreases a.len(),
{
    if b.len() == 0 {
        false
    } else if a.len() == 0 {
        true
    } else if a[0] != b[0] {
        a[0] < b[0]
    } else {
        bytes_before(a.drop_first(), b.drop_first())
    }
}

/// Whether one text comes before another, by the bytes of their UTF-8 form.
pub open spec fn text_before(a: Seq<char>, b: Seq<char>) -> bool {
    bytes_before(encode_utf8(a), encode_utf8(b))
}

/// The value of a decimal digit.
pub open spec fn digit_value(c: char) -> nat {
    (c as u32 - 48) as nat
}

/// Whether every character is a decimal digit.
pub open spec fn all_digits(s: Seq<char>) -> bool {
    forall|i: int| 0 <= i < s.len() ==> '0' <= #[trigger] s[i] <= '9'
}

/// The number that decimal digits stand for.
pub open spec fn digits_value(s: Seq<char>) -> nat
    decreases s.len(),
{
    if s.len() == 0 {
        0
    } else {
        10 * digits_value(s.drop_last()) + digit_value(s.last())
    }
}

/// The 32-bit number that a text stands for: an optional plus sign, then one or more
/// decimal digits.
pub open spec fn u32_value(s: Seq<char>) -> Option<u32> {
    let digits = if s.len() > 0 && s[0] == '+' {
        s.skip(1)
    } else {
        s
    };
    if digits.len() > 0 && all_digits(digits) && digits_value(digits) <= u32::MAX {
        Some(digits_value(digits) as u32)
    } else {
        None
    }
}

/// What `str::to_lowercase` gives for a text that is not ASCII.
pub uninterp spec fn unicode_lowercased(s: Seq<char>) -> Seq<char>;

/// What the error of `str::parse::<u32>` says.
pub uninterp spec fn u32_complaint(s: Seq<char>) -> Seq<char>;

/// A character of white space, as Unicode lists them.
pub open spec fn is_blank(c: char) -> bool {
    ||| '\t' <= c <= '\r'
    ||| c == ' ' || c == '\u{85}' || c == '\u{a0}' || c == '\u{1680}'
    ||| '\u{2000}' <= c <= '\u{200a}'
    ||| c == '\u{2028}' || c == '\u{2029}' || c == '\u{202f}' || c == '\u{205f}'
    ||| c == '\u{3000}'
}

/// A text without the white space at its ends.
pub open spec fn trimmed(s: Seq<char>) -> Seq<char>
    decreases s.len(),
{
    if s.len() > 0 && is_blank(s[0]) {
        trimmed(s.skip(1))
    } else if s.len() > 0 && is_blank(s.last()) {
        trimmed(s.drop_last())
    } else {
        s
    }
}

/// An ASCII letter in lower case; any other character as it is.
pub open spec fn ascii_lower(c: char) -> char {
    if 'A' <= c <= 'Z' {
        (c as u32 + 32) as char
    } else {
        c
    }
}

/// An ASCII text in lower case.
pub open spec fn ascii_lowercased(s: Seq<char>) -> Seq<char> {
    s.map_values(|c: char| ascii_lower(c))
}

/// A text in lower case.
pub open spec fn lowercased(s: Seq<char>) -> Seq<char> {
    if is_ascii_chars(s) {
        ascii_lowercased(s)
    } else {
        unicode_lowercased(s)
    }
}

/// `str::trim` removes white space at both ends: the characters that have Unicode's
/// property `White_Space`.
#[verifier::external_body]
pub(crate) fn trim(s: &str) -> (r: &str)
    ensures
        r@ == trimmed(s@),
{
    s.trim()
}

/// `str::to_lowercase` maps a text to lower case, as Unicode defines it. In ASCII text
/// each letter is mapped by itself; what becomes of any other text has a name.
#[verifier::external_body]
pub(crate) fn to_lowercase(s: &str) -> (r: String)
    ensures
        is_ascii_chars(s@) ==> r@ == ascii_lowercased(s@),
        !is_ascii_chars(s@) ==> r@ == unicode_lowercased(s@),
{
    s.to_lowercase()
}

/// `str::parse::<u32>` accepts an optional plus sign followed by decimal digits whose
/// value fits; the text of its error has a name.
#[verifier::external_body]
pub(crate) fn parse_u32(s: &str) -> (r: std::result::Result<u32, String>)
    ensures
        match r {
            Ok(n) => u32_value(s@) == Some(n),
            Err(complaint) => u32_value(s@) is None && complaint@ == u32_complaint(s@),
        },
{
    s.parse::<u32>().map_err(|e| e.to_string())
}

/// `String::push` appends one character and changes nothing else.
pub assume_specification[ String::push ](s: &mut String, c: char)
    ensures
        final(s)@ == old(s)@.push(c),
;

fn decimal_digit(d: u8) -> (c: char)
    requires
        d < 10,
    ensures
        c == digit(d as nat),
{
    (48 + d) as char
}

pub fn hexadecimal_digit(d: u8) -> (c: char)
    requires
        d < 16,
    ensures
        c == hex_digit(d as nat),
{
    if d < 10 {
        (48 + d) as char
    } else {
        (87 + d) as char
    }
}

/// Appends `n` in decimal.
pub fn push_decimal(out: &mut String, n: u64)
    ensures
        final(out)@ == old(out)@ + decimal(n as nat),
    decreases n,
{
    if n >= 10 {
        push_decimal(out, n / 10);
    }
    out.push(decimal_digit((n % 10) as u8));
    proof {
        assert(final(out)@ =~= old(out)@ + decimal(n as nat));
    }
}

/// Appends `n` in lower-case hexadecimal.
pub fn push_hexadecimal(out: &mut String, n: u64)
    ensures
        final(out)@ == old(out)@ + hexadecimal(n as nat),
    decreases n,
{
    if n >= 16 {
        push_hexadecimal(out, n / 16);
    }
    out.push(hexadecimal_digit((n % 16) as u8));
    proof {
        assert(final(out)@ =~= old(out)@ + hexadecimal(n as nat));
    }
}

/// No byte sequence comes before itself.
pub proof fn bytes_before_irreflexive(a: Seq<u8>)
    ensures
        !bytes_before(a, a),
    decreases a.len(),
{
    if a.len() > 0 {
        bytes_before_irreflexive(a.drop_first());
    }
}

/// Dictionary order is transitive.
pub proof fn bytes_before_transitive(a: Seq<u8>, b: Seq<u8>, c: Seq<u8>)
    requires
        bytes_before(a, b),
        bytes_before(b, c),
    ensures
        bytes_before(a, c),
    decreases a.len(),
{
    if a.len() > 0 && a[0] == b[0] && b[0] == c[0] {
        bytes_before_transitive(a.drop_first(), b.drop_first(), c.drop_first());
    }
}

/// Of two different byte sequences one comes before the other.
pub proof fn bytes_before_total(a: Seq<u8>, b: Seq<u8>)
    ensures
        a == b || bytes_before(a, b) || bytes_before(b, a),
    decreases a.len(),
{
    if a.len() == 0 && b.len() == 0 {
        assert(a =~= b);
    } else if a.len() > 0 && b.len() > 0 && a[0] == b[0] {
        bytes_before_total(a.drop_first(), b.drop_first());
        if a.drop_first() == b.drop_first() {
            assert(a =~= seq![a[0]] + a.drop_first());
            assert(b =~= seq![b[0]] + b.drop_first());
        }
    }
}

/// Byte sequences are ordered by the first place where they differ.
pub proof fn first_difference(a: Seq<u8>, b: Seq<u8>, k: int)
    requires
        0 <= k < a.len(),
        k < b.len(),
        forall|i: int| 0 <= i < k ==> a[i] == b[i],
        a[k] < b[k],
    ensures
        bytes_before(a, b),
    decreases k,
{
    if k > 0 {
        first_difference(a.drop_first(), b.drop_first(), k - 1);
    }
}

/// Whether `a` comes before `b`.
pub fn comes_before(a: &str, b: &str) -> (before: bool)
    ensures
        before == text_before(a@, b@),
{
    let x = a.as_bytes();
    let y = b.as_bytes();
    let mut i: usize = 0;
    proof {
        assert(x@.skip(0) =~= x@);
        assert(y@.skip(0) =~= y@);
    }
    while i < x.len() && i < y.len()
        invariant
            i <= x@.len(),
            i <= y@.len(),
            bytes_before(x@, y@) == bytes_before(x@.skip(i as int), y@.skip(i as int)),
            x@ == encode_utf8(a@),
            y@ == encode_utf8(b@),
        decreases x@.len() - i,
    {
        if x[i] != y[i] {
            return x[i] < y[i];
        }
        proof {
            assert(x@.skip(i as int).drop_first() =~= x@.skip(i + 1));
            assert(y@.skip(i as int).drop_first() =~= y@.skip(i + 1));
        }
        i += 1;
    }
    i < y.len()
}

/// A copy of a list of texts.
pub fn copy_texts(texts: &Vec<String>) -> (copy: Vec<String>)
    ensures
        copy@ == texts@,
{
    let mut copy: Vec<String> = Vec::new();
    let mut i: usize = 0;
    while i < texts.len()
        invariant
            i <= texts@.len(),
            copy@ == texts@.take(i as int),
        decreases texts@.len() - i,
    {
        copy.push(texts[i].clone());
        i += 1;
        proof {
            assert(copy@ =~= texts@.take(i as int));
        }
    }
    proof {
        assert(texts@.take(i as int) =~= texts@);
    }
    copy
}

/// A copy of an optional text.
pub fn copy_opt(s: &Option<String>) -> (copy: Option<String>)
    ensures
        copy == *s,
{
    match s {
        Some(s) => Some(s.clone()),
        None => None,
    }
}

/// Whether an optional text is there and equal to `b`.
pub fn is_text(a: &Option<String>, b: &str) -> (same: bool)
    ensures
        same == (opt_content(*a) == Some(b@)),
{
    match a {
        Some(a) => same_text(a.as_str(), b),
        None => false,
    }
}

/// The texts other than `s`.
pub fn without_text(texts: &Vec<String>, s: &str) -> (rest: Vec<String>)
    ensures
        contents(rest@) == without(contents(texts@), s@),
{
    let ghost all = contents(texts@);
    let mut rest: Vec<String> = Vec::new();
    let mut i: usize = 0;
    proof {
        reveal(Seq::filter);
        assert(contents(rest@) =~= without(all.take(0), s@));
    }
    while i < texts.len()
        invariant
            i <= texts@.len(),
            all == contents(texts@),
            contents(rest@) == without(all.take(i as int), s@),
        decreases texts@.len() - i,
    {
        let ghost before = rest@;
        if !same_text(texts[i].as_str(), s) {
            rest.push(texts[i].clone());
        }
        i += 1;
        proof {
            reveal(Seq::filter);
            assert(all.take(i as int).drop_last() =~= all.take(i - 1));
            assert(all.take(i as int).last() == texts@[i - 1]@);
            if texts@[i - 1]@ != s@ {
                assert(contents(rest@) =~= contents(before).push(texts@[i - 1]@));
            }
        }
    }
    proof {
        assert(all.take(i as int) =~= all);
    }
    rest
}

/// Trimming an ASCII text leaves an ASCII text, and one with a visible character at either
/// end as it is.
pub proof fn trimmed_stays_ascii(s: Seq<char>)
    requires
        is_ascii_chars(s),
    ensures
        is_ascii_chars(trimmed(s)),
        s.len() > 0 && !is_blank(s[0]) && !is_blank(s.last()) ==> trimmed(s) == s,
    decreases s.len(),
{
    if s.len() > 0 && is_blank(s[0]) {
        trimmed_stays_ascii(s.skip(1));
    } else if s.len() > 0 && is_blank(s.last()) {
        trimmed_stays_ascii(s.drop_last());
    }
}

/// White space at either end of a text makes no difference to what is left of it.
pub proof fn trimmed_ignores_blanks(s: Seq<char>, blank: char)
    requires
        is_blank(blank),
    ensures
        trimmed(seq![blank] + s) == trimmed(s),
        trimmed(s.push(blank)) == trimmed(s),
    decreases s.len(),
{
    assert((seq![blank] + s).skip(1) =~= s);
    let longer = s.push(blank);
    if s.len() == 0 {
        assert(longer.skip(1) =~= s);
    } else if is_blank(s[0]) {
        trimmed_ignores_blanks(s.skip(1), blank);
        assert(longer.skip(1) =~= s.skip(1).push(blank));
    } else {
        assert(longer.drop_last() =~= s);
    }
}

/// It makes no difference whether an ASCII text is trimmed or put in lower case first.
pub proof fn trimming_keeps_case(s: Seq<char>)
    requires
        is_ascii_chars(s),
    ensures
        is_ascii_chars(ascii_lowercased(s)),
        trimmed(ascii_lowercased(s)) == ascii_lowercased(trimmed(s)),
        ascii_lowercased(ascii_lowercased(s)) == ascii_lowercased(s),
    decreases s.len(),
{
    let lower = ascii_lowercased(s);
    assert(ascii_lowercased(lower) =~= lower);
    if s.len() > 0 && is_blank(s[0]) {
        trimming_keeps_case(s.skip(1));
        assert(lower.skip(1) =~= ascii_lowercased(s.skip(1)));
    } else if s.len() > 0 && is_blank(s.last()) {
        trimming_keeps_case(s.drop_last());
        assert(lower.drop_last() =~= ascii_lowercased(s.drop_last()));
    }
}

/// The decimal form of a number is made of digits, and stands for the number.
pub proof fn decimal_stands_for_the_number(n: nat)
    ensures
        decimal(n).len() > 0,
        all_digits(decimal(n)),
        digits_value(decimal(n)) == n,
    decreases n,
{
    if n >= 10 {
        decimal_stands_for_the_number(n / 10);
        assert(decimal(n).drop_last() =~= decimal(n / 10));
    } else {
        reveal_with_fuel(digits_value, 2);
        assert(decimal(n).drop_last() =~= Seq::empty());
    }
}

/// Adding a text to a list adds it to its members.
pub proof fn push_members(texts: Seq<Seq<char>>, s: Seq<char>)
    ensures
        forall|t: Seq<char>| #[trigger] texts.push(s).contains(t) <==> texts.contains(t) || t == s,
        texts.push(s).to_set() == texts.to_set().insert(s),
{
    let more = texts.push(s);
    assert forall|t: Seq<char>| #[trigger] more.contains(t) <==> texts.contains(t) || t == s by {
        if texts.contains(t) {
            let i = choose|i: int| 0 <= i < texts.len() && texts[i] == t;
            assert(more[i] == t);
        }
        if more.contains(t) {
            let i = choose|i: int| 0 <= i < more.len() && more[i] == t;
            if i < texts.len() {
                assert(texts[i] == t);
            }
        }
        assert(more[texts.len() as int] == s);
    }
    assert(more.to_set() =~= texts.to_set().insert(s));
}

/// What is left of a list without `s` is exactly its other texts.
pub proof fn without_members(texts: Seq<Seq<char>>, s: Seq<char>)
    ensures
        forall|t: Seq<char>| #[trigger] without(texts, s).contains(t) <==> texts.contains(t) && t != s,
{
    let keep = other_than(s);
    assert forall|t: Seq<char>| #[trigger] without(texts, s).contains(t) <==> texts.contains(t) && t != s by {
        if without(texts, s).contains(t) {
            texts.lemma_filter_contains_rev(keep, t);
            let i = choose|i: int| 0 <= i < without(texts, s).len() && without(texts, s)[i] == t;
            texts.lemma_filter_pred(keep, i);
        }
        if texts.contains(t) && t != s {
            let i = choose|i: int| 0 <= i < texts.len() && texts[i] == t;
            texts.lemma_filter_contains(keep, i);
        }
    }
}

/// What is left of a list without `s` is all its other texts, as often and in the order in
/// which the list has them.
pub proof fn without_keeps_order(texts: Seq<Seq<char>>, s: Seq<char>) -> (places: Seq<int>)
    ensures
        places.len() == without(texts, s).len(),
        forall|a: int|
            0 <= a < places.len() ==> 0 <= #[trigger] places[a] < texts.len()
                && texts[places[a]] != s && without(texts, s)[a] == texts[places[a]],
        forall|a: int, b: int| 0 <= a < b < places.len() ==> places[a] < places[b],
        forall|i: int| 0 <= i < texts.len() && #[trigger] texts[i] != s ==> places.contains(i),
{
    selection::kept_in_order(texts, other_than(s))
}

/// The contents of a list of texts are the texts, one by one.
pub proof fn contents_are_the_texts(texts: Seq<String>)
    ensures
        contents(texts).len() == texts.len(),
        forall|i: int| 0 <= i < texts.len() ==> #[trigger] contents(texts)[i] == texts[i]@,
{
}

/// The content of an optional text is the text where there is one.
pub proof fn optional_content_is_the_text(s: Option<String>)
    ensures
        s matches Some(t) ==> opt_content(s) == Some(t@),
        s is None ==> opt_content(s) is None,
{
}

/// The decimal form of a number has no zero in front.
pub proof fn decimal_has_no_leading_zero(n: nat)
    ensures
        decimal(n)[0] == '0' ==> n == 0 && decimal(n).len() == 1,
    decreases n,
{
    if n >= 10 {
        decimal_has_no_leading_zero(n / 10);
        decimal_stands_for_the_number(n / 10);
        assert(decimal(n)[0] == decimal(n / 10)[0]);
        if decimal(n)[0] == '0' {
            assert(n / 10 == 0);
        }
    }
}

/// Different numbers have different decimal forms.
pub proof fn decimal_tells_numbers_apart(m: nat, n: nat)
    requires
        decimal(m) == decimal(n),
    ensures
        m == n,
{
    decimal_stands_for_the_number(m);
    decimal_stands_for_the_number(n);
}

/// The value of a hexadecimal digit, in lower case.
pub open spec fn hex_digit_value(c: char) -> nat {
    if '0' <= c <= '9' {
        (c as u32 - 48) as nat
    } else {
        (c as u32 - 87) as nat
    }
}

/// The number that hexadecimal digits stand for.
pub open spec fn hex_value(s: Seq<char>) -> nat
    decreases s.len(),
{
    if s.len() == 0 {
        0
    } else {
        16 * hex_value(s.drop_last()) + hex_digit_value(s.last())
    }
}

/// The hexadecimal form of a number is made of digits and the letters up to `f`, stands for
/// the number, and has no zero in front.
pub proof fn hexadecimal_stands_for_the_number(n: nat)
    ensures
        hexadecimal(n).len() > 0,
        forall|i: int|
            0 <= i < hexadecimal(n).len() ==> '0' <= #[trigger] hexadecimal(n)[i] <= '9' || 'a'
                <= hexadecimal(n)[i] <= 'f',
        hex_value(hexadecimal(n)) == n,
        hexadecimal(n)[0] == '0' ==> n == 0,
    decreases n,
{
    if n >= 16 {
        hexadecimal_stands_for_the_number(n / 16);
        assert(hexadecimal(n).drop_last() =~= hexadecimal(n / 16));
        assert(hexadecimal(n)[0] == hexadecimal(n / 16)[0]);
    } else {
        reveal_with_fuel(hex_value, 2);
        assert(hexadecimal(n).drop_last() =~= Seq::empty());
    }
}

/// A byte sequence comes before every longer one that starts with it.
pub proof fn prefix_comes_first(a: Seq<u8>, b: Seq<u8>)
    requires
        b.len() > 0,
    ensures
        bytes_before(a, a + b),
    decreases a.len(),
{
    if a.len() > 0 {
        prefix_comes_first(a.drop_first(), b);
        assert((a + b).drop_first() =~= a.drop_first() + b);
    }
}

/// Texts are strictly ordered: of two that differ exactly one comes before the other, and
/// the order carries over.
pub proof fn texts_are_ordered(a: Seq<char>, b: Seq<char>, c: Seq<char>)
    ensures
        !text_before(a, a),
        a != b ==> text_before(a, b) || text_before(b, a),
        !(text_before(a, b) && text_before(b, a)),
        text_before(a, b) && text_before(b, c) ==> text_before(a, c),
{
    let x = encode_utf8(a);
    let y = encode_utf8(b);
    let z = encode_utf8(c);
    bytes_before_irreflexive(x);
    bytes_before_total(x, y);
    encode_utf8_decode_utf8(a);
    encode_utf8_decode_utf8(b);
    if bytes_before(x, y) && bytes_before(y, x) {
        bytes_before_transitive(x, y, x);
    }
    if bytes_before(x, y) && bytes_before(y, z) {
        bytes_before_transitive(x, y, z);
    }
}

/// Texts are ordered by the first byte of their UTF-8 form in which they differ; one that
/// the other starts with comes first.
pub proof fn texts_are_ordered_by_their_bytes(a: Seq<char>, b: Seq<char>, k: int)
    requires
        0 <= k <= encode_utf8(a).len(),
        k < encode_utf8(b).len(),
        forall|i: int| 0 <= i < k ==> encode_utf8(a)[i] == encode_utf8(b)[i],
        k == encode_utf8(a).len() || encode_utf8(a)[k] < encode_utf8(b)[k],
    ensures
        text_before(a, b),
{
    let x = encode_utf8(a);
    let y = encode_utf8(b);
    if k == x.len() {
        prefix_comes_first(x, y.skip(k));
        assert(x + y.skip(k) =~= y);
    } else {
        first_difference(x, y, k);
    }
}

/// Taking a text out of a list without duplicates makes none.
pub proof fn without_keeps_distinct(texts: Seq<Seq<char>>, s: Seq<char>)
    requires
        texts.no_duplicates(),
    ensures
        without(texts, s).no_duplicates(),
    decreases texts.len(),
{
    reveal(Seq::filter);
    if texts.len() > 0 {
        let fewer = texts.drop_last();
        without_keeps_distinct(fewer, s);
        without_members(fewer, s);
        let rest = without(fewer, s);
        assert forall|i: int| 0 <= i < rest.len() implies rest[i] != texts.last() by {
            assert(rest.contains(rest[i]));
            assert(fewer.contains(rest[i]));
        }
    }
}

/// A text that is not in a list leaves it as it is.
pub proof fn without_absent(texts: Seq<Seq<char>>, s: Seq<char>)
    requires
        !texts.contains(s),
    ensures
        without(texts, s) == texts,
    decreases texts.len(),
{
    reveal(Seq::filter);
    if texts.len() > 0 {
        let fewer = texts.drop_last();
        assert(texts.last() != s);
        assert forall|i: int| 0 <= i < fewer.len() implies fewer[i] != s by {
            assert(fewer[i] == texts[i]);
        }
        without_absent(fewer, s);
        assert(texts =~= fewer.push(texts.last()));
    } else {
        assert(without(texts, s) =~= texts);
    }
}

/// Whether two texts are the same.
pub fn same_text(a: &str, b: &str) -> (same: bool)
    ensures
        same == (a@ == b@),
{
    let x = a.as_bytes();
    let y = b.as_bytes();
    proof {
        encode_utf8_decode_utf8(a@);
        encode_utf8_decode_utf8(b@);
    }
    if x.len() != y.len() {
        return false;
    }
    let mut i: usize = 0;
    while i < x.len()
        invariant
            i <= x@.len(),
            x@.len() == y@.len(),
            forall|j: int| 0 <= j < i ==> x@[j] == y@[j],
            x@ == encode_utf8(a@),
            y@ == encode_utf8(b@),
        decreases x@.len() - i,
    {
        if x[i] != y[i] {
            return false;
        }
        i += 1;
    }
    proof {
        assert(x@ =~= y@);
    }
    true
}

} // verus!
