//! Character-level text helpers: decimal numbers, digit grouping, trimming.

use vstd::prelude::*;

verus! {

/// The decimal digit character for `d` (`0 <= d < 10`).
pub open spec fn digit_char(d: nat) -> char {
    seq!['0', '1', '2', '3', '4', '5', '6', '7', '8', '9'][d as int]
}

/// The decimal representation of `n`, without sign or leading zeros,
/// as `to_string` writes an unsigned integer.
pub open spec fn decimal(n: nat) -> Seq<char>
    decreases n,
{
    if n < 10 {
        seq![digit_char(n)]
    } else {
        decimal(n / 10).push(digit_char(n % 10))
    }
}

/// `digits` split into groups of three from the right, joined by commas:
/// `"1234567"` becomes `"1,234,567"`.
pub open spec fn grouped(digits: Seq<char>) -> Seq<char>
    decreases digits.len(),
{
    if digits.len() <= 3 {
        digits
    } else {
        grouped(digits.take(digits.len() - 3)) + seq![','] + digits.skip(digits.len() - 3)
    }
}

/// `s` without its commas.
pub open spec fn drop_commas(s: Seq<char>) -> Seq<char>
    decreases s.len(),
{
    if s.len() == 0 {
        s
    } else if s.last() == ',' {
        drop_commas(s.drop_last())
    } else {
        drop_commas(s.drop_last()).push(s.last())
    }
}

proof fn lemma_drop_commas_add(a: Seq<char>, b: Seq<char>)
    ensures
        drop_commas(a + b) == drop_commas(a) + drop_commas(b),
    decreases b.len(),
{
    if b.len() == 0 {
        assert(a + b =~= a);
        assert(drop_commas(a) + drop_commas(b) =~= drop_commas(a));
    } else {
        assert((a + b).drop_last() =~= a + b.drop_last());
        assert((a + b).last() == b.last());
        lemma_drop_commas_add(a, b.drop_last());
        if b.last() != ',' {
            assert(drop_commas(a) + drop_commas(b.drop_last()).push(b.last()) =~= (drop_commas(a)
                + drop_commas(b.drop_last())).push(b.last()));
        }
    }
}

proof fn lemma_drop_commas_none(s: Seq<char>)
    requires
        forall|i: int| 0 <= i < s.len() ==> s[i] != ',',
    ensures
        drop_commas(s) == s,
    decreases s.len(),
{
    if s.len() > 0 {
        assert(s.last() == s[s.len() - 1]);
        lemma_drop_commas_none(s.drop_last());
        assert(s.drop_last().push(s.last()) =~= s);
    }
}

/// Grouping digits only adds commas: without them it gives back the digits.
pub proof fn lemma_grouping_keeps_digits(digits: Seq<char>)
    requires
        forall|i: int| 0 <= i < digits.len() ==> digits[i] != ',',
    ensures
        drop_commas(grouped(digits)) == digits,
    decreases digits.len(),
{
    if digits.len() <= 3 {
        lemma_drop_commas_none(digits);
    } else {
        let head = digits.take(digits.len() - 3);
        let tail = digits.skip(digits.len() - 3);
        lemma_grouping_keeps_digits(head);
        lemma_drop_commas_add(grouped(head) + seq![','], tail);
        lemma_drop_commas_add(grouped(head), seq![',']);
        assert(drop_commas(seq![',']) =~= Seq::<char>::empty()) by {
            let c = seq![','];
            assert(c.last() == ',');
            assert(c.drop_last() =~= Seq::<char>::empty());
            assert(drop_commas(c.drop_last()) =~= Seq::<char>::empty());
        }
        lemma_drop_commas_none(tail);
        assert(head + tail =~= digits);
        assert(drop_commas(grouped(head)) + Seq::<char>::empty() =~= drop_commas(grouped(head)));
    }
}

/// Every character of a decimal representation is a digit, and it starts
/// with a zero only where the number is zero.
pub proof fn lemma_decimal_digits(n: nat)
    ensures
        decimal(n).len() > 0,
        forall|i: int| 0 <= i < decimal(n).len() ==> '0' <= #[trigger] decimal(n)[i] <= '9',
        decimal(n)[0] == '0' ==> n == 0,
    decreases n,
{
    if n >= 10 {
        lemma_decimal_digits(n / 10);
        assert(decimal(n)[0] == decimal(n / 10)[0]);
    }
}

/// The digit grouping of `n` without its commas is the decimal
/// representation of `n`.
pub proof fn lemma_thousands_digits(n: nat)
    ensures
        drop_commas(grouped(decimal(n))) == decimal(n),
{
    lemma_decimal_digits(n);
    lemma_grouping_keeps_digits(decimal(n));
}

/// The number that a string of decimal digits writes, most significant
/// digit first.
pub open spec fn digits_value(d: Seq<char>) -> nat
    decreases d.len(),
{
    if d.len() == 0 {
        0
    } else {
        digits_value(d.drop_last()) * 10 + ((d.last() as int - '0' as int) as nat)
    }
}

/// A decimal representation writes its number: reading its digits back
/// gives the number.
pub proof fn lemma_decimal_value(n: nat)
    ensures
        digits_value(decimal(n)) == n,
    decreases n,
{
    if n >= 10 {
        lemma_decimal_value(n / 10);
        let d = decimal(n);
        assert(d.drop_last() =~= decimal(n / 10));
    }
    let last = decimal(n).last();
    let k = n % 10;
    assert(last == digit_char(k));
    assert((last as int - '0' as int) == k) by {
        if k == 0 {} else if k == 1 {} else if k == 2 {} else if k == 3 {} else if k == 4 {}
        else if k == 5 {} else if k == 6 {} else if k == 7 {} else if k == 8 {} else {}
    }
    let d = decimal(n);
    assert(digits_value(d) == digits_value(d.drop_last()) * 10 + k);
    if n < 10 {
        assert(d.drop_last() =~= Seq::<char>::empty());
        assert(digits_value(d.drop_last()) == 0);
    } else {
        assert(digits_value(d.drop_last()) == n / 10);
        assert((n / 10) * 10 + n % 10 == n) by (nonlinear_arith);
    }
}

/// Appends one character to a string.
#[verifier::external_body]
pub(crate) fn push_char(s: &mut String, c: char)
    ensures
        final(s)@ == old(s)@.push(c),
{
    s.push(c);
}

fn digit_to_char(d: usize) -> (c: char)
    requires
        d < 10,
    ensures
        c == digit_char(d as nat),
{
    if d == 0 { '0' }
    else if d == 1 { '1' }
    else if d == 2 { '2' }
    else if d == 3 { '3' }
    else if d == 4 { '4' }
    else if d == 5 { '5' }
    else if d == 6 { '6' }
    else if d == 7 { '7' }
    else if d == 8 { '8' }
    else { '9' }
}

/// The decimal digits of `n`, most significant first.
pub fn decimal_digits(n: usize) -> (digits: Vec<char>)
    ensures
        digits@ == decimal(n as nat),
{
    let mut reversed: Vec<char> = Vec::new();
    let mut m: usize = n;
    let ghost mut tail: Seq<char> = Seq::empty();
    while m >= 10
        invariant
            decimal(n as nat) == decimal(m as nat) + tail,
            reversed@ == tail.reverse(),
        decreases m,
    {
        let d = digit_to_char(m % 10);
        proof {
            assert(decimal(m as nat) == decimal((m / 10) as nat).push(d));
            assert(decimal(m as nat) + tail =~= decimal((m / 10) as nat) + (seq![d] + tail));
            assert((seq![d] + tail).reverse() =~= tail.reverse().push(d));
            tail = seq![d] + tail;
        }
        reversed.push(d);
        m = m / 10;
    }
    let d = digit_to_char(m);
    proof {
        assert(decimal(m as nat) == seq![d]);
        assert((seq![d] + tail).reverse() =~= tail.reverse().push(d));
        tail = seq![d] + tail;
    }
    reversed.push(d);
    let mut digits: Vec<char> = Vec::new();
    let mut i: usize = reversed.len();
    while i > 0
        invariant
            i <= reversed@.len(),
            reversed@ == tail.reverse(),
            decimal(n as nat) == tail,
            digits@ == tail.take(tail.len() - i),
        decreases i,
    {
        i = i - 1;
        digits.push(reversed[i]);
        assert(digits@ =~= tail.take(tail.len() - i));
    }
    assert(digits@ =~= tail);
    digits
}

/// The decimal representation of `n` as a string.
pub fn decimal_string(n: usize) -> (s: String)
    ensures
        s@ == decimal(n as nat),
{
    let digits = decimal_digits(n);
    let mut s = String::new();
    let mut i: usize = 0;
    while i < digits.len()
        invariant
            i <= digits@.len(),
            s@ == digits@.take(i as int),
        decreases digits@.len() - i,
    {
        push_char(&mut s, digits[i]);
        i = i + 1;
        assert(s@ =~= digits@.take(i as int));
    }
    assert(digits@.take(i as int) =~= digits@);
    s
}

/// `n` in decimal with its digits grouped by three with commas, as the word
/// count of a post is shown: `1234567` becomes `"1,234,567"`.
pub fn thousands_string(n: usize) -> (s: String)
    ensures
        s@ == grouped(decimal(n as nat)),
{
    let digits = decimal_digits(n);
    let len = digits.len();
    let first: usize = if len % 3 == 0 { 3 } else { len % 3 };
    let mut s = String::new();
    let mut i: usize = 0;
    while i < first
        invariant
            len == digits@.len(),
            first <= len,
            first <= 3,
            i <= first,
            s@ == digits@.take(i as int),
        decreases first - i,
    {
        push_char(&mut s, digits[i]);
        i = i + 1;
        assert(s@ =~= digits@.take(i as int));
    }
    let mut k: usize = first;
    while k < len
        invariant
            len == digits@.len(),
            first <= k <= len,
            (len - k) % 3 == 0,
            k >= 1,
            s@ == grouped(digits@.take(k as int)),
        decreases len - k,
    {
        push_char(&mut s, ',');
        push_char(&mut s, digits[k]);
        push_char(&mut s, digits[k + 1]);
        push_char(&mut s, digits[k + 2]);
        proof {
            let t = digits@.take(k + 3);
            assert(t.take(t.len() - 3) =~= digits@.take(k as int));
            assert(t.skip(t.len() - 3) =~= seq![digits@[k as int], digits@[k + 1], digits@[k + 2]]);
            assert(s@ =~= grouped(t));
        }
        k = k + 3;
    }
    assert(digits@.take(len as int) =~= digits@);
    s
}


/// The characters with the Unicode `White_Space` property, which is what
/// `char::is_whitespace` and `str::trim` test for.
pub open spec fn is_white_space(c: char) -> bool {
    ||| ('\u{9}' <= c && c <= '\u{d}')
    ||| c == ' '
    ||| c == '\u{85}'
    ||| c == '\u{a0}'
    ||| c == '\u{1680}'
    ||| ('\u{2000}' <= c && c <= '\u{200a}')
    ||| c == '\u{2028}'
    ||| c == '\u{2029}'
    ||| c == '\u{202f}'
    ||| c == '\u{205f}'
    ||| c == '\u{3000}'
}

/// Whether `c` is white space in the sense of `char::is_whitespace`.
pub fn is_white_space_char(c: char) -> (b: bool)
    ensures
        b == is_white_space(c),
{
    ('\u{9}' <= c && c <= '\u{d}') || c == ' ' || c == '\u{85}' || c == '\u{a0}' || c == '\u{1680}'
        || ('\u{2000}' <= c && c <= '\u{200a}') || c == '\u{2028}' || c == '\u{2029}'
        || c == '\u{202f}' || c == '\u{205f}' || c == '\u{3000}'
}

/// What a character test picks out when stripping a string: white space,
/// or one given character.
pub enum Strip {
    WhiteSpace,
    Char(char),
}

/// Whether `c` is stripped by `how`.
pub open spec fn strips(how: Strip, c: char) -> bool {
    match how {
        Strip::WhiteSpace => is_white_space(c),
        Strip::Char(x) => c == x,
    }
}

/// The number of leading characters of `s` that `how` strips.
pub open spec fn leading(s: Seq<char>, how: Strip) -> nat
    decreases s.len(),
{
    if s.len() > 0 && strips(how, s[0]) {
        1 + leading(s.drop_first(), how)
    } else {
        0
    }
}

/// The number of trailing characters of `s` that `how` strips.
pub open spec fn trailing(s: Seq<char>, how: Strip) -> nat
    decreases s.len(),
{
    if s.len() > 0 && strips(how, s.last()) {
        1 + trailing(s.drop_last(), how)
    } else {
        0
    }
}

/// `s` without its leading and trailing characters that `how` strips; for
/// white space this is `str::trim`, for a character `str::trim_matches`.
pub open spec fn stripped(s: Seq<char>, how: Strip) -> Seq<char> {
    let rest = s.skip(leading(s, how) as int);
    rest.take(rest.len() - trailing(rest, how))
}

/// `leading` is the length of the longest prefix whose characters are all
/// stripped.
pub proof fn lemma_leading(s: Seq<char>, how: Strip, i: int)
    requires
        0 <= i <= s.len(),
        forall|k: int| 0 <= k < i ==> strips(how, #[trigger] s[k]),
        i == s.len() || !strips(how, s[i]),
    ensures
        leading(s, how) == i,
    decreases s.len(),
{
    if i > 0 {
        assert forall|k: int| 0 <= k < i - 1 implies strips(how, #[trigger] s.drop_first()[k]) by {
            assert(s.drop_first()[k] == s[k + 1]);
        }
        if i - 1 < s.drop_first().len() {
            assert(s.drop_first()[i - 1] == s[i]);
        }
        lemma_leading(s.drop_first(), how, i - 1);
    }
}

/// `trailing` is the length of the longest suffix whose characters are all
/// stripped.
pub proof fn lemma_trailing(s: Seq<char>, how: Strip, j: int)
    requires
        0 <= j <= s.len(),
        forall|k: int| j <= k < s.len() ==> strips(how, #[trigger] s[k]),
        j == 0 || !strips(how, s[j - 1]),
    ensures
        trailing(s, how) == s.len() - j,
    decreases s.len(),
{
    if j < s.len() {
        assert(strips(how, s.last()));
        assert forall|k: int| j <= k < s.drop_last().len() implies strips(how, #[trigger] s.drop_last()[k]) by {
            assert(s.drop_last()[k] == s[k]);
        }
        if j > 0 {
            assert(s.drop_last()[j - 1] == s[j - 1]);
        }
        lemma_trailing(s.drop_last(), how, j);
    }
}

proof fn lemma_leading_props(s: Seq<char>, how: Strip)
    ensures
        leading(s, how) <= s.len(),
        forall|k: int| 0 <= k < leading(s, how) ==> strips(how, #[trigger] s[k]),
        leading(s, how) < s.len() ==> !strips(how, s[leading(s, how) as int]),
    decreases s.len(),
{
    if s.len() > 0 && strips(how, s[0]) {
        lemma_leading_props(s.drop_first(), how);
        assert forall|k: int| 0 <= k < leading(s, how) implies strips(how, #[trigger] s[k]) by {
            if k > 0 {
                assert(s[k] == s.drop_first()[k - 1]);
            }
        }
        if leading(s, how) < s.len() {
            assert(s[leading(s, how) as int] == s.drop_first()[leading(s.drop_first(), how) as int]);
        }
    }
}

proof fn lemma_trailing_props(s: Seq<char>, how: Strip)
    ensures
        trailing(s, how) <= s.len(),
        forall|k: int| s.len() - trailing(s, how) <= k < s.len() ==> strips(how, #[trigger] s[k]),
        trailing(s, how) < s.len() ==> !strips(how, s[s.len() - trailing(s, how) - 1]),
    decreases s.len(),
{
    if s.len() > 0 && strips(how, s.last()) {
        lemma_trailing_props(s.drop_last(), how);
        assert forall|k: int| s.len() - trailing(s, how) <= k < s.len() implies strips(how, #[trigger] s[k]) by {
            if k < s.len() - 1 {
                assert(s[k] == s.drop_last()[k]);
            }
        }
        if trailing(s, how) < s.len() {
            let i = s.len() - trailing(s, how) - 1;
            assert(s[i] == s.drop_last()[i]);
        }
    }
}

/// What stripping leaves neither starts nor ends with a character that it
/// strips.
pub proof fn lemma_stripped_ends(s: Seq<char>, how: Strip)
    ensures
        stripped(s, how).len() > 0 ==> !strips(how, stripped(s, how)[0]) && !strips(
            how,
            stripped(s, how).last(),
        ),
{
    let a = leading(s, how);
    lemma_leading_props(s, how);
    let rest = s.skip(a as int);
    let t = trailing(rest, how);
    lemma_trailing_props(rest, how);
    let r = stripped(s, how);
    if r.len() > 0 {
        assert(r[0] == rest[0]);
        assert(rest[0] == s[a as int]);
        assert(r.last() == rest[rest.len() - t - 1]);
    }
}

/// Stripping twice strips no more than stripping once.
pub proof fn lemma_strip_idempotent(s: Seq<char>, how: Strip)
    ensures
        stripped(stripped(s, how), how) == stripped(s, how),
{
    let r = stripped(s, how);
    lemma_stripped_ends(s, how);
    lemma_leading(r, how, 0);
    assert(r.skip(0) =~= r);
    lemma_trailing(r, how, r.len() as int);
    assert(r.take(r.len() as int) =~= r);
}

fn strips_char(how: &Strip, c: char) -> (b: bool)
    ensures
        b == strips(*how, c),
{
    match how {
        Strip::WhiteSpace => is_white_space_char(c),
        Strip::Char(x) => c == *x,
    }
}

/// `s` without the leading and trailing characters that `how` strips.
pub fn strip(s: &str, how: Strip) -> (r: String)
    ensures
        r@ == stripped(s@, how),
{
    let n = s.unicode_len();
    let mut i: usize = 0;
    while i < n && strips_char(&how, s.get_char(i))
        invariant
            n == s@.len(),
            i <= n,
            forall|k: int| 0 <= k < i ==> strips(how, #[trigger] s@[k]),
        decreases n - i,
    {
        i = i + 1;
    }
    proof {
        lemma_leading(s@, how, i as int);
    }
    let mut j: usize = n;
    while j > i && strips_char(&how, s.get_char(j - 1))
        invariant
            n == s@.len(),
            i <= j <= n,
            forall|k: int| j <= k < n ==> strips(how, #[trigger] s@[k]),
        decreases j,
    {
        j = j - 1;
    }
    proof {
        let rest = s@.skip(i as int);
        assert forall|k: int| j - i <= k < rest.len() implies strips(how, #[trigger] rest[k]) by {
            assert(rest[k] == s@[k + i]);
        }
        if j > i {
            assert(rest[j - i - 1] == s@[j - 1]);
        }
        lemma_trailing(rest, how, j - i);
        assert(rest.take(j - i) =~= s@.subrange(i as int, j as int));
    }
    String::from_str(s.substring_char(i, j))
}

/// `str::trim`: `s` without leading and trailing white space.
pub fn trim(s: &str) -> (r: String)
    ensures
        r@ == stripped(s@, Strip::WhiteSpace),
{
    strip(s, Strip::WhiteSpace)
}

/// `str::trim_matches` with one character: `s` without the leading and
/// trailing occurrences of `c`.
pub fn trim_matches(s: &str, c: char) -> (r: String)
    ensures
        r@ == stripped(s@, Strip::Char(c)),
{
    strip(s, Strip::Char(c))
}

} // verus!
