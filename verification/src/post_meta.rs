//! The line of details under a post's title: its date, its word count with
//! digits grouped by commas, and an estimate of its reading time.

use crate::counter::{count_words, words_in};
use crate::post::{Post, PostMetadata};
use crate::text::{
    decimal, decimal_string, drop_commas, grouped, lemma_thousands_digits, thousands_string,
};
use crate::time::calendar_date_text;
use vstd::prelude::*;

verus! {

/// English reading speed, in characters per minute, as Firefox's reader
/// mode takes it.
pub const READING_SPEED_CPM: usize = 987;

/// How far reading speeds vary from `READING_SPEED_CPM`, in characters per
/// minute.
pub const READING_SPEED_VARIANCE: usize = 118;

/// `n / d` rounded up.
pub open spec fn ceil_div(n: nat, d: nat) -> nat {
    if n % d == 0 {
        n / d
    } else {
        n / d + 1
    }
}

/// `n / d` rounded up, as `usize::div_ceil` computes it.
pub fn div_ceil(n: usize, d: usize) -> (q: usize)
    requires
        d > 0,
    ensures
        q == ceil_div(n as nat, d as nat),
{
    let q = n / d;
    if n % d == 0 {
        q
    } else {
        assert(q < n) by (nonlinear_arith)
            requires
                q == n / d,
                d > 0,
                n % d != 0,
        ;
        q + 1
    }
}

/// Minutes a fast reader takes for `length` characters.
pub open spec fn fast_minutes(length: nat) -> nat {
    ceil_div(length, (READING_SPEED_CPM + READING_SPEED_VARIANCE) as nat)
}

/// Minutes a slow reader takes for `length` characters.
pub open spec fn slow_minutes(length: nat) -> nat {
    ceil_div(length, (READING_SPEED_CPM - READING_SPEED_VARIANCE) as nat)
}

proof fn lemma_ceil_div_bounds(n: nat, d: nat)
    requires
        d > 0,
    ensures
        ceil_div(n, d) * d >= n,
        ceil_div(n, d) == 0 || (ceil_div(n, d) - 1) * d < n,
{
    let q = n / d;
    let r = n % d;
    assert(n == q * d + r && 0 <= r < d) by (nonlinear_arith)
        requires
            d > 0,
            q == n / d,
            r == n % d,
    ;
    if r == 0 {
        assert(q * d >= n);
        assert(q == 0 || (q - 1) * d < n) by (nonlinear_arith)
            requires
                n == q * d,
                d > 0,
        ;
    } else {
        assert((q + 1) * d >= n) by (nonlinear_arith)
            requires
                n == q * d + r,
                r < d,
        ;
        assert(q * d < n);
    }
}

proof fn lemma_ceil_div_monotone(n1: nat, n2: nat, d1: nat, d2: nat)
    requires
        n1 <= n2,
        d1 >= d2 > 0,
    ensures
        ceil_div(n1, d1) <= ceil_div(n2, d2),
{
    let c1 = ceil_div(n1, d1);
    let c2 = ceil_div(n2, d2);
    lemma_ceil_div_bounds(n1, d1);
    lemma_ceil_div_bounds(n2, d2);
    if c1 > c2 {
        assert((c1 - 1) * d1 >= c2 * d2) by (nonlinear_arith)
            requires
                c1 > c2,
                d1 >= d2,
                d2 > 0,
        ;
    }
}

/// A fast reader never takes longer than a slow one, and longer posts never
/// take less time to read.
pub proof fn lemma_reading_time_order(length1: nat, length2: nat)
    requires
        length1 <= length2,
    ensures
        fast_minutes(length1) <= slow_minutes(length1),
        fast_minutes(length1) <= fast_minutes(length2),
        slow_minutes(length1) <= slow_minutes(length2),
{
    lemma_ceil_div_monotone(length1, length1, 1105, 869);
    lemma_ceil_div_monotone(length1, length2, 1105, 1105);
    lemma_ceil_div_monotone(length1, length2, 869, 869);
}

/// An empty post takes no time to read; any other takes at least a minute.
pub proof fn lemma_reading_time_zero(length: nat)
    ensures
        (slow_minutes(length) == 0) <==> (length == 0),
        (fast_minutes(length) == 0) <==> (length == 0),
{
    lemma_ceil_div_bounds(length, 1105);
    lemma_ceil_div_bounds(length, 869);
}

/// The minutes a fast and a slow reader take for `length` characters.
pub fn reading_minutes(length: usize) -> (r: (usize, usize))
    ensures
        r.0 == fast_minutes(length as nat),
        r.1 == slow_minutes(length as nat),
{
    let cpm_low = READING_SPEED_CPM - READING_SPEED_VARIANCE;
    let cpm_high = READING_SPEED_CPM + READING_SPEED_VARIANCE;
    (div_ceil(length, cpm_high), div_ceil(length, cpm_low))
}

/// The reading time shown for `length` characters: one number of minutes
/// where fast and slow readers take as long, else the range from fast to
/// slow, then `minute`, plural unless a slow reader takes one minute.
pub open spec fn reading_time_text(length: nat) -> Seq<char> {
    let fast = fast_minutes(length);
    let slow = slow_minutes(length);
    let minutes = if slow == fast {
        decimal(slow)
    } else {
        decimal(fast) + "-"@ + decimal(slow)
    };
    minutes + " minute"@ + if slow != 1 {
        "s"@
    } else {
        ""@
    }
}

/// The reading time shown for a post of `length` characters, such as
/// `"5-7 minutes"`.
pub fn reading_time(length: usize) -> (s: String)
    ensures
        s@ == reading_time_text(length as nat),
{
    let (fast, slow) = reading_minutes(length);
    let minutes = if slow == fast {
        decimal_string(slow)
    } else {
        decimal_string(fast).concat("-").concat(decimal_string(slow).as_str())
    };
    let plural = if slow != 1 {
        String::from_str("s")
    } else {
        String::from_str("")
    };
    minutes.concat(" minute").concat(plural.as_str())
}

/// The reading time spells out in full the minutes that a fast reader
/// (1105 characters a minute) and a slow reader (869 characters a minute)
/// take, each rounded up to a whole minute: `fast-slow` where the two differ,
/// else the one number; then ` minute`, with an `s` unless the slow reader
/// takes exactly one minute.
pub proof fn lemma_reading_time_label(length: nat)
    ensures
        fast_minutes(length) * 1105 >= length,
        fast_minutes(length) == 0 || (fast_minutes(length) - 1) * 1105 < length,
        slow_minutes(length) * 869 >= length,
        slow_minutes(length) == 0 || (slow_minutes(length) - 1) * 869 < length,
        fast_minutes(length) != slow_minutes(length) ==> reading_time_text(length).take(
            (decimal(fast_minutes(length)).len() + 1 + decimal(slow_minutes(length)).len()) as int,
        ) == decimal(fast_minutes(length)) + "-"@ + decimal(slow_minutes(length)),
        fast_minutes(length) == slow_minutes(length) ==> reading_time_text(length).take(
            decimal(slow_minutes(length)).len() as int,
        ) == decimal(slow_minutes(length)),
        reading_time_text(length).subrange(
            (if fast_minutes(length) == slow_minutes(length) {
                decimal(slow_minutes(length)).len() as int
            } else {
                (decimal(fast_minutes(length)).len() + 1 + decimal(slow_minutes(length)).len()) as int
            }),
            reading_time_text(length).len() as int,
        ) == " minute"@ + (if slow_minutes(length) == 1 {
            ""@
        } else {
            "s"@
        }),
{
    lemma_ceil_div_bounds(length, 1105);
    lemma_ceil_div_bounds(length, 869);
    let fast = fast_minutes(length);
    let slow = slow_minutes(length);
    let minutes = if slow == fast {
        decimal(slow)
    } else {
        decimal(fast) + "-"@ + decimal(slow)
    };
    let rest = " minute"@ + if slow != 1 {
        "s"@
    } else {
        ""@
    };
    assert(reading_time_text(length) == minutes + rest);
    assert((minutes + rest).take(minutes.len() as int) =~= minutes);
    assert((minutes + rest).subrange(minutes.len() as int, (minutes + rest).len() as int) =~= rest);
    assert(minutes.len() == (if fast == slow {
        decimal(slow).len() as int
    } else {
        (decimal(fast).len() + 1 + decimal(slow).len()) as int
    })) by {
        reveal_strlit("-");
    }
    assert(rest == " minute"@ + (if slow == 1 {
        ""@
    } else {
        "s"@
    }));
}

/// The separator between the details of a post.
pub open spec fn separator() -> Seq<char> {
    " \u{2022} "@
}

/// The details line of a post in the list of posts: date, word count and
/// reading time, such as `"Mar 17, 2023 • 1,234 words • 2 minutes"`.
pub open spec fn details_text(m: PostMetadata) -> Seq<char> {
    calendar_date_text(m.created_at@) + separator() + grouped(decimal(m.word_count as nat))
        + " words"@ + separator() + reading_time_text(m.length as nat)
}

/// The details line of a post in the list of posts.
pub fn post_meta_line(metadata: &PostMetadata) -> (s: String)
    ensures
        s@ == details_text(*metadata),
{
    metadata.created_at.calendar_date().concat(" \u{2022} ").concat(
        thousands_string(metadata.word_count).as_str(),
    ).concat(" words").concat(" \u{2022} ").concat(reading_time(metadata.length).as_str())
}

/// The details line above a post's content: its date and the words of its
/// rendered content, such as `"Mar 17, 2023 • 1,234 words"`.
pub open spec fn header_text(p: Post) -> Seq<char> {
    calendar_date_text(p.metadata.created_at@) + separator() + grouped(
        decimal(words_in(p.content@) as nat),
    ) + " words"@
}

/// The details line above a post's content.
pub fn post_header_line(post: &Post) -> (s: String)
    ensures
        s@ == header_text(*post),
{
    post.metadata.created_at.calendar_date().concat(" \u{2022} ").concat(
        thousands_string(count_words(post.content.as_str())).as_str(),
    ).concat(" words")
}

/// The number in the header line above a post is the count of the words of
/// the post's rendered content, written in decimal with its digits grouped:
/// taking its commas out gives the plain decimal count. It stands between
/// the post's date and ` words`.
pub proof fn lemma_header_counts_content(p: Post)
    ensures
        exists|count: Seq<char>|
            #![trigger drop_commas(count)]
            header_text(p) == calendar_date_text(p.metadata.created_at@) + separator() + count
                + " words"@ && drop_commas(count) == decimal(words_in(p.content@) as nat),
{
    let count = grouped(decimal(words_in(p.content@) as nat));
    lemma_thousands_digits(words_in(p.content@) as nat);
    assert(drop_commas(count) == decimal(words_in(p.content@) as nat));
}

/// Two posts with the same content and date have the same header line,
/// whatever their titles and other details.
pub proof fn lemma_header_ignores_title(p1: Post, p2: Post)
    requires
        p1.content@ == p2.content@,
        p1.metadata.created_at@ == p2.metadata.created_at@,
    ensures
        header_text(p1) == header_text(p2),
{
}

/// The details line of a post in the list shows its own word count, digits
/// grouped, between its date and its reading time.
pub proof fn lemma_details_count_words(m: PostMetadata)
    ensures
        exists|count: Seq<char>|
            #![trigger drop_commas(count)]
            details_text(m) == calendar_date_text(m.created_at@) + separator() + count + " words"@
                + separator() + reading_time_text(m.length as nat) && drop_commas(count) == decimal(
                m.word_count as nat,
            ),
{
    let count = grouped(decimal(m.word_count as nat));
    lemma_thousands_digits(m.word_count as nat);
    assert(drop_commas(count) == decimal(m.word_count as nat));
}

/// The page title of a post.
pub open spec fn post_page_title_text(title: Seq<char>) -> Seq<char> {
    title + " - fyssion's blog"@
}

/// The page title of a post: its title, then the blog's name.
pub fn post_page_title(title: &str) -> (s: String)
    ensures
        s@ == post_page_title_text(title@),
{
    String::from_str(title).concat(" - fyssion's blog")
}

} // verus!
