//! Laws of text, on single characters and on texts put together.
use vstd::prelude::*;

use crate::text::{
    ascii_lower, blank, decimal, digit, has_text, join_first, joined, lemma_trim_end_takes,
    lemma_trim_start_skips, lower_char, occurs_at, optional_text, result_text, signed_decimal,
    texts, trim, trim_empties_blank, trimmed, white_space,
};

verus! {

/// Lower case turns the letters from `A` to `Z` into those 32 places further on, and leaves every
/// other character as it is.
pub proof fn lower_case_moves_capitals_only(c: char)
    ensures
        65 <= c as u32 <= 90 ==> lower_char(c) as u32 == c as u32 + 32,
        !(65 <= c as u32 <= 90) ==> lower_char(c) == c,
{
}

/// Lower case works on each character by itself and keeps their number.
pub proof fn lower_case_keeps_places(s: Seq<char>, i: int)
    requires
        0 <= i < s.len(),
    ensures
        ascii_lower(s).len() == s.len(),
        65 <= s[i] as u32 <= 90 ==> ascii_lower(s)[i] as u32 == s[i] as u32 + 32,
        !(65 <= s[i] as u32 <= 90) ==> ascii_lower(s)[i] == s[i],
{
}

/// The lower case of two texts one after the other is that of each.
pub proof fn lower_case_of_joined_texts(a: Seq<char>, b: Seq<char>)
    ensures
        ascii_lower(a + b) == ascii_lower(a) + ascii_lower(b),
        ascii_lower(Seq::<char>::empty()) == Seq::<char>::empty(),
{
    assert(ascii_lower(a + b) =~= ascii_lower(a) + ascii_lower(b));
    assert(ascii_lower(Seq::<char>::empty()) =~= Seq::<char>::empty());
}

/// A pattern is found in a text if and only if the text is something, then the pattern, then
/// something.
pub proof fn found_means_surrounded(s: Seq<char>, pattern: Seq<char>)
    ensures
        has_text(s, pattern) <==> exists|before: Seq<char>, after: Seq<char>|
            s == #[trigger] (before + pattern + after),
{
    if has_text(s, pattern) {
        let at = choose|at: int| occurs_at(s, pattern, at);
        let before = s.take(at);
        let after = s.skip(at + pattern.len());
        assert(s =~= before + s.subrange(at, at + pattern.len()) + after);
        assert(s == before + pattern + after);
    }
    if exists|before: Seq<char>, after: Seq<char>| s == #[trigger] (before + pattern + after) {
        let (before, after) = choose|before: Seq<char>, after: Seq<char>|
            s == #[trigger] (before + pattern + after);
        let at = before.len() as int;
        assert(s.subrange(at, at + pattern.len()) =~= pattern);
        assert(occurs_at(s, pattern, at));
    }
}

/// What is found in a part of a text is found in the text.
pub proof fn found_in_a_part_is_found(
    before: Seq<char>,
    part: Seq<char>,
    after: Seq<char>,
    pattern: Seq<char>,
)
    requires
        has_text(part, pattern),
    ensures
        has_text(before + part + after, pattern),
{
    found_means_surrounded(part, pattern);
    let (b, a) = choose|b: Seq<char>, a: Seq<char>| part == #[trigger] (b + pattern + a);
    assert(before + part + after =~= (before + b) + pattern + (a + after));
    found_means_surrounded(before + part + after, pattern);
}

/// Where a pattern is found, each part of it is found.
pub proof fn parts_of_what_is_found_are_found(
    s: Seq<char>,
    before: Seq<char>,
    part: Seq<char>,
    after: Seq<char>,
)
    requires
        has_text(s, before + part + after),
    ensures
        has_text(s, part),
{
    let whole = before + part + after;
    found_means_surrounded(s, whole);
    let (b, a) = choose|b: Seq<char>, a: Seq<char>| s == #[trigger] (b + whole + a);
    assert(s =~= (b + before) + part + (after + a));
    found_means_surrounded(s, part);
}

/// The white space characters, one by one.
pub proof fn white_space_characters(c: char)
    ensures
        white_space(c) <==> (c == '\t' || c == '\n' || c == '\u{b}' || c == '\u{c}' || c == '\r'
            || c == ' ' || c == '\u{85}' || c == '\u{a0}' || c == '\u{1680}' || c == '\u{2000}'
            || c == '\u{2001}' || c == '\u{2002}' || c == '\u{2003}' || c == '\u{2004}' || c
            == '\u{2005}' || c == '\u{2006}' || c == '\u{2007}' || c == '\u{2008}' || c
            == '\u{2009}' || c == '\u{200a}' || c == '\u{2028}' || c == '\u{2029}' || c
            == '\u{202f}' || c == '\u{205f}' || c == '\u{3000}'),
{
}

/// Trimming gives back what stands between white space, whatever and however much that is.
pub proof fn trim_gives_back_the_core(before: Seq<char>, core: Seq<char>, after: Seq<char>)
    requires
        forall|i: int| 0 <= i < before.len() ==> white_space(#[trigger] before[i]),
        forall|i: int| 0 <= i < after.len() ==> white_space(#[trigger] after[i]),
        core.len() > 0 ==> !white_space(core[0]) && !white_space(core[core.len() - 1]),
    ensures
        trim(before + core + after) == core,
{
    let s = before + core + after;
    if core.len() == 0 {
        assert(blank(s));
        trim_empties_blank(s);
        assert(trim(s) =~= core);
    } else {
        let n = before.len() as int;
        let rest = s.skip(n);
        assert(s.take(n) =~= before);
        assert(blank(s.take(n)));
        lemma_trim_start_skips(s, n);
        assert(rest =~= core + after);
        assert(rest[0] == core[0]);
        assert(rest.skip(core.len() as int) =~= after);
        assert(blank(rest.skip(core.len() as int)));
        lemma_trim_end_takes(rest, core.len() as int);
        assert(rest.take(core.len() as int) =~= core);
    }
}

/// `blank` and `trimmed` on the characters of a text.
pub proof fn blank_and_trimmed_texts(s: Seq<char>)
    ensures
        blank(s) <==> forall|i: int| 0 <= i < s.len() ==> white_space(#[trigger] s[i]),
        trimmed(s) <==> (s.len() == 0 || (!white_space(s[0]) && !white_space(s[s.len() - 1]))),
{
}

/// A number below ten is one digit.
pub proof fn one_digit(n: nat)
    requires
        n < 10,
    ensures
        decimal(n).len() == 1,
        decimal(n)[0] as nat == 48 + n,
{
}

/// One digit more at the end of a number that is not zero is ten times the number and that digit.
pub proof fn one_digit_more(n: nat, last: nat)
    requires
        0 < n,
        last < 10,
    ensures
        decimal(10 * n + last) == decimal(n) + decimal(last),
{
    let whole = 10 * n + last;
    assert(whole / 10 == n && whole % 10 == last) by (nonlinear_arith)
        requires
            whole == 10 * n + last,
            last < 10,
    ;
    assert(decimal(whole) == decimal(n).push(digit(last)));
    assert(decimal(last) =~= seq![digit(last)]);
    assert(decimal(whole) =~= decimal(n) + decimal(last));
}

/// The number that a row of digits stands for.
pub open spec fn number_read(digits: Seq<char>) -> nat
    decreases digits.len(),
{
    if digits.len() == 0 {
        0
    } else {
        10 * number_read(digits.drop_last()) + (digits.last() as nat - 48) as nat
    }
}

/// Reading the digits of a number gives the number back, so no two numbers are written alike.
pub proof fn digits_read_back(n: nat)
    ensures
        number_read(decimal(n)) == n,
        decimal(n).len() > 1 <==> n >= 10,
        decimal(n).len() > 0,
        forall|i: int|
            0 <= i < decimal(n).len() ==> 48 <= (#[trigger] decimal(n)[i]) as u32
                <= 57,
        decimal(n).len() > 1 ==> decimal(n)[0] as u32 != 48,
    decreases n,
{
    if n < 10 {
        assert(decimal(n).drop_last() =~= seq![]);
        assert(number_read(Seq::<char>::empty()) == 0);
    } else {
        digits_read_back(n / 10);
        assert(decimal(n).drop_last() =~= decimal(n / 10));
        assert(decimal(n)[0] == decimal(n / 10)[0]);
        if n / 10 < 10 {
            one_digit(n / 10);
        }
    }
}

/// A negative number is its digits behind a minus sign; the others are their digits.
pub proof fn sign_stands_in_front(n: nat)
    ensures
        signed_decimal(n as int) == decimal(n),
        n > 0 ==> signed_decimal(-(n as int)) == seq!['-'] + decimal(n),
{
}

/// The texts of a list of strings are those of each string.
pub proof fn texts_of_strings(strings: Seq<String>, i: int)
    requires
        0 <= i < strings.len(),
    ensures
        texts(strings).len() == strings.len(),
        texts(strings)[i] == strings[i]@,
{
}

/// The text of an optional string and of a result.
pub proof fn texts_inside(s: String)
    ensures
        optional_text(Some(s)) == Some(s@),
        optional_text(None) == None::<Seq<char>>,
        result_text(Ok(s)) == Ok::<Seq<char>, Seq<char>>(s@),
        result_text(Err(s)) == Err::<Seq<char>, Seq<char>>(s@),
{
}

/// What is joined up to some text does not depend on the texts behind it.
proof fn lemma_join_first_prefix(
    parts: Seq<Seq<char>>,
    last: Seq<char>,
    separator: Seq<char>,
    n: nat,
)
    requires
        n <= parts.len(),
    ensures
        join_first(parts.push(last), separator, n) == join_first(parts, separator, n),
    decreases n,
{
    if n > 1 {
        lemma_join_first_prefix(parts, last, separator, (n - 1) as nat);
    }
}

/// Nothing joined is nothing, one text joined is that text, and one text more stands behind a
/// separator at the end.
pub proof fn joining_one_more(parts: Seq<Seq<char>>, last: Seq<char>, separator: Seq<char>)
    ensures
        joined(Seq::<Seq<char>>::empty(), separator) == Seq::<char>::empty(),
        joined(seq![last], separator) == last,
        parts.len() > 0 ==> joined(parts.push(last), separator) == joined(parts, separator)
            + separator + last,
{
    lemma_join_first_prefix(parts, last, separator, parts.len());
}

/// Each text, at any place, stands whole in what is joined.
pub proof fn each_part_stands_in_the_whole(parts: Seq<Seq<char>>, separator: Seq<char>, k: int)
    requires
        0 <= k < parts.len(),
    ensures
        exists|before: Seq<char>, after: Seq<char>|
            joined(parts, separator) == #[trigger] (before + parts[k] + after),
    decreases parts.len(),
{
    let earlier = parts.drop_last();
    let last = parts.last();
    let nothing = Seq::<char>::empty();
    assert(parts =~= earlier.push(last));
    joining_one_more(earlier, last, separator);
    if earlier.len() == 0 {
        assert(parts =~= seq![last]);
        assert(last =~= nothing + parts[k] + nothing);
    } else if k == earlier.len() {
        let before = joined(earlier, separator) + separator;
        assert(joined(parts, separator) =~= before + parts[k] + nothing);
    } else {
        each_part_stands_in_the_whole(earlier, separator, k);
        let (b, a) = choose|b: Seq<char>, a: Seq<char>|
            joined(earlier, separator) == #[trigger] (b + earlier[k] + a);
        assert(joined(parts, separator) =~= b + parts[k] + (a + separator + last));
    }
}

} // verus!
