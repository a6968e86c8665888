//! What holds of reading and writing text.

use crate::outside;
use crate::text;
use crate::text::Run;
use vstd::prelude::*;
use vstd::utf8::*;

verus! {

/// All of a text is white space.
pub open spec fn blank(s: Seq<char>) -> bool {
    forall|i: int| 0 <= i < s.len() ==> text::white_space(#[trigger] s[i])
}

/// A text has a character, and none of it is white space.
pub open spec fn solid(s: Seq<char>) -> bool {
    &&& s.len() > 0
    &&& forall|i: int| 0 <= i < s.len() ==> !text::white_space(#[trigger] s[i])
}

/// A character does not occur in a text.
pub open spec fn without(s: Seq<char>, c: char) -> bool {
    forall|i: int| 0 <= i < s.len() ==> #[trigger] s[i] != c
}

/// White space is tab, line feed, vertical tab, form feed, carriage return,
/// space, next line, and Unicode's other spaces and separators, and nothing
/// else.
pub proof fn law_white_space(c: char)
    ensures
        text::white_space(c) <==> seq![
            '\t',
            '\n',
            '\u{b}',
            '\u{c}',
            '\r',
            ' ',
            '\u{85}',
            '\u{a0}',
            '\u{1680}',
            '\u{2000}',
            '\u{2001}',
            '\u{2002}',
            '\u{2003}',
            '\u{2004}',
            '\u{2005}',
            '\u{2006}',
            '\u{2007}',
            '\u{2008}',
            '\u{2009}',
            '\u{200a}',
            '\u{2028}',
            '\u{2029}',
            '\u{202f}',
            '\u{205f}',
            '\u{3000}',
        ].contains(c),
{
    let all = seq![
        '\t',
        '\n',
        '\u{b}',
        '\u{c}',
        '\r',
        ' ',
        '\u{85}',
        '\u{a0}',
        '\u{1680}',
        '\u{2000}',
        '\u{2001}',
        '\u{2002}',
        '\u{2003}',
        '\u{2004}',
        '\u{2005}',
        '\u{2006}',
        '\u{2007}',
        '\u{2008}',
        '\u{2009}',
        '\u{200a}',
        '\u{2028}',
        '\u{2029}',
        '\u{202f}',
        '\u{205f}',
        '\u{3000}',
    ];
    assert(all[0] == '\t' && all[1] == '\n' && all[2] == '\u{b}' && all[3] == '\u{c}' && all[4]
        == '\r');
    assert(all[5] == ' ' && all[6] == '\u{85}' && all[7] == '\u{a0}' && all[8] == '\u{1680}');
    assert(all[9] == '\u{2000}' && all[10] == '\u{2001}' && all[11] == '\u{2002}' && all[12]
        == '\u{2003}');
    assert(all[13] == '\u{2004}' && all[14] == '\u{2005}' && all[15] == '\u{2006}' && all[16]
        == '\u{2007}');
    assert(all[17] == '\u{2008}' && all[18] == '\u{2009}' && all[19] == '\u{200a}' && all[20]
        == '\u{2028}');
    assert(all[21] == '\u{2029}' && all[22] == '\u{202f}' && all[23] == '\u{205f}' && all[24]
        == '\u{3000}');
}

proof fn lemma_blank_before(a: Seq<char>, b: Seq<char>)
    requires
        blank(a),
    ensures
        text::trim_start(a + b) == text::trim_start(b),
{
    let s = a + b;
    let n = text::lead(b, Run::White) as int;
    text::lemma_lead(b, Run::White);
    assert forall|i: int| 0 <= i < a.len() + n implies text::in_run(
        Run::White,
        #[trigger] s[i],
    ) by {
        if i < a.len() {
            assert(s[i] == a[i]);
        } else {
            assert(s[i] == b[i - a.len()]);
        }
    }
    if n < b.len() {
        assert(s[a.len() + n] == b[n]);
    }
    text::lemma_lead_unique(s, Run::White, a.len() + n);
    assert(s.skip(a.len() + n) =~= b.skip(n));
}

/// A text of nothing but white space has no words.
pub proof fn law_blank_text_has_no_words(s: Seq<char>)
    requires
        blank(s),
    ensures
        text::words(s) == Seq::<Seq<char>>::empty(),
        text::trimmed(s) == Seq::<char>::empty(),
{
    assert forall|i: int| 0 <= i < s.len() implies text::in_run(Run::White, #[trigger] s[i]) by {}
    text::lemma_lead_unique(s, Run::White, s.len() as int);
    assert(text::trim_start(s) =~= seq![]);
}

/// A text without white space is one word.
pub proof fn law_solid_text_is_one_word(s: Seq<char>)
    requires
        solid(s),
    ensures
        text::words(s) == seq![s],
        text::trimmed(s) == s,
{
    assert forall|i: int| 0 <= i < s.len() implies text::in_run(Run::Word, #[trigger] s[i]) by {}
    assert(!text::white_space(s[0]));
    assert(!text::white_space(s[s.len() - 1]));
    assert(text::lead(s, Run::White) == 0);
    assert(text::trim_start(s) =~= s);
    text::lemma_lead_unique(s, Run::Word, s.len() as int);
    assert(s.take(s.len() as int) =~= s);
    law_blank_text_has_no_words(s.skip(s.len() as int));
    assert(text::words(s) =~= seq![s]);
}

/// Two texts with white space between them have the words of the one, then
/// those of the other.
pub proof fn law_white_space_parts_words(a: Seq<char>, gap: Seq<char>, b: Seq<char>)
    requires
        blank(gap),
        gap.len() > 0,
    ensures
        text::words(a + gap + b) == text::words(a) + text::words(b),
    decreases a.len(),
{
    let s = a + gap + b;
    let n = text::lead(a, Run::White) as int;
    text::lemma_lead(a, Run::White);
    text::lemma_words_step(a);
    text::lemma_words_step(s);
    if n == a.len() {
        assert forall|i: int| 0 <= i < (a + gap).len() implies text::white_space(
            #[trigger] (a + gap)[i],
        ) by {
            if i < a.len() {
                assert(text::in_run(Run::White, a[i]));
            } else {
                assert((a + gap)[i] == gap[i - a.len()]);
            }
        }
        lemma_blank_before(a + gap, b);
        assert(text::trim_start(a) =~= seq![]);
        assert(text::words(a) =~= seq![]);
        assert(text::words(s) =~= text::words(b));
        assert(text::words(a) + text::words(b) =~= text::words(b));
    } else {
        let t = text::trim_start(a);
        let m = text::lead(t, Run::Word) as int;
        let u = t + gap + b;
        assert forall|i: int| 0 <= i < n implies text::in_run(Run::White, #[trigger] s[i]) by {
            assert(s[i] == a[i]);
        }
        assert(s[n] == a[n]);
        text::lemma_lead_unique(s, Run::White, n);
        assert(text::trim_start(s) =~= u);
        text::lemma_lead(t, Run::Word);
        assert forall|i: int| 0 <= i < m implies text::in_run(Run::Word, #[trigger] u[i]) by {
            assert(u[i] == t[i]);
        }
        if m < t.len() {
            assert(u[m] == t[m]);
        } else {
            assert(u[m] == gap[0]);
        }
        text::lemma_lead_unique(u, Run::Word, m);
        assert(u.take(m) =~= t.take(m));
        assert(u.skip(m) =~= t.skip(m) + gap + b);
        law_white_space_parts_words(t.skip(m), gap, b);
        assert(text::words(s) =~= text::words(a) + text::words(b));
    }
}

proof fn lemma_trim_end_drops_blank(w: Seq<char>, b: Seq<char>)
    requires
        blank(b),
        w.len() > 0,
        !text::white_space(w.last()),
    ensures
        text::trim_end(w + b) == w,
    decreases b.len(),
{
    let s = w + b;
    if b.len() > 0 {
        assert(s.last() == b.last());
        assert(text::white_space(b[b.len() - 1]));
        assert(s.drop_last() =~= w + b.drop_last());
        assert forall|i: int| 0 <= i < b.len() - 1 implies text::white_space(
            #[trigger] b.drop_last()[i],
        ) by {
            assert(b.drop_last()[i] == b[i]);
        }
        lemma_trim_end_drops_blank(w, b.drop_last());
    } else {
        assert(s =~= w);
    }
}

/// Trimming takes away the white space on either side and nothing else.
pub proof fn law_trimming_takes_white_space(a: Seq<char>, w: Seq<char>, b: Seq<char>)
    requires
        blank(a),
        blank(b),
        w.len() > 0,
        !text::white_space(w[0]),
        !text::white_space(w.last()),
    ensures
        text::trimmed(a + w + b) == w,
{
    assert(a + w + b =~= a + (w + b));
    lemma_blank_before(a, w + b);
    assert((w + b)[0] == w[0]);
    assert(text::lead(w + b, Run::White) == 0);
    assert(text::trim_start(w + b) =~= w + b);
    lemma_trim_end_drops_blank(w, b);
}

proof fn lemma_run_until(a: Seq<char>, sep: char, rest: Seq<char>)
    requires
        without(a, sep),
    ensures
        text::lead(a, Run::Until(sep)) == a.len(),
        text::lead(a + seq![sep] + rest, Run::Until(sep)) == a.len(),
{
    let s = a + seq![sep] + rest;
    assert forall|i: int| 0 <= i < a.len() implies text::in_run(Run::Until(sep), #[trigger] s[i]) by {
        assert(s[i] == a[i]);
    }
    assert(s[a.len() as int] == sep);
    text::lemma_lead_unique(s, Run::Until(sep), a.len() as int);
    assert forall|i: int| 0 <= i < a.len() implies text::in_run(Run::Until(sep), #[trigger] a[i]) by {}
    text::lemma_lead_unique(a, Run::Until(sep), a.len() as int);
}

/// A text is split at its separators: one without any is one piece, and what
/// stands before the first is a piece before those of the rest.
pub proof fn law_separators_part_pieces(a: Seq<char>, sep: char, rest: Seq<char>)
    requires
        without(a, sep),
    ensures
        text::pieces(a, sep) == seq![a],
        text::pieces(a + seq![sep] + rest, sep) == seq![a] + text::pieces(rest, sep),
{
    let s = a + seq![sep] + rest;
    lemma_run_until(a, sep, rest);
    assert(s.take(a.len() as int) =~= a);
    assert(s.skip(a.len() as int + 1) =~= rest);
}

/// A text is cut at its first separator, and only where it has one.
pub proof fn law_cut_at_the_first_separator(a: Seq<char>, sep: char, rest: Seq<char>)
    requires
        without(a, sep),
    ensures
        text::cut(a, sep) is None,
        text::cut(a + seq![sep] + rest, sep) == Some((a, rest)),
{
    let s = a + seq![sep] + rest;
    lemma_run_until(a, sep, rest);
    assert(s.take(a.len() as int) =~= a);
    assert(s.skip(a.len() as int + 1) =~= rest);
}

/// A number's decimal digits are those of its tenth, then its last one.
pub proof fn law_decimal_digits(n: nat, d: nat)
    requires
        d < 10,
    ensures
        text::decimal(d) == seq!["0123456789"@[d as int]],
        n > 0 ==> text::decimal(10 * n + d) == text::decimal(n).push("0123456789"@[d as int]),
{
    reveal_strlit("0123456789");
    let digits = "0123456789"@;
    assert(digits[d as int] == ('0' as int + d) as char);
    assert(d % 10 == d);
    assert(text::decimal(d) =~= seq![digits[d as int]]);
    if n > 0 {
        assert((10 * n + d) / 10 == n && (10 * n + d) % 10 == d);
    }
}

/// Digits are read from the highest down, decimal and hexadecimal ones, the
/// latter in either case. Any other character spoils the number.
pub proof fn law_digits_are_read(s: Seq<char>, d: int, c: char)
    ensures
        0 <= d < 10 ==> text::number(s.push("0123456789"@[d]), 10) == match text::number(s, 10) {
            Some(v) => Some(10 * v + d),
            None => None,
        },
        0 <= d < 16 ==> text::number(s.push("0123456789abcdef"@[d]), 16) == match text::number(
            s,
            16,
        ) {
            Some(v) => Some(16 * v + d),
            None => None,
        },
        0 <= d < 16 ==> text::number(s.push("0123456789ABCDEF"@[d]), 16) == match text::number(
            s,
            16,
        ) {
            Some(v) => Some(16 * v + d),
            None => None,
        },
        !"0123456789"@.contains(c) ==> text::number(s.push(c), 10) is None,
        !"0123456789abcdef"@.contains(c) && !"0123456789ABCDEF"@.contains(c) ==> text::number(
            s.push(c),
            16,
        ) is None,
        text::number(seq![], 10) == Some(0int),
        text::number(seq![], 16) == Some(0int),
{
    reveal_strlit("0123456789");
    reveal_strlit("0123456789abcdef");
    reveal_strlit("0123456789ABCDEF");
    let ten = "0123456789"@;
    let small = "0123456789abcdef"@;
    let large = "0123456789ABCDEF"@;
    if 0 <= d < 10 {
        let e = ten[d];
        assert(text::digit(e, 10) == Some(d));
        assert(s.push(e).drop_last() =~= s);
    }
    if 0 <= d < 16 {
        assert(text::digit(small[d], 16) == Some(d));
        assert(text::digit(large[d], 16) == Some(d));
        assert(s.push(small[d]).drop_last() =~= s);
        assert(s.push(large[d]).drop_last() =~= s);
    }
    assert(s.push(c).drop_last() =~= s);
    assert(s.push(c).last() == c);
    if text::digit(c, 10) is Some {
        assert(ten[text::digit(c, 10)->0] == c);
    }
    if text::digit(c, 16) is Some {
        let v = text::digit(c, 16)->0;
        assert(small[v] == c || large[v] == c);
    }
}

/// A number is read where it has a digit and is not too large, after a plus
/// sign or without one.
pub proof fn law_unsigned_numbers(digits: Seq<char>, base: int, max: int)
    requires
        digits.len() > 0,
        digits[0] != '+',
    ensures
        text::unsigned(digits, base, max) == match text::number(digits, base) {
            Some(v) => if v <= max {
                Some(v)
            } else {
                None
            },
            None => None,
        },
        text::unsigned(seq!['+'] + digits, base, max) == text::unsigned(digits, base, max),
        text::unsigned(seq![], base, max) is None,
        text::unsigned(seq!['+'], base, max) is None,
{
    assert((seq!['+'] + digits).skip(1) =~= digits);
    assert(seq!['+'].skip(1) =~= seq![]);
}

/// A number too large is not read.
pub proof fn law_large_number_is_not_read(n: nat, max: int)
    requires
        n > max,
    ensures
        text::unsigned(text::decimal(n), 10, max) is None,
{
    text::lemma_decimal(n);
    assert(text::decimal(n)[0] != '+');
}

/// A negative number is written as a minus sign and the digits of its size.
pub proof fn law_signed_decimal(n: nat)
    ensures
        text::signed_decimal(n as int) == text::decimal(n),
        n > 0 ==> text::signed_decimal(-n) == "-"@ + text::decimal(n),
{
    reveal_strlit("-");
    assert("-"@ =~= seq!['-']);
}

/// The 26 letters of ASCII change their case and nothing else does.
pub proof fn law_ascii_case(s: Seq<char>, i: int)
    requires
        0 <= i < s.len(),
    ensures
        text::lower(s).len() == s.len(),
        text::upper(s).len() == s.len(),
        forall|k: int|
            0 <= k < 26 ==> s[i] == (#[trigger] "ABCDEFGHIJKLMNOPQRSTUVWXYZ"@[k]) ==> text::lower(
                s,
            )[i] == "abcdefghijklmnopqrstuvwxyz"@[k],
        forall|k: int|
            0 <= k < 26 ==> s[i] == (#[trigger] "abcdefghijklmnopqrstuvwxyz"@[k]) ==> text::upper(
                s,
            )[i] == "ABCDEFGHIJKLMNOPQRSTUVWXYZ"@[k],
        !"ABCDEFGHIJKLMNOPQRSTUVWXYZ"@.contains(s[i]) ==> text::lower(s)[i] == s[i],
        !"abcdefghijklmnopqrstuvwxyz"@.contains(s[i]) ==> text::upper(s)[i] == s[i],
{
    reveal_strlit("ABCDEFGHIJKLMNOPQRSTUVWXYZ");
    reveal_strlit("abcdefghijklmnopqrstuvwxyz");
    let large = "ABCDEFGHIJKLMNOPQRSTUVWXYZ"@;
    let small = "abcdefghijklmnopqrstuvwxyz"@;
    assert forall|k: int| 0 <= k < 26 implies (#[trigger] large[k]) as int == 'A' as int + k by {}
    assert forall|k: int| 0 <= k < 26 implies (#[trigger] small[k]) as int == 'a' as int + k by {}
    if 'A' <= s[i] <= 'Z' {
        assert(large[s[i] as int - 'A' as int] == s[i]);
    }
    if 'a' <= s[i] <= 'z' {
        assert(small[s[i] as int - 'a' as int] == s[i]);
    }
}

/// Plain ASCII text is put in lower and in upper case letter by letter.
pub proof fn law_case_of_ascii_text(s: Seq<char>)
    requires
        is_ascii_chars(s),
    ensures
        outside::lower_case(s) == text::lower(s),
        outside::upper_case(s) == text::upper(s),
        outside::lower_case(text::upper(s)) == outside::lower_case(s),
        outside::upper_case(text::lower(s)) == outside::upper_case(s),
{
    assert(is_ascii_chars(text::upper(s)));
    assert(is_ascii_chars(text::lower(s)));
    assert(text::lower(text::upper(s)) =~= text::lower(s));
    assert(text::upper(text::lower(s)) =~= text::upper(s));
}

/// A list of strings says, in order, what each of them holds.
pub proof fn law_views(v: Seq<String>, i: int)
    ensures
        text::views(v).len() == v.len(),
        0 <= i < v.len() ==> text::views(v)[i] == v[i]@,
{
}

/// An optional string says what it holds, if anything.
pub proof fn law_opt_view(s: String)
    ensures
        text::opt_view(Some(s)) == Some(s@),
        text::opt_view(None) is None,
{
}

} // verus!
