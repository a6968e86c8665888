//! Text as the daemon reads it: white space, words, separated pieces,
//! numbers, and ASCII case.

use vstd::prelude::*;
use vstd::string::*;

verus! {

/// The contents of a list of strings.
pub open spec fn views(v: Seq<String>) -> Seq<Seq<char>> {
    Seq::new(v.len(), |i: int| v[i]@)
}

/// The content of an optional string.
pub open spec fn opt_view(s: Option<String>) -> Option<Seq<char>> {
    match s {
        Some(t) => Some(t@),
        None => None,
    }
}

/// Unicode's `White_Space` property.
pub open spec fn white_space(c: char) -> bool {
    ||| '\u{9}' <= c <= '\u{d}'
    ||| c == '\u{20}'
    ||| c == '\u{85}'
    ||| c == '\u{a0}'
    ||| c == '\u{1680}'
    ||| '\u{2000}' <= c <= '\u{200a}'
    ||| c == '\u{2028}'
    ||| c == '\u{2029}'
    ||| c == '\u{202f}'
    ||| c == '\u{205f}'
    ||| c == '\u{3000}'
}

/// Whether `c` is white space.
pub fn is_white_space(c: char) -> (r: bool)
    ensures
        r == white_space(c),
{
    ('\u{9}' <= c && c <= '\u{d}') || c == '\u{20}' || c == '\u{85}' || c == '\u{a0}' || c
        == '\u{1680}' || ('\u{2000}' <= c && c <= '\u{200a}') || c == '\u{2028}' || c == '\u{2029}'
        || c == '\u{202f}' || c == '\u{205f}' || c == '\u{3000}'
}

/// A kind of character run: white space, anything but white space, or
/// anything but one separator.
#[derive(Clone, Copy)]
pub enum Run {
    White,
    Word,
    Until(char),
}

/// Whether `c` belongs to a run of the given kind.
pub open spec fn in_run(run: Run, c: char) -> bool {
    match run {
        Run::White => white_space(c),
        Run::Word => !white_space(c),
        Run::Until(sep) => c != sep,
    }
}

/// How many characters `s` begins with that belong to the run.
pub open spec fn lead(s: Seq<char>, run: Run) -> nat
    decreases s.len(),
{
    if s.len() > 0 && in_run(run, s[0]) {
        1 + lead(s.drop_first(), run)
    } else {
        0
    }
}

pub proof fn lemma_lead(s: Seq<char>, run: Run)
    ensures
        lead(s, run) <= s.len(),
        forall|i: int| 0 <= i < lead(s, run) ==> in_run(run, #[trigger] s[i]),
        lead(s, run) < s.len() ==> !in_run(run, s[lead(s, run) as int]),
    decreases s.len(),
{
    if s.len() > 0 && in_run(run, s[0]) {
        let t = s.drop_first();
        lemma_lead(t, run);
        assert forall|i: int| 0 <= i < lead(s, run) implies in_run(run, #[trigger] s[i]) by {
            if i > 0 {
                assert(s[i] == t[i - 1]);
            }
        }
    }
}

pub proof fn lemma_lead_unique(s: Seq<char>, run: Run, n: int)
    requires
        0 <= n <= s.len(),
        forall|i: int| 0 <= i < n ==> in_run(run, #[trigger] s[i]),
        n < s.len() ==> !in_run(run, s[n]),
    ensures
        lead(s, run) == n,
{
    lemma_lead(s, run);
    if lead(s, run) < n {
        assert(in_run(run, s[lead(s, run) as int]));
    }
}

/// The characters of a string.
pub fn chars_of(s: &str) -> (r: Vec<char>)
    ensures
        r@ == s@,
{
    let mut out: Vec<char> = Vec::new();
    for c in it: s.chars()
        invariant
            out@ == it.seq().take(it.index()),
            it.seq() == s@,
    {
        out.push(c);
    }
    out
}

/// Where the run that starts at `from` ends.
fn run_end(chars: &Vec<char>, from: usize, run: Run) -> (end: usize)
    requires
        from <= chars@.len(),
    ensures
        from <= end <= chars@.len(),
        end == from + lead(chars@.skip(from as int), run),
{
    let mut i: usize = from;
    while i < chars.len() && belongs(run, chars[i])
        invariant
            from <= i <= chars@.len(),
            forall|j: int| from <= j < i ==> in_run(run, #[trigger] chars@[j]),
        decreases chars@.len() - i,
    {
        i += 1;
    }
    proof {
        let rest = chars@.skip(from as int);
        assert forall|j: int| 0 <= j < i - from implies in_run(run, #[trigger] rest[j]) by {
            assert(rest[j] == chars@[from + j]);
        }
        lemma_lead_unique(rest, run, i - from);
    }
    i
}

fn belongs(run: Run, c: char) -> (r: bool)
    ensures
        r == in_run(run, c),
{
    match run {
        Run::White => is_white_space(c),
        Run::Word => !is_white_space(c),
        Run::Until(sep) => c != sep,
    }
}

/// `s` without the white space it begins with.
pub open spec fn trim_start(s: Seq<char>) -> Seq<char> {
    s.skip(lead(s, Run::White) as int)
}

/// `s` without the white space it ends with.
pub open spec fn trim_end(s: Seq<char>) -> Seq<char>
    decreases s.len(),
{
    if s.len() > 0 && white_space(s.last()) {
        trim_end(s.drop_last())
    } else {
        s
    }
}

/// `s` without the white space on either side.
pub open spec fn trimmed(s: Seq<char>) -> Seq<char> {
    trim_end(trim_start(s))
}

/// The text without the white space on either side.
pub fn trim(s: &str) -> (r: &str)
    ensures
        r@ == trimmed(s@),
{
    let chars: Vec<char> = chars_of(s);
    let from: usize = run_end(&chars, 0, Run::White);
    assert(chars@.skip(0) =~= s@);
    let mut to: usize = chars.len();
    assert(s@.subrange(from as int, to as int) =~= trim_start(s@));
    while to > from && is_white_space(chars[to - 1])
        invariant
            from <= to <= chars@.len(),
            chars@ == s@,
            trim_end(s@.subrange(from as int, to as int)) == trimmed(s@),
        decreases to,
    {
        assert(s@.subrange(from as int, to as int).drop_last() =~= s@.subrange(
            from as int,
            to - 1,
        ));
        to -= 1;
    }
    s.substring_char(from, to)
}

proof fn lemma_trim_end(s: Seq<char>)
    ensures
        trim_end(s).len() <= s.len(),
        trim_end(s).is_prefix_of(s),
        trim_end(s).len() > 0 ==> !white_space(trim_end(s).last()),
        s.len() > 0 && !white_space(s[0]) ==> trim_end(s).len() > 0,
    decreases s.len(),
{
    if s.len() > 0 && white_space(s.last()) {
        lemma_trim_end(s.drop_last());
        if s.len() > 1 {
            assert(s.drop_last()[0] == s[0]);
        }
    }
}

/// White space around a text that has been trimmed is gone: trimming it again
/// changes nothing.
pub proof fn law_trim_is_final(s: Seq<char>)
    ensures
        trimmed(trimmed(s)) == trimmed(s),
{
    let a = trim_start(s);
    let t = trimmed(s);
    lemma_lead(s, Run::White);
    lemma_trim_end(a);
    if t.len() > 0 {
        assert(a[0] == s[lead(s, Run::White) as int]);
        assert(t[0] == a[0]);
        assert(lead(t, Run::White) == 0);
    } else {
        assert(lead(t, Run::White) == 0);
    }
    assert(t.skip(0) =~= t);
}

pub proof fn lemma_words_step(s: Seq<char>)
    ensures
        trim_start(s).len() <= s.len(),
        trim_start(s).len() > 0 ==> 0 < lead(trim_start(s), Run::Word) <= trim_start(s).len(),
{
    lemma_lead(s, Run::White);
    lemma_lead(trim_start(s), Run::Word);
}

/// The maximal runs of characters other than white space, in order.
pub open spec fn words(s: Seq<char>) -> Seq<Seq<char>>
    decreases s.len(),
{
    proof {
        lemma_words_step(s);
    }
    let t = trim_start(s);
    if t.len() == 0 {
        seq![]
    } else {
        let n = lead(t, Run::Word) as int;
        seq![t.take(n)] + words(t.skip(n))
    }
}

/// The words of a text: the pieces between white space.
pub fn split_words(s: &str) -> (r: Vec<String>)
    ensures
        views(r@) == words(s@),
{
    let chars: Vec<char> = chars_of(s);
    let mut out: Vec<String> = Vec::new();
    let mut i: usize = 0;
    assert(chars@.skip(0) =~= s@);
    assert(views(out@) + words(s@) =~= words(s@));
    loop
        invariant
            i <= chars@.len(),
            chars@ == s@,
            views(out@) + words(chars@.skip(i as int)) == words(s@),
        ensures
            views(out@) == words(s@),
        decreases chars@.len() - i,
    {
        let ghost rest = chars@.skip(i as int);
        let a: usize = run_end(&chars, i, Run::White);
        proof {
            lemma_words_step(rest);
            assert(chars@.skip(a as int) =~= trim_start(rest));
        }
        if a == chars.len() {
            assert(words(rest) =~= seq![]);
            assert(views(out@) + words(rest) =~= views(out@));
            break;
        }
        let b: usize = run_end(&chars, a, Run::Word);
        let word: String = s.substring_char(a, b).to_owned();
        proof {
            let t = trim_start(rest);
            assert(word@ =~= t.take(b - a));
            assert(t.skip(b - a) =~= chars@.skip(b as int));
            assert(views(out@.push(word)) =~= views(out@).push(word@));
            assert(views(out@).push(word@) + words(t.skip(b - a)) =~= views(out@) + (seq![word@]
                + words(t.skip(b - a))));
        }
        out.push(word);
        i = b;
    }
    out
}

pub proof fn lemma_pieces_step(s: Seq<char>, sep: char)
    ensures
        lead(s, Run::Until(sep)) < s.len() ==> s.skip(lead(s, Run::Until(sep)) as int + 1).len()
            < s.len(),
{
}

/// The pieces of `s` between occurrences of `sep`: one more than there are
/// occurrences.
pub open spec fn pieces(s: Seq<char>, sep: char) -> Seq<Seq<char>>
    decreases s.len(),
{
    proof {
        lemma_pieces_step(s, sep);
    }
    let n = lead(s, Run::Until(sep)) as int;
    if n >= s.len() {
        seq![s]
    } else {
        seq![s.take(n)] + pieces(s.skip(n + 1), sep)
    }
}

/// The last piece is what follows the last separator.
pub proof fn lemma_last_piece(s: Seq<char>, sep: char, n: int)
    requires
        0 <= n < s.len(),
        s[n] == sep,
        forall|i: int| n < i < s.len() ==> #[trigger] s[i] != sep,
    ensures
        pieces(s, sep).len() > 0,
        pieces(s, sep).last() == s.skip(n + 1),
    decreases s.len(),
{
    let k = lead(s, Run::Until(sep)) as int;
    let rest = s.skip(k + 1);
    lemma_lead(s, Run::Until(sep));
    if n < k {
        assert(in_run(Run::Until(sep), s[n]));
    }
    if k == n {
        assert forall|i: int| 0 <= i < rest.len() implies in_run(
            Run::Until(sep),
            #[trigger] rest[i],
        ) by {
            assert(rest[i] == s[n + 1 + i]);
        }
        lemma_lead_unique(rest, Run::Until(sep), rest.len() as int);
        assert(pieces(rest, sep) == seq![rest]);
    } else {
        assert forall|i: int| n - k - 1 < i < rest.len() implies #[trigger] rest[i] != sep by {
            assert(rest[i] == s[k + 1 + i]);
        }
        lemma_last_piece(rest, sep, n - k - 1);
        assert(rest.skip(n - k) =~= s.skip(n + 1));
    }
    assert(pieces(s, sep) == seq![s.take(k)] + pieces(rest, sep));
    assert(pieces(s, sep).last() == pieces(rest, sep).last());
}

/// The pieces of a text between occurrences of a separator.
pub fn split(s: &str, sep: char) -> (r: Vec<String>)
    ensures
        views(r@) == pieces(s@, sep),
        r@.len() > 0,
{
    let chars: Vec<char> = chars_of(s);
    let mut out: Vec<String> = Vec::new();
    let mut i: usize = 0;
    assert(chars@.skip(0) =~= s@);
    assert(views(out@) + pieces(s@, sep) =~= pieces(s@, sep));
    loop
        invariant_except_break
            views(out@) + pieces(chars@.skip(i as int), sep) == pieces(s@, sep),
        invariant
            i <= chars@.len(),
            chars@ == s@,
        ensures
            views(out@) == pieces(s@, sep),
            out@.len() > 0,
        decreases chars@.len() - i,
    {
        let ghost rest = chars@.skip(i as int);
        let b: usize = run_end(&chars, i, Run::Until(sep));
        let piece: String = s.substring_char(i, b).to_owned();
        proof {
            lemma_lead(rest, Run::Until(sep));
            assert(piece@ =~= rest.take(b - i));
            assert(views(out@.push(piece)) =~= views(out@).push(piece@));
        }
        if b == chars.len() {
            proof {
                assert(rest.take(b - i) =~= rest);
                assert(views(out@) + seq![piece@] =~= views(out@).push(piece@));
            }
            out.push(piece);
            break;
        }
        proof {
            assert(rest.skip(b - i + 1) =~= chars@.skip(b + 1));
            assert(views(out@).push(piece@) + pieces(chars@.skip(b + 1), sep) =~= views(out@) + (
            seq![piece@] + pieces(chars@.skip(b + 1), sep)));
        }
        out.push(piece);
        i = b + 1;
    }
    out
}

/// What stands before and after the first `sep`.
pub open spec fn cut(s: Seq<char>, sep: char) -> Option<(Seq<char>, Seq<char>)> {
    let n = lead(s, Run::Until(sep)) as int;
    if n >= s.len() {
        None
    } else {
        Some((s.take(n), s.skip(n + 1)))
    }
}

/// Splits a text at the first occurrence of a separator.
pub fn split_once(s: &str, sep: char) -> (r: Option<(String, String)>)
    ensures
        match r {
            Some((a, b)) => cut(s@, sep) == Some((a@, b@)),
            None => cut(s@, sep) is None,
        },
{
    let chars: Vec<char> = chars_of(s);
    let n: usize = run_end(&chars, 0, Run::Until(sep));
    assert(chars@.skip(0) =~= s@);
    if n == chars.len() {
        None
    } else {
        let a: String = s.substring_char(0, n).to_owned();
        let b: String = s.substring_char(n + 1, chars.len()).to_owned();
        assert(a@ =~= s@.take(n as int));
        assert(b@ =~= s@.skip(n + 1));
        Some((a, b))
    }
}

/// Whether two texts are the same.
pub fn same(a: &str, b: &str) -> (r: bool)
    ensures
        r == (a@ == b@),
{
    a.to_owned() == b.to_owned()
}

/// Whether a text begins with another.
pub fn has_prefix(s: &str, prefix: &str) -> (r: bool)
    ensures
        r == prefix@.is_prefix_of(s@),
{
    let n: usize = prefix.unicode_len();
    if n > s.unicode_len() {
        return false;
    }
    let r: bool = same(s.substring_char(0, n), prefix);
    assert(s@.subrange(0, n as int) == prefix@ <==> prefix@.is_prefix_of(s@));
    r
}

/// Whether some character of the list occurs in the text.
pub fn has_any(s: &str, set: &str) -> (r: bool)
    ensures
        r == exists|i: int| 0 <= i < s@.len() && set@.contains(#[trigger] s@[i]),
{
    let chars: Vec<char> = chars_of(s);
    let list: Vec<char> = chars_of(set);
    let mut i: usize = 0;
    while i < chars.len()
        invariant
            i <= chars@.len(),
            chars@ == s@,
            list@ == set@,
            forall|j: int| 0 <= j < i ==> !set@.contains(#[trigger] s@[j]),
        decreases chars@.len() - i,
    {
        if has_char(&list, chars[i]) {
            assert(set@.contains(s@[i as int]));
            return true;
        }
        i += 1;
    }
    false
}

fn has_char(list: &Vec<char>, c: char) -> (r: bool)
    ensures
        r == list@.contains(c),
{
    let mut i: usize = 0;
    while i < list.len()
        invariant
            i <= list@.len(),
            forall|j: int| 0 <= j < i ==> list@[j] != c,
        decreases list@.len() - i,
    {
        if list[i] == c {
            return true;
        }
        i += 1;
    }
    false
}

/// What a digit stands for, in a base of at most 36.
pub open spec fn digit(c: char, base: int) -> Option<int> {
    let d = if '0' <= c <= '9' {
        c as int - '0' as int
    } else if 'a' <= c <= 'z' {
        c as int - 'a' as int + 10
    } else if 'A' <= c <= 'Z' {
        c as int - 'A' as int + 10
    } else {
        36
    };
    if d < base {
        Some(d)
    } else {
        None
    }
}

/// The number that a list of digits writes, the highest first.
pub open spec fn number(s: Seq<char>, base: int) -> Option<int>
    decreases s.len(),
{
    if s.len() == 0 {
        Some(0)
    } else {
        match (number(s.drop_last(), base), digit(s.last(), base)) {
            (Some(v), Some(d)) => Some(v * base + d),
            _ => None,
        }
    }
}

/// Reads an unsigned number: an optional plus sign, then at least one digit
/// and nothing else, with a value of at most `max`.
pub open spec fn unsigned(s: Seq<char>, base: int, max: int) -> Option<int> {
    let digits = if s.len() > 0 && s[0] == '+' {
        s.skip(1)
    } else {
        s
    };
    if digits.len() == 0 {
        None
    } else {
        match number(digits, base) {
            Some(v) => if v <= max {
                Some(v)
            } else {
                None
            },
            None => None,
        }
    }
}

proof fn lemma_number_grows(s: Seq<char>, base: int, n: int)
    requires
        2 <= base,
        0 <= n <= s.len(),
        number(s, base) is Some,
    ensures
        number(s.take(n), base) is Some,
        0 <= number(s.take(n), base)->0 <= number(s, base)->0,
    decreases s.len(),
{
    if n < s.len() {
        lemma_number_grows(s.drop_last(), base, n);
        assert(s.drop_last().take(n) =~= s.take(n));
        let v = number(s.drop_last(), base)->0;
        assert(v * base >= v) by (nonlinear_arith)
            requires
                v >= 0,
                base >= 2,
        ;
    } else {
        assert(s.take(n) =~= s);
        if s.len() > 0 {
            lemma_number_grows(s.drop_last(), base, s.len() - 1);
            let v = number(s.drop_last(), base)->0;
            assert(s.drop_last().take(s.len() - 1) =~= s.drop_last());
            assert(v * base >= 0) by (nonlinear_arith)
                requires
                    v >= 0,
                    base >= 2,
            ;
        }
    }
}

fn digit_value(c: char, base: u32) -> (r: Option<u64>)
    requires
        base <= 36,
    ensures
        match r {
            Some(d) => digit(c, base as int) == Some(d as int),
            None => digit(c, base as int) is None,
        },
{
    let d: u32 = if '0' <= c && c <= '9' {
        c as u32 - '0' as u32
    } else if 'a' <= c && c <= 'z' {
        c as u32 - 'a' as u32 + 10
    } else if 'A' <= c && c <= 'Z' {
        c as u32 - 'A' as u32 + 10
    } else {
        36
    };
    if d < base {
        Some(d as u64)
    } else {
        None
    }
}

/// Reads an unsigned number of at most `max`, in a base from 2 to 36.
pub fn parse_unsigned(s: &str, base: u32, max: u64) -> (r: Option<u64>)
    requires
        2 <= base <= 36,
    ensures
        match r {
            Some(v) => unsigned(s@, base as int, max as int) == Some(v as int),
            None => unsigned(s@, base as int, max as int) is None,
        },
{
    let chars: Vec<char> = chars_of(s);
    let start: usize = if chars.len() > 0 && chars[0] == '+' {
        1
    } else {
        0
    };
    let ghost digits = s@.skip(start as int);
    assert(s@.skip(0) =~= s@);
    if start == chars.len() {
        return None;
    }
    let mut v: u64 = 0;
    let mut i: usize = start;
    while i < chars.len()
        invariant
            start <= i <= chars@.len(),
            chars@ == s@,
            digits == s@.skip(start as int),
            digits.len() > 0,
            digits == (if s@.len() > 0 && s@[0] == '+' {
                s@.skip(1)
            } else {
                s@
            }),
            2 <= base <= 36,
            v <= max,
            number(digits.take(i - start), base as int) == Some(v as int),
        decreases chars@.len() - i,
    {
        let ghost next = digits.take(i - start + 1);
        proof {
            assert(next.drop_last() =~= digits.take(i - start));
            assert(next.last() == chars@[i as int]);
            if number(digits, base as int) is Some {
                lemma_number_grows(digits, base as int, i - start + 1);
            }
        }
        match digit_value(chars[i], base) {
            None => {
                return None;
            },
            Some(d) => {
                assert(v as u128 * base as u128 + d as u128 <= u128::MAX) by (nonlinear_arith)
                    requires
                        v <= u64::MAX,
                        base <= 36,
                        d <= u64::MAX,
                ;
                let wide: u128 = v as u128 * base as u128 + d as u128;
                if wide > max as u128 {
                    return None;
                }
                v = wide as u64;
            },
        }
        i += 1;
    }
    assert(digits.take(i - start) =~= digits);
    Some(v)
}

/// The decimal digits of a number.
pub open spec fn decimal(n: nat) -> Seq<char>
    decreases n,
{
    let last = ('0' as int + n % 10) as char;
    if n < 10 {
        seq![last]
    } else {
        decimal(n / 10).push(last)
    }
}

/// A number reads back from its decimal digits.
pub proof fn law_decimal_reads_back(n: nat, max: int)
    requires
        n <= max,
    ensures
        unsigned(decimal(n), 10, max) == Some(n as int),
{
    lemma_decimal(n);
}

/// A text with anything but digits in it writes no number.
pub proof fn lemma_not_a_number(s: Seq<char>, base: int, i: int)
    requires
        0 <= i < s.len(),
        digit(s[i], base) is None,
    ensures
        number(s, base) is None,
    decreases s.len(),
{
    if i < s.len() - 1 {
        lemma_not_a_number(s.drop_last(), base, i);
    }
}

pub proof fn lemma_decimal(n: nat)
    ensures
        number(decimal(n), 10) == Some(n as int),
        decimal(n).len() > 0,
        forall|i: int| 0 <= i < decimal(n).len() ==> '0' <= #[trigger] decimal(n)[i] <= '9',
    decreases n,
{
    let last = ('0' as int + n % 10) as char;
    assert(last as int == '0' as int + n % 10);
    if n < 10 {
        let s = seq![last];
        assert(s.drop_last() =~= seq![]);
        assert(s.last() == last);
        assert(number(s.drop_last(), 10) == Some(0int));
    } else {
        lemma_decimal(n / 10);
        assert(decimal(n).drop_last() =~= decimal(n / 10));
    }
}

fn digit_text(d: u64) -> (r: &'static str)
    requires
        d < 10,
    ensures
        r@ == seq![('0' as int + d) as char],
{
    proof {
        reveal_strlit("0");
        reveal_strlit("1");
        reveal_strlit("2");
        reveal_strlit("3");
        reveal_strlit("4");
        reveal_strlit("5");
        reveal_strlit("6");
        reveal_strlit("7");
        reveal_strlit("8");
        reveal_strlit("9");
    }
    if d == 0 {
        "0"
    } else if d == 1 {
        "1"
    } else if d == 2 {
        "2"
    } else if d == 3 {
        "3"
    } else if d == 4 {
        "4"
    } else if d == 5 {
        "5"
    } else if d == 6 {
        "6"
    } else if d == 7 {
        "7"
    } else if d == 8 {
        "8"
    } else {
        "9"
    }
}

/// Writes a number in decimal.
pub fn to_decimal(n: u64) -> (r: String)
    ensures
        r@ == decimal(n as nat),
    decreases n,
{
    let mut out: String = String::new();
    if n >= 10 {
        out = to_decimal(n / 10);
    }
    let ghost before = out@;
    let last: &'static str = digit_text(n % 10);
    out.append(last);
    assert(before + last@ =~= before.push(last@[0]));
    assert(n < 10 ==> before.push(last@[0]) =~= last@);
    out
}

/// The decimal digits of a number, after a minus sign where it is negative.
pub open spec fn signed_decimal(n: int) -> Seq<char> {
    if n < 0 {
        seq!['-'] + decimal((-n) as nat)
    } else {
        decimal(n as nat)
    }
}

/// Writes a signed number in decimal.
pub fn to_signed_decimal(n: i32) -> (r: String)
    ensures
        r@ == signed_decimal(n as int),
{
    if n < 0 {
        proof {
            reveal_strlit("-");
        }
        assert("-"@ =~= seq!['-']);
        let mut out: String = "-".to_owned();
        out.append(to_decimal((-(n as i64)) as u64).as_str());
        out
    } else {
        to_decimal(n as u64)
    }
}

/// `c` with an ASCII capital letter made small.
pub open spec fn ascii_lower(c: char) -> char {
    if 'A' <= c <= 'Z' {
        (c as int + 32) as char
    } else {
        c
    }
}

/// `c` with a small ASCII letter made a capital.
pub open spec fn ascii_upper(c: char) -> char {
    if 'a' <= c <= 'z' {
        (c as int - 32) as char
    } else {
        c
    }
}

/// `s` with its ASCII capital letters made small.
pub open spec fn lower(s: Seq<char>) -> Seq<char> {
    Seq::new(s.len(), |i: int| ascii_lower(s[i]))
}

/// `s` with its small ASCII letters made capitals.
pub open spec fn upper(s: Seq<char>) -> Seq<char> {
    Seq::new(s.len(), |i: int| ascii_upper(s[i]))
}

/// Whether a text, with its ASCII capital letters made small, is `small`.
pub fn same_lowered(s: &str, small: &str) -> (r: bool)
    ensures
        r == (lower(s@) == small@),
{
    let a: Vec<char> = chars_of(s);
    let b: Vec<char> = chars_of(small);
    if a.len() != b.len() {
        return false;
    }
    let mut i: usize = 0;
    while i < a.len()
        invariant
            i <= a@.len() == b@.len(),
            a@ == s@,
            b@ == small@,
            forall|j: int| 0 <= j < i ==> ascii_lower(s@[j]) == #[trigger] small@[j],
        decreases a@.len() - i,
    {
        if !lowers_to(a[i], b[i]) {
            assert(lower(s@)[i as int] != small@[i as int]);
            return false;
        }
        i += 1;
    }
    assert(lower(s@) =~= small@);
    true
}

fn lowers_to(c: char, small: char) -> (r: bool)
    ensures
        r == (ascii_lower(c) == small),
{
    if 'A' <= c && c <= 'Z' {
        c as u32 + 32 == small as u32
    } else {
        c == small
    }
}

} // verus!
