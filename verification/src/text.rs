//! Characters, decimal numbers and trimming.

use vstd::prelude::*;

verus! {

/// The characters of a string, one by one.
pub fn chars_of(s: &str) -> (r: Vec<char>)
    ensures
        r@ == s@,
{
    let mut r: Vec<char> = Vec::new();
    for c in it: s.chars()
        invariant
            it.seq() == s@,
            r@ == it.seq().take(it.index()),
    {
        proof {
            assert(it.seq().take(it.index() + 1) == it.seq().take(it.index()).push(c));
        }
        r.push(c);
    }
    proof {
        assert(s@.take(s@.len() as int) == s@);
    }
    r
}

/// Are two strings the same?
pub fn same_text(a: &str, b: &str) -> (r: bool)
    ensures
        r == (a@ == b@),
{
    let x = chars_of(a);
    let y = chars_of(b);
    if x.len() != y.len() {
        return false;
    }
    let mut i: usize = 0;
    while i < x.len()
        invariant
            i <= x@.len() == y@.len(),
            x@ == a@,
            y@ == b@,
            forall|j: int| 0 <= j < i ==> x@[j] == y@[j],
        decreases x@.len() - i,
    {
        if x[i] != y[i] {
            return false;
        }
        i = i + 1;
    }
    proof {
        assert(x@ == y@);
    }
    true
}

/// The characters of an optional string.
pub open spec fn opt_text(s: Option<&str>) -> Option<Seq<char>> {
    match s {
        Some(s) => Some(s@),
        None => None,
    }
}

/// Appends one character: `String::push` adds it at the end of the string.
pub assume_specification[ String::push ](s: &mut String, c: char)
    ensures
        final(s)@ == old(s)@.push(c),
;

/// The string made of the given characters.
pub fn string_of(chars: &[char]) -> (r: String)
    ensures
        r@ == chars@,
{
    let mut r = String::new();
    let mut i: usize = 0;
    while i < chars.len()
        invariant
            i <= chars@.len(),
            r@ == chars@.take(i as int),
        decreases chars@.len() - i,
    {
        r.push(chars[i]);
        i = i + 1;
        proof {
            assert(chars@.take(i as int) == chars@.take(i - 1).push(chars@[i - 1]));
        }
    }
    proof {
        assert(chars@.take(chars@.len() as int) == chars@);
    }
    r
}

/// The decimal digit of a value below ten.
pub open spec fn digit_char(d: nat) -> char {
    (48 + d) as char
}

/// The decimal text of a number, without leading zeros.
pub open spec fn decimal(n: nat) -> Seq<char>
    decreases n,
{
    if n < 10 {
        seq![digit_char(n)]
    } else {
        decimal(n / 10).push(digit_char(n % 10))
    }
}

/// The decimal text of a number, as a string.
pub fn decimal_text(n: u64) -> (r: String)
    ensures
        r@ == decimal(n as nat),
    decreases n,
{
    let d: u8 = (n % 10) as u8;
    let c: char = (48u8 + d) as char;
    proof {
        assert(c == digit_char((n % 10) as nat));
    }
    let mut r = if n < 10 {
        String::new()
    } else {
        decimal_text(n / 10)
    };
    r.push(c);
    r
}

/// Is the character an ASCII decimal digit?
pub open spec fn is_digit(c: char) -> bool {
    '0' <= c <= '9'
}

/// Are all characters ASCII decimal digits?
pub open spec fn all_digits(s: Seq<char>) -> bool {
    forall|i: int| 0 <= i < s.len() ==> is_digit(#[trigger] s[i])
}

/// The number that a text of decimal digits stands for.
pub open spec fn digits_value(s: Seq<char>) -> nat
    decreases s.len(),
{
    if s.len() == 0 {
        0
    } else {
        digits_value(s.drop_last()) * 10 + (s.last() as nat - 48) as nat
    }
}

/// What is left of a number's text once one leading plus sign is dropped.
pub open spec fn without_plus(s: Seq<char>) -> Seq<char> {
    if s.len() > 0 && s[0] == '+' {
        s.drop_first()
    } else {
        s
    }
}

/// The unsigned number that a text stands for: an optional plus sign, then at
/// least one digit and nothing else, with a value of at most `max`.
pub open spec fn parsed_number(s: Seq<char>, max: nat) -> Option<nat> {
    let d = without_plus(s);
    if d.len() > 0 && all_digits(d) && digits_value(d) <= max {
        Some(digits_value(d))
    } else {
        None
    }
}

proof fn lemma_prefix_value(s: Seq<char>, n: int)
    requires
        0 <= n <= s.len(),
    ensures
        digits_value(s.take(n)) <= digits_value(s),
    decreases s.len() - n,
{
    if n < s.len() {
        lemma_prefix_value(s, n + 1);
        assert(s.take(n + 1).drop_last() == s.take(n));
    } else {
        assert(s.take(n) == s);
    }
}

/// Parses an unsigned number.
pub fn parse_u64(s: &[char]) -> (r: Option<u64>)
    ensures
        match r {
            Some(v) => parsed_number(s@, u64::MAX as nat) == Some(v as nat),
            None => parsed_number(s@, u64::MAX as nat) is None,
        },
{
    let start: usize = if s.len() > 0 && s[0] == '+' { 1 } else { 0 };
    let ghost d = without_plus(s@);
    proof {
        assert(d == s@.skip(start as int));
        assert(d.take(0) == Seq::<char>::empty());
    }
    if start == s.len() {
        return None;
    }
    let mut v: u64 = 0;
    let mut i: usize = start;
    while i < s.len()
        invariant
            start <= i <= s@.len(),
            d == s@.skip(start as int),
            d == without_plus(s@),
            forall|j: int| 0 <= j < i - start ==> is_digit(#[trigger] d[j]),
            v == digits_value(d.take(i - start)),
        decreases s@.len() - i,
    {
        let c = s[i];
        proof {
            assert(c == d[i - start]);
            assert(d.take(i - start + 1).drop_last() == d.take(i - start));
            lemma_prefix_value(d, i - start + 1);
        }
        if c < '0' || c > '9' {
            return None;
        }
        let x: u64 = (c as u64) - 48;
        if v > (u64::MAX - x) / 10 {
            return None;
        }
        v = v * 10 + x;
        i = i + 1;
    }
    proof {
        assert(d.take(d.len() as int) == d);
    }
    Some(v)
}

/// Parses an unsigned number that has to fit in a `usize`.
pub fn parse_usize(s: &[char]) -> (r: Option<usize>)
    ensures
        match r {
            Some(v) => parsed_number(s@, usize::MAX as nat) == Some(v as nat),
            None => parsed_number(s@, usize::MAX as nat) is None,
        },
{
    match parse_u64(s) {
        Some(v) => if v <= usize::MAX as u64 {
            Some(v as usize)
        } else {
            None
        },
        None => None,
    }
}

/// Every number is read back from its decimal text.
pub proof fn law_number_round_trip(n: nat, max: nat)
    requires
        n <= max,
    ensures
        parsed_number(decimal(n), max) == Some(n),
{
    lemma_decimal_digits(n);
    assert(is_digit(decimal(n)[0]));
}

/// A decimal text has at least one character, consists of digits and has the
/// value it was made from.
pub proof fn lemma_decimal_digits(n: nat)
    ensures
        decimal(n).len() > 0,
        all_digits(decimal(n)),
        digits_value(decimal(n)) == n,
    decreases n,
{
    if n < 10 {
        reveal_with_fuel(digits_value, 2);
    } else {
        lemma_decimal_digits(n / 10);
        assert(decimal(n).drop_last() == decimal(n / 10));
    }
}

/// Different numbers have different decimal texts.
pub proof fn lemma_decimal_injective(m: nat, n: nat)
    requires
        decimal(m) == decimal(n),
    ensures
        m == n,
{
    lemma_decimal_digits(m);
    lemma_decimal_digits(n);
}

/// Does the character have the Unicode property `White_Space`?
pub open spec fn is_white_space(c: char) -> bool {
    let u = c as u32;
    ||| 0x9 <= u <= 0xd
    ||| u == 0x20
    ||| u == 0x85
    ||| u == 0xa0
    ||| u == 0x1680
    ||| 0x2000 <= u <= 0x200a
    ||| u == 0x2028
    ||| u == 0x2029
    ||| u == 0x202f
    ||| u == 0x205f
    ||| u == 0x3000
}

/// What is stripped from both ends of a text.
#[derive(Clone, Copy)]
pub enum Strip {
    /// Full stops.
    Dots,
    /// Unicode white space.
    WhiteSpace,
}

impl Strip {
    /// Is the character one of those that are stripped?
    pub open spec fn takes(self, c: char) -> bool {
        match self {
            Strip::Dots => c == '.',
            Strip::WhiteSpace => is_white_space(c),
        }
    }

    fn hits(self, c: char) -> (r: bool)
        ensures
            r == self.takes(c),
    {
        match self {
            Strip::Dots => c == '.',
            Strip::WhiteSpace => {
                let u: u32 = c as u32;
                (0x9 <= u && u <= 0xd) || u == 0x20 || u == 0x85 || u == 0xa0 || u == 0x1680 || (
                0x2000 <= u && u <= 0x200a) || u == 0x2028 || u == 0x2029 || u == 0x202f || u
                    == 0x205f || u == 0x3000
            },
        }
    }
}

/// The text without the stripped characters at its start.
pub open spec fn strip_front(s: Seq<char>, k: Strip) -> Seq<char>
    decreases s.len(),
{
    if s.len() > 0 && k.takes(s[0]) {
        strip_front(s.drop_first(), k)
    } else {
        s
    }
}

/// The text without the stripped characters at its end.
pub open spec fn strip_back(s: Seq<char>, k: Strip) -> Seq<char>
    decreases s.len(),
{
    if s.len() > 0 && k.takes(s.last()) {
        strip_back(s.drop_last(), k)
    } else {
        s
    }
}

/// The text without the stripped characters at either end.
pub open spec fn stripped(s: Seq<char>, k: Strip) -> Seq<char> {
    strip_back(strip_front(s, k), k)
}

/// Strips both ends of a text.
pub fn strip(s: &[char], k: Strip) -> (r: Vec<char>)
    ensures
        r@ == stripped(s@, k),
{
    let mut lo: usize = 0;
    proof {
        assert(s@.skip(0) == s@);
    }
    while lo < s.len() && k.hits(s[lo])
        invariant
            lo <= s@.len(),
            strip_front(s@.skip(lo as int), k) == strip_front(s@, k),
        decreases s@.len() - lo,
    {
        proof {
            assert(s@.skip(lo as int).drop_first() == s@.skip(lo + 1));
        }
        lo = lo + 1;
    }
    proof {
        assert(strip_front(s@, k) == s@.skip(lo as int));
        assert(s@.skip(lo as int) == s@.subrange(lo as int, s@.len() as int));
    }
    let mut hi: usize = s.len();
    while hi > lo && k.hits(s[hi - 1])
        invariant
            lo <= hi <= s@.len(),
            strip_back(s@.subrange(lo as int, hi as int), k) == stripped(s@, k),
        decreases hi,
    {
        proof {
            assert(s@.subrange(lo as int, hi as int).drop_last() == s@.subrange(
                lo as int,
                hi - 1,
            ));
        }
        hi = hi - 1;
    }
    vstd::slice::slice_to_vec(vstd::slice::slice_subrange(s, lo, hi))
}

/// Text that neither starts nor ends with a character to strip stays whole.
pub proof fn lemma_nothing_to_strip(s: Seq<char>, k: Strip)
    requires
        s.len() > 0 ==> !k.takes(s[0]) && !k.takes(s.last()),
    ensures
        stripped(s, k) == s,
{
}

/// A stripped text is part of the text, and neither starts nor ends with a
/// character that is stripped.
pub proof fn lemma_stripped(s: Seq<char>, k: Strip)
    ensures
        stripped(s, k).len() <= s.len(),
        stripped(s, k).len() > 0 ==> !k.takes(stripped(s, k)[0]) && !k.takes(stripped(s, k).last()),
        forall|c: char| stripped(s, k).contains(c) ==> #[trigger] s.contains(c),
{
    lemma_strip_front(s, k);
    lemma_strip_back(strip_front(s, k), k);
}

proof fn lemma_strip_front(s: Seq<char>, k: Strip)
    ensures
        strip_front(s, k).len() <= s.len(),
        strip_front(s, k).len() > 0 ==> !k.takes(strip_front(s, k)[0]),
        forall|c: char| strip_front(s, k).contains(c) ==> #[trigger] s.contains(c),
    decreases s.len(),
{
    if s.len() > 0 && k.takes(s[0]) {
        lemma_strip_front(s.drop_first(), k);
        assert forall|c: char| strip_front(s, k).contains(c) implies #[trigger] s.contains(c) by {
            let t = s.drop_first();
            assert(t.contains(c));
            let i = choose|i: int| 0 <= i < t.len() && t[i] == c;
            assert(s[i + 1] == c);
        }
    }
}

proof fn lemma_strip_back(s: Seq<char>, k: Strip)
    ensures
        strip_back(s, k).len() <= s.len(),
        strip_back(s, k).len() > 0 ==> !k.takes(strip_back(s, k).last()) && strip_back(s, k)[0]
            == s[0],
        forall|c: char| strip_back(s, k).contains(c) ==> #[trigger] s.contains(c),
    decreases s.len(),
{
    if s.len() > 0 && k.takes(s.last()) {
        lemma_strip_back(s.drop_last(), k);
        assert forall|c: char| strip_back(s, k).contains(c) implies #[trigger] s.contains(c) by {
            let t = s.drop_last();
            assert(t.contains(c));
            let i = choose|i: int| 0 <= i < t.len() && t[i] == c;
            assert(s[i] == c);
        }
    }
}

/// A string that is there is taken with all of its characters.
pub proof fn law_opt_text(s: &str)
    ensures
        opt_text(Some(s)) == Some(s@),
        opt_text(None) is None,
{
}

/// A digit is written as one character, and a further digit at the end of a
/// number's text makes the number ten times as large and adds the digit.
pub proof fn law_decimal_grows(n: nat, d: nat)
    requires
        d < 10,
    ensures
        decimal(d).len() == 1,
        decimal(d)[0] as int == '0' as int + d,
        n > 0 ==> decimal(10 * n + d) == decimal(n) + decimal(d),
{
    assert((48 + d) as char as int == 48 + d);
    if n > 0 {
        assert((10 * n + d) / 10 == n && (10 * n + d) % 10 == d);
        assert(decimal(n) + seq![digit_char(d)] == decimal(n).push(digit_char(d)));
    }
}

/// One digit stands for its value, and a further digit at the end of a number's
/// text makes the number ten times as large and adds the digit, as long as it
/// does not get too large. A plus sign before a digit changes nothing.
pub proof fn law_number_grows(s: Seq<char>, c: char, max: nat)
    requires
        '0' <= c <= '9',
    ensures
        ({
            let d = (c as int - '0' as int) as nat;
            let one = if d <= max {
                Some(d)
            } else {
                None
            };
            &&& parsed_number(seq![c], max) == one
            &&& parsed_number(seq!['+', c], max) == one
            &&& s.len() > 0 && s != seq!['+'] ==> parsed_number(s.push(c), max) == (
            match parsed_number(s, max) {
                Some(v) if 10 * v + d <= max => Some(10 * v + d),
                _ => None,
            })
        }),
{
    let d = (c as int - '0' as int) as nat;
    reveal_with_fuel(digits_value, 2);
    let one = seq![c];
    let plus = seq!['+', c];
    assert(without_plus(one) == one);
    assert(plus.drop_first() == one);
    assert(one.drop_last() == Seq::<char>::empty());
    assert(is_digit(one[0]));
    assert(all_digits(one));
    assert(digits_value(one) == d);
    if s.len() > 0 && s != seq!['+'] {
        let t = s.push(c);
        let u = without_plus(s);
        let w = without_plus(t);
        assert(w == u.push(c)) by {
            if s[0] == '+' {
                assert(t.drop_first() == s.drop_first().push(c));
            }
        }
        if u.len() == 0 {
            assert(s.len() == 1 && s[0] == '+');
            assert(s == seq!['+']);
        }
        assert(w.drop_last() == u);
        if all_digits(u) {
            assert(all_digits(w));
        } else {
            let i = choose|i: int| 0 <= i < u.len() && !is_digit(u[i]);
            assert(!is_digit(w[i]));
        }
    }
}

/// A text is no number if it is empty or has any character that is no digit,
/// other than a plus sign before something else.
pub proof fn law_not_a_number(s: Seq<char>, i: int, max: nat)
    requires
        s.len() == 0 || {
            &&& 0 <= i < s.len()
            &&& !('0' <= s[i] <= '9')
            &&& i == 0 && s[0] == '+' ==> s.len() == 1
        },
    ensures
        parsed_number(s, max) is None,
{
    if s.len() > 0 {
        let u = without_plus(s);
        if s[0] == '+' {
            if i > 0 {
                assert(u[i - 1] == s[i]);
                assert(!is_digit(u[i - 1]));
            }
        } else {
            assert(!is_digit(u[i]));
        }
    }
}

/// White space are exactly the characters that Unicode lists as such, and full
/// stops are stripped where full stops are asked for.
pub proof fn law_stripped_characters(c: char)
    ensures
        Strip::Dots.takes(c) <==> c == '.',
        Strip::WhiteSpace.takes(c) <==> is_white_space(c),
        is_white_space(c) <==> {
            ||| '\u{9}' <= c <= '\u{d}'
            ||| c == ' '
            ||| c == '\u{85}'
            ||| c == '\u{a0}'
            ||| c == '\u{1680}'
            ||| '\u{2000}' <= c <= '\u{200a}'
            ||| '\u{2028}' <= c <= '\u{2029}'
            ||| c == '\u{202f}'
            ||| c == '\u{205f}'
            ||| c == '\u{3000}'
        },
{
}

/// What is stripped is all that is to be stripped at both ends, and nothing
/// else.
pub proof fn law_stripped(a: Seq<char>, t: Seq<char>, b: Seq<char>, k: Strip)
    requires
        forall|i: int| 0 <= i < a.len() ==> k.takes(#[trigger] a[i]),
        forall|i: int| 0 <= i < b.len() ==> k.takes(#[trigger] b[i]),
        t.len() > 0 ==> !k.takes(t[0]) && !k.takes(t.last()),
    ensures
        stripped(a + t + b, k) == t,
    decreases a.len() + b.len(),
{
    let s = a + t + b;
    if a.len() > 0 {
        assert(s[0] == a[0]);
        assert(s.drop_first() == a.drop_first() + t + b);
        assert forall|i: int| 0 <= i < a.drop_first().len() implies k.takes(
            #[trigger] a.drop_first()[i],
        ) by {
            assert(k.takes(a[i + 1]));
        }
        law_stripped(a.drop_first(), t, b, k);
    } else if t.len() == 0 {
        assert(s == b);
        lemma_strip_all(b, k);
        assert(t == Seq::<char>::empty());
    } else {
        assert(s == t + b);
        assert(s[0] == t[0]);
        lemma_strip_tail(t, b, k);
    }
}

proof fn lemma_strip_all(b: Seq<char>, k: Strip)
    requires
        forall|i: int| 0 <= i < b.len() ==> k.takes(#[trigger] b[i]),
    ensures
        strip_front(b, k) == Seq::<char>::empty(),
        stripped(b, k) == Seq::<char>::empty(),
    decreases b.len(),
{
    if b.len() > 0 {
        assert forall|i: int| 0 <= i < b.drop_first().len() implies k.takes(
            #[trigger] b.drop_first()[i],
        ) by {
            assert(k.takes(b[i + 1]));
        }
        lemma_strip_all(b.drop_first(), k);
    } else {
        assert(b == Seq::<char>::empty());
    }
}

proof fn lemma_strip_tail(t: Seq<char>, b: Seq<char>, k: Strip)
    requires
        forall|i: int| 0 <= i < b.len() ==> k.takes(#[trigger] b[i]),
        t.len() > 0,
        !k.takes(t.last()),
    ensures
        strip_back(t + b, k) == t,
    decreases b.len(),
{
    let s = t + b;
    if b.len() > 0 {
        assert(s.last() == b.last());
        assert(s.drop_last() == t + b.drop_last());
        lemma_strip_tail(t, b.drop_last(), k);
    } else {
        assert(s == t);
    }
}

} // verus!
