//! HTTP byte ranges.

use crate::http::{
    no_fields, range_text, Fields, outcome, AppError, ErrorView, HeaderField, OK, PARTIAL_CONTENT,
    RANGE_NOT_SATISFIABLE,
};
use crate::text::{
    chars_of, decimal, decimal_text, is_white_space, opt_text, parse_u64, parsed_number, strip, Strip,
};
use vstd::prelude::*;
use vstd::utf8::encode_utf8;

verus! {

/// How the service says the size of a file whose range it refuses.
pub open spec fn unsatisfied_range(total: u64) -> Seq<char> {
    "bytes */"@ + crate::text::decimal(total as nat)
}

/// The answer to a range that cannot be served.
pub open spec fn range_error(total: u64, detail: Seq<char>) -> ErrorView {
    ErrorView {
        status: RANGE_NOT_SATISFIABLE,
        detail,
        headers: no_fields().insert(
            HeaderField::ContentRange.name(),
            seq![vstd::utf8::encode_utf8(unsatisfied_range(total))],
        ),
    }
}

/// The position of the first hyphen, or the length of the text if it has none.
pub open spec fn first_hyphen(s: Seq<char>) -> nat
    decreases s.len(),
{
    if s.len() == 0 || s[0] == '-' {
        0
    } else {
        1 + first_hyphen(s.drop_first())
    }
}

/// The number in a text, if there is one that fits in 64 bits.
pub open spec fn number(s: Seq<char>) -> Option<nat> {
    crate::text::parsed_number(s, u64::MAX as nat)
}

/// The bytes that a range specification asks for: `bytes=`, then the first
/// and the last position with a hyphen between them. Without the last position
/// the range goes to the end of the file; without the first one the other
/// number counts the bytes from the end.
pub open spec fn requested_range(spec: Seq<char>, total: u64) -> Result<
    (u16, u64, u64),
    ErrorView,
> {
    let raw = spec.skip(6);
    let hyphen = first_hyphen(raw) as int;
    if spec.len() < 6 || spec.take(6) != "bytes="@ || hyphen == raw.len() {
        Err(range_error(total, "invalid range"@))
    } else if hyphen == 0 {
        match number(raw.skip(1)) {
            Some(n) if n > 0 => Ok(
                (
                    PARTIAL_CONTENT,
                    (if n < total { total - n } else { 0 }) as u64,
                    (total - 1) as u64,
                ),
            ),
            _ => Err(range_error(total, "range not satisfiable"@)),
        }
    } else {
        let last = if hyphen + 1 == raw.len() {
            Some((total - 1) as nat)
        } else {
            number(raw.skip(hyphen + 1))
        };
        match (number(raw.take(hyphen)), last) {
            (Some(first), Some(last)) => if first < total && first <= last {
                Ok(
                    (
                        PARTIAL_CONTENT,
                        first as u64,
                        (if last < total { last as int } else { total - 1 }) as u64,
                    ),
                )
            } else {
                Err(range_error(total, "range not satisfiable"@))
            },
            _ => Err(range_error(total, "invalid range"@)),
        }
    }
}

/// The status and the first and last position of the bytes to send of a file
/// of `total` bytes, or the refusal. An empty file has no last position: it is
/// sent whole whatever was asked for.
pub open spec fn range_outcome(header: Option<Seq<char>>, total: u64) -> Result<
    (u16, u64, u64),
    ErrorView,
> {
    if total == 0 {
        Ok((OK, 0, 0))
    } else {
        match header {
            None => Ok((OK, 0, (total - 1) as u64)),
            Some(text) => requested_range(crate::text::stripped(text, Strip::WhiteSpace), total),
        }
    }
}

proof fn lemma_unsatisfied_range_visible(total: u64)
    ensures
        crate::http::is_value_text(unsatisfied_range(total)),
{
    reveal_strlit("bytes */");
    crate::text::lemma_decimal_digits(total as nat);
    let d = crate::text::decimal(total as nat);
    let s = unsatisfied_range(total);
    assert forall|i: int| 0 <= i < s.len() implies ' ' <= #[trigger] s[i] <= '~' by {
        if i >= 8 {
            assert(s[i] == d[i - 8]);
            assert(crate::text::is_digit(d[i - 8]));
        }
    }
    crate::http::lemma_visible_value(s);
}

fn refuse(total: u64, detail: &str) -> (e: AppError)
    ensures
        e@ == range_error(total, detail@),
{
    let mut value = "bytes */".to_owned();
    value.append(decimal_text(total).as_str());
    let e = AppError::new(RANGE_NOT_SATISFIABLE, detail);
    proof {
        lemma_unsatisfied_range_visible(total);
    }
    e.with_header(HeaderField::ContentRange, value.as_str())
}

fn starts_with(s: &[char], prefix: &[char]) -> (r: bool)
    ensures
        r == (s@.len() >= prefix@.len() && s@.take(prefix@.len() as int) == prefix@),
{
    if s.len() < prefix.len() {
        return false;
    }
    let mut i: usize = 0;
    while i < prefix.len()
        invariant
            i <= prefix@.len() <= s@.len(),
            forall|j: int| 0 <= j < i ==> s@[j] == prefix@[j],
        decreases prefix@.len() - i,
    {
        if s[i] != prefix[i] {
            proof {
                assert(s@.take(prefix@.len() as int)[i as int] != prefix@[i as int]);
            }
            return false;
        }
        i = i + 1;
    }
    proof {
        assert(s@.take(prefix@.len() as int) == prefix@);
    }
    true
}

fn find_hyphen(s: &[char]) -> (r: usize)
    ensures
        r == first_hyphen(s@),
        r <= s@.len(),
{
    let mut i: usize = 0;
    proof {
        assert(s@.skip(0) == s@);
    }
    while i < s.len() && s[i] != '-'
        invariant
            i <= s@.len(),
            first_hyphen(s@) == i + first_hyphen(s@.skip(i as int)),
        decreases s@.len() - i,
    {
        proof {
            assert(s@.skip(i as int).drop_first() == s@.skip(i + 1));
        }
        i = i + 1;
    }
    i
}

/// Decides which bytes of a file of `total` bytes a request is answered with.
pub fn parse_range(range_header: Option<&str>, total: u64) -> (r: Result<
    (u16, u64, u64),
    AppError,
>)
    ensures
        outcome(r) == range_outcome(opt_text(range_header), total),
{
    if total == 0 {
        return Ok((OK, 0, 0));
    }
    let range = match range_header {
        Some(range) => range,
        None => {
            return Ok((OK, 0, total - 1));
        },
    };
    let all = chars_of(range);
    let spec = strip(all.as_slice(), Strip::WhiteSpace);
    let unit = chars_of("bytes=");
    proof {
        reveal_strlit("bytes=");
    }
    if !starts_with(spec.as_slice(), unit.as_slice()) {
        return Err(refuse(total, "invalid range"));
    }
    let raw = vstd::slice::slice_subrange(spec.as_slice(), 6, spec.len());
    proof {
        assert(raw@ == spec@.skip(6));
    }
    let hyphen: usize = find_hyphen(raw);
    if hyphen == raw.len() {
        return Err(refuse(total, "invalid range"));
    }
    let raw_start = vstd::slice::slice_subrange(raw, 0, hyphen);
    let raw_end = vstd::slice::slice_subrange(raw, hyphen + 1, raw.len());
    proof {
        assert(raw_start@ == raw@.take(hyphen as int));
        assert(raw_end@ == raw@.skip(hyphen + 1));
    }
    if raw_start.len() == 0 {
        let length: u64 = match parse_u64(raw_end) {
            Some(n) => n,
            None => 0,
        };
        if length == 0 {
            return Err(refuse(total, "range not satisfiable"));
        }
        return Ok((PARTIAL_CONTENT, total.saturating_sub(length), total - 1));
    }
    let start: u64 = match parse_u64(raw_start) {
        Some(n) => n,
        None => {
            return Err(refuse(total, "invalid range"));
        },
    };
    let last: u64 = if raw_end.len() == 0 {
        total - 1
    } else {
        match parse_u64(raw_end) {
            Some(n) => n,
            None => {
                return Err(refuse(total, "invalid range"));
            },
        }
    };
    let end: u64 = if last < total {
        last
    } else {
        total - 1
    };
    if start >= total || end < start {
        return Err(refuse(total, "range not satisfiable"));
    }
    Ok((PARTIAL_CONTENT, start, end))
}

/// What is sent lies within the file: a file with content is sent whole, with
/// the status for it, exactly when no range was asked for, and otherwise in
/// part, from a first to a last position that it has.
pub proof fn law_range_within_file(header: Option<Seq<char>>, total: u64)
    requires
        total > 0,
    ensures
        match range_outcome(header, total) {
            Ok((status, start, end)) => {
                &&& start <= end < total
                &&& header is None <==> status == OK
                &&& header is Some <==> status == PARTIAL_CONTENT
                &&& header is None ==> start == 0 && end == total - 1
            },
            Err(e) => header is Some && e.status == RANGE_NOT_SATISFIABLE,
        },
{
}

/// White space around a range does not matter.
pub proof fn law_space_around_range(text: Seq<char>, total: u64)
    ensures
        range_outcome(Some(text), total) == range_outcome(
            Some(crate::text::stripped(text, Strip::WhiteSpace)),
            total,
        ),
{
    crate::text::lemma_stripped(text, Strip::WhiteSpace);
    crate::text::lemma_nothing_to_strip(
        crate::text::stripped(text, Strip::WhiteSpace),
        Strip::WhiteSpace,
    );
}

proof fn lemma_first_hyphen(s: Seq<char>, t: Seq<char>)
    requires
        forall|i: int| 0 <= i < s.len() ==> #[trigger] s[i] != '-',
    ensures
        first_hyphen(s + seq!['-'] + t) == s.len(),
    decreases s.len(),
{
    let all = s + seq!['-'] + t;
    if s.len() == 0 {
        assert(all[0] == '-');
    } else {
        assert(all[0] == s[0]);
        assert(all.drop_first() == s.drop_first() + seq!['-'] + t);
        lemma_first_hyphen(s.drop_first(), t);
    }
}

/// The text of a range specification made of two parts.
pub open spec fn range_spec(first: Seq<char>, last: Seq<char>) -> Seq<char> {
    "bytes="@ + (first + seq!['-'] + last)
}

proof fn lemma_range_spec(first: Seq<char>, last: Seq<char>)
    requires
        crate::text::all_digits(first),
        crate::text::all_digits(last),
    ensures
        crate::text::stripped(range_spec(first, last), Strip::WhiteSpace) == range_spec(first, last),
        range_spec(first, last).len() >= 7,
        range_spec(first, last).take(6) == "bytes="@,
        range_spec(first, last).skip(6) == first + seq!['-'] + last,
        first_hyphen(first + seq!['-'] + last) == first.len(),
        (first + seq!['-'] + last).take(first.len() as int) == first,
        (first + seq!['-'] + last).skip(first.len() as int + 1) == last,
{
    reveal_strlit("bytes=");
    let raw = first + seq!['-'] + last;
    let spec = range_spec(first, last);
    assert(spec.take(6) == "bytes="@);
    assert(spec.skip(6) == raw);
    assert(raw.take(first.len() as int) == first);
    assert(raw.skip(first.len() as int + 1) == last);
    assert(spec[0] == 'b');
    if last.len() > 0 {
        assert(spec.last() == last.last());
        assert(crate::text::is_digit(last[last.len() - 1]));
    } else {
        assert(spec.last() == '-');
    }
    crate::text::lemma_nothing_to_strip(spec, Strip::WhiteSpace);
    assert forall|i: int| 0 <= i < first.len() implies #[trigger] first[i] != '-' by {
        assert(crate::text::is_digit(first[i]));
    }
    lemma_first_hyphen(first, last);
}

/// A request for the positions from `first` to `last` gets exactly those that
/// the file has; it is refused when there are none.
pub proof fn law_first_to_last(first: u64, last: u64, total: u64)
    requires
        total > 0,
    ensures
        range_outcome(
            Some(
                range_spec(
                    crate::text::decimal(first as nat),
                    crate::text::decimal(last as nat),
                ),
            ),
            total,
        ) == (if first < total && first <= last {
            Ok::<(u16, u64, u64), ErrorView>(
                (
                    PARTIAL_CONTENT,
                    first,
                    if last < total {
                        last
                    } else {
                        (total - 1) as u64
                    },
                ),
            )
        } else {
            Err(range_error(total, "range not satisfiable"@))
        }),
{
    let a = crate::text::decimal(first as nat);
    let b = crate::text::decimal(last as nat);
    crate::text::lemma_decimal_digits(first as nat);
    crate::text::lemma_decimal_digits(last as nat);
    crate::text::law_number_round_trip(first as nat, u64::MAX as nat);
    crate::text::law_number_round_trip(last as nat, u64::MAX as nat);
    lemma_range_spec(a, b);
}

/// A request without a last position gets everything from the first one on.
pub proof fn law_first_to_end(first: u64, total: u64)
    requires
        total > 0,
    ensures
        range_outcome(
            Some(range_spec(crate::text::decimal(first as nat), Seq::empty())),
            total,
        ) == (if first < total {
            Ok::<(u16, u64, u64), ErrorView>((PARTIAL_CONTENT, first, (total - 1) as u64))
        } else {
            Err(range_error(total, "range not satisfiable"@))
        }),
{
    crate::text::lemma_decimal_digits(first as nat);
    crate::text::law_number_round_trip(first as nat, u64::MAX as nat);
    lemma_range_spec(crate::text::decimal(first as nat), Seq::empty());
}

/// A request for the last `n` bytes gets them, or the whole file in part
/// status if it has no more than those; a request for none is refused.
pub proof fn law_last_bytes(n: u64, total: u64)
    requires
        total > 0,
    ensures
        range_outcome(
            Some(range_spec(Seq::empty(), crate::text::decimal(n as nat))),
            total,
        ) == (if n > 0 {
            Ok::<(u16, u64, u64), ErrorView>(
                (
                    PARTIAL_CONTENT,
                    if n < total {
                        (total - n) as u64
                    } else {
                        0
                    },
                    (total - 1) as u64,
                ),
            )
        } else {
            Err(range_error(total, "range not satisfiable"@))
        }),
{
    crate::text::lemma_decimal_digits(n as nat);
    crate::text::law_number_round_trip(n as nat, u64::MAX as nat);
    lemma_range_spec(Seq::empty(), crate::text::decimal(n as nat));
    let raw = Seq::<char>::empty() + seq!['-'] + crate::text::decimal(n as nat);
    assert(raw.skip(1) == crate::text::decimal(n as nat));
}

proof fn lemma_stripped_range(l: Seq<char>, t: Seq<char>, r: Seq<char>)
    requires
        forall|i: int| 0 <= i < l.len() ==> is_white_space(#[trigger] l[i]),
        forall|i: int| 0 <= i < r.len() ==> is_white_space(#[trigger] r[i]),
        t.len() > 0 ==> !is_white_space(t[0]) && !is_white_space(t.last()),
    ensures
        crate::text::stripped(l + t + r, Strip::WhiteSpace) == t,
{
    assert forall|i: int| 0 <= i < l.len() implies Strip::WhiteSpace.takes(#[trigger] l[i]) by {
        assert(is_white_space(l[i]));
    }
    assert forall|i: int| 0 <= i < r.len() implies Strip::WhiteSpace.takes(#[trigger] r[i]) by {
        assert(is_white_space(r[i]));
    }
    crate::text::law_stripped(l, t, r, Strip::WhiteSpace);
}

/// A range with its first position, its last position or both gets exactly the
/// bytes that it asks for and the file has. It is refused when a position is no
/// number or when there are no such bytes, with the size of the file, whatever
/// the numbers are and whatever space is around it.
pub proof fn law_range_asked_for(
    l: Seq<char>,
    first: Seq<char>,
    last: Seq<char>,
    r: Seq<char>,
    total: u64,
    name: Seq<char>,
)
    requires
        total > 0,
        forall|i: int| 0 <= i < l.len() ==> is_white_space(#[trigger] l[i]),
        forall|i: int| 0 <= i < r.len() ==> is_white_space(#[trigger] r[i]),
        forall|i: int| 0 <= i < first.len() ==> #[trigger] first[i] != '-',
        last.len() > 0 ==> !is_white_space(last.last()),
    ensures
        ({
            let a = parsed_number(first, u64::MAX as nat);
            let b = parsed_number(last, u64::MAX as nat);
            match range_outcome(Some(l + ("bytes="@ + first + "-"@ + last) + r), total) {
                Ok((status, start, end)) => {
                    &&& status == 206
                    &&& start <= end < total
                    &&& first.len() == 0 ==> (b matches Some(n) && n > 0 && end == total - 1 && (
                    start == total - n || (start == 0 && n >= total)))
                    &&& first.len() > 0 ==> a == Some(start as nat)
                    &&& first.len() > 0 && last.len() == 0 ==> end == total - 1
                    &&& first.len() > 0 && last.len() > 0 ==> (b matches Some(n) && (n == end || (n
                        >= total && end == total - 1)))
                },
                Err(e) => {
                    &&& e.status == 416
                    &&& e.headers.contains_key(name) <==> name == "content-range"@
                    &&& e.headers["content-range"@] == seq![
                        encode_utf8("bytes */"@ + decimal(total as nat)),
                    ]
                    &&& first.len() == 0 ==> e.detail == "range not satisfiable"@ && (b is None || b
                        == Some(0nat))
                    &&& first.len() > 0 && (a is None || (last.len() > 0 && b is None)) ==> e.detail
                        == "invalid range"@
                    &&& first.len() > 0 && a is Some && (last.len() > 0 ==> b is Some) ==> e.detail
                        == "range not satisfiable"@ && (a->0 >= total || (last.len() > 0 && b->0
                        < a->0))
                },
            }
        }),
{
    reveal_strlit("bytes=");
    reveal_strlit("-");
    let raw = first + seq!['-'] + last;
    let spec = "bytes="@ + first + "-"@ + last;
    assert(spec == "bytes="@ + raw);
    assert(spec[0] == 'b');
    assert(spec.last() == (if last.len() > 0 {
        last.last()
    } else {
        '-'
    }));
    lemma_stripped_range(l, spec, r);
    lemma_first_hyphen(first, last);
    assert(spec.take(6) == "bytes="@);
    assert(spec.skip(6) == raw);
    assert(raw.take(first.len() as int) == first);
    assert(raw.skip(first.len() as int + 1) == last);
}

/// What does not say `bytes=` first, or has no hyphen after it, is refused.
pub proof fn law_no_range(l: Seq<char>, t: Seq<char>, r: Seq<char>, total: u64, name: Seq<char>)
    requires
        total > 0,
        forall|i: int| 0 <= i < l.len() ==> is_white_space(#[trigger] l[i]),
        forall|i: int| 0 <= i < r.len() ==> is_white_space(#[trigger] r[i]),
        t.len() > 0 ==> !is_white_space(t[0]) && !is_white_space(t.last()),
        t.len() < 6 || t.take(6) != "bytes="@ || !t.skip(6).contains('-'),
    ensures
        range_outcome(Some(l + t + r), total) matches Err(e) && {
            &&& e.status == 416
            &&& e.detail == "invalid range"@
            &&& e.headers.contains_key(name) <==> name == "content-range"@
            &&& e.headers["content-range"@] == seq![
                encode_utf8("bytes */"@ + decimal(total as nat)),
            ]
        },
{
    lemma_stripped_range(l, t, r);
    if t.len() >= 6 && !t.skip(6).contains('-') {
        lemma_no_hyphen(t.skip(6));
    }
}

proof fn lemma_no_hyphen(s: Seq<char>)
    requires
        !s.contains('-'),
    ensures
        first_hyphen(s) == s.len(),
    decreases s.len(),
{
    if s.len() > 0 {
        assert(s.contains(s[0]));
        assert forall|i: int| 0 <= i < s.drop_first().len() implies s.drop_first()[i] != '-' by {
            assert(s.contains(s[i + 1]));
        }
        lemma_no_hyphen(s.drop_first());
    }
}

/// Without a range the whole file is sent, from its first to its last position,
/// and an empty file is sent whole in any case.
pub proof fn law_whole_file(header: Option<Seq<char>>, total: u64)
    ensures
        total > 0 ==> range_outcome(None, total) == Ok::<(u16, u64, u64), ErrorView>(
            (200, 0, (total - 1) as u64),
        ),
        range_outcome(header, 0) == Ok::<(u16, u64, u64), ErrorView>((200, 0, 0)),
{
}

/// A request whose `range` field asks for the positions from a first to a last
/// one that the file has gets these, however large the numbers are; what else
/// the field's text asks for is what is served as well.
pub proof fn law_requested_positions(fields: Fields, first: u64, last: u64, total: u64, text: Seq<char>)
    requires
        fields.contains_key("range"@),
    ensures
        first <= last < total && fields["range"@][0] == encode_utf8(
            "bytes="@ + decimal(first as nat) + "-"@ + decimal(last as nat),
        ) ==> range_outcome(range_text(fields), total) == Ok::<(u16, u64, u64), ErrorView>(
            (206, first, last),
        ),
        fields["range"@][0] == encode_utf8(text) && (forall|j: int|
            0 <= j < text.len() ==> ' ' <= #[trigger] text[j] <= '~' || text[j] == '\t')
            ==> range_outcome(range_text(fields), total) == range_outcome(Some(text), total),
{
    crate::http::law_range_text(fields, text, 0);
    if first <= last < total && fields["range"@][0] == encode_utf8(
        "bytes="@ + decimal(first as nat) + "-"@ + decimal(last as nat),
    ) {
        let a = decimal(first as nat);
        let b = decimal(last as nat);
        let t = "bytes="@ + a + "-"@ + b;
        reveal_strlit("bytes=");
        reveal_strlit("-");
        crate::text::lemma_decimal_digits(first as nat);
        crate::text::lemma_decimal_digits(last as nat);
        assert forall|j: int| 0 <= j < t.len() implies ' ' <= #[trigger] t[j] <= '~' by {
            if 6 <= j < 6 + a.len() {
                assert(t[j] == a[j - 6]);
                assert(crate::text::is_digit(a[j - 6]));
            } else if j > 6 + a.len() {
                assert(t[j] == b[j - 7 - a.len()]);
                assert(crate::text::is_digit(b[j - 7 - a.len()]));
            }
        }
        crate::http::law_range_text(fields, t, 0);
        law_first_to_last(first, last, total);
        assert(t == range_spec(a, b));
    }
}

} // verus!
