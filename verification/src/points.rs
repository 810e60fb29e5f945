//! Point lists: points as `x,y`, with white space between them.
use vstd::prelude::*;
use crate::round::clamp;
use crate::round::round_text;
use crate::round::rounded_text;
use crate::text::all_digits;
use crate::text::chars_of;
use crate::text::digit_value;
use crate::text::digits_value;
use crate::text::index_of;
use crate::text::integer_text;
use crate::text::is_digit;
use crate::text::lemma_index_of_is;

verus! {

/// Whether `c` is white space, as Unicode has it.
pub open spec fn is_space(c: char) -> bool {
    c == ' ' || ('\t' <= c && c <= '\r') || c == '\u{85}' || c == '\u{a0}' || c == '\u{1680}' || (
    '\u{2000}' <= c && c <= '\u{200a}') || c == '\u{2028}' || c == '\u{2029}' || c == '\u{202f}'
        || c == '\u{205f}' || c == '\u{3000}'
}

/// Whether `c` is white space.
pub fn is_space_char(c: char) -> (r: bool)
    ensures
        r == is_space(c),
{
    c == ' ' || ('\t' <= c && c <= '\r') || c == '\u{85}' || c == '\u{a0}' || c == '\u{1680}' || (
    '\u{2000}' <= c && c <= '\u{200a}') || c == '\u{2028}' || c == '\u{2029}' || c == '\u{202f}'
        || c == '\u{205f}' || c == '\u{3000}'
}

/// The place of the first white space in `s` at or after `from`; the length
/// of `s` where there is none.
pub open spec fn next_space(s: Seq<char>, from: int) -> int
    decreases s.len() - from,
{
    if from < 0 || from >= s.len() {
        s.len() as int
    } else if is_space(s[from]) {
        from
    } else {
        next_space(s, from + 1)
    }
}

/// The place that holds the first white space, or the end where none is
/// passed over, is the one that `next_space` finds.
pub proof fn lemma_next_space_is(s: Seq<char>, from: int, at: int)
    requires
        0 <= from <= at <= s.len(),
        forall|k: int| from <= k < at ==> !is_space(s[k]),
        at < s.len() ==> is_space(s[at]),
    ensures
        next_space(s, from) == at,
    decreases at - from,
{
    if from < at {
        lemma_next_space_is(s, from + 1, at);
    }
}

/// The words of `s`: its longest pieces without white space, in their order.
pub open spec fn words(s: Seq<char>) -> Seq<Seq<char>>
    decreases s.len(),
{
    if s.len() == 0 {
        Seq::empty()
    } else if is_space(s[0]) {
        words(s.skip(1))
    } else {
        let end = next_space(s, 0);
        if end <= 0 || end > s.len() {
            Seq::empty()
        } else {
            seq![s.take(end)] + words(s.skip(end))
        }
    }
}

/// The point that `item` writes: a number, a comma and a second number,
/// each rounded to the nearest `i32`.
pub open spec fn pair_text(item: Seq<char>) -> Option<(int, int)> {
    let comma = index_of(item, ',', 0);
    if comma < 0 || comma >= item.len() {
        None
    } else {
        match (rounded_text(item.take(comma)), rounded_text(item.skip(comma + 1))) {
            (Some(x), Some(y)) => Some((x, y)),
            _ => None,
        }
    }
}

/// The points that `s` writes, in their order: one for each of its words,
/// none for a text without words. `None` where any word writes no point.
pub open spec fn point_list(s: Seq<char>) -> Option<Seq<(int, int)>> {
    let items = words(s);
    if forall|i: int| 0 <= i < items.len() ==> (#[trigger] pair_text(items[i])) is Some {
        Some(Seq::new(items.len(), |i: int| pair_text(items[i]).unwrap()))
    } else {
        None
    }
}

/// Points as pairs of whole numbers.
pub open spec fn points_view(points: Seq<(i32, i32)>) -> Seq<(int, int)> {
    Seq::new(points.len(), |i: int| (points[i].0 as int, points[i].1 as int))
}

/// Reads a point list. One word that writes no point fails the whole list.
pub fn parse_points(s: &str) -> (r: Option<Vec<(i32, i32)>>)
    ensures
        match r {
            Some(points) => point_list(s@) == Some(points_view(points@)),
            None => point_list(s@) is None,
        },
{
    let cs = chars_of(s);
    let n = cs.len();
    let mut out: Vec<(i32, i32)> = Vec::new();
    let mut start: usize = 0;
    let ghost mut done: Seq<Seq<char>> = Seq::empty();
    assert(s@.skip(0) =~= s@);
    assert(done + words(s@.skip(0)) =~= words(s@));
    loop
        invariant
            cs@ == s@,
            n == cs.len(),
            start <= n,
            words(s@) == done + words(s@.skip(start as int)),
            out.len() == done.len(),
            forall|k: int|
                0 <= k < done.len() ==> (#[trigger] pair_text(done[k])) == Some(
                    (out@[k].0 as int, out@[k].1 as int),
                ),
        decreases n - start,
    {
        let ghost begin = start;
        while start < n && is_space_char(cs[start])
            invariant
                cs@ == s@,
                n == cs.len(),
                begin <= start <= n,
                words(s@) == done + words(s@.skip(start as int)),
            decreases n - start,
        {
            assert(s@.skip(start as int).skip(1) =~= s@.skip(start + 1));
            start += 1;
        }
        if start == n {
            proof {
                let items = words(s@);
                assert(items =~= done);
                assert(Seq::new(items.len(), |i: int| pair_text(items[i]).unwrap()) =~= points_view(
                    out@,
                ));
            }
            return Some(out);
        }
        assert(!is_space(cs@[start as int]));
        let mut end: usize = start + 1;
        while end < n && !is_space_char(cs[end])
            invariant
                n == cs.len(),
                start < end <= n,
                forall|k: int| start <= k < end ==> !is_space(cs@[k]),
            decreases n - end,
        {
            end += 1;
        }
        let ghost rest = s@.skip(start as int);
        let ghost item = rest.take(end - start);
        proof {
            lemma_next_space_is(rest, 0, end - start);
            assert(item =~= cs@.subrange(start as int, end as int));
            assert(rest.skip(end - start) =~= s@.skip(end as int));
            assert(words(rest) == seq![item] + words(s@.skip(end as int)));
            assert(words(s@)[done.len() as int] == item);
        }
        let mut comma: usize = start;
        while comma < end && cs[comma] != ','
            invariant
                end <= cs.len(),
                start <= comma <= end,
                forall|k: int| start <= k < comma ==> cs@[k] != ',',
            decreases end - comma,
        {
            comma += 1;
        }
        proof {
            lemma_index_of_is(item, ',', 0, comma - start);
        }
        if comma == end {
            return None;
        }
        assert(item.take(comma - start) =~= s@.subrange(start as int, comma as int));
        assert(item.skip(comma - start + 1) =~= s@.subrange(comma + 1, end as int));
        let x = match round_text(s.substring_char(start, comma)) {
            Some(x) => x,
            None => {
                return None;
            },
        };
        let y = match round_text(s.substring_char(comma + 1, end)) {
            Some(y) => y,
            None => {
                return None;
            },
        };
        out.push((x, y));
        proof {
            assert(pair_text(item) == Some((x as int, y as int)));
            let before = done;
            done = done.push(item);
            assert forall|k: int| 0 <= k < done.len() implies (#[trigger] pair_text(done[k]))
                == Some((out@[k].0 as int, out@[k].1 as int)) by {
                if k < before.len() {
                    assert(done[k] == before[k]);
                }
            }
            assert(before + (seq![item] + words(s@.skip(end as int))) =~= done + words(
                s@.skip(end as int),
            ));
        }
        start = end;
    }
}

/// The character that writes the digit `d`.
pub open spec fn digit_char(d: int) -> char {
    ((d + 48) as u8) as char
}

/// The digits of `n` in base ten, without leading zeros.
pub open spec fn digits_of(n: nat) -> Seq<char>
    decreases n,
{
    if n < 10 {
        seq![digit_char(n as int)]
    } else {
        digits_of(n / 10).push(digit_char((n % 10) as int))
    }
}

/// The decimal numeral of a whole number: a `-` where it is negative, then
/// its digits.
pub open spec fn integer_numeral(v: int) -> Seq<char> {
    if v < 0 {
        seq!['-'] + digits_of((-v) as nat)
    } else {
        digits_of(v as nat)
    }
}

/// A point as text: the numerals of its coordinates with a comma between.
pub open spec fn pair_numeral(p: (int, int)) -> Seq<char> {
    integer_numeral(p.0) + seq![','] + integer_numeral(p.1)
}

/// Points as text: each as `x,y`, with single spaces between.
pub open spec fn rendered(points: Seq<(int, int)>) -> Seq<char>
    decreases points.len(),
{
    if points.len() == 0 {
        Seq::empty()
    } else if points.len() == 1 {
        pair_numeral(points[0])
    } else {
        pair_numeral(points[0]) + seq![' '] + rendered(points.skip(1))
    }
}

/// The digits of a number are digits, one at least, and write that number.
pub proof fn lemma_digits_of(n: nat)
    ensures
        digits_of(n).len() >= 1,
        all_digits(digits_of(n)),
        digits_value(digits_of(n)) == n,
    decreases n,
{
    if n < 10 {
        let s = digits_of(n);
        assert(s.drop_last() =~= Seq::<char>::empty());
        assert(digits_value(s.drop_last()) == 0);
        assert(digit_value(s.last()) == n);
    } else {
        lemma_digits_of(n / 10);
        let s = digits_of(n);
        let c = digit_char((n % 10) as int);
        assert(s.drop_last() =~= digits_of(n / 10));
        assert(s.last() == c);
        assert(is_digit(c));
        assert(digit_value(c) == n % 10);
        assert forall|k: int| 0 <= k < s.len() implies is_digit(#[trigger] s[k]) by {
            if k < s.len() - 1 {
                assert(s[k] == digits_of(n / 10)[k]);
            }
        }
    }
}

/// The numeral of a whole number has a sign and digits only, and is the
/// text of that number.
pub proof fn lemma_numeral_shape(v: int)
    ensures
        integer_numeral(v).len() >= 1,
        forall|k: int|
            0 <= k < integer_numeral(v).len() ==> {
                let c = #[trigger] integer_numeral(v)[k];
                c == '-' || is_digit(c)
            },
        integer_text(integer_numeral(v), true) == Some(v),
{
    let s = integer_numeral(v);
    let magnitude = (if v < 0 { -v } else { v }) as nat;
    let digits = digits_of(magnitude);
    lemma_digits_of(magnitude);
    assert(is_digit(digits[0]));
    let body = if v < 0 { s.skip(1) } else { s };
    assert(body =~= digits);
    assert forall|k: int| 0 <= k < s.len() implies {
        let c = #[trigger] s[k];
        c == '-' || is_digit(c)
    } by {
        if v < 0 && k > 0 {
            assert(s[k] == digits[k - 1]);
        }
    }
}

/// A point as text holds no white space, and its first comma stands after
/// the numeral of its first coordinate.
pub proof fn lemma_pair_shape(p: (int, int))
    ensures
        pair_numeral(p).len() >= 3,
        forall|k: int| 0 <= k < pair_numeral(p).len() ==> !is_space(#[trigger] pair_numeral(p)[k]),
        index_of(pair_numeral(p), ',', 0) == integer_numeral(p.0).len(),
        pair_numeral(p).take(integer_numeral(p.0).len() as int) == integer_numeral(p.0),
        pair_numeral(p).skip(integer_numeral(p.0).len() as int + 1) == integer_numeral(p.1),
{
    let a = integer_numeral(p.0);
    let b = integer_numeral(p.1);
    let s = pair_numeral(p);
    lemma_numeral_shape(p.0);
    lemma_numeral_shape(p.1);
    assert forall|k: int| 0 <= k < s.len() implies !is_space(#[trigger] s[k]) by {
        if k < a.len() {
            assert(s[k] == a[k]);
        } else if k > a.len() {
            assert(s[k] == b[k - a.len() - 1]);
        }
    }
    assert forall|k: int| 0 <= k < a.len() implies s[k] != ',' by {
        assert(s[k] == a[k]);
    }
    assert(s[a.len() as int] == ',');
    lemma_index_of_is(s, ',', 0, a.len() as int);
    assert(s.take(a.len() as int) =~= a);
    assert(s.skip(a.len() as int + 1) =~= b);
}

/// A point as text reads back as that point, where binary64 holds its
/// coordinates.
pub proof fn lemma_pair_reads_back(p: (int, int))
    requires
        -0x20_0000_0000_0000 <= p.0 <= 0x20_0000_0000_0000,
        -0x20_0000_0000_0000 <= p.1 <= 0x20_0000_0000_0000,
    ensures
        pair_text(pair_numeral(p)) == Some((clamp(p.0), clamp(p.1))),
{
    lemma_pair_shape(p);
    lemma_numeral_shape(p.0);
    lemma_numeral_shape(p.1);
}

/// Whether both coordinates of every point are `i32`.
pub open spec fn all_i32(points: Seq<(int, int)>) -> bool {
    forall|i: int|
        0 <= i < points.len() ==> {
            let p = #[trigger] points[i];
            i32::MIN <= p.0 <= i32::MAX && i32::MIN <= p.1 <= i32::MAX
        }
}

/// The words of rendered points are the points as text, one by one.
pub proof fn lemma_rendered_words(points: Seq<(int, int)>)
    ensures
        words(rendered(points)) == Seq::new(points.len(), |i: int| pair_numeral(points[i])),
    decreases points.len(),
{
    let s = rendered(points);
    let want = Seq::new(points.len(), |i: int| pair_numeral(points[i]));
    if points.len() == 0 {
        assert(words(s) =~= want);
    } else {
        let head = pair_numeral(points[0]);
        lemma_pair_shape(points[0]);
        assert(!is_space(head[0]));
        if points.len() == 1 {
            lemma_next_space_is(s, 0, s.len() as int);
            assert(s.take(s.len() as int) =~= s);
            assert(s.skip(s.len() as int) =~= Seq::<char>::empty());
            assert(words(Seq::<char>::empty()) =~= Seq::<Seq<char>>::empty());
            assert(words(s) == seq![s] + words(s.skip(s.len() as int)));
            assert(words(s) =~= want);
        } else {
            let tail = points.skip(1);
            lemma_rendered_words(tail);
            assert forall|k: int| 0 <= k < head.len() implies !is_space(s[k]) by {
                assert(s[k] == head[k]);
            }
            assert(s[head.len() as int] == ' ');
            lemma_next_space_is(s, 0, head.len() as int);
            assert(s.take(head.len() as int) =~= head);
            let rest = s.skip(head.len() as int);
            assert(rest[0] == ' ');
            assert(rest.skip(1) =~= rendered(tail));
            assert(words(rest) == words(rendered(tail)));
            let others = Seq::new(tail.len(), |i: int| pair_numeral(tail[i]));
            assert(words(s) == seq![head] + others);
            assert(seq![head] + others =~= want) by {
                assert forall|i: int| 0 <= i < want.len() implies (seq![head] + others)[i]
                    == want[i] by {
                    if i > 0 {
                        assert(tail[i - 1] == points[i]);
                    }
                }
            }
        }
    }
}

/// Rendering points as `"x,y x,y ..."` and reading the text back gives the
/// same points in the same order, for every sequence of points with `i32`
/// coordinates, the empty one too.
pub proof fn lemma_points_round_trip(points: Seq<(int, int)>)
    requires
        all_i32(points),
    ensures
        point_list(rendered(points)) == Some(points),
{
    lemma_rendered_words(points);
    let items = words(rendered(points));
    assert forall|i: int| 0 <= i < items.len() implies (#[trigger] pair_text(items[i])) == Some(
        points[i],
    ) by {
        lemma_pair_reads_back(points[i]);
    }
    assert(Seq::new(items.len(), |i: int| pair_text(items[i]).unwrap()) =~= points);
}

} // verus!
