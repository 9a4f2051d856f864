//! Parsing the contents of sysfs files: decimal numbers, space separated
//! lists and CPU index lists such as `0-3,6`.
use vstd::prelude::*;
use vstd::string::*;

use crate::text::{trim, trim_ws};

verus! {

/// `c` is an ASCII decimal digit.
pub open spec fn is_digit(c: char) -> bool {
    '0' <= c <= '9'
}

/// The value of a sequence of decimal digits.
pub open spec fn digits_value(s: Seq<char>) -> int
    decreases s.len(),
{
    if s.len() == 0 {
        0
    } else {
        digits_value(s.drop_last()) * 10 + (s.last() as int - '0' as int)
    }
}

/// The digits of a number: without a leading `+`.
pub open spec fn unsigned_digits(s: Seq<char>) -> Seq<char> {
    if s.len() > 0 && s[0] == '+' {
        s.drop_first()
    } else {
        s
    }
}

/// Every character is a decimal digit.
pub open spec fn all_digits(d: Seq<char>) -> bool {
    forall|i: int| 0 <= i < d.len() ==> is_digit(#[trigger] d[i])
}

/// Rust's parse of an unsigned integer no larger than `max`: an optional
/// `+`, then at least one decimal digit, with a value of at most `max`.
pub open spec fn parse_uint(s: Seq<char>, max: int) -> Option<int> {
    let d = unsigned_digits(s);
    if d.len() > 0 && all_digits(d) && digits_value(d) <= max {
        Some(digits_value(d))
    } else {
        None
    }
}

proof fn lemma_digits_value_monotone(s: Seq<char>)
    requires
        forall|i: int| 0 <= i < s.len() ==> is_digit(#[trigger] s[i]),
    ensures
        digits_value(s) >= 0,
        s.len() > 0 ==> digits_value(s) >= digits_value(s.drop_last()),
    decreases s.len(),
{
    if s.len() > 0 {
        lemma_digits_value_monotone(s.drop_last());
    }
}

/// Parses an unsigned decimal number of at most `max` (Rust's `str::parse`
/// for unsigned integers).
pub fn parse_uint_exec(s: &str, max: u32) -> (res: Option<u32>)
    ensures
        res matches Some(v) ==> parse_uint(s@, max as int) == Some(v as int),
        res is None ==> parse_uint(s@, max as int) is None,
{
    let n = s.unicode_len();
    let start: usize = if n > 0 && s.get_char(0) == '+' {
        1
    } else {
        0
    };
    let ghost d = unsigned_digits(s@);
    assert(d =~= s@.subrange(start as int, n as int));
    if start == n {
        assert(d.len() == 0);
        return None;
    }
    let mut value: u64 = 0;
    let mut i: usize = start;
    while i < n
        invariant
            n == s@.len(),
            start <= i <= n,
            d == s@.subrange(start as int, n as int),
            d == unsigned_digits(s@),
            forall|k: int| start <= k < i ==> is_digit(#[trigger] s@[k]),
            value == digits_value(s@.subrange(start as int, i as int)),
            value <= max,
        decreases n - i,
    {
        let c = s.get_char(i);
        if !('0' <= c && c <= '9') {
            assert(d[i - start] == s@[i as int]);
            assert(!is_digit(d[i - start]));
            assert(!all_digits(d));
            return None;
        }
        let ghost prefix = s@.subrange(start as int, i + 1);
        assert(prefix.drop_last() =~= s@.subrange(start as int, i as int));
        let digit = (c as u32 - '0' as u32) as u64;
        value = value * 10 + digit;
        if value > max as u64 {
            proof {
                assert(d.subrange(0, i + 1 - start) =~= s@.subrange(start as int, i + 1));
                assert forall|k: int| 0 <= k < i + 1 - start implies is_digit(#[trigger] d[k]) by {
                    assert(d[k] == s@[start + k]);
                }
                lemma_digits_prefix_grows(d, i + 1 - start);
            }
            return None;
        }
        i = i + 1;
    }
    assert(s@.subrange(start as int, n as int) =~= d);
    Some(value as u32)
}

/// Adding digits never makes the value smaller: the value of a digit
/// sequence is at least that of any of its prefixes.
proof fn lemma_digits_prefix_grows(d: Seq<char>, k: int)
    requires
        0 <= k <= d.len(),
        forall|i: int| 0 <= i < k ==> is_digit(#[trigger] d[i]),
    ensures
        (forall|i: int| 0 <= i < d.len() ==> is_digit(#[trigger] d[i])) ==> digits_value(d)
            >= digits_value(d.subrange(0, k)),
    decreases d.len() - k,
{
    if forall|i: int| 0 <= i < d.len() ==> is_digit(#[trigger] d[i]) {
        if k < d.len() {
            lemma_digits_prefix_grows(d, k + 1);
            let p = d.subrange(0, k + 1);
            assert(p.drop_last() =~= d.subrange(0, k));
            assert(forall|i: int| 0 <= i < p.len() ==> is_digit(#[trigger] p[i]) ==> true);
            lemma_digits_value_monotone(p.drop_last());
        } else {
            assert(d.subrange(0, k) =~= d);
        }
    }
}

/// `s` cut at every `c` (Rust's `split` with a char): always at least one
/// piece.
pub open spec fn split_char(s: Seq<char>, c: char) -> Seq<Seq<char>>
    decreases s.len(),
{
    if s.len() == 0 {
        seq![Seq::<char>::empty()]
    } else {
        let r = split_char(s.drop_last(), c);
        if s.last() == c {
            r.push(Seq::<char>::empty())
        } else {
            r.update(r.len() - 1, r.last().push(s.last()))
        }
    }
}

pub proof fn lemma_split_char_nonempty(s: Seq<char>, c: char)
    ensures
        split_char(s, c).len() >= 1,
    decreases s.len(),
{
    if s.len() > 0 {
        lemma_split_char_nonempty(s.drop_last(), c);
    }
}

/// The character sequences of a list of strings.
pub open spec fn views(v: Seq<String>) -> Seq<Seq<char>> {
    v.map_values(|s: String| s@)
}

/// `s` cut at every `c`.
pub fn split_str(s: &str, c: char) -> (pieces: Vec<String>)
    ensures
        views(pieces@) == split_char(s@, c),
{
    let n = s.unicode_len();
    let mut pieces: Vec<String> = Vec::new();
    let mut start: usize = 0;
    let mut i: usize = 0;
    assert(s@.subrange(0, 0) =~= Seq::<char>::empty());
    assert(views(pieces@).push(s@.subrange(0, 0)) =~= seq![Seq::<char>::empty()]);
    while i < n
        invariant
            n == s@.len(),
            0 <= start <= i <= n,
            views(pieces@).push(s@.subrange(start as int, i as int)) == split_char(
                s@.subrange(0, i as int),
                c,
            ),
        decreases n - i,
    {
        let ghost old_views = views(pieces@);
        let ch = s.get_char(i);
        assert(s@.subrange(0, i + 1).drop_last() =~= s@.subrange(0, i as int));
        proof {
            lemma_split_char_nonempty(s@.subrange(0, i as int), c);
        }
        if ch == c {
            pieces.push(String::from_str(s.substring_char(start, i)));
            assert(views(pieces@) =~= old_views.push(s@.subrange(start as int, i as int)));
            start = i + 1;
            assert(s@.subrange(start as int, i + 1) =~= Seq::<char>::empty());
        } else {
            assert(s@.subrange(start as int, i + 1) =~= s@.subrange(start as int, i as int).push(
                ch,
            ));
            assert(old_views.push(s@.subrange(start as int, i + 1)) =~= old_views.push(
                s@.subrange(start as int, i as int),
            ).update(old_views.len() as int, s@.subrange(start as int, i as int).push(ch)));
        }
        i = i + 1;
    }
    let ghost before = views(pieces@);
    pieces.push(String::from_str(s.substring_char(start, n)));
    assert(views(pieces@) =~= before.push(s@.subrange(start as int, n as int)));
    assert(s@.subrange(0, n as int) =~= s@);
    pieces
}

/// The numbers of a space separated list, each piece trimmed: `None` when a
/// piece is not a number.
pub open spec fn int_list(s: Seq<char>) -> Option<Seq<u32>> {
    let pieces = split_char(s, ' ');
    if forall|i: int| 0 <= i < pieces.len() ==> parse_uint(
        trim_ws(#[trigger] pieces[i]),
        u32::MAX as int,
    ) is Some {
        Some(
            Seq::new(
                pieces.len(),
                |i: int| parse_uint(trim_ws(pieces[i]), u32::MAX as int)->0 as u32,
            ),
        )
    } else {
        None
    }
}

/// Parses a space separated list of numbers, as sysfs files such as
/// `max_brightness` or `multi_intensity` hold them; each piece is trimmed.
/// The list is never empty.
pub fn parse_int_list(content: &str) -> (res: Option<Vec<u32>>)
    ensures
        res is Some <==> int_list(content@) is Some,
        res matches Some(v) ==> int_list(content@) == Some(v@) && v@.len() > 0,
{
    let pieces = split_str(content, ' ');
    proof {
        lemma_split_char_nonempty(content@, ' ');
    }
    let ghost ps = split_char(content@, ' ');
    let mut output: Vec<u32> = Vec::new();
    let mut i: usize = 0;
    while i < pieces.len()
        invariant
            views(pieces@) == ps,
            ps == split_char(content@, ' '),
            0 <= i <= pieces@.len(),
            output@.len() == i,
            forall|k: int| 0 <= k < i ==> parse_uint(trim_ws(#[trigger] ps[k]), u32::MAX as int)
                == Some(output@[k] as int),
        decreases pieces@.len() - i,
    {
        assert(pieces@[i as int]@ == ps[i as int]);
        let value = trim(pieces[i].as_str());
        match parse_uint_exec(value, u32::MAX) {
            Some(v) => {
                output.push(v);
            },
            None => {
                assert(parse_uint(trim_ws(ps[i as int]), u32::MAX as int) is None);
                return None;
            },
        }
        i = i + 1;
    }
    assert(output@ =~= Seq::new(
        ps.len(),
        |k: int| parse_uint(trim_ws(ps[k]), u32::MAX as int)->0 as u32,
    ));
    Some(output)
}

/// The pieces of a space separated list, each trimmed.
pub fn parse_string_list(content: &str) -> (res: Vec<String>)
    ensures
        views(res@) == split_char(content@, ' ').map_values(|p: Seq<char>| trim_ws(p)),
{
    let pieces = split_str(content, ' ');
    let ghost ps = split_char(content@, ' ');
    let mut output: Vec<String> = Vec::new();
    let mut i: usize = 0;
    while i < pieces.len()
        invariant
            views(pieces@) == ps,
            0 <= i <= pieces@.len(),
            output@.len() == i,
            forall|k: int| 0 <= k < i ==> #[trigger] output@[k]@ == trim_ws(ps[k]),
        decreases pieces@.len() - i,
    {
        assert(pieces@[i as int]@ == ps[i as int]);
        output.push(String::from_str(trim(pieces[i].as_str())));
        i = i + 1;
    }
    assert(views(output@) =~= ps.map_values(|p: Seq<char>| trim_ws(p)));
    output
}

/// A piece of a CPU list: one index, or two indices joined by `-`.
pub open spec fn range_piece_valid(p: Seq<char>) -> bool {
    let parts = split_char(p, '-');
    &&& parts.len() <= 2
    &&& parse_uint(parts[0], 255) is Some
    &&& parts.len() == 2 ==> parse_uint(parts[1], 255) is Some
}

/// The indices a valid piece stands for: the index itself, or every index
/// from the first to the second (none when the first is larger).
pub open spec fn range_piece_values(p: Seq<char>) -> Seq<u8> {
    let parts = split_char(p, '-');
    let first = parse_uint(parts[0], 255)->0;
    if parts.len() == 2 {
        let second = parse_uint(parts[1], 255)->0;
        Seq::new(
            if second >= first {
                (second - first + 1) as nat
            } else {
                0
            },
            |i: int| (first + i) as u8,
        )
    } else {
        seq![first as u8]
    }
}

/// A CPU list such as `0-3,6`: after trimming, comma separated valid pieces.
pub open spec fn separated_valid(s: Seq<char>) -> bool {
    let pieces = split_char(trim_ws(s), ',');
    forall|i: int| 0 <= i < pieces.len() ==> range_piece_valid(#[trigger] pieces[i])
}

/// The indices of the pieces from index `i` on, in order.
pub open spec fn separated_values_from(pieces: Seq<Seq<char>>, i: int) -> Seq<u8>
    decreases pieces.len() - i,
{
    if i < 0 || i >= pieces.len() {
        Seq::empty()
    } else {
        range_piece_values(pieces[i]) + separated_values_from(pieces, i + 1)
    }
}

/// The indices a valid CPU list stands for, in order.
pub open spec fn separated_values(s: Seq<char>) -> Seq<u8> {
    separated_values_from(split_char(trim_ws(s), ','), 0)
}

/// The indices of the first `i` pieces, in order.
pub open spec fn separated_values_prefix(pieces: Seq<Seq<char>>, i: int) -> Seq<u8>
    decreases i,
{
    if i <= 0 {
        Seq::empty()
    } else {
        separated_values_prefix(pieces, i - 1) + range_piece_values(pieces[i - 1])
    }
}

/// Parses a CPU index list such as `0-3,6` into the indices it stands for.
pub fn parse_separated(content: &str) -> (indexes: Vec<u8>)
    requires
        separated_valid(content@),
    ensures
        indexes@ == separated_values(content@),
{
    let pieces = split_str(trim(content), ',');
    let ghost ps = split_char(trim_ws(content@), ',');
    let mut return_indexes: Vec<u8> = Vec::new();
    let mut i: usize = 0;
    while i < pieces.len()
        invariant
            views(pieces@) == ps,
            separated_valid(content@),
            ps == split_char(trim_ws(content@), ','),
            0 <= i <= pieces@.len(),
            return_indexes@ == separated_values_prefix(ps, i as int),
        decreases pieces@.len() - i,
    {
        assert(pieces@[i as int]@ == ps[i as int]);
        assert(range_piece_valid(ps[i as int]));
        let parts = split_str(pieces[i].as_str(), '-');
        let ghost pp = split_char(ps[i as int], '-');
        proof {
            lemma_split_char_nonempty(ps[i as int], '-');
        }
        assert(parts@[0]@ == pp[0]);
        let first = parse_uint_exec(parts[0].as_str(), 255).unwrap() as u8;
        let ghost before = return_indexes@;
        if parts.len() == 2 {
            assert(parts@[1]@ == pp[1]);
            let second = parse_uint_exec(parts[1].as_str(), 255).unwrap() as u8;
            let mut value: u16 = first as u16;
            while value <= second as u16
                invariant
                    first <= value <= second as int + 1 || (value == first && first > second),
                    return_indexes@ == before + Seq::new(
                        (value - first) as nat,
                        |k: int| (first + k) as u8,
                    ),
                decreases second as int + 1 - value,
            {
                let ghost b = return_indexes@;
                return_indexes.push(value as u8);
                assert(return_indexes@ =~= before + Seq::new(
                    (value + 1 - first) as nat,
                    |k: int| (first + k) as u8,
                ));
                value = value + 1;
            }
            assert(return_indexes@ =~= before + range_piece_values(ps[i as int]));
        } else {
            return_indexes.push(first);
            assert(return_indexes@ =~= before + range_piece_values(ps[i as int]));
        }
        i = i + 1;
        assert(separated_values_prefix(ps, i as int) == separated_values_prefix(ps, i - 1)
            + range_piece_values(ps[i - 1]));
    }
    proof {
        lemma_prefix_is_all(ps, ps.len() as int);
    }
    return_indexes
}

/// Whether the text is a valid CPU index list (what `parse_separated`
/// accepts).
pub fn is_separated_valid(content: &str) -> (ok: bool)
    ensures
        ok == separated_valid(content@),
{
    let pieces = split_str(trim(content), ',');
    let ghost ps = split_char(trim_ws(content@), ',');
    let mut i: usize = 0;
    while i < pieces.len()
        invariant
            views(pieces@) == ps,
            ps == split_char(trim_ws(content@), ','),
            0 <= i <= pieces@.len(),
            forall|k: int| 0 <= k < i ==> range_piece_valid(#[trigger] ps[k]),
        decreases pieces@.len() - i,
    {
        assert(pieces@[i as int]@ == ps[i as int]);
        let parts = split_str(pieces[i].as_str(), '-');
        let ghost pp = split_char(ps[i as int], '-');
        proof {
            lemma_split_char_nonempty(ps[i as int], '-');
        }
        assert(parts@[0]@ == pp[0]);
        if parts.len() > 2 {
            assert(!range_piece_valid(ps[i as int]));
            return false;
        }
        if parse_uint_exec(parts[0].as_str(), 255).is_none() {
            assert(!range_piece_valid(ps[i as int]));
            return false;
        }
        if parts.len() == 2 {
            assert(parts@[1]@ == pp[1]);
            if parse_uint_exec(parts[1].as_str(), 255).is_none() {
                assert(!range_piece_valid(ps[i as int]));
                return false;
            }
        }
        assert(range_piece_valid(ps[i as int]));
        i = i + 1;
    }
    true
}

proof fn lemma_prefix_is_all(pieces: Seq<Seq<char>>, i: int)
    requires
        0 <= i <= pieces.len(),
    ensures
        separated_values_prefix(pieces, i) + separated_values_from(pieces, i)
            == separated_values_from(pieces, 0),
    decreases i,
{
    if i > 0 {
        lemma_prefix_is_all(pieces, i - 1);
        assert(separated_values_prefix(pieces, i) + separated_values_from(pieces, i)
            =~= separated_values_prefix(pieces, i - 1) + separated_values_from(pieces, i - 1));
    } else {
        assert(separated_values_prefix(pieces, 0) + separated_values_from(pieces, 0)
            =~= separated_values_from(pieces, 0));
    }
}

/// The pieces joined again with `c` between them.
pub open spec fn join_char(pieces: Seq<Seq<char>>, c: char) -> Seq<char>
    decreases pieces.len(),
{
    if pieces.len() == 0 {
        Seq::empty()
    } else if pieces.len() == 1 {
        pieces[0]
    } else {
        join_char(pieces.drop_last(), c).push(c) + pieces.last()
    }
}

/// Splitting cuts `s` exactly at its `c`: no piece contains `c`, and
/// joining the pieces with `c` gives `s` back.
pub proof fn lemma_split_char_joins(s: Seq<char>, c: char)
    ensures
        join_char(split_char(s, c), c) == s,
        forall|i: int| 0 <= i < split_char(s, c).len() ==> !(#[trigger] split_char(s, c)[i]).contains(c),
    decreases s.len(),
{
    if s.len() == 0 {
        assert(split_char(s, c) =~= seq![Seq::<char>::empty()]);
        assert(s =~= Seq::<char>::empty());
    } else {
        let t = s.drop_last();
        let x = s.last();
        lemma_split_char_joins(t, c);
        lemma_split_char_nonempty(t, c);
        let r = split_char(t, c);
        let n = split_char(s, c);
        assert(s =~= t.push(x));
        if x == c {
            assert(n == r.push(Seq::<char>::empty()));
            assert(n.drop_last() =~= r);
            assert(join_char(n, c) =~= join_char(r, c).push(c) + Seq::<char>::empty());
            assert forall|i: int| 0 <= i < n.len() implies !(#[trigger] n[i]).contains(c) by {
                if i < r.len() {
                    assert(n[i] == r[i]);
                } else {
                    assert(n[i] =~= Seq::<char>::empty());
                }
            }
        } else {
            let last = r.last().push(x);
            assert(n == r.update(r.len() - 1, last));
            if r.len() == 1 {
                assert(join_char(r, c) == r[0]);
                assert(n.len() == 1);
                assert(join_char(n, c) == n[0]);
                assert(n[0] == last);
            } else {
                assert(n.drop_last() =~= r.drop_last());
                assert(join_char(n, c) == join_char(r.drop_last(), c).push(c) + last);
                assert(join_char(r, c) == join_char(r.drop_last(), c).push(c) + r.last());
                assert(join_char(n, c) =~= join_char(r, c).push(x));
            }
            assert forall|i: int| 0 <= i < n.len() implies !(#[trigger] n[i]).contains(c) by {
                if i < r.len() - 1 {
                    assert(n[i] == r[i]);
                } else {
                    assert(n[i] == last);
                    assert(!r[r.len() - 1].contains(c));
                    if last.contains(c) {
                        let k = choose|k: int| 0 <= k < last.len() && last[k] == c;
                        if k < last.len() - 1 {
                            assert(r.last()[k] == c);
                        }
                    }
                }
            }
        }
    }
}

} // verus!
