//! Text handling on sequences of characters: lines, whitespace-separated
//! fields, and decimal numbers in both directions.

use vstd::prelude::*;

verus! {

/// The views of a vector of character vectors, in order.
pub open spec fn views(v: Seq<Vec<char>>) -> Seq<Seq<char>> {
    Seq::new(v.len(), |i: int| v[i]@)
}

/// The characters of `s`, in order.
pub fn chars_of(s: &str) -> (chars: Vec<char>)
    ensures
        chars@ == s@,
{
    let mut chars: Vec<char> = Vec::new();
    for c in it: s.chars()
        invariant
            chars@ == it.seq().take(it.index() as int),
            it.seq() == s@,
    {
        chars.push(c);
    }
    chars
}

/// Collects characters into an owned string with `String::from_iter`; the
/// string holds exactly the given characters, in order.
#[verifier::external_body]
pub(crate) fn string_of(chars: &Vec<char>) -> (s: String)
    ensures
        s@ == chars@,
{
    String::from_iter(chars.iter())
}

/// The pieces between line feeds: `k` line feeds cut a text into `k + 1`
/// pieces, the last of which is whatever follows the final line feed.
pub open spec fn pieces(text: Seq<char>) -> Seq<Seq<char>>
    decreases text.len(),
{
    if text.len() == 0 {
        seq![Seq::<char>::empty()]
    } else {
        let before = pieces(text.drop_last());
        if text.last() == '\n' {
            before.push(Seq::<char>::empty())
        } else {
            before.update(before.len() - 1, before.last().push(text.last()))
        }
    }
}

/// A piece without the carriage return that may precede its line feed.
pub open spec fn strip_cr(piece: Seq<char>) -> Seq<char> {
    if piece.len() > 0 && piece.last() == '\r' {
        piece.drop_last()
    } else {
        piece
    }
}

/// The lines of a text. A line ends at a line feed, or at a carriage return
/// directly followed by one; the terminator is not part of the line. Text
/// after the final line feed is a last line of its own unless it is empty.
pub open spec fn lines_of(text: Seq<char>) -> Seq<Seq<char>> {
    let p = pieces(text);
    let terminated = p.drop_last().map_values(|piece: Seq<char>| strip_cr(piece));
    if p.last().len() > 0 {
        terminated.push(p.last())
    } else {
        terminated
    }
}

proof fn lemma_pieces_nonempty(text: Seq<char>)
    ensures
        pieces(text).len() >= 1,
    decreases text.len(),
{
    if text.len() > 0 {
        lemma_pieces_nonempty(text.drop_last());
    }
}

/// Splits a text into its lines.
pub fn split_lines(text: &Vec<char>) -> (lines: Vec<Vec<char>>)
    ensures
        views(lines@) == lines_of(text@),
{
    let mut lines: Vec<Vec<char>> = Vec::new();
    let mut current: Vec<char> = Vec::new();
    let mut i: usize = 0;
    while i < text.len()
        invariant
            i <= text.len(),
            pieces(text@.take(i as int)).len() >= 1,
            views(lines@) == pieces(text@.take(i as int)).drop_last().map_values(
                |piece: Seq<char>| strip_cr(piece),
            ),
            current@ == pieces(text@.take(i as int)).last(),
        decreases text.len() - i,
    {
        let c = text[i];
        proof {
            let before = text@.take(i as int);
            let now = text@.take(i + 1);
            assert(now.drop_last() == before);
            assert(now.last() == c);
            lemma_pieces_nonempty(now);
            let pb = pieces(before);
            if c == '\n' {
                assert(pieces(now).drop_last() == pb);
                assert(pb == pb.drop_last().push(pb.last()));
            } else {
                assert(pieces(now).drop_last() == pb.drop_last());
            }
        }
        if c == '\n' {
            let n = current.len();
            if n > 0 && current[n - 1] == '\r' {
                current.pop();
            }
            let ghost done = views(lines@);
            lines.push(current);
            current = Vec::new();
            proof {
                let pb = pieces(text@.take(i as int));
                let f = |piece: Seq<char>| strip_cr(piece);
                assert(views(lines@) == done.push(strip_cr(pb.last())));
                assert(pb.map_values(f) == pb.drop_last().map_values(f).push(f(pb.last())));
            }
        } else {
            current.push(c);
        }
        i += 1;
    }
    proof {
        assert(text@.take(i as int) == text@);
    }
    if current.len() > 0 {
        let ghost done = views(lines@);
        lines.push(current);
        proof {
            assert(views(lines@) == done.push(pieces(text@).last()));
        }
    }
    lines
}

/// Whether `c` is white space: one of the code points that carry the
/// Unicode property `White_Space`.
pub open spec fn spec_is_space(c: char) -> bool {
    let u = c as u32;
    ||| 0x09 <= u <= 0x0D
    ||| u == 0x20
    ||| u == 0x85
    ||| u == 0xA0
    ||| u == 0x1680
    ||| 0x2000 <= u <= 0x200A
    ||| u == 0x2028
    ||| u == 0x2029
    ||| u == 0x202F
    ||| u == 0x205F
    ||| u == 0x3000
}

/// Whether `c` is white space.
pub fn is_space(c: char) -> (space: bool)
    ensures
        space == spec_is_space(c),
{
    let u = c as u32;
    (0x09 <= u && u <= 0x0D) || u == 0x20 || u == 0x85 || u == 0xA0 || u == 0x1680 || (0x2000 <= u
        && u <= 0x200A) || u == 0x2028 || u == 0x2029 || u == 0x202F || u == 0x205F || u == 0x3000
}

/// The fields of a line: its maximal runs of characters that are not white
/// space, in order. White space only separates; it makes no empty field.
pub open spec fn fields_of(line: Seq<char>) -> Seq<Seq<char>>
    decreases line.len(),
{
    if line.len() == 0 {
        Seq::<Seq<char>>::empty()
    } else {
        let before = fields_of(line.drop_last());
        let c = line.last();
        if spec_is_space(c) {
            before
        } else if line.len() >= 2 && !spec_is_space(line[line.len() - 2]) {
            before.update(before.len() - 1, before.last().push(c))
        } else {
            before.push(seq![c])
        }
    }
}

proof fn lemma_open_field(line: Seq<char>)
    requires
        line.len() > 0,
        !spec_is_space(line.last()),
    ensures
        fields_of(line).len() >= 1,
        fields_of(line).last().len() >= 1,
    decreases line.len(),
{
    if line.len() >= 2 && !spec_is_space(line[line.len() - 2]) {
        lemma_open_field(line.drop_last());
    }
}

/// Splits a line into its fields.
pub fn split_fields(line: &Vec<char>) -> (fields: Vec<Vec<char>>)
    ensures
        views(fields@) == fields_of(line@),
{
    let mut fields: Vec<Vec<char>> = Vec::new();
    let mut current: Vec<char> = Vec::new();
    let mut i: usize = 0;
    while i < line.len()
        invariant
            i <= line.len(),
            current.len() > 0 <==> (i > 0 && !spec_is_space(line@[i - 1])),
            current.len() > 0 ==> fields_of(line@.take(i as int)).len() >= 1 && views(fields@)
                == fields_of(line@.take(i as int)).drop_last() && current@ == fields_of(
                line@.take(i as int),
            ).last(),
            current.len() == 0 ==> views(fields@) == fields_of(line@.take(i as int)),
        decreases line.len() - i,
    {
        let c = line[i];
        proof {
            let before = line@.take(i as int);
            let now = line@.take(i + 1);
            assert(now.drop_last() == before);
            assert(now.last() == c);
            if i > 0 {
                assert(now[now.len() - 2] == line@[i - 1]);
            }
            if !spec_is_space(c) {
                lemma_open_field(now);
            }
        }
        if is_space(c) {
            if current.len() > 0 {
                let ghost done = views(fields@);
                let ghost fb = fields_of(line@.take(i as int));
                fields.push(current);
                current = Vec::new();
                proof {
                    assert(views(fields@) == done.push(fb.last()));
                    assert(fb == fb.drop_last().push(fb.last()));
                }
            }
        } else {
            proof {
                let fb = fields_of(line@.take(i as int));
                let fnow = fields_of(line@.take(i + 1));
                if current.len() > 0 {
                    assert(fnow.drop_last() == fb.drop_last());
                } else {
                    assert(fnow.drop_last() == fb);
                }
            }
            current.push(c);
        }
        i += 1;
    }
    proof {
        assert(line@.take(i as int) == line@);
    }
    if current.len() > 0 {
        let ghost done = views(fields@);
        let ghost fl = fields_of(line@);
        fields.push(current);
        proof {
            assert(views(fields@) == done.push(fl.last()));
            assert(fl == fl.drop_last().push(fl.last()));
        }
    }
    fields
}

/// Whether `c` is one of the ten decimal digits.
pub open spec fn spec_is_digit(c: char) -> bool {
    '0' <= c <= '9'
}

/// The number a decimal digit stands for.
pub open spec fn digit_value(c: char) -> nat {
    (c as u32 - '0' as u32) as nat
}

/// The number written by a run of decimal digits, leading zeros allowed;
/// the empty run writes 0.
pub open spec fn digits_value(digits: Seq<char>) -> nat
    decreases digits.len(),
{
    if digits.len() == 0 {
        0
    } else {
        digits_value(digits.drop_last()) * 10 + digit_value(digits.last())
    }
}

/// Whether every character is a decimal digit.
pub open spec fn all_digits(digits: Seq<char>) -> bool {
    forall|i: int| 0 <= i < digits.len() ==> spec_is_digit(#[trigger] digits[i])
}

/// Largest count a field can write.
pub const MAX_COUNT: u32 = 2147483647;

/// The count a field writes, if it writes one: an optional sign, then one
/// or more decimal digits, naming a number from 0 to [`MAX_COUNT`]. A minus
/// sign is therefore only accepted before a run of zeros.
pub open spec fn count_of(field: Seq<char>) -> Option<u32> {
    let signed = field.len() > 0 && (field[0] == '+' || field[0] == '-');
    let digits = if signed {
        field.drop_first()
    } else {
        field
    };
    let value = digits_value(digits);
    if digits.len() > 0 && all_digits(digits) && value <= MAX_COUNT && (signed && field[0] == '-'
        ==> value == 0) {
        Some(value as u32)
    } else {
        None
    }
}

proof fn lemma_digits_value_grows(digits: Seq<char>, k: int)
    requires
        0 <= k <= digits.len(),
    ensures
        digits_value(digits.take(k)) <= digits_value(digits),
    decreases digits.len() - k,
{
    if k < digits.len() {
        lemma_digits_value_grows(digits, k + 1);
        assert(digits.take(k + 1).drop_last() == digits.take(k));
    } else {
        assert(digits.take(k) == digits);
    }
}

/// Reads the count a field writes.
pub fn parse_count(field: &Vec<char>) -> (count: Option<u32>)
    ensures
        count == count_of(field@),
{
    let n = field.len();
    let signed = n > 0 && (field[0] == '+' || field[0] == '-');
    let negative = signed && field[0] == '-';
    let start: usize = if signed {
        1
    } else {
        0
    };
    if start == n {
        return None;
    }
    let ghost digits = if signed {
        field@.drop_first()
    } else {
        field@
    };
    let mut value: u64 = 0;
    let mut i: usize = start;
    while i < n
        invariant
            start <= i <= n,
            n == field.len(),
            signed == (field.len() > 0 && (field@[0] == '+' || field@[0] == '-')),
            start == if signed { 1usize } else { 0usize },
            digits == if signed { field@.drop_first() } else { field@ },
            digits.len() == n - start,
            forall|j: int| 0 <= j < digits.len() ==> digits[j] == field@[j + start],
            all_digits(digits.take(i - start)),
            value == digits_value(digits.take(i - start)),
            value <= MAX_COUNT,
        decreases n - i,
    {
        let c = field[i];
        proof {
            assert(digits.take(i - start + 1).drop_last() == digits.take(i - start));
            assert(digits.take(i - start + 1).last() == c);
            lemma_digits_value_grows(digits, i - start + 1);
            assert(digits_value(digits.take(i - start + 1)) == value * 10 + digit_value(c));
        }
        if !(c >= '0' && c <= '9') {
            proof {
                assert(digits[i - start] == c);
            }
            return None;
        }
        let next: u64 = value * 10 + (c as u32 - '0' as u32) as u64;
        if next > MAX_COUNT as u64 {
            return None;
        }
        proof {
            assert forall|j: int| 0 <= j < i - start + 1 implies spec_is_digit(
                #[trigger] digits.take(i - start + 1)[j],
            ) by {
                if j < i - start {
                    assert(digits.take(i - start)[j] == digits[j]);
                }
            }
        }
        value = next;
        i += 1;
    }
    proof {
        assert(digits.take(n - start) == digits);
    }
    if negative && value != 0 {
        None
    } else {
        Some(value as u32)
    }
}

/// The character of a decimal digit; the argument is taken modulo 10.
pub open spec fn spec_digit_char(d: nat) -> char {
    let r = d % 10;
    if r == 0 {
        '0'
    } else if r == 1 {
        '1'
    } else if r == 2 {
        '2'
    } else if r == 3 {
        '3'
    } else if r == 4 {
        '4'
    } else if r == 5 {
        '5'
    } else if r == 6 {
        '6'
    } else if r == 7 {
        '7'
    } else if r == 8 {
        '8'
    } else {
        '9'
    }
}

fn digit_char(d: u8) -> (c: char)
    ensures
        c == spec_digit_char(d as nat),
{
    let r = d % 10;
    if r == 0 {
        '0'
    } else if r == 1 {
        '1'
    } else if r == 2 {
        '2'
    } else if r == 3 {
        '3'
    } else if r == 4 {
        '4'
    } else if r == 5 {
        '5'
    } else if r == 6 {
        '6'
    } else if r == 7 {
        '7'
    } else if r == 8 {
        '8'
    } else {
        '9'
    }
}

/// The decimal notation of a natural number, without leading zeros.
pub open spec fn decimal_digits(n: nat) -> Seq<char>
    decreases n,
{
    if n < 10 {
        seq![spec_digit_char(n)]
    } else {
        decimal_digits(n / 10).push(spec_digit_char(n % 10))
    }
}

/// The decimal notation of an integer: a minus sign before the magnitude
/// of a negative number, no sign otherwise.
pub open spec fn signed_decimal_digits(n: int) -> Seq<char> {
    if n < 0 {
        seq!['-'] + decimal_digits((-n) as nat)
    } else {
        decimal_digits(n as nat)
    }
}

/// Appends the decimal notation of `n` to `out`.
pub fn push_decimal(out: &mut Vec<char>, n: u128)
    ensures
        final(out)@ == old(out)@ + decimal_digits(n as nat),
{
    let mut low: Vec<char> = Vec::new();
    let mut rest: u128 = n;
    while rest >= 10
        invariant
            decimal_digits(n as nat) == decimal_digits(rest as nat) + low@.reverse(),
        decreases rest,
    {
        let ghost before = low@;
        low.push(digit_char((rest % 10) as u8));
        proof {
            assert(low@.reverse() == seq![spec_digit_char((rest % 10) as nat)]
                + before.reverse());
            assert(decimal_digits(rest as nat) == decimal_digits((rest / 10) as nat).push(
                spec_digit_char((rest % 10) as nat),
            ));
        }
        rest = rest / 10;
    }
    out.push(digit_char(rest as u8));
    let mut k: usize = low.len();
    while k > 0
        invariant
            k <= low.len(),
            decimal_digits(n as nat) == seq![spec_digit_char(rest as nat)] + low@.reverse(),
            out@ == old(out)@ + seq![spec_digit_char(rest as nat)] + low@.reverse().take(
                low.len() - k,
            ),
        decreases k,
    {
        k -= 1;
        out.push(low[k]);
        proof {
            let r = low@.reverse();
            assert(r.take(low.len() - k) == r.take(low.len() - k - 1).push(low@[k as int]));
        }
    }
    proof {
        assert(low@.reverse().take(low.len() as int) == low@.reverse());
    }
}

/// Appends the decimal notation of `n` to `out`.
pub fn push_signed_decimal(out: &mut Vec<char>, n: i32)
    ensures
        final(out)@ == old(out)@ + signed_decimal_digits(n as int),
{
    if n < 0 {
        out.push('-');
        push_decimal(out, (-(n as i64)) as u128);
    } else {
        push_decimal(out, n as u128);
    }
}

} // verus!
