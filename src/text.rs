use vstd::prelude::*;

verus! {

/// The pieces of `s` between occurrences of `sep`, in order; like `str::split`,
/// an empty text gives one empty piece and a trailing separator gives an empty
/// last piece.
pub open spec fn split_on(s: Seq<char>, sep: char) -> Seq<Seq<char>>
    decreases s.len(),
{
    if s.len() == 0 {
        seq![Seq::<char>::empty()]
    } else {
        let pieces = split_on(s.drop_last(), sep);
        if s.last() == sep {
            pieces.push(Seq::<char>::empty())
        } else {
            pieces.update(pieces.len() - 1, pieces.last().push(s.last()))
        }
    }
}

pub proof fn lemma_split_nonempty(s: Seq<char>, sep: char)
    ensures
        split_on(s, sep).len() >= 1,
    decreases s.len(),
{
    if s.len() > 0 {
        lemma_split_nonempty(s.drop_last(), sep);
    }
}

pub open spec fn is_digit(c: char) -> bool {
    '0' <= c && c <= '9'
}

pub open spec fn all_digits(d: Seq<char>) -> bool {
    forall|i: int| 0 <= i < d.len() ==> is_digit(#[trigger] d[i])
}

pub open spec fn digit_value(c: char) -> int {
    (c as int) - ('0' as int)
}

/// The number that a run of decimal digits spells.
pub open spec fn digits_value(d: Seq<char>) -> int
    decreases d.len(),
{
    if d.len() == 0 {
        0
    } else {
        digits_value(d.drop_last()) * 10 + digit_value(d.last())
    }
}

/// The text after an optional leading `+`.
pub open spec fn unsigned_body(t: Seq<char>) -> Seq<char> {
    if t.len() > 0 && t[0] == '+' {
        t.drop_first()
    } else {
        t
    }
}

/// The text after an optional leading `+` or `-`.
pub open spec fn signed_body(t: Seq<char>) -> Seq<char> {
    if t.len() > 0 && (t[0] == '+' || t[0] == '-') {
        t.drop_first()
    } else {
        t
    }
}

pub open spec fn is_negative_text(t: Seq<char>) -> bool {
    t.len() > 0 && t[0] == '-'
}

/// What `u32::from_str` accepts: an optional `+`, one or more digits, a value that fits.
pub open spec fn u32_of_text(t: Seq<char>) -> Option<u32> {
    let d = unsigned_body(t);
    if d.len() > 0 && all_digits(d) && digits_value(d) <= u32::MAX {
        Some(digits_value(d) as u32)
    } else {
        None
    }
}

/// The value of an optionally signed decimal text.
pub open spec fn signed_value(t: Seq<char>) -> int {
    if is_negative_text(t) {
        -digits_value(signed_body(t))
    } else {
        digits_value(signed_body(t))
    }
}

/// What `i32::from_str` accepts: an optional sign, one or more digits, a value that fits.
pub open spec fn i32_of_text(t: Seq<char>) -> Option<i32> {
    let d = signed_body(t);
    if d.len() > 0 && all_digits(d) && i32::MIN <= signed_value(t) <= i32::MAX {
        Some(signed_value(t) as i32)
    } else {
        None
    }
}

/// A wall-clock time as written, `HH:MM`: two pieces around `:`, each a `u32`.
pub open spec fn hour_minute_of_text(s: Seq<char>) -> Option<(u32, u32)> {
    let p = split_on(s, ':');
    if p.len() == 2 && u32_of_text(p[0]) is Some && u32_of_text(p[1]) is Some {
        Some((u32_of_text(p[0])->0, u32_of_text(p[1])->0))
    } else {
        None
    }
}

/// A calendar date as written, `YYYY-MM-DD`: three pieces around `-`, an `i32`
/// and two `u32`s.
pub open spec fn ymd_of_text(s: Seq<char>) -> Option<(i32, u32, u32)> {
    let p = split_on(s, '-');
    if p.len() == 3 && i32_of_text(p[0]) is Some && u32_of_text(p[1]) is Some && u32_of_text(
        p[2],
    ) is Some {
        Some((i32_of_text(p[0])->0, u32_of_text(p[1])->0, u32_of_text(p[2])->0))
    } else {
        None
    }
}

/// Why a written time or date was not accepted.
#[derive(Debug, Clone, Copy, PartialEq, Eq, Structural)]
pub enum ParseError {
    /// Not `HH:MM`.
    MalformedTime,
    /// Not `YYYY-MM-DD`.
    MalformedDate,
}

impl ParseError {
    /// The message shown to a user.
    pub fn message(&self) -> (r: &'static str)
        ensures
            *self == ParseError::MalformedTime ==> r@
                == "Cannot parse the time. Needs to be in format HH:MM"@,
            *self == ParseError::MalformedDate ==> r@
                == "Cannot parse the date. Needs to be in format yyyy-mm-dd"@,
    {
        match self {
            ParseError::MalformedTime => "Cannot parse the time. Needs to be in format HH:MM",
            ParseError::MalformedDate => "Cannot parse the date. Needs to be in format yyyy-mm-dd",
        }
    }
}

/// Splits `s` at every `sep`.
pub fn split_fields(s: &str, sep: char) -> (r: Vec<Vec<char>>)
    ensures
        r.len() == split_on(s@, sep).len(),
        forall|i: int| 0 <= i < r.len() ==> (#[trigger] r[i])@ == split_on(s@, sep)[i],
{
    let n = s.unicode_len();
    let mut done: Vec<Vec<char>> = Vec::new();
    let mut cur: Vec<char> = Vec::new();
    let mut i: usize = 0;
    while i < n
        invariant
            n == s@.len(),
            i <= n,
            done.len() + 1 == split_on(s@.subrange(0, i as int), sep).len(),
            forall|j: int|
                0 <= j < done.len() ==> (#[trigger] done[j])@ == split_on(
                    s@.subrange(0, i as int),
                    sep,
                )[j],
            cur@ == split_on(s@.subrange(0, i as int), sep).last(),
        decreases n - i,
    {
        let c = s.get_char(i);
        let ghost before = s@.subrange(0, i as int);
        let ghost after = s@.subrange(0, i + 1);
        assert(after.drop_last() =~= before);
        assert(after.last() == c);
        proof {
            lemma_split_nonempty(before, sep);
        }
        if c == sep {
            done.push(cur);
            cur = Vec::new();
        } else {
            cur.push(c);
        }
        i = i + 1;
    }
    assert(s@.subrange(0, n as int) =~= s@);
    done.push(cur);
    done
}

pub proof fn lemma_digits_value_nonneg(d: Seq<char>)
    requires
        all_digits(d),
    ensures
        digits_value(d) >= 0,
    decreases d.len(),
{
    if d.len() > 0 {
        lemma_digits_value_nonneg(d.drop_last());
    }
}

/// A longer run of digits is worth at least as much as its prefix.
pub proof fn lemma_digits_value_grows(d: Seq<char>, i: int)
    requires
        all_digits(d),
        0 <= i <= d.len(),
    ensures
        digits_value(d.subrange(0, i)) <= digits_value(d),
    decreases d.len() - i,
{
    if i < d.len() {
        let a = d.subrange(0, i);
        let b = d.subrange(0, i + 1);
        assert(b.drop_last() =~= a);
        lemma_digits_value_nonneg(a);
        lemma_digits_value_grows(d, i + 1);
        assert(d.subrange(0, d.len() as int) =~= d);
    } else {
        assert(d.subrange(0, i) =~= d);
    }
}

/// The value of the digits of `t` from `start` on, or `None` where one is not a
/// digit, none is there, or the value passes `limit`.
fn digits_up_to(t: &Vec<char>, start: usize, limit: u64) -> (r: Option<u64>)
    requires
        start <= t.len(),
        limit <= u32::MAX + 1,
    ensures
        ({
            let d = t@.subrange(start as int, t.len() as int);
            match r {
                Some(v) => d.len() > 0 && all_digits(d) && v == digits_value(d) && v <= limit,
                None => !(d.len() > 0 && all_digits(d) && digits_value(d) <= limit),
            }
        }),
{
    let ghost d = t@.subrange(start as int, t.len() as int);
    if start == t.len() {
        return None;
    }
    let mut acc: u64 = 0;
    let mut i: usize = start;
    while i < t.len()
        invariant
            start <= i <= t.len(),
            d == t@.subrange(start as int, t.len() as int),
            limit <= u32::MAX + 1,
            all_digits(d.subrange(0, i - start)),
            acc == digits_value(d.subrange(0, i - start)),
            acc <= limit,
        decreases t.len() - i,
    {
        let c = t[i];
        let ghost a = d.subrange(0, i - start);
        let ghost b = d.subrange(0, i - start + 1);
        assert(b.drop_last() =~= a);
        assert(b.last() == c);
        if !('0' <= c && c <= '9') {
            assert(!is_digit(d[i - start]));
            return None;
        }
        let v: u64 = (c as u64) - ('0' as u64);
        assert(forall|j: int| 0 <= j < b.len() ==> #[trigger] b[j] == a[j] || j == a.len());
        assert(all_digits(b));
        if acc * 10 + v > limit {
            proof {
                if all_digits(d) {
                    lemma_digits_value_grows(d, i - start + 1);
                }
            }
            return None;
        }
        acc = acc * 10 + v;
        i = i + 1;
    }
    assert(d.subrange(0, t.len() - start) =~= d);
    Some(acc)
}

/// Reads a `u32` as `u32::from_str` does.
pub fn parse_u32(t: &Vec<char>) -> (r: Option<u32>)
    ensures
        r == u32_of_text(t@),
{
    let start: usize = if t.len() > 0 && t[0] == '+' {
        1
    } else {
        0
    };
    assert(unsigned_body(t@) =~= t@.subrange(start as int, t.len() as int));
    match digits_up_to(t, start, 0xffff_ffff) {
        Some(v) => Some(v as u32),
        None => None,
    }
}

/// Reads an `i32` as `i32::from_str` does.
pub fn parse_i32(t: &Vec<char>) -> (r: Option<i32>)
    ensures
        r == i32_of_text(t@),
{
    let negative = t.len() > 0 && t[0] == '-';
    let start: usize = if t.len() > 0 && (t[0] == '+' || t[0] == '-') {
        1
    } else {
        0
    };
    assert(signed_body(t@) =~= t@.subrange(start as int, t.len() as int));
    let limit: u64 = if negative {
        0x8000_0000
    } else {
        0x7fff_ffff
    };
    match digits_up_to(t, start, limit) {
        Some(v) => {
            if negative {
                Some((0 - (v as i64)) as i32)
            } else {
                Some(v as i32)
            }
        },
        None => None,
    }
}

/// Reads a wall-clock time written `HH:MM` into its hour and minute, which are
/// not yet checked against a day's range.
pub fn read_hour_minute(hhmm: &str) -> (r: Result<(u32, u32), ParseError>)
    ensures
        match hour_minute_of_text(hhmm@) {
            Some(hm) => r == Ok::<(u32, u32), ParseError>(hm),
            None => r == Err::<(u32, u32), ParseError>(ParseError::MalformedTime),
        },
{
    let tokens = split_fields(hhmm, ':');
    if tokens.len() != 2 {
        return Err(ParseError::MalformedTime);
    }
    let hour = parse_u32(&tokens[0]);
    let minute = parse_u32(&tokens[1]);
    match (hour, minute) {
        (Some(h), Some(m)) => Ok((h, m)),
        _ => Err(ParseError::MalformedTime),
    }
}

/// Reads a calendar date written `YYYY-MM-DD` into its year, month and day,
/// which are not yet checked against the calendar.
pub fn read_yy_mm_dd(yymmdd: &str) -> (r: Result<(i32, u32, u32), ParseError>)
    ensures
        match ymd_of_text(yymmdd@) {
            Some(ymd) => r == Ok::<(i32, u32, u32), ParseError>(ymd),
            None => r == Err::<(i32, u32, u32), ParseError>(ParseError::MalformedDate),
        },
{
    let tokens = split_fields(yymmdd, '-');
    if tokens.len() != 3 {
        return Err(ParseError::MalformedDate);
    }
    let year = parse_i32(&tokens[0]);
    let month = parse_u32(&tokens[1]);
    let day = parse_u32(&tokens[2]);
    match (year, month, day) {
        (Some(y), Some(m), Some(d)) => Ok((y, m, d)),
        _ => Err(ParseError::MalformedDate),
    }
}

} // verus!
