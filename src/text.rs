use crate::duration::{hms_total, wrapped, Duration, DurationError};
use vstd::prelude::*;
use vstd::string::StringExecFns;

verus! {

/// Whether `c` is one of the ASCII digits `0` to `9`.
pub open spec fn is_digit(c: char) -> bool {
    '0' <= c && c <= '9'
}

/// The value of the digit `c`.
pub open spec fn digit_value(c: char) -> int {
    c as int - '0' as int
}

/// The ASCII digit for `d`, for `d` in 0..10.
pub open spec fn digit_char(d: int) -> char {
    if d == 0 {
        '0'
    } else if d == 1 {
        '1'
    } else if d == 2 {
        '2'
    } else if d == 3 {
        '3'
    } else if d == 4 {
        '4'
    } else if d == 5 {
        '5'
    } else if d == 6 {
        '6'
    } else if d == 7 {
        '7'
    } else if d == 8 {
        '8'
    } else {
        '9'
    }
}

/// Whether every character of `s` is a digit.
pub open spec fn all_digits(s: Seq<char>) -> bool {
    forall|i: int| 0 <= i < s.len() ==> is_digit(#[trigger] s[i])
}

/// The number that the digits `s` spell in base ten, most significant first.
pub open spec fn decimal_value(s: Seq<char>) -> int
    decreases s.len(),
{
    if s.len() == 0 {
        0
    } else {
        decimal_value(s.drop_last()) * 10 + digit_value(s.last())
    }
}

/// The `u64` that the field `s` spells: `None` unless `s` is a non-empty
/// run of digits whose value fits in 64 bits.
pub open spec fn field_value(s: Seq<char>) -> Option<u64> {
    if s.len() > 0 && all_digits(s) && decimal_value(s) <= u64::MAX {
        Some(decimal_value(s) as u64)
    } else {
        None
    }
}

/// How many `:` characters `s` holds.
pub open spec fn colon_count(s: Seq<char>) -> nat
    decreases s.len(),
{
    if s.len() == 0 {
        0
    } else {
        colon_count(s.drop_last()) + if s.last() == ':' {
            1nat
        } else {
            0nat
        }
    }
}

/// The position of the first `:` in `s`, or its length when it has none.
pub open spec fn colon_index(s: Seq<char>) -> nat
    decreases s.len(),
{
    if s.len() == 0 {
        0
    } else if s[0] == ':' {
        0
    } else {
        1 + colon_index(s.drop_first())
    }
}

/// What comes before the first `:` of `s`.
pub open spec fn first_field(s: Seq<char>) -> Seq<char> {
    s.take(colon_index(s) as int)
}

/// What comes after the first `:` of `s`.
pub open spec fn after_colon(s: Seq<char>) -> Seq<char> {
    s.skip(colon_index(s) + 1int)
}

/// The hours field of `hours:minutes:seconds`.
pub open spec fn hours_text(s: Seq<char>) -> Seq<char> {
    first_field(s)
}

/// The minutes field of `hours:minutes:seconds`.
pub open spec fn minutes_text(s: Seq<char>) -> Seq<char> {
    first_field(after_colon(s))
}

/// The seconds field of `hours:minutes:seconds`.
pub open spec fn seconds_text(s: Seq<char>) -> Seq<char> {
    after_colon(after_colon(s))
}

/// The seconds that the text `s` stands for, or why it stands for none.
pub open spec fn parse_secs(s: Seq<char>) -> Result<u64, DurationError> {
    if colon_count(s) != 2 {
        Err(DurationError::InvalidFormat)
    } else {
        match (
            field_value(hours_text(s)),
            field_value(minutes_text(s)),
            field_value(seconds_text(s)),
        ) {
            (Some(h), Some(m), Some(x)) => if m < 60 && x < 60 {
                Ok(wrapped(hms_total(h as int, m as int, x as int)))
            } else {
                Err(DurationError::InvalidValue)
            },
            _ => Err(DurationError::InvalidValue),
        }
    }
}

/// `n` in base ten, without leading zeros.
pub open spec fn decimal(n: nat) -> Seq<char>
    decreases n,
{
    if n < 10 {
        seq![digit_char(n as int)]
    } else {
        decimal(n / 10).push(digit_char((n % 10) as int))
    }
}

/// `n` in base ten, with a leading zero when it has a single digit.
pub open spec fn padded(n: nat) -> Seq<char> {
    if n < 10 {
        seq!['0'] + decimal(n)
    } else {
        decimal(n)
    }
}

/// The `hours:minutes:seconds` text of `d`.
pub open spec fn clock_text(d: Duration) -> Seq<char> {
    let t = d.secs();
    padded((t / 3600) as nat) + seq![':'] + padded(((t % 3600) / 60) as nat) + seq![':']
        + padded((t % 60) as nat)
}


pub(crate) proof fn lemma_colon_count_append(a: Seq<char>, b: Seq<char>)
    ensures
        colon_count(a + b) == colon_count(a) + colon_count(b),
    decreases b.len(),
{
    if b.len() == 0 {
        assert(a + b =~= a);
    } else {
        assert((a + b).drop_last() =~= a + b.drop_last());
        lemma_colon_count_append(a, b.drop_last());
    }
}

pub(crate) proof fn lemma_no_colon_count(s: Seq<char>)
    requires
        forall|t: int| 0 <= t < s.len() ==> s[t] != ':',
    ensures
        colon_count(s) == 0,
    decreases s.len(),
{
    if s.len() > 0 {
        lemma_no_colon_count(s.drop_last());
    }
}

pub(crate) proof fn lemma_colon_index_at(s: Seq<char>, k: int)
    requires
        0 <= k <= s.len(),
        forall|t: int| 0 <= t < k ==> s[t] != ':',
        k == s.len() || s[k] == ':',
    ensures
        colon_index(s) == k,
    decreases k,
{
    if k > 0 {
        lemma_colon_index_at(s.drop_first(), k - 1);
    }
}

proof fn lemma_colon_index_facts(s: Seq<char>)
    ensures
        colon_index(s) <= s.len(),
        forall|t: int| 0 <= t < colon_index(s) ==> s[t] != ':',
        colon_index(s) < s.len() ==> s[colon_index(s) as int] == ':',
    decreases s.len(),
{
    if s.len() > 0 && s[0] != ':' {
        lemma_colon_index_facts(s.drop_first());
        assert forall|t: int| 0 <= t < colon_index(s) implies s[t] != ':' by {
            if t > 0 {
                assert(s[t] == s.drop_first()[t - 1]);
            }
        }
    }
}

/// With at least one `:` in `s`, the first one splits it into a field
/// without colons and a rest with one colon fewer.
proof fn lemma_split_first_colon(s: Seq<char>)
    requires
        colon_count(s) > 0,
    ensures
        colon_index(s) < s.len(),
        colon_count(after_colon(s)) + 1 == colon_count(s),
{
    lemma_colon_index_facts(s);
    let i = colon_index(s) as int;
    if i == s.len() {
        lemma_no_colon_count(s);
    } else {
        let head = s.take(i);
        lemma_no_colon_count(head);
        assert(s =~= head + (seq![':'] + after_colon(s)));
        lemma_colon_count_append(head, seq![':'] + after_colon(s));
        lemma_colon_count_append(seq![':'], after_colon(s));
        let colon: Seq<char> = seq![':'];
        assert(colon.drop_last() =~= Seq::<char>::empty());
        assert(colon.last() == ':');
        assert(colon_count(Seq::<char>::empty()) == 0);
        assert(colon_count(colon) == 1);
    }
}

proof fn lemma_decimal_value_grows(s: Seq<char>, k: int)
    requires
        all_digits(s),
        0 <= k <= s.len(),
    ensures
        0 <= decimal_value(s.take(k)) <= decimal_value(s),
    decreases s.len(),
{
    if s.len() > 0 {
        let p = s.drop_last();
        if k == s.len() {
            assert(s.take(k) =~= s);
            lemma_decimal_value_grows(p, p.len() as int);
            assert(p.take(p.len() as int) =~= p);
        } else {
            assert(s.take(k) =~= p.take(k));
            lemma_decimal_value_grows(p, k);
            lemma_decimal_value_grows(p, p.len() as int);
            assert(p.take(p.len() as int) =~= p);
        }
    }
}

/// The characters of `s`, in order.
fn chars_of(s: &str) -> (v: Vec<char>)
    ensures
        v@ == s@,
{
    let mut v: Vec<char> = Vec::new();
    for c in it: s.chars()
        invariant
            v@ == it.seq().take(it.index() as int),
    {
        v.push(c);
    }
    v
}

/// How many `:` characters `v` holds.
fn count_colons(v: &Vec<char>) -> (r: usize)
    ensures
        r == colon_count(v@),
{
    let mut count: usize = 0;
    let mut k: usize = 0;
    while k < v.len()
        invariant
            k <= v.len(),
            count == colon_count(v@.take(k as int)),
            count <= k,
        decreases v.len() - k,
    {
        assert(v@.take(k + 1).drop_last() =~= v@.take(k as int));
        if v[k] == ':' {
            count = count + 1;
        }
        k = k + 1;
    }
    assert(v@.take(k as int) =~= v@);
    count
}

/// The position of the first `:` of `v` at or after `start`, or the length
/// of `v` when there is none.
fn find_colon(v: &Vec<char>, start: usize) -> (r: usize)
    requires
        start <= v.len(),
    ensures
        r == start + colon_index(v@.skip(start as int)),
{
    let mut k: usize = start;
    while k < v.len() && v[k] != ':'
        invariant
            start <= k <= v.len(),
            forall|t: int| start <= t < k ==> v@[t] != ':',
        decreases v.len() - k,
    {
        k = k + 1;
    }
    proof {
        lemma_colon_index_at(v@.skip(start as int), (k - start) as int);
    }
    k
}

/// The value of the field `v[lo..hi]`, as `field_value` reads it.
fn read_field(v: &Vec<char>, lo: usize, hi: usize) -> (r: Option<u64>)
    requires
        lo <= hi <= v.len(),
    ensures
        r == field_value(v@.subrange(lo as int, hi as int)),
{
    let ghost field = v@.subrange(lo as int, hi as int);
    if lo == hi {
        return None;
    }
    let mut acc: u64 = 0;
    let mut k: usize = lo;
    while k < hi
        invariant
            lo <= k <= hi <= v.len(),
            field == v@.subrange(lo as int, hi as int),
            all_digits(v@.subrange(lo as int, k as int)),
            acc == decimal_value(v@.subrange(lo as int, k as int)),
        decreases hi - k,
    {
        let c = v[k];
        let ghost next = v@.subrange(lo as int, k + 1);
        assert(next.drop_last() =~= v@.subrange(lo as int, k as int));
        assert(next =~= field.take(k + 1 - lo));
        if !('0' <= c && c <= '9') {
            assert(!is_digit(field[k - lo]));
            return None;
        }
        let d = (c as u32 - '0' as u32) as u64;
        let step = match acc.checked_mul(10) {
            Some(t) => t.checked_add(d),
            None => None,
        };
        match step {
            Some(x) => {
                acc = x;
            },
            None => {
                proof {
                    if all_digits(field) {
                        lemma_decimal_value_grows(field, k + 1 - lo);
                    }
                }
                return None;
            },
        }
        k = k + 1;
    }
    Some(acc)
}

/// The one-character text of the digit `d`.
fn digit_text(d: u64) -> (r: &'static str)
    requires
        d < 10,
    ensures
        r@ == seq![digit_char(d as int)],
{
    if d == 0 {
        proof { reveal_strlit("0"); }
        "0"
    } else if d == 1 {
        proof { reveal_strlit("1"); }
        "1"
    } else if d == 2 {
        proof { reveal_strlit("2"); }
        "2"
    } else if d == 3 {
        proof { reveal_strlit("3"); }
        "3"
    } else if d == 4 {
        proof { reveal_strlit("4"); }
        "4"
    } else if d == 5 {
        proof { reveal_strlit("5"); }
        "5"
    } else if d == 6 {
        proof { reveal_strlit("6"); }
        "6"
    } else if d == 7 {
        proof { reveal_strlit("7"); }
        "7"
    } else if d == 8 {
        proof { reveal_strlit("8"); }
        "8"
    } else {
        proof { reveal_strlit("9"); }
        "9"
    }
}

/// Appends `n` in base ten to `out`.
fn push_decimal(out: &mut String, n: u64)
    ensures
        final(out)@ == old(out)@ + decimal(n as nat),
    decreases n,
{
    if n >= 10 {
        push_decimal(out, n / 10);
        out.append(digit_text(n % 10));
        assert(final(out)@ =~= old(out)@ + decimal(n as nat));
    } else {
        out.append(digit_text(n));
    }
}

/// Appends `n` in base ten to `out`, with a leading zero when it has a
/// single digit.
fn push_padded(out: &mut String, n: u64)
    ensures
        final(out)@ == old(out)@ + padded(n as nat),
{
    if n < 10 {
        proof { reveal_strlit("0"); }
        out.append("0");
    }
    push_decimal(out, n);
    assert(final(out)@ =~= old(out)@ + padded(n as nat));
}

impl Duration {
    /// The `hours:minutes:seconds` text of this duration: each field in
    /// base ten, at least two digits wide; the hours field grows as needed.
    pub fn format(&self) -> (r: String)
        ensures
            r@ == clock_text(*self),
    {
        let mut out = String::new();
        push_padded(&mut out, self.hours_part());
        proof { reveal_strlit(":"); }
        out.append(":");
        push_padded(&mut out, self.minutes_part());
        out.append(":");
        push_padded(&mut out, self.seconds_part());
        assert(out@ =~= clock_text(*self));
        out
    }

    /// Reads `hours:minutes:seconds`: three fields of decimal digits split
    /// by `:`, the minutes and seconds below 60, the hours unbounded.
    pub fn parse(s: &str) -> (r: Result<Duration, DurationError>)
        ensures
            match parse_secs(s@) {
                Ok(n) => r matches Ok(d) && d.secs() == n,
                Err(e) => r == Err::<Duration, DurationError>(e),
            },
    {
        let v = chars_of(s);
        if count_colons(&v) != 2 {
            return Err(DurationError::InvalidFormat);
        }
        proof {
            lemma_split_first_colon(v@);
            lemma_split_first_colon(after_colon(v@));
        }
        let i = find_colon(&v, 0);
        assert(v@.skip(0) =~= v@);
        let j = find_colon(&v, i + 1);
        assert(v@.skip(i + 1) =~= after_colon(v@));
        assert(v@.subrange(0, i as int) =~= hours_text(v@));
        assert(v@.subrange(i + 1, j as int) =~= minutes_text(v@));
        assert(v@.subrange(j + 1, v.len() as int) =~= seconds_text(v@));
        let hours = read_field(&v, 0, i);
        let minutes = read_field(&v, i + 1, j);
        let seconds = read_field(&v, j + 1, v.len());
        match (hours, minutes, seconds) {
            (Some(h), Some(m), Some(x)) => {
                if m >= 60 || x >= 60 {
                    Err(DurationError::InvalidValue)
                } else {
                    Ok(Duration::from_hms(h, m, x))
                }
            },
            _ => Err(DurationError::InvalidValue),
        }
    }
}

} // verus!
