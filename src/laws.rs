use crate::duration::{hms_total, wrapped, word_modulus, Duration};
use crate::text::{
    after_colon, all_digits, clock_text, colon_count, decimal, decimal_value, digit_char,
    digit_value, field_value, first_field, hours_text, is_digit, lemma_colon_count_append,
    lemma_colon_index_at, lemma_no_colon_count, minutes_text, padded, parse_secs, seconds_text,
};
use vstd::prelude::*;
use vstd::std_specs::cmp::PartialOrdSpec;

verus! {

proof fn lemma_digit_char(d: int)
    requires
        0 <= d < 10,
    ensures
        is_digit(digit_char(d)),
        digit_value(digit_char(d)) == d,
{
}

proof fn lemma_decimal(n: nat)
    ensures
        all_digits(decimal(n)),
        decimal(n).len() >= 1,
        decimal(n).len() == 1 <==> n < 10,
        decimal_value(decimal(n)) == n,
    decreases n,
{
    if n < 10 {
        lemma_digit_char(n as int);
        let s = decimal(n);
        assert(s.drop_last() =~= Seq::<char>::empty());
        assert(decimal_value(Seq::<char>::empty()) == 0);
    } else {
        lemma_decimal(n / 10);
        lemma_digit_char((n % 10) as int);
        let s = decimal(n);
        assert(s.drop_last() =~= decimal(n / 10));
        assert(forall|i: int| 0 <= i < s.len() - 1 ==> s[i] == decimal(n / 10)[i]);
    }
}

proof fn lemma_leading_zero(t: Seq<char>)
    ensures
        decimal_value(seq!['0'] + t) == decimal_value(t),
    decreases t.len(),
{
    let s = seq!['0'] + t;
    if t.len() == 0 {
        assert(s.drop_last() =~= Seq::<char>::empty());
        assert(decimal_value(Seq::<char>::empty()) == 0);
    } else {
        assert(s.drop_last() =~= seq!['0'] + t.drop_last());
        lemma_leading_zero(t.drop_last());
    }
}

proof fn lemma_padded(n: nat)
    ensures
        all_digits(padded(n)),
        padded(n).len() >= 2,
        decimal_value(padded(n)) == n,
        forall|i: int| 0 <= i < padded(n).len() ==> padded(n)[i] != ':',
{
    lemma_decimal(n);
    if n < 10 {
        lemma_leading_zero(decimal(n));
        let p = padded(n);
        assert forall|i: int| 0 <= i < p.len() implies is_digit(#[trigger] p[i]) by {
            if i > 0 {
                assert(p[i] == decimal(n)[i - 1]);
            }
        }
    }
    let p = padded(n);
    assert forall|i: int| 0 <= i < p.len() implies p[i] != ':' by {
        assert(is_digit(p[i]));
    }
}

/// How `a`, a colon and `rest` come apart at that colon, when `a` holds none.
proof fn lemma_split_at_field(a: Seq<char>, rest: Seq<char>)
    requires
        forall|i: int| 0 <= i < a.len() ==> a[i] != ':',
    ensures
        first_field(a + seq![':'] + rest) == a,
        after_colon(a + seq![':'] + rest) == rest,
        colon_count(a + seq![':'] + rest) == 1 + colon_count(rest),
{
    let s = a + seq![':'] + rest;
    lemma_colon_index_at(s, a.len() as int);
    assert(s.take(a.len() as int) =~= a);
    assert(s.skip(a.len() + 1int) =~= rest);
    lemma_colon_count_append(a + seq![':'], rest);
    lemma_colon_count_append(a, seq![':']);
    lemma_no_colon_count(a);
    let colon: Seq<char> = seq![':'];
    assert(colon.drop_last() =~= Seq::<char>::empty());
    assert(colon_count(Seq::<char>::empty()) == 0);
}

/// The duration made from `s` seconds holds `s` seconds.
pub proof fn law_seconds_round_trip(s: u64)
    ensures
        Duration::of_secs(s).secs() == s,
{
    Duration::lemma_of_secs(s);
}

/// Every duration reads back as its hours field times 3600, plus its
/// minutes field times 60, plus its seconds field; the minutes and seconds
/// fields lie in 0..60, and the hours field is the count of whole hours.
pub proof fn law_decomposition(d: Duration)
    ensures
        (d.secs() / 3600) * 3600 + ((d.secs() % 3600) / 60) * 60 + d.secs() % 60 == d.secs(),
        (d.secs() % 3600) / 60 < 60,
        d.secs() % 60 < 60,
{
    let t = d.secs() as int;
    assert((t / 3600) * 3600 + ((t % 3600) / 60) * 60 + t % 60 == t) by (nonlinear_arith);
    assert((t % 3600) / 60 < 60) by (nonlinear_arith);
}

/// The text of a duration has exactly two `:` separators, and each of its
/// three fields is made of digits only and is at least two digits long.
pub proof fn law_format_shape(d: Duration)
    ensures
        colon_count(clock_text(d)) == 2,
        all_digits(hours_text(clock_text(d))),
        all_digits(minutes_text(clock_text(d))),
        all_digits(seconds_text(clock_text(d))),
        hours_text(clock_text(d)).len() >= 2,
        minutes_text(clock_text(d)).len() >= 2,
        seconds_text(clock_text(d)).len() >= 2,
{
    let t = d.secs();
    let ph = padded((t / 3600) as nat);
    let pm = padded(((t % 3600) / 60) as nat);
    let ps = padded((t % 60) as nat);
    lemma_padded((t / 3600) as nat);
    lemma_padded(((t % 3600) / 60) as nat);
    lemma_padded((t % 60) as nat);
    let tail = pm + seq![':'] + ps;
    assert(clock_text(d) =~= ph + seq![':'] + tail);
    lemma_split_at_field(ph, tail);
    lemma_split_at_field(pm, ps);
    lemma_no_colon_count(ps);
}

/// Reading the text of any duration gives that duration back; in
/// particular, for any `h`, `m`, `s` with `m, s < 60`, parsing the text of
/// `from_hms(h, m, s)` gives `from_hms(h, m, s)`.
pub proof fn law_parse_format_round_trip(d: Duration)
    ensures
        parse_secs(clock_text(d)) == Ok::<u64, crate::duration::DurationError>(d.secs()),
{
    let t = d.secs();
    let h = (t / 3600) as nat;
    let m = ((t % 3600) / 60) as nat;
    let x = (t % 60) as nat;
    law_format_shape(d);
    law_decomposition(d);
    lemma_padded(h);
    lemma_padded(m);
    lemma_padded(x);
    let tail = padded(m) + seq![':'] + padded(x);
    assert(clock_text(d) =~= padded(h) + seq![':'] + tail);
    lemma_split_at_field(padded(h), tail);
    lemma_split_at_field(padded(m), padded(x));
    assert(field_value(hours_text(clock_text(d))) == Some(h as u64));
    assert(field_value(minutes_text(clock_text(d))) == Some(m as u64));
    assert(field_value(seconds_text(clock_text(d))) == Some(x as u64));
    assert(hms_total(h as int, m as int, x as int) == t);
    assert(wrapped(t as int) == t) by {
        assert((t as int) % word_modulus() == t as int);
    }
}

/// Durations compare as their numbers of seconds do.
pub proof fn law_order_by_seconds(a: Duration, b: Duration)
    ensures
        (a.partial_cmp_spec(&b) == Some(core::cmp::Ordering::Less)) <==> a.secs() < b.secs(),
        (a.partial_cmp_spec(&b) == Some(core::cmp::Ordering::Equal)) <==> a.secs() == b.secs(),
        (a.partial_cmp_spec(&b) == Some(core::cmp::Ordering::Greater)) <==> a.secs() > b.secs(),
        (a == b) <==> a.secs() == b.secs(),
{
    Duration::lemma_eq_iff_secs(a, b);
}

} // verus!
