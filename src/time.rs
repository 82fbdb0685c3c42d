//! Timezone entries and the rendering of UTC offsets.
use vstd::prelude::*;

verus! {

pub open spec fn is_digit(c: char) -> bool {
    '0' <= c && c <= '9'
}

pub open spec fn all_digits(s: Seq<char>) -> bool {
    forall|i: int| 0 <= i < s.len() ==> #[trigger] is_digit(s[i])
}

/// The number that a run of decimal digits spells.
pub open spec fn digits_value(s: Seq<char>) -> nat
    decreases s.len(),
{
    if s.len() == 0 {
        0
    } else {
        digits_value(s.drop_last()) * 10 + ((s.last() as nat) - ('0' as nat)) as nat
    }
}

pub open spec fn digit_char(d: nat) -> char {
    if d == 0 { '0' }
    else if d == 1 { '1' }
    else if d == 2 { '2' }
    else if d == 3 { '3' }
    else if d == 4 { '4' }
    else if d == 5 { '5' }
    else if d == 6 { '6' }
    else if d == 7 { '7' }
    else if d == 8 { '8' }
    else { '9' }
}

/// Decimal notation of `n`, without leading zeros.
pub open spec fn decimal(n: nat) -> Seq<char>
    decreases n,
{
    if n < 10 {
        seq![digit_char(n)]
    } else {
        decimal(n / 10) + seq![digit_char(n % 10)]
    }
}

/// The part of an offset after an optional leading minus sign.
pub open spec fn magnitude_text(s: Seq<char>) -> Seq<char> {
    if s.len() > 0 && s[0] == '-' {
        s.drop_first()
    } else {
        s
    }
}

/// An offset is well formed when its magnitude is a non-empty run of digits
/// whose value fits in a `u64`.
pub open spec fn offset_well_formed(s: Seq<char>) -> bool {
    let m = magnitude_text(s);
    m.len() > 0 && all_digits(m) && digits_value(m) <= u64::MAX
}

/// Minutes as shown in a label: a zero is written `00`.
pub open spec fn minutes_text(m: nat) -> Seq<char> {
    if m == 0 {
        seq!['0', '0']
    } else {
        decimal(m)
    }
}

/// The label `UTC±H:MM` for an offset in seconds: the sign is `-` exactly when
/// the text starts with `-`; hours are whole, minutes are the whole minutes left
/// over. A malformed offset gives the empty label.
pub open spec fn offset_label(s: Seq<char>) -> Seq<char> {
    if offset_well_formed(s) {
        let n = digits_value(magnitude_text(s));
        let sign = if s[0] == '-' { '-' } else { '+' };
        seq!['U', 'T', 'C', sign] + decimal(n / 3600) + seq![':'] + minutes_text((n % 3600) / 60)
    } else {
        Seq::empty()
    }
}

proof fn lemma_digits_value_prefix(s: Seq<char>, k: int)
    requires
        0 <= k <= s.len(),
        all_digits(s),
    ensures
        digits_value(s.subrange(0, k)) <= digits_value(s),
    decreases s.len(),
{
    if k < s.len() {
        assert(s.drop_last() =~= s.subrange(0, s.len() - 1));
        assert(s.drop_last().subrange(0, k) =~= s.subrange(0, k));
        lemma_digits_value_prefix(s.drop_last(), k);
    }
    else {
        assert(s.subrange(0, k) =~= s);
    }
}

fn digit_str(d: u64) -> (r: &'static str)
    requires
        d < 10,
    ensures
        r@ == seq![digit_char(d as nat)],
{
    proof {
        reveal_strlit("0");
        reveal_strlit("1");
        reveal_strlit("2");
        reveal_strlit("3");
        reveal_strlit("4");
        reveal_strlit("5");
        reveal_strlit("6");
        reveal_strlit("7");
        reveal_strlit("8");
        reveal_strlit("9");
    }
    if d == 0 { "0" }
    else if d == 1 { "1" }
    else if d == 2 { "2" }
    else if d == 3 { "3" }
    else if d == 4 { "4" }
    else if d == 5 { "5" }
    else if d == 6 { "6" }
    else if d == 7 { "7" }
    else if d == 8 { "8" }
    else { "9" }
}

/// Decimal notation of `n`.
pub fn decimal_string(n: u64) -> (r: String)
    ensures
        r@ == decimal(n as nat),
    decreases n,
{
    if n < 10 {
        String::from_str(digit_str(n))
    } else {
        let head = decimal_string(n / 10);
        head.concat(digit_str(n % 10))
    }
}

/// Renders an offset in seconds, as the feed writes it, as `UTC±H:MM`.
/// Malformed text gives the empty string.
pub fn second_offset_to_utc_offset(offset: String) -> (r: String)
    ensures
        r@ == offset_label(offset@),
{
    let s = offset.as_str();
    let len = s.unicode_len();
    let negative = len > 0 && s.get_char(0) == '-';
    let start: usize = if negative { 1 } else { 0 };
    let ghost m = magnitude_text(offset@);
    assert(m =~= offset@.subrange(start as int, len as int));
    if start == len {
        return String::new();
    }
    let mut n: u64 = 0;
    let mut i: usize = start;
    while i < len
        invariant
            start <= i <= len,
            len == offset@.len(),
            s@ == offset@,
            m =~= offset@.subrange(start as int, len as int),
            m == magnitude_text(offset@),
            negative == (len > 0 && offset@[0] == '-'),
            all_digits(m.subrange(0, i - start)),
            n as nat == digits_value(m.subrange(0, i - start)),
        decreases len - i,
    {
        let c = s.get_char(i);
        if !('0' <= c && c <= '9') {
            assert(m[(i - start) as int] == c);
            assert(!is_digit(m[(i - start) as int]));
            assert(!all_digits(m));
            assert(!offset_well_formed(offset@));
            return String::new();
        }
        let d: u64 = (c as u32 - '0' as u32) as u64;
        let ghost p = m.subrange(0, i - start + 1);
        assert(p.drop_last() =~= m.subrange(0, i - start));
        assert(p.last() == c);
        assert(all_digits(p)) by {
            assert forall|j: int| 0 <= j < p.len() implies #[trigger] is_digit(p[j]) by {
                if j < p.len() - 1 {
                    assert(p[j] == m.subrange(0, i - start)[j]);
                }
            }
        }
        if n > (u64::MAX - d) / 10 {
            assert(digits_value(p) > u64::MAX) by (nonlinear_arith)
                requires
                    digits_value(p) == n * 10 + d,
                    n > (u64::MAX - d) / 10,
                    d < 10,
            ;
            proof {
                if all_digits(m) {
                    lemma_digits_value_prefix(m, (i - start + 1) as int);
                    assert(m.subrange(0, i - start + 1) =~= p);
                }
            }
            assert(!offset_well_formed(offset@));
            return String::new();
        }
        assert(n * 10 + d <= u64::MAX) by (nonlinear_arith)
            requires
                n <= (u64::MAX - d) / 10,
                d < 10,
        ;
        n = n * 10 + d;
        i = i + 1;
    }
    assert(m.subrange(0, i - start) =~= m);
    let hours = decimal_string(n / 3600);
    let minutes_value = (n % 3600) / 60;
    proof {
        reveal_strlit("UTC+");
        reveal_strlit("UTC-");
        reveal_strlit(":");
        reveal_strlit("00");
    }
    let mut label = if negative {
        String::from_str("UTC-")
    } else {
        String::from_str("UTC+")
    };
    label.append(hours.as_str());
    label.append(":");
    if minutes_value == 0 {
        label.append("00");
    } else {
        let minutes = decimal_string(minutes_value);
        label.append(minutes.as_str());
    }
    label
}

} // verus!
