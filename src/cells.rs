use vstd::prelude::*;

verus! {

/// What `str::trim` leaves of a text.
pub uninterp spec fn trim_of(s: Seq<char>) -> Seq<char>;

/// Relies on `str::trim`: the text without its leading and trailing
/// whitespace, a function of the characters alone.
#[verifier::external_body]
fn trim_text(s: &str) -> (r: String)
    ensures
        r@ == trim_of(s@),
{
    s.trim().to_string()
}

/// The text with every `,` (thousands separator) taken out.
pub open spec fn without_commas(s: Seq<char>) -> Seq<char>
    decreases s.len(),
{
    if s.len() == 0 {
        s
    } else {
        let rest = without_commas(s.drop_last());
        if s.last() == ',' {
            rest
        } else {
            rest.push(s.last())
        }
    }
}

/// The normalized text of a cell: trimmed, thousands separators removed.
pub open spec fn cell_text(raw: Seq<char>) -> Seq<char> {
    without_commas(trim_of(raw))
}

/// Normalizes the flattened text of a table cell.
pub fn normalize_cell(raw: &str) -> (r: String)
    ensures
        r@ == cell_text(raw@),
{
    let t = trim_text(raw);
    let ts = t.as_str();
    let n = ts.unicode_len();
    let mut out = String::new();
    let mut i: usize = 0;
    while i < n
        invariant
            n == ts@.len(),
            ts@ == trim_of(raw@),
            i <= n,
            out@ == without_commas(ts@.subrange(0, i as int)),
        decreases n - i,
    {
        let c = ts.get_char(i);
        if c != ',' {
            out.append(ts.substring_char(i, i + 1));
        }
        proof {
            assert(ts@.subrange(0, i + 1).drop_last() =~= ts@.subrange(0, i as int));
        }
        i += 1;
    }
    proof {
        assert(ts@.subrange(0, n as int) =~= ts@);
    }
    out
}

pub open spec fn is_digit(c: char) -> bool {
    '0' <= c && c <= '9'
}

pub open spec fn all_digits(s: Seq<char>) -> bool {
    forall|i: int| 0 <= i < s.len() ==> is_digit(#[trigger] s[i])
}

/// The number that a string of decimal digits writes.
pub open spec fn digits_value(s: Seq<char>) -> nat
    decreases s.len(),
{
    if s.len() == 0 {
        0
    } else {
        (digits_value(s.drop_last()) * 10 + (s.last() as int - '0' as int)) as nat
    }
}

/// The digits of an unsigned integer text: a leading `+` is allowed.
pub open spec fn unsigned_digits(s: Seq<char>) -> Seq<char> {
    if s.len() > 0 && s[0] == '+' {
        s.drop_first()
    } else {
        s
    }
}

/// The value of a text read as a `u32`, in the syntax of `u32::from_str`:
/// an optional `+`, then one or more ASCII digits, the value within range.
pub open spec fn parsed_u32(s: Seq<char>) -> Option<u32> {
    let d = unsigned_digits(s);
    if d.len() > 0 && all_digits(d) && digits_value(d) <= u32::MAX {
        Some(digits_value(d) as u32)
    } else {
        None
    }
}

/// Reads a text as a non-negative integer that fits a `u32`.
pub fn parse_u32(s: &str) -> (r: Option<u32>)
    ensures
        r == parsed_u32(s@),
{
    let n = s.unicode_len();
    let start: usize = if n > 0 && s.get_char(0) == '+' { 1 } else { 0 };
    let ghost d = unsigned_digits(s@);
    assert(d =~= s@.subrange(start as int, n as int));
    assert(d == unsigned_digits(s@));
    if start == n {
        return None;
    }
    let mut acc: u64 = 0;
    let mut overflow = false;
    let mut i: usize = start;
    while i < n
        invariant
            n == s@.len(),
            start <= i <= n,
            d == unsigned_digits(s@),
            d =~= s@.subrange(start as int, n as int),
            all_digits(s@.subrange(start as int, i as int)),
            acc <= u32::MAX,
            !overflow ==> acc == digits_value(s@.subrange(start as int, i as int)),
            overflow ==> digits_value(s@.subrange(start as int, i as int)) > u32::MAX,
        decreases n - i,
    {
        let c = s.get_char(i);
        let ghost pre = s@.subrange(start as int, i as int);
        let ghost next = s@.subrange(start as int, i + 1);
        assert(next.drop_last() =~= pre);
        if c < '0' || c > '9' {
            assert(d[i - start] == c);
            assert(!is_digit(d[i - start]));
            assert(!all_digits(d));
            assert(d == unsigned_digits(s@));
            return None;
        }
        let digit = (c as u32 - '0' as u32) as u64;
        assert(all_digits(next)) by {
            assert forall|k: int| 0 <= k < next.len() implies is_digit(#[trigger] next[k]) by {
                if k < pre.len() {
                    assert(next[k] == pre[k]);
                }
            }
        }
        if overflow {
            let ghost v = digits_value(pre);
            assert(v * 10 + digit >= v) by (nonlinear_arith);
        } else {
            let v = acc * 10 + digit;
            if v > u32::MAX as u64 {
                overflow = true;
            } else {
                acc = v;
            }
        }
        i += 1;
    }
    assert(s@.subrange(start as int, n as int) =~= d);
    if overflow {
        None
    } else {
        Some(acc as u32)
    }
}

/// Whether a cell reads exactly `0`.
pub open spec fn is_zero_text(t: Seq<char>) -> bool {
    t =~= seq!['0']
}

/// Whether a cell reads exactly `100000`.
pub open spec fn is_cohort_text(t: Seq<char>) -> bool {
    t =~= seq!['1', '0', '0', '0', '0', '0']
}

/// Whether a cell text reads exactly `0`.
pub fn zero_text(s: &str) -> (r: bool)
    ensures
        r == is_zero_text(s@),
{
    s.unicode_len() == 1 && s.get_char(0) == '0'
}

/// Whether a cell text reads exactly `100000`.
pub fn cohort_text(s: &str) -> (r: bool)
    ensures
        r == is_cohort_text(s@),
{
    s.unicode_len() == 6 && s.get_char(0) == '1' && s.get_char(1) == '0' && s.get_char(2) == '0'
        && s.get_char(3) == '0' && s.get_char(4) == '0' && s.get_char(5) == '0'
}

} // verus!
