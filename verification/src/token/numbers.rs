//! Reading integer and floating-point literals from their digit text.
use vstd::prelude::*;

verus! {

/// Why a digit string is not an integer of the wanted type.
#[derive(Copy, Clone, Debug, PartialEq, Eq, Structural)]
pub enum IntErrorKind {
    Empty,
    InvalidDigit,
    PosOverflow,
    NegOverflow,
}

/// Value of an ASCII digit in the given radix (2, 10 or 16).
pub open spec fn digit_value(c: char, radix: nat) -> Option<nat> {
    if '0' <= c <= '9' && (c as nat) - ('0' as nat) < radix {
        Some(((c as nat) - ('0' as nat)) as nat)
    } else if radix == 16 && 'a' <= c <= 'f' {
        Some(((c as nat) - ('a' as nat) + 10) as nat)
    } else if radix == 16 && 'A' <= c <= 'F' {
        Some(((c as nat) - ('A' as nat) + 10) as nat)
    } else {
        None
    }
}

/// Reads `ds` left to right into `acc`; the first character that is not a
/// digit, or that takes the value outside `lo..=hi`, decides the error.
pub open spec fn scan_int(ds: Seq<char>, radix: nat, acc: int, positive: bool, lo: int, hi: int) -> Result<int, IntErrorKind>
    decreases ds.len(),
{
    if ds.len() == 0 {
        Ok(acc)
    } else {
        match digit_value(ds[0], radix) {
            None => Err(IntErrorKind::InvalidDigit),
            Some(d) => {
                let next = if positive { acc * radix + d } else { acc * radix - d };
                if next > hi {
                    Err(IntErrorKind::PosOverflow)
                } else if next < lo {
                    Err(IntErrorKind::NegOverflow)
                } else {
                    scan_int(ds.drop_first(), radix, next, positive, lo, hi)
                }
            }
        }
    }
}

/// What `from_str_radix` gives for `s` in a type with range `lo..=hi`:
/// an optional `+` (or `-` for signed types) followed by at least one digit.
pub open spec fn parse_int_spec(s: Seq<char>, radix: nat, lo: int, hi: int) -> Result<int, IntErrorKind> {
    let signed = lo < 0;
    if s.len() == 0 {
        Err(IntErrorKind::Empty)
    } else if (s[0] == '+' || s[0] == '-') && s.len() == 1 {
        Err(IntErrorKind::InvalidDigit)
    } else if s[0] == '+' {
        scan_int(s.drop_first(), radix, 0, true, lo, hi)
    } else if s[0] == '-' && signed {
        scan_int(s.drop_first(), radix, 0, false, lo, hi)
    } else {
        scan_int(s, radix, 0, true, lo, hi)
    }
}

pub open spec fn res_i64(r: Result<int, IntErrorKind>) -> Result<i64, IntErrorKind> {
    match r {
        Ok(v) => Ok(v as i64),
        Err(e) => Err(e),
    }
}

pub open spec fn res_i32(r: Result<int, IntErrorKind>) -> Result<i32, IntErrorKind> {
    match r {
        Ok(v) => Ok(v as i32),
        Err(e) => Err(e),
    }
}

pub open spec fn res_u32(r: Result<int, IntErrorKind>) -> Result<u32, IntErrorKind> {
    match r {
        Ok(v) => Ok(v as u32),
        Err(e) => Err(e),
    }
}

/// Value of an ASCII digit in `radix`, if it is one.
fn digit_of(c: char, radix: u32) -> (r: Option<u32>)
    requires
        radix == 2 || radix == 10 || radix == 16,
    ensures
        match digit_value(c, radix as nat) {
            Some(d) => r == Some(d as u32),
            None => r.is_none(),
        },
{
    if '0' <= c && c <= '9' {
        let d: u32 = (c as u32) - ('0' as u32);
        if d < radix {
            Some(d)
        } else {
            None
        }
    } else if radix == 16 && 'a' <= c && c <= 'f' {
        Some((c as u32) - ('a' as u32) + 10)
    } else if radix == 16 && 'A' <= c && c <= 'F' {
        Some((c as u32) - ('A' as u32) + 10)
    } else {
        None
    }
}

proof fn lemma_scan_int_range(ds: Seq<char>, radix: nat, acc: int, positive: bool, lo: int, hi: int)
    requires
        lo <= acc <= hi,
    ensures
        scan_int(ds, radix, acc, positive, lo, hi) matches Ok(v) ==> lo <= v <= hi,
        positive && acc >= 0 ==> (scan_int(ds, radix, acc, positive, lo, hi) matches Ok(v) ==> v >= 0),
    decreases ds.len(),
{
    if ds.len() > 0 {
        if let Some(d) = digit_value(ds[0], radix) {
            let next = if positive { acc * radix + d } else { acc * radix - d };
            if lo <= next <= hi {
                if positive && acc >= 0 {
                    assert(acc * radix >= 0) by (nonlinear_arith)
                        requires acc >= 0;
                }
                lemma_scan_int_range(ds.drop_first(), radix, next, positive, lo, hi);
            }
        }
    }
}

/// Reads `s` (from index `start`) as an integer in `radix` within `lo..=hi`.
fn parse_int_range(s: &Vec<char>, start: usize, radix: u32, lo: i64, hi: i64) -> (r: Result<i64, IntErrorKind>)
    requires
        start <= s@.len(),
        radix == 2 || radix == 10 || radix == 16,
        -0x1_0000_0000 <= lo <= 0 <= hi <= 0x1_0000_0000,
    ensures
        r == res_i64(parse_int_spec(s@.subrange(start as int, s@.len() as int), radix as nat, lo as int, hi as int)),
        r matches Ok(v) ==> lo <= v <= hi,
{
    let ghost t = s@.subrange(start as int, s@.len() as int);
    let n = s.len();
    if start == n {
        return Err(IntErrorKind::Empty);
    }
    let first = s[start];
    if (first == '+' || first == '-') && start + 1 == n {
        return Err(IntErrorKind::InvalidDigit);
    }
    let signed = lo < 0;
    let mut positive = true;
    let mut i = start;
    if first == '+' {
        i = start + 1;
    } else if first == '-' && signed {
        i = start + 1;
        positive = false;
    }
    proof {
        assert(t.len() > 0);
        if first == '+' || (first == '-' && signed) {
            assert(t.drop_first() =~= s@.subrange(i as int, s@.len() as int));
        } else {
            assert(t =~= s@.subrange(i as int, s@.len() as int));
        }
    }
    let mut acc: i64 = 0;
    while i < n
        invariant
            start <= i <= n,
            n == s@.len(),
            t == s@.subrange(start as int, s@.len() as int),
            radix == 2 || radix == 10 || radix == 16,
            -0x1_0000_0000 <= lo <= 0 <= hi <= 0x1_0000_0000,
            lo <= acc <= hi,
            parse_int_spec(t, radix as nat, lo as int, hi as int) == scan_int(
                s@.subrange(i as int, n as int),
                radix as nat,
                acc as int,
                positive,
                lo as int,
                hi as int,
            ),
        decreases n - i,
    {
        let ghost rest = s@.subrange(i as int, n as int);
        let c = s[i];
        proof {
            assert(rest[0] == c);
        }
        let d = match digit_of(c, radix) {
            Some(d) => d,
            None => {
                assert(digit_value(rest[0], radix as nat).is_none());
                return Err(IntErrorKind::InvalidDigit);
            },
        };
        proof {
            assert(acc * (radix as int) <= 0x1_0000_0000 * 16 && acc * (radix as int) >= -0x1_0000_0000 * 16) by (nonlinear_arith)
                requires
                    -0x1_0000_0000 <= acc <= 0x1_0000_0000,
                    radix <= 16;
        }
        let mul = acc * (radix as i64);
        let next = if positive { mul + (d as i64) } else { mul - (d as i64) };
        if next > hi {
            return Err(IntErrorKind::PosOverflow);
        }
        if next < lo {
            return Err(IntErrorKind::NegOverflow);
        }
        acc = next;
        i += 1;
        assert(rest.drop_first() =~= s@.subrange(i as int, n as int));
    }
    proof {
        assert(s@.subrange(i as int, n as int).len() == 0);
    }
    Ok(acc)
}

/// `i32::from_str_radix` on the characters of `s` from index `start`.
pub fn parse_i32(s: &Vec<char>, start: usize, radix: u32) -> (r: Result<i32, IntErrorKind>)
    requires
        start <= s@.len(),
        radix == 2 || radix == 10 || radix == 16,
    ensures
        r == res_i32(parse_int_spec(s@.subrange(start as int, s@.len() as int), radix as nat, i32::MIN as int, i32::MAX as int)),
{
    proof {
        lemma_parse_int_in_range(s@.subrange(start as int, s@.len() as int), radix as nat, i32::MIN as int, i32::MAX as int);
    }
    match parse_int_range(s, start, radix, i32::MIN as i64, i32::MAX as i64) {
        Ok(v) => Ok(v as i32),
        Err(e) => Err(e),
    }
}

/// `u32::from_str_radix` on the characters of `s` from index `start`.
pub fn parse_u32(s: &Vec<char>, start: usize, radix: u32) -> (r: Result<u32, IntErrorKind>)
    requires
        start <= s@.len(),
        radix == 2 || radix == 10 || radix == 16,
    ensures
        r == res_u32(parse_int_spec(s@.subrange(start as int, s@.len() as int), radix as nat, 0, u32::MAX as int)),
{
    proof {
        lemma_parse_int_in_range(s@.subrange(start as int, s@.len() as int), radix as nat, 0, u32::MAX as int);
    }
    match parse_int_range(s, start, radix, 0, u32::MAX as i64) {
        Ok(v) => Ok(v as u32),
        Err(e) => Err(e),
    }
}

pub proof fn lemma_parse_int_in_range(s: Seq<char>, radix: nat, lo: int, hi: int)
    requires
        lo <= 0 <= hi,
    ensures
        parse_int_spec(s, radix, lo, hi) matches Ok(v) ==> lo <= v <= hi,
        s.len() > 0 && s[0] != '-' ==> (parse_int_spec(s, radix, lo, hi) matches Ok(v) ==> v >= 0),
{
    if s.len() > 0 {
        lemma_scan_int_range(s.drop_first(), radix, 0, true, lo, hi);
        lemma_scan_int_range(s.drop_first(), radix, 0, false, lo, hi);
        lemma_scan_int_range(s, radix, 0, true, lo, hi);
    }
}

pub proof fn lemma_scan_int_digits(ds: Seq<char>, radix: nat, acc: int, positive: bool, lo: int, hi: int)
    ensures
        scan_int(ds, radix, acc, positive, lo, hi) is Ok ==> forall|k: int|
            0 <= k < ds.len() ==> #[trigger] digit_value(ds[k], radix) is Some,
    decreases ds.len(),
{
    if ds.len() > 0 {
        if let Some(d) = digit_value(ds[0], radix) {
            let next = if positive { acc * radix + d } else { acc * radix - d };
            if lo <= next <= hi {
                lemma_scan_int_digits(ds.drop_first(), radix, next, positive, lo, hi);
                if scan_int(ds, radix, acc, positive, lo, hi) is Ok {
                    assert forall|k: int| 0 <= k < ds.len() implies #[trigger] digit_value(ds[k], radix) is Some by {
                        if k > 0 {
                            assert(ds[k] == ds.drop_first()[k - 1]);
                        }
                    }
                }
            }
        }
    }
}

/// After an optional sign, an integer text holds only digits.
pub proof fn lemma_parse_int_digits(s: Seq<char>, radix: nat, lo: int, hi: int)
    ensures
        parse_int_spec(s, radix, lo, hi) is Ok ==> forall|k: int|
            1 <= k < s.len() ==> #[trigger] digit_value(s[k], radix) is Some,
{
    if s.len() > 0 {
        lemma_scan_int_digits(s.drop_first(), radix, 0, true, lo, hi);
        lemma_scan_int_digits(s.drop_first(), radix, 0, false, lo, hi);
        lemma_scan_int_digits(s, radix, 0, true, lo, hi);
        if parse_int_spec(s, radix, lo, hi) is Ok {
            assert forall|k: int| 1 <= k < s.len() implies #[trigger] digit_value(s[k], radix) is Some by {
                assert(s[k] == s.drop_first()[k - 1]);
            }
        }
    }
}

/// First index at or after `i` that does not hold an ASCII digit.
pub open spec fn digit_run_end(s: Seq<char>, i: int) -> int
    decreases s.len() - i,
{
    if 0 <= i < s.len() && '0' <= s[i] <= '9' {
        digit_run_end(s, i + 1)
    } else {
        i
    }
}

/// Whether `s` is a decimal floating-point number as `str::parse` reads it for
/// `f32`/`f64` (leaving aside `inf`/`nan`, which cannot begin with a digit):
/// `( Digit+ | Digit+ '.' Digit* | Digit* '.' Digit+ ) ( ('e'|'E') ('+'|'-')? Digit+ )?`.
pub open spec fn float_text_ok(s: Seq<char>) -> bool {
    let a = digit_run_end(s, 0);
    let has_dot = a < s.len() && s[a] == '.';
    let b = if has_dot { digit_run_end(s, a + 1) } else { a };
    let mantissa_ok = a > 0 || (has_dot && b > a + 1);
    let exp_ok = if b == s.len() {
        true
    } else if s[b] == 'e' || s[b] == 'E' {
        let c = if b + 1 < s.len() && (s[b + 1] == '+' || s[b + 1] == '-') { b + 2 } else { b + 1 };
        c < s.len() && digit_run_end(s, c) == s.len()
    } else {
        false
    };
    mantissa_ok && exp_ok
}

proof fn lemma_digit_run_end_bounds(s: Seq<char>, i: int)
    requires
        0 <= i <= s.len(),
    ensures
        i <= digit_run_end(s, i) <= s.len(),
    decreases s.len() - i,
{
    if i < s.len() && '0' <= s[i] <= '9' {
        lemma_digit_run_end_bounds(s, i + 1);
    }
}

fn run_end(s: &Vec<char>, i: usize) -> (r: usize)
    requires
        i <= s@.len(),
    ensures
        r == digit_run_end(s@, i as int),
        i <= r <= s@.len(),
{
    let mut j = i;
    while j < s.len() && '0' <= s[j] && s[j] <= '9'
        invariant
            i <= j <= s@.len(),
            digit_run_end(s@, j as int) == digit_run_end(s@, i as int),
        decreases s@.len() - j,
    {
        j += 1;
    }
    j
}

/// Checks the floating-point literal syntax of `s`.
pub fn float_syntax_ok(s: &Vec<char>) -> (r: bool)
    ensures
        r == float_text_ok(s@),
{
    let n = s.len();
    let a = run_end(s, 0);
    let has_dot = a < n && s[a] == '.';
    let b = if has_dot { run_end(s, a + 1) } else { a };
    let mantissa_ok = a > 0 || (has_dot && b > a + 1);
    let exp_ok = if b == n {
        true
    } else if s[b] == 'e' || s[b] == 'E' {
        let c = if b + 1 < n && (s[b + 1] == '+' || s[b + 1] == '-') { b + 2 } else { b + 1 };
        c < n && run_end(s, c) == n
    } else {
        false
    };
    mantissa_ok && exp_ok
}

} // verus!

verus! {

/// The digits, by value, as written in lower case.
pub open spec fn lower_digits() -> Seq<char> {
    seq!['0', '1', '2', '3', '4', '5', '6', '7', '8', '9', 'a', 'b', 'c', 'd', 'e', 'f']
}

/// The digits, by value, as written in upper case.
pub open spec fn upper_digits() -> Seq<char> {
    seq!['0', '1', '2', '3', '4', '5', '6', '7', '8', '9', 'A', 'B', 'C', 'D', 'E', 'F']
}

/// In radix 2, 10 or 16 the digits are the first `radix` of `0`-`9`, `a`-`f`,
/// each standing for its place there, letters in either case; no other
/// character is a digit.
pub proof fn law_digits(radix: nat)
    requires
        radix == 2 || radix == 10 || radix == 16,
    ensures
        forall|v: int| 0 <= v < radix ==> digit_value(#[trigger] lower_digits()[v], radix) == Some(v as nat),
        forall|v: int| 0 <= v < radix ==> digit_value(#[trigger] upper_digits()[v], radix) == Some(v as nat),
        forall|c: char|
            #![trigger digit_value(c, radix)]
            digit_value(c, radix) matches Some(v) ==> v < radix && (c == lower_digits()[v as int] || c == upper_digits()[v as int]),
{
    let lo = lower_digits();
    let up = upper_digits();
    assert(lo[0] == '0' && lo[1] == '1' && lo[2] == '2' && lo[3] == '3' && lo[4] == '4' && lo[5] == '5');
    assert(lo[6] == '6' && lo[7] == '7' && lo[8] == '8' && lo[9] == '9' && lo[10] == 'a' && lo[11] == 'b');
    assert(lo[12] == 'c' && lo[13] == 'd' && lo[14] == 'e' && lo[15] == 'f');
    assert(up[0] == '0' && up[1] == '1' && up[2] == '2' && up[3] == '3' && up[4] == '4' && up[5] == '5');
    assert(up[6] == '6' && up[7] == '7' && up[8] == '8' && up[9] == '9' && up[10] == 'A' && up[11] == 'B');
    assert(up[12] == 'C' && up[13] == 'D' && up[14] == 'E' && up[15] == 'F');
    assert forall|c: char| #![trigger digit_value(c, radix)] digit_value(c, radix) is Some implies ({
        let v = digit_value(c, radix)->Some_0;
        v < radix && (c == lo[v as int] || c == up[v as int])
    }) by {
        let v = digit_value(c, radix)->Some_0;
        if '0' <= c <= '9' {
            assert(c as nat == '0' as nat + v);
        } else if 'a' <= c <= 'f' {
            assert(c as nat == 'a' as nat + v - 10);
        } else {
            assert(c as nat == 'A' as nat + v - 10);
        }
    }
}

} // verus!
