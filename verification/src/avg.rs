//! A small running-average aggregate over plain 32-bit integers, with
//! the text form `"<sum>,<n>"` that its host exchanges it in. It ships
//! beside the encrypted sum as the unencrypted counterpart.

use vstd::prelude::*;

verus! {

/// The state of one running average: the sum of the inputs seen and
/// their count.
#[derive(Debug, PartialEq, Eq, Structural, Clone, Copy)]
pub struct IntegerAvgState {
    pub sum: i32,
    pub n: i32,
}

impl IntegerAvgState {
    /// Folds one optional input into the state: an absent input leaves
    /// the state unchanged.
    pub fn state(self, arg: Option<i32>) -> (r: Self)
        requires
            arg matches Some(a) ==> i32::MIN <= self.sum + a <= i32::MAX,
            arg is Some ==> self.n < i32::MAX,
        ensures
            arg is None ==> r == self,
            arg matches Some(a) ==> r.sum == self.sum + a && r.n == self.n + 1,
    {
        match arg {
            None => self,
            Some(a) => IntegerAvgState { sum: self.sum + a, n: self.n + 1 },
        }
    }

    /// Reads the average. The empty state has no average: its zero
    /// count is left out by precondition, as are negative sums, whose
    /// rounding direction this contract does not pin down.
    pub fn finalize(self) -> (r: i32)
        requires
            self.n > 0,
            self.sum >= 0,
        ensures
            r == self.sum as int / self.n as int,
    {
        self.sum / self.n
    }

    /// Renders the state in its text form `"<sum>,<n>"`.
    pub fn render(self) -> (r: Vec<u8>)
        ensures
            r@ == spec_render_i32(self.sum as int) + seq![44u8] + spec_render_i32(self.n as int),
    {
        let mut out = render_i32(self.sum);
        out.push(44u8);
        let tail = render_i32(self.n);
        crate::wire::append_bytes(&mut out, &tail);
        out
    }
}

impl Default for IntegerAvgState {
    /// The empty state: nothing seen, sum zero.
    fn default() -> (r: Self)
        ensures
            r.sum == 0 && r.n == 0,
    {
        IntegerAvgState { sum: 0, n: 0 }
    }
}

/// The canonical decimal digits of `v`, most significant first.
pub open spec fn spec_digits(v: nat) -> Seq<u8>
    decreases v,
{
    if v < 10 {
        seq![(48 + v) as u8]
    } else {
        spec_digits(v / 10) + seq![(48 + v % 10) as u8]
    }
}

/// The text form of a signed value: a minus sign before the digits of
/// its magnitude.
pub open spec fn spec_render_i32(v: int) -> Seq<u8> {
    if v < 0 {
        seq![45u8] + spec_digits((-v) as nat)
    } else {
        spec_digits(v as nat)
    }
}

/// The canonical decimal digits of `v`, as executable code.
fn render_u64(v: u64) -> (r: Vec<u8>)
    ensures
        r@ == spec_digits(v as nat),
    decreases v,
{
    if v < 10 {
        let mut out: Vec<u8> = Vec::new();
        out.push(48 + (v as u8));
        proof {
            assert(out@ =~= spec_digits(v as nat));
        }
        out
    } else {
        let mut out = render_u64(v / 10);
        out.push(48 + ((v % 10) as u8));
        proof {
            assert(out@ =~= spec_digits(v as nat));
        }
        out
    }
}

/// The text form of a signed 32-bit value, as executable code.
fn render_i32(v: i32) -> (r: Vec<u8>)
    ensures
        r@ == spec_render_i32(v as int),
{
    if v < 0 {
        let magnitude: u64 = (-(v as i64)) as u64;
        let mut out: Vec<u8> = Vec::new();
        out.push(45u8);
        let digits = render_u64(magnitude);
        crate::wire::append_bytes(&mut out, &digits);
        proof {
            assert(out@ =~= seq![45u8] + spec_digits(magnitude as nat));
        }
        out
    } else {
        render_u64(v as u64)
    }
}

/// Whether `b` is a decimal digit.
pub open spec fn is_digit(b: u8) -> bool {
    48 <= b <= 57
}

/// The value of a digit string, most significant first.
pub open spec fn digits_value(s: Seq<u8>) -> nat
    decreases s.len(),
{
    if s.len() == 0 {
        0
    } else {
        digits_value(s.drop_last()) * 10 + (s.last() - 48) as nat
    }
}

/// Whether `s` is a well-formed signed decimal token: one optional
/// minus sign, then at least one digit.
pub open spec fn is_int_token(s: Seq<u8>) -> bool {
    if s.len() > 0 && s[0] == 45 {
        s.len() > 1 && forall|i: int| 1 <= i < s.len() ==> is_digit(#[trigger] s[i])
    } else {
        s.len() > 0 && forall|i: int| 0 <= i < s.len() ==> is_digit(#[trigger] s[i])
    }
}

/// The value of a well-formed signed decimal token.
pub open spec fn int_token_value(s: Seq<u8>) -> int {
    if s.len() > 0 && s[0] == 45 {
        -(digits_value(s.subrange(1, s.len() as int)) as int)
    } else {
        digits_value(s) as int
    }
}

/// Parses a digit string into its value, rejecting non-digits and any
/// value beyond `bound`.
fn parse_digits(s: &[u8], from: usize, to: usize, bound: u64) -> (r: Option<u64>)
    requires
        from <= to <= s@.len(),
        bound <= 0xffff_ffff,
    ensures
        r is Some <==> from < to && (forall|i: int|
            from <= i < to ==> is_digit(#[trigger] s@[i])) && digits_value(
            s@.subrange(from as int, to as int),
        ) <= bound,
        r is Some ==> r->0 as nat == digits_value(s@.subrange(from as int, to as int)),
{
    if from == to {
        return None;
    }
    let mut acc: u64 = 0;
    let mut i: usize = from;
    while i < to
        invariant
            from <= i <= to <= s@.len(),
            bound <= 0xffff_ffff,
            acc as nat == digits_value(s@.subrange(from as int, i as int)),
            acc <= bound,
            forall|j: int| from <= j < i ==> is_digit(#[trigger] s@[j]),
        decreases to - i,
    {
        let b = s[i];
        if b < 48 || b > 57 {
            return None;
        }
        let d = (b - 48) as u64;
        let next = acc * 10 + d;
        proof {
            assert(s@.subrange(from as int, i + 1 as int).drop_last() =~= s@.subrange(
                from as int,
                i as int,
            ));
            assert(s@.subrange(from as int, i + 1 as int).last() == s@[i as int]);
        }
        if next > bound {
            proof {
                lemma_digits_value_monotonic(s@, from as int, i + 1 as int, to as int);
            }
            return None;
        }
        acc = next;
        i = i + 1;
    }
    proof {
        assert(s@.subrange(from as int, to as int) =~= s@.subrange(from as int, i as int));
    }
    Some(acc)
}

/// A digit string is worth at least its prefix times a power of ten,
/// so a prefix already beyond a bound dooms the whole string.
proof fn lemma_digits_value_monotonic(s: Seq<u8>, from: int, mid: int, to: int)
    requires
        0 <= from <= mid <= to <= s.len(),
    ensures
        digits_value(s.subrange(from, to)) >= digits_value(s.subrange(from, mid)),
    decreases to - mid,
{
    if mid < to {
        lemma_digits_value_monotonic(s, from, mid + 1, to);
        assert(s.subrange(from, mid + 1).drop_last() =~= s.subrange(from, mid));
        assert(digits_value(s.subrange(from, mid + 1)) >= digits_value(s.subrange(from, mid)));
    } else {
        assert(s.subrange(from, to) =~= s.subrange(from, mid));
    }
}

/// Parses one signed decimal token out of `s[from..to]` into an `i32`.
fn parse_i32_token(s: &[u8], from: usize, to: usize) -> (r: Option<i32>)
    requires
        from <= to <= s@.len(),
    ensures
        r is Some <==> is_int_token(s@.subrange(from as int, to as int)) && i32::MIN
            <= int_token_value(s@.subrange(from as int, to as int)) <= i32::MAX,
        r is Some ==> r->0 as int == int_token_value(s@.subrange(from as int, to as int)),
{
    if from < to && s[from] == 45 {
        let mag = parse_digits(s, from + 1, to, 2147483648);
        proof {
            let t = s@.subrange(from as int, to as int);
            assert(t[0] == 45);
            assert(t.subrange(1, t.len() as int) =~= s@.subrange(from + 1 as int, to as int));
            if is_int_token(t) {
                assert forall|j: int| from + 1 <= j < to implies is_digit(#[trigger] s@[j]) by {
                    assert(s@[j] == t[j - from]);
                    assert(is_digit(t[j - from]));
                }
            }
            if from + 1 < to && (forall|j: int| from + 1 <= j < to ==> is_digit(#[trigger] s@[j])) {
                assert forall|i: int| 1 <= i < t.len() implies is_digit(#[trigger] t[i]) by {
                    assert(t[i] == s@[from + i]);
                    assert(is_digit(s@[from + i]));
                }
                assert(is_int_token(t));
            }
        }
        match mag {
            None => None,
            Some(v) => {
                let neg: i64 = -(v as i64);
                proof {
                    let t = s@.subrange(from as int, to as int);
                    assert(int_token_value(t) == -(v as int));
                    assert(i32::MIN <= neg as int <= i32::MAX);
                }
                Some(neg as i32)
            },
        }
    } else {
        let mag = parse_digits(s, from, to, 2147483647);
        proof {
            let t = s@.subrange(from as int, to as int);
            if from < to {
                assert(t[0] == s@[from as int]);
                assert(t[0] != 45);
            }
            if is_int_token(t) {
                assert forall|j: int| from <= j < to implies is_digit(#[trigger] s@[j]) by {
                    assert(s@[j] == t[j - from]);
                    assert(is_digit(t[j - from]));
                }
            }
            if from < to && (forall|j: int| from <= j < to ==> is_digit(#[trigger] s@[j])) {
                assert forall|i: int| 0 <= i < t.len() implies is_digit(#[trigger] t[i]) by {
                    assert(t[i] == s@[from + i]);
                    assert(is_digit(s@[from + i]));
                }
                assert(is_int_token(t));
            }
        }
        match mag {
            None => None,
            Some(v) => Some(v as i32),
        }
    }
}

/// What parsing the text form yields: the state before the first comma
/// and between it and the second comma (or the end); anything after a
/// second comma is ignored, as the reference text form allows.
pub open spec fn spec_parse_state(s: Seq<u8>) -> Option<(int, int)> {
    if !s.contains(44u8) {
        None
    } else {
        let c1 = first_comma(s, 0);
        let t1 = s.subrange(0, c1);
        let rest_from = c1 + 1;
        let c2 = first_comma(s, rest_from);
        let t2 = s.subrange(rest_from, c2);
        if is_int_token(t1) && i32::MIN <= int_token_value(t1) <= i32::MAX && is_int_token(t2)
            && i32::MIN <= int_token_value(t2) <= i32::MAX {
            Some((int_token_value(t1), int_token_value(t2)))
        } else {
            None
        }
    }
}

/// The index of the first comma at or after `from`, or the length when
/// there is none.
pub open spec fn first_comma(s: Seq<u8>, from: int) -> int
    decreases s.len() - from,
{
    if from < 0 || from >= s.len() {
        s.len() as int
    } else if s[from] == 44u8 {
        from
    } else {
        first_comma(s, from + 1)
    }
}

/// Parses the text form `"<sum>,<n>"` back into a state. Malformed
/// text or out-of-range values yield nothing instead of a crash.
pub fn parse_state(s: &[u8]) -> (r: Option<IntegerAvgState>)
    ensures
        r is Some <==> (spec_parse_state(s@) matches Some(p)),
        r is Some ==> (spec_parse_state(s@) matches Some(p) && r->0.sum as int == p.0
            && r->0.n as int == p.1),
{
    let n = s.len();
    let mut c1: usize = 0;
    while c1 < n && s[c1] != 44u8
        invariant
            0 <= c1 <= n == s@.len(),
            forall|j: int| 0 <= j < c1 ==> s@[j] != 44u8,
        decreases n - c1,
    {
        c1 = c1 + 1;
    }
    proof {
        lemma_first_comma(s@, 0, c1 as int);
    }
    if c1 == n {
        proof {
            assert(forall|j: int| 0 <= j < s@.len() ==> s@[j] != 44u8);
            assert(!s@.contains(44u8));
        }
        return None;
    }
    proof {
        assert(s@.contains(44u8));
    }
    let mut c2: usize = c1 + 1;
    while c2 < n && s[c2] != 44u8
        invariant
            c1 + 1 <= c2 <= n == s@.len(),
            forall|j: int| c1 + 1 <= j < c2 ==> s@[j] != 44u8,
        decreases n - c2,
    {
        c2 = c2 + 1;
    }
    proof {
        lemma_first_comma(s@, c1 + 1 as int, c2 as int);
    }
    let sum = parse_i32_token(s, 0, c1);
    let count = parse_i32_token(s, c1 + 1, c2);
    match (sum, count) {
        (Some(a), Some(b)) => Some(IntegerAvgState { sum: a, n: b }),
        _ => None,
    }
}

/// Connects the executable comma scan to `first_comma`: if nothing up
/// to `upto` is a comma and `upto` is a comma or the end, `upto` is the
/// first comma position.
proof fn lemma_first_comma(s: Seq<u8>, from: int, upto: int)
    requires
        0 <= from <= upto <= s.len(),
        forall|j: int| from <= j < upto ==> s[j] != 44u8,
        upto == s.len() || s[upto] == 44u8,
    ensures
        first_comma(s, from) == if upto == s.len() {
            s.len() as int
        } else {
            upto
        },
    decreases upto - from,
{
    if from < upto {
        lemma_first_comma(s, from + 1, upto);
    }
}

} // verus!
