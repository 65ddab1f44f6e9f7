//! Command Router: decoding inbound remote messages into relay commands.
//!
//! The remote command wire format is one JSON object `{"id": <uint>, "state":
//! <bool>}`: ASCII whitespace may stand around every token, the two fields
//! come in this order, the id is a decimal integer without sign or leading
//! zero that fits the machine's index type. A payload that does not conform is
//! dropped: decoding yields nothing and never fails loudly.
//!
//! The decoded `state` selects the relay action: a raised `state` asks for a
//! status report of the relay, a lowered one toggles it.

use vstd::prelude::*;

use crate::relay::RelayAction;
use crate::relay::RelayCommand;

verus! {

/// A decoded inbound message: the addressed relay and the target boolean.
#[derive(Copy, Clone, Debug, PartialEq, Eq, Structural)]
pub struct RemoteCommand {
    pub id: usize,
    pub state: bool,
}

/// ASCII whitespace: space, tab, line feed, carriage return.
pub open spec fn spec_is_ws(b: u8) -> bool {
    b == 32 || b == 9 || b == 10 || b == 13
}

/// An ASCII decimal digit.
pub open spec fn spec_is_digit(b: u8) -> bool {
    48 <= b <= 57
}

/// The first position at or after `i` that does not hold whitespace.
pub open spec fn spec_skip_ws(s: Seq<u8>, i: int) -> int
    decreases s.len() - i,
{
    if 0 <= i < s.len() && spec_is_ws(s[i]) {
        spec_skip_ws(s, i + 1)
    } else {
        i
    }
}

/// The first position at or after `i` that does not hold a digit.
pub open spec fn spec_scan_digits(s: Seq<u8>, i: int) -> int
    decreases s.len() - i,
{
    if 0 <= i < s.len() && spec_is_digit(s[i]) {
        spec_scan_digits(s, i + 1)
    } else {
        i
    }
}

/// The value of the digit run `s[i..j]`, read in base ten.
pub open spec fn spec_digits_value(s: Seq<u8>, i: int, j: int) -> nat
    decreases j - i,
{
    if i >= j {
        0
    } else {
        spec_digits_value(s, i, j - 1) * 10 + (s[j - 1] - 48) as nat
    }
}

/// Whether `lit` stands in `s` at position `i`.
pub open spec fn spec_match(s: Seq<u8>, i: int, lit: Seq<u8>) -> bool {
    0 <= i && i + lit.len() <= s.len() && s.subrange(i, i + lit.len() as int) == lit
}

/// Skips whitespace from `i` and asks for `lit` there: the position after it,
/// or nothing when the text differs.
pub open spec fn spec_tok(s: Seq<u8>, i: int, lit: Seq<u8>) -> Option<int> {
    let j = spec_skip_ws(s, i);
    if spec_match(s, j, lit) {
        Some(j + lit.len() as int)
    } else {
        None
    }
}

/// Skips whitespace from `i` and reads a decimal integer there: its value and
/// the position after it. There is nothing when no digit stands there, on a
/// leading zero, and when the value does not fit the machine's index type.
pub open spec fn spec_number(s: Seq<u8>, i: int) -> Option<(nat, int)> {
    let j = spec_skip_ws(s, i);
    let e = spec_scan_digits(s, j);
    if e == j {
        None
    } else if s[j] == 48 && e > j + 1 {
        None
    } else if spec_digits_value(s, j, e) > usize::MAX as nat {
        None
    } else {
        Some((spec_digits_value(s, j, e), e))
    }
}

/// Skips whitespace from `i` and reads `true` or `false` there.
pub open spec fn spec_boolean(s: Seq<u8>, i: int) -> Option<(bool, int)> {
    let j = spec_skip_ws(s, i);
    if spec_match(s, j, seq![116u8, 114u8, 117u8, 101u8]) {
        Some((true, j + 4))
    } else if spec_match(s, j, seq![102u8, 97u8, 108u8, 115u8, 101u8]) {
        Some((false, j + 5))
    } else {
        None
    }
}

/// The remote command a payload decodes to, or nothing when the payload does
/// not conform to the wire format.
pub open spec fn spec_decode(s: Seq<u8>) -> Option<RemoteCommand> {
    match spec_tok(s, 0, seq![123u8]) {  // {
        None => None,
        Some(a) => match spec_tok(s, a, seq![34u8, 105u8, 100u8, 34u8]) {  // "id"
            None => None,
            Some(b) => match spec_tok(s, b, seq![58u8]) {  // :
                None => None,
                Some(c) => match spec_number(s, c) {
                    None => None,
                    Some((id, d)) => match spec_tok(s, d, seq![44u8]) {  // ,
                        None => None,
                        Some(e) => match spec_tok(
                            s,
                            e,
                            seq![34u8, 115u8, 116u8, 97u8, 116u8, 101u8, 34u8],
                        ) {  // "state"
                            None => None,
                            Some(f) => match spec_tok(s, f, seq![58u8]) {  // :
                                None => None,
                                Some(g) => match spec_boolean(s, g) {
                                    None => None,
                                    Some((state, h)) => match spec_tok(s, h, seq![125u8]) {  // }
                                        None => None,
                                        Some(t) => if spec_skip_ws(s, t) == s.len() {
                                            Some(RemoteCommand { id: id as usize, state })
                                        } else {
                                            None
                                        },
                                    },
                                },
                            },
                        },
                    },
                },
            },
        },
    }
}

/// The relay command a payload routes to: a conforming payload with a raised
/// `state` asks for a status report, one with a lowered `state` for a toggle;
/// anything else is dropped.
pub open spec fn spec_route(s: Seq<u8>) -> Option<RelayCommand> {
    match spec_decode(s) {
        Some(rc) => Some(
            RelayCommand {
                id: rc.id,
                action: if rc.state {
                    RelayAction::Status
                } else {
                    RelayAction::Toggle
                },
            },
        ),
        None => None,
    }
}

/// Advances past whitespace.
fn skip_ws(s: &[u8], i: usize) -> (j: usize)
    requires
        i <= s@.len(),
    ensures
        j == spec_skip_ws(s@, i as int),
        i <= j <= s@.len(),
{
    let n = s.len();
    let mut j = i;
    while j < n && (s[j] == 32 || s[j] == 9 || s[j] == 10 || s[j] == 13)
        invariant
            n == s@.len(),
            i <= j <= n,
            spec_skip_ws(s@, i as int) == spec_skip_ws(s@, j as int),
        decreases n - j,
    {
        j = j + 1;
    }
    j
}

/// Advances past decimal digits.
fn scan_digits(s: &[u8], i: usize) -> (j: usize)
    requires
        i <= s@.len(),
    ensures
        j == spec_scan_digits(s@, i as int),
        i <= j <= s@.len(),
{
    let n = s.len();
    let mut j = i;
    while j < n && 48 <= s[j] && s[j] <= 57
        invariant
            n == s@.len(),
            i <= j <= n,
            spec_scan_digits(s@, i as int) == spec_scan_digits(s@, j as int),
        decreases n - j,
    {
        j = j + 1;
    }
    j
}

/// Whether `lit` stands in `s` at position `i`.
fn match_lit(s: &[u8], i: usize, lit: &[u8]) -> (r: bool)
    requires
        i <= s@.len(),
    ensures
        r == spec_match(s@, i as int, lit@),
{
    let m = lit.len();
    let n = s.len();
    if n - i < m {
        return false;
    }
    let mut k: usize = 0;
    while k < m
        invariant
            m == lit@.len(),
            n == s@.len(),
            i + m <= n,
            k <= m,
            forall|t: int| 0 <= t < k ==> s@[i + t] == lit@[t],
        decreases m - k,
    {
        if s[i + k] != lit[k] {
            proof {
                assert(s@.subrange(i as int, i + m) != lit@) by {
                    assert(s@.subrange(i as int, i + m)[k as int] == s@[i + k]);
                }
            }
            return false;
        }
        k = k + 1;
    }
    proof {
        assert(s@.subrange(i as int, i + m) =~= lit@);
    }
    true
}

/// Skips whitespace and consumes `lit`.
fn tok(s: &[u8], i: usize, lit: &[u8]) -> (r: Option<usize>)
    requires
        i <= s@.len(),
    ensures
        match r {
            Some(j) => spec_tok(s@, i as int, lit@) == Some(j as int) && j <= s@.len(),
            None => spec_tok(s@, i as int, lit@) is None,
        },
{
    let n = s.len();
    let j = skip_ws(s, i);
    if match_lit(s, j, lit) {
        assert(j + lit@.len() <= n);
        Some(j + lit.len())
    } else {
        None
    }
}

/// Skips whitespace and reads a decimal integer.
fn number(s: &[u8], i: usize) -> (r: Option<(usize, usize)>)
    requires
        i <= s@.len(),
    ensures
        match r {
            Some(p) => spec_number(s@, i as int) == Some((p.0 as nat, p.1 as int)) && p.1
                <= s@.len(),
            None => spec_number(s@, i as int) is None,
        },
{
    let j = skip_ws(s, i);
    let e = scan_digits(s, j);
    if e == j {
        return None;
    }
    if s[j] == 48 && e > j + 1 {
        return None;
    }
    let mut k = j;
    let mut v: usize = 0;
    let mut overflow = false;
    while k < e
        invariant
            j <= k <= e <= s@.len(),
            e == spec_scan_digits(s@, j as int),
            spec_scan_digits(s@, k as int) == e,
            !overflow ==> v as nat == spec_digits_value(s@, j as int, k as int),
            overflow ==> spec_digits_value(s@, j as int, k as int) > usize::MAX as nat,
        decreases e - k,
    {
        assert(spec_is_digit(s@[k as int]));
        let d = s[k] - 48;
        if overflow {
            proof {
                lemma_digits_value_grows(s@, j as int, k as int);
            }
        } else {
            if v > (usize::MAX - d as usize) / 10 {
                proof {
                    lemma_mul_div_bound(v as int, d as int, usize::MAX as int);
                }
                overflow = true;
            } else {
                proof {
                    lemma_div_mul_bound(v as int, d as int, usize::MAX as int);
                }
                v = v * 10 + d as usize;
            }
        }
        k = k + 1;
    }
    if overflow {
        None
    } else {
        Some((v, e))
    }
}

/// One more digit never shrinks the value of the run.
proof fn lemma_digits_value_grows(s: Seq<u8>, i: int, k: int)
    ensures
        spec_digits_value(s, i, k + 1) >= spec_digits_value(s, i, k),
{
    if i >= k + 1 {
    } else {
        assert(spec_digits_value(s, i, k + 1) == spec_digits_value(s, i, k) * 10 + (s[k]
            - 48) as nat);
        assert(spec_digits_value(s, i, k) * 10 >= spec_digits_value(s, i, k)) by (nonlinear_arith);
    }
}

/// When `v` lies above `(max - d) / 10`, appending the digit overflows.
proof fn lemma_mul_div_bound(v: int, d: int, max: int)
    requires
        0 <= v,
        0 <= d <= 9,
        d <= max,
        0 < max,
        v > (max - d) / 10,
    ensures
        v * 10 + d > max,
{
    assert(v >= (max - d) / 10 + 1);
    assert((max - d) / 10 * 10 + (max - d) % 10 == max - d) by (nonlinear_arith);
    assert(0 <= (max - d) % 10 < 10) by (nonlinear_arith)
        requires
            0 <= max - d,
    ;
    assert(v * 10 >= ((max - d) / 10 + 1) * 10) by (nonlinear_arith)
        requires
            v >= (max - d) / 10 + 1,
    ;
    assert(((max - d) / 10 + 1) * 10 == (max - d) / 10 * 10 + 10) by (nonlinear_arith);
}

/// When `v` lies at or below `(max - d) / 10`, appending the digit fits.
proof fn lemma_div_mul_bound(v: int, d: int, max: int)
    requires
        0 <= v,
        0 <= d <= 9,
        0 < max,
        d <= max,
        v <= (max - d) / 10,
    ensures
        v * 10 + d <= max,
{
    assert((max - d) / 10 * 10 + (max - d) % 10 == max - d) by (nonlinear_arith);
    assert(0 <= (max - d) % 10 < 10) by (nonlinear_arith)
        requires
            0 <= max - d,
    ;
    assert(v * 10 <= (max - d) / 10 * 10) by (nonlinear_arith)
        requires
            v <= (max - d) / 10,
    ;
}

/// Skips whitespace and reads `true` or `false`.
fn boolean(s: &[u8], i: usize) -> (r: Option<(bool, usize)>)
    requires
        i <= s@.len(),
    ensures
        match r {
            Some(p) => spec_boolean(s@, i as int) == Some((p.0, p.1 as int)) && p.1 <= s@.len(),
            None => spec_boolean(s@, i as int) is None,
        },
{
    let n = s.len();
    let lit_true: &[u8] = &[116, 114, 117, 101];
    let lit_false: &[u8] = &[102, 97, 108, 115, 101];
    proof {
        assert(lit_true@ =~= seq![116u8, 114u8, 117u8, 101u8]);
        assert(lit_false@ =~= seq![102u8, 97u8, 108u8, 115u8, 101u8]);
    }
    let j = skip_ws(s, i);
    if match_lit(s, j, lit_true) {
        assert(j + 4 <= n);
        Some((true, j + 4))
    } else if match_lit(s, j, lit_false) {
        assert(j + 5 <= n);
        Some((false, j + 5))
    } else {
        None
    }
}

/// Decodes one inbound payload into a remote command. The result is the
/// command exactly when the payload conforms to the wire format, and nothing
/// otherwise: a malformed payload is dropped without any other effect.
pub fn decode_remote(payload: &[u8]) -> (cmd: Option<RemoteCommand>)
    ensures
        cmd == spec_decode(payload@),
{
    let lit_open: &[u8] = &[123];
    let lit_id: &[u8] = &[34, 105, 100, 34];
    let lit_colon: &[u8] = &[58];
    let lit_comma: &[u8] = &[44];
    let lit_state: &[u8] = &[34, 115, 116, 97, 116, 101, 34];
    let lit_close: &[u8] = &[125];
    proof {
        assert(lit_open@ =~= seq![123u8]);
        assert(lit_id@ =~= seq![34u8, 105u8, 100u8, 34u8]);
        assert(lit_colon@ =~= seq![58u8]);
        assert(lit_comma@ =~= seq![44u8]);
        assert(lit_state@ =~= seq![34u8, 115u8, 116u8, 97u8, 116u8, 101u8, 34u8]);
        assert(lit_close@ =~= seq![125u8]);
    }
    let a = match tok(payload, 0, lit_open) {
        Some(a) => a,
        None => {
            return None;
        },
    };
    let b = match tok(payload, a, lit_id) {
        Some(b) => b,
        None => {
            return None;
        },
    };
    let c = match tok(payload, b, lit_colon) {
        Some(c) => c,
        None => {
            return None;
        },
    };
    let (id, d) = match number(payload, c) {
        Some(p) => p,
        None => {
            return None;
        },
    };
    let e = match tok(payload, d, lit_comma) {
        Some(e) => e,
        None => {
            return None;
        },
    };
    let f = match tok(payload, e, lit_state) {
        Some(f) => f,
        None => {
            return None;
        },
    };
    let g = match tok(payload, f, lit_colon) {
        Some(g) => g,
        None => {
            return None;
        },
    };
    let (state, h) = match boolean(payload, g) {
        Some(p) => p,
        None => {
            return None;
        },
    };
    let t = match tok(payload, h, lit_close) {
        Some(t) => t,
        None => {
            return None;
        },
    };
    if skip_ws(payload, t) == payload.len() {
        Some(RemoteCommand { id, state })
    } else {
        None
    }
}

/// Routes one inbound payload to the relay bank's command protocol: a
/// conforming payload maps to a status request when its `state` is raised and
/// to a toggle when it is lowered; a malformed payload yields no command.
pub fn route(payload: &[u8]) -> (cmd: Option<RelayCommand>)
    ensures
        cmd == spec_route(payload@),
{
    match decode_remote(payload) {
        Some(rc) => Some(
            RelayCommand {
                id: rc.id,
                action: if rc.state {
                    RelayAction::Status
                } else {
                    RelayAction::Toggle
                },
            },
        ),
        None => None,
    }
}

} // verus!
