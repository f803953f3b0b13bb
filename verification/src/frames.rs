//! Inbound control frames of the realtime connection.
//!
//! A client frame is plain text: `join <n>` asks to subscribe the session
//! to poll `n`, `leave <n>` to unsubscribe, with `<n>` a canonical decimal
//! number.  Any frame that does not match is not understood and must be
//! ignored, never treated as fatal.

use vstd::prelude::*;
use vstd::string::StrSliceExecFns;

verus! {

/// A parsed client control message.
#[derive(Clone, Copy, Debug, PartialEq, Eq, Structural)]
pub enum ControlFrame {
    /// Subscribe the session to this poll.
    Join(u64),
    /// Withdraw the session's subscription to this poll.
    Leave(u64),
}

/// A decimal digit.
pub open spec fn is_digit(c: char) -> bool {
    '0' <= c && c <= '9'
}

/// The number a digit string denotes, most significant digit first.
pub open spec fn digits_value(s: Seq<char>) -> int
    decreases s.len(),
{
    if s.len() == 0 {
        0
    } else {
        digits_value(s.drop_last()) * 10 + (s.last() as int - '0' as int)
    }
}

/// A canonical decimal number: digits only, no empty string, no leading
/// zero except in `0` itself.
pub open spec fn is_canonical_number(s: Seq<char>) -> bool {
    &&& s.len() > 0
    &&& forall|i: int| 0 <= i < s.len() ==> is_digit(#[trigger] s[i])
    &&& (s[0] != '0' || s.len() == 1)
}

/// A digit string denotes a number at least zero.
proof fn lemma_digits_value_nonneg(s: Seq<char>)
    requires
        forall|i: int| 0 <= i < s.len() ==> is_digit(#[trigger] s[i]),
    ensures
        digits_value(s) >= 0,
    decreases s.len(),
{
    if s.len() > 0 {
        assert(forall|i: int| 0 <= i < s.drop_last().len() ==> s.drop_last()[i] == s[i]);
        lemma_digits_value_nonneg(s.drop_last());
    }
}

/// Reading further digits never shrinks the denoted number.
proof fn lemma_digits_value_mono(s: Seq<char>, k: int)
    requires
        forall|i: int| 0 <= i < s.len() ==> is_digit(#[trigger] s[i]),
        0 <= k <= s.len(),
    ensures
        digits_value(s) >= digits_value(s.subrange(0, k)),
    decreases s.len() - k,
{
    if k == s.len() {
        assert(s.subrange(0, k) =~= s);
    } else {
        let shorter = s.subrange(0, k);
        let longer = s.subrange(0, k + 1);
        assert(longer.drop_last() =~= shorter);
        assert(longer.last() == s[k]);
        assert(forall|i: int| 0 <= i < shorter.len() ==> shorter[i] == s[i]);
        lemma_digits_value_nonneg(shorter);
        assert(digits_value(longer) >= digits_value(shorter));
        lemma_digits_value_mono(s, k + 1);
    }
}

/// Parse a canonical decimal number that fits in 64 bits; anything else
/// is refused.
pub fn parse_u64(s: &str) -> (r: Option<u64>)
    ensures
        match r {
            Some(v) => is_canonical_number(s@) && v == digits_value(s@),
            None => !(is_canonical_number(s@) && digits_value(s@) <= u64::MAX),
        },
{
    let n = s.unicode_len();
    if n == 0 {
        return None;
    }
    if n > 1 && s.get_char(0) == '0' {
        return None;
    }
    let mut acc: u64 = 0;
    let mut i: usize = 0;
    while i < n
        invariant
            n == s@.len(),
            n > 0,
            i <= n,
            s@[0] != '0' || n == 1,
            forall|j: int| 0 <= j < i ==> is_digit(#[trigger] s@[j]),
            acc == digits_value(s@.subrange(0, i as int)),
        decreases n - i,
    {
        let c = s.get_char(i);
        if c < '0' || c > '9' {
            return None;
        }
        let d: u64 = (c as u32 as u64) - 48;
        proof {
            assert(s@[i as int] == c);
            assert(is_digit(c));
            assert(d == c as int - '0' as int);
            let longer = s@.subrange(0, i + 1);
            assert(longer.drop_last() =~= s@.subrange(0, i as int));
            assert(longer.last() == c);
            assert(digits_value(longer) == acc * 10 + d);
        }
        if acc > 1844674407370955161u64 || (acc == 1844674407370955161u64 && d > 5) {
            proof {
                assert(digits_value(s@.subrange(0, i + 1)) > u64::MAX);
                if forall|j: int| 0 <= j < s@.len() ==> is_digit(#[trigger] s@[j]) {
                    lemma_digits_value_mono(s@, i + 1);
                }
            }
            return None;
        }
        acc = acc * 10 + d;
        i = i + 1;
    }
    proof {
        assert(s@.subrange(0, n as int) =~= s@);
    }
    Some(acc)
}

/// The message a frame carries, if the library understands it.
pub open spec fn frame_spec(t: Seq<char>) -> Option<ControlFrame> {
    if t.len() > 5 && t[0] == 'j' && t[1] == 'o' && t[2] == 'i' && t[3] == 'n' && t[4] == ' '
        && is_canonical_number(t.subrange(5, t.len() as int)) && digits_value(
        t.subrange(5, t.len() as int),
    ) <= u64::MAX {
        Some(ControlFrame::Join(digits_value(t.subrange(5, t.len() as int)) as u64))
    } else if t.len() > 6 && t[0] == 'l' && t[1] == 'e' && t[2] == 'a' && t[3] == 'v' && t[4]
        == 'e' && t[5] == ' ' && is_canonical_number(t.subrange(6, t.len() as int))
        && digits_value(t.subrange(6, t.len() as int)) <= u64::MAX {
        Some(ControlFrame::Leave(digits_value(t.subrange(6, t.len() as int)) as u64))
    } else {
        None
    }
}

/// Parse one inbound frame.  A frame the library does not understand
/// yields `None`, and the caller ignores it.
pub fn parse_frame(t: &str) -> (r: Option<ControlFrame>)
    ensures
        r == frame_spec(t@),
{
    let n = t.unicode_len();
    if n > 5 && t.get_char(0) == 'j' && t.get_char(1) == 'o' && t.get_char(2) == 'i'
        && t.get_char(3) == 'n' && t.get_char(4) == ' ' {
        let rest = t.substring_char(5, n);
        match parse_u64(rest) {
            Some(v) => Some(ControlFrame::Join(v)),
            None => None,
        }
    } else if n > 6 && t.get_char(0) == 'l' && t.get_char(1) == 'e' && t.get_char(2) == 'a'
        && t.get_char(3) == 'v' && t.get_char(4) == 'e' && t.get_char(5) == ' ' {
        let rest = t.substring_char(6, n);
        match parse_u64(rest) {
            Some(v) => Some(ControlFrame::Leave(v)),
            None => None,
        }
    } else {
        None
    }
}

} // verus!
