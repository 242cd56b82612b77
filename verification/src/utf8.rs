//! UTF-8 validation.
//!
//! Atom and string payloads travel as raw bytes; the decoder admits
//! them only when they form well-formed UTF-8. `is_utf8` is the
//! mathematical definition (RFC 3629: shortest forms only, no
//! surrogates, no code points past U+10FFFF) and `check_utf8` is the
//! verified checker.

use vstd::prelude::*;

verus! {

/// Is `b` a continuation byte (`10xxxxxx`)?
pub open spec fn is_cont(b: u8) -> bool {
    0x80 <= b && b <= 0xbf
}

/// Well-formed UTF-8, by the first byte of each scalar value.
pub open spec fn is_utf8(s: Seq<u8>) -> bool
    decreases s.len(),
{
    if s.len() == 0 {
        true
    } else {
        let b = s[0];
        if b < 0x80 {
            is_utf8(s.skip(1))
        } else if 0xc2 <= b && b <= 0xdf {
            s.len() >= 2 && is_cont(s[1]) && is_utf8(s.skip(2))
        } else if b == 0xe0 {
            s.len() >= 3 && 0xa0 <= s[1] && s[1] <= 0xbf && is_cont(s[2]) && is_utf8(s.skip(3))
        } else if 0xe1 <= b && b <= 0xec {
            s.len() >= 3 && is_cont(s[1]) && is_cont(s[2]) && is_utf8(s.skip(3))
        } else if b == 0xed {
            s.len() >= 3 && 0x80 <= s[1] && s[1] <= 0x9f && is_cont(s[2]) && is_utf8(s.skip(3))
        } else if 0xee <= b && b <= 0xef {
            s.len() >= 3 && is_cont(s[1]) && is_cont(s[2]) && is_utf8(s.skip(3))
        } else if b == 0xf0 {
            s.len() >= 4 && 0x90 <= s[1] && s[1] <= 0xbf && is_cont(s[2]) && is_cont(s[3])
                && is_utf8(s.skip(4))
        } else if 0xf1 <= b && b <= 0xf3 {
            s.len() >= 4 && is_cont(s[1]) && is_cont(s[2]) && is_cont(s[3]) && is_utf8(s.skip(4))
        } else if b == 0xf4 {
            s.len() >= 4 && 0x80 <= s[1] && s[1] <= 0x8f && is_cont(s[2]) && is_cont(s[3])
                && is_utf8(s.skip(4))
        } else {
            false
        }
    }
}

/// Check whether a byte buffer is well-formed UTF-8.
pub fn check_utf8(v: &Vec<u8>) -> (r: bool)
    ensures
        r == is_utf8(v@),
{
    let n = v.len();
    let mut i: usize = 0;
    proof {
        assert(v@.skip(0) =~= v@);
    }
    while i < n
        invariant
            i <= n,
            n == v@.len(),
            is_utf8(v@) == is_utf8(v@.skip(i as int)),
        decreases n - i,
    {
        let ghost s = v@.skip(i as int);
        let b = v[i];
        assert(s[0] == b);
        let step: usize;
        if b < 0x80 {
            step = 1;
        } else if 0xc2 <= b && b <= 0xdf {
            if !(n - i >= 2 && is_cont_byte(v[i + 1])) {
                return false;
            }
            step = 2;
        } else if b == 0xe0 {
            if !(n - i >= 3 && 0xa0 <= v[i + 1] && v[i + 1] <= 0xbf && is_cont_byte(v[i + 2])) {
                return false;
            }
            step = 3;
        } else if 0xe1 <= b && b <= 0xec {
            if !(n - i >= 3 && is_cont_byte(v[i + 1]) && is_cont_byte(v[i + 2])) {
                return false;
            }
            step = 3;
        } else if b == 0xed {
            if !(n - i >= 3 && 0x80 <= v[i + 1] && v[i + 1] <= 0x9f && is_cont_byte(v[i + 2])) {
                return false;
            }
            step = 3;
        } else if 0xee <= b && b <= 0xef {
            if !(n - i >= 3 && is_cont_byte(v[i + 1]) && is_cont_byte(v[i + 2])) {
                return false;
            }
            step = 3;
        } else if b == 0xf0 {
            if !(n - i >= 4 && 0x90 <= v[i + 1] && v[i + 1] <= 0xbf && is_cont_byte(v[i + 2])
                && is_cont_byte(v[i + 3])) {
                return false;
            }
            step = 4;
        } else if 0xf1 <= b && b <= 0xf3 {
            if !(n - i >= 4 && is_cont_byte(v[i + 1]) && is_cont_byte(v[i + 2])
                && is_cont_byte(v[i + 3])) {
                return false;
            }
            step = 4;
        } else if b == 0xf4 {
            if !(n - i >= 4 && 0x80 <= v[i + 1] && v[i + 1] <= 0x8f && is_cont_byte(v[i + 2])
                && is_cont_byte(v[i + 3])) {
                return false;
            }
            step = 4;
        } else {
            return false;
        }
        proof {
            assert(s.skip(step as int) =~= v@.skip(i + step));
        }
        i = i + step;
    }
    proof {
        assert(v@.skip(n as int) =~= Seq::<u8>::empty());
    }
    true
}

/// Check whether a byte is a UTF-8 continuation byte.
fn is_cont_byte(b: u8) -> (r: bool)
    ensures
        r == is_cont(b),
{
    0x80 <= b && b <= 0xbf
}

} // verus!
