//! Byte-level scanning over JSON text: whitespace, string literals, raw
//! value fragments, and the decoding of JSON string escapes.

use vstd::prelude::*;

verus! {

/// JSON insignificant whitespace.
pub open spec fn is_ws(b: u8) -> bool {
    b == 32 || b == 9 || b == 10 || b == 13
}

/// The first index at or after `i` holding a non-whitespace byte (or the end).
pub open spec fn skip_ws_at(s: Seq<u8>, i: int) -> int
    decreases s.len() - i,
{
    if i < s.len() && is_ws(s[i]) {
        skip_ws_at(s, i + 1)
    } else {
        i
    }
}

pub proof fn lemma_skip_ws_at(s: Seq<u8>, i: int)
    requires
        0 <= i <= s.len(),
    ensures
        i <= skip_ws_at(s, i) <= s.len(),
        skip_ws_at(s, i) < s.len() ==> !is_ws(s[skip_ws_at(s, i)]),
    decreases s.len() - i,
{
    if i < s.len() && is_ws(s[i]) {
        lemma_skip_ws_at(s, i + 1);
    }
}

/// Scans a JSON string literal body starting at `i` (just after the opening
/// quote): the index just after the closing quote, or `None` when the text
/// ends first.  A backslash skips the following byte.
pub open spec fn str_end_at(s: Seq<u8>, i: int) -> Option<int>
    decreases s.len() - i,
{
    if i >= s.len() {
        None
    } else if s[i] == 34 {
        Some(i + 1)
    } else if s[i] == 92 {
        if i + 1 >= s.len() {
            None
        } else {
            str_end_at(s, i + 2)
        }
    } else {
        str_end_at(s, i + 1)
    }
}

pub proof fn lemma_str_end_at(s: Seq<u8>, i: int)
    requires
        0 <= i,
    ensures
        str_end_at(s, i) matches Some(j) ==> i < j <= s.len(),
    decreases s.len() - i,
{
    if i >= s.len() {
    } else if s[i] == 34 {
    } else if s[i] == 92 {
        if i + 1 < s.len() {
            lemma_str_end_at(s, i + 2);
        }
    } else {
        lemma_str_end_at(s, i + 1);
    }
}

/// Scans one raw JSON value starting at `i`: the index of the first `,`, `}`
/// or `]` that stands outside every string and at bracket depth zero.  That
/// index is where the value's raw text ends.
pub open spec fn raw_end_at(s: Seq<u8>, i: int, depth: nat, in_str: bool, esc: bool) -> Option<int>
    decreases s.len() - i,
{
    if i >= s.len() {
        None
    } else if in_str {
        if esc {
            raw_end_at(s, i + 1, depth, true, false)
        } else if s[i] == 92 {
            raw_end_at(s, i + 1, depth, true, true)
        } else if s[i] == 34 {
            raw_end_at(s, i + 1, depth, false, false)
        } else {
            raw_end_at(s, i + 1, depth, true, false)
        }
    } else if depth == 0 && (s[i] == 44 || s[i] == 125 || s[i] == 93) {
        Some(i)
    } else if s[i] == 34 {
        raw_end_at(s, i + 1, depth, true, false)
    } else if s[i] == 123 || s[i] == 91 {
        raw_end_at(s, i + 1, depth + 1, false, false)
    } else if s[i] == 125 || s[i] == 93 {
        raw_end_at(s, i + 1, (depth - 1) as nat, false, false)
    } else {
        raw_end_at(s, i + 1, depth, false, false)
    }
}

pub proof fn lemma_raw_end_at(s: Seq<u8>, i: int, depth: nat, in_str: bool, esc: bool)
    requires
        0 <= i,
    ensures
        raw_end_at(s, i, depth, in_str, esc) matches Some(j) ==> i <= j < s.len() && (s[j] == 44
            || s[j] == 125 || s[j] == 93),
    decreases s.len() - i,
{
    if i >= s.len() {
    } else if in_str {
        if esc {
            lemma_raw_end_at(s, i + 1, depth, true, false);
        } else if s[i] == 92 {
            lemma_raw_end_at(s, i + 1, depth, true, true);
        } else if s[i] == 34 {
            lemma_raw_end_at(s, i + 1, depth, false, false);
        } else {
            lemma_raw_end_at(s, i + 1, depth, true, false);
        }
    } else if depth == 0 && (s[i] == 44 || s[i] == 125 || s[i] == 93) {
    } else if s[i] == 34 {
        lemma_raw_end_at(s, i + 1, depth, true, false);
    } else if s[i] == 123 || s[i] == 91 {
        lemma_raw_end_at(s, i + 1, depth + 1, false, false);
    } else if s[i] == 125 || s[i] == 93 {
        lemma_raw_end_at(s, i + 1, (depth - 1) as nat, false, false);
    } else {
        lemma_raw_end_at(s, i + 1, depth, false, false);
    }
}

/// The end of `s[from..to]` with trailing whitespace removed.
pub open spec fn trim_ws_end(s: Seq<u8>, from: int, to: int) -> int
    decreases to - from,
{
    if to > from && is_ws(s[to - 1]) {
        trim_ws_end(s, from, to - 1)
    } else {
        to
    }
}

/// First non-whitespace index at or after `i`.
pub fn skip_ws(s: &Vec<u8>, i: usize) -> (r: usize)
    requires
        i <= s@.len(),
    ensures
        r == skip_ws_at(s@, i as int),
        i <= r <= s@.len(),
{
    let mut cur = i;
    while cur < s.len() && (s[cur] == 32 || s[cur] == 9 || s[cur] == 10 || s[cur] == 13)
        invariant
            i <= cur <= s@.len(),
            skip_ws_at(s@, i as int) == skip_ws_at(s@, cur as int),
        decreases s@.len() - cur,
    {
        cur = cur + 1;
    }
    cur
}

/// Scans past a string literal's body; see [`str_end_at`].
pub fn str_end(s: &Vec<u8>, i: usize) -> (r: Option<usize>)
    requires
        i <= s@.len(),
    ensures
        match r {
            Some(j) => str_end_at(s@, i as int) == Some(j as int) && i < j <= s@.len(),
            None => str_end_at(s@, i as int) is None,
        },
{
    let mut cur = i;
    while cur < s.len()
        invariant
            i <= cur <= s@.len(),
            str_end_at(s@, i as int) == str_end_at(s@, cur as int),
        decreases s@.len() - cur,
    {
        let b = s[cur];
        if b == 34 {
            return Some(cur + 1);
        } else if b == 92 {
            if cur + 1 >= s.len() {
                return None;
            }
            cur = cur + 2;
        } else {
            cur = cur + 1;
        }
    }
    None
}

/// Scans one raw value; see [`raw_end_at`].
pub fn raw_end(s: &Vec<u8>, i: usize) -> (r: Option<usize>)
    requires
        i <= s@.len(),
    ensures
        match r {
            Some(j) => raw_end_at(s@, i as int, 0, false, false) == Some(j as int) && i <= j
                < s@.len() && (s@[j as int] == 44 || s@[j as int] == 125 || s@[j as int] == 93),
            None => raw_end_at(s@, i as int, 0, false, false) is None,
        },
{
    let mut cur = i;
    let mut depth: usize = 0;
    let mut in_str = false;
    let mut esc = false;
    while cur < s.len()
        invariant
            i <= cur <= s@.len(),
            depth <= cur - i,
            esc ==> in_str,
            raw_end_at(s@, i as int, 0, false, false) == raw_end_at(
                s@,
                cur as int,
                depth as nat,
                in_str,
                esc,
            ),
        decreases s@.len() - cur,
    {
        let b = s[cur];
        if in_str {
            if esc {
                esc = false;
            } else if b == 92 {
                esc = true;
            } else if b == 34 {
                in_str = false;
            }
            cur = cur + 1;
        } else if depth == 0 && (b == 44 || b == 125 || b == 93) {
            proof {
                lemma_raw_end_at(s@, cur as int, 0, false, false);
            }
            return Some(cur);
        } else if b == 34 {
            in_str = true;
            cur = cur + 1;
        } else if b == 123 || b == 91 {
            depth = depth + 1;
            cur = cur + 1;
        } else if b == 125 || b == 93 {
            depth = depth - 1;
            cur = cur + 1;
        } else {
            cur = cur + 1;
        }
    }
    None
}

/// Copies `s[from..to]` into a fresh vector.
pub fn copy_range(s: &Vec<u8>, from: usize, to: usize) -> (r: Vec<u8>)
    requires
        from <= to <= s@.len(),
    ensures
        r@ == s@.subrange(from as int, to as int),
{
    let mut out: Vec<u8> = Vec::new();
    let mut i = from;
    while i < to
        invariant
            from <= i <= to <= s@.len(),
            out@ == s@.subrange(from as int, i as int),
        decreases to - i,
    {
        out.push(s[i]);
        proof {
            assert(s@.subrange(from as int, i + 1) =~= s@.subrange(from as int, i as int).push(
                s@[i as int],
            ));
        }
        i = i + 1;
    }
    out
}

/// Byte-for-byte equality of two slices.
pub fn bytes_eq(a: &[u8], b: &[u8]) -> (r: bool)
    ensures
        r <==> a@ == b@,
{
    if a.len() != b.len() {
        proof {
            assert(a@.len() != b@.len());
        }
        return false;
    }
    let mut i: usize = 0;
    while i < a.len()
        invariant
            i <= a@.len(),
            a@.len() == b@.len(),
            forall|k: int| 0 <= k < i ==> a@[k] == b@[k],
        decreases a@.len() - i,
    {
        if a[i] != b[i] {
            return false;
        }
        i = i + 1;
    }
    proof {
        assert(a@ =~= b@);
    }
    true
}

/// The numeric value of an ASCII hexadecimal digit.
pub open spec fn hex_val(b: u8) -> Option<int> {
    if 48 <= b <= 57 {
        Some(b - 48)
    } else if 97 <= b <= 102 {
        Some(b - 87)
    } else if 65 <= b <= 70 {
        Some(b - 55)
    } else {
        None
    }
}

/// The value of the four hexadecimal digits at `i`.
pub open spec fn hex4_at(s: Seq<u8>, i: int) -> Option<int> {
    match (hex_val(s[i]), hex_val(s[i + 1]), hex_val(s[i + 2]), hex_val(s[i + 3])) {
        (Some(a), Some(b), Some(c), Some(d)) => Some(a * 0x1000 + b * 0x100 + c * 0x10 + d),
        _ => None,
    }
}

/// The UTF-8 encoding of the Unicode scalar value `cp`.
pub open spec fn encode_cp(cp: int) -> Seq<u8> {
    if cp < 0x80 {
        seq![cp as u8]
    } else if cp < 0x800 {
        seq![(0xc0 + cp / 0x40) as u8, (0x80 + cp % 0x40) as u8]
    } else if cp < 0x10000 {
        seq![(0xe0 + cp / 0x1000) as u8, (0x80 + (cp / 0x40) % 0x40) as u8, (0x80 + cp % 0x40) as u8]
    } else {
        seq![
            (0xf0 + cp / 0x40000) as u8,
            (0x80 + (cp / 0x1000) % 0x40) as u8,
            (0x80 + (cp / 0x40) % 0x40) as u8,
            (0x80 + cp % 0x40) as u8,
        ]
    }
}

/// The bytes denoted by the escaped string-literal body `s[i..end]`: every
/// plain byte passes through; the short escapes, `\uXXXX` forms and
/// surrogate pairs are decoded; a malformed escape yields `None`.
pub open spec fn unesc_at(s: Seq<u8>, i: int, end: int) -> Option<Seq<u8>>
    decreases end - i,
{
    if i >= end {
        Some(Seq::empty())
    } else if s[i] == 92 {
        if i + 1 >= end {
            None
        } else {
            let e = s[i + 1];
            if e == 34 || e == 92 || e == 47 {
                match unesc_at(s, i + 2, end) {
                    None => None,
                    Some(t) => Some(seq![e] + t),
                }
            } else if e == 98 {
                match unesc_at(s, i + 2, end) {
                    None => None,
                    Some(t) => Some(seq![8u8] + t),
                }
            } else if e == 116 {
                match unesc_at(s, i + 2, end) {
                    None => None,
                    Some(t) => Some(seq![9u8] + t),
                }
            } else if e == 110 {
                match unesc_at(s, i + 2, end) {
                    None => None,
                    Some(t) => Some(seq![10u8] + t),
                }
            } else if e == 102 {
                match unesc_at(s, i + 2, end) {
                    None => None,
                    Some(t) => Some(seq![12u8] + t),
                }
            } else if e == 114 {
                match unesc_at(s, i + 2, end) {
                    None => None,
                    Some(t) => Some(seq![13u8] + t),
                }
            } else if e == 117 {
                if i + 6 > end {
                    None
                } else {
                    match hex4_at(s, i + 2) {
                        None => None,
                        Some(cp) => {
                            if 0xd800 <= cp < 0xdc00 {
                                if i + 12 > end || s[i + 6] != 92 || s[i + 7] != 117 {
                                    None
                                } else {
                                    match hex4_at(s, i + 8) {
                                        None => None,
                                        Some(cp2) => {
                                            if 0xdc00 <= cp2 < 0xe000 {
                                                match unesc_at(s, i + 12, end) {
                                                    None => None,
                                                    Some(t) => Some(
                                                        encode_cp(
                                                            0x10000 + (cp - 0xd800) * 0x400 + (cp2
                                                                - 0xdc00),
                                                        ) + t,
                                                    ),
                                                }
                                            } else {
                                                None
                                            }
                                        },
                                    }
                                }
                            } else if 0xdc00 <= cp < 0xe000 {
                                None
                            } else {
                                match unesc_at(s, i + 6, end) {
                                    None => None,
                                    Some(t) => Some(encode_cp(cp) + t),
                                }
                            }
                        },
                    }
                }
            } else {
                None
            }
        }
    } else {
        match unesc_at(s, i + 1, end) {
            None => None,
            Some(t) => Some(seq![s[i]] + t),
        }
    }
}

/// The numeric value of an ASCII hexadecimal digit byte.
pub fn hexv(b: u8) -> (r: Option<u8>)
    ensures
        match r {
            Some(v) => hex_val(b) == Some(v as int) && v < 16,
            None => hex_val(b) is None,
        },
{
    if 48 <= b && b <= 57 {
        Some(b - 48)
    } else if 97 <= b && b <= 102 {
        Some(b - 87)
    } else if 65 <= b && b <= 70 {
        Some(b - 55)
    } else {
        None
    }
}

/// Reads the four hexadecimal digits at `i`.
pub fn hex4(s: &Vec<u8>, i: usize) -> (r: Option<u32>)
    requires
        i + 4 <= s@.len(),
    ensures
        match r {
            Some(v) => hex4_at(s@, i as int) == Some(v as int) && v < 0x10000,
            None => hex4_at(s@, i as int) is None,
        },
{
    let n = s.len();
    let a = hexv(s[i]);
    let b = hexv(s[i + 1]);
    let c = hexv(s[i + 2]);
    let d = hexv(s[i + 3]);
    match (a, b, c, d) {
        (Some(a), Some(b), Some(c), Some(d)) => Some(
            a as u32 * 0x1000 + b as u32 * 0x100 + c as u32 * 0x10 + d as u32,
        ),
        _ => None,
    }
}

} // verus!
