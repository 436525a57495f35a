//! Parsing a manifest document: a JSON object whose `uuid`, `name` and
//! `encrypt_bot` keys the engine interprets, and whose remaining keys are
//! kept as raw fragments so that re-serialization preserves them byte for
//! byte.

use vstd::prelude::*;
use crate::errs::MigrateError;
use crate::manifest::{Manifest, RawField, extra_view, lit_true, lit_false};
use crate::scan::{
    is_ws, skip_ws_at, str_end_at, raw_end_at, trim_ws_end, unesc_at, lemma_skip_ws_at,
    lemma_str_end_at, lemma_raw_end_at, skip_ws, str_end, raw_end, copy_range, bytes_eq, hex4,
};
use vstd::utf8::{valid_utf8, decode_utf8};

verus! {

/// The raw (key, value) pairs of an object body, parsed from position `i`
/// (just after `{` or after a `,`): whitespace, a quoted key, `:`, a raw
/// value run, then either `,` and further pairs or `}` followed only by
/// whitespace up to the end of the text.  Every key must be a well-formed
/// string literal and every value one well-formed JSON value.  Keys are
/// taken as they stand between their quotes; values are trimmed of
/// surrounding whitespace and otherwise untouched.
pub open spec fn parse_pairs_at(s: Seq<u8>, i: int) -> Option<Seq<(Seq<u8>, Seq<u8>)>>
    decreases s.len() - i,
        when 0 <= i <= s.len()
{
    let k0 = skip_ws_at(s, i);
    if k0 >= s.len() || s[k0] != 34 {
        None
    } else {
        match str_end_at(s, k0 + 1) {
            None => None,
            Some(kend) => {
                let c = skip_ws_at(s, kend);
                if c >= s.len() || s[c] != 58 {
                    None
                } else {
                    let v0 = skip_ws_at(s, c + 1);
                    match raw_end_at(s, v0, 0, false, false) {
                        None => None,
                        Some(vend) => {
                            let key = s.subrange(k0 + 1, kend - 1);
                            let value = s.subrange(v0, trim_ws_end(s, v0, vend));
                            if !json_value_valid(s.subrange(k0, kend)) || !json_value_valid(
                                value,
                            ) {
                                None
                            } else if s[vend] == 44 {
                                proof {
                                    lemma_skip_ws_at(s, i);
                                    lemma_str_end_at(s, k0 + 1);
                                    lemma_skip_ws_at(s, kend);
                                    lemma_skip_ws_at(s, c + 1);
                                    lemma_raw_end_at(s, v0, 0, false, false);
                                }
                                match parse_pairs_at(s, vend + 1) {
                                    None => None,
                                    Some(rest) => Some(seq![(key, value)] + rest),
                                }
                            } else if s[vend] == 125 {
                                if skip_ws_at(s, vend + 1) == s.len() {
                                    Some(seq![(key, value)])
                                } else {
                                    None
                                }
                            } else {
                                None
                            }
                        },
                    }
                }
            },
        }
    }
}

/// The raw (key, value) pairs of a whole manifest document: optional
/// whitespace, `{`, the pairs (or nothing), `}`, optional whitespace.
pub open spec fn manifest_fields(s: Seq<u8>) -> Option<Seq<(Seq<u8>, Seq<u8>)>> {
    let o = skip_ws_at(s, 0);
    if o >= s.len() || s[o] != 123 {
        None
    } else {
        let p = skip_ws_at(s, o + 1);
        if p < s.len() && s[p] == 125 {
            if skip_ws_at(s, p + 1) == s.len() {
                Some(Seq::empty())
            } else {
                None
            }
        } else {
            parse_pairs_at(s, o + 1)
        }
    }
}

/// Parses the pairs of an object body; see [`parse_pairs_at`].
pub fn parse_pairs(s: &Vec<u8>, i: usize) -> (r: Option<Vec<RawField>>)
    requires
        i <= s@.len(),
    ensures
        match r {
            Some(v) => parse_pairs_at(s@, i as int) == Some(extra_view(v@)),
            None => parse_pairs_at(s@, i as int) is None,
        },
    decreases s@.len() - i,
{
    let k0 = skip_ws(s, i);
    if k0 >= s.len() || s[k0] != 34 {
        return None;
    }
    let kend = match str_end(s, k0 + 1) {
        None => {
            return None;
        },
        Some(j) => j,
    };
    let c = skip_ws(s, kend);
    if c >= s.len() || s[c] != 58 {
        return None;
    }
    let v0 = skip_ws(s, c + 1);
    let vend = match raw_end(s, v0) {
        None => {
            return None;
        },
        Some(j) => j,
    };
    let mut tend = vend;
    while tend > v0 && (s[tend - 1] == 32 || s[tend - 1] == 9 || s[tend - 1] == 10 || s[tend - 1]
        == 13)
        invariant
            v0 <= tend <= vend <= s@.len(),
            trim_ws_end(s@, v0 as int, vend as int) == trim_ws_end(s@, v0 as int, tend as int),
        decreases tend,
    {
        tend = tend - 1;
    }
    proof {
        assert(trim_ws_end(s@, v0 as int, tend as int) == tend as int);
    }
    let key = copy_range(s, k0 + 1, kend - 1);
    let value = copy_range(s, v0, tend);
    let keyfrag = copy_range(s, k0, kend);
    if !json_value_ok(&keyfrag) {
        return None;
    }
    if !json_value_ok(&value) {
        return None;
    }
    let field = RawField { key, value };
    if s[vend] == 44 {
        match parse_pairs(s, vend + 1) {
            None => None,
            Some(mut rest) => {
                rest.insert(0, field);
                proof {
                    assert(extra_view(rest@) =~= seq![
                        (s@.subrange(k0 + 1, kend - 1), s@.subrange(v0 as int, tend as int)),
                    ] + extra_view(rest@.drop_first()));
                }
                Some(rest)
            },
        }
    } else if s[vend] == 125 {
        if skip_ws(s, vend + 1) == s.len() {
            let mut one: Vec<RawField> = Vec::new();
            one.push(field);
            proof {
                assert(extra_view(one@) =~= seq![
                    (s@.subrange(k0 + 1, kend - 1), s@.subrange(v0 as int, tend as int)),
                ]);
            }
            Some(one)
        } else {
            None
        }
    } else {
        None
    }
}

/// Parses a whole manifest document into raw fields; see [`manifest_fields`].
pub fn parse_fields(s: &Vec<u8>) -> (r: Option<Vec<RawField>>)
    ensures
        match r {
            Some(v) => manifest_fields(s@) == Some(extra_view(v@)),
            None => manifest_fields(s@) is None,
        },
{
    let o = skip_ws(s, 0);
    if o >= s.len() || s[o] != 123 {
        return None;
    }
    let p = skip_ws(s, o + 1);
    if p < s.len() && s[p] == 125 {
        if skip_ws(s, p + 1) == s.len() {
            let empty: Vec<RawField> = Vec::new();
            proof {
                assert(extra_view(empty@) =~= Seq::<(Seq<u8>, Seq<u8>)>::empty());
            }
            Some(empty)
        } else {
            None
        }
    } else {
        parse_pairs(s, o + 1)
    }
}

/// The first index at or after `i` whose key equals `key`.
pub open spec fn find_key_at(fs: Seq<(Seq<u8>, Seq<u8>)>, key: Seq<u8>, i: int) -> Option<int>
    decreases fs.len() - i,
        when 0 <= i <= fs.len()
{
    if i >= fs.len() {
        None
    } else if fs[i].0 == key {
        Some(i)
    } else {
        find_key_at(fs, key, i + 1)
    }
}

pub proof fn lemma_find_key_at(fs: Seq<(Seq<u8>, Seq<u8>)>, key: Seq<u8>, i: int)
    requires
        0 <= i <= fs.len(),
    ensures
        find_key_at(fs, key, i) matches Some(j) ==> i <= j < fs.len() && fs[j].0 == key,
    decreases fs.len() - i,
{
    if i < fs.len() && fs[i].0 != key {
        lemma_find_key_at(fs, key, i + 1);
    }
}

/// Finds the first field whose key is `key`.
pub fn find_field(fields: &Vec<RawField>, key: &[u8]) -> (r: Option<usize>)
    ensures
        match r {
            Some(j) => find_key_at(extra_view(fields@), key@, 0) == Some(j as int) && j
                < fields@.len(),
            None => find_key_at(extra_view(fields@), key@, 0) is None,
        },
{
    let mut i: usize = 0;
    while i < fields.len()
        invariant
            i <= fields@.len(),
            find_key_at(extra_view(fields@), key@, 0) == find_key_at(
                extra_view(fields@),
                key@,
                i as int,
            ),
        decreases fields@.len() - i,
    {
        if bytes_eq(fields[i].key.as_slice(), key) {
            return Some(i);
        }
        i = i + 1;
    }
    None
}

/// The engine-owned manifest keys.
pub open spec fn key_uuid() -> Seq<u8> {
    seq![117u8, 117, 105, 100]
}

pub open spec fn key_name() -> Seq<u8> {
    seq![110u8, 97, 109, 101]
}

pub open spec fn key_encrypt() -> Seq<u8> {
    seq![101u8, 110, 99, 114, 121, 112, 116, 95, 98, 111, 116]
}

pub open spec fn is_engine_key(k: Seq<u8>) -> bool {
    k == key_uuid() || k == key_name() || k == key_encrypt()
}

/// The fields that are not engine-owned, in document order.
pub open spec fn passthrough(fs: Seq<(Seq<u8>, Seq<u8>)>) -> Seq<(Seq<u8>, Seq<u8>)>
    decreases fs.len(),
{
    if fs.len() == 0 {
        Seq::empty()
    } else {
        passthrough(fs.drop_last()) + (if is_engine_key(fs.last().0) {
            Seq::empty()
        } else {
            seq![fs.last()]
        })
    }
}

/// The bytes denoted by a raw fragment that must be a JSON string literal:
/// an opening quote, a body whose closing quote is the fragment's final
/// byte, and decodable escapes.
pub open spec fn decode_str_frag(raw: Seq<u8>) -> Option<Seq<u8>> {
    if raw.len() >= 2 && raw[0] == 34 && str_end_at(raw, 1) == Some(raw.len() as int) {
        unesc_at(raw, 1, raw.len() - 1)
    } else {
        None
    }
}

/// Decodes the escaped string body `s[i..end]`, appending the bytes to
/// `out`; false exactly when some escape is malformed.
pub fn unescape_into(s: &Vec<u8>, i: usize, end: usize, out: &mut Vec<u8>) -> (ok: bool)
    requires
        i <= end <= s@.len(),
    ensures
        ok <==> unesc_at(s@, i as int, end as int) is Some,
        ok ==> final(out)@ == old(out)@ + unesc_at(s@, i as int, end as int).unwrap(),
    decreases end - i,
{
    if i >= end {
        return true;
    }
    let b = s[i];
    if b == 92 {
        if i + 1 >= end {
            return false;
        }
        let e = s[i + 1];
        if e == 34 || e == 92 || e == 47 {
            out.push(e);
            let ok = unescape_into(s, i + 2, end, out);
            proof {
                if unesc_at(s@, i + 2, end as int) is Some {
                    assert(out@ =~= old(out)@ + unesc_at(s@, i as int, end as int).unwrap());
                }
            }
            ok
        } else if e == 98 || e == 116 || e == 110 || e == 102 || e == 114 {
            let decoded: u8 = if e == 98 {
                8
            } else if e == 116 {
                9
            } else if e == 110 {
                10
            } else if e == 102 {
                12
            } else {
                13
            };
            out.push(decoded);
            let ok = unescape_into(s, i + 2, end, out);
            proof {
                if unesc_at(s@, i + 2, end as int) is Some {
                    assert(out@ =~= old(out)@ + unesc_at(s@, i as int, end as int).unwrap());
                }
            }
            ok
        } else if e == 117 {
            if end - i < 6 {
                return false;
            }
            let cp = match hex4(s, i + 2) {
                None => {
                    return false;
                },
                Some(v) => v,
            };
            if 0xd800 <= cp && cp < 0xdc00 {
                if end - i < 12 || s[i + 6] != 92 || s[i + 7] != 117 {
                    return false;
                }
                let cp2 = match hex4(s, i + 8) {
                    None => {
                        return false;
                    },
                    Some(v) => v,
                };
                if 0xdc00 <= cp2 && cp2 < 0xe000 {
                    let scalar: u32 = 0x10000 + (cp - 0xd800) * 0x400 + (cp2 - 0xdc00);
                    push_cp(out, scalar);
                    let ok = unescape_into(s, i + 12, end, out);
                    proof {
                        if unesc_at(s@, i + 12, end as int) is Some {
                            assert(out@ =~= old(out)@ + unesc_at(
                                s@,
                                i as int,
                                end as int,
                            ).unwrap());
                        }
                    }
                    ok
                } else {
                    false
                }
            } else if 0xdc00 <= cp && cp < 0xe000 {
                false
            } else {
                push_cp(out, cp);
                let ok = unescape_into(s, i + 6, end, out);
                proof {
                    if unesc_at(s@, i + 6, end as int) is Some {
                        assert(out@ =~= old(out)@ + unesc_at(s@, i as int, end as int).unwrap());
                    }
                }
                ok
            }
        } else {
            false
        }
    } else {
        out.push(b);
        let ok = unescape_into(s, i + 1, end, out);
        proof {
            if unesc_at(s@, i + 1, end as int) is Some {
                assert(out@ =~= old(out)@ + unesc_at(s@, i as int, end as int).unwrap());
            }
        }
        ok
    }
}

/// Writes the UTF-8 encoding of the scalar value `cp`.
fn push_cp(out: &mut Vec<u8>, cp: u32)
    requires
        cp < 0x110000,
    ensures
        final(out)@ == old(out)@ + crate::scan::encode_cp(cp as int),
{
    if cp < 0x80 {
        out.push(cp as u8);
        proof {
            assert(out@ =~= old(out)@ + crate::scan::encode_cp(cp as int));
        }
    } else if cp < 0x800 {
        out.push((0xc0 + cp / 0x40) as u8);
        out.push((0x80 + cp % 0x40) as u8);
        proof {
            assert(out@ =~= old(out)@ + crate::scan::encode_cp(cp as int));
        }
    } else if cp < 0x10000 {
        out.push((0xe0 + cp / 0x1000) as u8);
        out.push((0x80 + (cp / 0x40) % 0x40) as u8);
        out.push((0x80 + cp % 0x40) as u8);
        proof {
            assert(out@ =~= old(out)@ + crate::scan::encode_cp(cp as int));
        }
    } else {
        out.push((0xf0 + cp / 0x40000) as u8);
        out.push((0x80 + (cp / 0x1000) % 0x40) as u8);
        out.push((0x80 + (cp / 0x40) % 0x40) as u8);
        out.push((0x80 + cp % 0x40) as u8);
        proof {
            assert(out@ =~= old(out)@ + crate::scan::encode_cp(cp as int));
        }
    }
}

/// Decodes a raw fragment as a JSON string literal; see [`decode_str_frag`].
pub fn decode_string_fragment(raw: &Vec<u8>) -> (r: Option<Vec<u8>>)
    ensures
        match r {
            Some(v) => decode_str_frag(raw@) == Some(v@),
            None => decode_str_frag(raw@) is None,
        },
{
    if raw.len() < 2 || raw[0] != 34 {
        return None;
    }
    match str_end(raw, 1) {
        None => None,
        Some(j) => {
            if j != raw.len() {
                return None;
            }
            let mut out: Vec<u8> = Vec::new();
            if unescape_into(raw, 1, raw.len() - 1, &mut out) {
                Some(out)
            } else {
                None
            }
        },
    }
}

/// What a manifest document denotes: the decoded identity, the decoded
/// display name, the encryption flag (false when absent), and the
/// passthrough fields.  `None` when the document is not an object, the
/// `uuid` or `name` key is missing or not a well-formed string, a decoded
/// string is not valid UTF-8, or `encrypt_bot` is neither `true` nor
/// `false`.
pub open spec fn spec_parse_manifest(s: Seq<u8>) -> Option<
    (Seq<char>, Seq<char>, bool, Seq<(Seq<u8>, Seq<u8>)>),
> {
    match manifest_fields(s) {
        None => None,
        Some(fs) => match find_key_at(fs, key_uuid(), 0) {
            None => None,
            Some(iu) => match decode_str_frag(fs[iu].1) {
                None => None,
                Some(idb) => if !valid_utf8(idb) {
                    None
                } else {
                    match find_key_at(fs, key_name(), 0) {
                        None => None,
                        Some(im) => match decode_str_frag(fs[im].1) {
                            None => None,
                            Some(nmb) => if !valid_utf8(nmb) {
                                None
                            } else {
                                match find_key_at(fs, key_encrypt(), 0) {
                                    None => Some(
                                        (decode_utf8(idb), decode_utf8(nmb), false, passthrough(fs)),
                                    ),
                                    Some(ie) => if fs[ie].1 == lit_true() {
                                        Some(
                                            (
                                                decode_utf8(idb),
                                                decode_utf8(nmb),
                                                true,
                                                passthrough(fs),
                                            ),
                                        )
                                    } else if fs[ie].1 == lit_false() {
                                        Some(
                                            (
                                                decode_utf8(idb),
                                                decode_utf8(nmb),
                                                false,
                                                passthrough(fs),
                                            ),
                                        )
                                    } else {
                                        None
                                    },
                                }
                            },
                        },
                    }
                },
            },
        },
    }
}

/// Relies on `String::from_utf8`: it succeeds exactly on valid UTF-8 input
/// and decodes those bytes to the string's characters.
#[verifier::external_body]
pub(crate) fn bytes_to_string(v: Vec<u8>) -> (r: Option<String>)
    ensures
        match r {
            Some(s) => valid_utf8(v@) && s@ == decode_utf8(v@),
            None => !valid_utf8(v@),
        },
{
    match String::from_utf8(v) {
        Ok(s) => Some(s),
        Err(_) => None,
    }
}

/// Parses a serialized manifest.  Returns the manifest exactly when the
/// document denotes one (see [`spec_parse_manifest`]); every other input is
/// rejected as malformed.
pub fn parse_manifest(bytes: &Vec<u8>) -> (r: Result<Manifest, MigrateError>)
    ensures
        match r {
            Ok(m) => spec_parse_manifest(bytes@) matches Some(t) && m.identity@ == t.0
                && m.display_name@ == t.1 && m.encrypted == t.2 && extra_view(m.extra@) == t.3,
            Err(e) => e == MigrateError::ArchiveFormat && spec_parse_manifest(bytes@) is None,
        },
{
    let fields = match parse_fields(bytes) {
        None => {
            return Err(MigrateError::ArchiveFormat);
        },
        Some(v) => v,
    };
    let ghost fsv = extra_view(fields@);
    let ku: [u8; 4] = [117, 117, 105, 100];
    let kn: [u8; 4] = [110, 97, 109, 101];
    let ke: [u8; 11] = [101, 110, 99, 114, 121, 112, 116, 95, 98, 111, 116];
    proof {
        assert(ku@ =~= key_uuid());
        assert(kn@ =~= key_name());
        assert(ke@ =~= key_encrypt());
    }
    let iu = match find_field(&fields, ku.as_slice()) {
        None => {
            return Err(MigrateError::ArchiveFormat);
        },
        Some(j) => j,
    };
    proof {
        lemma_find_key_at(fsv, key_uuid(), 0);
    }
    let idb = match decode_string_fragment(&fields[iu].value) {
        None => {
            return Err(MigrateError::ArchiveFormat);
        },
        Some(v) => v,
    };
    let identity = match bytes_to_string(idb) {
        None => {
            return Err(MigrateError::ArchiveFormat);
        },
        Some(s) => s,
    };
    let im = match find_field(&fields, kn.as_slice()) {
        None => {
            return Err(MigrateError::ArchiveFormat);
        },
        Some(j) => j,
    };
    proof {
        lemma_find_key_at(fsv, key_name(), 0);
    }
    let nmb = match decode_string_fragment(&fields[im].value) {
        None => {
            return Err(MigrateError::ArchiveFormat);
        },
        Some(v) => v,
    };
    let display_name = match bytes_to_string(nmb) {
        None => {
            return Err(MigrateError::ArchiveFormat);
        },
        Some(s) => s,
    };
    let encrypted = match find_field(&fields, ke.as_slice()) {
        None => false,
        Some(ie) => {
            proof {
                lemma_find_key_at(fsv, key_encrypt(), 0);
            }
            let tw: [u8; 4] = [116, 114, 117, 101];
            let fw: [u8; 5] = [102, 97, 108, 115, 101];
            proof {
                assert(tw@ =~= lit_true());
                assert(fw@ =~= lit_false());
            }
            if bytes_eq(fields[ie].value.as_slice(), tw.as_slice()) {
                true
            } else if bytes_eq(fields[ie].value.as_slice(), fw.as_slice()) {
                false
            } else {
                return Err(MigrateError::ArchiveFormat);
            }
        },
    };
    let mut extra: Vec<RawField> = Vec::new();
    let mut i: usize = 0;
    while i < fields.len()
        invariant
            i <= fields@.len(),
            fsv == extra_view(fields@),
            ku@ == key_uuid(),
            kn@ == key_name(),
            ke@ == key_encrypt(),
            extra_view(extra@) == passthrough(fsv.take(i as int)),
        decreases fields@.len() - i,
    {
        let keep = !(bytes_eq(fields[i].key.as_slice(), ku.as_slice()) || bytes_eq(
            fields[i].key.as_slice(),
            kn.as_slice(),
        ) || bytes_eq(fields[i].key.as_slice(), ke.as_slice()));
        proof {
            assert(fsv.take(i + 1).drop_last() =~= fsv.take(i as int));
            assert(fsv.take(i + 1).last() == fsv[i as int]);
        }
        if keep {
            let key = copy_range(&fields[i].key, 0, fields[i].key.len());
            let value = copy_range(&fields[i].value, 0, fields[i].value.len());
            proof {
                assert(key@ =~= fields[i as int].key@);
                assert(value@ =~= fields[i as int].value@);
            }
            extra.push(RawField { key, value });
            proof {
                assert(extra_view(extra@) =~= passthrough(fsv.take(i as int)) + seq![
                    fsv[i as int],
                ]);
            }
        }
        i = i + 1;
    }
    proof {
        assert(fsv.take(fsv.len() as int) =~= fsv);
    }
    Ok(Manifest { identity, display_name, encrypted, extra })
}


/// Where a one-pass scan of a JSON value stands.  `Lit` carries the bytes a
/// keyword (`true`, `false`, `null`) still owes; `StrHex` counts the digits
/// a `\u` escape still owes.
#[derive(Clone, Copy, Debug, PartialEq, Eq, Structural)]
pub enum JState {
    /// Expecting a value's first byte.
    Value,
    /// A complete value ended; expecting a separator, a closer, or the end.
    AfterValue,
    /// Expecting an object key.
    Key,
    /// Right after `{`: a key or `}`.
    KeyOrClose,
    /// Right after a key: `:`.
    Colon,
    /// Right after `[`: a value or `]`.
    ValueOrClose,
    /// Inside a string literal; `key` tells where its closing quote leads.
    StrBody { key: bool },
    /// Right after a backslash.
    StrEsc { key: bool },
    /// Inside a `\u` escape, `left` hex digits to go.
    StrHex { key: bool, left: u8 },
    /// Right after a number's minus sign.
    NumMinus,
    /// After a leading zero.
    NumZero,
    /// In a number's integer digits.
    NumInt,
    /// Right after a number's decimal point.
    NumFracStart,
    /// In a number's fraction digits.
    NumFrac,
    /// Right after `e` or `E`.
    NumExpStart,
    /// Right after an exponent sign.
    NumExpSign,
    /// In exponent digits.
    NumExp,
    /// In a keyword, `n` bytes still owed, `b1` the next one.
    Lit { n: u8, b1: u8, b2: u8, b3: u8 },
}

pub open spec fn is_json_digit(c: u8) -> bool {
    48 <= c <= 57
}

pub open spec fn is_json_hex(c: u8) -> bool {
    is_json_digit(c) || (97 <= c <= 102) || (65 <= c <= 70)
}

/// How a byte extends a just-completed value: whitespace idles; a comma
/// resumes the enclosing object or array; a closer pops it.
pub open spec fn jstep_after(stack: Seq<bool>, c: u8) -> Option<(JState, Seq<bool>)> {
    if is_ws(c) {
        Some((JState::AfterValue, stack))
    } else if c == 44 && stack.len() > 0 {
        if stack.last() {
            Some((JState::Key, stack))
        } else {
            Some((JState::Value, stack))
        }
    } else if c == 125 && stack.len() > 0 && stack.last() {
        Some((JState::AfterValue, stack.drop_last()))
    } else if c == 93 && stack.len() > 0 && !stack.last() {
        Some((JState::AfterValue, stack.drop_last()))
    } else {
        None
    }
}

/// How a byte starts a value.
pub open spec fn jstep_value(stack: Seq<bool>, c: u8) -> Option<(JState, Seq<bool>)> {
    if c == 34 {
        Some((JState::StrBody { key: false }, stack))
    } else if c == 123 {
        Some((JState::KeyOrClose, stack.push(true)))
    } else if c == 91 {
        Some((JState::ValueOrClose, stack.push(false)))
    } else if c == 45 {
        Some((JState::NumMinus, stack))
    } else if c == 48 {
        Some((JState::NumZero, stack))
    } else if 49 <= c <= 57 {
        Some((JState::NumInt, stack))
    } else if c == 116 {
        Some((JState::Lit { n: 3, b1: 114, b2: 117, b3: 101 }, stack))
    } else if c == 102 {
        Some((JState::Lit { n: 4, b1: 97, b2: 108, b3: 115 }, stack))
    } else if c == 110 {
        Some((JState::Lit { n: 3, b1: 117, b2: 108, b3: 108 }, stack))
    } else {
        None
    }
}

/// One step of the JSON value scan.  (The `false` keyword's fifth byte is
/// re-owed when its `Lit` counter passes three.)
pub open spec fn jstep(st: JState, stack: Seq<bool>, c: u8) -> Option<(JState, Seq<bool>)> {
    match st {
        JState::Value => if is_ws(c) {
            Some((JState::Value, stack))
        } else {
            jstep_value(stack, c)
        },
        JState::AfterValue => jstep_after(stack, c),
        JState::Key => if is_ws(c) {
            Some((JState::Key, stack))
        } else if c == 34 {
            Some((JState::StrBody { key: true }, stack))
        } else {
            None
        },
        JState::KeyOrClose => if is_ws(c) {
            Some((JState::KeyOrClose, stack))
        } else if c == 34 {
            Some((JState::StrBody { key: true }, stack))
        } else if c == 125 && stack.len() > 0 && stack.last() {
            Some((JState::AfterValue, stack.drop_last()))
        } else {
            None
        },
        JState::Colon => if is_ws(c) {
            Some((JState::Colon, stack))
        } else if c == 58 {
            Some((JState::Value, stack))
        } else {
            None
        },
        JState::ValueOrClose => if is_ws(c) {
            Some((JState::ValueOrClose, stack))
        } else if c == 93 && stack.len() > 0 && !stack.last() {
            Some((JState::AfterValue, stack.drop_last()))
        } else {
            jstep_value(stack, c)
        },
        JState::StrBody { key } => if c == 34 {
            if key {
                Some((JState::Colon, stack))
            } else {
                Some((JState::AfterValue, stack))
            }
        } else if c == 92 {
            Some((JState::StrEsc { key }, stack))
        } else if c < 32 {
            None
        } else {
            Some((JState::StrBody { key }, stack))
        },
        JState::StrEsc { key } => if c == 34 || c == 92 || c == 47 || c == 98 || c == 102 || c
            == 110 || c == 114 || c == 116 {
            Some((JState::StrBody { key }, stack))
        } else if c == 117 {
            Some((JState::StrHex { key, left: 4 }, stack))
        } else {
            None
        },
        JState::StrHex { key, left } => if is_json_hex(c) {
            if left <= 1 {
                Some((JState::StrBody { key }, stack))
            } else {
                Some((JState::StrHex { key, left: (left - 1) as u8 }, stack))
            }
        } else {
            None
        },
        JState::NumMinus => if c == 48 {
            Some((JState::NumZero, stack))
        } else if 49 <= c <= 57 {
            Some((JState::NumInt, stack))
        } else {
            None
        },
        JState::NumZero => if c == 46 {
            Some((JState::NumFracStart, stack))
        } else if c == 101 || c == 69 {
            Some((JState::NumExpStart, stack))
        } else {
            jstep_after(stack, c)
        },
        JState::NumInt => if is_json_digit(c) {
            Some((JState::NumInt, stack))
        } else if c == 46 {
            Some((JState::NumFracStart, stack))
        } else if c == 101 || c == 69 {
            Some((JState::NumExpStart, stack))
        } else {
            jstep_after(stack, c)
        },
        JState::NumFracStart => if is_json_digit(c) {
            Some((JState::NumFrac, stack))
        } else {
            None
        },
        JState::NumFrac => if is_json_digit(c) {
            Some((JState::NumFrac, stack))
        } else if c == 101 || c == 69 {
            Some((JState::NumExpStart, stack))
        } else {
            jstep_after(stack, c)
        },
        JState::NumExpStart => if c == 43 || c == 45 {
            Some((JState::NumExpSign, stack))
        } else if is_json_digit(c) {
            Some((JState::NumExp, stack))
        } else {
            None
        },
        JState::NumExpSign => if is_json_digit(c) {
            Some((JState::NumExp, stack))
        } else {
            None
        },
        JState::NumExp => if is_json_digit(c) {
            Some((JState::NumExp, stack))
        } else {
            jstep_after(stack, c)
        },
        JState::Lit { n, b1, b2, b3 } => if n >= 1 && c == b1 {
            if n == 1 {
                Some((JState::AfterValue, stack))
            } else if n == 4 {
                Some((JState::Lit { n: 3, b1: b2, b2: b3, b3: 101 }, stack))
            } else {
                Some((JState::Lit { n: (n - 1) as u8, b1: b2, b2: b3, b3: 0 }, stack))
            }
        } else {
            None
        },
    }
}

/// Whether a scan may stop here: everything closed and a value complete.
pub open spec fn jaccept(st: JState, stack: Seq<bool>) -> bool {
    &&& stack.len() == 0
    &&& (st is AfterValue || st is NumZero || st is NumInt || st is NumFrac || st is NumExp)
}

/// Whether `s[i..]` completes a scan that stands at `st` with open
/// containers `stack`.
pub open spec fn json_valid_from(s: Seq<u8>, i: int, st: JState, stack: Seq<bool>) -> bool
    decreases s.len() - i,
{
    if i >= s.len() {
        jaccept(st, stack)
    } else {
        match jstep(st, stack, s[i]) {
            None => false,
            Some(next) => json_valid_from(s, i + 1, next.0, next.1),
        }
    }
}

/// Whether `s` is one well-formed JSON value (with optional surrounding
/// whitespace and nothing else).
pub open spec fn json_value_valid(s: Seq<u8>) -> bool {
    json_valid_from(s, 0, JState::Value, Seq::empty())
}

/// Performs one scan step on the exec state; false exactly when the scan
/// rejects.
fn jstep_exec(st: JState, stack: &mut Vec<bool>, c: u8) -> (r: Option<JState>)
    ensures
        match jstep(st, old(stack)@, c) {
            None => r is None,
            Some(next) => r == Some(next.0) && final(stack)@ == next.1,
        },
{
    let depth = stack.len();
    let top_obj = if depth > 0 {
        stack[depth - 1]
    } else {
        false
    };
    match st {
        JState::Value => {
            if c == 32 || c == 9 || c == 10 || c == 13 {
                Some(JState::Value)
            } else {
                jstep_value_exec(stack, c)
            }
        },
        JState::AfterValue => jstep_after_exec(stack, c),
        JState::Key => {
            if c == 32 || c == 9 || c == 10 || c == 13 {
                Some(JState::Key)
            } else if c == 34 {
                Some(JState::StrBody { key: true })
            } else {
                None
            }
        },
        JState::KeyOrClose => {
            if c == 32 || c == 9 || c == 10 || c == 13 {
                Some(JState::KeyOrClose)
            } else if c == 34 {
                Some(JState::StrBody { key: true })
            } else if c == 125 && depth > 0 && top_obj {
                stack.pop();
                Some(JState::AfterValue)
            } else {
                None
            }
        },
        JState::Colon => {
            if c == 32 || c == 9 || c == 10 || c == 13 {
                Some(JState::Colon)
            } else if c == 58 {
                Some(JState::Value)
            } else {
                None
            }
        },
        JState::ValueOrClose => {
            if c == 32 || c == 9 || c == 10 || c == 13 {
                Some(JState::ValueOrClose)
            } else if c == 93 && depth > 0 && !top_obj {
                stack.pop();
                Some(JState::AfterValue)
            } else {
                jstep_value_exec(stack, c)
            }
        },
        JState::StrBody { key } => {
            if c == 34 {
                if key {
                    Some(JState::Colon)
                } else {
                    Some(JState::AfterValue)
                }
            } else if c == 92 {
                Some(JState::StrEsc { key })
            } else if c < 32 {
                None
            } else {
                Some(JState::StrBody { key })
            }
        },
        JState::StrEsc { key } => {
            if c == 34 || c == 92 || c == 47 || c == 98 || c == 102 || c == 110 || c == 114 || c
                == 116 {
                Some(JState::StrBody { key })
            } else if c == 117 {
                Some(JState::StrHex { key, left: 4 })
            } else {
                None
            }
        },
        JState::StrHex { key, left } => {
            if (48 <= c && c <= 57) || (97 <= c && c <= 102) || (65 <= c && c <= 70) {
                if left <= 1 {
                    Some(JState::StrBody { key })
                } else {
                    Some(JState::StrHex { key, left: left - 1 })
                }
            } else {
                None
            }
        },
        JState::NumMinus => {
            if c == 48 {
                Some(JState::NumZero)
            } else if 49 <= c && c <= 57 {
                Some(JState::NumInt)
            } else {
                None
            }
        },
        JState::NumZero => {
            if c == 46 {
                Some(JState::NumFracStart)
            } else if c == 101 || c == 69 {
                Some(JState::NumExpStart)
            } else {
                jstep_after_exec(stack, c)
            }
        },
        JState::NumInt => {
            if 48 <= c && c <= 57 {
                Some(JState::NumInt)
            } else if c == 46 {
                Some(JState::NumFracStart)
            } else if c == 101 || c == 69 {
                Some(JState::NumExpStart)
            } else {
                jstep_after_exec(stack, c)
            }
        },
        JState::NumFracStart => {
            if 48 <= c && c <= 57 {
                Some(JState::NumFrac)
            } else {
                None
            }
        },
        JState::NumFrac => {
            if 48 <= c && c <= 57 {
                Some(JState::NumFrac)
            } else if c == 101 || c == 69 {
                Some(JState::NumExpStart)
            } else {
                jstep_after_exec(stack, c)
            }
        },
        JState::NumExpStart => {
            if c == 43 || c == 45 {
                Some(JState::NumExpSign)
            } else if 48 <= c && c <= 57 {
                Some(JState::NumExp)
            } else {
                None
            }
        },
        JState::NumExpSign => {
            if 48 <= c && c <= 57 {
                Some(JState::NumExp)
            } else {
                None
            }
        },
        JState::NumExp => {
            if 48 <= c && c <= 57 {
                Some(JState::NumExp)
            } else {
                jstep_after_exec(stack, c)
            }
        },
        JState::Lit { n, b1, b2, b3 } => {
            if n >= 1 && c == b1 {
                if n == 1 {
                    Some(JState::AfterValue)
                } else if n == 4 {
                    Some(JState::Lit { n: 3, b1: b2, b2: b3, b3: 101 })
                } else {
                    Some(JState::Lit { n: n - 1, b1: b2, b2: b3, b3: 0 })
                }
            } else {
                None
            }
        },
    }
}

/// A just-completed value's next step.
fn jstep_after_exec(stack: &mut Vec<bool>, c: u8) -> (r: Option<JState>)
    ensures
        match jstep_after(old(stack)@, c) {
            None => r is None,
            Some(next) => r == Some(next.0) && final(stack)@ == next.1,
        },
{
    let depth = stack.len();
    let top_obj = if depth > 0 {
        stack[depth - 1]
    } else {
        false
    };
    if c == 32 || c == 9 || c == 10 || c == 13 {
        Some(JState::AfterValue)
    } else if c == 44 && depth > 0 {
        if top_obj {
            Some(JState::Key)
        } else {
            Some(JState::Value)
        }
    } else if c == 125 && depth > 0 && top_obj {
        stack.pop();
        Some(JState::AfterValue)
    } else if c == 93 && depth > 0 && !top_obj {
        stack.pop();
        Some(JState::AfterValue)
    } else {
        None
    }
}

/// A value's first byte.
fn jstep_value_exec(stack: &mut Vec<bool>, c: u8) -> (r: Option<JState>)
    ensures
        match jstep_value(old(stack)@, c) {
            None => r is None,
            Some(next) => r == Some(next.0) && final(stack)@ == next.1,
        },
{
    if c == 34 {
        Some(JState::StrBody { key: false })
    } else if c == 123 {
        stack.push(true);
        Some(JState::KeyOrClose)
    } else if c == 91 {
        stack.push(false);
        Some(JState::ValueOrClose)
    } else if c == 45 {
        Some(JState::NumMinus)
    } else if c == 48 {
        Some(JState::NumZero)
    } else if 49 <= c && c <= 57 {
        Some(JState::NumInt)
    } else if c == 116 {
        Some(JState::Lit { n: 3, b1: 114, b2: 117, b3: 101 })
    } else if c == 102 {
        Some(JState::Lit { n: 4, b1: 97, b2: 108, b3: 115 })
    } else if c == 110 {
        Some(JState::Lit { n: 3, b1: 117, b2: 108, b3: 108 })
    } else {
        None
    }
}

/// Whether the bytes are one well-formed JSON value; see
/// [`json_value_valid`].
pub fn json_value_ok(v: &Vec<u8>) -> (r: bool)
    ensures
        r == json_value_valid(v@),
{
    let mut st = JState::Value;
    let mut stack: Vec<bool> = Vec::new();
    let mut i: usize = 0;
    while i < v.len()
        invariant
            i <= v@.len(),
            json_value_valid(v@) == json_valid_from(v@, i as int, st, stack@),
        decreases v@.len() - i,
    {
        match jstep_exec(st, &mut stack, v[i]) {
            None => {
                return false;
            },
            Some(next) => {
                st = next;
            },
        }
        i = i + 1;
    }
    let depth = stack.len();
    depth == 0 && match st {
        JState::AfterValue | JState::NumZero | JState::NumInt | JState::NumFrac
            | JState::NumExp => true,
        _ => false,
    }
}

} // verus!
