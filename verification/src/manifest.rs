//! The package manifest: a JSON object with three engine-relevant keys
//! (identity, display name, encryption flag) and an opaque passthrough bag
//! for everything else, plus its serialized rendering.

use vstd::prelude::*;

verus! {

/// One manifest key the engine does not interpret: the key text as it stood
/// between the quotes in the source document, and the value as its raw JSON
/// fragment, preserved byte for byte.
#[derive(Clone, Debug)]
pub struct RawField {
    pub key: Vec<u8>,
    pub value: Vec<u8>,
}

/// A parsed manifest.  `identity` and `display_name` are the decoded values
/// of the required `uuid` and `name` keys; `encrypted` is the `encrypt_bot`
/// flag (false when the key is absent); `extra` keeps every other key of the
/// document, in document order, as raw fragments.
#[derive(Clone, Debug)]
pub struct Manifest {
    pub identity: String,
    pub display_name: String,
    pub encrypted: bool,
    pub extra: Vec<RawField>,
}

/// The manifest after identity reassignment: fresh identity, derived display
/// name, encryption flag forced off, every other key untouched.
pub open spec fn spec_migrate(m: Manifest, id: String, name: String) -> Manifest {
    Manifest { identity: id, display_name: name, encrypted: false, extra: m.extra }
}

/// Applies the migration mutation: sets the identity and display name and
/// forces the encryption flag to false — a migrated package is always
/// produced unencrypted — while preserving every other key byte for byte.
pub fn apply_migration(m: Manifest, id: String, name: String) -> (r: Manifest)
    ensures
        r == spec_migrate(m, id, name),
        r.identity == id,
        r.display_name == name,
        !r.encrypted,
        r.extra == m.extra,
{
    Manifest { identity: id, display_name: name, encrypted: false, extra: m.extra }
}

/// The lower-case hexadecimal digit for `d` in `0..16`, as a byte.
pub open spec fn hex_digit(d: int) -> u8 {
    if d < 10 {
        (48 + d) as u8
    } else {
        (87 + d) as u8
    }
}

/// How one byte of a string value is rendered inside a JSON string literal:
/// quote and backslash are escaped, the common control characters get their
/// short escapes, other control bytes the `\u00XX` form, and everything else
/// (UTF-8 continuation bytes included) passes through.
pub open spec fn escape_byte(b: u8) -> Seq<u8> {
    if b == 0x22 {
        seq![0x5c, 0x22]
    } else if b == 0x5c {
        seq![0x5c, 0x5c]
    } else if b == 0x08 {
        seq![0x5c, 98]
    } else if b == 0x09 {
        seq![0x5c, 116]
    } else if b == 0x0a {
        seq![0x5c, 110]
    } else if b == 0x0c {
        seq![0x5c, 102]
    } else if b == 0x0d {
        seq![0x5c, 114]
    } else if b < 0x20 {
        seq![0x5c, 117, 48, 48, hex_digit(b as int / 16), hex_digit(b as int % 16)]
    } else {
        seq![b]
    }
}

/// The JSON string-literal rendering of a byte string, without the quotes.
pub open spec fn json_escape(s: Seq<u8>) -> Seq<u8>
    decreases s.len(),
{
    if s.len() == 0 {
        Seq::empty()
    } else {
        json_escape(s.drop_last()) + escape_byte(s.last())
    }
}

/// Appends the bytes of `s` to `out` unchanged.
pub fn push_bytes(out: &mut Vec<u8>, s: &[u8])
    ensures
        final(out)@ == old(out)@ + s@,
{
    let mut i: usize = 0;
    while i < s.len()
        invariant
            i <= s@.len(),
            out@ == old(out)@ + s@.take(i as int),
        decreases s@.len() - i,
    {
        out.push(s[i]);
        proof {
            assert(old(out)@ + s@.take(i + 1) =~= (old(out)@ + s@.take(i as int)).push(s@[i as int]));
        }
        i = i + 1;
    }
    proof {
        assert(s@.take(s@.len() as int) =~= s@);
    }
}

/// Appends the JSON escape of `s` to `out`.
pub fn push_escaped(out: &mut Vec<u8>, s: &[u8])
    ensures
        final(out)@ == old(out)@ + json_escape(s@),
{
    let mut i: usize = 0;
    while i < s.len()
        invariant
            i <= s@.len(),
            out@ == old(out)@ + json_escape(s@.take(i as int)),
        decreases s@.len() - i,
    {
        let b = s[i];
        if b == 0x22 {
            out.push(0x5c);
            out.push(0x22);
        } else if b == 0x5c {
            out.push(0x5c);
            out.push(0x5c);
        } else if b == 0x08 {
            out.push(0x5c);
            out.push(98);
        } else if b == 0x09 {
            out.push(0x5c);
            out.push(116);
        } else if b == 0x0a {
            out.push(0x5c);
            out.push(110);
        } else if b == 0x0c {
            out.push(0x5c);
            out.push(102);
        } else if b == 0x0d {
            out.push(0x5c);
            out.push(114);
        } else if b < 0x20 {
            out.push(0x5c);
            out.push(117);
            out.push(48);
            out.push(48);
            let hi = b / 16;
            let lo = b % 16;
            out.push(if hi < 10 { 48 + hi } else { 87 + hi });
            out.push(if lo < 10 { 48 + lo } else { 87 + lo });
        } else {
            out.push(b);
        }
        proof {
            assert(s@.take(i + 1).drop_last() =~= s@.take(i as int));
            assert(s@.take(i + 1).last() == s@[i as int]);
            assert(out@ =~= old(out)@ + json_escape(s@.take(i + 1)));
        }
        i = i + 1;
    }
    proof {
        assert(s@.take(s@.len() as int) =~= s@);
    }
}

/// `{\n  "uuid": "`
pub open spec fn lit_head() -> Seq<u8> {
    seq![123, 10, 32, 32, 34, 117, 117, 105, 100, 34, 58, 32, 34]
}

/// `",\n  "name": "`
pub open spec fn lit_mid_name() -> Seq<u8> {
    seq![34, 44, 10, 32, 32, 34, 110, 97, 109, 101, 34, 58, 32, 34]
}

/// `",\n  "encrypt_bot": `
pub open spec fn lit_mid_flag() -> Seq<u8> {
    seq![34, 44, 10, 32, 32, 34, 101, 110, 99, 114, 121, 112, 116, 95,
        98, 111, 116, 34, 58, 32]
}

pub open spec fn lit_true() -> Seq<u8> {
    seq![116, 114, 117, 101]
}

pub open spec fn lit_false() -> Seq<u8> {
    seq![102, 97, 108, 115, 101]
}

/// The serialization of one passthrough field: `,\n  "<key>": <value>` with
/// the key and the raw value fragment inserted verbatim.
pub open spec fn field_json(key: Seq<u8>, value: Seq<u8>) -> Seq<u8> {
    seq![44, 10, 32, 32, 34] + key + seq![34, 58, 32] + value
}

pub open spec fn fields_json(fs: Seq<(Seq<u8>, Seq<u8>)>) -> Seq<u8>
    decreases fs.len(),
{
    if fs.len() == 0 {
        Seq::empty()
    } else {
        fields_json(fs.drop_last()) + field_json(fs.last().0, fs.last().1)
    }
}

/// The raw (key, value) pairs of the passthrough bag.
pub open spec fn extra_view(extra: Seq<RawField>) -> Seq<(Seq<u8>, Seq<u8>)> {
    extra.map_values(|f: RawField| (f.key@, f.value@))
}

/// The serialized manifest as a function of its plain parts: the three
/// engine-owned keys first, then the passthrough bag in document order,
/// pretty-printed with two-space indent.
pub open spec fn manifest_json_of(
    identity: Seq<char>,
    display_name: Seq<char>,
    encrypted: bool,
    fields: Seq<(Seq<u8>, Seq<u8>)>,
) -> Seq<u8> {
    lit_head() + json_escape(vstd::utf8::encode_utf8(identity)) + lit_mid_name() + json_escape(
        vstd::utf8::encode_utf8(display_name),
    ) + lit_mid_flag() + (if encrypted {
        lit_true()
    } else {
        lit_false()
    }) + fields_json(fields) + seq![10, 125]
}

/// The full serialized manifest.
pub open spec fn manifest_json(m: Manifest) -> Seq<u8> {
    manifest_json_of(m.identity@, m.display_name@, m.encrypted, extra_view(m.extra@))
}

/// Serializes a manifest.  The engine-owned keys are rendered from their
/// typed values; every passthrough key and value is inserted byte for byte.
pub fn serialize_manifest(m: &Manifest) -> (r: Vec<u8>)
    ensures
        r@ == manifest_json(*m),
{
    let mut out: Vec<u8> = Vec::new();
    let head: [u8; 13] = [123, 10, 32, 32, 34, 117, 117, 105, 100, 34, 58, 32,
        34];
    push_bytes(&mut out, head.as_slice());
    proof {
        assert(out@ =~= lit_head());
    }
    push_escaped(&mut out, m.identity.as_str().as_bytes());
    let mid_name: [u8; 14] = [34, 44, 10, 32, 32, 34, 110, 97, 109, 101, 34,
        58, 32, 34];
    push_bytes(&mut out, mid_name.as_slice());
    proof {
        assert(mid_name@ =~= lit_mid_name());
    }
    push_escaped(&mut out, m.display_name.as_str().as_bytes());
    let mid_flag: [u8; 20] = [34, 44, 10, 32, 32, 34, 101, 110, 99, 114, 121,
        112, 116, 95, 98, 111, 116, 34, 58, 32];
    push_bytes(&mut out, mid_flag.as_slice());
    proof {
        assert(mid_flag@ =~= lit_mid_flag());
    }
    if m.encrypted {
        let word: [u8; 4] = [116, 114, 117, 101];
        push_bytes(&mut out, word.as_slice());
        proof {
            assert(word@ =~= lit_true());
        }
    } else {
        let word: [u8; 5] = [102, 97, 108, 115, 101];
        push_bytes(&mut out, word.as_slice());
        proof {
            assert(word@ =~= lit_false());
        }
    }
    let ghost before_fields = out@;
    let mut i: usize = 0;
    while i < m.extra.len()
        invariant
            i <= m.extra@.len(),
            out@ == before_fields + fields_json(extra_view(m.extra@).take(i as int)),
        decreases m.extra@.len() - i,
    {
        let sep: [u8; 5] = [44, 10, 32, 32, 34];
        push_bytes(&mut out, sep.as_slice());
        push_bytes(&mut out, m.extra[i].key.as_slice());
        let colon: [u8; 3] = [34, 58, 32];
        push_bytes(&mut out, colon.as_slice());
        push_bytes(&mut out, m.extra[i].value.as_slice());
        proof {
            let fs = extra_view(m.extra@);
            assert(fs.take(i + 1).drop_last() =~= fs.take(i as int));
            assert(fs.take(i + 1).last() == fs[i as int]);
            assert(out@ =~= before_fields + (fields_json(fs.take(i as int)) + field_json(
                fs[i as int].0,
                fs[i as int].1,
            )));
            assert(out@ =~= before_fields + fields_json(fs.take(i + 1)));
        }
        i = i + 1;
    }
    out.push(10);
    out.push(125);
    proof {
        assert(extra_view(m.extra@).take(m.extra@.len() as int) =~= extra_view(m.extra@));
        assert(out@ =~= manifest_json(*m));
    }
    out
}

} // verus!
