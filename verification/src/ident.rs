//! Identity assignment: a fresh 128-bit random identifier for each migrated
//! artifact, and a display name derived from the original name and a
//! timestamp in a fixed, locale-independent format.

use vstd::prelude::*;
use vstd::string::StringExecFns;

verus! {

/// A wall-clock instant broken into plain calendar fields.
#[derive(Clone, Copy, Debug, PartialEq, Eq, Structural)]
pub struct Timestamp {
    pub year: u32,
    pub month: u32,
    pub day: u32,
    pub hour: u32,
    pub minute: u32,
    pub second: u32,
}

impl Timestamp {
    /// Every field fits the fixed-width decimal rendering below.
    pub open spec fn valid(self) -> bool {
        &&& self.year <= 9999
        &&& 1 <= self.month <= 12
        &&& 1 <= self.day <= 31
        &&& self.hour < 24
        &&& self.minute < 60
        &&& self.second < 60
    }
}

/// The decimal digit character for `d` in `0..10`.
pub open spec fn digit(d: int) -> char {
    ((48 + d) as u8) as char
}

pub open spec fn two_digits(v: int) -> Seq<char> {
    seq![digit(v / 10), digit(v % 10)]
}

pub open spec fn four_digits(v: int) -> Seq<char> {
    seq![digit(v / 1000), digit((v / 100) % 10), digit((v / 10) % 10), digit(v % 10)]
}

/// `YYYY-MM-DD HH:MM:SS`, zero padded.
pub open spec fn spec_format_timestamp(t: Timestamp) -> Seq<char> {
    four_digits(t.year as int) + seq!['-'] + two_digits(t.month as int) + seq!['-'] + two_digits(
        t.day as int,
    ) + seq![' '] + two_digits(t.hour as int) + seq![':'] + two_digits(t.minute as int)
        + seq![':'] + two_digits(t.second as int)
}

/// The infix that separates the original display name from the timestamp.
pub open spec fn derived_name_infix() -> Seq<char> {
    seq!['_', 'm', 'i', 'g', 'r', 'a', 't', 'e', 'd', '_', 'a', 't', '_']
}

/// The display name of a migrated copy: the original name, a fixed infix,
/// and the formatted timestamp.
pub open spec fn spec_derive_name(original: Seq<char>, t: Timestamp) -> Seq<char> {
    original + derived_name_infix() + spec_format_timestamp(t)
}

fn push_digit(out: &mut String, d: u32)
    requires
        d < 10,
    ensures
        final(out)@ == old(out)@ + seq![digit(d as int)],
{
    if d == 0 {
        out.append("0");
        proof { reveal_strlit("0"); assert(out@ =~= old(out)@ + seq![digit(d as int)]); }
    } else if d == 1 {
        out.append("1");
        proof { reveal_strlit("1"); assert(out@ =~= old(out)@ + seq![digit(d as int)]); }
    } else if d == 2 {
        out.append("2");
        proof { reveal_strlit("2"); assert(out@ =~= old(out)@ + seq![digit(d as int)]); }
    } else if d == 3 {
        out.append("3");
        proof { reveal_strlit("3"); assert(out@ =~= old(out)@ + seq![digit(d as int)]); }
    } else if d == 4 {
        out.append("4");
        proof { reveal_strlit("4"); assert(out@ =~= old(out)@ + seq![digit(d as int)]); }
    } else if d == 5 {
        out.append("5");
        proof { reveal_strlit("5"); assert(out@ =~= old(out)@ + seq![digit(d as int)]); }
    } else if d == 6 {
        out.append("6");
        proof { reveal_strlit("6"); assert(out@ =~= old(out)@ + seq![digit(d as int)]); }
    } else if d == 7 {
        out.append("7");
        proof { reveal_strlit("7"); assert(out@ =~= old(out)@ + seq![digit(d as int)]); }
    } else if d == 8 {
        out.append("8");
        proof { reveal_strlit("8"); assert(out@ =~= old(out)@ + seq![digit(d as int)]); }
    } else {
        out.append("9");
        proof { reveal_strlit("9"); assert(out@ =~= old(out)@ + seq![digit(d as int)]); }
    }
}

fn push_two_digits(out: &mut String, v: u32)
    requires
        v < 100,
    ensures
        final(out)@ == old(out)@ + two_digits(v as int),
{
    push_digit(out, v / 10);
    push_digit(out, v % 10);
    proof { assert(out@ =~= old(out)@ + two_digits(v as int)); }
}

fn push_four_digits(out: &mut String, v: u32)
    requires
        v < 10000,
    ensures
        final(out)@ == old(out)@ + four_digits(v as int),
{
    push_digit(out, v / 1000);
    push_digit(out, (v / 100) % 10);
    push_digit(out, (v / 10) % 10);
    push_digit(out, v % 10);
    proof { assert(out@ =~= old(out)@ + four_digits(v as int)); }
}

/// Renders `t` as `YYYY-MM-DD HH:MM:SS`.
pub fn format_timestamp(t: Timestamp) -> (r: String)
    requires
        t.valid(),
    ensures
        r@ == spec_format_timestamp(t),
{
    let mut out = String::new();
    push_four_digits(&mut out, t.year);
    out.append("-");
    push_two_digits(&mut out, t.month);
    out.append("-");
    push_two_digits(&mut out, t.day);
    out.append(" ");
    push_two_digits(&mut out, t.hour);
    out.append(":");
    push_two_digits(&mut out, t.minute);
    out.append(":");
    push_two_digits(&mut out, t.second);
    proof {
        reveal_strlit("-");
        reveal_strlit(" ");
        reveal_strlit(":");
        assert("-"@ =~= seq!['-']);
        assert(" "@ =~= seq![' ']);
        assert(":"@ =~= seq![':']);
        assert(out@ =~= spec_format_timestamp(t));
    }
    out
}

/// Derives the display name of a migrated copy.  Deterministic in both
/// arguments; the result always starts with `original` followed by the
/// fixed infix.
pub fn derive_name(original: &str, t: Timestamp) -> (r: String)
    requires
        t.valid(),
    ensures
        r@ == spec_derive_name(original@, t),
{
    let mut out = String::from_str(original);
    out.append("_migrated_at_");
    let ts = format_timestamp(t);
    out.append(ts.as_str());
    proof {
        reveal_strlit("_migrated_at_");
        assert("_migrated_at_"@ =~= derived_name_infix());
        assert(out@ =~= spec_derive_name(original@, t));
    }
    out
}

/// Relies on `uuid::Uuid::new_v4` and `Display` for `Uuid`: a version-4
/// random identifier rendered in the hyphenated form, which is always 36
/// characters.  The value is random; nothing more is promised of it.
#[verifier::external_body]
fn random_identity_text() -> (r: String)
    ensures
        r@.len() == 36,
{
    uuid::Uuid::new_v4().to_string()
}

/// Draws a fresh identity from a 128-bit random identifier space, rendered
/// in the canonical 36-character hyphenated form.
pub fn new_identity() -> (r: String)
    ensures
        r@.len() == 36,
{
    random_identity_text()
}

/// Relies on `chrono::Local::now` with the `Datelike` and `Timelike`
/// accessors: one read of the wall clock, handed out as raw calendar
/// fields.  `month`, `day`, `hour`, `minute` and `second` are in the
/// documented ranges; the year is whatever the clock says.
#[verifier::external_body]
fn clock_fields() -> (r: (i32, u32, u32, u32, u32, u32))
    ensures
        1 <= r.1 <= 12,
        1 <= r.2 <= 31,
        r.3 < 24,
        r.4 < 60,
        r.5 < 60,
{
    let now = chrono::Local::now();
    (
        chrono::Datelike::year(&now),
        chrono::Datelike::month(&now),
        chrono::Datelike::day(&now),
        chrono::Timelike::hour(&now),
        chrono::Timelike::minute(&now),
        chrono::Timelike::second(&now),
    )
}

/// The current wall-clock time as a valid `Timestamp`; a year outside the
/// renderable range 0..=9999 is clamped to its nearest bound.
pub fn now_timestamp() -> (r: Timestamp)
    ensures
        r.valid(),
{
    let (y, mo, d, h, mi, s) = clock_fields();
    let year: u32 = if y < 0 {
        0
    } else if y > 9999 {
        9999
    } else {
        y as u32
    };
    Timestamp { year, month: mo, day: d, hour: h, minute: mi, second: s }
}

/// The derived name is determined by its two arguments alone, always starts
/// with the original name followed by the fixed infix, and two derivations
/// from the same name agree exactly when their timestamps agree.
pub proof fn lemma_derive_name(original: Seq<char>, t1: Timestamp, t2: Timestamp)
    requires
        t1.valid(),
        t2.valid(),
    ensures
        spec_derive_name(original, t1).len() == original.len() + 32,
        spec_derive_name(original, t1).subrange(0, original.len() as int) == original,
        spec_derive_name(original, t1).subrange(
            original.len() as int,
            original.len() as int + 13,
        ) == derived_name_infix(),
        (spec_derive_name(original, t1) == spec_derive_name(original, t2)) <==> t1 == t2,
{
    assert(spec_derive_name(original, t1).subrange(0, original.len() as int) =~= original);
    assert(spec_derive_name(original, t1).subrange(original.len() as int, original.len() as int + 13)
        =~= derived_name_infix());
    if spec_derive_name(original, t1) == spec_derive_name(original, t2) {
        let s1 = spec_format_timestamp(t1);
        let s2 = spec_format_timestamp(t2);
        assert forall|i: int| 0 <= i < 19 implies s1[i] == s2[i] by {
            assert(s1[i] == spec_derive_name(original, t1)[original.len() + 13 + i]);
            assert(s2[i] == spec_derive_name(original, t2)[original.len() + 13 + i]);
        }
        lemma_format_injective(t1, t2);
    }
}

proof fn lemma_digit_injective(a: int, b: int)
    requires
        0 <= a < 10,
        0 <= b < 10,
        digit(a) == digit(b),
    ensures
        a == b,
{
}

proof fn lemma_format_injective(t1: Timestamp, t2: Timestamp)
    requires
        t1.valid(),
        t2.valid(),
        forall|i: int| 0 <= i < 19 ==> spec_format_timestamp(t1)[i] == spec_format_timestamp(t2)[i],
    ensures
        t1 == t2,
{
    let s1 = spec_format_timestamp(t1);
    let s2 = spec_format_timestamp(t2);
    assert(s1[0] == digit(t1.year as int / 1000) && s2[0] == digit(t2.year as int / 1000));
    assert(s1[1] == digit((t1.year as int / 100) % 10));
    assert(s1[2] == digit((t1.year as int / 10) % 10));
    assert(s1[3] == digit(t1.year as int % 10));
    lemma_digit_injective(t1.year as int / 1000, t2.year as int / 1000);
    lemma_digit_injective((t1.year as int / 100) % 10, (t2.year as int / 100) % 10);
    lemma_digit_injective((t1.year as int / 10) % 10, (t2.year as int / 10) % 10);
    lemma_digit_injective(t1.year as int % 10, t2.year as int % 10);
    assert(t1.year == t2.year);
    assert(s1[5] == digit(t1.month as int / 10) && s1[6] == digit(t1.month as int % 10));
    lemma_digit_injective(t1.month as int / 10, t2.month as int / 10);
    lemma_digit_injective(t1.month as int % 10, t2.month as int % 10);
    assert(t1.month == t2.month);
    assert(s1[8] == digit(t1.day as int / 10) && s1[9] == digit(t1.day as int % 10));
    lemma_digit_injective(t1.day as int / 10, t2.day as int / 10);
    lemma_digit_injective(t1.day as int % 10, t2.day as int % 10);
    assert(t1.day == t2.day);
    assert(s1[11] == digit(t1.hour as int / 10) && s1[12] == digit(t1.hour as int % 10));
    lemma_digit_injective(t1.hour as int / 10, t2.hour as int / 10);
    lemma_digit_injective(t1.hour as int % 10, t2.hour as int % 10);
    assert(t1.hour == t2.hour);
    assert(s1[14] == digit(t1.minute as int / 10) && s1[15] == digit(t1.minute as int % 10));
    lemma_digit_injective(t1.minute as int / 10, t2.minute as int / 10);
    lemma_digit_injective(t1.minute as int % 10, t2.minute as int % 10);
    assert(t1.minute == t2.minute);
    assert(s1[17] == digit(t1.second as int / 10) && s1[18] == digit(t1.second as int % 10));
    lemma_digit_injective(t1.second as int / 10, t2.second as int / 10);
    lemma_digit_injective(t1.second as int % 10, t2.second as int % 10);
    assert(t1.second == t2.second);
}

} // verus!
