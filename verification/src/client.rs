//! The remote account's client-side vocabulary: descriptors and slot
//! records as the remote hands them out, the fixed authentication headers,
//! the login outcome decision, and the fixed manifest-to-registration field
//! mapping.

use vstd::prelude::*;
use vstd::string::StringExecFns;
use crate::manifest::{Manifest, extra_view};
use crate::mjson::{find_key_at, decode_str_frag, bytes_to_string};
use crate::scan::{skip_ws_at, raw_end_at, lemma_raw_end_at, skip_ws, raw_end};

verus! {

/// A remote package listed under an account.
#[derive(Clone, Debug)]
pub struct CloudFlow {
    pub app_id: String,
    pub app_name: String,
    pub update_time: Option<String>,
}

/// The detail record of a remote package; any of the three archive
/// locations may be absent.
#[derive(Clone, Debug)]
pub struct AppDetail {
    pub app_id: String,
    pub bot_read_url: Option<String>,
    pub package_bot_url: Option<String>,
    pub package_schema_url: Option<String>,
}

/// An upload slot issued by the remote: single use, one artifact.
#[derive(Clone, Debug)]
pub struct UploadInfo {
    pub upload_url: String,
    pub file_key: String,
    pub read_url: String,
    pub file_key_md5: String,
}

/// The archive location of a detail record: the first of its three URL
/// fields that is present, in fixed preference order.
pub open spec fn spec_download_url(d: AppDetail) -> Option<String> {
    if d.bot_read_url is Some {
        d.bot_read_url
    } else if d.package_bot_url is Some {
        d.package_bot_url
    } else {
        d.package_schema_url
    }
}

/// Picks the archive location of a detail record.
pub fn choose_download_url(d: &AppDetail) -> (r: Option<String>)
    ensures
        r == spec_download_url(*d),
{
    match &d.bot_read_url {
        Some(u) => Some(u.clone()),
        None => match &d.package_bot_url {
            Some(u) => Some(u.clone()),
            None => match &d.package_schema_url {
                Some(u) => Some(u.clone()),
                None => None,
            },
        },
    }
}

/// The fixed request headers of every authenticated remote call, with the
/// bearer token filled in.
pub fn get_auth_headers(token: &str) -> (r: Vec<(&'static str, String)>)
    ensures
        r@.len() == 6,
        r@[0].0@ == "Connection"@ && r@[0].1@ == "Keep-Alive"@,
        r@[1].0@ == "Content-Type"@ && r@[1].1@ == "application/json; charset=utf-8"@,
        r@[2].0@ == "Accept"@ && r@[2].1@ == "*/*"@,
        r@[3].0@ == "Accept-Language"@ && r@[3].1@ == "zh-cn"@,
        r@[4].0@ == "Authorization"@ && r@[4].1@ == "bearer "@ + token@,
        r@[5].0@ == "User-Agent"@ && r@[5].1@ == "Mozilla/4.0 (compatible; MSIE 9.0; Windows NT 6.1)"@,
{
    let mut auth = String::from_str("bearer ");
    auth.append(token);
    let mut out: Vec<(&'static str, String)> = Vec::new();
    out.push(("Connection", String::from_str("Keep-Alive")));
    out.push(("Content-Type", String::from_str("application/json; charset=utf-8")));
    out.push(("Accept", String::from_str("*/*")));
    out.push(("Accept-Language", String::from_str("zh-cn")));
    out.push(("Authorization", auth));
    out.push(("User-Agent", String::from_str("Mozilla/4.0 (compatible; MSIE 9.0; Windows NT 6.1)")));
    out
}

/// A login response as the authentication endpoint shapes it.
#[derive(Clone, Debug)]
pub struct LoginResponse {
    pub success: Option<bool>,
    pub access_token: Option<String>,
    pub msg: Option<String>,
}

/// What a login response decides: the token exactly when the response
/// reports success and carries one; otherwise the response's own message,
/// or the fixed fallback when it has none.
pub fn login_outcome(resp: LoginResponse) -> (r: Result<String, String>)
    ensures
        match r {
            Ok(t) => resp.success == Some(true) && resp.access_token == Some(t),
            Err(m) => (resp.success != Some(true) || resp.access_token is None) && (match resp.msg {
                Some(s) => m == s,
                None => m@ == "登录失败"@,
            }),
        },
{
    if let Some(true) = resp.success {
        if let Some(t) = resp.access_token {
            return Ok(t);
        }
    }
    match resp.msg {
        Some(s) => Err(s),
        None => Err(String::from_str("登录失败")),
    }
}

/// The first position where one JSON document ends and a second begins:
/// the index of the `}` of the first `}{` pair, if any.
pub open spec fn doc_break_at(s: Seq<u8>, i: int) -> Option<int>
    decreases s.len() - i,
{
    if i + 1 >= s.len() {
        None
    } else if s[i] == 125 && s[i + 1] == 123 {
        Some(i)
    } else {
        doc_break_at(s, i + 1)
    }
}

/// The first JSON document of a response that may hold two concatenated
/// ones: everything up to and including the `}` that the first `}{` pair
/// starts with, or the whole text when there is no such pair.
pub fn first_json_document(text: &Vec<u8>) -> (r: Vec<u8>)
    ensures
        match doc_break_at(text@, 0) {
            Some(i) => r@ == text@.take(i + 1),
            None => r@ == text@,
        },
{
    let n = text.len();
    let mut i: usize = 0;
    while n > 0 && i < n - 1
        invariant
            n == text@.len(),
            i <= n,
            doc_break_at(text@, 0) == doc_break_at(text@, i as int),
        decreases text@.len() - i,
    {
        if text[i] == 125 && text[i + 1] == 123 {
            return crate::scan::copy_range(text, 0, i + 1);
        }
        i = i + 1;
    }
    proof {
        assert(text@.take(text@.len() as int) =~= text@);
    }
    crate::scan::copy_range(text, 0, text.len())
}

/// Whether the remote's answer to a registration-style call counts as
/// acceptance: an explicit success, or the fixed success code.
pub fn registration_accepted(success: Option<bool>, code: Option<u32>) -> (r: bool)
    ensures
        r == (success == Some(true) || code == Some(200u32)),
{
    match success {
        Some(true) => true,
        _ => match code {
            Some(c) => c == 200,
            None => false,
        },
    }
}

/// The number of elements of a raw fragment that is a JSON array, counted
/// at bracket depth one, or `None` when the fragment is not an array.
pub open spec fn spec_array_len(raw: Seq<u8>) -> Option<int> {
    let o = skip_ws_at(raw, 0);
    if o >= raw.len() || raw[o] != 91 {
        None
    } else {
        let p = skip_ws_at(raw, o + 1);
        if p < raw.len() && raw[p] == 93 {
            Some(0)
        } else {
            spec_count_items(raw, o + 1, 0)
        }
    }
}

/// Counts the comma-separated raw values from position `i` up to the
/// closing bracket.
pub open spec fn spec_count_items(raw: Seq<u8>, i: int, acc: int) -> Option<int>
    decreases raw.len() - i,
        when 0 <= i <= raw.len()
{
    match raw_end_at(raw, i, 0, false, false) {
        None => None,
        Some(j) => {
            if raw[j] == 44 {
                proof {
                    lemma_raw_end_at(raw, i, 0, false, false);
                }
                spec_count_items(raw, j + 1, acc + 1)
            } else if raw[j] == 93 {
                Some(acc + 1)
            } else {
                None
            }
        },
    }
}

/// Counts the elements of an array fragment; see [`spec_array_len`].
pub fn array_len(raw: &Vec<u8>) -> (r: Option<usize>)
    ensures
        match r {
            Some(n) => spec_array_len(raw@) == Some(n as int),
            None => spec_array_len(raw@) is None,
        },
{
    let o = skip_ws(raw, 0);
    if o >= raw.len() || raw[o] != 91 {
        return None;
    }
    let p = skip_ws(raw, o + 1);
    if p < raw.len() && raw[p] == 93 {
        return Some(0);
    }
    let mut i = o + 1;
    let mut acc: usize = 0;
    loop
        invariant
            o < raw@.len(),
            spec_array_len(raw@) == spec_count_items(raw@, o + 1, 0),
            i <= raw@.len(),
            acc <= i,
            spec_count_items(raw@, o + 1, 0) == spec_count_items(raw@, i as int, acc as int),
        decreases raw@.len() - i,
    {
        let j = match raw_end(raw, i) {
            None => {
                return None;
            },
            Some(j) => j,
        };
        let nlen = raw.len();
        proof {
            assert(j < nlen);
        }
        if raw[j] == 44 {
            i = j + 1;
            acc = acc + 1;
        } else if raw[j] == 93 {
            return Some(acc + 1);
        } else {
            return None;
        }
    }
}

/// The registration payload's manifest-derived fields, with the fixed
/// defaults substituted for keys the manifest lacks: decoded strings where
/// the remote expects text, raw fragments where it expects structured
/// values (`None` standing for the remote's fixed default), and the flow
/// count read from the `flows` array.
#[derive(Clone, Debug)]
pub struct RegistrationRecord {
    pub app_icon: String,
    pub app_type: String,
    pub custom_items: Option<Vec<u8>>,
    pub description: String,
    pub external_dependencies: Option<Vec<u8>>,
    pub instruction: String,
    pub internal_dependencies: Option<Vec<u8>>,
    pub internal_auto_dependencies: Option<Vec<u8>>,
    pub ipaas_dependencies: Option<Vec<u8>>,
    pub name: String,
    pub ui_type: String,
    pub video_url: String,
    pub flow_count: usize,
}

/// The decoded text of the manifest key `key`, when it is present and a
/// well-formed UTF-8 string fragment.
pub open spec fn spec_text_field(m: Manifest, key: Seq<u8>) -> Option<Seq<char>> {
    match find_key_at(extra_view(m.extra@), key, 0) {
        None => None,
        Some(i) => match decode_str_frag(extra_view(m.extra@)[i].1) {
            None => None,
            Some(b) => if vstd::utf8::valid_utf8(b) {
                Some(vstd::utf8::decode_utf8(b))
            } else {
                None
            },
        },
    }
}

/// The raw fragment of the manifest key `key`, when present.
pub open spec fn spec_raw_field(m: Manifest, key: Seq<u8>) -> Option<Seq<u8>> {
    match find_key_at(extra_view(m.extra@), key, 0) {
        None => None,
        Some(i) => Some(extra_view(m.extra@)[i].1),
    }
}

/// Reads a manifest key as decoded text.
fn text_field(m: &Manifest, key: &[u8]) -> (r: Option<String>)
    ensures
        match r {
            Some(s) => spec_text_field(*m, key@) == Some(s@),
            None => spec_text_field(*m, key@) is None,
        },
{
    let i = match crate::mjson::find_field(&m.extra, key) {
        None => {
            return None;
        },
        Some(i) => i,
    };
    proof {
        crate::mjson::lemma_find_key_at(extra_view(m.extra@), key@, 0);
    }
    let b = match crate::mjson::decode_string_fragment(&m.extra[i].value) {
        None => {
            return None;
        },
        Some(b) => b,
    };
    bytes_to_string(b)
}

/// Reads a manifest key as a raw fragment copy.
fn raw_field(m: &Manifest, key: &[u8]) -> (r: Option<Vec<u8>>)
    ensures
        match r {
            Some(v) => spec_raw_field(*m, key@) == Some(v@),
            None => spec_raw_field(*m, key@) is None,
        },
{
    let i = match crate::mjson::find_field(&m.extra, key) {
        None => {
            return None;
        },
        Some(i) => i,
    };
    proof {
        crate::mjson::lemma_find_key_at(extra_view(m.extra@), key@, 0);
    }
    Some(crate::scan::copy_range(&m.extra[i].value, 0, m.extra[i].value.len()))
}

/// Builds the registration payload's fields from a manifest: the fixed,
/// hard-coded mapping from manifest keys to remote field names, with the
/// documented defaults substituted for any key the manifest lacks or that
/// cannot be read in the expected shape.
pub fn registration_record(m: &Manifest) -> (r: RegistrationRecord)
    ensures
        (match spec_text_field(*m, seq![105u8, 99, 111, 110]) {
            Some(t) => r.app_icon@ == t,
            None => r.app_icon@ == Seq::<char>::empty(),
        }),
        (match spec_text_field(*m, seq![114u8, 111, 98, 111, 116, 95, 116, 121, 112, 101]) {
            Some(t) => r.app_type@ == t,
            None => r.app_type@ == "app"@,
        }),
        (match spec_raw_field(*m, seq![99u8, 117, 115, 116, 111, 109, 73, 116, 101, 109, 115]) {
            Some(v) => r.custom_items matches Some(c) && c@ == v,
            None => r.custom_items is None,
        }),
        (match spec_text_field(
            *m,
            seq![100u8, 101, 115, 99, 114, 105, 112, 116, 105, 111, 110],
        ) {
            Some(t) => r.description@ == t,
            None => r.description@ == Seq::<char>::empty(),
        }),
        (match spec_raw_field(
            *m,
            seq![
                101u8, 120, 116, 101, 114, 110, 97, 108, 95, 100, 101, 112, 101, 110, 100, 101,
                110, 99, 105, 101, 115,
            ],
        ) {
            Some(v) => r.external_dependencies matches Some(c) && c@ == v,
            None => r.external_dependencies is None,
        }),
        (match spec_text_field(
            *m,
            seq![105u8, 110, 115, 116, 114, 117, 99, 116, 105, 111, 110],
        ) {
            Some(t) => r.instruction@ == t,
            None => r.instruction@ == Seq::<char>::empty(),
        }),
        (match spec_raw_field(
            *m,
            seq![
                105u8, 110, 116, 101, 114, 110, 97, 108, 100, 101, 112, 101, 110, 100, 101, 110,
                99, 105, 101, 115,
            ],
        ) {
            Some(v) => r.internal_dependencies matches Some(c) && c@ == v,
            None => r.internal_dependencies is None,
        }),
        (match spec_raw_field(
            *m,
            seq![
                105u8, 110, 116, 101, 114, 110, 97, 108, 97, 117, 116, 111, 100, 101, 112, 101,
                110, 100, 101, 110, 99, 105, 101, 115,
            ],
        ) {
            Some(v) => r.internal_auto_dependencies matches Some(c) && c@ == v,
            None => r.internal_auto_dependencies is None,
        }),
        (match spec_raw_field(
            *m,
            seq![
                105u8, 112, 97, 97, 115, 68, 101, 112, 101, 110, 100, 101, 110, 99, 105, 101, 115,
            ],
        ) {
            Some(v) => r.ipaas_dependencies matches Some(c) && c@ == v,
            None => r.ipaas_dependencies is None,
        }),
        r.name == m.display_name,
        (match spec_text_field(*m, seq![117u8, 105, 97, 95, 116, 121, 112, 101]) {
            Some(t) => r.ui_type@ == t,
            None => r.ui_type@ == "PC"@,
        }),
        (match spec_text_field(*m, seq![118u8, 105, 100, 101, 111, 78, 97, 109, 101]) {
            Some(t) => r.video_url@ == t,
            None => r.video_url@ == Seq::<char>::empty(),
        }),
        (match spec_raw_field(*m, seq![102u8, 108, 111, 119, 115]) {
            Some(v) => (match spec_array_len(v) {
                Some(n) => r.flow_count == n,
                None => r.flow_count == 0,
            }),
            None => r.flow_count == 0,
        }),
{
    let k_icon: [u8; 4] = [105, 99, 111, 110];
    let k_rtype: [u8; 10] = [114, 111, 98, 111, 116, 95, 116, 121, 112, 101];
    let k_custom: [u8; 11] = [99, 117, 115, 116, 111, 109, 73, 116, 101, 109, 115];
    let k_descr: [u8; 11] = [100, 101, 115, 99, 114, 105, 112, 116, 105, 111, 110];
    let k_extdep: [u8; 21] = [101, 120, 116, 101, 114, 110, 97, 108, 95, 100, 101, 112, 101, 110,
        100, 101, 110, 99, 105, 101, 115];
    let k_instr: [u8; 11] = [105, 110, 115, 116, 114, 117, 99, 116, 105, 111, 110];
    let k_intdep: [u8; 20] = [105, 110, 116, 101, 114, 110, 97, 108, 100, 101, 112, 101, 110, 100,
        101, 110, 99, 105, 101, 115];
    let k_intauto: [u8; 24] = [105, 110, 116, 101, 114, 110, 97, 108, 97, 117, 116, 111, 100, 101,
        112, 101, 110, 100, 101, 110, 99, 105, 101, 115];
    let k_ipaas: [u8; 17] = [105, 112, 97, 97, 115, 68, 101, 112, 101, 110, 100, 101, 110, 99,
        105, 101, 115];
    let k_uia: [u8; 8] = [117, 105, 97, 95, 116, 121, 112, 101];
    let k_video: [u8; 9] = [118, 105, 100, 101, 111, 78, 97, 109, 101];
    let k_flows: [u8; 5] = [102, 108, 111, 119, 115];
    proof {
        assert(k_icon@ =~= seq![105u8, 99, 111, 110]);
        assert(k_rtype@ =~= seq![114u8, 111, 98, 111, 116, 95, 116, 121, 112, 101]);
        assert(k_custom@ =~= seq![99u8, 117, 115, 116, 111, 109, 73, 116, 101, 109, 115]);
        assert(k_descr@ =~= seq![100u8, 101, 115, 99, 114, 105, 112, 116, 105, 111, 110]);
        assert(k_extdep@ =~= seq![
            101u8, 120, 116, 101, 114, 110, 97, 108, 95, 100, 101, 112, 101, 110, 100, 101, 110,
            99, 105, 101, 115,
        ]);
        assert(k_instr@ =~= seq![105u8, 110, 115, 116, 114, 117, 99, 116, 105, 111, 110]);
        assert(k_intdep@ =~= seq![
            105u8, 110, 116, 101, 114, 110, 97, 108, 100, 101, 112, 101, 110, 100, 101, 110, 99,
            105, 101, 115,
        ]);
        assert(k_intauto@ =~= seq![
            105u8, 110, 116, 101, 114, 110, 97, 108, 97, 117, 116, 111, 100, 101, 112, 101, 110,
            100, 101, 110, 99, 105, 101, 115,
        ]);
        assert(k_ipaas@ =~= seq![
            105u8, 112, 97, 97, 115, 68, 101, 112, 101, 110, 100, 101, 110, 99, 105, 101, 115,
        ]);
        assert(k_uia@ =~= seq![117u8, 105, 97, 95, 116, 121, 112, 101]);
        assert(k_video@ =~= seq![118u8, 105, 100, 101, 111, 78, 97, 109, 101]);
        assert(k_flows@ =~= seq![102u8, 108, 111, 119, 115]);
    }
    let app_icon = match text_field(m, k_icon.as_slice()) {
        Some(s) => s,
        None => String::new(),
    };
    let app_type = match text_field(m, k_rtype.as_slice()) {
        Some(s) => s,
        None => String::from_str("app"),
    };
    let custom_items = raw_field(m, k_custom.as_slice());
    let description = match text_field(m, k_descr.as_slice()) {
        Some(s) => s,
        None => String::new(),
    };
    let external_dependencies = raw_field(m, k_extdep.as_slice());
    let instruction = match text_field(m, k_instr.as_slice()) {
        Some(s) => s,
        None => String::new(),
    };
    let internal_dependencies = raw_field(m, k_intdep.as_slice());
    let internal_auto_dependencies = raw_field(m, k_intauto.as_slice());
    let ipaas_dependencies = raw_field(m, k_ipaas.as_slice());
    let name = m.display_name.clone();
    let ui_type = match text_field(m, k_uia.as_slice()) {
        Some(s) => s,
        None => String::from_str("PC"),
    };
    let video_url = match text_field(m, k_video.as_slice()) {
        Some(s) => s,
        None => String::new(),
    };
    let flow_count = match raw_field(m, k_flows.as_slice()) {
        Some(v) => match array_len(&v) {
            Some(n) => n,
            None => 0,
        },
        None => 0,
    };
    RegistrationRecord {
        app_icon,
        app_type,
        custom_items,
        description,
        external_dependencies,
        instruction,
        internal_dependencies,
        internal_auto_dependencies,
        ipaas_dependencies,
        name,
        ui_type,
        video_url,
        flow_count,
    }
}

} // verus!
