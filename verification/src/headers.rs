//! The browser-identity headers sent with every request: the platform,
//! mobile and brand hints are classified from the user-agent string so the
//! emulated identity stays self-consistent. The HTTP layer outside this
//! crate turns these values into actual headers.

use vstd::prelude::*;
use vstd::string::StrSliceExecFns;
use vstd::string::StringExecFns;
use crate::strings::contains_seq;
use crate::strings::contains_sub;
use crate::strings::spec_split;
use crate::strings::spec_starts_with;
use crate::strings::split_char;
use crate::strings::starts_with;
use crate::strings::str_eq;
use crate::strings::views;

verus! {

/// The `sec-ch-ua-platform` value a user agent implies.
pub open spec fn spec_ua_platform(ua: Seq<char>) -> Seq<char> {
    if contains_seq(ua, "Windows"@) || contains_seq(ua, "Win64"@) {
        "\"Windows\""@
    } else if contains_seq(ua, "Macintosh"@) || contains_seq(ua, "Mac OS X"@) {
        "\"macOS\""@
    } else if contains_seq(ua, "Linux"@) || contains_seq(ua, "X11"@) {
        "\"Linux\""@
    } else {
        "\"Unknown\""@
    }
}

/// Classify the user agent's operating system for the platform hint.
pub fn ua_platform(ua: &str) -> (r: &'static str)
    ensures
        r@ == spec_ua_platform(ua@),
{
    if contains_sub(ua, "Windows") || contains_sub(ua, "Win64") {
        "\"Windows\""
    } else if contains_sub(ua, "Macintosh") || contains_sub(ua, "Mac OS X") {
        "\"macOS\""
    } else if contains_sub(ua, "Linux") || contains_sub(ua, "X11") {
        "\"Linux\""
    } else {
        "\"Unknown\""
    }
}

/// The `sec-ch-ua-mobile` value a user agent implies.
pub open spec fn spec_ua_mobile(ua: Seq<char>) -> Seq<char> {
    if contains_seq(ua, "Mobile"@) {
        "?1"@
    } else {
        "?0"@
    }
}

/// Classify the user agent as mobile or desktop for the mobile hint.
pub fn ua_mobile(ua: &str) -> (r: &'static str)
    ensures
        r@ == spec_ua_mobile(ua@),
{
    if contains_sub(ua, "Mobile") {
        "?1"
    } else {
        "?0"
    }
}

/// The browser label a user agent implies, in the order the platform's
/// token patterns are tried.
pub open spec fn spec_ua_browser(ua: Seq<char>) -> Seq<char> {
    if contains_seq(ua, "Edg/"@) {
        "Edg"@
    } else if contains_seq(ua, "Chrome/"@) {
        "Chromium"@
    } else if contains_seq(ua, "Firefox/"@) {
        "Firefox"@
    } else if contains_seq(ua, "Safari/"@) && !contains_seq(ua, "Chrome/"@) {
        "Safari"@
    } else {
        "Unknown"@
    }
}

/// Classify the user agent's browser family.
pub fn ua_browser(ua: &str) -> (r: &'static str)
    ensures
        r@ == spec_ua_browser(ua@),
{
    if contains_sub(ua, "Edg/") {
        "Edg"
    } else if contains_sub(ua, "Chrome/") {
        "Chromium"
    } else if contains_sub(ua, "Firefox/") {
        "Firefox"
    } else if contains_sub(ua, "Safari/") && !contains_sub(ua, "Chrome/") {
        "Safari"
    } else {
        "Unknown"
    }
}

/// The first space-separated token of `ua` that begins with `label`, or the
/// fallback token when none does.
pub open spec fn spec_browser_token(ua: Seq<char>, label: Seq<char>) -> Seq<char> {
    let toks = spec_split(ua, ' ');
    if exists|i: int| 0 <= i < toks.len() && spec_starts_with(#[trigger] toks[i], label) {
        toks[choose|i: int|
            0 <= i < toks.len() && spec_starts_with(#[trigger] toks[i], label) && forall|j: int|
                0 <= j < i ==> !spec_starts_with(#[trigger] toks[j], label)]
    } else {
        "Unknown/12"@
    }
}

/// The major version the browser token carries: the piece between the
/// token's first two slashes, cut at its first dot; `12` when the token
/// has no slash.
pub open spec fn spec_token_major_version(tok: Seq<char>) -> Seq<char> {
    let slash_parts = spec_split(tok, '/');
    let vpart = if slash_parts.len() >= 2 {
        slash_parts[1]
    } else {
        "12"@
    };
    spec_split(vpart, '.')[0]
}

/// The major browser version a user agent advertises for its browser label.
pub open spec fn spec_ua_version(ua: Seq<char>) -> Seq<char> {
    spec_token_major_version(spec_browser_token(ua, spec_ua_browser(ua)))
}

/// Find the first token of `ua` beginning with `label`, with the fallback.
fn browser_token(ua: &str, label: &str) -> (r: String)
    ensures
        r@ == spec_browser_token(ua@, label@),
{
    let toks = split_char(ua, ' ');
    let mut i: usize = 0;
    while i < toks.len()
        invariant
            i <= toks@.len(),
            views(toks@) == spec_split(ua@, ' '),
            forall|j: int| 0 <= j < i ==> !spec_starts_with(#[trigger] views(toks@)[j], label@),
        decreases toks@.len() - i,
    {
        if starts_with(toks[i].as_str(), label) {
            proof {
                let ts = spec_split(ua@, ' ');
                let w = choose|w: int|
                    0 <= w < ts.len() && spec_starts_with(#[trigger] ts[w], label@) && forall|
                        j: int,
                    | 0 <= j < w ==> !spec_starts_with(#[trigger] ts[j], label@);
                assert(spec_starts_with(ts[i as int], label@));
                if w < i {
                    assert(!spec_starts_with(ts[w], label@));
                }
                if i < w {
                    assert(!spec_starts_with(ts[i as int], label@));
                }
            }
            return toks[i].clone();
        }
        i += 1;
    }
    proof {
        let ts = spec_split(ua@, ' ');
        assert forall|w: int| 0 <= w < ts.len() implies !spec_starts_with(
            #[trigger] ts[w],
            label@,
        ) by {
            assert(views(toks@)[w] == ts[w]);
        }
    }
    crate::strings::to_owned_str("Unknown/12")
}

/// Extract the major version from a browser token.
fn token_major_version(tok: &str) -> (r: String)
    ensures
        r@ == spec_token_major_version(tok@),
{
    let slash_parts = split_char(tok, '/');
    let vpart = if slash_parts.len() >= 2 {
        slash_parts[1].as_str()
    } else {
        "12"
    };
    proof {
        if spec_split(tok@, '/').len() >= 2 {
            assert(vpart@ == spec_split(tok@, '/')[1]);
        }
    }
    let dot_parts = split_char(vpart, '.');
    proof {
        assert(views(dot_parts@)[0] == spec_split(vpart@, '.')[0]);
    }
    dot_parts[0].clone()
}

/// The major browser version advertised by the user agent.
pub fn ua_version(ua: &str) -> (r: String)
    ensures
        r@ == spec_ua_version(ua@),
{
    let label = ua_browser(ua);
    let tok = browser_token(ua, label);
    token_major_version(tok.as_str())
}

/// The full `sec-ch-ua` brand list: the Chromium brand with the detected
/// version, the recognised brand's own entry, and the not-a-brand filler.
pub open spec fn spec_sec_ch_ua(label: Seq<char>, version: Seq<char>) -> Seq<char> {
    let own = if label == "Edg"@ {
        "\"Microsoft Edge\";v=\""@ + version + "\""@
    } else if label == "Chromium"@ {
        "\"Google Chrome\";v=\""@ + version + "\""@
    } else if label == "Firefox"@ {
        "\"Firefox\";v=\""@ + version + "\""@
    } else if label == "Safari"@ {
        "\"Safari\";v=\""@ + version + "\""@
    } else {
        "\""@ + label + "\";v=\""@ + version + "\""@
    };
    "\"Chromium\";v=\""@ + version + "\","@ + own + ", \"Not_A Brand\";v=\"99\""@
}

/// Build the `sec-ch-ua` value for a browser label and version.
pub fn sec_ch_ua(label: &str, version: &str) -> (r: String)
    ensures
        r@ == spec_sec_ch_ua(label@, version@),
{
    let mut s = String::from_str("\"Chromium\";v=\"");
    s.append(version);
    s.append("\",");
    if str_eq(label, "Edg") {
        s.append("\"Microsoft Edge\";v=\"");
        s.append(version);
        s.append("\"");
    } else if str_eq(label, "Chromium") {
        s.append("\"Google Chrome\";v=\"");
        s.append(version);
        s.append("\"");
    } else if str_eq(label, "Firefox") {
        s.append("\"Firefox\";v=\"");
        s.append(version);
        s.append("\"");
    } else if str_eq(label, "Safari") {
        s.append("\"Safari\";v=\"");
        s.append(version);
        s.append("\"");
    } else {
        s.append("\"");
        s.append(label);
        s.append("\";v=\"");
        s.append(version);
        s.append("\"");
    }
    s.append(", \"Not_A Brand\";v=\"99\"");
    s
}

/// The browser-hint header values derived from one user-agent string.
pub struct UserHeaderValues {
    /// The `sec-ch-ua-platform` value.
    pub platform: &'static str,
    /// The `sec-ch-ua-mobile` value.
    pub mobile: &'static str,
    /// The `sec-ch-ua` brand list.
    pub brands: String,
}

/// Derive every browser-hint header value from the user agent, so that the
/// emulated identity is self-consistent.
pub fn generate_user_headers(user_agent: &str) -> (r: UserHeaderValues)
    ensures
        r.platform@ == spec_ua_platform(user_agent@),
        r.mobile@ == spec_ua_mobile(user_agent@),
        r.brands@ == spec_sec_ch_ua(spec_ua_browser(user_agent@), spec_ua_version(user_agent@)),
{
    let platform = ua_platform(user_agent);
    let mobile = ua_mobile(user_agent);
    let label = ua_browser(user_agent);
    let version = ua_version(user_agent);
    let brands = sec_ch_ua(label, version.as_str());
    UserHeaderValues { platform, mobile, brands }
}

} // verus!
