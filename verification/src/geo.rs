//! Reverse-geolocation enrichment: building the lookup request and reading
//! its structured response.

use vstd::prelude::*;
use vstd::string::*;

use crate::candidate::{spec_without_port, spec_without_scheme};
use crate::candidate::{get_url_without_port, get_url_without_scheme};
use crate::strutil::substring_string;

verus! {

/// Why a location lookup yielded nothing.
#[derive(Clone, Copy, Debug, PartialEq, Eq, Structural)]
pub enum GetIpError {
    /// The lookup request failed in transport or answered a failure status.
    RequestError,
    /// The response was not a well-formed structured payload.
    ParsingError,
    /// The host handed in was empty.
    InvalidIp,
}

/// The text is one serde_json::from_str accepts as a JSON document.
pub uninterp spec fn json_wellformed(s: Seq<char>) -> bool;

/// For a text serde_json accepts, the document's member under `key`,
/// rendered as compact JSON text (`null` when absent); a function of the
/// text and the key alone.
pub uninterp spec fn json_member_rendered(s: Seq<char>, key: Seq<char>) -> Seq<char>;

/// Relies on serde_json::from_str for serde_json::Value, Value's Index<&str>
/// impl, and Value's Display impl through ToString: parsing succeeds exactly
/// on the texts `json_wellformed` names and depends on the text alone;
/// indexing yields the member under `key`, or Null when the value is not an
/// object or has no such member, and never panics for a string key; rendering
/// is compact JSON text (a string value keeps its quotes). The rendered
/// member is named by `json_member_rendered`.
#[verifier::external_body]
fn json_field_text(s: &str, key: &str) -> (r: Option<String>)
    ensures
        r is Some <==> json_wellformed(s@),
        r matches Some(t) ==> t@ == json_member_rendered(s@, key@),
{
    match serde_json::from_str::<serde_json::Value>(s) {
        Ok(v) => Some(v[key].to_string()),
        Err(_) => None,
    }
}

/// `s` with every leading and every trailing double quote removed.
pub open spec fn spec_trim_quotes(s: Seq<char>) -> Seq<char>
    decreases s.len(),
{
    if s.len() > 0 && s[0] == '"' {
        spec_trim_quotes(s.drop_first())
    } else if s.len() > 0 && s.last() == '"' {
        spec_trim_quotes(s.drop_last())
    } else {
        s
    }
}

proof fn lemma_trim_range(s: Seq<char>, lo: int, hi: int)
    requires
        0 <= lo <= hi <= s.len(),
        forall|j: int| 0 <= j < lo ==> s[j] == '"',
        forall|j: int| hi <= j < s.len() ==> s[j] == '"',
        lo < hi ==> s[lo] != '"',
        lo < hi ==> s[hi - 1] != '"',
    ensures
        spec_trim_quotes(s) == s.subrange(lo, hi),
    decreases s.len(),
{
    if s.len() == 0 {
        assert(s.subrange(0, 0) =~= s);
    } else if s[0] == '"' {
        let t = s.drop_first();
        if lo == 0 {
            // lo == hi == 0 here, else s[lo] != '"' would contradict s[0] == '"'
            lemma_trim_range(t, 0, 0);
            assert(s.subrange(0, 0) =~= t.subrange(0, 0));
        } else {
            lemma_trim_range(t, lo - 1, hi - 1);
            assert(s.subrange(lo, hi) =~= t.subrange(lo - 1, hi - 1));
        }
    } else if s.last() == '"' {
        let t = s.drop_last();
        lemma_trim_range(t, lo, hi);
        assert(s.subrange(lo, hi) =~= t.subrange(lo, hi));
    } else {
        assert(lo == 0 && hi == s.len());
        assert(s.subrange(0, s.len() as int) =~= s);
    }
}

/// Strip every leading and trailing double quote, as rendering a JSON string
/// field leaves them around the text.
pub fn trim_quotes(s: &str) -> (r: String)
    ensures
        r@ == spec_trim_quotes(s@),
{
    let l: usize = s.unicode_len();
    let mut lo: usize = 0;
    let mut hi: usize = l;
    while lo < hi && s.get_char(lo) == '"'
        invariant
            l == s@.len(),
            0 <= lo <= hi <= l,
            hi == l,
            forall|j: int| 0 <= j < lo ==> s@[j] == '"',
        decreases hi - lo,
    {
        lo += 1;
    }
    while hi > lo && s.get_char(hi - 1) == '"'
        invariant
            l == s@.len(),
            0 <= lo <= hi <= l,
            forall|j: int| 0 <= j < lo ==> s@[j] == '"',
            forall|j: int| hi <= j < l ==> s@[j] == '"',
            lo < hi ==> s@[lo as int] != '"',
        decreases hi - lo,
    {
        hi -= 1;
    }
    proof {
        lemma_trim_range(s@, lo as int, hi as int);
    }
    substring_string(s, lo, hi)
}

/// Join the rendered country and city fields as `<country>/<city>`, each with
/// its quoting artifacts stripped.
pub fn location_pair_text(country_text: &String, city_text: &String) -> (r: String)
    ensures
        r@ == spec_trim_quotes(country_text@) + "/"@ + spec_trim_quotes(city_text@),
{
    let r = trim_quotes(country_text.as_str()).concat("/").concat(
        trim_quotes(city_text.as_str()).as_str(),
    );
    proof {
        assert(r@ =~= spec_trim_quotes(country_text@) + "/"@ + spec_trim_quotes(city_text@));
    }
    r
}

/// The lookup URL for a bare host; an empty host is rejected as invalid input.
pub fn geo_request_url(ip: &String) -> (r: Result<String, GetIpError>)
    ensures
        r is Err <==> ip@.len() == 0,
        r matches Err(e) ==> e is InvalidIp,
        r matches Ok(u) ==> u@ == "http://ipwho.is/"@ + ip@,
{
    if ip.as_str().unicode_len() == 0 {
        Err(GetIpError::InvalidIp)
    } else {
        Ok(String::from_str("http://ipwho.is/").concat(ip.as_str()))
    }
}

/// The bare host a candidate's location is looked up by: the candidate with
/// its scheme prefix and its port stripped.
pub fn geo_host(p: &String) -> (r: String)
    ensures
        r@ == spec_without_port(spec_without_scheme(p@)),
{
    get_url_without_port(&get_url_without_scheme(p))
}

/// Read the location out of a lookup response body: the body must parse as
/// JSON; its `country` and `city` members, rendered and stripped of quoting
/// artifacts, are joined as `<country>/<city>`.
pub fn parse_ip_location(body: &String) -> (r: Result<String, GetIpError>)
    ensures
        r is Ok <==> json_wellformed(body@),
        r matches Err(e) ==> e is ParsingError,
        r matches Ok(l) ==> l@ == spec_trim_quotes(json_member_rendered(body@, "country"@))
            + "/"@ + spec_trim_quotes(json_member_rendered(body@, "city"@)),
{
    match json_field_text(body.as_str(), "country") {
        None => Err(GetIpError::ParsingError),
        Some(country) => match json_field_text(body.as_str(), "city") {
            Some(city) => Ok(location_pair_text(&country, &city)),
            None => {
                proof {
                    assert(false);
                }
                Err(GetIpError::ParsingError)
            },
        },
    }
}

/// Interpret one lookup attempt: no response means the request failed in
/// transport or status; a response is read as the structured payload.
pub fn interpret_geo_response(response: &Option<String>) -> (r: Result<String, GetIpError>)
    ensures
        response is None ==> (r matches Err(e) && e is RequestError),
        response matches Some(b) ==> {
            &&& r is Ok <==> json_wellformed(b@)
            &&& (r matches Err(e) ==> e is ParsingError)
            &&& (r matches Ok(l) ==> l@ == spec_trim_quotes(
                json_member_rendered(b@, "country"@),
            ) + "/"@ + spec_trim_quotes(json_member_rendered(b@, "city"@)))
        },
{
    match response {
        None => Err(GetIpError::RequestError),
        Some(body) => parse_ip_location(body),
    }
}

} // verus!
