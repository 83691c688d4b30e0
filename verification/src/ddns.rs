//! The dynamic-DNS update: an HTTP GET to the service's URL with the
//! address and the host name as query parameters. A reply with status 200
//! is a success; every other reply, and no reply, is a failure.

use crate::addr::IpAddress;
use crate::config::Config;
use crate::text::{ip_text, lemma_ip_text_length};
use vstd::prelude::*;
use vstd::string::*;

verus! {

/// The status of a reply that takes the update for done.
pub const HTTP_OK: u16 = 200;

/// The greatest number of characters of the policy's URL, and of its host
/// name, for which a request URL is made.
pub const MAX_URL_TEXT: usize = 0x10_0000;

/// What came back from the service.
#[derive(Clone, Copy, Debug, PartialEq, Eq, Structural)]
pub enum DdnsReply {
    /// A reply with this status.
    Status(u16),
    /// No reply: the request failed on the way.
    TransportError,
}

/// Why an update failed.
#[derive(Clone, Copy, Debug, PartialEq, Eq, Structural)]
pub enum DdnsError {
    /// The service replied with this status, which is not 200.
    Refused(u16),
    /// The request failed on the way.
    Transport,
}

/// The text of the URL that `reqwest::Url::parse_with_params` makes of
/// `input` and the query parameters `params`, each a name and a value; or
/// nothing, where it takes `input` for no absolute URL.
pub uninterp spec fn url_with_params(input: Seq<char>, params: Seq<(Seq<char>, Seq<char>)>) -> Option<
    Seq<char>,
>;

/// The names and values of a list of parameters as plain values.
pub open spec fn param_texts(params: Seq<(String, String)>) -> Seq<(Seq<char>, Seq<char>)> {
    Seq::new(params.len(), |i: int| (params[i].0@, params[i].1@))
}

/// The query parameters of an update: `myip`, the address in its text form,
/// and `hostname`, the host name of the policy.
pub open spec fn spec_ddns_params(ip: IpAddress, hostname: Seq<char>) -> Seq<(Seq<char>, Seq<char>)> {
    seq![("myip"@, ip_text(ip)), ("hostname"@, hostname)]
}

/// Whether the parameters are few and short enough to hand to the URL
/// parser.
pub open spec fn params_fit(params: Seq<(Seq<char>, Seq<char>)>) -> bool {
    &&& params.len() <= 16
    &&& forall|i: int|
        0 <= i < params.len() ==> (#[trigger] params[i]).0.len() <= MAX_URL_TEXT
            && params[i].1.len() <= MAX_URL_TEXT
}

/// Calls `reqwest::Url::parse_with_params`, which parses `input` as an
/// absolute URL and appends the parameters to its query. The result is the
/// URL in its text form, or `None` where the parser refuses `input`. The
/// contract only names that result: the same input and parameters give the
/// same URL. The parser holds positions in a URL as 32-bit numbers and
/// panics where a URL with a fragment outgrows them, so the input and the
/// parameters are kept far below that size.
#[verifier::external_body]
fn parse_url_with_params(input: &str, params: &Vec<(String, String)>) -> (url: Option<String>)
    requires
        input@.len() <= MAX_URL_TEXT,
        params_fit(param_texts(params@)),
    ensures
        match url {
            Some(u) => url_with_params(input@, param_texts(params@)) == Some(u@),
            None => url_with_params(input@, param_texts(params@)) is None,
        },
{
    match reqwest::Url::parse_with_params(input, params.iter()) {
        Ok(url) => Some(String::from(url)),
        Err(_) => None,
    }
}

/// The query parameters of the update that reports `ip`.
pub fn ddns_params(ip: &IpAddress, conf: &Config) -> (params: Vec<(String, String)>)
    ensures
        param_texts(params@) == spec_ddns_params(*ip, conf.hostname@),
{
    let mut params: Vec<(String, String)> = Vec::new();
    params.push((String::from_str("myip"), ip.to_text()));
    params.push((String::from_str("hostname"), conf.hostname.clone()));
    assert(param_texts(params@) =~= spec_ddns_params(*ip, conf.hostname@));
    params
}

/// Whether the URL and the host name of the policy are short enough to
/// make a request URL of.
pub open spec fn spec_url_inputs_fit(conf: &Config) -> bool {
    conf.ddns_url@.len() <= MAX_URL_TEXT && conf.hostname@.len() <= MAX_URL_TEXT
}

/// Whether the URL and the host name of the policy are short enough to
/// make a request URL of.
#[verifier::when_used_as_spec(spec_url_inputs_fit)]
pub fn url_inputs_fit(conf: &Config) -> (fit: bool)
    ensures
        fit == spec_url_inputs_fit(conf),
{
    conf.ddns_url.as_str().unicode_len() <= MAX_URL_TEXT && conf.hostname.as_str().unicode_len()
        <= MAX_URL_TEXT
}

/// The URL to get for the update that reports `ip`: the URL of the policy
/// with the query parameters of the update. `None` where the URL of the
/// policy is no absolute URL.
pub fn ddns_request_url(ip: &IpAddress, conf: &Config) -> (url: Option<String>)
    requires
        url_inputs_fit(conf),
    ensures
        match url {
            Some(u) => url_with_params(conf.ddns_url@, spec_ddns_params(*ip, conf.hostname@))
                == Some(u@),
            None => url_with_params(conf.ddns_url@, spec_ddns_params(*ip, conf.hostname@)) is None,
        },
{
    let params = ddns_params(ip, conf);
    proof {
        reveal_strlit("myip");
        reveal_strlit("hostname");
        lemma_ip_text_length(*ip);
        let texts = param_texts(params@);
        assert(texts.len() == 2);
        assert(texts[0] == ("myip"@, ip_text(*ip)));
        assert(texts[1] == ("hostname"@, conf.hostname@));
    }
    parse_url_with_params(conf.ddns_url.as_str(), &params)
}

/// What a reply means for the update.
pub open spec fn spec_check_reply(reply: DdnsReply) -> Result<(), DdnsError> {
    match reply {
        DdnsReply::Status(code) => if code == HTTP_OK {
            Ok(())
        } else {
            Err(DdnsError::Refused(code))
        },
        DdnsReply::TransportError => Err(DdnsError::Transport),
    }
}

/// Decides whether the update is done: only a reply with status 200 makes
/// it so.
pub fn check_ddns_reply(reply: DdnsReply) -> (res: Result<(), DdnsError>)
    ensures
        res == spec_check_reply(reply),
        res is Ok <==> reply == DdnsReply::Status(200),
{
    match reply {
        DdnsReply::Status(code) => {
            if code == HTTP_OK {
                Ok(())
            } else {
                Err(DdnsError::Refused(code))
            }
        },
        DdnsReply::TransportError => Err(DdnsError::Transport),
    }
}

} // verus!
