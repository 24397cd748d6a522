//! How a client finds its channel: the host, login token and codec read from
//! the page, and the WebSocket URL built from them.
use crate::config::CodecType;
use crate::json::JsonValue;
use vstd::prelude::*;

verus! {

/// What the page's `#main` element and the page location offer.
#[derive(Debug, Clone, PartialEq, Eq)]
pub struct MainElement {
    /// The element's `data-host` attribute.
    pub data_host: Option<String>,
    /// The host of the page location.
    pub location_host: String,
    /// The `token` and `codec` query parameters of the page URL, when the URL
    /// could be read.
    pub query: Option<(Option<String>, Option<String>)>,
    /// The element's `data-token` attribute.
    pub data_token: Option<String>,
}

/// Where and how a client connects.
#[derive(Debug, Clone, PartialEq, Eq)]
pub struct ChannelTarget {
    pub host: String,
    pub token: Option<String>,
    pub codec: CodecType,
}

/// The codec named by an optional query parameter: the named one when the name
/// is known, CBOR otherwise.
pub open spec fn codec_from_param(p: Option<String>) -> CodecType {
    match p {
        Some(s) => if s@ == "json"@ {
            CodecType::Json
        } else {
            CodecType::Cbor
        },
        None => CodecType::Cbor,
    }
}

/// Reads the channel target from the page's `#main` element: the host is its
/// `data-host`, else the location's host; the token and codec come from the
/// URL's query when the URL can be read, the token from `data-token`
/// otherwise. (A page without a `#main` element has nothing to mount into.)
pub fn resolve_target(m: MainElement) -> (t: ChannelTarget)
    ensures
        t.host@ == (match m.data_host {
            Some(h) => h@,
            None => m.location_host@,
        }),
        match m.query {
            Some((token, codec)) => t.token == token && t.codec == codec_from_param(codec),
            None => t.token == m.data_token && t.codec is Cbor,
        },
{
    let host = match m.data_host {
        Some(h) => h,
        None => m.location_host,
    };
    match m.query {
        Some((token, codec)) => {
            let codec = match codec {
                Some(c) => match CodecType::parse(c.as_str()) {
                    Some(t) => t,
                    None => CodecType::Cbor,
                },
                None => CodecType::Cbor,
            };
            ChannelTarget { host, token, codec }
        },
        None => ChannelTarget { host, token: m.data_token, codec: CodecType::Cbor },
    }
}

/// The query string of the channel URL.
pub open spec fn channel_query(token: Option<Seq<char>>, codec: Seq<char>) -> Seq<char> {
    match token {
        Some(t) => "?token="@ + t + "&codec="@ + codec,
        None => "?codec="@ + codec,
    }
}

/// The name of a codec in a URL.
pub open spec fn codec_name(c: CodecType) -> Seq<char> {
    match c {
        CodecType::Json => "json"@,
        CodecType::Cbor => "cbor"@,
    }
}

/// The WebSocket URL of the channel: `ws://host/channel?token=...&codec=...`,
/// without the token parameter when there is no token.
pub fn channel_url(target: &ChannelTarget) -> (u: String)
    ensures
        u@ == "ws://"@ + target.host@ + "/channel"@ + channel_query(
            match target.token {
                Some(t) => Some(t@),
                None => None,
            },
            codec_name(target.codec),
        ),
{
    let codec = target.codec.as_str();
    let query = match &target.token {
        Some(t) => "?token=".to_owned().concat(t.as_str()).concat("&codec=").concat(codec),
        None => "?codec=".to_owned().concat(codec),
    };
    "ws://".to_owned().concat(target.host.as_str()).concat("/channel").concat(query.as_str())
}

/// The codec of a new connection: the one named by the string query parameter
/// `codec` when it names one, else the configured one.
pub fn connection_codec(configured: CodecType, query: &JsonValue) -> (c: CodecType)
    ensures
        match query.spec_get("codec"@) {
            Some(JsonValue::Str(s)) => if s@ == "json"@ {
                c is Json
            } else if s@ == "cbor"@ {
                c is Cbor
            } else {
                c == configured
            },
            _ => c == configured,
        },
{
    let key = "codec".to_owned();
    match query.get(&key) {
        Some(JsonValue::Str(s)) => match CodecType::parse(s.as_str()) {
            Some(t) => t,
            None => configured,
        },
        _ => configured,
    }
}

} // verus!
