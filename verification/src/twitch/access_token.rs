//! Asking the server for the access token of a video: the request to send
//! and what its reply holds.

use crate::errors::DownloadError;
use vstd::prelude::*;
use vstd::string::StringExecFns;

verus! {

#[derive(Debug, Clone, PartialEq, Eq)]
pub struct TwitchVideoAccessTokenResponse {
    pub data: VideoAccessTokenResponseData,
}

#[derive(Debug, Clone, PartialEq, Eq)]
pub struct VideoAccessTokenResponseData {
    /// Absent where the video cannot be played or does not exist.
    pub video_playback_access_token: Option<VideoAccessTokenResponseDataAccessToken>,
}

#[derive(Debug, Clone, PartialEq, Eq)]
pub struct VideoAccessTokenResponseDataAccessToken {
    pub value: String,
    pub signature: String,
}

/// The sixteen digits of base sixteen, in lower case.
pub open spec fn hex_digits() -> Seq<char> {
    seq!['0', '1', '2', '3', '4', '5', '6', '7', '8', '9', 'a', 'b', 'c', 'd', 'e', 'f']
}

/// How JSON writes one character inside a string.
pub open spec fn json_escape(c: char) -> Seq<char> {
    let n = c as u32;
    if c == '"' {
        seq!['\\', '"']
    } else if c == '\\' {
        seq!['\\', '\\']
    } else if n == 0x08 {
        seq!['\\', 'b']
    } else if n == 0x09 {
        seq!['\\', 't']
    } else if n == 0x0A {
        seq!['\\', 'n']
    } else if n == 0x0C {
        seq!['\\', 'f']
    } else if n == 0x0D {
        seq!['\\', 'r']
    } else if n < 0x20 {
        seq!['\\', 'u', '0', '0', hex_digits()[n as int / 16], hex_digits()[n as int % 16]]
    } else {
        seq![c]
    }
}

/// The characters of `text` as JSON writes them inside a string.
pub open spec fn json_escaped(text: Seq<char>) -> Seq<char>
    decreases text.len(),
{
    if text.len() == 0 {
        Seq::empty()
    } else {
        json_escaped(text.drop_last()) + json_escape(text.last())
    }
}

/// `text` as a JSON string: between double quotes, with its characters escaped.
pub open spec fn json_string(text: Seq<char>) -> Seq<char> {
    seq!['"'] + json_escaped(text) + seq!['"']
}

/// `serde_json`'s text for the JSON value `Value::String(text)`, as its
/// `Display` writes it: the text between double quotes, a double quote and a
/// backslash each behind a backslash, the control characters below U+0020 as
/// `\b`, `\t`, `\n`, `\f`, `\r` or `\u00` and two hex digits, all else as it is.
#[verifier::external_body]
fn json_string_of(text: &str) -> (json: String)
    ensures
        json@ == json_string(text@),
{
    serde_json::Value::String(text.to_owned()).to_string()
}

/// Where the access token of a video is asked for.
pub open spec fn token_endpoint() -> Seq<char> {
    "https://gql.twitch.tv/gql"@
}

/// The header that carries the client's identifier.
pub open spec fn client_id_header() -> Seq<char> {
    "Client-ID"@
}

pub fn token_url() -> (url: String)
    ensures
        url@ == token_endpoint(),
{
    "https://gql.twitch.tv/gql".to_owned()
}

pub fn token_header() -> (name: String)
    ensures
        name@ == client_id_header(),
{
    "Client-ID".to_owned()
}

/// The query that asks for a playback access token.
pub open spec fn token_query() -> Seq<char> {
    "query PlaybackAccessToken_Template($login: String!, $isLive: Boolean!, $vodID: ID!, $isVod: Boolean!, $playerType: String!) {  streamPlaybackAccessToken(channelName: $login, params: {platform: \"web\", playerBackend: \"mediaplayer\", playerType: $playerType}) @include(if: $isLive) {    value    signature    __typename  }  videoPlaybackAccessToken(id: $vodID, params: {platform: \"web\", playerBackend: \"mediaplayer\", playerType: $playerType}) @include(if: $isVod) {    value    signature    __typename  }}"@
}

/// The body of the request for the access token of the video `video_id`: a
/// JSON object with the operation's name, the query and the variables, the
/// keys of each object in alphabetical order and no white space between.
pub open spec fn token_body(video_id: Seq<char>) -> Seq<char> {
    "{\"operationName\":\"PlaybackAccessToken_Template\",\"query\":"@ + json_string(token_query())
        + ",\"variables\":{\"isLive\":false,\"isVod\":true,\"login\":\"\",\"playerType\":\"embed\",\"vodID\":"@
        + json_string(video_id) + "}}"@
}

pub fn token_request_body(video_id: &str) -> (body: String)
    ensures
        body@ == token_body(video_id@),
{
    let query = json_string_of(
        "query PlaybackAccessToken_Template($login: String!, $isLive: Boolean!, $vodID: ID!, $isVod: Boolean!, $playerType: String!) {  streamPlaybackAccessToken(channelName: $login, params: {platform: \"web\", playerBackend: \"mediaplayer\", playerType: $playerType}) @include(if: $isLive) {    value    signature    __typename  }  videoPlaybackAccessToken(id: $vodID, params: {platform: \"web\", playerBackend: \"mediaplayer\", playerType: $playerType}) @include(if: $isVod) {    value    signature    __typename  }}",
    );
    let id = json_string_of(video_id);
    let mut body = "{\"operationName\":\"PlaybackAccessToken_Template\",\"query\":".to_owned();
    body.append(query.as_str());
    body.append(
        ",\"variables\":{\"isLive\":false,\"isVod\":true,\"login\":\"\",\"playerType\":\"embed\",\"vodID\":",
    );
    body.append(id.as_str());
    body.append("}}");
    body
}

/// The token and the signature that the server's reply holds. A reply without
/// a token gives `AccessTokenEmpty`.
pub fn token_and_signature(response: TwitchVideoAccessTokenResponse) -> (held: Result<
    (String, String),
    DownloadError,
>)
    ensures
        match response.data.video_playback_access_token {
            Some(token) => held == Ok::<(String, String), DownloadError>(
                (token.value, token.signature),
            ),
            None => held == Err::<(String, String), DownloadError>(
                DownloadError::AccessTokenEmpty,
            ),
        },
{
    match response.data.video_playback_access_token {
        Some(token) => Ok((token.value, token.signature)),
        None => Err(DownloadError::AccessTokenEmpty),
    }
}

} // verus!
