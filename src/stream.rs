//! Stream resolution: the pieces of the provider choreographies that decide
//! what to request and how to read the answer. The requests themselves are
//! made by the caller.
use crate::crypto::{base64_of, os_random_salt, salted_container, seal};
use crate::dom::{node_views, select_nodes, selected_nodes, SelectedNode};
use crate::ident::{decode_id, id_of_token, member, DecodeError, MediaId, MediaIdView};
use crate::json::append_bytes;
use crate::json::{decimal, push_decimal, push_quoted, quoted, COLON, COMMA, LBRACE, RBRACE};
use vstd::prelude::*;
use vstd::utf8::encode_utf8;

verus! {

/// A span of a stream, in seconds.
pub struct Timeline {
    pub start: usize,
    pub end: usize,
}

/// One source of a stream.
pub struct SourceInfo {
    pub file: String,
    /// The kind of source ("hls").
    pub _type: String,
}

/// One text track of a stream.
pub struct TrackInfo {
    pub file: String,
    pub label: Option<String>,
    pub kind: String,
    pub default: Option<bool>,
}

/// What a player needs of a stream.
pub struct Data {
    pub intro: Option<Timeline>,
    pub outro: Option<Timeline>,
    pub sources: Vec<SourceInfo>,
    pub tracks: Vec<TrackInfo>,
}

/// The headers and bases that requests for the stream's playlist and
/// segments must carry.
pub struct Config {
    pub host: String,
    pub referer: String,
    pub origin: String,
    pub playlist_base_url: String,
    pub segment_base_url: String,
}

/// A resolved stream.
pub struct GetServerResult {
    pub data: Data,
    pub config: Config,
}

/// The secrets that a provider's script bundle holds.
pub struct Keys {
    pub scrapify_url: String,
    pub encryption_key: String,
    pub player_api_key: String,
}

/// Why a stream could not be resolved.
#[derive(Debug, PartialEq, Eq, Structural)]
pub enum StreamError {
    /// The server token could not be read.
    Decode(DecodeError),
    /// The server token names no provider.
    MissingSource,
    /// A season or episode index has no one-based successor.
    IndexOverflow,
    /// A page could not be loaded as HTML.
    PageUnreadable,
    /// The page has no module script.
    ScriptNotFound,
    /// The stream URL cannot be parsed, or has no host.
    InvalidStreamUrl,
}

/// The decimal digits of `n` as text.
pub open spec fn decimal_text(n: nat) -> Seq<char>
    decreases n,
{
    if n < 10 {
        seq![digit_char(n)]
    } else {
        decimal_text(n / 10) + seq![digit_char(n % 10)]
    }
}

pub open spec fn digit_char(d: nat) -> char {
    if d == 0 { '0' } else if d == 1 { '1' } else if d == 2 { '2' } else if d == 3 { '3' }
    else if d == 4 { '4' } else if d == 5 { '5' } else if d == 6 { '6' } else if d == 7 { '7' }
    else if d == 8 { '8' } else { '9' }
}

fn digit_str(d: usize) -> (r: &'static str)
    requires
        d < 10,
    ensures
        r@ == seq![digit_char(d as nat)],
{
    let s = if d == 0 { "0" } else if d == 1 { "1" } else if d == 2 { "2" } else if d == 3 { "3" }
    else if d == 4 { "4" } else if d == 5 { "5" } else if d == 6 { "6" } else if d == 7 { "7" }
    else if d == 8 { "8" } else { "9" };
    proof {
        reveal_strlit("0"); reveal_strlit("1"); reveal_strlit("2"); reveal_strlit("3");
        reveal_strlit("4"); reveal_strlit("5"); reveal_strlit("6"); reveal_strlit("7");
        reveal_strlit("8"); reveal_strlit("9");
        assert(s@ =~= seq![digit_char(d as nat)]);
    }
    s
}

/// Appends the decimal digits of `n` to `s`.
pub fn append_decimal(s: &mut String, n: usize)
    ensures
        final(s)@ == old(s)@ + decimal_text(n as nat),
    decreases n,
{
    if n >= 10 {
        append_decimal(s, n / 10);
    }
    s.append(digit_str(n % 10));
    assert(n < 10 ==> decimal_text(n as nat) =~= seq![digit_char(n as nat)]);
}

/// The page of a title on the signed-payload provider:
/// `{origin}/tv/{tmdb}/{season+1}/{episode+1}` for an episode, else `{origin}/movie/{tmdb}`.
pub open spec fn page_url_of(origin: Seq<char>, id: MediaIdView) -> Seq<char> {
    if id.season is Some && id.episode is Some {
        origin + "/tv/"@ + id.tmdb_id + "/"@ + decimal_text(id.season->0 as nat + 1) + "/"@
            + decimal_text(id.episode->0 as nat + 1)
    } else {
        origin + "/movie/"@ + id.tmdb_id
    }
}

pub open spec fn indexes_fit(id: MediaIdView) -> bool {
    (id.season matches Some(s) ==> s < usize::MAX) && (id.episode matches Some(e) ==> e < usize::MAX)
}

/// The page to fetch for the title or episode `id`.
pub fn page_url(origin: &str, id: &MediaId) -> (r: String)
    requires
        indexes_fit(id@),
    ensures
        r@ == page_url_of(origin@, id@),
{
    let mut url = String::from_str(origin);
    if id.season.is_some() && id.episode.is_some() {
        let s = id.season.unwrap();
        let e = id.episode.unwrap();
        url.append("/tv/");
        url.append(id.tmdb_id.as_str());
        url.append("/");
        append_decimal(&mut url, s + 1);
        url.append("/");
        append_decimal(&mut url, e + 1);
    } else {
        url.append("/movie/");
        url.append(id.tmdb_id.as_str());
    }
    url
}

/// The query of the direct provider:
/// `{base}/ajax-tv.php?tmdb={tmdb}&season={season+1}&episode={episode+1}` for an
/// episode, else `{base}/ajax.php?tmdb={tmdb}`.
pub open spec fn ajax_url_of(base: Seq<char>, id: MediaIdView) -> Seq<char> {
    if id.season is Some && id.episode is Some {
        base + "/ajax-tv.php?tmdb="@ + id.tmdb_id + "&season="@ + decimal_text(id.season->0 as nat + 1)
            + "&episode="@ + decimal_text(id.episode->0 as nat + 1)
    } else {
        base + "/ajax.php?tmdb="@ + id.tmdb_id
    }
}

/// The query to send for the title or episode `id`.
pub fn ajax_url(base: &str, id: &MediaId) -> (r: String)
    requires
        indexes_fit(id@),
    ensures
        r@ == ajax_url_of(base@, id@),
{
    let mut url = String::from_str(base);
    if id.season.is_some() && id.episode.is_some() {
        let s = id.season.unwrap();
        let e = id.episode.unwrap();
        url.append("/ajax-tv.php?tmdb=");
        url.append(id.tmdb_id.as_str());
        url.append("&season=");
        append_decimal(&mut url, s + 1);
        url.append("&episode=");
        append_decimal(&mut url, e + 1);
    } else {
        url.append("/ajax.php?tmdb=");
        url.append(id.tmdb_id.as_str());
    }
    url
}

/// Reads a server token: its document must name a provider, and its indexes
/// must have one-based successors.
pub fn decode_server_id(token: &str) -> (r: Result<MediaId, StreamError>)
    ensures
        match id_of_token(token@) {
            None => r matches Err(StreamError::Decode(_)),
            Some(d) => if d.source_id is None {
                r == Err::<MediaId, StreamError>(StreamError::MissingSource)
            } else if !indexes_fit(d) {
                r == Err::<MediaId, StreamError>(StreamError::IndexOverflow)
            } else {
                r matches Ok(id) && id@ == d
            },
        },
{
    let id = match decode_id(token) {
        Ok(d) => d,
        Err(e) => return Err(StreamError::Decode(e)),
    };
    if id.source_id.is_none() {
        return Err(StreamError::MissingSource);
    }
    let fits_s = match id.season {
        Some(s) => s < usize::MAX,
        None => true,
    };
    let fits_e = match id.episode {
        Some(e) => e < usize::MAX,
        None => true,
    };
    if !fits_s || !fits_e {
        return Err(StreamError::IndexOverflow);
    }
    Ok(id)
}

/// The first capture group of the first match of `pattern` in `text`; `None`
/// where the pattern does not compile or does not match.
pub uninterp spec fn regex_first_group(pattern: Seq<char>, text: Seq<char>) -> Option<Seq<char>>;

/// Relies on `regex::Regex::new` and `Regex::captures`.
#[verifier::external_body]
fn first_capture(pattern: &str, text: &str) -> (r: Option<String>)
    ensures
        match r {
            Some(s) => regex_first_group(pattern@, text@) == Some(s@),
            None => regex_first_group(pattern@, text@) is None,
        },
{
    let re = regex::Regex::new(pattern).ok()?;
    re.captures(text).and_then(|c| c.get(1)).map(|m| m.as_str().to_string())
}

/// The pattern `NAME:\s*"([^"]+)"` of a named secret.
pub open spec fn secret_pattern(name: Seq<char>) -> Seq<char> {
    name + ":\\s*\"([^\"]+)\""@
}

/// The value of the secret `name` in a script, or the empty text.
pub open spec fn named_secret(script: Seq<char>, name: Seq<char>) -> Seq<char> {
    match regex_first_group(secret_pattern(name), script) {
        Some(v) => v,
        None => seq![],
    }
}

/// Finds `NAME: "value"` in a script and returns the value, or an empty text.
pub fn extract_named_secret(script: &str, name: &str) -> (r: String)
    ensures
        r@ == named_secret(script@, name@),
{
    let mut pattern = String::from_str(name);
    pattern.append(":\\s*\"([^\"]+)\"");
    match first_capture(pattern.as_str(), script) {
        Some(v) => v,
        None => String::new(),
    }
}

/// Reads the signing endpoint, the encryption password and the player key
/// from a provider's script bundle.
pub fn extract_secrets(script: &str) -> (r: Keys)
    ensures
        r.scrapify_url@ == named_secret(script@, "SCRAPIFY_URL"@),
        r.encryption_key@ == named_secret(script@, "ENCRYPTION_KEY"@),
        r.player_api_key@ == named_secret(script@, "PLAYER_API_KEY"@),
{
    Keys {
        scrapify_url: extract_named_secret(script, "SCRAPIFY_URL"),
        encryption_key: extract_named_secret(script, "ENCRYPTION_KEY"),
        player_api_key: extract_named_secret(script, "PLAYER_API_KEY"),
    }
}

/// The attribute of the last node that has it.
pub open spec fn last_attr(nodes: Seq<(Seq<char>, Option<Seq<char>>)>) -> Option<Seq<char>>
    decreases nodes.len(),
{
    if nodes.len() == 0 {
        None
    } else {
        match nodes.last().1 {
            Some(a) => Some(a),
            None => last_attr(nodes.drop_last()),
        }
    }
}

/// The script bundle URL: `origin` followed by the `src` of the last module script.
pub fn script_bundle_url(origin: &str, scripts: &Vec<SelectedNode>) -> (r: Option<String>)
    ensures
        match last_attr(node_views(scripts@)) {
            Some(src) => r matches Some(u) && u@ == origin@ + src,
            None => r is None,
        },
{
    let ghost all = node_views(scripts@);
    let mut found: Option<usize> = None;
    let mut i: usize = 0;
    assert(all.take(0) =~= Seq::<(Seq<char>, Option<Seq<char>>)>::empty());
    while i < scripts.len()
        invariant
            i <= scripts@.len(),
            all == node_views(scripts@),
            all.len() == scripts@.len(),
            match found {
                Some(j) => j < i && scripts@[j as int].attr is Some && last_attr(all.take(i as int))
                    == Some(scripts@[j as int].attr->0@),
                None => last_attr(all.take(i as int)) is None,
            },
        decreases scripts@.len() - i,
    {
        assert(all.take(i + 1).drop_last() =~= all.take(i as int));
        assert(all.take(i + 1).last() == all[i as int]);
        if scripts[i].attr.is_some() {
            found = Some(i);
        }
        i += 1;
    }
    assert(all.take(i as int) =~= all);
    match found {
        Some(j) => {
            let mut url = String::from_str(origin);
            match &scripts[j].attr {
                Some(src) => url.append(src.as_str()),
                None => {},
            }
            Some(url)
        },
        None => None,
    }
}

/// Loads a title page and finds its script bundle URL.
pub fn script_bundle_url_from_html(origin: &str, html: &str) -> (r: Result<String, StreamError>)
    ensures
        match selected_nodes(html@, "script[type=\"module\"]"@, "src"@) {
            None => r == Err::<String, StreamError>(StreamError::PageUnreadable),
            Some(nodes) => match last_attr(nodes) {
                Some(src) => r matches Ok(u) && u@ == origin@ + src,
                None => r == Err::<String, StreamError>(StreamError::ScriptNotFound),
            },
        },
{
    match select_nodes(html, "script[type=\"module\"]", "src") {
        None => Err(StreamError::PageUnreadable),
        Some(scripts) => match script_bundle_url(origin, &scripts) {
            Some(u) => Ok(u),
            None => Err(StreamError::ScriptNotFound),
        },
    }
}

/// "null"
pub open spec fn null_bytes() -> Seq<u8> {
    seq![110u8, 117u8, 108u8, 108u8]
}

pub open spec fn number_or_null(v: Option<nat>) -> Seq<u8> {
    match v {
        Some(n) => decimal(n),
        None => null_bytes(),
    }
}

pub open spec fn opt_nat(v: Option<usize>) -> Option<nat> {
    match v {
        Some(n) => Some(n as nat),
        None => None,
    }
}

/// Six members between braces, separated by commas.
pub open spec fn object6(m1: Seq<u8>, m2: Seq<u8>, m3: Seq<u8>, m4: Seq<u8>, m5: Seq<u8>, m6: Seq<u8>) -> Seq<u8> {
    seq![LBRACE] + (m1 + (seq![COMMA] + (m2 + (seq![COMMA] + (m3 + (seq![COMMA] + (m4 + (seq![COMMA]
        + (m5 + (seq![COMMA] + (m6 + seq![RBRACE])))))))))))
}

/// The body that the signing endpoint is sent, before encryption:
/// `{"source":..,"id":..,"type":"tv"|"movie","season":..,"episode":..,"srv":"0"}`,
/// with one-based season and episode for an episode.
pub open spec fn signing_request_of(id: MediaIdView) -> Seq<u8> {
    let tv = id.season is Some && id.episode is Some;
    let kind = if tv { seq![116u8, 118u8] } else { seq![109u8, 111u8, 118u8, 105u8, 101u8] };
    let season = if tv { Some(id.season->0 as nat + 1) } else { opt_nat(id.season) };
    let episode = if tv { Some(id.episode->0 as nat + 1) } else { opt_nat(id.episode) };
    object6(
        member(seq![115u8, 111u8, 117u8, 114u8, 99u8, 101u8], quoted(encode_utf8(id.source_id->0))),
        member(seq![105u8, 100u8], quoted(encode_utf8(id.tmdb_id))),
        member(seq![116u8, 121u8, 112u8, 101u8], quoted(kind)),
        member(seq![115u8, 101u8, 97u8, 115u8, 111u8, 110u8], number_or_null(season)),
        member(seq![101u8, 112u8, 105u8, 115u8, 111u8, 100u8, 101u8], number_or_null(episode)),
        member(seq![115u8, 114u8, 118u8], quoted(seq![48u8])),
    )
}

fn object6_bytes(m1: &[u8], m2: &[u8], m3: &[u8], m4: &[u8], m5: &[u8], m6: &[u8]) -> (r: Vec<u8>)
    ensures
        r@ == object6(m1@, m2@, m3@, m4@, m5@, m6@),
{
    let mut out: Vec<u8> = vec![LBRACE];
    append_bytes(&mut out, m1);
    out.push(COMMA);
    append_bytes(&mut out, m2);
    out.push(COMMA);
    append_bytes(&mut out, m3);
    out.push(COMMA);
    append_bytes(&mut out, m4);
    out.push(COMMA);
    append_bytes(&mut out, m5);
    out.push(COMMA);
    append_bytes(&mut out, m6);
    out.push(RBRACE);
    assert(out@ =~= object6(m1@, m2@, m3@, m4@, m5@, m6@));
    out
}

fn member_bytes(name: &[u8], value: &[u8]) -> (r: Vec<u8>)
    ensures
        r@ == member(name@, value@),
{
    let mut out: Vec<u8> = Vec::new();
    push_quoted(&mut out, name);
    out.push(COLON);
    append_bytes(&mut out, value);
    assert(out@ =~= member(name@, value@));
    out
}

fn quoted_bytes(value: &[u8]) -> (r: Vec<u8>)
    ensures
        r@ == quoted(value@),
{
    let mut out: Vec<u8> = Vec::new();
    push_quoted(&mut out, value);
    assert(out@ =~= quoted(value@));
    out
}

fn number_or_null_bytes(v: Option<usize>) -> (r: Vec<u8>)
    ensures
        r@ == number_or_null(opt_nat(v)),
{
    match v {
        Some(n) => {
            let mut out: Vec<u8> = Vec::new();
            push_decimal(&mut out, n);
            assert(out@ =~= decimal(n as nat));
            out
        },
        None => {
            let out: Vec<u8> = vec![110u8, 117u8, 108u8, 108u8];
            assert(out@ =~= null_bytes());
            out
        },
    }
}

/// The JSON body that the signing endpoint is sent, before encryption.
pub fn signing_request_json(id: &MediaId) -> (r: Vec<u8>)
    requires
        id@.source_id is Some,
        indexes_fit(id@),
    ensures
        r@ == signing_request_of(id@),
{
    let tv = id.season.is_some() && id.episode.is_some();
    let kind: Vec<u8> = if tv { vec![116u8, 118u8] } else { vec![109u8, 111u8, 118u8, 105u8, 101u8] };
    let season: Option<usize> = if tv { Some(id.season.unwrap() + 1) } else { id.season };
    let episode: Option<usize> = if tv { Some(id.episode.unwrap() + 1) } else { id.episode };
    let source: &str = match &id.source_id {
        Some(s) => s.as_str(),
        None => "",
    };
    let k_source: Vec<u8> = vec![115u8, 111u8, 117u8, 114u8, 99u8, 101u8];
    let k_id: Vec<u8> = vec![105u8, 100u8];
    let k_type: Vec<u8> = vec![116u8, 121u8, 112u8, 101u8];
    let k_season: Vec<u8> = vec![115u8, 101u8, 97u8, 115u8, 111u8, 110u8];
    let k_episode: Vec<u8> = vec![101u8, 112u8, 105u8, 115u8, 111u8, 100u8, 101u8];
    let k_srv: Vec<u8> = vec![115u8, 114u8, 118u8];
    let zero: Vec<u8> = vec![48u8];
    let m1 = member_bytes(k_source.as_slice(), quoted_bytes(source.as_bytes()).as_slice());
    let m2 = member_bytes(k_id.as_slice(), quoted_bytes(id.tmdb_id.as_str().as_bytes()).as_slice());
    let m3 = member_bytes(k_type.as_slice(), quoted_bytes(kind.as_slice()).as_slice());
    let m4 = member_bytes(k_season.as_slice(), number_or_null_bytes(season).as_slice());
    let m5 = member_bytes(k_episode.as_slice(), number_or_null_bytes(episode).as_slice());
    let m6 = member_bytes(k_srv.as_slice(), quoted_bytes(zero.as_slice()).as_slice());
    proof {
        assert(k_source@ =~= seq![115u8, 111u8, 117u8, 114u8, 99u8, 101u8]);
        assert(k_id@ =~= seq![105u8, 100u8]);
        assert(k_type@ =~= seq![116u8, 121u8, 112u8, 101u8]);
        assert(k_season@ =~= seq![115u8, 101u8, 97u8, 115u8, 111u8, 110u8]);
        assert(k_episode@ =~= seq![101u8, 112u8, 105u8, 115u8, 111u8, 100u8, 101u8]);
        assert(k_srv@ =~= seq![115u8, 114u8, 118u8]);
        assert(zero@ =~= seq![48u8]);
        assert(kind@ =~= (if tv { seq![116u8, 118u8] } else { seq![109u8, 111u8, 118u8, 105u8, 101u8] }));
    }
    object6_bytes(m1.as_slice(), m2.as_slice(), m3.as_slice(), m4.as_slice(), m5.as_slice(), m6.as_slice())
}

/// The encrypted signing payload for `id`, sealed with the extracted
/// encryption password and the given salt.
pub fn signing_payload_with_salt(id: &MediaId, keys: &Keys, salt: &[u8; 8]) -> (r: String)
    requires
        id@.source_id is Some,
        indexes_fit(id@),
    ensures
        r@ == base64_of(salted_container(signing_request_of(id@), encode_utf8(keys.encryption_key@), salt@)),
{
    let body = signing_request_json(id);
    seal(body.as_slice(), keys.encryption_key.as_str().as_bytes(), salt)
}

/// The encrypted signing payload for `id` under a fresh random salt; `None`
/// when the random source fails.
pub fn signing_payload(id: &MediaId, keys: &Keys) -> (r: Option<String>)
    requires
        id@.source_id is Some,
        indexes_fit(id@),
    ensures
        r matches Some(p) ==> exists|salt: Seq<u8>| salt.len() == 8 && p@ == base64_of(
            salted_container(signing_request_of(id@), encode_utf8(keys.encryption_key@), salt),
        ),
{
    match os_random_salt() {
        Some(salt) => Some(signing_payload_with_salt(id, keys, &salt)),
        None => None,
    }
}

/// The host of a URL: `None` where it cannot be parsed, `Some(None)` where it has no host.
pub uninterp spec fn url_host_of(s: Seq<char>) -> Option<Option<Seq<char>>>;

/// The path of a URL, `None` where it cannot be parsed.
pub uninterp spec fn url_path_of(s: Seq<char>) -> Option<Seq<char>>;

/// Relies on `url::Url::parse` and `Url::host_str`.
#[verifier::external_body]
fn url_host(s: &str) -> (r: Option<Option<String>>)
    ensures
        match r {
            Some(Some(h)) => url_host_of(s@) == Some(Some(h@)),
            Some(None) => url_host_of(s@) == Some(None::<Seq<char>>),
            None => url_host_of(s@) is None,
        },
{
    let u = url::Url::parse(s).ok()?;
    Some(u.host_str().map(|h| h.to_string()))
}

/// Relies on `url::Url::parse` and `Url::path`.
#[verifier::external_body]
fn url_path(s: &str) -> (r: Option<String>)
    ensures
        match r {
            Some(p) => url_path_of(s@) == Some(p@),
            None => url_path_of(s@) is None,
        },
{
    url::Url::parse(s).ok().map(|u| u.path().to_string())
}

/// "subtitles"
pub open spec fn subtitles_kind() -> Seq<char> {
    seq!['s', 'u', 'b', 't', 'i', 't', 'l', 'e', 's']
}

pub open spec fn opt_string_view(v: Option<String>) -> Option<Seq<char>> {
    match v {
        Some(s) => Some(s@),
        None => None,
    }
}

fn clone_opt_string(v: &Option<String>) -> (r: Option<String>)
    ensures
        opt_string_view(r) == opt_string_view(*v),
{
    match v {
        Some(s) => Some(s.clone()),
        None => None,
    }
}

/// The tracks with their kind set to "subtitles", all else kept.
pub fn mark_subtitles(tracks: &Vec<TrackInfo>) -> (r: Vec<TrackInfo>)
    ensures
        r@.len() == tracks@.len(),
        forall|i: int|
            0 <= i < r@.len() ==> {
                &&& (#[trigger] r@[i]).file@ == tracks@[i].file@
                &&& opt_string_view(r@[i].label) == opt_string_view(tracks@[i].label)
                &&& r@[i].default == tracks@[i].default
                &&& r@[i].kind@ == subtitles_kind()
            },
{
    let mut out: Vec<TrackInfo> = Vec::new();
    let mut i: usize = 0;
    while i < tracks.len()
        invariant
            i <= tracks@.len(),
            out@.len() == i,
            forall|j: int|
                0 <= j < i ==> {
                    &&& (#[trigger] out@[j]).file@ == tracks@[j].file@
                    &&& opt_string_view(out@[j].label) == opt_string_view(tracks@[j].label)
                    &&& out@[j].default == tracks@[j].default
                    &&& out@[j].kind@ == subtitles_kind()
                },
        decreases tracks@.len() - i,
    {
        let t = &tracks[i];
        let kind = String::from_str("subtitles");
        proof {
            reveal_strlit("subtitles");
            assert("subtitles"@ =~= subtitles_kind());
        }
        out.push(TrackInfo { file: t.file.clone(), label: clone_opt_string(&t.label), kind, default: t.default });
        i += 1;
    }
    out
}

/// The stream URL re-hosted under the edge domain:
/// `https://{edge}/{original host}{original path}`.
pub open spec fn edge_url_of(edge_host: Seq<char>, url: Seq<char>) -> Option<Seq<char>> {
    match (url_host_of(url), url_path_of(url)) {
        (Some(h), Some(p)) => Some(
            "https://"@ + edge_host + "/"@ + match h {
                Some(x) => x,
                None => seq![],
            } + p,
        ),
        _ => None,
    }
}

/// Re-hosts a stream URL under the edge domain.
pub fn edge_url(edge_host: &str, url: &str) -> (r: Result<String, StreamError>)
    ensures
        match edge_url_of(edge_host@, url@) {
            Some(u) => r matches Ok(v) && v@ == u,
            None => r == Err::<String, StreamError>(StreamError::InvalidStreamUrl),
        },
{
    let host = match url_host(url) {
        Some(h) => h,
        None => return Err(StreamError::InvalidStreamUrl),
    };
    let path = match url_path(url) {
        Some(p) => p,
        None => return Err(StreamError::InvalidStreamUrl),
    };
    let mut out = String::from_str("https://");
    out.append(edge_host);
    out.append("/");
    match &host {
        Some(h) => out.append(h.as_str()),
        None => {},
    }
    out.append(path.as_str());
    assert(host is None ==> out@ =~= "https://"@ + edge_host@ + "/"@ + Seq::<char>::empty() + path@);
    Ok(out)
}

/// Whether `r` describes the stream at `url` with `tracks`: all delivery
/// settings derive from the playlist host `host`.
pub open spec fn is_stream_result(
    r: GetServerResult,
    url: Seq<char>,
    tracks: Seq<TrackInfo>,
    host: Seq<char>,
) -> bool {
    &&& r.data.intro is None
    &&& r.data.outro is None
    &&& r.data.sources@.len() == 1
    &&& r.data.sources@[0].file@ == url
    &&& r.data.sources@[0]._type@ == "hls"@
    &&& r.data.tracks@ == tracks
    &&& r.config.host@ == host
    &&& r.config.referer@ == "https://"@ + host + "/"@
    &&& r.config.origin@ == "https://"@ + host
    &&& r.config.playlist_base_url@ == "https://"@ + host
    &&& r.config.segment_base_url@ == "https://"@ + host
}

/// Builds the stream description of the playlist at `url`: its delivery
/// settings come from the URL's own host.
pub fn stream_result(url: String, tracks: Vec<TrackInfo>) -> (r: Result<GetServerResult, StreamError>)
    ensures
        match url_host_of(url@) {
            Some(Some(h)) => r matches Ok(res) && is_stream_result(res, url@, tracks@, h),
            _ => r == Err::<GetServerResult, StreamError>(StreamError::InvalidStreamUrl),
        },
{
    let host = match url_host(url.as_str()) {
        Some(Some(h)) => h,
        _ => return Err(StreamError::InvalidStreamUrl),
    };
    let mut base = String::from_str("https://");
    base.append(host.as_str());
    let mut referer = base.clone();
    referer.append("/");
    let data = Data {
        intro: None,
        outro: None,
        sources: vec![SourceInfo { file: url, _type: String::from_str("hls") }],
        tracks,
    };
    let config = Config {
        host,
        referer,
        origin: base.clone(),
        playlist_base_url: base.clone(),
        segment_base_url: base,
    };
    Ok(GetServerResult { data, config })
}

/// Finishes the signed-payload provider: the tracks are marked as subtitles and
/// the playlist is re-hosted under the edge domain, whose host the delivery
/// settings then use.
pub fn finish_signed(edge_host: &str, url: &str, tracks: &Vec<TrackInfo>) -> (r: Result<GetServerResult, StreamError>)
    ensures
        match edge_url_of(edge_host@, url@) {
            None => r == Err::<GetServerResult, StreamError>(StreamError::InvalidStreamUrl),
            Some(e) => match url_host_of(e) {
                Some(Some(h)) => r matches Ok(res) && res.data.tracks@.len() == tracks@.len() && ({
                    let marked = res.data.tracks@;
                    &&& forall|i: int| 0 <= i < marked.len() ==> {
                        &&& (#[trigger] marked[i]).file@ == tracks@[i].file@
                        &&& opt_string_view(marked[i].label) == opt_string_view(tracks@[i].label)
                        &&& marked[i].default == tracks@[i].default
                        &&& marked[i].kind@ == subtitles_kind()
                    }
                    &&& is_stream_result(res, e, marked, h)
                }),
                _ => r == Err::<GetServerResult, StreamError>(StreamError::InvalidStreamUrl),
            },
        },
{
    let edge = match edge_url(edge_host, url) {
        Ok(u) => u,
        Err(e) => return Err(e),
    };
    let marked = mark_subtitles(tracks);
    stream_result(edge, marked)
}

/// Finishes the direct provider: the playlist and tracks are taken as they came.
pub fn finish_direct(url: String, tracks: Vec<TrackInfo>) -> (r: Result<GetServerResult, StreamError>)
    ensures
        match url_host_of(url@) {
            Some(Some(h)) => r matches Ok(res) && is_stream_result(res, url@, tracks@, h),
            _ => r == Err::<GetServerResult, StreamError>(StreamError::InvalidStreamUrl),
        },
{
    stream_result(url, tracks)
}

} // verus!
