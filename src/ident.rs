//! Identifier tokens: a media document written as canonical JSON (keys in
//! sorted order, absent fields left out) and then percent-encoded. The token
//! carries all the state that the next stage of resolution needs.
use crate::json::{
    append_bytes, decimal, lemma_take_number, lemma_take_string, push_decimal, push_quoted, quoted,
    read_number, read_string, take_byte, take_number, take_string, COLON, COMMA, LBRACE, RBRACE,
};
use crate::percent::{
    lemma_percent_round_trip, percent_decode, percent_encode, url_decode_bytes, url_encode_bytes,
};
use vstd::prelude::*;
use vstd::string::StringSliceAdditionalSpecFns;
use vstd::utf8::{decode_utf8, encode_utf8, valid_utf8};

verus! {

/// A media document: what a title, episode or server token stands for.
pub struct MediaId {
    /// "tv" or "movie", as the catalog path gives it.
    pub id_type: String,
    pub imdb_id: String,
    pub tmdb_id: String,
    /// Zero-based season index (key "s").
    pub season: Option<usize>,
    /// Zero-based episode index (key "e").
    pub episode: Option<usize>,
    /// The provider a server token is bound to.
    pub source_id: Option<String>,
}

pub ghost struct MediaIdView {
    pub id_type: Seq<char>,
    pub imdb_id: Seq<char>,
    pub tmdb_id: Seq<char>,
    pub season: Option<usize>,
    pub episode: Option<usize>,
    pub source_id: Option<Seq<char>>,
}

impl View for MediaId {
    type V = MediaIdView;

    open spec fn view(&self) -> MediaIdView {
        MediaIdView {
            id_type: self.id_type@,
            imdb_id: self.imdb_id@,
            tmdb_id: self.tmdb_id@,
            season: self.season,
            episode: self.episode,
            source_id: match self.source_id {
                Some(s) => Some(s@),
                None => None,
            },
        }
    }
}

/// Why a token could not be read.
#[derive(Debug, PartialEq, Eq, Structural)]
pub enum DecodeError {
    /// The decoded text is not a media document.
    Malformed,
    /// A string of the document is not UTF-8.
    NotUtf8,
}

/// The document with its strings as UTF-8 bytes.
pub ghost struct RawId {
    pub id_type: Seq<u8>,
    pub imdb_id: Seq<u8>,
    pub tmdb_id: Seq<u8>,
    pub season: Option<usize>,
    pub episode: Option<usize>,
    pub source_id: Option<Seq<u8>>,
}

/// "e"
pub open spec fn key_e() -> Seq<u8> {
    seq![101u8]
}

/// "id_type"
pub open spec fn key_id_type() -> Seq<u8> {
    seq![105u8, 100u8, 95u8, 116u8, 121u8, 112u8, 101u8]
}

/// "imdb_id"
pub open spec fn key_imdb_id() -> Seq<u8> {
    seq![105u8, 109u8, 100u8, 98u8, 95u8, 105u8, 100u8]
}

/// "s"
pub open spec fn key_s() -> Seq<u8> {
    seq![115u8]
}

/// "source_id"
pub open spec fn key_source_id() -> Seq<u8> {
    seq![115u8, 111u8, 117u8, 114u8, 99u8, 101u8, 95u8, 105u8, 100u8]
}

/// "tmdb_id"
pub open spec fn key_tmdb_id() -> Seq<u8> {
    seq![116u8, 109u8, 100u8, 98u8, 95u8, 105u8, 100u8]
}

/// `"name":value`
pub open spec fn member(name: Seq<u8>, value: Seq<u8>) -> Seq<u8> {
    quoted(name) + seq![COLON] + value
}

pub open spec fn opt_number_member(name: Seq<u8>, v: Option<usize>) -> Seq<u8> {
    match v {
        Some(n) => member(name, decimal(n as nat)) + seq![COMMA],
        None => seq![],
    }
}

pub open spec fn opt_text_member(name: Seq<u8>, v: Option<Seq<u8>>) -> Seq<u8> {
    match v {
        Some(x) => member(name, quoted(x)) + seq![COMMA],
        None => seq![],
    }
}

/// The members from "s" on, and the closing brace.
pub open spec fn raw_json_tail(r: RawId) -> Seq<u8> {
    opt_number_member(key_s(), r.season) + (opt_text_member(key_source_id(), r.source_id) + (
    member(key_tmdb_id(), quoted(r.tmdb_id)) + seq![RBRACE]))
}

/// The canonical JSON text of a document.
pub open spec fn raw_json(r: RawId) -> Seq<u8> {
    seq![LBRACE] + (opt_number_member(key_e(), r.episode) + (member(key_id_type(), quoted(r.id_type))
        + (seq![COMMA] + (member(key_imdb_id(), quoted(r.imdb_id)) + (seq![COMMA] + raw_json_tail(
        r,
    ))))))
}

pub open spec fn raw_of(v: MediaIdView) -> RawId {
    RawId {
        id_type: encode_utf8(v.id_type),
        imdb_id: encode_utf8(v.imdb_id),
        tmdb_id: encode_utf8(v.tmdb_id),
        season: v.season,
        episode: v.episode,
        source_id: match v.source_id {
            Some(s) => Some(encode_utf8(s)),
            None => None,
        },
    }
}

/// The canonical JSON text of a document, as bytes.
pub open spec fn id_json(v: MediaIdView) -> Seq<u8> {
    raw_json(raw_of(v))
}

/// Reads `"name":` at the start of `s`.
#[verifier::opaque]
pub open spec fn take_key(s: Seq<u8>) -> Option<(Seq<u8>, Seq<u8>)> {
    match take_string(s) {
        Some((k, r)) => match take_byte(r, COLON) {
            Some(r2) => Some((k, r2)),
            None => None,
        },
        None => None,
    }
}

/// Reads a string member with the given name.
#[verifier::opaque]
pub open spec fn take_text_member(s: Seq<u8>, name: Seq<u8>) -> Option<(Seq<u8>, Seq<u8>)> {
    match take_key(s) {
        Some((k, r)) => if k == name {
            take_string(r)
        } else {
            None
        },
        None => None,
    }
}

/// Reads a number member with the given name and its comma, if the next key is that name.
#[verifier::opaque]
pub open spec fn take_opt_number_member(s: Seq<u8>, name: Seq<u8>) -> Option<(Option<usize>, Seq<u8>)> {
    match take_key(s) {
        Some((k, r)) => if k == name {
            match take_number(r) {
                Some((n, r2)) => match take_byte(r2, COMMA) {
                    Some(r3) => Some((Some(n as usize), r3)),
                    None => None,
                },
                None => None,
            }
        } else {
            Some((None, s))
        },
        None => Some((None, s)),
    }
}

/// Reads a string member with the given name and its comma, if the next key is that name.
#[verifier::opaque]
pub open spec fn take_opt_text_member(s: Seq<u8>, name: Seq<u8>) -> Option<(Option<Seq<u8>>, Seq<u8>)> {
    match take_key(s) {
        Some((k, r)) => if k == name {
            match take_string(r) {
                Some((x, r2)) => match take_byte(r2, COMMA) {
                    Some(r3) => Some((Some(x), r3)),
                    None => None,
                },
                None => None,
            }
        } else {
            Some((None, s))
        },
        None => Some((None, s)),
    }
}

/// Reads the members from "s" on, and the closing brace; nothing may follow it.
pub open spec fn parse_id_tail(s5: Seq<u8>) -> Option<(Option<usize>, Option<Seq<u8>>, Seq<u8>)> {
    match take_opt_number_member(s5, key_s()) {
        None => None,
        Some((sn, s6)) => match take_opt_text_member(s6, key_source_id()) {
            None => None,
            Some((src, s7)) => match take_text_member(s7, key_tmdb_id()) {
                None => None,
                Some((tm, s8)) => if s8 == seq![RBRACE] {
                    Some((sn, src, tm))
                } else {
                    None
                },
            },
        },
    }
}

/// Reads a document in its canonical JSON text; nothing may follow it.
pub open spec fn parse_id_json(s: Seq<u8>) -> Option<RawId> {
    match take_byte(s, LBRACE) {
        None => None,
        Some(s0) => match take_opt_number_member(s0, key_e()) {
            None => None,
            Some((e, s1)) => match take_text_member(s1, key_id_type()) {
                None => None,
                Some((t, s2)) => match take_byte(s2, COMMA) {
                    None => None,
                    Some(s3) => match take_text_member(s3, key_imdb_id()) {
                        None => None,
                        Some((im, s4)) => match take_byte(s4, COMMA) {
                            None => None,
                            Some(s5) => match parse_id_tail(s5) {
                                None => None,
                                Some((sn, src, tm)) => Some(
                                    RawId {
                                        id_type: t,
                                        imdb_id: im,
                                        tmdb_id: tm,
                                        season: sn,
                                        episode: e,
                                        source_id: src,
                                    },
                                ),
                            },
                        },
                    },
                },
            },
        },
    }
}

pub open spec fn raw_is_utf8(r: RawId) -> bool {
    &&& valid_utf8(r.id_type)
    &&& valid_utf8(r.imdb_id)
    &&& valid_utf8(r.tmdb_id)
    &&& (r.source_id matches Some(x) ==> valid_utf8(x))
}

pub open spec fn view_of_raw(r: RawId) -> MediaIdView {
    MediaIdView {
        id_type: decode_utf8(r.id_type),
        imdb_id: decode_utf8(r.imdb_id),
        tmdb_id: decode_utf8(r.tmdb_id),
        season: r.season,
        episode: r.episode,
        source_id: match r.source_id {
            Some(x) => Some(decode_utf8(x)),
            None => None,
        },
    }
}

/// The JSON text that a token stands for.
pub open spec fn token_json(token: Seq<char>) -> Seq<u8> {
    percent_decode(encode_utf8(token))
}

/// The document that a token stands for, if any.
pub open spec fn id_of_token(token: Seq<char>) -> Option<MediaIdView> {
    match parse_id_json(token_json(token)) {
        Some(r) => if raw_is_utf8(r) {
            Some(view_of_raw(r))
        } else {
            None
        },
        None => None,
    }
}

/// A token of the document `v`: its UTF-8 bytes are the percent-encoded JSON text.
pub open spec fn is_token_of(token: Seq<char>, v: MediaIdView) -> bool {
    encode_utf8(token) == percent_encode(id_json(v))
}

pub proof fn lemma_take_key(name: Seq<u8>, r: Seq<u8>)
    ensures
        take_key(quoted(name) + seq![COLON] + r) == Some((name, r)),
{
    reveal(take_key);
    let s = quoted(name) + seq![COLON] + r;
    lemma_take_string(name, seq![COLON] + r);
    assert(s =~= quoted(name) + (seq![COLON] + r));
    assert((seq![COLON] + r).drop_first() =~= r);
}

pub proof fn lemma_take_text_member(name: Seq<u8>, x: Seq<u8>, r: Seq<u8>)
    ensures
        take_text_member(member(name, quoted(x)) + r, name) == Some((x, r)),
{
    reveal(take_text_member);
    lemma_take_key(name, quoted(x) + r);
    assert(member(name, quoted(x)) + r =~= quoted(name) + seq![COLON] + (quoted(x) + r));
    lemma_take_string(x, r);
}

/// A member whose key differs from `name` is left for later.
pub proof fn lemma_skip_member(name: Seq<u8>, other: Seq<u8>, x: Seq<u8>, r: Seq<u8>)
    requires
        other != name,
    ensures
        take_opt_number_member(member(other, x) + r, name) == Some((None::<usize>, member(other, x) + r)),
        take_opt_text_member(member(other, x) + r, name) == Some((None::<Seq<u8>>, member(other, x) + r)),
{
    reveal(take_opt_number_member);
    reveal(take_opt_text_member);
    lemma_take_key(other, x + r);
    assert(member(other, x) + r =~= quoted(other) + seq![COLON] + (x + r));
}

pub proof fn lemma_opt_number_member(name: Seq<u8>, v: Option<usize>, r: Seq<u8>)
    requires
        v is None ==> take_opt_number_member(r, name) == Some((None::<usize>, r)),
    ensures
        take_opt_number_member(opt_number_member(name, v) + r, name) == Some((v, r)),
{
    reveal(take_opt_number_member);
    match v {
        Some(n) => {
            let c = seq![COMMA] + r;
            lemma_take_key(name, decimal(n as nat) + c);
            assert(opt_number_member(name, v) + r =~= quoted(name) + seq![COLON] + (decimal(n as nat) + c));
            lemma_take_number(n as nat, c);
            assert(c.drop_first() =~= r);
        },
        None => {
            assert(opt_number_member(name, v) + r =~= r);
        },
    }
}

pub proof fn lemma_opt_text_member(name: Seq<u8>, v: Option<Seq<u8>>, r: Seq<u8>)
    requires
        v is None ==> take_opt_text_member(r, name) == Some((None::<Seq<u8>>, r)),
    ensures
        take_opt_text_member(opt_text_member(name, v) + r, name) == Some((v, r)),
{
    reveal(take_opt_text_member);
    match v {
        Some(x) => {
            let c = seq![COMMA] + r;
            lemma_take_key(name, quoted(x) + c);
            assert(opt_text_member(name, v) + r =~= quoted(name) + seq![COLON] + (quoted(x) + c));
            lemma_take_string(x, c);
            assert(c.drop_first() =~= r);
        },
        None => {
            assert(opt_text_member(name, v) + r =~= r);
        },
    }
}

/// The members from "s" on read back as themselves.
pub proof fn lemma_parse_tail(r: RawId)
    ensures
        parse_id_tail(raw_json_tail(r)) == Some((r.season, r.source_id, r.tmdb_id)),
{
    let s8 = seq![RBRACE];
    let s7 = member(key_tmdb_id(), quoted(r.tmdb_id)) + s8;
    let s6 = opt_text_member(key_source_id(), r.source_id) + s7;
    let s5 = opt_number_member(key_s(), r.season) + s6;
    assert(key_tmdb_id() != key_s()) by {
        assert(key_tmdb_id().len() != key_s().len());
    }
    assert(key_source_id() != key_s()) by {
        assert(key_source_id().len() != key_s().len());
    }
    assert(key_tmdb_id() != key_source_id()) by {
        assert(key_tmdb_id().len() != key_source_id().len());
    }
    lemma_skip_member(key_source_id(), key_tmdb_id(), quoted(r.tmdb_id), s8);
    lemma_opt_text_member(key_source_id(), r.source_id, s7);
    match r.source_id {
        Some(x) => {
            lemma_skip_member(key_s(), key_source_id(), quoted(x), seq![COMMA] + s7);
            assert(s6 =~= member(key_source_id(), quoted(x)) + (seq![COMMA] + s7));
        },
        None => {
            lemma_skip_member(key_s(), key_tmdb_id(), quoted(r.tmdb_id), s8);
            assert(s6 =~= s7);
        },
    }
    lemma_opt_number_member(key_s(), r.season, s6);
    lemma_take_text_member(key_tmdb_id(), r.tmdb_id, s8);
}

/// The canonical JSON text of a document reads back as that document.
pub proof fn lemma_parse_raw_json(r: RawId)
    ensures
        parse_id_json(raw_json(r)) == Some(r),
{
    let s5 = raw_json_tail(r);
    let s4 = seq![COMMA] + s5;
    let s3 = member(key_imdb_id(), quoted(r.imdb_id)) + s4;
    let s2 = seq![COMMA] + s3;
    let s1 = member(key_id_type(), quoted(r.id_type)) + s2;
    let s0 = opt_number_member(key_e(), r.episode) + s1;
    let s = seq![LBRACE] + s0;
    assert(s.drop_first() =~= s0);
    assert(key_id_type() != key_e()) by {
        assert(key_id_type().len() != key_e().len());
    }
    lemma_skip_member(key_e(), key_id_type(), quoted(r.id_type), s2);
    lemma_opt_number_member(key_e(), r.episode, s1);
    lemma_take_text_member(key_id_type(), r.id_type, s2);
    assert(s2.drop_first() =~= s3);
    lemma_take_text_member(key_imdb_id(), r.imdb_id, s4);
    assert(s4.drop_first() =~= s5);
    lemma_parse_tail(r);
}

/// Decoding undoes encoding: a token of a document stands for that document.
pub proof fn lemma_decode_encode(v: MediaIdView, token: Seq<char>)
    requires
        is_token_of(token, v),
    ensures
        id_of_token(token) == Some(v),
{
    broadcast use vstd::utf8::encode_utf8_valid_utf8, vstd::utf8::encode_utf8_decode_utf8;

    lemma_percent_round_trip(id_json(v));
    lemma_parse_raw_json(raw_of(v));
    assert(view_of_raw(raw_of(v)) == v);
}

fn key_bytes(k: u8) -> (r: Vec<u8>)
    requires
        k < 6,
    ensures
        k == 0 ==> r@ == key_e(),
        k == 1 ==> r@ == key_id_type(),
        k == 2 ==> r@ == key_imdb_id(),
        k == 3 ==> r@ == key_s(),
        k == 4 ==> r@ == key_source_id(),
        k == 5 ==> r@ == key_tmdb_id(),
{
    let v: Vec<u8> = if k == 0 {
        vec![101u8]
    } else if k == 1 {
        vec![105u8, 100u8, 95u8, 116u8, 121u8, 112u8, 101u8]
    } else if k == 2 {
        vec![105u8, 109u8, 100u8, 98u8, 95u8, 105u8, 100u8]
    } else if k == 3 {
        vec![115u8]
    } else if k == 4 {
        vec![115u8, 111u8, 117u8, 114u8, 99u8, 101u8, 95u8, 105u8, 100u8]
    } else {
        vec![116u8, 109u8, 100u8, 98u8, 95u8, 105u8, 100u8]
    };
    assert(k == 0 ==> v@ =~= key_e());
    assert(k == 1 ==> v@ =~= key_id_type());
    assert(k == 2 ==> v@ =~= key_imdb_id());
    assert(k == 3 ==> v@ =~= key_s());
    assert(k == 4 ==> v@ =~= key_source_id());
    assert(k == 5 ==> v@ =~= key_tmdb_id());
    v
}

fn push_text_member(out: &mut Vec<u8>, name: &[u8], value: &[u8])
    ensures
        final(out)@ == old(out)@ + member(name@, quoted(value@)),
{
    push_quoted(out, name);
    out.push(COLON);
    push_quoted(out, value);
    assert(final(out)@ =~= old(out)@ + member(name@, quoted(value@)));
}

fn push_number_member(out: &mut Vec<u8>, name: &[u8], n: usize)
    ensures
        final(out)@ == old(out)@ + member(name@, decimal(n as nat)),
{
    push_quoted(out, name);
    out.push(COLON);
    push_decimal(out, n);
    assert(final(out)@ =~= old(out)@ + member(name@, decimal(n as nat)));
}

fn tail_json(id: &MediaId) -> (r: Vec<u8>)
    ensures
        r@ == raw_json_tail(raw_of(id@)),
{
    let mut out: Vec<u8> = Vec::new();
    if let Some(n) = id.season {
        push_number_member(&mut out, key_bytes(3).as_slice(), n);
        out.push(COMMA);
    }
    let ghost a = out@;
    assert(a =~= opt_number_member(key_s(), id.season));
    if let Some(src) = &id.source_id {
        push_text_member(&mut out, key_bytes(4).as_slice(), src.as_str().as_bytes());
        out.push(COMMA);
    }
    let ghost b = out@;
    assert(b =~= a + opt_text_member(key_source_id(), raw_of(id@).source_id));
    push_text_member(&mut out, key_bytes(5).as_slice(), id.tmdb_id.as_str().as_bytes());
    out.push(RBRACE);
    assert(out@ =~= raw_json_tail(raw_of(id@)));
    out
}

fn text_member_bytes(k: u8, value: &str) -> (r: Vec<u8>)
    requires
        1 <= k <= 2,
    ensures
        k == 1 ==> r@ == member(key_id_type(), quoted(value.spec_bytes())),
        k == 2 ==> r@ == member(key_imdb_id(), quoted(value.spec_bytes())),
{
    let mut out: Vec<u8> = Vec::new();
    push_text_member(&mut out, key_bytes(k).as_slice(), value.as_bytes());
    assert(out@ =~= Seq::<u8>::empty() + out@);
    out
}

/// The canonical JSON text of a document.
pub fn id_json_bytes(id: &MediaId) -> (r: Vec<u8>)
    ensures
        r@ == id_json(id@),
{
    let mut head: Vec<u8> = Vec::new();
    if let Some(n) = id.episode {
        push_number_member(&mut head, key_bytes(0).as_slice(), n);
        head.push(COMMA);
    }
    assert(head@ =~= opt_number_member(key_e(), id.episode));
    let t = text_member_bytes(1, id.id_type.as_str());
    let im = text_member_bytes(2, id.imdb_id.as_str());
    let tail = tail_json(id);
    let mut out: Vec<u8> = vec![LBRACE];
    append_bytes(&mut out, head.as_slice());
    append_bytes(&mut out, t.as_slice());
    out.push(COMMA);
    append_bytes(&mut out, im.as_slice());
    out.push(COMMA);
    append_bytes(&mut out, tail.as_slice());
    assert(out@ =~= seq![LBRACE] + (head@ + (t@ + (seq![COMMA] + (im@ + (seq![COMMA] + tail@))))));
    out
}

/// Writes the token of a document.
pub fn encode_id(id: &MediaId) -> (r: String)
    ensures
        is_token_of(r@, id@),
{
    let json = id_json_bytes(id);
    url_encode_bytes(json.as_slice())
}

/// Relies on `String::from_utf8`: the text of `b` when it is UTF-8.
#[verifier::external_body]
pub(crate) fn string_from_utf8(b: Vec<u8>) -> (r: Option<String>)
    ensures
        r is Some <==> valid_utf8(b@),
        r matches Some(s) ==> s@ == decode_utf8(b@),
{
    String::from_utf8(b).ok()
}

fn same_bytes(a: &[u8], b: &[u8]) -> (r: bool)
    ensures
        r == (a@ == b@),
{
    if a.len() != b.len() {
        return false;
    }
    let mut i: usize = 0;
    while i < a.len()
        invariant
            a@.len() == b@.len(),
            i <= a@.len(),
            a@.take(i as int) == b@.take(i as int),
        decreases a@.len() - i,
    {
        if a[i] != b[i] {
            assert(a@[i as int] != b@[i as int]);
            return false;
        }
        assert(a@.take(i + 1) =~= a@.take(i as int).push(a@[i as int]));
        assert(b@.take(i + 1) =~= b@.take(i as int).push(b@[i as int]));
        i += 1;
    }
    assert(a@ =~= a@.take(i as int));
    assert(b@ =~= b@.take(i as int));
    true
}

fn read_byte(s: &[u8], pos: usize, b: u8) -> (r: Option<usize>)
    requires
        pos <= s@.len(),
    ensures
        match r {
            Some(p) => p <= s@.len() && take_byte(s@.skip(pos as int), b) == Some(s@.skip(p as int)),
            None => take_byte(s@.skip(pos as int), b) is None,
        },
{
    if pos < s.len() && s[pos] == b {
        assert(s@.skip(pos as int).drop_first() =~= s@.skip(pos + 1));
        Some(pos + 1)
    } else {
        None
    }
}

fn read_key(s: &[u8], pos: usize) -> (r: Option<(Vec<u8>, usize)>)
    requires
        pos <= s@.len(),
    ensures
        match r {
            Some((k, p)) => p <= s@.len() && take_key(s@.skip(pos as int)) == Some((k@, s@.skip(p as int))),
            None => take_key(s@.skip(pos as int)) is None,
        },
{
    reveal(take_key);
    match read_string(s, pos) {
        None => None,
        Some((k, p)) => match read_byte(s, p, COLON) {
            None => None,
            Some(at2) => Some((k, at2)),
        },
    }
}

fn read_text_member(s: &[u8], pos: usize, name: &[u8]) -> (r: Option<(Vec<u8>, usize)>)
    requires
        pos <= s@.len(),
    ensures
        match r {
            Some((x, p)) => p <= s@.len() && take_text_member(s@.skip(pos as int), name@) == Some(
                (x@, s@.skip(p as int)),
            ),
            None => take_text_member(s@.skip(pos as int), name@) is None,
        },
{
    reveal(take_text_member);
    match read_key(s, pos) {
        None => None,
        Some((k, p)) => if same_bytes(k.as_slice(), name) {
            read_string(s, p)
        } else {
            None
        },
    }
}

fn read_opt_number_member(s: &[u8], pos: usize, name: &[u8]) -> (r: Option<(Option<usize>, usize)>)
    requires
        pos <= s@.len(),
    ensures
        match r {
            Some((v, p)) => p <= s@.len() && take_opt_number_member(s@.skip(pos as int), name@)
                == Some((v, s@.skip(p as int))),
            None => take_opt_number_member(s@.skip(pos as int), name@) is None,
        },
{
    reveal(take_opt_number_member);
    match read_key(s, pos) {
        None => Some((None, pos)),
        Some((k, p)) => if same_bytes(k.as_slice(), name) {
            match read_number(s, p) {
                None => None,
                Some((n, at2)) => match read_byte(s, at2, COMMA) {
                    None => None,
                    Some(at3) => Some((Some(n), at3)),
                },
            }
        } else {
            Some((None, pos))
        },
    }
}

fn read_opt_text_member(s: &[u8], pos: usize, name: &[u8]) -> (r: Option<(Option<Vec<u8>>, usize)>)
    requires
        pos <= s@.len(),
    ensures
        match r {
            Some((v, p)) => p <= s@.len() && take_opt_text_member(s@.skip(pos as int), name@)
                == Some(
                (
                    match v {
                        Some(x) => Some(x@),
                        None => None,
                    },
                    s@.skip(p as int),
                ),
            ),
            None => take_opt_text_member(s@.skip(pos as int), name@) is None,
        },
{
    reveal(take_opt_text_member);
    match read_key(s, pos) {
        None => Some((None, pos)),
        Some((k, p)) => if same_bytes(k.as_slice(), name) {
            match read_string(s, p) {
                None => None,
                Some((x, at2)) => match read_byte(s, at2, COMMA) {
                    None => None,
                    Some(at3) => Some((Some(x), at3)),
                },
            }
        } else {
            Some((None, pos))
        },
    }
}

fn read_tail(s: &[u8], pos: usize) -> (r: Option<(Option<usize>, Option<Vec<u8>>, Vec<u8>)>)
    requires
        pos <= s@.len(),
    ensures
        match r {
            Some((sn, src, tm)) => parse_id_tail(s@.skip(pos as int)) == Some(
                (
                    sn,
                    match src {
                        Some(x) => Some(x@),
                        None => None,
                    },
                    tm@,
                ),
            ),
            None => parse_id_tail(s@.skip(pos as int)) is None,
        },
{
    match read_opt_number_member(s, pos, key_bytes(3).as_slice()) {
        None => None,
        Some((sn, at6)) => match read_opt_text_member(s, at6, key_bytes(4).as_slice()) {
            None => None,
            Some((src, at7)) => match read_text_member(s, at7, key_bytes(5).as_slice()) {
                None => None,
                Some((tm, at8)) => {
                    if at8 < s.len() && s.len() - at8 == 1 && s[at8] == RBRACE {
                        assert(s@.skip(at8 as int) =~= seq![RBRACE]);
                        Some((sn, src, tm))
                    } else {
                        assert(s@.skip(at8 as int).len() != 1 || s@.skip(at8 as int)[0] != RBRACE);
                        None
                    }
                },
            },
        },
    }
}

/// Reads the token of a document.
pub fn decode_id(token: &str) -> (r: Result<MediaId, DecodeError>)
    ensures
        match r {
            Ok(d) => id_of_token(token@) == Some(d@),
            Err(e) => id_of_token(token@) is None && (e == DecodeError::Malformed <==> parse_id_json(
                token_json(token@),
            ) is None),
        },
{
    let json = url_decode_bytes(token.as_bytes());
    let s = json.as_slice();
    assert(s@ == token_json(token@));
    let at0 = match read_byte(s, 0, LBRACE) {
        None => return Err(DecodeError::Malformed),
        Some(p) => p,
    };
    assert(s@.skip(0) =~= s@);
    let (e, at1) = match read_opt_number_member(s, at0, key_bytes(0).as_slice()) {
        None => return Err(DecodeError::Malformed),
        Some(x) => x,
    };
    let (t, at2) = match read_text_member(s, at1, key_bytes(1).as_slice()) {
        None => return Err(DecodeError::Malformed),
        Some(x) => x,
    };
    let at3 = match read_byte(s, at2, COMMA) {
        None => return Err(DecodeError::Malformed),
        Some(p) => p,
    };
    let (im, at4) = match read_text_member(s, at3, key_bytes(2).as_slice()) {
        None => return Err(DecodeError::Malformed),
        Some(x) => x,
    };
    let at5 = match read_byte(s, at4, COMMA) {
        None => return Err(DecodeError::Malformed),
        Some(p) => p,
    };
    let (sn, src, tm) = match read_tail(s, at5) {
        None => return Err(DecodeError::Malformed),
        Some(x) => x,
    };
    let ghost raw = parse_id_json(s@)->0;
    let id_type = match string_from_utf8(t) {
        None => return Err(DecodeError::NotUtf8),
        Some(x) => x,
    };
    let imdb_id = match string_from_utf8(im) {
        None => return Err(DecodeError::NotUtf8),
        Some(x) => x,
    };
    let tmdb_id = match string_from_utf8(tm) {
        None => return Err(DecodeError::NotUtf8),
        Some(x) => x,
    };
    let source_id = match src {
        None => None,
        Some(x) => match string_from_utf8(x) {
            None => return Err(DecodeError::NotUtf8),
            Some(y) => Some(y),
        },
    };
    let d = MediaId { id_type, imdb_id, tmdb_id, season: sn, episode: e, source_id };
    assert(d@ == view_of_raw(raw));
    Ok(d)
}

} // verus!
