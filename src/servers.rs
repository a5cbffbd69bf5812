//! Server enumeration: one server token per configured provider, each the
//! episode document stamped with that provider's tag.
use crate::ident::{
    decode_id, encode_id, id_of_token, is_token_of, lemma_decode_encode, DecodeError, MediaId,
    MediaIdView,
};
use vstd::prelude::*;

verus! {

/// How a provider's streams are resolved.
#[derive(Debug, Clone, Copy, PartialEq, Eq, Structural)]
pub enum StreamVariant {
    /// Secrets read from the site's script bundle, and an encrypted, signed request.
    SignedPayload,
    /// A plain query that answers with the stream directly.
    DirectAjax,
}

/// A provider that servers can be resolved through.
pub struct Provider {
    /// The tag stamped into server tokens as `source_id`.
    pub tag: String,
    /// The name shown for its server.
    pub title: String,
    /// The provider's own site, `scheme://host`.
    pub origin: String,
    pub variant: StreamVariant,
}

/// One playable server of an episode.
pub struct ServerEntry {
    pub index: usize,
    /// The server token.
    pub id: String,
    pub title: String,
    pub verify_url: Option<String>,
}

/// The document `v` bound to the provider `tag`.
pub open spec fn stamped(v: MediaIdView, tag: Seq<char>) -> MediaIdView {
    MediaIdView { source_id: Some(tag), ..v }
}

/// Whether `entries` are the servers of the document `v` for `providers`, in order.
pub open spec fn servers_of(v: MediaIdView, providers: Seq<Provider>, entries: Seq<ServerEntry>) -> bool {
    &&& entries.len() == providers.len()
    &&& forall|i: int|
        0 <= i < entries.len() ==> {
            &&& (#[trigger] entries[i]).index == i
            &&& entries[i].title@ == providers[i].title@
            &&& entries[i].verify_url is None
            &&& is_token_of(entries[i].id@, stamped(v, providers[i].tag@))
        }
}

/// The providers that are enabled by default.
pub fn default_providers() -> (r: Vec<Provider>)
    ensures
        r@.len() == 1,
        r@[0].tag@ == seq!['s', 'f', 'l', 'i', 'x', '2'],
        r@[0].title@ == seq!['S', 'F', 'l', 'i', 'x', '2'],
        r@[0].origin@ == "https://ww2.moviesapi.to"@,
        r@[0].variant == StreamVariant::SignedPayload,
{
    let tag = String::from_str("sflix2");
    let title = String::from_str("SFlix2");
    proof {
        reveal_strlit("sflix2");
        reveal_strlit("SFlix2");
        assert("sflix2"@ =~= seq!['s', 'f', 'l', 'i', 'x', '2']);
        assert("SFlix2"@ =~= seq!['S', 'F', 'l', 'i', 'x', '2']);
    }
    let origin = String::from_str("https://ww2.moviesapi.to");
    vec![Provider { tag, title, origin, variant: StreamVariant::SignedPayload }]
}

/// The index of the first provider tagged `tag`.
pub open spec fn provider_index(providers: Seq<Provider>, tag: Seq<char>) -> Option<int>
    decreases providers.len(),
{
    if providers.len() == 0 {
        None
    } else {
        match provider_index(providers.drop_last(), tag) {
            Some(i) => Some(i),
            None => if providers.last().tag@ == tag {
                Some(providers.len() - 1)
            } else {
                None
            },
        }
    }
}

/// Finds the provider that a server token's tag names: the first one with that tag.
pub fn find_provider(providers: &Vec<Provider>, tag: &String) -> (r: Option<usize>)
    ensures
        match provider_index(providers@, tag@) {
            Some(i) => r == Some(i as usize),
            None => r is None,
        },
{
    let mut i: usize = 0;
    while i < providers.len()
        invariant
            i <= providers@.len(),
            provider_index(providers@.take(i as int), tag@) is None,
        decreases providers@.len() - i,
    {
        assert(providers@.take(i + 1).drop_last() =~= providers@.take(i as int));
        if providers[i].tag == *tag {
            proof { lemma_provider_index_prefix(providers@, tag@, i + 1); }
            return Some(i);
        }
        i += 1;
    }
    assert(providers@.take(i as int) =~= providers@);
    None
}

/// A provider found in a prefix is found at the same place in the whole list.
pub proof fn lemma_provider_index_prefix(providers: Seq<Provider>, tag: Seq<char>, n: int)
    requires
        0 <= n <= providers.len(),
        provider_index(providers.take(n), tag) is Some,
    ensures
        provider_index(providers, tag) == provider_index(providers.take(n), tag),
    decreases providers.len() - n,
{
    if n < providers.len() {
        assert(providers.take(n + 1).drop_last() =~= providers.take(n));
        lemma_provider_index_prefix(providers, tag, n + 1);
    } else {
        assert(providers.take(n) =~= providers);
    }
}

fn clone_string(s: &String) -> (r: String)
    ensures
        r@ == s@,
{
    s.clone()
}

/// The document `id` bound to the provider `tag`.
pub fn with_source(id: &MediaId, tag: &String) -> (r: MediaId)
    ensures
        r@ == stamped(id@, tag@),
{
    MediaId {
        id_type: clone_string(&id.id_type),
        imdb_id: clone_string(&id.imdb_id),
        tmdb_id: clone_string(&id.tmdb_id),
        season: id.season,
        episode: id.episode,
        source_id: Some(clone_string(tag)),
    }
}

/// Lists the servers of an episode token, one per provider in the order given.
pub fn enumerate_servers(episode_id: &str, providers: &Vec<Provider>) -> (r: Result<
    Vec<ServerEntry>,
    DecodeError,
>)
    ensures
        r is Ok <==> id_of_token(episode_id@) is Some,
        r matches Ok(entries) ==> servers_of(id_of_token(episode_id@)->0, providers@, entries@),
{
    let id = match decode_id(episode_id) {
        Ok(d) => d,
        Err(e) => return Err(e),
    };
    let mut entries: Vec<ServerEntry> = Vec::new();
    let mut i: usize = 0;
    while i < providers.len()
        invariant
            i <= providers@.len(),
            id_of_token(episode_id@) == Some(id@),
            servers_of(id@, providers@.take(i as int), entries@),
        decreases providers@.len() - i,
    {
        let p = &providers[i];
        let stamped_id = with_source(&id, &p.tag);
        let entry = ServerEntry {
            index: i,
            id: encode_id(&stamped_id),
            title: clone_string(&p.title),
            verify_url: None,
        };
        entries.push(entry);
        i += 1;
        assert(servers_of(id@, providers@.take(i as int), entries@)) by {
            assert forall|j: int| 0 <= j < entries@.len() implies {
                &&& (#[trigger] entries@[j]).index == j
                &&& entries@[j].title@ == providers@.take(i as int)[j].title@
                &&& entries@[j].verify_url is None
                &&& is_token_of(entries@[j].id@, stamped(id@, providers@.take(i as int)[j].tag@))
            } by {
                if j < i - 1 {
                    assert(providers@.take(i as int)[j] == providers@.take(i - 1)[j]);
                }
            }
        }
    }
    assert(providers@.take(providers@.len() as int) =~= providers@);
    Ok(entries)
}

/// Every server token stands for the episode document with the provider's tag
/// added: all fields of the episode are kept.
pub proof fn lemma_server_id_extends_episode(
    v: MediaIdView,
    providers: Seq<Provider>,
    entries: Seq<ServerEntry>,
    i: int,
)
    requires
        servers_of(v, providers, entries),
        0 <= i < entries.len(),
    ensures
        id_of_token(entries[i].id@) matches Some(d) && d.id_type == v.id_type && d.imdb_id
            == v.imdb_id && d.tmdb_id == v.tmdb_id && d.season == v.season && d.episode
            == v.episode && d.source_id == Some(providers[i].tag@),
{
    lemma_decode_encode(stamped(v, providers[i].tag@), entries[i].id@);
}

/// With at least one provider, an episode has at least one server, listed in
/// provider order.
pub proof fn lemma_servers_nonempty(v: MediaIdView, providers: Seq<Provider>, entries: Seq<ServerEntry>)
    requires
        servers_of(v, providers, entries),
        providers.len() > 0,
    ensures
        entries.len() > 0,
        forall|i: int| 0 <= i < entries.len() ==> (#[trigger] entries[i]).index == i,
{
}

} // verus!
