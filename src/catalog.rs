//! The catalog resolver: cross-reference ids of a title, and its episode list.
use crate::dom::{
    count_matches, match_count, node_view, node_views, row_groups, row_views, select_nodes,
    select_row_groups, selected_nodes, string_views, RowGroup, SelectedNode,
};
use crate::ident::{encode_id, is_token_of, lemma_decode_encode, id_of_token, MediaId, MediaIdView};
use crate::ident::string_from_utf8;
use crate::percent::{percent_decode, url_decode_bytes};
use crate::text::{
    decode_entities, html_unescaped, split, split_bytes, text_of, trim_text, trimmed, views, SLASH,
};
use vstd::prelude::*;
use vstd::utf8::encode_utf8;

verus! {

/// The external catalog ids of a title.
pub struct CrossReference {
    pub imdb_id: String,
    pub tmdb_id: String,
}

/// Why a title could not be resolved.
#[derive(Debug, PartialEq, Eq, Structural)]
pub enum CatalogError {
    /// The IMDB or the TMDB link is absent.
    CrossReferenceNotFound,
    /// An id taken from a link is not UTF-8.
    NotUtf8,
    /// The title path has no kind segment.
    InvalidTitlePath,
    /// The page could not be loaded as HTML.
    PageUnreadable,
}

/// "IMDB"
pub open spec fn imdb_label() -> Seq<char> {
    seq!['I', 'M', 'D', 'B']
}

/// "TMDB"
pub open spec fn tmdb_label() -> Seq<char> {
    seq!['T', 'M', 'D', 'B']
}

/// "tv"
pub open spec fn tv_kind() -> Seq<char> {
    seq!['t', 'v']
}

/// "Full"
pub open spec fn full_title() -> Seq<char> {
    seq!['F', 'u', 'l', 'l']
}

/// "Episode list not found."
pub open spec fn no_list_message() -> Seq<char> {
    seq!['E', 'p', 'i', 's', 'o', 'd', 'e', ' ', 'l', 'i', 's', 't', ' ', 'n', 'o', 't', ' ', 'f', 'o', 'u', 'n', 'd', '.']
}

pub open spec fn href_segments(h: Seq<char>) -> Seq<Seq<u8>> {
    split(encode_utf8(h), SLASH)
}

/// Whether a link labelled IMDB carries an id: it has an `href` of at least
/// two '/'-separated segments.
pub open spec fn gives_imdb(l: (Seq<char>, Option<Seq<char>>)) -> bool {
    trimmed(l.0) == imdb_label() && l.1 is Some && href_segments(l.1->0).len() >= 2
}

/// Whether a link labelled TMDB carries an id: it has an `href`.
pub open spec fn gives_tmdb(l: (Seq<char>, Option<Seq<char>>)) -> bool {
    trimmed(l.0) == tmdb_label() && l.1 is Some
}

/// The IMDB and TMDB id bytes that the links give, a later link of a label
/// overriding an earlier one: the IMDB id is the second-to-last path segment,
/// the TMDB id the last. A labelled link without a usable `href` gives no id.
pub open spec fn scan_links(links: Seq<(Seq<char>, Option<Seq<char>>)>) -> (Seq<u8>, Seq<u8>)
    decreases links.len(),
{
    if links.len() == 0 {
        (seq![], seq![])
    } else {
        let (im, tm) = scan_links(links.drop_last());
        let l = links.last();
        if gives_imdb(l) {
            let p = href_segments(l.1->0);
            (p[p.len() - 2], tm)
        } else if gives_tmdb(l) {
            (im, href_segments(l.1->0).last())
        } else {
            (im, tm)
        }
    }
}

/// The cross-reference that the links give: both ids must be non-empty.
pub open spec fn cross_reference_of(links: Seq<(Seq<char>, Option<Seq<char>>)>) -> Result<(Seq<char>, Seq<char>), CatalogError> {
    let (im, tm) = scan_links(links);
    if im.len() == 0 || tm.len() == 0 {
        Err(CatalogError::CrossReferenceNotFound)
    } else {
        match (text_of(im), text_of(tm)) {
            (Some(a), Some(b)) => Ok((a, b)),
            _ => Err(CatalogError::NotUtf8),
        }
    }
}

/// The index of the last link that gives an IMDB id (when `imdb`), or else a TMDB id.
pub open spec fn last_giving(links: Seq<(Seq<char>, Option<Seq<char>>)>, imdb: bool) -> Option<int>
    decreases links.len(),
{
    if links.len() == 0 {
        None
    } else if (imdb && gives_imdb(links.last())) || (!imdb && gives_tmdb(links.last())) {
        Some(links.len() - 1)
    } else {
        last_giving(links.drop_last(), imdb)
    }
}

/// The index of the last link whose trimmed text is `label`.
pub open spec fn last_labelled(links: Seq<(Seq<char>, Option<Seq<char>>)>, label: Seq<char>) -> Option<int>
    decreases links.len(),
{
    if links.len() == 0 {
        None
    } else if trimmed(links.last().0) == label {
        Some(links.len() - 1)
    } else {
        last_labelled(links.drop_last(), label)
    }
}

/// Every link labelled IMDB or TMDB carries an id.
pub open spec fn links_well_formed(links: Seq<(Seq<char>, Option<Seq<char>>)>) -> bool {
    forall|i: int|
        0 <= i < links.len() ==> {
            &&& (trimmed((#[trigger] links[i]).0) == imdb_label() ==> gives_imdb(links[i]))
            &&& (trimmed(links[i].0) == tmdb_label() ==> gives_tmdb(links[i]))
        }
}

pub proof fn lemma_last_giving_bound(links: Seq<(Seq<char>, Option<Seq<char>>)>, imdb: bool)
    ensures
        last_giving(links, imdb) matches Some(i) ==> 0 <= i < links.len() && (if imdb {
            gives_imdb(links[i])
        } else {
            gives_tmdb(links[i])
        }),
    decreases links.len(),
{
    if links.len() > 0 {
        lemma_last_giving_bound(links.drop_last(), imdb);
        if let Some(i) = last_giving(links.drop_last(), imdb) {
            assert(links.drop_last()[i] == links[i]);
        }
    }
}

/// The IMDB id is the second-to-last segment of the last link that gives one,
/// and the TMDB id the last segment of the last link that gives one; without
/// such a link the id stays empty.
pub proof fn lemma_scan_links_last(links: Seq<(Seq<char>, Option<Seq<char>>)>)
    ensures
        ({
            let (im, tm) = scan_links(links);
            &&& match last_giving(links, true) {
                Some(i) => im == href_segments(links[i].1->0)[href_segments(links[i].1->0).len() - 2],
                None => im.len() == 0,
            }
            &&& match last_giving(links, false) {
                Some(j) => tm == href_segments(links[j].1->0).last(),
                None => tm.len() == 0,
            }
        }),
    decreases links.len(),
{
    if links.len() > 0 {
        let prev = links.drop_last();
        lemma_scan_links_last(prev);
        lemma_last_giving_bound(prev, true);
        lemma_last_giving_bound(prev, false);
        assert(imdb_label() != tmdb_label()) by {
            assert(imdb_label()[0] != tmdb_label()[0]);
        }
        if let Some(i) = last_giving(prev, true) {
            assert(prev[i] == links[i]);
        }
        if let Some(j) = last_giving(prev, false) {
            assert(prev[j] == links[j]);
        }
    }
}

/// A link that gives an id is labelled.
pub proof fn lemma_giving_is_labelled(links: Seq<(Seq<char>, Option<Seq<char>>)>)
    ensures
        last_labelled(links, imdb_label()) is None ==> last_giving(links, true) is None,
        last_labelled(links, tmdb_label()) is None ==> last_giving(links, false) is None,
    decreases links.len(),
{
    if links.len() > 0 {
        lemma_giving_is_labelled(links.drop_last());
    }
}

/// With well-formed links, the links that give ids are the labelled ones.
pub proof fn lemma_well_formed_giving(links: Seq<(Seq<char>, Option<Seq<char>>)>)
    requires
        links_well_formed(links),
    ensures
        last_giving(links, true) == last_labelled(links, imdb_label()),
        last_giving(links, false) == last_labelled(links, tmdb_label()),
    decreases links.len(),
{
    if links.len() > 0 {
        let prev = links.drop_last();
        assert forall|i: int| 0 <= i < prev.len() implies {
            &&& (trimmed((#[trigger] prev[i]).0) == imdb_label() ==> gives_imdb(prev[i]))
            &&& (trimmed(prev[i].0) == tmdb_label() ==> gives_tmdb(prev[i]))
        } by {
            assert(prev[i] == links[i]);
        }
        assert(links[links.len() - 1] == links.last());
        lemma_well_formed_giving(prev);
    }
}

/// Cross-reference parsing: a list of links without an IMDB or without a
/// TMDB label fails with `CrossReferenceNotFound`.
pub proof fn lemma_missing_label_not_found(links: Seq<(Seq<char>, Option<Seq<char>>)>)
    ensures
        last_labelled(links, imdb_label()) is None || last_labelled(links, tmdb_label()) is None
            ==> cross_reference_of(links) == Err::<(Seq<char>, Seq<char>), CatalogError>(
            CatalogError::CrossReferenceNotFound,
        ),
{
    lemma_giving_is_labelled(links);
    lemma_scan_links_last(links);
}

/// Cross-reference parsing: when every labelled link has a usable `href`, the
/// ids are those of the last IMDB and the last TMDB link, when both are
/// non-empty UTF-8.
pub proof fn lemma_cross_reference_of_links(links: Seq<(Seq<char>, Option<Seq<char>>)>)
    requires
        links_well_formed(links),
    ensures
        last_labelled(links, imdb_label()) matches Some(i) ==> last_labelled(links, tmdb_label()) matches Some(j)
            ==> ({
            let si = href_segments(links[i].1->0);
            let im = si[si.len() - 2];
            let tm = href_segments(links[j].1->0).last();
            im.len() > 0 && tm.len() > 0 && text_of(im) is Some && text_of(tm) is Some
                ==> cross_reference_of(links) == Ok::<(Seq<char>, Seq<char>), CatalogError>(
                (text_of(im)->0, text_of(tm)->0),
            )
        }),
{
    lemma_well_formed_giving(links);
    lemma_scan_links_last(links);
}

pub open spec fn xref_result_view(r: Result<CrossReference, CatalogError>) -> Result<(Seq<char>, Seq<char>), CatalogError> {
    match r {
        Ok(x) => Ok((x.imdb_id@, x.tmdb_id@)),
        Err(e) => Err(e),
    }
}

fn label_is(text: &String, label: &str) -> (r: bool)
    ensures
        r == (text@ == label@),
{
    let l = String::from_str(label);
    *text == l
}

/// Reads the cross-reference ids from the links of a title page.
pub fn resolve_cross_reference(links: &Vec<SelectedNode>) -> (r: Result<CrossReference, CatalogError>)
    ensures
        xref_result_view(r) == cross_reference_of(node_views(links@)),
        last_labelled(node_views(links@), imdb_label()) is None || last_labelled(node_views(links@), tmdb_label())
            is None ==> r == Err::<CrossReference, CatalogError>(CatalogError::CrossReferenceNotFound),
{
    proof {
        lemma_missing_label_not_found(node_views(links@));
    }
    let ghost all = node_views(links@);
    let mut im: Vec<u8> = Vec::new();
    let mut tm: Vec<u8> = Vec::new();
    let mut i: usize = 0;
    assert(all.take(0).len() == 0);
    while i < links.len()
        invariant
            i <= links@.len(),
            all == node_views(links@),
            all.len() == links@.len(),
            scan_links(all.take(i as int)) == (im@, tm@),
        decreases links@.len() - i,
    {
        let link = &links[i];
        assert(all.take(i + 1).drop_last() =~= all.take(i as int));
        assert(all.take(i + 1).last() == all[i as int]);
        let label = trim_text(link.text.as_str());
        proof {
            reveal_strlit("IMDB");
            reveal_strlit("TMDB");
            assert("IMDB"@ =~= imdb_label());
            assert("TMDB"@ =~= tmdb_label());
            assert(all[i as int] == node_view(links@[i as int]));
        }
        if label_is(&label, "IMDB") {
            if let Some(h) = &link.attr {
                let parts = split_bytes(h.as_str().as_bytes(), SLASH);
                if parts.len() >= 2 {
                    im = parts[parts.len() - 2].clone();
                    assert(im@ == views(parts@)[parts@.len() - 2]);
                }
            }
        } else if label_is(&label, "TMDB") {
            if let Some(h) = &link.attr {
                let parts = split_bytes(h.as_str().as_bytes(), SLASH);
                tm = parts[parts.len() - 1].clone();
                assert(tm@ == views(parts@)[parts@.len() - 1]);
            }
        }
        i += 1;
    }
    assert(all.take(i as int) =~= all);
    if im.len() == 0 || tm.len() == 0 {
        return Err(CatalogError::CrossReferenceNotFound);
    }
    let imdb_id = match string_from_utf8(im) {
        Some(s) => s,
        None => return Err(CatalogError::NotUtf8),
    };
    let tmdb_id = match string_from_utf8(tm) {
        Some(s) => s,
        None => return Err(CatalogError::NotUtf8),
    };
    Ok(CrossReference { imdb_id, tmdb_id })
}

/// Loads a title page and reads its cross-reference ids from the links block.
pub fn cross_reference_from_html(html: &str) -> (r: Result<CrossReference, CatalogError>)
    ensures
        match selected_nodes(html@, ".SimklTVAboutTabsDetailsLinks a"@, "href"@) {
            Some(links) => xref_result_view(r) == cross_reference_of(links),
            None => r == Err::<CrossReference, CatalogError>(CatalogError::PageUnreadable),
        },
{
    match select_nodes(html, ".SimklTVAboutTabsDetailsLinks a", "href") {
        Some(links) => resolve_cross_reference(&links),
        None => Err(CatalogError::PageUnreadable),
    }
}

/// One episode of a listing.
pub struct Episode {
    pub index: usize,
    /// The episode token.
    pub id: String,
    pub title: String,
}

/// What the episode list page shows: how many episode tabs and detail blocks
/// it has, and its table rows.
pub struct EpisodePage {
    pub episode_tabs: usize,
    pub detail_blocks: usize,
    pub rows: Vec<RowGroup>,
}

/// The episodes of a title, one entry per season, each holding one list of
/// episodes; `message` explains an empty or synthesized list.
pub struct EpisodeListing {
    pub message: String,
    pub data: Vec<Vec<Vec<Episode>>>,
}

/// The episode titles of each row that is no season header and has episodes.
pub open spec fn kept_rows(rows: Seq<(nat, Seq<Seq<char>>)>) -> Seq<Seq<Seq<char>>>
    decreases rows.len(),
{
    if rows.len() == 0 {
        seq![]
    } else {
        let prev = kept_rows(rows.drop_last());
        let r = rows.last();
        if r.0 == 0 && r.1.len() > 0 {
            prev.push(r.1)
        } else {
            prev
        }
    }
}

/// The document of episode `e` of season `s`.
pub open spec fn episode_doc(kind: Seq<char>, im: Seq<char>, tm: Seq<char>, s: int, e: int) -> MediaIdView {
    MediaIdView {
        id_type: kind,
        imdb_id: im,
        tmdb_id: tm,
        season: Some(s as usize),
        episode: Some(e as usize),
        source_id: None,
    }
}

/// The document of a whole title, with no season or episode.
pub open spec fn title_doc(kind: Seq<char>, im: Seq<char>, tm: Seq<char>) -> MediaIdView {
    MediaIdView { id_type: kind, imdb_id: im, tmdb_id: tm, season: None, episode: None, source_id: None }
}

pub open spec fn is_episode(
    ep: Episode,
    k: int,
    j: int,
    raw_title: Seq<char>,
    kind: Seq<char>,
    im: Seq<char>,
    tm: Seq<char>,
) -> bool {
    &&& ep.index == j
    &&& ep.title@ == html_unescaped(raw_title)
    &&& is_token_of(ep.id@, episode_doc(kind, im, tm, k, j))
}

/// Season `k` holds one list: episode `j` of row `k`.
pub open spec fn is_season_listing(
    data: Seq<Vec<Vec<Episode>>>,
    kept: Seq<Seq<Seq<char>>>,
    kind: Seq<char>,
    im: Seq<char>,
    tm: Seq<char>,
) -> bool {
    &&& data.len() == kept.len()
    &&& forall|k: int|
        0 <= k < data.len() ==> {
            &&& (#[trigger] data[k])@.len() == 1
            &&& data[k]@[0]@.len() == kept[k].len()
            &&& forall|j: int|
                0 <= j < kept[k].len() ==> is_episode(
                    #[trigger] data[k]@[0]@[j],
                    k,
                    j,
                    kept[k][j],
                    kind,
                    im,
                    tm,
                )
        }
}

/// The one episode that stands for a whole movie.
pub open spec fn is_full_episode(ep: Episode, kind: Seq<char>, im: Seq<char>, tm: Seq<char>) -> bool {
    &&& ep.index == 0
    &&& ep.title@ == full_title()
    &&& is_token_of(ep.id@, title_doc(kind, im, tm))
}

/// The listing of a title that is not "tv": one synthesized episode.
pub open spec fn is_full_listing(r: EpisodeListing, kind: Seq<char>, im: Seq<char>, tm: Seq<char>) -> bool {
    &&& r.message@ == no_list_message()
    &&& r.data@.len() == 1
    &&& r.data@[0]@.len() == 1
    &&& r.data@[0]@[0]@.len() == 1
    &&& is_full_episode(r.data@[0]@[0]@[0], kind, im, tm)
}

/// What the listing of a title of kind `kind` is, given its page; the page
/// only matters for "tv".
pub open spec fn is_listing_of(
    r: EpisodeListing,
    kind: Seq<char>,
    im: Seq<char>,
    tm: Seq<char>,
    page: EpisodePage,
) -> bool {
    if kind != tv_kind() {
        is_full_listing(r, kind, im, tm)
    } else if page.episode_tabs == 0 {
        &&& r.message@ == no_list_message()
        &&& r.data@.len() == 0
    } else if page.detail_blocks == 0 {
        &&& r.message@.len() == 0
        &&& r.data@.len() == 0
    } else {
        &&& r.message@.len() == 0
        &&& is_season_listing(r.data@, kept_rows(row_views(page.rows@)), kind, im, tm)
    }
}

fn clone_text(s: &String) -> (r: String)
    ensures
        r@ == s@,
{
    s.clone()
}

fn no_list_text() -> (r: String)
    ensures
        r@ == no_list_message(),
{
    let m = String::from_str("Episode list not found.");
    proof {
        reveal_strlit("Episode list not found.");
        assert("Episode list not found."@ =~= no_list_message());
    }
    m
}

fn season_episodes(titles: &Vec<String>, k: usize, kind: &String, xref: &CrossReference) -> (r: Vec<Episode>)
    ensures
        r@.len() == titles@.len(),
        forall|j: int|
            0 <= j < titles@.len() ==> is_episode(
                #[trigger] r@[j],
                k as int,
                j,
                titles@[j]@,
                kind@,
                xref.imdb_id@,
                xref.tmdb_id@,
            ),
{
    let mut eps: Vec<Episode> = Vec::new();
    let mut j: usize = 0;
    while j < titles.len()
        invariant
            j <= titles@.len(),
            eps@.len() == j,
            forall|jj: int|
                0 <= jj < j ==> is_episode(
                    #[trigger] eps@[jj],
                    k as int,
                    jj,
                    titles@[jj]@,
                    kind@,
                    xref.imdb_id@,
                    xref.tmdb_id@,
                ),
        decreases titles@.len() - j,
    {
        let doc = MediaId {
            id_type: clone_text(kind),
            imdb_id: clone_text(&xref.imdb_id),
            tmdb_id: clone_text(&xref.tmdb_id),
            season: Some(k),
            episode: Some(j),
            source_id: None,
        };
        let title = decode_entities(titles[j].as_str());
        eps.push(Episode { index: j, id: encode_id(&doc), title });
        j += 1;
    }
    eps
}

/// Builds the episode listing of a title of kind `kind` from its episode page.
/// A non-"tv" title gets one synthesized episode "Full"; a "tv" title gets one
/// season per table row that is no season header and holds episodes.
pub fn list_episodes(kind: &String, xref: &CrossReference, page: &EpisodePage) -> (r: EpisodeListing)
    ensures
        is_listing_of(r, kind@, xref.imdb_id@, xref.tmdb_id@, *page),
{
    proof {
        reveal_strlit("tv");
        assert("tv"@ =~= tv_kind());
    }
    if !label_is(kind, "tv") {
        let doc = MediaId {
            id_type: clone_text(kind),
            imdb_id: clone_text(&xref.imdb_id),
            tmdb_id: clone_text(&xref.tmdb_id),
            season: None,
            episode: None,
            source_id: None,
        };
        let title = String::from_str("Full");
        proof {
            reveal_strlit("Full");
            assert("Full"@ =~= full_title());
        }
        let ep = Episode { index: 0, id: encode_id(&doc), title };
        return EpisodeListing { message: no_list_text(), data: vec![vec![vec![ep]]] };
    }
    if page.episode_tabs == 0 {
        return EpisodeListing { message: no_list_text(), data: Vec::new() };
    }
    let mut data: Vec<Vec<Vec<Episode>>> = Vec::new();
    if page.detail_blocks == 0 {
        return EpisodeListing { message: String::new(), data };
    }
    let ghost rv = row_views(page.rows@);
    let mut i: usize = 0;
    assert(rv.take(0) =~= Seq::<(nat, Seq<Seq<char>>)>::empty());
    while i < page.rows.len()
        invariant
            i <= page.rows@.len(),
            rv == row_views(page.rows@),
            rv.len() == page.rows@.len(),
            is_season_listing(data@, kept_rows(rv.take(i as int)), kind@, xref.imdb_id@, xref.tmdb_id@),
        decreases page.rows@.len() - i,
    {
        let row = &page.rows[i];
        let ghost prev = kept_rows(rv.take(i as int));
        assert(rv.take(i + 1).drop_last() =~= rv.take(i as int));
        assert(rv.take(i + 1).last() == rv[i as int]);
        assert(rv[i as int].1.len() == row.titles@.len());
        if row.heads == 0 && row.titles.len() > 0 {
            let k = data.len();
            let eps = season_episodes(&row.titles, k, kind, xref);
            let ghost old_data = data@;
            data.push(vec![eps]);
            assert(kept_rows(rv.take(i + 1)) == prev.push(string_views(row.titles@)));
            assert(is_season_listing(data@, prev.push(string_views(row.titles@)), kind@, xref.imdb_id@, xref.tmdb_id@)) by {
                assert forall|kk: int| 0 <= kk < data@.len() implies {
                    &&& (#[trigger] data@[kk])@.len() == 1
                    &&& data@[kk]@[0]@.len() == prev.push(string_views(row.titles@))[kk].len()
                    &&& forall|j: int|
                        0 <= j < prev.push(string_views(row.titles@))[kk].len() ==> is_episode(
                            #[trigger] data@[kk]@[0]@[j],
                            kk,
                            j,
                            prev.push(string_views(row.titles@))[kk][j],
                            kind@,
                            xref.imdb_id@,
                            xref.tmdb_id@,
                        )
                } by {
                    if kk < k {
                        assert(data@[kk] == old_data[kk]);
                    }
                }
            }
        }
        i += 1;
    }
    assert(rv.take(i as int) =~= rv);
    EpisodeListing { message: String::new(), data }
}

/// The kind of a title path ("/tv/..." gives "tv"): its second '/'-separated segment.
pub open spec fn kind_of_path(p: Seq<char>) -> Option<Seq<char>> {
    let parts = split(encode_utf8(p), SLASH);
    if parts.len() >= 2 {
        text_of(parts[1])
    } else {
        None
    }
}

pub open spec fn opt_text_view(r: Option<String>) -> Option<Seq<char>> {
    match r {
        Some(s) => Some(s@),
        None => None,
    }
}

/// The kind segment of a title path.
pub fn title_kind(path: &str) -> (r: Option<String>)
    ensures
        opt_text_view(r) == kind_of_path(path@),
{
    let parts = split_bytes(path.as_bytes(), SLASH);
    if parts.len() < 2 {
        return None;
    }
    let seg = parts[1].clone();
    assert(seg@ == views(parts@)[1]);
    string_from_utf8(seg)
}

/// The title path that a percent-encoded title token stands for.
pub fn decode_title_path(token: &str) -> (r: Option<String>)
    ensures
        opt_text_view(r) == text_of(percent_decode(encode_utf8(token@))),
{
    let bytes = url_decode_bytes(token.as_bytes());
    string_from_utf8(bytes)
}

/// `https://` + host + path.
pub fn title_page_url(host: &str, path: &str) -> (r: String)
    ensures
        r@ == "https://"@ + host@ + path@,
{
    let mut url = String::from_str("https://");
    url.append(host);
    url.append(path);
    url
}

/// `https://` + host + path + `/episodes`.
pub fn episodes_page_url(host: &str, path: &str) -> (r: String)
    ensures
        r@ == "https://"@ + host@ + path@ + "/episodes"@,
{
    let mut url = title_page_url(host, path);
    url.append("/episodes");
    url
}

/// The page that the episode list page shows, as far as the listing reads it.
pub open spec fn page_of_html(html: Seq<char>, page: EpisodePage) -> bool {
    &&& match_count(html, "#InfoTabsEpisodes"@) == Some(page.episode_tabs as nat)
    &&& match_count(html, ".SimklTVEpisodesBlock .SimklTVAboutTabsDetails"@) == Some(page.detail_blocks as nat)
    &&& row_groups(html, "tr"@, ".SimklTVAboutTabsDetailsSeasonHead"@, "td div.goEpisode"@, ".SimklTVEpisodesEpTitle"@)
        == Some(row_views(page.rows@))
}

pub open spec fn html_readable(html: Seq<char>) -> bool {
    &&& match_count(html, "#InfoTabsEpisodes"@) is Some
    &&& match_count(html, ".SimklTVEpisodesBlock .SimklTVAboutTabsDetails"@) is Some
    &&& row_groups(html, "tr"@, ".SimklTVAboutTabsDetailsSeasonHead"@, "td div.goEpisode"@, ".SimklTVEpisodesEpTitle"@) is Some
}

/// Loads the episode list page.
pub fn episode_page_from_html(html: &str) -> (r: Option<EpisodePage>)
    ensures
        r is Some <==> html_readable(html@),
        r matches Some(page) ==> page_of_html(html@, page),
{
    let tabs = match count_matches(html, "#InfoTabsEpisodes") {
        Some(n) => n,
        None => return None,
    };
    let blocks = match count_matches(html, ".SimklTVEpisodesBlock .SimklTVAboutTabsDetails") {
        Some(n) => n,
        None => return None,
    };
    let rows = match select_row_groups(
        html,
        "tr",
        ".SimklTVAboutTabsDetailsSeasonHead",
        "td div.goEpisode",
        ".SimklTVEpisodesEpTitle",
    ) {
        Some(v) => v,
        None => return None,
    };
    Some(EpisodePage { episode_tabs: tabs, detail_blocks: blocks, rows })
}

/// What resolving a title gives before its listing is built: its kind and
/// cross-reference ids, or the first error met. The episode list page is
/// read for "tv" titles only, and must then be present and loadable.
pub open spec fn title_resolution(path: Seq<char>, title_html: Seq<char>, episodes_html: Option<Seq<char>>) -> Result<
    (Seq<char>, Seq<char>, Seq<char>),
    CatalogError,
> {
    match kind_of_path(path) {
        None => Err(CatalogError::InvalidTitlePath),
        Some(kind) => match selected_nodes(title_html, ".SimklTVAboutTabsDetailsLinks a"@, "href"@) {
            None => Err(CatalogError::PageUnreadable),
            Some(links) => match cross_reference_of(links) {
                Err(e) => Err(e),
                Ok((im, tm)) => if kind != tv_kind() {
                    Ok((kind, im, tm))
                } else {
                    match episodes_html {
                        Some(h) => if html_readable(h) {
                            Ok((kind, im, tm))
                        } else {
                            Err(CatalogError::PageUnreadable)
                        },
                        None => Err(CatalogError::PageUnreadable),
                    }
                },
            },
        },
    }
}

pub open spec fn opt_str_view(v: Option<&str>) -> Option<Seq<char>> {
    match v {
        Some(s) => Some(s@),
        None => None,
    }
}

/// Resolves the episode listing of a title from its path, its title page and,
/// for a "tv" title, its episode list page. A title of another kind gets its
/// one synthesized episode whatever `episodes_html` holds.
pub fn resolve_episode_list(path: &str, title_html: &str, episodes_html: Option<&str>) -> (r: Result<EpisodeListing, CatalogError>)
    ensures
        match title_resolution(path@, title_html@, opt_str_view(episodes_html)) {
            Err(e) => r == Err::<EpisodeListing, CatalogError>(e),
            Ok((kind, im, tm)) => r is Ok && if kind != tv_kind() {
                is_full_listing(r->Ok_0, kind, im, tm)
            } else {
                exists|page: EpisodePage|
                    page_of_html(opt_str_view(episodes_html)->0, page) && is_listing_of(r->Ok_0, kind, im, tm, page)
            },
        },
{
    let kind = match title_kind(path) {
        Some(k) => k,
        None => return Err(CatalogError::InvalidTitlePath),
    };
    let xref = match cross_reference_from_html(title_html) {
        Ok(x) => x,
        Err(e) => return Err(e),
    };
    proof {
        reveal_strlit("tv");
        assert("tv"@ =~= tv_kind());
    }
    if !label_is(&kind, "tv") {
        let empty = EpisodePage { episode_tabs: 0, detail_blocks: 0, rows: Vec::new() };
        return Ok(list_episodes(&kind, &xref, &empty));
    }
    let html = match episodes_html {
        Some(h) => h,
        None => return Err(CatalogError::PageUnreadable),
    };
    let page = match episode_page_from_html(html) {
        Some(p) => p,
        None => return Err(CatalogError::PageUnreadable),
    };
    let listing = list_episodes(&kind, &xref, &page);
    assert(page_of_html(html@, page) && is_listing_of(listing, kind@, xref.imdb_id@, xref.tmdb_id@, page));
    Ok(listing)
}

/// The synthesized episode of a movie reads back as the title's document,
/// with neither season nor episode.
pub proof fn lemma_full_episode_has_no_numbers(ep: Episode, kind: Seq<char>, im: Seq<char>, tm: Seq<char>)
    requires
        is_full_episode(ep, kind, im, tm),
    ensures
        id_of_token(ep.id@) == Some(title_doc(kind, im, tm)),
        id_of_token(ep.id@)->0.season is None,
        id_of_token(ep.id@)->0.episode is None,
{
    lemma_decode_encode(title_doc(kind, im, tm), ep.id@);
}

} // verus!
