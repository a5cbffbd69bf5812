use stream_source::catalog::{
    cross_reference_from_html, decode_title_path, episodes_page_url, list_episodes,
    resolve_cross_reference, resolve_episode_list, title_kind, title_page_url, CatalogError,
    CrossReference, EpisodePage,
};
use stream_source::dom::{RowGroup, SelectedNode};
use stream_source::ident::{decode_id, encode_id, MediaId};
use stream_source::servers::{default_providers, enumerate_servers, find_provider, Provider, StreamVariant};
use stream_source::stream::{
    ajax_url, decode_server_id, edge_url, extract_named_secret, extract_secrets, finish_direct,
    finish_signed, page_url, script_bundle_url_from_html, signing_payload_with_salt,
    signing_request_json, Keys, StreamError, TrackInfo,
};

fn anchor(text: &str, href: Option<&str>) -> SelectedNode {
    SelectedNode { text: text.to_string(), attr: href.map(|h| h.to_string()) }
}

fn xref() -> CrossReference {
    CrossReference { imdb_id: "tt0944947".to_string(), tmdb_id: "1399".to_string() }
}

fn movie(tmdb: &str, source: Option<&str>) -> MediaId {
    MediaId {
        id_type: "movie".to_string(),
        imdb_id: "tt0137523".to_string(),
        tmdb_id: tmdb.to_string(),
        season: None,
        episode: None,
        source_id: source.map(|s| s.to_string()),
    }
}

#[test]
fn cross_reference_from_labelled_links() {
    let links = vec![
        anchor("IMDB", Some("https://www.imdb.com/title/tt1234567/")),
        anchor("  Trakt ", Some("https://trakt.tv/shows/x")),
        anchor(" TMDB\n", Some("https://www.themoviedb.org/tv/456")),
    ];
    let x = resolve_cross_reference(&links).unwrap();
    assert_eq!(x.imdb_id, "tt1234567");
    assert_eq!(x.tmdb_id, "456");
}

#[test]
fn cross_reference_missing_label_fails() {
    let only_imdb = vec![anchor("IMDB", Some("https://www.imdb.com/title/tt1/"))];
    assert_eq!(resolve_cross_reference(&only_imdb).err(), Some(CatalogError::CrossReferenceNotFound));
    let only_tmdb = vec![anchor("TMDB", Some("https://www.themoviedb.org/tv/456"))];
    assert_eq!(resolve_cross_reference(&only_tmdb).err(), Some(CatalogError::CrossReferenceNotFound));
    assert_eq!(resolve_cross_reference(&vec![]).err(), Some(CatalogError::CrossReferenceNotFound));
}

#[test]
fn cross_reference_link_without_href_or_path_gives_no_id() {
    let no_href = vec![anchor("IMDB", None)];
    assert_eq!(resolve_cross_reference(&no_href).err(), Some(CatalogError::CrossReferenceNotFound));
    let no_path = vec![anchor("IMDB", Some("tt1")), anchor("TMDB", Some("https://t/tv/5"))];
    assert_eq!(resolve_cross_reference(&no_path).err(), Some(CatalogError::CrossReferenceNotFound));
    let broken_then_good = vec![
        anchor("IMDB", None),
        anchor("TMDB", None),
        anchor("IMDB", Some("https://i/title/tt3/")),
        anchor("TMDB", Some("https://t/tv/5")),
        anchor("IMDB", Some("no-slash")),
    ];
    let x = resolve_cross_reference(&broken_then_good).unwrap();
    assert_eq!(x.imdb_id, "tt3");
    assert_eq!(x.tmdb_id, "5");
}

#[test]
fn cross_reference_from_title_page_html() {
    let html = r#"<html><body><div class="SimklTVAboutTabsDetailsLinks">
        <a href="https://www.imdb.com/title/tt0944947/">IMDB</a>
        <a href="https://www.themoviedb.org/tv/1399">TMDB</a></div></body></html>"#;
    let x = cross_reference_from_html(html).unwrap();
    assert_eq!(x.imdb_id, "tt0944947");
    assert_eq!(x.tmdb_id, "1399");
}

#[test]
fn page_without_episode_list_is_not_a_failure() {
    let page = EpisodePage { episode_tabs: 0, detail_blocks: 0, rows: vec![] };
    let r = list_episodes(&"tv".to_string(), &xref(), &page);
    assert_eq!(r.message, "Episode list not found.");
    assert!(r.data.is_empty());
    let html = "<html><body><p>nothing here</p></body></html>";
    let title_html = r#"<div class="SimklTVAboutTabsDetailsLinks"><a href="/title/tt1/">IMDB</a><a href="/tv/2">TMDB</a></div>"#;
    let listing = resolve_episode_list("/tv/2/x", title_html, Some(html)).unwrap();
    assert_eq!(listing.message, "Episode list not found.");
    assert!(listing.data.is_empty());
}

#[test]
fn movie_yields_one_full_episode() {
    let page = EpisodePage { episode_tabs: 3, detail_blocks: 1, rows: vec![] };
    let r = list_episodes(&"movie".to_string(), &xref(), &page);
    assert_eq!(r.message, "Episode list not found.");
    assert_eq!(r.data.len(), 1);
    assert_eq!(r.data[0].len(), 1);
    assert_eq!(r.data[0][0].len(), 1);
    let ep = &r.data[0][0][0];
    assert_eq!(ep.title, "Full");
    assert_eq!(ep.index, 0);
    let d = decode_id(&ep.id).unwrap();
    assert_eq!(d.id_type, "movie");
    assert_eq!(d.imdb_id, "tt0944947");
    assert_eq!(d.tmdb_id, "1399");
    assert_eq!(d.season, None);
    assert_eq!(d.episode, None);
    assert_eq!(d.source_id, None);
}

#[test]
fn tv_rows_become_seasons() {
    let row = |heads: usize, titles: &[&str]| RowGroup {
        heads,
        titles: titles.iter().map(|t| t.to_string()).collect(),
    };
    let page = EpisodePage {
        episode_tabs: 1,
        detail_blocks: 1,
        rows: vec![
            row(1, &["Season 1"]),
            row(0, &["Pilot", "Tom &amp; Jerry"]),
            row(0, &[]),
            row(1, &[]),
            row(0, &["Finale"]),
        ],
    };
    let r = list_episodes(&"tv".to_string(), &xref(), &page);
    assert_eq!(r.message, "");
    assert_eq!(r.data.len(), 2);
    assert_eq!(r.data[0].len(), 1);
    assert_eq!(r.data[0][0].len(), 2);
    assert_eq!(r.data[0][0][1].title, "Tom & Jerry");
    assert_eq!(r.data[0][0][1].index, 1);
    assert_eq!(r.data[1][0][0].title, "Finale");
    let d = decode_id(&r.data[1][0][0].id).unwrap();
    assert_eq!(d.season, Some(1));
    assert_eq!(d.episode, Some(0));
    assert_eq!(d.id_type, "tv");
    let no_details = EpisodePage { episode_tabs: 1, detail_blocks: 0, rows: page.rows };
    let r = list_episodes(&"tv".to_string(), &xref(), &no_details);
    assert_eq!(r.message, "");
    assert!(r.data.is_empty());
}

#[test]
fn episode_list_from_html_pages() {
    let title_html = r#"<div class="SimklTVAboutTabsDetailsLinks"><a href="https://imdb.com/title/tt9/">IMDB</a><a href="https://tmdb.org/tv/77">TMDB</a></div>"#;
    let episodes_html = r#"<html><body><div id="InfoTabsEpisodes"></div>
        <div class="SimklTVEpisodesBlock"><div class="SimklTVAboutTabsDetails"><table>
        <tr><td class="SimklTVAboutTabsDetailsSeasonHead">Season 1</td></tr>
        <tr><td><div class="goEpisode"><span class="SimklTVEpisodesEpTitle">One</span></div></td>
            <td><div class="goEpisode"><span class="SimklTVEpisodesEpTitle">Two</span></div></td></tr>
        </table></div></div></body></html>"#;
    let listing = resolve_episode_list("/tv/77/show", title_html, Some(episodes_html)).unwrap();
    assert_eq!(listing.data.len(), 1);
    assert_eq!(listing.data[0][0].len(), 2);
    assert_eq!(listing.data[0][0][0].title, "One");
    let d = decode_id(&listing.data[0][0][1].id).unwrap();
    assert_eq!(d.tmdb_id, "77");
    assert_eq!(d.imdb_id, "tt9");
    assert_eq!(d.episode, Some(1));
    assert_eq!(resolve_episode_list("tv", title_html, Some(episodes_html)).err(), Some(CatalogError::InvalidTitlePath));
    assert_eq!(resolve_episode_list("/tv/1", "<p></p>", Some(episodes_html)).err(), Some(CatalogError::CrossReferenceNotFound));
    assert_eq!(resolve_episode_list("/tv/77/show", title_html, None).err(), Some(CatalogError::PageUnreadable));
}

#[test]
fn title_paths_and_urls() {
    assert_eq!(title_kind("/tv/1399/game-of-thrones"), Some("tv".to_string()));
    assert_eq!(title_kind("/movie"), Some("movie".to_string()));
    assert_eq!(title_kind("movie"), None);
    assert_eq!(decode_title_path("%2Ftv%2F1399%2Fg%C3%A9"), Some("/tv/1399/gé".to_string()));
    assert_eq!(decode_title_path("%FF"), None);
    assert_eq!(title_page_url("simkl.com", "/tv/1"), "https://simkl.com/tv/1");
    assert_eq!(episodes_page_url("simkl.com", "/tv/1"), "https://simkl.com/tv/1/episodes");
}

#[test]
fn servers_stamp_the_provider_tag() {
    let ep = MediaId {
        id_type: "tv".to_string(),
        imdb_id: "tt0944947".to_string(),
        tmdb_id: "1399".to_string(),
        season: Some(0),
        episode: Some(4),
        source_id: None,
    };
    let token = encode_id(&ep);
    let servers = enumerate_servers(&token, &default_providers()).unwrap();
    assert_eq!(servers.len(), 1);
    assert_eq!(servers[0].index, 0);
    assert_eq!(servers[0].title, "SFlix2");
    assert!(servers[0].verify_url.is_none());
    let d = decode_id(&servers[0].id).unwrap();
    assert_eq!(d.id_type, "tv");
    assert_eq!(d.imdb_id, "tt0944947");
    assert_eq!(d.tmdb_id, "1399");
    assert_eq!(d.season, Some(0));
    assert_eq!(d.episode, Some(4));
    assert_eq!(d.source_id, Some("sflix2".to_string()));
    let two = vec![
        Provider {
            tag: "a".to_string(),
            title: "A".to_string(),
            origin: "https://a.example".to_string(),
            variant: StreamVariant::SignedPayload,
        },
        Provider {
            tag: "b".to_string(),
            title: "B".to_string(),
            origin: "https://b.example".to_string(),
            variant: StreamVariant::DirectAjax,
        },
    ];
    assert_eq!(find_provider(&two, &"b".to_string()), Some(1));
    assert_eq!(find_provider(&two, &"c".to_string()), None);
    assert_eq!(find_provider(&default_providers(), &"sflix2".to_string()), Some(0));
    let servers = enumerate_servers(&token, &two).unwrap();
    assert_eq!(servers.len(), 2);
    assert_eq!(servers[1].index, 1);
    assert_eq!(decode_id(&servers[1].id).unwrap().source_id, Some("b".to_string()));
    assert!(enumerate_servers("%7B", &two).is_err());
}

#[test]
fn provider_page_urls_are_one_based() {
    let mut ep = movie("1399", Some("sflix2"));
    ep.id_type = "tv".to_string();
    ep.season = Some(0);
    ep.episode = Some(9);
    assert_eq!(page_url("https://ww2.moviesapi.to", &ep), "https://ww2.moviesapi.to/tv/1399/1/10");
    assert_eq!(page_url("https://ww2.moviesapi.to", &movie("550", None)), "https://ww2.moviesapi.to/movie/550");
    assert_eq!(ajax_url("https://p.example", &ep), "https://p.example/ajax-tv.php?tmdb=1399&season=1&episode=10");
}

#[test]
fn direct_provider_movie_scenario() {
    let url = ajax_url("https://p.example", &movie("550", None));
    assert!(url.ends_with("/ajax.php?tmdb=550"));
    let r = finish_direct("https://cdn.example/x.m3u8".to_string(), vec![]).unwrap();
    assert_eq!(r.config.host, "cdn.example");
    assert_eq!(r.data.sources.len(), 1);
    assert_eq!(r.data.sources[0].file, "https://cdn.example/x.m3u8");
    assert_eq!(r.data.sources[0]._type, "hls");
    assert!(r.data.tracks.is_empty());
    assert_eq!(r.config.playlist_base_url, "https://cdn.example");
    assert_eq!(r.config.referer, "https://cdn.example/");
    assert_eq!(r.config.origin, "https://cdn.example");
    assert_eq!(finish_direct("not a url".to_string(), vec![]).err(), Some(StreamError::InvalidStreamUrl));
}

#[test]
fn secrets_are_read_from_the_script_bundle() {
    let script = r#"const c={SCRAPIFY_URL: "https://x.example/api",ENCRYPTION_KEY:"k3y",PLAYER_API_KEY:   "pk"};"#;
    let k = extract_secrets(script);
    assert_eq!(k.scrapify_url, "https://x.example/api");
    assert_eq!(k.encryption_key, "k3y");
    assert_eq!(k.player_api_key, "pk");
    assert_eq!(extract_named_secret("nothing", "ENCRYPTION_KEY"), "");
}

#[test]
fn script_bundle_is_the_last_module_script() {
    let html = r#"<html><head><script src="/a.js"></script><script type="module" src="/assets/one.js"></script>
        <script type="module" src="/assets/index-abc.js"></script><script type="module">inline()</script></head></html>"#;
    let u = script_bundle_url_from_html("https://ww2.moviesapi.to", html).unwrap();
    assert_eq!(u, "https://ww2.moviesapi.to/assets/index-abc.js");
    let none = script_bundle_url_from_html("https://ww2.moviesapi.to", "<script src=\"/a.js\"></script>");
    assert_eq!(none.err(), Some(StreamError::ScriptNotFound));
}

#[test]
fn signing_request_and_payload() {
    let m = movie("550", Some("sflix2"));
    let body = String::from_utf8(signing_request_json(&m)).unwrap();
    assert_eq!(body, r#"{"source":"sflix2","id":"550","type":"movie","season":null,"episode":null,"srv":"0"}"#);
    let mut ep = m;
    ep.season = Some(1);
    ep.episode = Some(2);
    let body = String::from_utf8(signing_request_json(&ep)).unwrap();
    assert_eq!(body, r#"{"source":"sflix2","id":"550","type":"tv","season":2,"episode":3,"srv":"0"}"#);
    let keys = Keys { scrapify_url: String::new(), encryption_key: "secret".to_string(), player_api_key: String::new() };
    let p = signing_payload_with_salt(&movie("550", Some("sflix2")), &keys, &[1, 2, 3, 4, 5, 6, 7, 8]);
    assert_eq!(
        p,
        "U2FsdGVkX18BAgMEBQYHCIY9HjTodPPEN5RQG02aTCh1Eme5oGO0f0p2UIr1QtWY7zbNYW/5C3L9PrMl75xDqB8StPB0E9mTye+HSc+aCaR04MdcHjMTfTTTVHaTSPwp9noHtVvLlI/5pnbRRh6SQg=="
    );
}

#[test]
fn signed_provider_rehosts_under_the_edge_domain() {
    assert_eq!(
        edge_url("ax.1hd.su", "https://cdn.example/hls/x.m3u8?t=1").unwrap(),
        "https://ax.1hd.su/cdn.example/hls/x.m3u8"
    );
    let tracks = vec![TrackInfo {
        file: "https://cdn.example/en.vtt".to_string(),
        label: Some("English".to_string()),
        kind: String::new(),
        default: Some(true),
    }];
    let r = finish_signed("ax.1hd.su", "https://cdn.example/hls/x.m3u8", &tracks).unwrap();
    assert_eq!(r.config.host, "ax.1hd.su");
    assert_eq!(r.config.segment_base_url, "https://ax.1hd.su");
    assert_eq!(r.config.referer, "https://ax.1hd.su/");
    assert_eq!(r.config.origin, "https://ax.1hd.su");
    assert_eq!(r.data.sources[0].file, "https://ax.1hd.su/cdn.example/hls/x.m3u8");
    assert_eq!(r.data.tracks[0].kind, "subtitles");
    assert_eq!(r.data.tracks[0].label, Some("English".to_string()));
    assert_eq!(r.data.tracks[0].default, Some(true));
    assert_eq!(edge_url("e", "::").err(), Some(StreamError::InvalidStreamUrl));
}

#[test]
fn server_tokens_must_name_a_provider() {
    let t = encode_id(&movie("550", None));
    assert_eq!(decode_server_id(&t).err(), Some(StreamError::MissingSource));
    let t = encode_id(&movie("550", Some("sflix2")));
    assert_eq!(decode_server_id(&t).unwrap().source_id, Some("sflix2".to_string()));
    let mut big = movie("550", Some("sflix2"));
    big.season = Some(usize::MAX);
    big.episode = Some(0);
    assert_eq!(decode_server_id(&encode_id(&big)).err(), Some(StreamError::IndexOverflow));
    assert!(matches!(decode_server_id("%7B"), Err(StreamError::Decode(_))));
}

#[test]
fn movie_listing_does_not_read_the_episode_page() {
    let title_html = r#"<div class="SimklTVAboutTabsDetailsLinks"><a href="https://imdb.com/title/tt0137523/">IMDB</a><a href="https://tmdb.org/movie/550">TMDB</a></div>"#;
    let with_page = resolve_episode_list("/movie/550/fight-club", title_html, Some("<html><div id=\"InfoTabsEpisodes\"></div></html>")).unwrap();
    let without_page = resolve_episode_list("/movie/550/fight-club", title_html, None).unwrap();
    for listing in [with_page, without_page] {
        assert_eq!(listing.message, "Episode list not found.");
        assert_eq!(listing.data.len(), 1);
        assert_eq!(listing.data[0][0].len(), 1);
        assert_eq!(listing.data[0][0][0].title, "Full");
        let d = decode_id(&listing.data[0][0][0].id).unwrap();
        assert_eq!(d.tmdb_id, "550");
        assert_eq!(d.imdb_id, "tt0137523");
        assert_eq!(d.season, None);
    }
}

#[test]
fn labels_are_trimmed_of_unicode_white_space_only() {
    let links = vec![
        anchor("\u{a0}\u{3000}IMDB\t", Some("https://www.imdb.com/title/tt7/")),
        anchor("\u{2009}TMDB\u{2028}", Some("https://www.themoviedb.org/tv/8")),
    ];
    let x = resolve_cross_reference(&links).unwrap();
    assert_eq!(x.imdb_id, "tt7");
    assert_eq!(x.tmdb_id, "8");
    let other = vec![
        anchor("IMDb", Some("https://www.imdb.com/title/tt7/")),
        anchor("TMDB", Some("https://www.themoviedb.org/tv/8")),
    ];
    assert_eq!(resolve_cross_reference(&other).err(), Some(CatalogError::CrossReferenceNotFound));
    let later_wins = vec![
        anchor("IMDB", Some("https://a/title/tt1/")),
        anchor("TMDB", Some("https://b/tv/1")),
        anchor("IMDB", Some("https://a/title/tt2/")),
        anchor("TMDB", Some("https://b/tv/2")),
    ];
    let x = resolve_cross_reference(&later_wins).unwrap();
    assert_eq!(x.imdb_id, "tt2");
    assert_eq!(x.tmdb_id, "2");
}
