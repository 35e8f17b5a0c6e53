use manga_sources::filters::FilterValue;
use manga_sources::iken::{
    self, has_next_page, home_entry_key, remove_accents, slugify, IkenChapter, Post,
};
use manga_sources::liliana::{
    self, authors_from_label, chapter_id, chapter_title, check_image_list, extract_between,
    find_first_number, listing_url, search_request, sort_name_of, status_from_label, url_host,
    LilianaManga, SearchRequest,
};
use manga_sources::models::{
    entry_title, first_present, DeepLinkResult, HomeComponentValue, Manga,
    MangaStatus, PageContent, Viewer,
};
use manga_sources::numeral::Decimal;
use manga_sources::tcbscans::{self, filter_projects, TcbLink};
use manga_sources::error::Error;
use manga_sources::layout::{home_layout, manga_page, HomeEntryNode, HomeSection, SectionShape};

fn iken_params(api: Option<&str>, use_slug: bool) -> iken::Params {
    iken::Params {
        base_url: "https://hivetoons.org".to_string(),
        api_url: api.map(|a| a.to_string()),
        use_slug_series_keys: use_slug,
        fetch_full_chapter_list: false,
    }
}

fn liliana_params(post: bool) -> liliana::Params {
    liliana::Params { base_url: "https://rawkuro.net".to_string(), uses_post_search: post }
}

#[test]
fn hosts() {
    assert_eq!(url_host("https://rawkuro.net"), "rawkuro.net");
    assert_eq!(url_host("https://manhuaplus.org:8080/path"), "manhuaplus.org");
    assert_eq!(url_host("http://a.b?x#y"), "a.b");
    assert_eq!(url_host("no-scheme"), "no-scheme");
}

#[test]
fn between_markers() {
    assert_eq!(
        extract_between("var a; const CHAPTER_ID = 1234; x", "const CHAPTER_ID = ", ";"),
        Some("1234")
    );
    assert_eq!(extract_between("abc", "x", ";"), None);
    assert_eq!(extract_between("a=1", "a=", ";"), None);
}

#[test]
fn first_numbers() {
    assert_eq!(find_first_number("Chapter 12.5 - End"), Some(Decimal { mantissa: 125, scale: 1 }));
    assert_eq!(find_first_number("Ch. 7."), Some(Decimal { mantissa: 7, scale: 0 }));
    assert_eq!(find_first_number("1.2.3"), Some(Decimal { mantissa: 12, scale: 1 }));
    assert_eq!(find_first_number("no number"), None);
}

#[test]
fn liliana_sort_names() {
    assert_eq!(sort_name_of(0), "default");
    assert_eq!(sort_name_of(2), "views");
    assert_eq!(sort_name_of(11), "old");
    assert_eq!(sort_name_of(12), "default");
}

#[test]
fn liliana_search_requests() {
    match search_request(&liliana_params(true), Some("蛇 x"), 2, &Vec::new()) {
        SearchRequest::Post { url, body } => {
            assert_eq!(url, "https://rawkuro.net/ajax/search");
            assert_eq!(body, "search=%E8%9B%87%20x");
        }
        _ => panic!("the site searches by form"),
    }
    match search_request(&liliana_params(false), Some("abc"), 2, &Vec::new()) {
        SearchRequest::Get { url } => assert_eq!(url, "https://rawkuro.net/search/2/?keyword=abc"),
        _ => panic!("the site searches by page"),
    }
    let some_filter = vec![FilterValue::Select { id: "status".to_string(), value: "1".to_string() }];
    match search_request(&liliana_params(false), Some("蛇 x"), 2, &some_filter) {
        SearchRequest::Get { url } => {
            assert_eq!(url, "https://rawkuro.net/search/2/?keyword=%E8%9B%87%20x")
        }
        _ => panic!("the site searches by page"),
    }
    let filters = vec![
        FilterValue::Sort { id: "sort".to_string(), index: 2, ascending: false },
        FilterValue::MultiSelect {
            id: "genre".to_string(),
            included: vec!["1".to_string(), "2".to_string()],
            excluded: vec!["3".to_string()],
        },
        FilterValue::Text { id: "ignored".to_string(), value: "x".to_string() },
    ];
    match search_request(&liliana_params(false), None, 3, &filters) {
        SearchRequest::Get { url } => assert_eq!(
            url,
            "https://rawkuro.net/filter/3/?sort=views&genres=1%2C2&notGenres=3"
        ),
        _ => panic!("browsing gets a page"),
    }
    match search_request(&liliana_params(false), None, 1, &Vec::new()) {
        SearchRequest::Get { url } => assert_eq!(url, "https://rawkuro.net/filter/1/"),
        _ => panic!("browsing gets a page"),
    }
    assert_eq!(listing_url(&liliana_params(false), "latest", 4), "https://rawkuro.net/latest/4/");
}

#[test]
fn liliana_labels() {
    assert_eq!(status_from_label(Some("Ongoing".to_string())), MangaStatus::Ongoing);
    assert_eq!(status_from_label(Some("HOÀN THÀNH".to_string())), MangaStatus::Completed);
    assert_eq!(status_from_label(Some("On-Hold".to_string())), MangaStatus::Hiatus);
    assert_eq!(status_from_label(Some("キャンセル".to_string())), MangaStatus::Cancelled);
    assert_eq!(status_from_label(None), MangaStatus::Unknown);
    assert_eq!(authors_from_label(Some("updating".to_string())), None);
    assert_eq!(authors_from_label(Some("A".to_string())), Some(vec!["A".to_string()]));
    assert_eq!(chapter_title("Chapter 5 - The End "), Some("The End".to_string()));
    assert_eq!(chapter_title("Chapter 5"), None);
}

#[test]
fn liliana_chapter_pages() {
    let scripts = vec![
        Some("window.x = 1;".to_string()),
        Some("const CHAPTER_ID = 987; const CHAPTER_ID2".to_string()),
    ];
    assert_eq!(chapter_id(&scripts).unwrap(), "987");
    assert!(matches!(chapter_id(&vec![None]), Err(Error::Missing(_))));
    assert!(check_image_list(true, None).is_ok());
    match check_image_list(false, Some("blocked".to_string())) {
        Err(Error::Upstream(m)) => assert_eq!(m, "blocked"),
        _ => panic!("a failed status carries the message"),
    }
}

#[test]
fn liliana_entries() {
    let m = LilianaManga {
        cover: Some("/c.jpg".to_string()),
        name: "T".to_string(),
        url: "https://rawkuro.net/manga/t".to_string(),
    }
    .into_manga("https://rawkuro.net");
    assert_eq!(m.key, "/manga/t");
    assert_eq!(m.cover.as_deref(), Some("https://rawkuro.net/c.jpg"));
}

fn lili_link(url: &str) -> Option<(String, Option<String>)> {
    match liliana::handle_deep_link(&liliana_params(false), url) {
        Some(DeepLinkResult::Manga { key }) => Some((key, None)),
        Some(DeepLinkResult::Chapter { manga_key, key }) => Some((manga_key, Some(key))),
        _ => None,
    }
}

#[test]
fn liliana_links() {
    assert_eq!(
        lili_link("https://rawkuro.net/manga/za-yong-fu/di41-3hua"),
        Some(("/manga/za-yong-fu".to_string(), Some("/manga/za-yong-fu/di41-3hua".to_string())))
    );
    assert_eq!(
        lili_link("https://rawkuro.net/manga/za-yong-fu"),
        Some(("/manga/za-yong-fu".to_string(), None))
    );
    assert_eq!(
        lili_link("https://rawkuro.net/manga/za-yong-fu/"),
        Some(("/manga/za-yong-fu/".to_string(), None))
    );
    assert_eq!(lili_link("https://rawkuro.net/genre/action"), None);
    assert_eq!(lili_link("https://other.net/manga/za-yong-fu"), None);
}

#[test]
fn accents_and_slugs() {
    assert_eq!(remove_accents('é'), Some('e'));
    assert_eq!(remove_accents('ñ'), Some('n'));
    assert_eq!(remove_accents('x'), None);
    assert_eq!(slugify("  él Niño -- Más Fuerte! "), "el-nino-mas-fuerte");
    assert_eq!(slugify("Él"), "l");
    assert_eq!(slugify("It's a Title-"), "it's-a-title");
    assert_eq!(slugify(""), "");
}

#[test]
fn iken_urls() {
    let p = iken_params(Some("https://api.eternalmangas.com"), false);
    assert_eq!(p.get_api_url(), "https://api.eternalmangas.com");
    let filters = vec![
        FilterValue::Select { id: "type".to_string(), value: "MANGA".to_string() },
        FilterValue::MultiSelect {
            id: "g".to_string(),
            included: vec!["1".to_string(), "2".to_string()],
            excluded: Vec::new(),
        },
    ];
    assert_eq!(
        iken::search_url(&p, Some(" one piece "), 2, &filters),
        "https://api.eternalmangas.com/api/query?page=2&perPage=18&searchTerm=one%20piece&tag=latestUpdate&isNovel=false"
    );
    assert_eq!(
        iken::search_url(&p, None, 2, &filters),
        "https://api.eternalmangas.com/api/query?page=2&perPage=18&tag=latestUpdate&isNovel=false&type=MANGA&genreIds=1%2C2"
    );
    let q = iken_params(None, false);
    assert_eq!(q.get_api_url(), "https://hivetoons.org");
    assert_eq!(iken::search_url(&q, None, 1, &Vec::new()), "https://hivetoons.org/api/query?page=1&perPage=18");
    assert_eq!(iken::post_url(&q, "/series/true-education"), "https://hivetoons.org/api/post?postSlug=true-education");
    assert_eq!(iken::post_url(&q, "42"), "https://hivetoons.org/api/post?postId=42");
    assert_eq!(
        iken::post_url(&iken_params(None, true), "true-education"),
        "https://hivetoons.org/api/post?postSlug=true-education"
    );
    assert_eq!(iken::chapters_url(&q, 42), "https://hivetoons.org/api/chapters?postId=42");
    assert_eq!(iken::chapter_url(&q, "42", "7"), "https://hivetoons.org/api/chapter?postId=42&chapterId=7");
    assert!(has_next_page(37, 2));
    assert!(!has_next_page(36, 2));
    assert!(!has_next_page(0, i32::MAX));
}

#[test]
fn iken_posts() {
    let chapter = IkenChapter {
        id: 7,
        slug: "chapter-199".to_string(),
        number: Decimal { mantissa: 199, scale: 0 },
        title: Some(String::new()),
        created_by: Some("Team".to_string()),
        created_at: "2024-01-01T00:00:00Z".to_string(),
        is_locked: None,
        is_time_locked: Some(true),
    };
    let post = Post {
        id: 42,
        slug: "true-education".to_string(),
        post_title: "True Education".to_string(),
        description: Some("  text  ".to_string()),
        featured_image: None,
        author: Some(String::new()),
        artist: Some("Artist".to_string()),
        series_type: Some("MANHWA".to_string()),
        series_status: Some("ONE_SHOT".to_string()),
        genres: Some(vec!["Action".to_string()]),
        chapters: Some(vec![chapter]),
    };
    let m = post.parse_manga(&iken_params(None, false));
    assert_eq!(m.key, "42");
    assert_eq!(m.authors, None);
    assert_eq!(m.artists, Some(vec!["Artist".to_string()]));
    assert_eq!(m.description.as_deref(), Some("text"));
    assert_eq!(m.url.as_deref(), Some("https://hivetoons.org/series/true-education"));
    assert_eq!(m.status, MangaStatus::Completed);
    assert_eq!(m.viewer, Viewer::Webtoon);
    assert_eq!(post.parse_basic_manga(&iken_params(None, true)).key, "true-education");
    let cs = post.chapters("https://hivetoons.org");
    assert_eq!(cs.len(), 1);
    assert_eq!(cs[0].key, "7");
    assert_eq!(cs[0].title, None);
    assert_eq!(cs[0].date_uploaded, Some(1_704_067_200));
    assert_eq!(cs[0].scanlators, Some(vec!["Team".to_string()]));
    assert_eq!(cs[0].url.as_deref(), Some("https://hivetoons.org/series/true-education/chapter-199"));
    assert!(cs[0].locked);
}

#[test]
fn iken_links() {
    let p = iken::Params {
        base_url: "https://hivetoons.org/".to_string(),
        api_url: None,
        use_slug_series_keys: true,
        fetch_full_chapter_list: false,
    };
    let key = |url: &str| match iken::handle_deep_link(&p, url) {
        Some(DeepLinkResult::Manga { key }) => Some(key),
        _ => None,
    };
    assert_eq!(key("https://hivetoons.org/series/true-education/chapter-199"), Some("series/true-education".to_string()));
    assert_eq!(key("https://hivetoons.org/series/true-education"), Some("series/true-education".to_string()));
    assert_eq!(key("https://hivetoons.org/about"), None);
    assert_eq!(key("https://other.org/series/x"), None);
    assert_eq!(home_entry_key(&p, Some("https://hivetoons.org/series/x".to_string()), "X"), "series/x");
    assert_eq!(home_entry_key(&p, None, "él Niño"), "/series/el-nino");
}

#[test]
fn tcb_search_and_links() {
    let projects = vec![
        Manga::new("/mangas/5/one-piece".to_string(), "One Piece".to_string()),
        Manga::new("/mangas/6/jjk".to_string(), "Jujutsu Kaisen".to_string()),
    ];
    let found = filter_projects(projects.clone(), Some("PIECE"));
    assert_eq!(found.len(), 1);
    assert_eq!(found[0].key, "/mangas/5/one-piece");
    assert_eq!(filter_projects(projects, None).len(), 2);
    assert_eq!(
        tcbscans::chapter_number("One Piece Chapter 1153"),
        Some(Decimal { mantissa: 1153, scale: 0 })
    );
    assert_eq!(tcbscans::chapter_number("Single"), None);
    match tcbscans::handle_deep_link("https://tcbonepiecechapters.com/mangas/5/one-piece") {
        TcbLink::Done(Some(DeepLinkResult::Manga { key })) => assert_eq!(key, "/mangas/5/one-piece"),
        _ => panic!("expected a series"),
    }
    match tcbscans::handle_deep_link("https://tcbonepiecechapters.com/chapters/7868/x") {
        TcbLink::FetchChapter { path } => assert_eq!(path, "/chapters/7868/x"),
        _ => panic!("a chapter link needs its page"),
    }
    assert!(matches!(tcbscans::handle_deep_link("https://other.com/mangas/5"), TcbLink::Done(None)));
    match tcbscans::chapter_link("/chapters/1/x", Some("/mangas/5/one-piece".to_string())) {
        Ok(DeepLinkResult::Chapter { manga_key, key }) => {
            assert_eq!(manga_key, "/mangas/5/one-piece");
            assert_eq!(key, "/chapters/1/x");
        }
        _ => panic!("expected a chapter"),
    }
    assert!(matches!(tcbscans::chapter_link("/chapters/1/x", None), Err(Error::Missing(_))));
}

#[test]
fn indexed_pages_in_order() {
    let pages = liliana::pages_by_index(vec![
        (3, "c".to_string()),
        (1, "a".to_string()),
        (2, "b1".to_string()),
        (2, "b2".to_string()),
    ]);
    let urls: Vec<String> = pages
        .into_iter()
        .map(|p| match p.content {
            PageContent::Url(u) => u,
            _ => panic!("image pages"),
        })
        .collect();
    assert_eq!(urls, vec!["a", "b1", "b2", "c"]);
    assert!(liliana::pages_by_index(Vec::new()).is_empty());
}

#[test]
fn iken_chapter_pages() {
    let text = iken::chapter_pages(&Some("<p>x</p>".to_string()), Some("x".to_string()), &None).unwrap();
    assert_eq!(text.len(), 1);
    assert!(matches!(&text[0].content, PageContent::Text(t) if t == "x"));
    assert!(matches!(
        iken::chapter_pages(&Some("<p>x</p>".to_string()), None, &None),
        Err(Error::Invalid(_))
    ));
    let images = iken::chapter_pages(
        &Some(String::new()),
        None,
        &Some(vec!["https://a/1.jpg".to_string(), "https://a/2.jpg".to_string()]),
    )
    .unwrap();
    assert_eq!(images.len(), 2);
    assert!(matches!(&images[0].content, PageContent::Url(u) if u == "https://a/1.jpg"));
    assert!(iken::chapter_pages(&None, None, &None).unwrap().is_empty());
}

#[test]
fn field_chains() {
    assert_eq!(
        first_present(&vec![None, Some("lazy".to_string()), Some("src".to_string())]),
        Some("lazy".to_string())
    );
    assert_eq!(first_present(&vec![None, None]), None);
    assert_eq!(entry_title(&Some("H".to_string()), &Some("T".to_string())), "H");
    assert_eq!(entry_title(&None, &Some("T".to_string())), "T");
    assert_eq!(entry_title(&None, &None), "");
}

#[test]
fn liliana_chapters_and_details() {
    assert_eq!(liliana::referer("https://rawkuro.net"), "https://rawkuro.net/");
    assert_eq!(liliana::parse_integer("1718000000"), Some(1_718_000_000));
    assert_eq!(liliana::parse_integer("-5"), Some(-5));
    assert_eq!(liliana::parse_integer("+7"), Some(7));
    assert_eq!(liliana::parse_integer("-9223372036854775808"), Some(i64::MIN));
    assert_eq!(liliana::parse_integer("9223372036854775808"), None);
    assert_eq!(liliana::parse_integer("12a"), None);
    assert_eq!(liliana::parse_integer("-"), None);
    let c = liliana::chapter_from_link(
        "https://rawkuro.net",
        "https://rawkuro.net/manga/x/di41-3hua".to_string(),
        "Chapter 41.5 - Reunion",
        Some("1718000000".to_string()),
    );
    assert_eq!(c.key, "/manga/x/di41-3hua");
    assert_eq!(c.title.as_deref(), Some("Reunion"));
    assert_eq!(c.chapter_number, Some(Decimal { mantissa: 415, scale: 1 }));
    assert_eq!(c.date_uploaded, Some(1_718_000_000));
    let old = Manga::new("/manga/x".to_string(), "Old".to_string());
    let page = liliana::DetailsPage {
        title: None,
        cover: Some("https://rawkuro.net/c.jpg".to_string()),
        author_label: Some("updating".to_string()),
        description: Some("Synopsis".to_string()),
        tags: Some(vec!["Action".to_string()]),
        status_label: Some("Completed".to_string()),
    };
    let m = liliana::with_details(old, page, "https://rawkuro.net/manga/x".to_string());
    assert_eq!(m.title, "Old");
    assert_eq!(m.authors, None);
    assert_eq!(m.status, MangaStatus::Completed);
    assert_eq!(m.url.as_deref(), Some("https://rawkuro.net/manga/x"));
}

#[test]
fn tcb_details_and_chapters() {
    let m = tcbscans::with_details(
        Manga::new("/mangas/5/one-piece".to_string(), "One Piece".to_string()),
        None,
        None,
        Some("Pirates".to_string()),
        "https://tcbonepiecechapters.com/mangas/5/one-piece".to_string(),
    );
    assert_eq!(m.title, "One Piece");
    assert_eq!(m.content_rating, manga_sources::models::ContentRating::Safe);
    assert_eq!(m.viewer, Viewer::RightToLeft);
    let c = tcbscans::chapter_from_card(
        "/chapters/7868/one-piece-chapter-1153".to_string(),
        Some("Title".to_string()),
        Some("One Piece Chapter 1153".to_string()),
    );
    assert_eq!(c.chapter_number, Some(Decimal { mantissa: 1153, scale: 0 }));
    assert_eq!(c.scanlators, Some(vec!["TCB Scans".to_string()]));
    assert_eq!(
        c.url.as_deref(),
        Some("https://tcbonepiecechapters.com/chapters/7868/one-piece-chapter-1153")
    );
}

#[test]
fn site_configurations() {
    let p = manga_sources::sites::pro_manga();
    assert_eq!(p.base_url, "https://promanga.net");
    assert!(p.api_url.is_none() && p.use_slug_series_keys && p.fetch_full_chapter_list);
    assert_eq!(manga_sources::sites::hive_scans().get_api_url(), "https://api.hivetoons.org");
    assert!(manga_sources::sites::manga_sect().uses_post_search);
    assert_eq!(manga_sources::sites::doc_truyen5s().base_url, "https://dongmoe.com");
}

#[test]
fn iken_search_page() {
    let post = |id: i32, slug: &str| Post {
        id,
        slug: slug.to_string(),
        post_title: slug.to_uppercase(),
        description: None,
        featured_image: None,
        author: None,
        artist: None,
        series_type: None,
        series_status: None,
        genres: None,
        chapters: None,
    };
    let posts = vec![post(1, "a"), post(2, "b")];
    let page = iken::search_page(&iken_params(None, false), &posts, 19, 1);
    assert_eq!(page.entries.len(), 2);
    assert_eq!(page.entries[1].key, "2");
    assert_eq!(page.entries[1].title, "B");
    assert!(page.has_next_page);
    assert!(!iken::search_page(&iken_params(None, true), &posts, 18, 1).has_next_page);
}

fn node(href: Option<&str>, heading: Option<&str>, link_title: Option<&str>, covers: Vec<Option<&str>>) -> HomeEntryNode {
    HomeEntryNode {
        href: href.map(|h| h.to_string()),
        heading: heading.map(|h| h.to_string()),
        link_title: link_title.map(|h| h.to_string()),
        covers: covers.into_iter().map(|c| c.map(|c| c.to_string())).collect(),
        description: None,
        tags: None,
    }
}

fn section(shape: SectionShape, heading: Option<&str>, tab: Option<Option<&str>>, entries: Vec<HomeEntryNode>) -> HomeSection {
    HomeSection {
        shape,
        heading: heading.map(|h| h.to_string()),
        tab_label: tab.map(|l| l.map(|l| l.to_string())),
        entries,
        auto_scroll_interval: Some(5),
    }
}

#[test]
fn home_layout_sections() {
    let base = "https://rawkuro.net";
    let sections = vec![
        section(SectionShape::Hero, Some("Hot"), None, vec![node(None, Some("x"), None, vec![])]),
        section(
            SectionShape::Hero,
            Some("Featured"),
            None,
            vec![node(Some("https://rawkuro.net/manga/a"), Some("A"), None, vec![None, Some("lazy.jpg")])],
        ),
        section(
            SectionShape::Scroller,
            Some("Feed"),
            Some(Some("Latest")),
            vec![
                node(Some("/manga/b"), None, Some("B title"), vec![]),
                node(None, Some("dropped"), None, vec![]),
                node(Some("https://rawkuro.net/manga/c"), None, None, vec![Some("c.jpg")]),
            ],
        ),
        section(SectionShape::Ranked, Some("Top"), None, vec![]),
    ];
    let layout = home_layout(base, &sections);
    assert_eq!(layout.components.len(), 3);
    let hero = &layout.components[0];
    assert_eq!(hero.title.as_deref(), Some("Featured"));
    match &hero.value {
        HomeComponentValue::BigScroller { entries, auto_scroll_interval } => {
            assert_eq!(entries.len(), 1);
            assert_eq!(entries[0].key, "/manga/a");
            assert_eq!(entries[0].title, "A");
            assert_eq!(entries[0].cover.as_deref(), Some("lazy.jpg"));
            assert_eq!(*auto_scroll_interval, Some(5));
        }
        _ => panic!("a hero is a big scroller"),
    }
    let tab = &layout.components[1];
    assert_eq!(tab.title.as_deref(), Some("Latest"));
    match &tab.value {
        HomeComponentValue::Scroller { entries, .. } => {
            assert_eq!(entries.len(), 2);
            assert_eq!(entries[0].key, "/manga/b");
            assert_eq!(entries[0].title, "B title");
            assert_eq!(entries[1].key, "/manga/c");
            assert_eq!(entries[1].title, "");
        }
        _ => panic!("a scroller"),
    }
    match &layout.components[2].value {
        HomeComponentValue::MangaList { ranking, entries, .. } => {
            assert!(*ranking);
            assert!(entries.is_empty());
        }
        _ => panic!("a ranked list"),
    }
    let page = manga_page(base, &sections[2].entries, true);
    assert_eq!(page.entries.len(), 2);
    assert!(page.has_next_page);
}
