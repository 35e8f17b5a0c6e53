use manga_sources::boylove::{
    chapter_link, handle_deep_link, handle_web_login, is_charset_notification, listing_route, Feed,
    LinkStep,
};
use manga_sources::error::Error;
use manga_sources::models::{DeepLinkResult, Listing};
use manga_sources::signing::DayOfWeek;
use manga_sources::update::{merge_details, plan_update, with_chapters, UpdateStep};
use manga_sources::models::{Chapter, Manga};

fn done(url: &str) -> Option<DeepLinkResult> {
    match handle_deep_link(url, 0).unwrap() {
        LinkStep::Done(r) => r,
        LinkStep::FetchChapter { .. } => panic!("not a chapter link"),
    }
}

fn listing_of(r: Option<DeepLinkResult>) -> (String, String) {
    match r {
        Some(DeepLinkResult::Listing(l)) => (l.id, l.name),
        _ => panic!("expected a listing"),
    }
}

#[test]
fn series_link() {
    match done("https://boylove.cc/home/book/index/id/16904") {
        Some(DeepLinkResult::Manga { key }) => assert_eq!(key, "16904"),
        _ => panic!("expected a series"),
    }
}

#[test]
fn chapter_link_needs_page() {
    match handle_deep_link("https://boylove.cc/home/book/capter/id/2639178", 0).unwrap() {
        LinkStep::FetchChapter { key } => assert_eq!(key, "2639178"),
        _ => panic!("a chapter link needs its page"),
    }
    match chapter_link("2639178", Some("/home/book/index/id/31164".to_string())).unwrap() {
        DeepLinkResult::Chapter { manga_key, key } => {
            assert_eq!(manga_key, "31164");
            assert_eq!(key, "2639178");
        }
        _ => panic!("expected a chapter"),
    }
    assert!(matches!(chapter_link("1", None), Err(Error::Missing(_))));
    assert!(matches!(chapter_link("1", Some("31164".to_string())), Err(Error::Invalid(_))));
}

#[test]
fn daily_links() {
    assert_eq!(
        listing_of(done("https://boylove.cc/home/index/dailyupdate1/weekday/11")),
        ("11".to_string(), "最新".to_string())
    );
    assert_eq!(
        listing_of(done("https://boylove.cc/home/index/dailyupdate1/weekday/6")),
        ("6".to_string(), "週日".to_string())
    );
    assert!(done("https://boylove.cc/home/index/dailyupdate1/weekday/7").is_none());
    assert_eq!(
        listing_of(done("https://boylove.cc/home/index/dailyupdate1")),
        ("3".to_string(), "週四".to_string())
    );
}

#[test]
fn today_at_site() {
    let d = DayOfWeek::today(0).unwrap();
    assert_eq!((d.as_id(), d.as_name()), ("3", "週四"));
    let d = DayOfWeek::today(1_750_567_096).unwrap();
    assert_eq!((d.as_id(), d.as_name()), ("6", "週日"));
    assert!(matches!(DayOfWeek::today(i64::MAX), Err(Error::Invalid(_))));
}

#[test]
fn page_links() {
    assert_eq!(
        listing_of(done("https://boylove.cc/home/index/pages/w/recommend.html")),
        ("recommend".to_string(), "無碼專區".to_string())
    );
    assert_eq!(
        listing_of(done("https://boylove.cc/home/index/pages/w/topestmh")),
        ("topestmh".to_string(), "排行榜".to_string())
    );
}

#[test]
fn unknown_and_foreign_links() {
    assert!(done("https://boylove.cc/home/user/login").is_none());
    assert!(done("https://boylove.cc/home/book/index/id").is_none());
    assert!(done("https://example.com/home/book/index/id/16904").is_none());
    assert!(done("not a link").is_none());
}

fn listing(id: &str, name: &str) -> Listing {
    Listing { id: id.to_string(), name: name.to_string() }
}

#[test]
fn listing_routes() {
    let (feed, url) = listing_route(&listing("0", "週一"), 2).unwrap();
    assert_eq!(feed, Feed::DailyUpdate);
    assert_eq!(
        url.to_string(),
        "https://boylove.cc/home/Api/getDailyUpdate.html?widx=0&limit=18&page=1&lastpage=0"
    );
    let (feed, url) = listing_route(&listing("topestmh", "排行榜"), 1).unwrap();
    assert_eq!(feed, Feed::Paged);
    assert_eq!(url.to_string(), "https://boylove.cc/home/api/getpage/tp/1-topestmh-0");
    let (feed, _) = listing_route(&listing("", "猜你喜歡"), 3).unwrap();
    assert_eq!(feed, Feed::Random);
    match listing_route(&listing("x", "未知"), 1) {
        Err(Error::Invalid(m)) => assert_eq!(m, "Invalid listing name: `未知`"),
        _ => panic!("an unknown listing must fail"),
    }
}

#[test]
fn web_login() {
    assert_eq!(handle_web_login("login", true).unwrap(), true);
    assert_eq!(handle_web_login("login", false).unwrap(), false);
    match handle_web_login("other", true) {
        Err(Error::Invalid(m)) => assert_eq!(m, "Invalid login key: `other`"),
        _ => panic!("an unknown key must fail"),
    }
    assert!(is_charset_notification("updatedCharset"));
    assert!(!is_charset_notification("other"));
}

#[test]
fn one_partial_result_before_chapters() {
    let both = plan_update(true, true);
    assert_eq!(
        both,
        vec![UpdateStep::FetchDetails, UpdateStep::SendPartial, UpdateStep::FetchChapters, UpdateStep::Finish]
    );
    assert_eq!(both.iter().filter(|s| **s == UpdateStep::SendPartial).count(), 1);
    let details = plan_update(true, false);
    assert_eq!(details, vec![UpdateStep::FetchDetails, UpdateStep::Finish]);
    assert_eq!(plan_update(false, true), vec![UpdateStep::FetchChapters, UpdateStep::Finish]);
}

#[test]
fn details_keep_chapters() {
    let mut current = Manga::new("1".to_string(), "old".to_string());
    current.chapters = Some(vec![Chapter::new("c".to_string())]);
    let details = Manga::new("1".to_string(), "new".to_string());
    let merged = merge_details(current, details);
    assert_eq!(merged.title, "new");
    assert_eq!(merged.chapters.as_ref().map(|c| c.len()), Some(1));
    let updated = with_chapters(merged, Vec::new());
    assert_eq!(updated.chapters.map(|c| c.len()), Some(0));
}
