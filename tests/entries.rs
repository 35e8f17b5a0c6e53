use manga_sources::entries::{content_rating, manga_from_obj, manga_with_chapter_from_obj, MangaObj};
use manga_sources::html::{
    CategoryPage, ChapterImages, ChapterPage, DetailsPage, Element, FiltersPage, HomePage,
    MangaPage, ScriptsPage, TryElement,
};
use manga_sources::json::chapter_list::{self, ListItem};
use manga_sources::json::daily_update::{self, PcPagi};
use manga_sources::json::home::{self, Data};
use manga_sources::json::{manga_page_result, random};
use manga_sources::error::Error;
use manga_sources::models::{ContentRating, HomeComponentValue, MangaStatus, PageContent};
use manga_sources::numeral::Decimal;

fn obj(id: u32, title: &str) -> MangaObj {
    MangaObj {
        id,
        title: title.to_string(),
        lanmu_id: None,
        image: None,
        auther: None,
        desc: None,
        mhstatus: None,
        keyword: None,
        last_chapter_title: None,
    }
}

fn strings(v: &[&str]) -> Vec<String> {
    v.iter().map(|s| s.to_string()).collect()
}

#[test]
fn manga_31164() {
    let titles = [
        (2639178, "第12話", 1_750_567_096),
        (2638676, "第11話", 1_750_225_251),
        (2638572, "第10話", 1_750_141_870),
        (2638571, "第09話", 1_750_141_826),
        (2637978, "第08話", 1_749_621_830),
        (2637904, "第07話", 1_749_537_750),
        (2637677, "第06話", 1_749_272_604),
        (2637676, "第03-05話", 1_749_272_596),
        (2637675, "第01-02話", 1_749_272_587),
    ];
    let list: Vec<ListItem> = titles
        .iter()
        .map(|(id, title, time)| ListItem {
            id: *id,
            title: title.to_string(),
            date_uploaded: Some(*time),
        })
        .collect();
    let chapters = chapter_list::Root { list }.chapters();
    assert_eq!(chapters.len(), 9);
    let last = chapters.last().unwrap();
    assert_eq!(last.key, "2639178");
    assert_eq!(last.title, None);
    assert_eq!(last.chapter_number, Some(Decimal { mantissa: 12, scale: 0 }));
    assert_eq!(last.volume_number, None);
    assert_eq!(last.date_uploaded, Some(1_750_567_096));
    assert_eq!(last.url.as_deref(), Some("https://boylove.cc/home/book/capter/id/2639178"));
    let first = chapters.first().unwrap();
    assert_eq!(first.key, "2637675");
    assert_eq!(first.title.as_deref(), Some("第01-02話"));
    assert_eq!(first.chapter_number, Some(Decimal { mantissa: 1, scale: 0 }));
    assert_eq!(first.date_uploaded, Some(1_749_272_587));
    assert_eq!(first.url.as_deref(), Some("https://boylove.cc/home/book/capter/id/2637675"));
}

#[test]
fn entry_fields() {
    let mut o = obj(16904, "標題");
    o.image = Some("/bookimages/a.webp".to_string());
    o.auther = Some(" 甲 ,乙&丙/ / ".to_string());
    o.desc = Some("  第一行\r\n第二行\n第三行  ".to_string());
    o.mhstatus = Some(1);
    o.keyword = Some("韩漫,,清水,".to_string());
    let m = manga_from_obj(&o).unwrap();
    assert_eq!(m.key, "16904");
    assert_eq!(m.title, "標題");
    assert_eq!(m.cover.as_deref(), Some("https://boylove.cc/bookimages/a.webp"));
    assert_eq!(m.authors, Some(strings(&["甲", "乙", "丙"])));
    assert_eq!(m.description.as_deref(), Some("第一行  \n第二行  \n第三行"));
    assert_eq!(m.url.as_deref(), Some("https://boylove.cc/home/book/index/id/16904"));
    assert_eq!(m.tags, Some(strings(&["韩漫", "清水"])));
    assert_eq!(m.status, MangaStatus::Completed);
    assert_eq!(m.content_rating, ContentRating::Safe);
}

#[test]
fn absolute_cover_kept() {
    let mut o = obj(1, "t");
    o.image = Some("https://cdn.example/a.webp".to_string());
    o.mhstatus = Some(0);
    let m = manga_from_obj(&o).unwrap();
    assert_eq!(m.cover.as_deref(), Some("https://cdn.example/a.webp"));
    assert_eq!(m.status, MangaStatus::Ongoing);
    assert_eq!(m.content_rating, ContentRating::NSFW);
    assert_eq!(m.tags, None);
}

#[test]
fn restrictive_without_safe_tag() {
    assert_eq!(content_rating(&None), ContentRating::NSFW);
    assert_eq!(content_rating(&Some(Vec::new())), ContentRating::NSFW);
    assert_eq!(content_rating(&Some(strings(&["韩漫", "清水x"]))), ContentRating::NSFW);
    assert_eq!(content_rating(&Some(strings(&["韩漫", "清水"]))), ContentRating::Safe);
}

#[test]
fn announcements_left_out() {
    let mut column = obj(1, "a");
    column.lanmu_id = Some(5);
    assert!(manga_from_obj(&column).is_none());
    let mut tagged = obj(2, "b");
    tagged.keyword = Some("公告,香香公告".to_string());
    assert!(manga_from_obj(&tagged).is_none());
    let page = manga_page_result::Root {
        result: manga_page_result::PageResult {
            list: vec![column, obj(3, "c"), tagged],
            last_page: true,
        },
    }
    .into_page();
    assert_eq!(page.entries.len(), 1);
    assert_eq!(page.entries[0].key, "3");
    assert!(!page.has_next_page);
}

#[test]
fn pagination_signals() {
    let daily = daily_update::Root {
        result: vec![obj(1, "a")],
        pc_pagi: PcPagi { page_dump: 1, page_end: 3 },
    };
    assert!(daily.into_page().has_next_page);
    assert!(!PcPagi { page_dump: 3, page_end: 3 }.has_next_page());
    let feed = random::Root { data: Vec::new() };
    let page = feed.into_page();
    assert!(page.entries.is_empty());
    assert!(page.has_next_page);
}

#[test]
fn latest_chapter_of_entry() {
    let mut o = obj(9, "t");
    o.last_chapter_title = Some(" 第2卷 第10話 重逢 ".to_string());
    let mc = manga_with_chapter_from_obj(&o).unwrap();
    assert_eq!(mc.manga.key, "9");
    assert_eq!(mc.chapter.volume_number, Some(Decimal { mantissa: 2, scale: 0 }));
    assert_eq!(mc.chapter.chapter_number, Some(Decimal { mantissa: 10, scale: 0 }));
    assert_eq!(mc.chapter.title.as_deref(), Some("重逢"));
}

#[test]
fn home_sections() {
    let root = home::Root {
        data: vec![
            Data { data: vec![obj(1, "a")], title: "最新更新".to_string(), name: "newest".to_string() },
            Data { data: Vec::new(), title: "文章".to_string(), name: "article".to_string() },
            Data { data: Vec::new(), title: "猜你喜歡".to_string(), name: "cnxh".to_string() },
            Data { data: Vec::new(), title: "其他".to_string(), name: "other".to_string() },
        ],
    };
    let layout = root.into_layout();
    assert_eq!(layout.components.len(), 3);
    assert_eq!(layout.components[0].title.as_deref(), Some("最新更新"));
    match &layout.components[0].value {
        HomeComponentValue::MangaChapterList { page_size, entries, listing } => {
            assert_eq!(*page_size, Some(2));
            assert_eq!(entries.len(), 1);
            let l = listing.as_ref().unwrap();
            assert_eq!((l.id.as_str(), l.name.as_str()), ("11", "最新"));
        }
        _ => panic!("home sections are chapter lists"),
    }
    match &layout.components[1].value {
        HomeComponentValue::MangaChapterList { listing, .. } => {
            let l = listing.as_ref().unwrap();
            assert_eq!((l.id.as_str(), l.name.as_str()), ("", "猜你喜歡"));
        }
        _ => panic!("home sections are chapter lists"),
    }
    match &layout.components[2].value {
        HomeComponentValue::MangaChapterList { listing, .. } => assert!(listing.is_none()),
        _ => panic!("home sections are chapter lists"),
    }
}

#[test]
fn tag_filter_options() {
    let page = CategoryPage {
        tag_values: vec![
            Some("0".to_string()),
            Some("日漫".to_string()),
            None,
            Some("待分類".to_string()),
            Some("待分类".to_string()),
            Some("韩漫".to_string()),
        ],
    };
    let f = page.tags_filter();
    assert_eq!(f.id, "標籤");
    assert_eq!(f.options, strings(&["日漫", "韩漫"]));
    assert!(f.is_genre && f.uses_tag_style);
}

#[test]
fn home_data_from_script() {
    let page = ScriptsPage {
        scripts: vec![
            None,
            Some("var x = 1;".to_string()),
            Some(r#"let data = JSON.parse("{\"data\":[{\"title\":\"a\\\\b\",\"name\":\"it\'s\"}]}");"#.to_string()),
        ],
    };
    assert_eq!(
        page.home_data_json().unwrap(),
        r#"{"data":[{"title":"a\\b","name":"it's"}]}"#
    );
    let none = ScriptsPage { scripts: vec![Some("var x = 1;".to_string())] };
    assert!(matches!(none.home_data_json(), Err(Error::Missing(_))));
    let unclosed = ScriptsPage { scripts: vec![Some("let data = JSON.parse(\"{}".to_string())] };
    assert!(matches!(unclosed.home_data_json(), Err(Error::Missing(_))));
}

#[test]
fn chapter_images() {
    let page = ChapterImages {
        sources: Some(vec![Some("https://a/1.webp".to_string()), Some("https://a/2.webp".to_string())]),
    };
    let pages = page.pages().unwrap();
    assert_eq!(pages.len(), 2);
    assert!(matches!(&pages[1].content, PageContent::Url(u) if u == "https://a/2.webp"));
    let broken = ChapterImages { sources: Some(vec![Some("x".to_string()), None]) };
    match broken.pages() {
        Err(Error::Missing(m)) => assert_eq!(m, "Attribute not found: `abs:data-original`"),
        _ => panic!("an image without address must fail"),
    }
    assert!(matches!(ChapterImages { sources: None }.pages(), Err(Error::Missing(_))));
}

#[test]
fn element_attributes() {
    let e = Element {
        attributes: vec![
            ("class".to_string(), "back".to_string()),
            ("href".to_string(), "/home/book/index/id/1".to_string()),
            ("href".to_string(), "second".to_string()),
        ],
    };
    assert_eq!(e.try_attr("href").unwrap(), "/home/book/index/id/1");
    match e.try_attr("src") {
        Err(Error::Missing(m)) => assert_eq!(m, "Attribute not found: `src`"),
        _ => panic!("a missing attribute must fail"),
    }
}

#[test]
fn details_page() {
    let page = DetailsPage {
        canonical_url: Some("https://boylove.cc/home/book/index/id/16904".to_string()),
        title: Some("標題".to_string()),
        cover: Some("https://boylove.cc/c.webp".to_string()),
        authors: Some(strings(&["甲"])),
        description_html: Some(" 第一行 <br /> 第二行<br />第三行 </span><p>x</p>".to_string()),
        tags: Some(strings(&["", "清水", "韩漫"])),
        status_label: Some("連載中".to_string()),
    };
    let m = page.manga_details().unwrap();
    assert_eq!(m.key, "16904");
    assert_eq!(m.title, "標題");
    assert_eq!(m.description.as_deref(), Some("第一行  \n第二行  \n第三行"));
    assert_eq!(m.tags, Some(strings(&["清水", "韩漫"])));
    assert_eq!(m.status, MangaStatus::Ongoing);
    assert_eq!(m.content_rating, ContentRating::Safe);
    let mut untitled = page.clone();
    untitled.title = None;
    assert!(matches!(untitled.manga_details(), Err(Error::Missing(_))));
    let mut no_link = page.clone();
    no_link.canonical_url = None;
    assert!(matches!(no_link.manga_details(), Err(Error::Missing(_))));
    let mut no_slash = page;
    no_slash.canonical_url = Some("nolink".to_string());
    assert!(matches!(no_slash.manga_details(), Err(Error::Invalid(_))));
}
