use manga_sources::error::Error;
use manga_sources::filters::FilterValue;
use manga_sources::route::{change_charset, Api, Charset, OffsetPage, Sort, Url};

fn select(id: &str, value: &str) -> FilterValue {
    FilterValue::Select { id: id.to_string(), value: value.to_string() }
}

fn tags(values: &[&str]) -> FilterValue {
    FilterValue::MultiSelect {
        id: "標籤".to_string(),
        included: values.iter().map(|v| v.to_string()).collect(),
        excluded: Vec::new(),
    }
}

fn url_of(query: Option<&str>, page: i32, filters: Vec<FilterValue>) -> String {
    Url::from_query_or_filters(query, page, &filters).unwrap().to_string()
}

#[test]
fn change_charset_to_traditional() {
    assert_eq!(
        Url::ChangeCharset(Charset::Traditional).to_string(),
        "https://boylove.cc/home/user/toT.html"
    );
}

#[test]
fn change_charset_to_simplified() {
    assert_eq!(
        Url::ChangeCharset(Charset::Simplified).to_string(),
        "https://boylove.cc/home/user/toS.html"
    );
}

#[test]
fn charset_setting() {
    assert_eq!(
        change_charset(Some(true)).unwrap().to_string(),
        "https://boylove.cc/home/user/toT.html"
    );
    assert!(matches!(Charset::from_settings(Some(false)), Ok(Charset::Simplified)));
    match Charset::from_settings(None) {
        Err(Error::Missing(m)) => {
            assert_eq!(m, "Default does not exist for key: `isTraditionalChinese`")
        }
        _ => panic!("a missing setting must fail"),
    }
}

#[test]
fn filters_page() {
    assert_eq!(Url::FiltersPage.to_string(), "https://boylove.cc/home/book/cate.html");
}

#[test]
fn from_filters_default() {
    assert_eq!(url_of(None, 1, vec![]), "https://boylove.cc/home/api/cate/tp/1-0-2-1-1-0-1-2");
}

#[test]
fn from_filters_basic_ongoing_safe_manga_2() {
    let filters = vec![
        select("閱覽權限", "0"),
        select("連載狀態", "0"),
        select("內容分級", "1"),
        tags(&["日漫"]),
    ];
    assert_eq!(
        url_of(None, 2, filters),
        "https://boylove.cc/home/api/cate/tp/1-%E6%97%A5%E6%BC%AB-0-1-2-1-1-0"
    );
}

#[test]
fn from_filters_vip_completed_nsfw_manhwa_h_3() {
    let filters = vec![
        select("閱覽權限", "1"),
        select("連載狀態", "1"),
        select("內容分級", "2"),
        tags(&["韩漫", "高H"]),
    ];
    assert_eq!(
        url_of(None, 3, filters),
        "https://boylove.cc/home/api/cate/tp/1-%E9%9F%A9%E6%BC%AB+%E9%AB%98H-1-1-3-2-1-1"
    );
}

#[test]
fn from_filters_author() {
    let filters = vec![FilterValue::Text { id: "author".to_string(), value: "소조금".to_string() }];
    assert_eq!(
        url_of(None, 1, filters),
        "https://boylove.cc/home/api/searchk?keyword=%EC%86%8C%EC%A1%B0%EA%B8%88&type=1&pageNo=1"
    );
}

#[test]
fn from_filters_tag() {
    assert_eq!(
        url_of(None, 1, vec![select("genre", "韩漫")]),
        "https://boylove.cc/home/api/searchk?keyword=%E9%9F%A9%E6%BC%AB&type=1&pageNo=1"
    );
}

#[test]
fn from_filters_red_1() {
    assert_eq!(
        url_of(Some("紅"), 1, vec![]),
        "https://boylove.cc/home/api/searchk?keyword=%E7%B4%85&type=1&pageNo=1"
    );
}

#[test]
fn from_filters_snake_2() {
    assert_eq!(
        url_of(Some("蛇"), 2, vec![]),
        "https://boylove.cc/home/api/searchk?keyword=%E8%9B%87&type=1&pageNo=2"
    );
}

#[test]
fn query_wins_over_filters() {
    let filters = vec![select("連載狀態", "1"), select("unknown", "x")];
    assert_eq!(
        url_of(Some("蛇"), 2, filters),
        "https://boylove.cc/home/api/searchk?keyword=%E8%9B%87&type=1&pageNo=2"
    );
}

#[test]
fn genre_select_ends_the_filters() {
    let filters = vec![select("genre", "韩漫"), select("unknown", "x")];
    assert_eq!(
        url_of(None, 1, filters),
        "https://boylove.cc/home/api/searchk?keyword=%E9%9F%A9%E6%BC%AB&type=1&pageNo=1"
    );
}

#[test]
fn sort_filter_picks_order() {
    let popular = vec![FilterValue::Sort { id: "排序方式".to_string(), index: 0, ascending: false }];
    assert_eq!(url_of(None, 1, popular), "https://boylove.cc/home/api/cate/tp/1-0-2-0-1-0-1-2");
    let out_of_range =
        vec![FilterValue::Sort { id: "排序方式".to_string(), index: 7, ascending: false }];
    assert_eq!(
        url_of(None, 1, out_of_range),
        "https://boylove.cc/home/api/cate/tp/1-0-2-1-1-0-1-2"
    );
    assert_eq!(Sort::from_repr(5), Sort::LastUpdated);
    assert_eq!(Sort::default(), Sort::LastUpdated);
}

#[test]
fn unknown_filters_fail() {
    let cases = vec![
        (
            FilterValue::Text { id: "title".to_string(), value: "x".to_string() },
            "Invalid text filter ID: `title`",
        ),
        (
            FilterValue::Sort { id: "order".to_string(), index: 0, ascending: true },
            "Invalid sort filter ID: `order`",
        ),
        (select("year", "2020"), "Invalid select filter ID: `year`"),
        (
            FilterValue::MultiSelect {
                id: "genres".to_string(),
                included: Vec::new(),
                excluded: Vec::new(),
            },
            "Invalid multi-select filter ID: `genres`",
        ),
        (FilterValue::Check { id: "done".to_string(), value: 1 }, "Invalid filter: `done`"),
    ];
    for (filter, message) in cases {
        match Url::from_query_or_filters(None, 1, &vec![filter]) {
            Err(Error::Invalid(m)) => assert_eq!(m, message),
            _ => panic!("an unknown filter must fail"),
        }
    }
}

#[test]
fn build_twice_same_url() {
    let filters = vec![select("連載狀態", "0"), tags(&["日漫", "韩漫"])];
    assert_eq!(url_of(None, 4, filters.clone()), url_of(None, 4, filters));
}

#[test]
fn abs() {
    assert_eq!(
        Url::Abs("/bookimages/img/20240605/7d14a38ef25968d00999dcc1999a97dd.webp".to_string())
            .to_string(),
        "https://boylove.cc/bookimages/img/20240605/7d14a38ef25968d00999dcc1999a97dd.webp"
    );
}

#[test]
fn manga() {
    assert_eq!(Url::manga("16904").to_string(), "https://boylove.cc/home/book/index/id/16904");
}

#[test]
fn chapter_list() {
    assert_eq!(
        Url::chapter_list("2633991").to_string(),
        "https://boylove.cc/home/api/getChapterListInChapter/tp/2633991-0-1-1000"
    );
}

#[test]
fn chapter() {
    assert_eq!(
        Url::chapter("2633991").to_string(),
        "https://boylove.cc/home/book/capter/id/2633991"
    );
}

fn daily(day: &str, page: i32) -> String {
    Url::daily_update(day, page).to_string()
}

#[test]
fn daily_update_last_updated() {
    assert_eq!(
        daily("11", 1),
        "https://boylove.cc/home/Api/getDailyUpdate.html?widx=11&limit=18&page=0&lastpage=0"
    );
}

#[test]
fn daily_update_mon() {
    assert_eq!(
        daily("0", 2),
        "https://boylove.cc/home/Api/getDailyUpdate.html?widx=0&limit=18&page=1&lastpage=0"
    );
}

#[test]
fn daily_update_tue() {
    assert_eq!(
        daily("1", 3),
        "https://boylove.cc/home/Api/getDailyUpdate.html?widx=1&limit=18&page=2&lastpage=0"
    );
}

#[test]
fn daily_update_wed() {
    assert_eq!(
        daily("2", 4),
        "https://boylove.cc/home/Api/getDailyUpdate.html?widx=2&limit=18&page=3&lastpage=0"
    );
}

#[test]
fn daily_update_thu() {
    assert_eq!(
        daily("3", 5),
        "https://boylove.cc/home/Api/getDailyUpdate.html?widx=3&limit=18&page=4&lastpage=0"
    );
}

#[test]
fn daily_update_fri() {
    assert_eq!(
        daily("4", 6),
        "https://boylove.cc/home/Api/getDailyUpdate.html?widx=4&limit=18&page=5&lastpage=0"
    );
}

#[test]
fn daily_update_sat() {
    assert_eq!(
        daily("5", 7),
        "https://boylove.cc/home/Api/getDailyUpdate.html?widx=5&limit=18&page=6&lastpage=0"
    );
}

#[test]
fn daily_update_sun() {
    assert_eq!(
        daily("6", 8),
        "https://boylove.cc/home/Api/getDailyUpdate.html?widx=6&limit=18&page=7&lastpage=0"
    );
}

#[test]
fn uncensored() {
    assert_eq!(
        Url::listing("recommend", 1).to_string(),
        "https://boylove.cc/home/api/getpage/tp/1-recommend-0"
    );
}

#[test]
fn ranking() {
    assert_eq!(
        Url::listing("topestmh", 1).to_string(),
        "https://boylove.cc/home/api/getpage/tp/1-topestmh-0"
    );
}

#[test]
fn random() {
    assert_eq!(Url::random().to_string(), "https://boylove.cc/home/Api/getCnxh.html?limit=5&type=1");
}

#[test]
fn home() {
    assert_eq!(Url::Home.to_string(), "https://boylove.cc/");
}

#[test]
fn offset_pages() {
    assert_eq!(OffsetPage::new(1).0, 0);
    assert_eq!(OffsetPage::new(5).0, 4);
    assert_eq!(OffsetPage::new(0).0, 0);
    assert_eq!(OffsetPage::new(-3).0, 0);
    assert_eq!(OffsetPage::new(i32::MIN).0, 0);
    assert_eq!(
        Url::listing("topestmh", 0).to_string(),
        "https://boylove.cc/home/api/getpage/tp/1-topestmh-0"
    );
    assert_eq!(
        url_of(None, 1, vec![]),
        "https://boylove.cc/home/api/cate/tp/1-0-2-1-1-0-1-2"
    );
}

#[test]
fn negative_page_is_written_with_sign() {
    assert_eq!(
        url_of(Some("a"), -2, vec![]),
        "https://boylove.cc/home/api/searchk?keyword=a&type=1&pageNo=-2"
    );
}

#[test]
fn api_chapter_route() {
    assert_eq!(
        Api::chapter("2639178").to_string(),
        "https://xxblapingpong.cc/chapter_view_template?id=2639178&sw_page=null&mode=vertical&page=0&app_img_shunt=NaN"
    );
}

#[test]
fn api_signature() {
    let (param, token) = Api::signature(0);
    assert_eq!(param, "0,1.1.0");
    assert_eq!(token, "a8dc04f66ca8ac3f4c77bc26c46e6c5d");
    let (param, token) = Api::signature(1_750_567_096);
    assert_eq!(param, "1750567096,1.1.0");
    assert_eq!(token, "d878d902b326947c73c5ac5d10365ff5");
}
