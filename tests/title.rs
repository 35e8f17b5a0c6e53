use manga_sources::numeral::Decimal;
use manga_sources::title::parse;

fn num(mantissa: u64, scale: u32) -> Option<Decimal> {
    Some(Decimal { mantissa, scale })
}

#[test]
fn lone_chapter_has_no_title() {
    assert_eq!(parse("第12話"), (None, num(12, 0), None));
}

#[test]
fn range_keeps_whole_title() {
    assert_eq!(parse("第01-02話"), (None, num(1, 0), Some("第01-02話".to_string())));
    assert_eq!(parse("第03-05話"), (None, num(3, 0), Some("第03-05話".to_string())));
}

#[test]
fn chinese_and_arabic_numerals_agree() {
    assert_eq!(parse("第十二話").1, parse("第12話").1);
    assert_eq!(parse("第一百零五話").1, num(105, 0));
}

#[test]
fn whole_series_idioms() {
    assert_eq!(parse("全一卷"), (num(1, 0), None, Some("全一卷".to_string())));
    assert_eq!(parse("全一冊"), (num(1, 0), None, Some("全一冊".to_string())));
    assert_eq!(parse("全一話"), (None, num(1, 0), Some("全一話".to_string())));
    assert_eq!(parse("全一回"), (None, num(1, 0), Some("全一回".to_string())));
}

#[test]
fn volume_only() {
    assert_eq!(parse("第3卷"), (num(3, 0), None, None));
}

#[test]
fn volume_and_chapter_with_title() {
    assert_eq!(
        parse("第2卷 第10話 重逢"),
        (num(2, 0), num(10, 0), Some("重逢".to_string()))
    );
}

#[test]
fn half_chapter() {
    assert_eq!(parse("第12.5話"), (None, num(125, 1), None));
    assert_eq!(parse("第12.50話"), (None, num(125, 1), None));
}

#[test]
fn no_match_keeps_title() {
    assert_eq!(parse("番外篇"), (None, None, Some("番外篇".to_string())));
}

#[test]
fn mixed_digits_and_numerals() {
    assert_eq!(parse("第1十話").2, None);
}
