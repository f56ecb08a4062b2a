use msl_engine::ast::MediaFilter;
use msl_engine::ast::MediaType;
use msl_engine::engine::evaluate;
use msl_engine::engine::generate_filename;
use msl_engine::engine::Selection;
use msl_engine::parser::MslValue;
use msl_engine::scraper::filter_media;
use msl_engine::scraper::MediaItem;
use msl_engine::text::split_string;
use msl_engine::text::str_contains;
use msl_engine::text::str_ends_with;

fn item(url: &str, kind: MediaType) -> MediaItem {
    MediaItem {
        url: url.to_string(),
        media_type: kind,
        filename: None,
        attributes: Vec::new(),
    }
}

#[test]
fn filter_conjunction_requires_both_filters() {
    let filters = vec![
        MediaFilter::Where {
            field: "src".to_string(),
            operator: "~".to_string(),
            value: "cdn.example.com".to_string(),
        },
        MediaFilter::Extensions { extensions: vec!["jpg".to_string(), "png".to_string()] },
    ];
    let media = vec![
        item("http://cdn.example.com/a.jpg", MediaType::Image),
        item("http://cdn.example.com/a.gif", MediaType::Image),
        item("http://other.com/a.jpg", MediaType::Image),
    ];
    let kept = filter_media(&media, &filters);
    assert_eq!(kept.len(), 1);
    assert_eq!(kept[0].url, "http://cdn.example.com/a.jpg");
}

#[test]
fn extension_matching_is_a_literal_suffix_test() {
    let upper = vec![item("photo.JPG", MediaType::Image)];
    let lower_filter = vec![MediaFilter::Extensions { extensions: vec!["jpg".to_string()] }];
    assert!(filter_media(&upper, &lower_filter).is_empty());
    let upper_filter = vec![MediaFilter::Extensions { extensions: vec!["JPG".to_string()] }];
    assert_eq!(filter_media(&upper, &upper_filter).len(), 1);
}

#[test]
fn empty_filter_list_keeps_everything() {
    let media = vec![
        item("http://a/x.png", MediaType::Image),
        item("http://b/y.mp4", MediaType::Video),
    ];
    assert_eq!(filter_media(&media, &Vec::new()).len(), 2);
}

#[test]
fn where_equality_and_inequality() {
    let media = vec![item("http://a/x", MediaType::Image), item("http://b/y", MediaType::Image)];
    let eq = vec![MediaFilter::Where {
        field: "src".to_string(),
        operator: "=".to_string(),
        value: "http://a/x".to_string(),
    }];
    let kept = filter_media(&media, &eq);
    assert_eq!(kept.len(), 1);
    assert_eq!(kept[0].url, "http://a/x");
    let ne = vec![MediaFilter::Where {
        field: "src".to_string(),
        operator: "!=".to_string(),
        value: "http://a/x".to_string(),
    }];
    let kept = filter_media(&media, &ne);
    assert_eq!(kept.len(), 1);
    assert_eq!(kept[0].url, "http://b/y");
}

#[test]
fn unknown_field_restricts_nothing() {
    let media = vec![item("http://a/x", MediaType::Image)];
    let odd = vec![MediaFilter::Where {
        field: "alt".to_string(),
        operator: "=".to_string(),
        value: "zzz".to_string(),
    }];
    assert_eq!(filter_media(&media, &odd).len(), 1);
}

#[test]
fn generated_filenames_append_default_extensions() {
    assert_eq!(generate_filename("http://x/photo", MediaType::Image), "photo.jpg");
    assert_eq!(generate_filename("http://x/clip", MediaType::Video), "clip.mp4");
    assert_eq!(generate_filename("http://x/song", MediaType::Audio), "song.mp3");
    assert_eq!(generate_filename("http://x/photo.png", MediaType::Image), "photo.png");
    assert_eq!(generate_filename("plain", MediaType::Image), "plain.jpg");
    assert_eq!(generate_filename("http://x/", MediaType::Image), ".jpg");
}

#[test]
fn evaluate_reads_the_selection_context() {
    let sel = Some(Selection {
        text: "a,b,c".to_string(),
        attributes: vec![("href".to_string(), "http://h".to_string())],
    });
    assert_eq!(evaluate(&MslValue::Text, &sel), "a,b,c");
    assert_eq!(
        evaluate(&MslValue::Attribute { name: "href".to_string() }, &sel),
        "http://h"
    );
    assert_eq!(
        evaluate(&MslValue::Attribute { name: "alt".to_string() }, &sel),
        ""
    );
    let split = |index: i32| MslValue::Split { delimiter: ",".to_string(), index };
    assert_eq!(evaluate(&split(0), &sel), "a");
    assert_eq!(evaluate(&split(1), &sel), "b");
    assert_eq!(evaluate(&split(-1), &sel), "c");
    assert_eq!(evaluate(&split(-3), &sel), "a");
    assert_eq!(evaluate(&split(3), &sel), "");
    assert_eq!(evaluate(&split(-4), &sel), "");
    assert_eq!(evaluate(&MslValue::Text, &None), "");
}

#[test]
fn split_string_cuts_at_every_delimiter() {
    assert_eq!(split_string("a,b,c", ","), vec!["a", "b", "c"]);
    assert_eq!(split_string("abc", ","), vec!["abc"]);
    assert_eq!(split_string(",x,", ","), vec!["", "x", ""]);
    assert_eq!(split_string("abc", ""), vec!["abc"]);
}

#[test]
fn containment_and_suffix_are_character_exact() {
    assert!(str_contains("http://cdn.example.com/a", "cdn.example.com"));
    assert!(!str_contains("http://other.com/a", "cdn.example.com"));
    assert!(str_contains("anything", ""));
    assert!(str_ends_with("photo.jpg", "jpg"));
    assert!(!str_ends_with("photo.JPG", "jpg"));
    assert!(!str_ends_with("jp", "jpg"));
}
