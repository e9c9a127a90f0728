use archive_parser::media::{AnimatedGif, Size, Sizes, Variant, VideoInfo};
use archive_parser::{Media, Photo, Video};

fn photo(id: &str, media_url: &str) -> Photo {
    Photo {
        id_str: id.to_string(),
        url: "https://t.co/pic".to_string(),
        expanded_url: "https://twitter.com/x/status/1/photo/1".to_string(),
        indices: None,
        media_url: media_url.to_string(),
        media_url_https: media_url.replace("http://", "https://"),
        display_url: "pic.twitter.com/pic".to_string(),
    }
}

fn size() -> Size {
    Size { w: "100".to_string(), h: "100".to_string(), resize: "fit".to_string() }
}

fn sizes() -> Sizes {
    Sizes { medium: size(), large: size(), thumb: size(), small: size() }
}

fn variant(bitrate: Option<&str>, url: &str) -> Variant {
    Variant {
        bitrate: bitrate.map(|b| b.to_string()),
        content_type: "video/mp4".to_string(),
        url: url.to_string(),
    }
}

fn video_info(variants: Vec<Variant>) -> VideoInfo {
    VideoInfo {
        aspect_ratio: ["16".to_string(), "9".to_string()],
        duration_millis: Some("1000".to_string()),
        variants,
    }
}

fn gif(variants: Vec<Variant>) -> AnimatedGif {
    AnimatedGif {
        id_str: "77".to_string(),
        url: "https://t.co/gif".to_string(),
        expanded_url: "https://twitter.com/x/status/1/photo/1".to_string(),
        indices: Some(["10".to_string(), "33".to_string()]),
        media_url: "http://pbs.twimg.com/tweet_video_thumb/G.jpg".to_string(),
        media_url_https: "https://pbs.twimg.com/tweet_video_thumb/G.jpg".to_string(),
        display_url: "pic.twitter.com/gif".to_string(),
        sizes: sizes(),
        video_info: video_info(variants),
    }
}

fn video(info: Option<VideoInfo>) -> Video {
    Video {
        id_str: "88".to_string(),
        url: "https://t.co/vid".to_string(),
        expanded_url: "https://twitter.com/x/status/1/video/1".to_string(),
        indices: None,
        media_url: "http://pbs.twimg.com/ext_tw_video_thumb/V.jpg".to_string(),
        media_url_https: "https://pbs.twimg.com/ext_tw_video_thumb/V.jpg".to_string(),
        display_url: "pic.twitter.com/vid".to_string(),
        source_status_id: None,
        source_status_id_str: None,
        video_info: info,
        source_user_id: None,
        source_user_id_str: None,
        additional_media_info: None,
        sizes: sizes(),
    }
}

#[test]
fn photo_ids_and_file_names() {
    let p = photo("1049420839327883266", "http://pbs.twimg.com/media/DpMYX9fWwAI4Wac.jpg");
    assert_eq!(p.id(), 1049420839327883266);
    assert_eq!(p.file_name(), "DpMYX9fWwAI4Wac.jpg");
    let q = photo("2", "http://pbs.twimg.com/media/Other.png");
    assert_eq!(q.file_name(), "Other.png");
}

#[test]
fn highest_bitrate_wins_and_the_last_of_equals() {
    let info = video_info(vec![
        variant(Some("832000"), "https://video.twimg.com/a/832.mp4"),
        variant(None, "https://video.twimg.com/a/playlist.m3u8"),
        variant(Some("2176000"), "https://video.twimg.com/a/2176.mp4"),
        variant(Some("256000"), "https://video.twimg.com/a/256.mp4"),
        variant(Some("2176000"), "https://video.twimg.com/b/2176.mp4"),
    ]);
    let best = info.highest_bitrate_variant().unwrap();
    assert_eq!(best.url, "https://video.twimg.com/b/2176.mp4");
    assert_eq!(info.file_name(), "2176.mp4");
}

#[test]
fn a_zero_bitrate_counts_and_unreadable_ones_do_not() {
    let info = video_info(vec![
        variant(Some("0"), "https://video.twimg.com/tweet_video/G0.mp4"),
        variant(Some("-5"), "https://video.twimg.com/tweet_video/neg.mp4"),
        variant(Some("fast"), "https://video.twimg.com/tweet_video/word.mp4"),
        variant(Some("99999999999"), "https://video.twimg.com/tweet_video/huge.mp4"),
    ]);
    assert_eq!(info.highest_bitrate_variant().unwrap().url, "https://video.twimg.com/tweet_video/G0.mp4");
}

#[test]
fn no_usable_bitrate_gives_no_variant() {
    let info = video_info(vec![variant(None, "https://video.twimg.com/a/p.m3u8"), variant(Some("-1"), "u")]);
    assert!(info.highest_bitrate_variant().is_none());
    assert!(video_info(vec![]).highest_bitrate_variant().is_none());
}

#[test]
fn media_types_and_archive_file_names() {
    let g = Media::AnimatedGif(gif(vec![variant(Some("0"), "https://video.twimg.com/tweet_video/G0.mp4")]));
    assert_eq!(g.media_type(), "animated_gif");
    assert_eq!(g.archive_file_name("1049420839327883266"), "1049420839327883266-G0.mp4");
    let p = Media::Photo(photo("5", "http://pbs.twimg.com/media/P.jpg"));
    assert_eq!(p.media_type(), "photo");
    assert_eq!(p.archive_file_name("base/42"), "base/42-P.jpg");
    let v = Media::Video(video(Some(video_info(vec![variant(Some("100"), "https://video.twimg.com/v/V.mp4?tag=1")]))));
    assert_eq!(v.media_type(), "video");
    assert_eq!(v.archive_file_name("9"), "9-V.mp4?tag=1");
}

#[test]
fn gif_and_video_ids() {
    assert_eq!(gif(vec![]).id(), 77);
    assert_eq!(video(None).id(), 88);
}

#[test]
fn update_sql_of_media_is_blank() {
    let m = Media::Photo(photo("5", "http://pbs.twimg.com/media/P.jpg"));
    let sql = m.update_sql();
    assert_eq!((sql.status_id, sql.media_attachment_id), (0, 0));
}

#[test]
fn cloned_media_keeps_its_variants() {
    let g = gif(vec![variant(Some("7"), "https://video.twimg.com/x/Y.mp4")]);
    let c = Media::AnimatedGif(g).clone();
    match c {
        Media::AnimatedGif(c) => {
            assert_eq!(c.video_info.variants.len(), 1);
            assert_eq!(c.video_info.variants[0].url, "https://video.twimg.com/x/Y.mp4");
        }
        _ => panic!("clone changed the kind of media"),
    }
}

#[test]
fn media_ids_written_in_decimal_are_read_back() {
    for n in [0u64, 7, 10, 1049420839327883266, u64::MAX] {
        assert_eq!(photo(&n.to_string(), "http://pbs.twimg.com/media/a.jpg").id(), n);
        let mut v = video(None);
        v.id_str = n.to_string();
        assert_eq!(v.id(), n);
        let mut g = gif(vec![]);
        g.id_str = n.to_string();
        assert_eq!(g.id(), n);
    }
}
