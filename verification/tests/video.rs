use exmpeg_native::media::Rational;
use exmpeg_native::path::PathStyle;
use exmpeg_native::video::{
    aspect_factors, build_source_args, build_video_filter_spec, needs_scaling, path_lower_extension,
    pick_aspect, pick_fps, pick_image_codec, plan_picture, resolve_target_size, round_even,
    ImageCodec, Picture,
};

fn ratio(num: i32, den: i32) -> Rational {
    Rational { num, den }
}

#[test]
fn sizes_are_even_and_at_least_two() {
    assert_eq!(round_even(1), 2);
    assert_eq!(round_even(0), 2);
    assert_eq!(round_even(-7), 2);
    assert_eq!(round_even(2), 2);
    assert_eq!(round_even(3), 2);
    assert_eq!(round_even(641), 640);
    assert_eq!(round_even(i32::MAX), i32::MAX - 1);
}

#[test]
fn one_given_side_scales_the_other() {
    assert_eq!(resolve_target_size(1920, 1080, Some(1280), None), (1280, 720));
    assert_eq!(resolve_target_size(1920, 1080, None, Some(360)), (640, 360));
    assert_eq!(resolve_target_size(1920, 1080, Some(100), Some(31)), (100, 30));
    assert_eq!(resolve_target_size(1921, 1081, None, None), (1920, 1080));
    assert_eq!(resolve_target_size(0, 100, Some(10), None), (10, 1000));
    assert_eq!(resolve_target_size(-5, 100, Some(-10), None), (2, 2));
}

#[test]
fn the_frame_rate_falls_back_step_by_step() {
    let none = ratio(0, 0);
    assert_eq!(pick_fps(Some((30, 1)), ratio(24, 1), none), (30, 1));
    assert_eq!(pick_fps(Some((0, 0)), ratio(24, 1), none), (24, 1));
    assert_eq!(pick_fps(None, ratio(24, 1), ratio(50, 1)), (24, 1));
    assert_eq!(pick_fps(None, none, ratio(30_000, 1001)), (30_000, 1001));
    assert_eq!(pick_fps(None, none, ratio(1, 0)), (25, 1));
}

#[test]
fn filter_chains_pin_the_pixel_format() {
    assert_eq!(
        build_video_filter_spec(&None, 1280, 720, (30, 1), 0),
        "scale=1280:720,fps=30/1,format=0"
    );
    assert_eq!(
        build_video_filter_spec(&Some("crop=10:10".to_owned()), 1280, 720, (30, 1), 12),
        "crop=10:10,format=12"
    );
    assert_eq!(
        build_video_filter_spec(&None, 2, 2, (30, 0), -1),
        "scale=2:2,fps=25/1,format=-1"
    );
    assert_eq!(
        build_video_filter_spec(&None, 2, 2, (-1, 1), 0),
        "scale=2:2,fps=25/1,format=0"
    );
}

#[test]
fn source_args_describe_the_frames() {
    assert_eq!(
        build_source_args(640, 360, 0, ratio(1, 90_000), ratio(4, 3)),
        "video_size=640x360:pix_fmt=0:time_base=1/90000:pixel_aspect=4/3"
    );
    assert_eq!(
        build_source_args(640, 360, 0, ratio(1, 25), ratio(0, 0)),
        "video_size=640x360:pix_fmt=0:time_base=1/25:pixel_aspect=1/1"
    );
}

#[test]
fn the_aspect_ratio_comes_from_the_decoder_or_the_container() {
    assert_eq!(pick_aspect(ratio(4, 3), ratio(1, 1)), ratio(4, 3));
    assert_eq!(pick_aspect(ratio(0, 1), ratio(16, 11)), ratio(16, 11));
    assert_eq!(pick_aspect(ratio(0, 1), ratio(0, 0)), ratio(0, 1));
    // Where neither says anything, the decoder's stays as it is.
    assert_eq!(pick_aspect(ratio(3, 0), ratio(0, 1)), ratio(3, 0));
    assert_eq!(pick_aspect(ratio(3, 0), ratio(4, 3)), ratio(4, 3));
}

#[test]
fn a_resize_keeps_the_display_aspect() {
    // 720x576 at 16:15 shows as 4:3; so does 640x480 at 1:1.
    let (a, b) = aspect_factors(720, 576, 640, 480);
    let num = 16i64 * i64::from(a.num) * i64::from(b.num);
    let den = 15i64 * i64::from(a.den) * i64::from(b.den);
    assert_eq!(num, den);
}

#[test]
fn images_are_picked_by_extension() {
    assert_eq!(pick_image_codec(PathStyle::Posix, "a.JPG").unwrap(), ImageCodec::Mjpeg);
    assert_eq!(pick_image_codec(PathStyle::Posix, "a.jpeg").unwrap(), ImageCodec::Mjpeg);
    assert_eq!(pick_image_codec(PathStyle::Posix, "/x/a.png").unwrap(), ImageCodec::Png);
    assert_eq!(pick_image_codec(PathStyle::Posix, "a.bmp").unwrap(), ImageCodec::Bmp);
    assert_eq!(pick_image_codec(PathStyle::Posix, "a.WebP").unwrap(), ImageCodec::Webp);
    let other = pick_image_codec(PathStyle::Posix, "a.GIF").unwrap_err();
    assert_eq!(other.kind(), "invalid_request");
    assert_eq!(
        other.message(),
        "unsupported image extension; use .jpg, .png, .bmp or .webp"
    );
    assert_eq!(other.detail("extension").unwrap(), "gif");
    let bare = pick_image_codec(PathStyle::Posix, "thumb").unwrap_err();
    assert_eq!(
        bare.message(),
        "output path must have a recognised image extension (.jpg, .png, .bmp, .webp)"
    );
    assert_eq!(path_lower_extension(PathStyle::Posix, "x/Y.MP4").unwrap(), "mp4");
    assert_eq!(path_lower_extension(PathStyle::Posix, "x/Y"), None);
    assert_eq!(path_lower_extension(PathStyle::Windows, "x.Y\\z"), None);
}

#[test]
fn pictures_are_planned_for_the_encoder() {
    let src = Picture { width: 1921, height: 1080, format: 0 };
    let same = plan_picture(src, None, None, &Some(vec![0, 12]));
    assert_eq!(same, Picture { width: 1920, height: 1080, format: 0 });
    assert!(needs_scaling(src, same));
    let small = plan_picture(src, Some(320), None, &Some(vec![12]));
    assert_eq!(small, Picture { width: 320, height: 178, format: 12 });
    assert!(!needs_scaling(small, small));
}
