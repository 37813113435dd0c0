use noir::defun::{cutoff_text, dist, hamming_distance, match_text, recent, Pattern};
use noir::errors::AppError;
use noir::image_format::{from_str, ImageFormat, ImageFormatExt};
use noir::meta::{
    detect_format, format_dhash, format_or_error, gcd, Dimensions, FileMeta, ImageProbe, Meta,
};
use noir::output_format::{JsonLayout, OutputFormat};
use noir::retry::{Retry, RetryAction, MAX_RETRY_DEFAULT};
use noir::text::{digit_of, push_decimal, push_hex};
use noir::time::{duration, is_countable, Timestamp};

fn file(path: &str) -> FileMeta {
    FileMeta {
        path: path.to_owned(),
        size: 1234,
        created: None,
        modified: Timestamp::new(1431648000, 0),
        accessed: None,
    }
}

fn probe(format: ImageFormat, width: u32, height: u32, animation: bool) -> ImageProbe {
    ImageProbe {
        format,
        dimensions: Dimensions { width, height },
        animation,
    }
}

#[test]
fn gcd_and_ratio_reduce_to_lowest_terms() {
    assert_eq!(gcd(1920, 1080), 120);
    assert_eq!(gcd(0, 0), 0);
    assert_eq!(gcd(0, 5), 5);
    assert_eq!(gcd(5, 0), 5);
    assert_eq!(gcd(7, 13), 1);
    let ratio = |width, height| Dimensions { width, height }.ratio();
    assert_eq!(ratio(1920, 1080), (16, 9));
    assert_eq!(ratio(0, 0), (0, 0));
    assert_eq!(ratio(0, 5), (0, 1));
    assert_eq!(ratio(5, 0), (1, 0));
    assert_eq!(ratio(640, 480), (4, 3));
    assert_eq!(ratio(u32::MAX, u32::MAX), (1, 1));
    for (w, h) in [(12u32, 18u32), (1, 1), (100, 7), (4096, 2160)] {
        let (a, b) = ratio(w, h);
        assert_eq!(gcd(a, b), 1);
        assert_eq!(a as u64 * h as u64, b as u64 * w as u64);
    }
}

#[test]
fn dhash_text_has_sixteen_digits() {
    assert_eq!(format_dhash(0), "0000000000000000");
    assert_eq!(format_dhash(0xff), "00000000000000ff");
    assert_eq!(format_dhash(u64::MAX), "ffffffffffffffff");
    assert_eq!(format_dhash(0x0123456789abcdef), "0123456789abcdef");
    assert_eq!(format_dhash(13547707017824698364), format!("{:016x}", 13547707017824698364u64));
}

#[test]
fn digits_are_written_in_lower_case() {
    assert_eq!(digit_of(0), '0');
    assert_eq!(digit_of(9), '9');
    assert_eq!(digit_of(10), 'a');
    assert_eq!(digit_of(15), 'f');
    let mut text = "n=".to_owned();
    push_decimal(&mut text, 0);
    push_decimal(&mut text, 4096);
    push_decimal(&mut text, u64::MAX);
    assert_eq!(text, "n=0409618446744073709551615");
    let mut text = String::new();
    push_hex(&mut text, 0xabc, 2);
    push_hex(&mut text, 0xabc, 0);
    push_hex(&mut text, 0xabc, 5);
    assert_eq!(text, "bc00abc");
}

#[test]
fn dist_counts_the_bits_that_differ() {
    assert_eq!(dist(Some("ff"), Some("0f")), 4);
    assert_eq!(dist(Some("ffffffffffffffff"), Some("0000000000000000")), 64);
    assert_eq!(dist(Some("ffffffffffffffff"), Some("fffffffffffffffe")), 1);
    assert_eq!(dist(Some("0123456789abcdef"), Some("0123456789abcdef")), 0);
    assert_eq!(dist(Some("ABCDEF"), Some("abcdef")), 0);
    assert_eq!(dist(Some("+f"), Some("f")), 0);
    assert_eq!(hamming_distance(4485936524854165493, 3337201687795727957), 11);
    assert_eq!(
        dist(Some(&format_dhash(4485936524854165493)), Some(&format_dhash(3337201687795727957))),
        11
    );
}

#[test]
fn dist_takes_what_is_no_number_as_zero() {
    assert_eq!(dist(Some("zz"), Some("1")), 1);
    assert_eq!(dist(Some(""), Some("3")), 2);
    assert_eq!(dist(Some("+"), Some("3")), 2);
    assert_eq!(dist(Some("-1"), Some("3")), 2);
    assert_eq!(dist(Some(" 1"), Some("3")), 2);
    assert_eq!(dist(Some("1_0"), Some("3")), 2);
    assert_eq!(dist(Some("10000000000000000"), Some("7")), 3);
    assert_eq!(dist(Some("00000000000000000001"), Some("0")), 1);
    assert_eq!(dist(Some("１"), Some("1")), 1);
}

#[test]
fn dist_of_what_is_no_text_is_the_greatest() {
    assert_eq!(dist(None, Some("ff")), u32::MAX);
    assert_eq!(dist(Some("ff"), None), u32::MAX);
    assert_eq!(dist(None, None), u32::MAX);
}

#[test]
fn match_text_knows_both_wildcards() {
    assert!(match_text("cat", "cat", false));
    assert!(match_text("*cat*", "dog_cat_dog", false));
    assert!(match_text("c?t", "cot", false));
    assert!(match_text("*", "", false));
    assert!(match_text("", "", false));
    assert!(match_text("a**b", "ab", false));
    assert!(match_text("*.jpg", "/x/y.jpg", false));
    assert!(!match_text("", "a", false));
    assert!(!match_text("dog", "cat", false));
    assert!(!match_text("*d", "cat", false));
    assert!(!match_text("????", "cat", false));
    assert!(!match_text("?", "", false));
    assert!(!match_text("cat", "Cat", false));
    assert!(!match_text("*.JPG", "/x/y.jpg", false));
}

#[test]
fn match_text_can_leave_case_aside() {
    assert!(match_text("*.JPG", "/x/y.jpg", true));
    assert!(match_text("*.jpg", "/X/Y.JPG", true));
    assert!(match_text("É?", "éX", true));
    assert!(!match_text("*.png", "/x/y.jpg", true));
}

#[test]
fn a_pattern_is_made_ready_once_and_used_often() {
    let pattern = Pattern::new("*.JPG", true);
    assert!(pattern.matches("/x/y.jpg"));
    assert!(pattern.matches("/X/Y.JPG"));
    assert!(!pattern.matches("/x/y.png"));
    let pattern = Pattern::new("*.JPG", false);
    assert!(pattern.matches("/x/y.JPG"));
    assert!(!pattern.matches("/x/y.jpg"));
}

#[test]
fn recent_goes_back_from_now() {
    let now = Timestamp::new(1431820800, 0).unwrap();
    assert_eq!(recent(now, "2 days").unwrap(), "2015-05-15T00:00:00+00:00");
    assert_eq!(recent(now, "1 hour").unwrap(), "2015-05-16T23:00:00+00:00");
    assert_eq!(
        recent(now, "1 hour and 30 minutes").unwrap(),
        "2015-05-16T22:30:00+00:00"
    );
    assert_eq!(recent(now, "500 ms").unwrap(), "2015-05-16T23:59:59.500+00:00");
    assert_eq!(recent(now, "1 ns").unwrap(), "2015-05-16T23:59:59.999999999+00:00");
    assert_eq!(recent(now, "").unwrap(), "2015-05-17T00:00:00+00:00");
}

#[test]
fn recent_takes_spans_of_great_numbers() {
    let now = Timestamp::new(1431820800, 0).unwrap();
    assert_eq!(recent(now, "1000 days").unwrap(), "2012-08-20T00:00:00+00:00");
    assert_eq!(recent(now, "3600 seconds").unwrap(), "2015-05-16T23:00:00+00:00");
    assert_eq!(recent(now, "86400s").unwrap(), "2015-05-16T00:00:00+00:00");
    assert_eq!(recent(now, "1500 ms").unwrap(), "2015-05-16T23:59:58.500+00:00");
    assert_eq!(recent(now, "4000 ms").unwrap(), "2015-05-16T23:59:56+00:00");
    assert_eq!(recent(now, "1000000000 ns").unwrap(), "2015-05-16T23:59:59+00:00");
    assert_eq!(
        recent(now, "100000000000 s").unwrap(),
        "-1154-07-01T14:13:20+00:00"
    );
    assert_eq!(
        recent(now, "3294 ms and 999999999 ns").unwrap(),
        "2015-05-16T23:59:55.706000001+00:00"
    );
    assert_eq!(recent(now, "1431820800 s").unwrap(), "1970-01-01T00:00:00+00:00");
}

#[test]
fn recent_refuses_what_names_no_span() {
    let now = Timestamp::new(1431820800, 0).unwrap();
    // Minutes are written `min`: there is no unit `m`.
    for bad in [
        "soon",
        "2 fortnights",
        "days",
        "-1 day",
        "30m",
        "5000 milliseconds",
        "4295 ms",
        "4294 ms and 967296 ns",
        "4294967296 ns",
        "584942417356 years",
        "18446744073709551615 s and 1000000000 ns",
        "18446744073709551616 s",
    ] {
        match recent(now, bad) {
            Err(AppError::InvalidNumberFormat(given)) => assert_eq!(given, bad),
            other => panic!("{:?}", other),
        }
    }
    let early = Timestamp::new(i64::MIN, 0).unwrap();
    assert!(recent(early, "1 s").is_err());
    assert!(recent(now, "18446744073709551615 s").is_err());
}

#[test]
fn durations_are_read_where_their_numbers_can_be_counted_up() {
    assert_eq!(duration("2 days"), Some((172800, 0)));
    assert_eq!(duration("1000 days"), Some((86400000, 0)));
    assert_eq!(duration("999 years"), Some((999 * 365 * 86400, 0)));
    assert_eq!(duration("999 ms and 999 ns"), Some((0, 999000999)));
    assert_eq!(duration("4000 ms"), Some((4, 0)));
    assert_eq!(duration("4294 ms"), Some((4, 294000000)));
    assert_eq!(duration("4294 ms and 967295 ns"), Some((4, 294967295)));
    assert_eq!(duration("1000000000 ns"), Some((1, 0)));
    assert_eq!(duration("4294967295 ns"), Some((4, 294967295)));
    assert_eq!(duration("100000000000 s"), Some((100000000000, 0)));
    assert_eq!(duration("18446744073709551615 s"), Some((u64::MAX, 0)));
    assert_eq!(duration("18446744073709551611 s 4294967295ns"), Some((u64::MAX, 294967295)));
    assert_eq!(duration("0003294ms"), Some((3, 294000000)));
    assert_eq!(duration("584942417355 years"), Some((584942417355 * 31536000, 0)));
    assert_eq!(
        duration("1 year, 2 months, 3 weeks, 4 days, 5 hours, 6 mins and 7 secs"),
        Some((31536000 + 2 * 2592000 + 3 * 604800 + 4 * 86400 + 5 * 3600 + 6 * 60 + 7, 0))
    );
    assert_eq!(duration("4295 ms"), None);
    assert_eq!(duration("4294 ms and 967296 ns"), None);
    assert_eq!(duration("4294967296 ns"), None);
    assert_eq!(duration("584942417356 years"), None);
    assert_eq!(duration("584942417355 years and 1000000000 s"), None);
    assert_eq!(duration("18446744073709551612 s 4294967295ns"), None);
    assert_eq!(duration("18446744073709551616 s"), None);
    assert_eq!(duration("nothing"), None);
    assert_eq!(duration("1000"), None);
    assert_eq!(duration("30m"), None);
}

#[test]
fn countable_texts_are_those_that_do_not_overflow() {
    for yes in [
        "",
        "no numbers",
        "99999999999999999999999",
        "99999999999999999999999 and",
        "4294 \t\r\nms",
        "4295 minutes",
        "4295 months",
        "4295 m",
        "4294967295 n",
        "18446744073709551615 seconds",
        "584942417355 y",
        "30500568904943 w",
    ] {
        assert!(is_countable(yes), "{:?}", yes);
    }
    for no in [
        "4295 \t\r\nms",
        "4295mil",
        "4294967296 n",
        "4000ms 295ms",
        "18446744073709551616seconds",
        "584942417356 y",
        "30500568904944 w",
        "213503982334602 d",
        "5124095576030432 h",
        "307445734561825861 min",
        "7030 months 584942417355 years",
    ] {
        assert!(!is_countable(no), "{:?}", no);
    }
}

#[test]
fn timestamps_go_back_with_a_borrow() {
    let now = Timestamp::new(10, 100).unwrap();
    assert_eq!(now.minus(3, 50), Timestamp::new(7, 50));
    assert_eq!(now.minus(3, 200), Timestamp::new(6, 999_999_900));
    assert_eq!(now.minus(0, 100), Timestamp::new(10, 0));
    assert_eq!(now.minus(20, 0), Timestamp::new(-10, 100));
    assert_eq!(now.minus(0, 1_000_000_000), None);
    assert_eq!(Timestamp::new(0, 1_000_000_000), None);
    let late = Timestamp::new(i64::MAX, 0).unwrap();
    assert_eq!(late.minus(i64::MAX as u64 + 1, 0), Timestamp::new(-1, 0));
    assert_eq!(late.minus(u64::MAX, 0), Timestamp::new(i64::MIN, 0));
    let early = Timestamp::new(i64::MIN, 5).unwrap();
    assert_eq!(early.minus(0, 5), Timestamp::new(i64::MIN, 0));
    assert_eq!(early.minus(0, 6), None);
    assert_eq!(early.minus(1, 0), None);
}

#[test]
fn cutoff_text_is_none_outside_the_calendar() {
    let now = Timestamp::new(0, 0).unwrap();
    assert_eq!(cutoff_text(now, 0, 0).unwrap(), "1970-01-01T00:00:00+00:00");
    assert_eq!(cutoff_text(now, 1, 0).unwrap(), "1969-12-31T23:59:59+00:00");
    assert_eq!(cutoff_text(now, u64::MAX, 0), None);
    assert_eq!(cutoff_text(now, i64::MAX as u64, 0), None);
}

#[test]
fn formats_have_names() {
    let all = [
        (ImageFormat::Bmp, "bmp"),
        (ImageFormat::Gif, "gif"),
        (ImageFormat::Hdr, "hdr"),
        (ImageFormat::Ico, "ico"),
        (ImageFormat::Jpeg, "jpeg"),
        (ImageFormat::Png, "png"),
        (ImageFormat::Pnm, "pnm"),
        (ImageFormat::Tga, "tga"),
        (ImageFormat::Tiff, "tiff"),
        (ImageFormat::Webp, "webp"),
    ];
    for (format, name) in all {
        assert_eq!(format.to_str(), name);
        assert_eq!(from_str(name), Some(format));
    }
    assert_eq!(from_str("jpg"), None);
    assert_eq!(from_str("PNG"), None);
    assert_eq!(from_str(""), None);
    assert_eq!(probe(ImageFormat::Gif, 1, 1, true).to_str(), "gif");
}

#[test]
fn detect_format_reads_the_first_bytes() {
    let png = [0x89u8, b'P', b'N', b'G', 0x0d, 0x0a, 0x1a, 0x0a, 0, 0];
    assert_eq!(detect_format(&png).unwrap(), ImageFormat::Png);
    assert_eq!(detect_format(&[0xff, 0xd8, 0xff, 0xe0]).unwrap(), ImageFormat::Jpeg);
    assert_eq!(detect_format(b"GIF89a...").unwrap(), ImageFormat::Gif);
    assert_eq!(detect_format(b"BM....").unwrap(), ImageFormat::Bmp);
    assert_eq!(detect_format(b"GIF87a").unwrap(), ImageFormat::Gif);
    assert_eq!(detect_format(b"RIFF....WEBP").unwrap(), ImageFormat::Webp);
    assert_eq!(detect_format(b"MM.*").unwrap(), ImageFormat::Tiff);
    assert_eq!(detect_format(b"II*.").unwrap(), ImageFormat::Tiff);
    assert_eq!(detect_format(&[0, 0, 1, 0, 9]).unwrap(), ImageFormat::Ico);
    assert_eq!(detect_format(b"#?RADIANCE\n").unwrap(), ImageFormat::Hdr);
    for digit in b'1'..=b'7' {
        assert_eq!(detect_format(&[b'P', digit, b'\n']).unwrap(), ImageFormat::Pnm);
    }
    for unknown in [
        &b"P0"[..],
        &b"P8"[..],
        &b"P"[..],
        &b"GIF88a"[..],
        &b"GIF89"[..],
        &b"RIF"[..],
        &b"MM\x00*"[..],
        &b"II*\x00"[..],
        &[0xff, 0xd8][..],
        &[0x89, b'P', b'N', b'G'][..],
        &[0, 0, 2, 0][..],
        &b"#?RGBE"[..],
        &b"B"[..],
    ] {
        assert!(detect_format(unknown).is_err(), "{:?}", unknown);
    }
    for unknown in [&b""[..], &b"hello"[..]] {
        match detect_format(unknown) {
            Err(AppError::ImageLoading(message)) => {
                assert_eq!(message, "Unsupported image format")
            }
            other => panic!("{:?}", other),
        }
    }
    assert_eq!(format_or_error(Some(ImageFormat::Tga)).unwrap(), ImageFormat::Tga);
    assert!(format_or_error(None).is_err());
}

#[test]
fn records_are_made_from_probe_and_decoder() {
    let plain = Meta::without_hashing(&probe(ImageFormat::Gif, 10, 20, true), file("/a.gif"));
    assert_eq!(
        plain,
        Meta {
            animation: true,
            dhash: None,
            dimensions: Dimensions {
                width: 10,
                height: 20
            },
            file: file("/a.gif"),
            format: "gif",
        }
    );
    let hashed = Meta::with_hashing(
        &probe(ImageFormat::Gif, 10, 20, true),
        ImageFormat::Png,
        30,
        40,
        0xabc,
        file("/a.png"),
    );
    assert_eq!(
        hashed,
        Meta {
            animation: true,
            dhash: Some("0000000000000abc".to_owned()),
            dimensions: Dimensions {
                width: 30,
                height: 40
            },
            file: file("/a.png"),
            format: "png",
        }
    );
    assert_eq!(plain.describe(), "/a.gif: dim=10x20 format=gif anim=true");
    assert_eq!(
        hashed.describe(),
        "/a.png: dim=30x40 format=png anim=true dhash=0000000000000abc"
    );
}

#[test]
fn output_formats_have_long_and_short_names() {
    let names = [
        ("c", OutputFormat::Chrysoberyl),
        ("chrysoberyl", OutputFormat::Chrysoberyl),
        ("j", OutputFormat::Json),
        ("json", OutputFormat::Json),
        ("p", OutputFormat::PrettyJson),
        ("pretty-json", OutputFormat::PrettyJson),
        ("s", OutputFormat::Simple),
        ("simple", OutputFormat::Simple),
    ];
    for (name, format) in names {
        assert_eq!(OutputFormat::from_str(name).unwrap(), format);
    }
    for bad in ["", "x", "JSON", "pretty_json"] {
        match OutputFormat::from_str(bad) {
            Err(AppError::InvalidOutputFormat(name)) => assert_eq!(name, bad),
            other => panic!("{:?}", other),
        }
    }
    assert_eq!(OutputFormat::Json.json_layout(), Some(JsonLayout::Compact));
    assert_eq!(OutputFormat::PrettyJson.json_layout(), Some(JsonLayout::Pretty));
    assert_eq!(OutputFormat::Simple.json_layout(), None);
    assert_eq!(OutputFormat::Chrysoberyl.json_layout(), None);
}

#[test]
fn output_formats_write_their_lines() {
    let hashed = Meta::with_hashing(
        &probe(ImageFormat::Png, 1, 1, false),
        ImageFormat::Png,
        640,
        480,
        0xff,
        file("/tmp/a b.png"),
    );
    let mut out = String::new();
    OutputFormat::Chrysoberyl.write(&mut out, &hashed, "");
    assert_eq!(
        out,
        "@push-image --meta width=640 --meta height=480 --meta format=png --meta dhash=00000000000000ff '/tmp/a b.png'\n"
    );

    let plain = Meta::without_hashing(&probe(ImageFormat::Jpeg, 3, 2, false), file("/tmp/x.jpg"));
    let mut out = "before\n".to_owned();
    OutputFormat::Chrysoberyl.write(&mut out, &plain, "");
    OutputFormat::Simple.write(&mut out, &plain, "");
    OutputFormat::Json.write(&mut out, &plain, "{\"a\":1}");
    OutputFormat::PrettyJson.write(&mut out, &plain, "{\n  \"a\": 1\n}");
    assert_eq!(
        out,
        "before\n@push-image --meta width=3 --meta height=2 --meta format=jpeg /tmp/x.jpg\n/tmp/x.jpg\n{\"a\":1}\n{\n  \"a\": 1\n}\n"
    );
}

#[test]
fn paths_are_escaped_for_a_shell() {
    let line = |path: &str| {
        let meta = Meta::without_hashing(&probe(ImageFormat::Png, 1, 1, false), file(path));
        let mut out = String::new();
        OutputFormat::Chrysoberyl.write(&mut out, &meta, "");
        out["@push-image --meta width=1 --meta height=1 --meta format=png ".len()..].to_owned()
    };
    assert_eq!(line("/a/B-c_d=e,f.g+h/0"), "/a/B-c_d=e,f.g+h/0\n");
    assert_eq!(line(""), "''\n");
    assert_eq!(line("it's"), "'it'\\''s'\n");
    assert_eq!(line("wow!"), "'wow'\\!''\n");
    assert_eq!(line("/tmp/あ.png"), "'/tmp/あ.png'\n");
    assert_eq!(line("a$b"), "'a$b'\n");
}

#[test]
fn retry_waits_longer_each_time() {
    let mut retry = Retry::new(MAX_RETRY_DEFAULT);
    for i in 1..=10 {
        assert_eq!(retry.after_attempt(true), RetryAction::RetryAfter(i));
    }
    assert_eq!(retry.after_attempt(true), RetryAction::Return);
    assert_eq!(retry.after_attempt(true), RetryAction::Return);

    let mut retry = Retry::new(3);
    assert_eq!(retry.after_attempt(true), RetryAction::RetryAfter(1));
    assert_eq!(retry.after_attempt(false), RetryAction::Return);
    assert_eq!(retry.after_attempt(true), RetryAction::RetryAfter(2));

    let mut retry = Retry::new(0);
    assert_eq!(retry.after_attempt(true), RetryAction::Return);
    assert_eq!(retry.after_attempt(false), RetryAction::Return);
}
