use autebooks::failure::Failure;
use autebooks::images::{
    extract_file_name, extract_file_name_from_path, extract_file_name_from_url,
    extract_urls_from_html, is_gif, is_html, is_jpeg, is_png, is_svg, is_webp, download_image,
    replace_url_with_path, resize, resize_download, target_bounds, text_opens_as_html,
    text_opens_as_svg, trim, white_space, Fetched, ManagedImageFormat, ResizableImageFormat, MAX_WIDTH,
};
use image::{DynamicImage, ImageFormat, Rgb, RgbImage, Rgba, RgbaImage};
use std::io::Cursor;

fn png(width: u32, height: u32) -> Vec<u8> {
    let image = RgbaImage::from_pixel(width, height, Rgba([10, 200, 30, 0]));
    let mut out = Vec::new();
    DynamicImage::ImageRgba8(image).write_to(&mut Cursor::new(&mut out), ImageFormat::Png).unwrap();
    out
}

fn jpeg(width: u32, height: u32) -> Vec<u8> {
    let image = RgbImage::from_fn(width, height, |x, y| Rgb([(x % 256) as u8, (y % 256) as u8, 90]));
    let mut out = Vec::new();
    DynamicImage::ImageRgb8(image).write_to(&mut Cursor::new(&mut out), ImageFormat::Jpeg).unwrap();
    out
}

fn webp(width: u32, height: u32) -> Vec<u8> {
    let image = RgbaImage::from_pixel(width, height, Rgba([200, 10, 30, 255]));
    let encoder = webp::Encoder::from_rgba(image.as_raw(), width, height);
    encoder.encode_lossless().to_vec()
}

fn decode(bytes: &[u8]) -> (ImageFormat, DynamicImage) {
    let format = image::guess_format(bytes).unwrap();
    (format, image::load_from_memory(bytes).unwrap())
}

#[test]
fn formats_are_told_from_the_first_bytes() {
    assert_eq!(ManagedImageFormat::new(&png(1, 1)), Some(ManagedImageFormat::Png));
    assert_eq!(ManagedImageFormat::new(&jpeg(2, 2)), Some(ManagedImageFormat::Jpeg));
    assert_eq!(ManagedImageFormat::new(&webp(2, 2)), Some(ManagedImageFormat::Webp));
    assert_eq!(ManagedImageFormat::new(b"GIF89a\x01\x00"), Some(ManagedImageFormat::Gif));
    assert_eq!(ManagedImageFormat::new(b"GIF87a\x01\x00"), Some(ManagedImageFormat::Gif));
    assert_eq!(ManagedImageFormat::new(b"<?xml version=\"1.0\"?><svg/>"), Some(ManagedImageFormat::Svg));
    assert_eq!(ManagedImageFormat::new(b"\n  <SVG xmlns=\"x\"></SVG>"), Some(ManagedImageFormat::Svg));
    assert_eq!(ManagedImageFormat::new(b"<!DOCTYPE html><html></html>"), Some(ManagedImageFormat::Html));
    assert_eq!(ManagedImageFormat::new(b"  <HTML><body/></HTML>"), Some(ManagedImageFormat::Html));
    assert_eq!(ManagedImageFormat::new(b"plain text"), None);
    assert_eq!(ManagedImageFormat::new(b""), None);
    assert_eq!(ManagedImageFormat::new(&[0xFF, 0xFE, 0x00, 0x01]), None);
}

#[test]
fn signatures_need_more_than_their_own_length() {
    let signature = [0x89, 0x50, 0x4E, 0x47, 0x0D, 0x0A, 0x1A, 0x0A];
    assert!(!is_png(&signature));
    let mut longer = signature.to_vec();
    longer.push(0);
    assert!(is_png(&longer));
    assert!(!is_jpeg(&[0xFF, 0xD8, 0xFF]));
    assert!(is_jpeg(&[0xFF, 0xD8, 0xFF, 0xE0]));
    assert!(!is_gif(b"GIF"));
    assert!(is_gif(b"GIF8"));
    assert!(is_webp(b"RIFF\x00\x00\x00\x00WEBP"));
    assert!(!is_webp(b"RIFF\x00\x00\x00\x00WEBX"));
    assert!(!is_webp(b"RIFF\x00\x00\x00\x00WEB"));
    assert!(is_svg(b"<svg>"));
    assert!(!is_svg(b"<html>"));
    assert!(is_html(b"<html>"));
    assert!(!is_html(b"<!doctype htm"));
    assert!(!is_html(&[b'<', b'h', b't', b'm', b'l', 0xFF]));
    assert!(text_opens_as_svg("<?xml"));
    assert!(!text_opens_as_svg(" <svg"));
    assert!(text_opens_as_html("<!doctype html>"));
    assert!(!text_opens_as_html("<!DOCTYPE html>"));
}

#[test]
fn white_space_around_text_is_passed_over() {
    for space in ["\t", "\n", "\u{b}", "\u{c}", "\r", " ", "\u{85}", "\u{a0}", "\u{1680}", "\u{2000}", "\u{200a}", "\u{2028}", "\u{2029}", "\u{202f}", "\u{205f}", "\u{3000}"] {
        assert!(is_svg(format!("{space}<svg>{space}").as_bytes()), "{space:?}");
        assert!(is_html(format!("{space}{space}<html>").as_bytes()), "{space:?}");
    }
    // Characters that are no white space stay where they are.
    for other in ["\u{200b}", "\u{feff}", "\u{8}", "\u{e}", "\u{1f}", "\u{180e}", "\u{200b}", "\u{2060}", "x"] {
        assert!(!is_svg(format!("{other}<svg>").as_bytes()), "{other:?}");
    }
}

#[test]
fn trimming_goes_by_white_space() {
    for text in [
        "",
        " ",
        "a",
        "  a b  ",
        "\t\n a \r\n",
        "\u{3000}a\u{a0}",
        "\u{200b} a \u{200b}",
        "\u{85}\u{1680}x\u{2028}\u{2029}\u{202f}\u{205f}",
        " \u{feff}a",
        "a  ",
        "   ",
    ] {
        assert_eq!(trim(text), text.trim(), "{text:?}");
    }
    for code in 0..0x3100u32 {
        if let Some(c) = char::from_u32(code) {
            assert_eq!(white_space(c), c.is_whitespace(), "{code:x}");
        }
    }
    assert!(!white_space('\u{feff}'));
    assert!(!white_space('\u{10ffff}'));
}

#[test]
fn only_raster_formats_are_resizable() {
    assert_eq!(ManagedImageFormat::Png.as_resizable_image(), Some(ResizableImageFormat::Png));
    assert_eq!(ManagedImageFormat::Jpeg.as_resizable_image(), Some(ResizableImageFormat::Jpeg));
    assert_eq!(ManagedImageFormat::Webp.as_resizable_image(), Some(ResizableImageFormat::Webp));
    assert_eq!(ManagedImageFormat::Gif.as_resizable_image(), None);
    assert_eq!(ManagedImageFormat::Svg.as_resizable_image(), None);
    assert_eq!(ManagedImageFormat::Html.as_resizable_image(), None);
}

#[test]
fn bounds_keep_small_images_and_fit_wide_ones() {
    assert_eq!(MAX_WIDTH, 600);
    assert_eq!(target_bounds(1, 1), (1, 1));
    assert_eq!(target_bounds(600, 4000), (600, 4000));
    assert_eq!(target_bounds(1200, 800), (600, 400));
    assert_eq!(target_bounds(601, 601), (600, 600));
    assert_eq!(target_bounds(1000, 333), (600, 200));
    assert_eq!(target_bounds(1200, 1), (600, 1));
    assert_eq!(target_bounds(4294967295, 4294967295), (600, 600));
    assert_eq!(target_bounds(0, 0), (0, 0));
}

#[test]
fn a_small_png_stays_as_it_is() {
    let input = png(1, 1);
    let output = resize(input.clone()).unwrap();
    let (format, image) = decode(&output);
    assert_eq!(format, ImageFormat::Png);
    assert_eq!((image.width(), image.height()), (1, 1));
    assert_eq!(image.to_rgba8().get_pixel(0, 0), &Rgba([10, 200, 30, 0]));
    assert_eq!(image.to_rgba8(), decode(&input).1.to_rgba8());
}

#[test]
fn a_wide_jpeg_comes_down_to_the_limit() {
    let output = resize(jpeg(1200, 800)).unwrap();
    let (format, image) = decode(&output);
    assert_eq!(format, ImageFormat::Jpeg);
    assert_eq!((image.width(), image.height()), (600, 400));
    let output = ResizableImageFormat::Jpeg.rezise(&jpeg(1000, 333)).unwrap();
    let (_, image) = decode(&output);
    assert_eq!((image.width(), image.height()), (600, 200));
}

#[test]
fn a_wide_png_comes_down_to_the_limit() {
    let output = resize(png(900, 300)).unwrap();
    let (format, image) = decode(&output);
    assert_eq!(format, ImageFormat::Png);
    assert_eq!((image.width(), image.height()), (600, 200));
}

#[test]
fn webp_becomes_png() {
    let output = resize(webp(40, 20)).unwrap();
    let (format, image) = decode(&output);
    assert_eq!(format, ImageFormat::Png);
    assert_eq!((image.width(), image.height()), (40, 20));
    assert_eq!(image.to_rgba8().get_pixel(3, 3), &Rgba([200, 10, 30, 255]));
    let output = resize(webp(1200, 300)).unwrap();
    let (format, image) = decode(&output);
    assert_eq!(format, ImageFormat::Png);
    assert_eq!((image.width(), image.height()), (600, 150));
}

#[test]
fn gif_and_svg_pass_through() {
    let gif = b"GIF89a\x01\x00\x01\x00\x00\x00\x00;".to_vec();
    assert_eq!(resize(gif.clone()).unwrap(), gif);
    let svg = b"<svg xmlns=\"http://www.w3.org/2000/svg\"></svg>".to_vec();
    assert_eq!(resize(svg.clone()).unwrap(), svg);
}

#[test]
fn pages_and_unknown_bytes_are_rejected() {
    assert!(matches!(
        resize(b"<!DOCTYPE html><html><body>404</body></html>".to_vec()),
        Err(Failure::ImageFormat { .. })
    ));
    assert!(matches!(resize(b"what is this".to_vec()), Err(Failure::ImageFormat { .. })));
    assert!(matches!(resize(Vec::new()), Err(Failure::ImageFormat { .. })));
    // A signature without an image behind it.
    let mut broken = vec![0x89, 0x50, 0x4E, 0x47, 0x0D, 0x0A, 0x1A, 0x0A];
    broken.extend_from_slice(b"not a png at all");
    assert!(matches!(resize(broken), Err(Failure::ImageFormat { .. })));
    assert!(matches!(
        ResizableImageFormat::Webp.rezise(b"RIFF\x00\x00\x00\x00WEBPjunk"),
        Err(Failure::ImageFormat { .. })
    ));
}

#[test]
fn the_same_bytes_give_the_same_image() {
    for input in [png(700, 10), jpeg(1200, 800), webp(30, 30), b"GIF89a....".to_vec()] {
        assert_eq!(resize(input.clone()).unwrap(), resize(input).unwrap());
    }
}

#[test]
fn a_failed_download_names_its_url() {
    let url = "https://img.example.org/broken.png";
    match resize_download(url, b"<html>gone</html>".to_vec()) {
        Err(Failure::ImageFormat { reason }) => {
            assert_eq!(reason, "Skipping html. URL: https://img.example.org/broken.png")
        }
        other => panic!("unexpected {other:?}"),
    }
    match resize_download(url, b"???".to_vec()) {
        Err(Failure::ImageFormat { reason }) => assert!(reason.ends_with(" URL: https://img.example.org/broken.png")),
        other => panic!("unexpected {other:?}"),
    }
    let gif = b"GIF89a....".to_vec();
    assert_eq!(resize_download(url, gif.clone()).unwrap(), gif);
}

#[test]
fn a_cached_image_is_used_as_it_is() {
    let wide = png(900, 300);
    let prepared = download_image("u", Fetched::FromCache(wide.clone())).unwrap();
    assert_eq!(prepared.data, wide);
    assert!(!prepared.store);
    let prepared = download_image("u", Fetched::FromNetwork(wide.clone())).unwrap();
    assert_ne!(prepared.data, wide);
    assert!(prepared.store);
    assert_eq!(decode(&prepared.data).1.width(), 600);
    // Even a page is taken from the cache as it is.
    assert!(download_image("u", Fetched::FromCache(b"<html>".to_vec())).is_ok());
    assert!(download_image("u", Fetched::FromNetwork(b"<html>".to_vec())).is_err());
}

#[test]
fn file_names_from_urls_and_paths() {
    assert_eq!(
        extract_file_name_from_url("https://www.example.org/a/b/cover.jpg?size=big#top"),
        Some("cover.jpg".to_string())
    );
    assert_eq!(
        extract_file_name_from_url("https://www.example.org/a/we%5Bird%5D.png"),
        Some("we_5Bird_5D.png".to_string())
    );
    assert_eq!(extract_file_name_from_url("https://www.example.org"), Some("".to_string()));
    assert_eq!(extract_file_name_from_url("/relative/path.png"), None);
    assert_eq!(extract_file_name_from_url("mailto:a@example.org"), None);
    assert_eq!(extract_file_name_from_path("/relative/pa:th.png"), Some("pa_th.png".to_string()));
    assert_eq!(extract_file_name_from_path("images/x.gif"), Some("x.gif".to_string()));
    assert_eq!(extract_file_name_from_path(""), None);
    assert_eq!(extract_file_name_from_path("/"), None);
    assert_eq!(extract_file_name_from_path("dir/.."), None);
    assert_eq!(extract_file_name_from_path("dir/."), Some("dir".to_string()));
    assert_eq!(extract_file_name_from_path("dir/"), Some("dir".to_string()));
    assert_eq!(extract_file_name_from_path(".hidden"), Some(".hidden".to_string()));
    assert_eq!(extract_file_name_from_path("a/b/..."), Some("...".to_string()));
    assert_eq!(extract_file_name("https://h.example/x/y.png").unwrap(), "y.png");
    assert_eq!(extract_file_name("../images/y.png").unwrap(), "y.png");
    match extract_file_name("") {
        Err(Failure::ImageFormat { reason }) => assert_eq!(reason, " is neither an url nor a path"),
        other => panic!("unexpected {other:?}"),
    }
}

#[test]
fn images_of_a_fragment() {
    let body = Some("<p><img src=\"https://a.example/x/1.png\"><img src=\"https://a.example/2.jpg?w=1\"></p>".to_string());
    assert_eq!(
        extract_urls_from_html(&body),
        vec!["https://a.example/x/1.png".to_string(), "https://a.example/2.jpg?w=1".to_string()]
    );
    assert_eq!(extract_urls_from_html(&None), Vec::<String>::new());
}

#[test]
fn images_point_into_the_archive() {
    let body = "<p><img src=\"https://a.example/x/1.png\"/>text<img src=\"https://a.example/2.jpg?w=1\"/></p>";
    assert_eq!(
        replace_url_with_path(body.to_string()),
        "<p><img src=\"../images/1.png\"/>text<img src=\"../images/2.jpg\"/></p>"
    );
    assert_eq!(replace_url_with_path("<p>no image</p>".to_string()), "<p>no image</p>");
    // Every occurrence of a source is rewritten, wherever it stands.
    assert_eq!(
        replace_url_with_path("<img src=\"https://a.example/1.png\"/> see https://a.example/1.png".to_string()),
        "<img src=\"../images/1.png\"/> see ../images/1.png"
    );
}
