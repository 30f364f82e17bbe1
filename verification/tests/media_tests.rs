use kurisu_gal::codec::decimal_text;
use kurisu_gal::error::ErrorCode;
use kurisu_gal::media::{
    bytes_to_data_uri, capture_file_name, cover_candidates, cover_data_uri, cover_file_from_data_uri,
    cover_mime, data_uri, detect_image_mime, extension_for_mime, logo_file_name, logo_mime,
    parse_data_uri, process_cover, screenshot_file_name, screenshot_mime, thumb_file_name, CoverPlan,
};

const PNG: [u8; 6] = [0x89, 0x50, 0x4E, 0x47, 0x0D, 0x0A];

#[test]
fn detect_image_mime_reads_magic_bytes() {
    assert_eq!(detect_image_mime(&PNG), "image/png");
    assert_eq!(detect_image_mime(b"GIF89a"), "image/gif");
    assert_eq!(detect_image_mime(b"RIFF0000WEBP"), "image/webp");
    assert_eq!(detect_image_mime(&[0xFF, 0xD8, 0xFF, 0xE0]), "image/jpeg");
    assert_eq!(detect_image_mime(&[0x89, 0x50]), "image/jpeg");
    assert_eq!(detect_image_mime(&[]), "image/jpeg");
}

#[test]
fn data_uri_encodes_in_base64() {
    assert_eq!(data_uri("image/png", b"hello"), "data:image/png;base64,aGVsbG8=");
    assert_eq!(bytes_to_data_uri(&PNG), "data:image/png;base64,iVBORw0K");
    assert_eq!(bytes_to_data_uri(b""), "data:image/jpeg;base64,");
}

#[test]
fn parse_data_uri_gives_back_what_was_encoded() {
    let uri = bytes_to_data_uri(b"GIF89a-and-more");
    let (mime, bytes) = parse_data_uri(&uri).unwrap();
    assert_eq!(mime, "image/gif");
    assert_eq!(bytes, b"GIF89a-and-more".to_vec());
}

#[test]
fn parse_data_uri_errors() {
    let e = parse_data_uri("http://x/y.png").unwrap_err();
    assert_eq!(e.to_text(), "[InvalidInput] 不是有效的 data URI");
    let e = parse_data_uri("data:image/png,abc").unwrap_err();
    assert_eq!(e.to_text(), "[InvalidInput] data URI 缺少 base64 标识");
    let e = parse_data_uri("data:image/png;base64,@@@").unwrap_err();
    assert_eq!(e.code(), ErrorCode::InvalidInput);
    assert!(e.to_text().starts_with("[InvalidInput] Base64 解码失败: "));
}

#[test]
fn extension_for_mime_defaults_to_jpg() {
    assert_eq!(extension_for_mime("image/png"), "png");
    assert_eq!(extension_for_mime("image/gif"), "gif");
    assert_eq!(extension_for_mime("image/webp"), "webp");
    assert_eq!(extension_for_mime("image/jpeg"), "jpg");
    assert_eq!(extension_for_mime("image/bmp"), "jpg");
}

#[test]
fn process_cover_keeps_names_and_writes_data_uris() {
    match process_cover("g1", "").unwrap() {
        CoverPlan::Keep(n) => assert_eq!(n, ""),
        _ => panic!("an empty cover is kept"),
    }
    match process_cover("g1", "g1.jpg").unwrap() {
        CoverPlan::Keep(n) => assert_eq!(n, "g1.jpg"),
        _ => panic!("a file name is kept"),
    }
    match process_cover("g1", "data:image/png;base64,aGVsbG8=").unwrap() {
        CoverPlan::Write { file_name, bytes } => {
            assert_eq!(file_name, "g1.png");
            assert_eq!(bytes, b"hello".to_vec());
        }
        _ => panic!("a data URI is written"),
    }
    assert!(process_cover("g1", "data:nothing").is_err());
}

#[test]
fn cover_file_from_data_uri_names_by_type() {
    let (name, bytes) = cover_file_from_data_uri("g7", "data:image/webp;base64,AAEC").unwrap();
    assert_eq!(name, "g7.webp");
    assert_eq!(bytes, vec![0, 1, 2]);
    let (name, _) = cover_file_from_data_uri("g7", "data:image/jpeg;base64,").unwrap();
    assert_eq!(name, "g7.jpg");
}

#[test]
fn cover_candidates_in_order() {
    assert_eq!(cover_candidates("x"), vec!["x.jpg", "x.png", "x.gif", "x.webp", "x.jpeg"]);
}

#[test]
fn mime_of_files() {
    assert_eq!(cover_mime("PNG"), "image/png");
    assert_eq!(cover_mime("JpEg"), "image/jpeg");
    assert_eq!(cover_mime("bmp"), "image/jpeg");
    assert_eq!(screenshot_mime(None), "image/png");
    assert_eq!(screenshot_mime(Some("JPG")), "image/jpeg");
    assert_eq!(screenshot_mime(Some("tiff")), "image/png");
    assert_eq!(logo_mime(Some("gif")), "image/gif");
    assert_eq!(logo_mime(Some("GIF")), "image/png");
    assert_eq!(logo_mime(None), "image/png");
    assert_eq!(cover_data_uri(None, b"x"), None);
    assert_eq!(cover_data_uri(Some("gif"), b"hello"), Some("data:image/gif;base64,aGVsbG8=".to_string()));
}

#[test]
fn file_names() {
    assert_eq!(logo_file_name("image/webp"), "logo.webp");
    assert_eq!(logo_file_name("image/bmp"), "logo.jpg");
    assert_eq!(screenshot_file_name("g1", "20260721_100000", Some("jpg")), "g1_20260721_100000.jpg");
    assert_eq!(screenshot_file_name("g1", "20260721_100000", None), "g1_20260721_100000.png");
    assert_eq!(capture_file_name("g1", "20260721_100000"), "g1_capture_20260721_100000.png");
    assert_eq!(thumb_file_name("a.png"), "a.png_thumb.jpg");
}

#[test]
fn decimal_text_writes_digits() {
    assert_eq!(decimal_text(0), "0");
    assert_eq!(decimal_text(7), "7");
    assert_eq!(decimal_text(40213), "40213");
    assert_eq!(decimal_text(u64::MAX), "18446744073709551615");
}

#[test]
fn raw_cover_content_is_stored_as_it_is() {
    let (name, bytes) = cover_file_from_data_uri("g2", "GIF89a-raw").unwrap();
    assert_eq!(name, "g2.gif");
    assert_eq!(bytes, b"GIF89a-raw".to_vec());
    let (name, bytes) = cover_file_from_data_uri("g3", "plain").unwrap();
    assert_eq!(name, "g3.jpg");
    assert_eq!(bytes, b"plain".to_vec());
}

#[test]
fn a_saved_cover_reads_back_with_the_same_bytes() {
    for (uri, ext, mime) in [
        ("data:image/png;base64,aGVsbG8=", "png", "image/png"),
        ("data:image/bmp;base64,aGVsbG8=", "jpg", "image/jpeg"),
        ("data:image/webp;base64,aGVsbG8=", "webp", "image/webp"),
    ] {
        let (name, bytes) = cover_file_from_data_uri("c", uri).unwrap();
        assert_eq!(name, format!("c.{}", ext));
        let read = cover_data_uri(Some(ext), &bytes).unwrap();
        assert_eq!(read, format!("data:{};base64,aGVsbG8=", mime));
        let (m, back) = parse_data_uri(&read).unwrap();
        assert_eq!(m, mime);
        assert_eq!(back, b"hello".to_vec());
    }
}

#[test]
fn data_uri_parses_back() {
    let uri = data_uri("image/x-icon", &[0, 255, 7]);
    let (m, b) = parse_data_uri(&uri).unwrap();
    assert_eq!(m, "image/x-icon");
    assert_eq!(b, vec![0, 255, 7]);
}

#[test]
fn captured_pixels_become_opaque_rgba() {
    let mut buf = vec![1, 2, 3, 4, 10, 20, 30, 40];
    kurisu_gal::media::bgra_to_rgba(&mut buf);
    assert_eq!(buf, vec![3, 2, 1, 255, 30, 20, 10, 255]);
    let mut empty: Vec<u8> = Vec::new();
    kurisu_gal::media::bgra_to_rgba(&mut empty);
    assert!(empty.is_empty());
}
