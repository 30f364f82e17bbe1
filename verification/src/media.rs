use vstd::prelude::*;
use vstd::string::{StrSliceExecFns, StringExecFns, StringSliceAdditionalSpecFns};
use crate::codec::{
    ascii_lowercase, base64_decoded, base64_encoded, decode_base64, encode_base64, is_ascii_text,
    lowercased, to_lowercase,
};
use crate::error::{AppError, ErrorCode};
use crate::text::{
    chars_of, find_text, first_occurrence, has_prefix, is_first_occurrence, occurs_at,
    occurs_in, starts_with,
};

verus! {

broadcast use vstd::string::group_string_axioms;

// ==================== Model ====================

/// The image type that the first bytes of a file announce; JPEG when none is recognised.
pub open spec fn detected_mime(data: Seq<u8>) -> Seq<char> {
    if data.len() < 4 {
        "image/jpeg"@
    } else if data[0] == 0x89 && data[1] == 0x50 && data[2] == 0x4E && data[3] == 0x47 {
        "image/png"@
    } else if data[0] == 0x47 && data[1] == 0x49 && data[2] == 0x46 && data[3] == 0x38 {
        "image/gif"@
    } else if data[0] == 0x52 && data[1] == 0x49 && data[2] == 0x46 && data[3] == 0x46 {
        "image/webp"@
    } else {
        "image/jpeg"@
    }
}

/// A data URI: `data:<mime>;base64,<encoded>`.
pub open spec fn data_uri_text(mime: Seq<char>, encoded: Seq<char>) -> Seq<char> {
    "data:"@ + mime + ";base64,"@ + encoded
}

/// The text between the data URI prefix and the first Base64 marker.
pub open spec fn uri_mime(uri: Seq<char>) -> Seq<char> {
    uri.subrange(5, first_occurrence(uri, ";base64,"@))
}

/// The text after the first Base64 marker.
pub open spec fn uri_payload(uri: Seq<char>) -> Seq<char> {
    uri.subrange(first_occurrence(uri, ";base64,"@) + 8, uri.len() as int)
}

/// What parsing a data URI gives: its mime type and decoded bytes, or the error.
pub open spec fn parses_as(uri: Seq<char>, res: Result<(Seq<char>, Seq<u8>), AppError>) -> bool {
    if !has_prefix(uri, "data:"@) {
        res matches Err(e) && e.is_business(ErrorCode::InvalidInput, "不是有效的 data URI"@)
    } else if !occurs_in(uri, ";base64,"@) {
        res matches Err(e) && e.is_business(
            ErrorCode::InvalidInput,
            "data URI 缺少 base64 标识"@,
        )
    } else {
        match base64_decoded(uri_payload(uri)) {
            Some(bytes) => res == Ok::<(Seq<char>, Seq<u8>), AppError>((uri_mime(uri), bytes)),
            None => res matches Err(e) && e.is_wrapped(ErrorCode::InvalidInput, "Base64 解码失败"@),
        }
    }
}

/// The file extension under which an image of the given type is stored.
pub open spec fn extension_for_mime_spec(mime: Seq<char>) -> Seq<char> {
    if mime == "image/png"@ {
        "png"@
    } else if mime == "image/gif"@ {
        "gif"@
    } else if mime == "image/webp"@ {
        "webp"@
    } else {
        "jpg"@
    }
}

/// The image type of a cover file, from its extension already in lowercase.
pub open spec fn cover_mime_of_lower(e: Seq<char>) -> Seq<char> {
    if e == "png"@ {
        "image/png"@
    } else if e == "jpg"@ || e == "jpeg"@ {
        "image/jpeg"@
    } else if e == "gif"@ {
        "image/gif"@
    } else if e == "webp"@ {
        "image/webp"@
    } else {
        "image/jpeg"@
    }
}

/// The image type of a cover file, from its extension in any letter case.
pub open spec fn cover_mime_spec(ext: Seq<char>) -> Seq<char> {
    cover_mime_of_lower(if is_ascii_text(ext) { ascii_lowercase(ext) } else { lowercased(ext) })
}

/// The image type a cover saved with type `m` is read back with: `m` itself for PNG, GIF and
/// WebP, JPEG for every other type.
pub open spec fn stored_cover_mime(m: Seq<char>) -> Seq<char> {
    if m == "image/png"@ || m == "image/gif"@ || m == "image/webp"@ {
        m
    } else {
        "image/jpeg"@
    }
}

/// The text holds no `;`.
pub open spec fn no_semicolon(m: Seq<char>) -> bool {
    forall|i: int| 0 <= i < m.len() ==> m[i] != ';'
}

/// The image type of a screenshot file, from its extension in any letter case (PNG when
/// it has none).
pub open spec fn screenshot_mime_spec(ext: Option<Seq<char>>) -> Seq<char> {
    let e = lowercased(
        match ext {
            Some(x) => x,
            None => "png"@,
        },
    );
    if e == "jpg"@ || e == "jpeg"@ {
        "image/jpeg"@
    } else if e == "png"@ {
        "image/png"@
    } else if e == "gif"@ {
        "image/gif"@
    } else if e == "webp"@ {
        "image/webp"@
    } else {
        "image/png"@
    }
}

/// The image type of the logo file, from its extension as written.
pub open spec fn logo_mime_spec(ext: Option<Seq<char>>) -> Seq<char> {
    match ext {
        Some(e) => if e == "png"@ {
            "image/png"@
        } else if e == "jpg"@ || e == "jpeg"@ {
            "image/jpeg"@
        } else if e == "gif"@ {
            "image/gif"@
        } else if e == "webp"@ {
            "image/webp"@
        } else {
            "image/png"@
        },
        None => "image/png"@,
    }
}

/// The cover file names tried for a game, in order.
pub open spec fn cover_candidates_spec(game_id: Seq<char>) -> Seq<Seq<char>> {
    seq![
        game_id + "."@ + "jpg"@,
        game_id + "."@ + "png"@,
        game_id + "."@ + "gif"@,
        game_id + "."@ + "webp"@,
        game_id + "."@ + "jpeg"@,
    ]
}

/// What to do with the cover field of a game that is saved.
pub enum CoverPlan {
    /// Store this text as the cover file name.
    Keep(String),
    /// Write these bytes to this file in the cover directory, and store the file name.
    Write { file_name: String, bytes: Vec<u8> },
}

// ==================== Functions ====================

fn text_eq(a: &str, b: &str) -> (eq: bool)
    ensures
        eq == (a@ == b@),
{
    String::from_str(a) == String::from_str(b)
}

/// The image type that the first bytes of a file announce.
pub fn detect_image_mime(data: &[u8]) -> (mime: &'static str)
    ensures
        mime@ == detected_mime(data@),
{
    if data.len() < 4 {
        return "image/jpeg";
    }
    if data[0] == 0x89 && data[1] == 0x50 && data[2] == 0x4E && data[3] == 0x47 {
        "image/png"
    } else if data[0] == 0x47 && data[1] == 0x49 && data[2] == 0x46 && data[3] == 0x38 {
        "image/gif"
    } else if data[0] == 0x52 && data[1] == 0x49 && data[2] == 0x46 && data[3] == 0x46 {
        "image/webp"
    } else {
        "image/jpeg"
    }
}

/// A data URI holding `data` as the given image type.
pub fn data_uri(mime: &str, data: &[u8]) -> (uri: String)
    requires
        data@.len() <= usize::MAX / 4 * 3,
    ensures
        uri@ == data_uri_text(mime@, base64_encoded(data@)),
        base64_decoded(base64_encoded(data@)) == Some(data@),
        no_semicolon(mime@) ==> parses_as(uri@, Ok((mime@, data@))),
{
    let mut uri = String::from_str("data:");
    uri.append(mime);
    uri.append(";base64,");
    let encoded = encode_base64(data);
    uri.append(encoded.as_str());
    proof {
        if no_semicolon(mime@) {
            law_data_uri_roundtrip(mime@, data@, encoded@);
        }
    }
    uri
}

/// A data URI holding `data`, typed by what its first bytes announce.
pub fn bytes_to_data_uri(data: &[u8]) -> (uri: String)
    requires
        data@.len() <= usize::MAX / 4 * 3,
    ensures
        uri@ == data_uri_text(detected_mime(data@), base64_encoded(data@)),
        parses_as(uri@, Ok((detected_mime(data@), data@))),
{
    let mime = detect_image_mime(data);
    proof {
        lemma_detected_mime_has_no_semicolon(data@);
    }
    data_uri(mime, data)
}

/// Splits a data URI into its image type and its decoded bytes.
pub fn parse_data_uri(uri: &str) -> (res: Result<(String, Vec<u8>), AppError>)
    ensures
        parses_as(
            uri@,
            match res {
                Ok((mime, bytes)) => Ok((mime@, bytes@)),
                Err(e) => Err(e),
            },
        ),
        res matches Ok((_, bytes)) ==> base64_encoded(bytes@) == uri_payload(uri@),
{
    proof {
        reveal_strlit("data:");
        reveal_strlit(";base64,");
    }
    if !starts_with(uri, "data:") {
        return Err(AppError::new(ErrorCode::InvalidInput, String::from_str("不是有效的 data URI")));
    }
    let cs = chars_of(uri);
    let marker = chars_of(";base64,");
    match find_text(&cs, &marker) {
        None => Err(
            AppError::new(ErrorCode::InvalidInput, String::from_str("data URI 缺少 base64 标识")),
        ),
        Some(idx) => {
            proof {
                assert(marker@.len() == 8);
                assert(occurs_at(cs@, marker@, idx as int));
                assert(idx + 8 <= cs@.len());
                if idx < 5 {
                    assert(uri@[idx as int] == "data:"@[idx as int]);
                    assert(uri@.subrange(idx as int, idx + 8)[0] == ';');
                }
            }
            let mime = uri.substring_char(5, idx);
            assert(cs@.len() == cs.len());
            assert(idx + 8 <= cs.len());
            let start: usize = idx + 8;
            let payload = uri.substring_char(start, cs.len());
            match decode_base64(payload) {
                Ok(bytes) => Ok((String::from_str(mime), bytes)),
                Err(msg) => Err(
                    AppError::wrap(ErrorCode::InvalidInput, String::from_str("Base64 解码失败"), msg),
                ),
            }
        },
    }
}

/// The file extension under which an image of the given type is stored.
pub fn extension_for_mime(mime: &str) -> (ext: &'static str)
    ensures
        ext@ == extension_for_mime_spec(mime@),
{
    if text_eq(mime, "image/png") {
        "png"
    } else if text_eq(mime, "image/gif") {
        "gif"
    } else if text_eq(mime, "image/webp") {
        "webp"
    } else {
        "jpg"
    }
}

/// `<stem>.<ext>`.
fn file_name(stem: &str, ext: &str) -> (name: String)
    ensures
        name@ == stem@ + "."@ + ext@,
{
    let mut name = String::from_str(stem);
    name.append(".");
    name.append(ext);
    name
}

/// Decides what saving a game does with its cover field: an empty field stays empty, a data
/// URI becomes a file named after the game and the image type, anything else is taken as
/// a file name already.
pub fn process_cover(game_id: &str, cover_field: &str) -> (res: Result<CoverPlan, AppError>)
    ensures
        cover_field@.len() == 0 ==> (res matches Ok(CoverPlan::Keep(name)) && name@ == Seq::<
            char,
        >::empty()),
        cover_field@.len() > 0 && !has_prefix(cover_field@, "data:"@) ==> (res matches Ok(
            CoverPlan::Keep(name),
        ) && name@ == cover_field@),
        cover_field@.len() > 0 && has_prefix(cover_field@, "data:"@) ==> match res {
            Ok(CoverPlan::Write { file_name, bytes }) => parses_as(
                cover_field@,
                Ok((uri_mime(cover_field@), bytes@)),
            ) && file_name@ == game_id@ + "."@ + extension_for_mime_spec(uri_mime(cover_field@))
                && base64_encoded(bytes@) == uri_payload(cover_field@),
            Ok(CoverPlan::Keep(_)) => false,
            Err(e) => parses_as(cover_field@, Err(e)),
        },
{
    if cover_field.is_empty() {
        return Ok(CoverPlan::Keep(String::new()));
    }
    if starts_with(cover_field, "data:") {
        match parse_data_uri(cover_field) {
            Ok((mime, bytes)) => {
                let ext = extension_for_mime(mime.as_str());
                Ok(CoverPlan::Write { file_name: file_name(game_id, ext), bytes })
            },
            Err(e) => Err(e),
        }
    } else {
        Ok(CoverPlan::Keep(String::from_str(cover_field)))
    }
}

/// The cover file for the content of a cover: the file name for the game and the bytes to
/// write. A data URI is decoded and the file named after its image type; any other content
/// is raw image data, stored as it is and named after the type its first bytes announce.
pub fn cover_file_from_data_uri(game_id: &str, uri: &str) -> (res: Result<(String, Vec<u8>), AppError>)
    ensures
        has_prefix(uri@, "data:"@) ==> match res {
            Ok((name, bytes)) => parses_as(uri@, Ok((uri_mime(uri@), bytes@))) && name@ == game_id@
                + "."@ + extension_for_mime_spec(uri_mime(uri@)) && base64_encoded(bytes@)
                == uri_payload(uri@),
            Err(e) => parses_as(uri@, Err(e)),
        },
        !has_prefix(uri@, "data:"@) ==> (res matches Ok((name, bytes)) && bytes@ == uri.spec_bytes()
            && name@ == game_id@ + "."@ + extension_for_mime_spec(detected_mime(uri.spec_bytes()))),
{
    if !starts_with(uri, "data:") {
        let bytes = uri.as_bytes_vec();
        let ext = extension_for_mime(detect_image_mime(bytes.as_slice()));
        return Ok((file_name(game_id, ext), bytes));
    }
    match parse_data_uri(uri) {
        Ok((mime, bytes)) => {
            let ext = extension_for_mime(mime.as_str());
            Ok((file_name(game_id, ext), bytes))
        },
        Err(e) => Err(e),
    }
}

/// The cover file names tried for a game, in order.
pub fn cover_candidates(game_id: &str) -> (names: Vec<String>)
    ensures
        names.deep_view() == cover_candidates_spec(game_id@),
{
    let mut names: Vec<String> = Vec::new();
    names.push(file_name(game_id, "jpg"));
    names.push(file_name(game_id, "png"));
    names.push(file_name(game_id, "gif"));
    names.push(file_name(game_id, "webp"));
    names.push(file_name(game_id, "jpeg"));
    assert(names.deep_view() =~= cover_candidates_spec(game_id@));
    names
}

/// The image type of a cover file with the given extension.
pub fn cover_mime(ext: &str) -> (mime: &'static str)
    ensures
        mime@ == cover_mime_spec(ext@),
{
    let e = to_lowercase(ext);
    let s = e.as_str();
    if text_eq(s, "png") {
        "image/png"
    } else if text_eq(s, "jpg") || text_eq(s, "jpeg") {
        "image/jpeg"
    } else if text_eq(s, "gif") {
        "image/gif"
    } else if text_eq(s, "webp") {
        "image/webp"
    } else {
        "image/jpeg"
    }
}

/// The data URI of a cover file read from disk; none when the file name has no extension.
pub fn cover_data_uri(ext: Option<&str>, data: &[u8]) -> (uri: Option<String>)
    requires
        data@.len() <= usize::MAX / 4 * 3,
    ensures
        match ext {
            Some(e) => uri matches Some(u) && u@ == data_uri_text(
                cover_mime_spec(e@),
                base64_encoded(data@),
            ) && parses_as(u@, Ok((cover_mime_spec(e@), data@))),
            None => uri is None,
        },
{
    match ext {
        Some(e) => {
            proof {
                lemma_cover_mimes_have_no_semicolon(
                    if is_ascii_text(e@) {
                        ascii_lowercase(e@)
                    } else {
                        lowercased(e@)
                    },
                );
            }
            Some(data_uri(cover_mime(e), data))
        },
        None => None,
    }
}

/// The image type of a screenshot file with the given extension.
pub fn screenshot_mime(ext: Option<&str>) -> (mime: &'static str)
    ensures
        mime@ == screenshot_mime_spec(
            match ext {
                Some(x) => Some(x@),
                None => None,
            },
        ),
{
    let raw = match ext {
        Some(x) => x,
        None => "png",
    };
    let e = to_lowercase(raw);
    let s = e.as_str();
    if text_eq(s, "jpg") || text_eq(s, "jpeg") {
        "image/jpeg"
    } else if text_eq(s, "png") {
        "image/png"
    } else if text_eq(s, "gif") {
        "image/gif"
    } else if text_eq(s, "webp") {
        "image/webp"
    } else {
        "image/png"
    }
}

/// The image type of the logo file with the given extension.
pub fn logo_mime(ext: Option<&str>) -> (mime: &'static str)
    ensures
        mime@ == logo_mime_spec(
            match ext {
                Some(x) => Some(x@),
                None => None,
            },
        ),
{
    match ext {
        Some(e) => if text_eq(e, "png") {
            "image/png"
        } else if text_eq(e, "jpg") || text_eq(e, "jpeg") {
            "image/jpeg"
        } else if text_eq(e, "gif") {
            "image/gif"
        } else if text_eq(e, "webp") {
            "image/webp"
        } else {
            "image/png"
        },
        None => "image/png",
    }
}

/// The file name the logo is stored under for an image of the given type.
pub fn logo_file_name(mime: &str) -> (name: String)
    ensures
        name@ == "logo"@ + "."@ + extension_for_mime_spec(mime@),
{
    file_name("logo", extension_for_mime(mime))
}

/// The file name of an imported screenshot: `<game>_<time>.<ext>`, PNG when the source
/// has no extension.
pub fn screenshot_file_name(game_id: &str, timestamp: &str, ext: Option<&str>) -> (name: String)
    ensures
        name@ == game_id@ + "_"@ + timestamp@ + "."@ + match ext {
            Some(e) => e@,
            None => "png"@,
        },
{
    let mut stem = String::from_str(game_id);
    stem.append("_");
    stem.append(timestamp);
    let e = match ext {
        Some(e) => e,
        None => "png",
    };
    file_name(stem.as_str(), e)
}

/// The file name of a captured screenshot: `<game>_capture_<time>.png`.
pub fn capture_file_name(game_id: &str, timestamp: &str) -> (name: String)
    ensures
        name@ == game_id@ + "_capture_"@ + timestamp@ + ".png"@,
{
    let mut name = String::from_str(game_id);
    name.append("_capture_");
    name.append(timestamp);
    name.append(".png");
    name
}

/// The file name of the thumbnail of a screenshot: the screenshot's name followed by
/// `_thumb.jpg` (thumbnails are JPEG).
pub fn thumb_file_name(filename: &str) -> (name: String)
    ensures
        name@ == filename@ + "_thumb.jpg"@,
{
    let mut name = String::from_str(filename);
    name.append("_thumb.jpg");
    name
}


// ==================== Laws ====================

/// A mime type that `detect_image_mime` can return holds no `;`.
proof fn lemma_detected_mime_has_no_semicolon(data: Seq<u8>)
    ensures
        no_semicolon(detected_mime(data)),
{
    reveal_strlit("image/jpeg");
    reveal_strlit("image/png");
    reveal_strlit("image/gif");
    reveal_strlit("image/webp");
}

proof fn lemma_cover_mimes_have_no_semicolon(e: Seq<char>)
    ensures
        no_semicolon(cover_mime_of_lower(e)),
{
    reveal_strlit("image/jpeg");
    reveal_strlit("image/png");
    reveal_strlit("image/gif");
    reveal_strlit("image/webp");
}

/// Parsing the data URI made of an image type without `;` and of a Base64 text gives back
/// the type and the bytes the text decodes to (for the text that `encode_base64` returns,
/// the bytes it encoded).
pub proof fn law_data_uri_roundtrip(mime: Seq<char>, data: Seq<u8>, encoded: Seq<char>)
    requires
        no_semicolon(mime),
        base64_decoded(encoded) == Some(data),
    ensures
        parses_as(data_uri_text(mime, encoded), Ok((mime, data))),
{
    reveal_strlit("data:");
    reveal_strlit(";base64,");
    let m = mime;
    let s = data_uri_text(m, encoded);
    let marker = ";base64,"@;
    let p: int = 5 + m.len() as int;
    assert(s.subrange(0, 5) =~= "data:"@);
    assert(has_prefix(s, "data:"@));
    assert(s.subrange(p, p + 8) =~= marker);
    assert(occurs_at(s, marker, p));
    assert forall|j: int| 0 <= j < p implies !occurs_at(s, marker, j) by {
        if occurs_at(s, marker, j) {
            assert(s.subrange(j, j + 8)[0] == s[j]);
            if j < 5 {
                assert(s[j] == "data:"@[j]);
            } else {
                assert(s[j] == m[j - 5]);
            }
        }
    }
    assert(is_first_occurrence(s, marker, p));
    let q = first_occurrence(s, marker);
    assert(is_first_occurrence(s, marker, q));
    assert(q == p);
    assert(uri_mime(s) =~= m);
    assert(uri_payload(s) =~= encoded);
}

/// A cover saved from content of image type `m` is read back, from the file name it was
/// saved under, as a data URI of type `stored_cover_mime(m)` that decodes to the same bytes;
/// when it was saved from a data URI whose Base64 text `payload` encodes the bytes (as every
/// text that decoding accepts does), that same text comes back.
pub proof fn law_cover_save_then_read(m: Seq<char>, bytes: Seq<u8>, payload: Seq<char>)
    requires
        base64_decoded(base64_encoded(bytes)) == Some(bytes),
        base64_encoded(bytes) == payload,
    ensures
        cover_mime_spec(extension_for_mime_spec(m)) == stored_cover_mime(m),
        data_uri_text(cover_mime_spec(extension_for_mime_spec(m)), base64_encoded(bytes))
            == data_uri_text(stored_cover_mime(m), payload),
        parses_as(
            data_uri_text(cover_mime_spec(extension_for_mime_spec(m)), base64_encoded(bytes)),
            Ok((stored_cover_mime(m), bytes)),
        ),
{
    reveal_strlit("png");
    reveal_strlit("gif");
    reveal_strlit("webp");
    reveal_strlit("jpg");
    reveal_strlit("jpeg");
    reveal_strlit("image/png");
    reveal_strlit("image/gif");
    reveal_strlit("image/webp");
    reveal_strlit("image/jpeg");
    let ext = extension_for_mime_spec(m);
    assert(is_ascii_text(ext));
    assert(ascii_lowercase(ext) =~= ext);
    assert(cover_mime_spec(ext) == cover_mime_of_lower(ext));
    lemma_cover_mimes_have_no_semicolon(ext);
    if m == "image/png"@ {
        assert(ext == "png"@);
        assert(cover_mime_of_lower(ext) == "image/png"@);
    } else if m == "image/gif"@ {
        assert(ext == "gif"@);
        assert(ext[0] == 'g' && "png"@[0] == 'p');
        assert(ext != "png"@);
        assert(cover_mime_of_lower(ext) == "image/gif"@);
    } else if m == "image/webp"@ {
        assert(ext == "webp"@);
        assert(ext[0] == 'w' && "png"@[0] == 'p' && "jpg"@[0] == 'j' && "jpeg"@[0] == 'j'
            && "gif"@[0] == 'g');
        assert(ext != "png"@ && ext != "jpg"@ && ext != "jpeg"@ && ext != "gif"@);
        assert(cover_mime_of_lower(ext) == "image/webp"@);
    } else {
        assert(ext == "jpg"@);
        assert(ext[0] == 'j' && "png"@[0] == 'p');
        assert(ext != "png"@);
        assert(cover_mime_of_lower(ext) == "image/jpeg"@);
    }
    law_data_uri_roundtrip(cover_mime_spec(ext), bytes, base64_encoded(bytes));
}

// ==================== Captured pixels ====================

/// The byte at `i` of an opaque RGBA picture made from the BGRA picture `old`: blue and red
/// change places in each pixel of four bytes, and the alpha byte is 255.
pub open spec fn rgba_byte(old: Seq<u8>, i: int) -> u8 {
    if i % 4 == 0 {
        old[i + 2]
    } else if i % 4 == 2 {
        old[i - 2]
    } else if i % 4 == 3 {
        255
    } else {
        old[i]
    }
}

/// Turns the pixels of a screen capture, stored blue, green, red, alpha, into opaque red,
/// green, blue, alpha pixels.
pub fn bgra_to_rgba(buf: &mut Vec<u8>)
    requires
        old(buf).len() % 4 == 0,
    ensures
        final(buf).len() == old(buf).len(),
        forall|i: int| 0 <= i < old(buf).len() ==> #[trigger] final(buf)@[i] == rgba_byte(old(buf)@, i),
{
    let ghost src = buf@;
    let n = buf.len();
    let mut p: usize = 0;
    while p < n
        invariant
            n == src.len(),
            buf.len() == n,
            n % 4 == 0,
            p % 4 == 0,
            p <= n,
            forall|i: int| 0 <= i < p ==> #[trigger] buf@[i] == rgba_byte(src, i),
            forall|i: int| p <= i < n ==> #[trigger] buf@[i] == src[i],
        decreases n - p,
    {
        assert(p + 4 <= n);
        let blue = buf[p];
        let red = buf[p + 2];
        buf.set(p, red);
        buf.set(p + 2, blue);
        buf.set(p + 3, 255);
        assert forall|i: int| 0 <= i < p + 4 implies #[trigger] buf@[i] == rgba_byte(src, i) by {
            if i >= p {
                assert((i - p) % 4 == i % 4);
            }
        }
        p = p + 4;
    }
}

/// A thumbnail's file name always carries the `_thumb` marker, right after the name of its
/// screenshot.
pub proof fn law_thumb_name_marked(filename: Seq<char>)
    ensures
        occurs_at(filename + "_thumb.jpg"@, "_thumb"@, filename.len() as int),
        occurs_in(filename + "_thumb.jpg"@, "_thumb"@),
{
    reveal_strlit("_thumb.jpg");
    reveal_strlit("_thumb");
    let s = filename + "_thumb.jpg"@;
    assert(s.subrange(filename.len() as int, filename.len() as int + 6) =~= "_thumb"@);
}

/// What to do for the thumbnail of a screenshot that is listed.
pub enum ThumbPlan {
    /// The thumbnail exists: show it.
    Use,
    /// The thumbnail is missing but the screenshot exists: make the thumbnail first.
    Generate,
    /// Neither exists: leave the screenshot out.
    Skip,
}

/// Decides on the thumbnail of a listed screenshot from whether the thumbnail and the
/// screenshot exist on disk.
pub fn thumb_plan(thumb_exists: bool, source_exists: bool) -> (plan: ThumbPlan)
    ensures
        thumb_exists ==> plan is Use,
        !thumb_exists && source_exists ==> plan is Generate,
        !thumb_exists && !source_exists ==> plan is Skip,
{
    if thumb_exists {
        ThumbPlan::Use
    } else if source_exists {
        ThumbPlan::Generate
    } else {
        ThumbPlan::Skip
    }
}

} // verus!
