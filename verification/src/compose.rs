//! Building outbound file-share message bodies, and the content-type
//! table for uploads.

use vstd::prelude::*;
use crate::text::str_eq;

verus! {

/// The character for one decimal digit.
pub open spec fn digit_char(d: int) -> char {
    ((48 + d) as u8) as char
}

/// The decimal text of a non-negative number, most significant digit
/// first.
pub open spec fn dec_str(n: int) -> Seq<char>
    decreases n,
{
    if n < 10 {
        seq![digit_char(if n < 0 {
            0
        } else {
            n
        })]
    } else {
        dec_str(n / 10) + seq![digit_char(n % 10)]
    }
}

/// The decimal text of a number.
pub fn u64_to_string(n: u64) -> (r: String)
    ensures
        r@ == dec_str(n as int),
{
    let mut digits: Vec<u8> = Vec::new();
    let mut m: u64 = n;
    let mut done = false;
    while !done
        invariant
            digits@.len() == 0 ==> m == n && !done,
            digits@.len() > 0 && m > 0 ==> dec_str(n as int) == dec_str(m as int)
                + rev_digit_chars(digits@),
            digits@.len() > 0 && m == 0 ==> dec_str(n as int) == rev_digit_chars(digits@),
            m == 0 && digits@.len() > 0 ==> done,
            done ==> m == 0 && digits@.len() > 0,
        decreases m + (if done {
            0int
        } else {
            1int
        }),
    {
        let d: u8 = (m % 10) as u8 + 48;
        let ghost olddigits = digits@;
        let ghost oldm = m as int;
        digits.push(d);
        m = m / 10;
        proof {
            assert forall|t: int| 0 <= t < digits@.len() implies rev_digit_chars(digits@)[t] == (
            if t == 0 {
                digit_char(oldm % 10)
            } else {
                rev_digit_chars(olddigits)[t - 1]
            }) by {
                if t == 0 {
                    assert(digits@[digits@.len() - 1] == d);
                } else {
                    assert(digits@[digits@.len() - 1 - t] == olddigits[olddigits.len() - 1 - (t
                        - 1)]);
                }
            }
            if oldm >= 10 {
                assert(rev_digit_chars(digits@) =~= seq![digit_char(oldm % 10)]
                    + rev_digit_chars(olddigits));
                assert(dec_str(oldm) == dec_str(oldm / 10) + seq![digit_char(oldm % 10)]);
                if olddigits.len() > 0 {
                    assert(dec_str(m as int) + rev_digit_chars(digits@) =~= dec_str(oldm)
                        + rev_digit_chars(olddigits));
                } else {
                    assert(dec_str(m as int) + rev_digit_chars(digits@) =~= dec_str(n as int));
                }
            } else {
                assert(dec_str(oldm) == seq![digit_char(oldm)]);
                assert(rev_digit_chars(digits@) =~= seq![digit_char(oldm)] + rev_digit_chars(
                    olddigits,
                ));
                if olddigits.len() > 0 {
                    assert(rev_digit_chars(digits@) =~= dec_str(oldm) + rev_digit_chars(
                        olddigits,
                    ));
                } else {
                    assert(rev_digit_chars(digits@) =~= dec_str(n as int));
                }
            }
        }
        if m == 0 {
            done = true;
        }
    }
    let mut out = String::new();
    let k = digits.len();
    let mut j: usize = k;
    while j > 0
        invariant
            j <= k,
            k == digits@.len(),
            out@ =~= rev_digit_chars(digits@).take(k - j),
        decreases j,
    {
        j = j - 1;
        let c: char = digits[j] as char;
        proof {
            assert(rev_digit_chars(digits@)[k - j - 1] == digits@[j as int] as char);
        }
        crate::text::push_char(&mut out, c);
        proof {
            assert(out@ =~= rev_digit_chars(digits@).take(k - j));
        }
    }
    proof {
        assert(rev_digit_chars(digits@).take(k as int) =~= rev_digit_chars(digits@));
        assert(out@ =~= dec_str(n as int));
    }
    out
}

/// The digit bytes as characters, in reverse order.
pub open spec fn rev_digit_chars(v: Seq<u8>) -> Seq<char> {
    Seq::new(v.len(), |i: int| v[v.len() - 1 - i] as char)
}

/// The message type and markup body announcing an uploaded file or image.
pub open spec fn spec_file_message(
    obj_id: Seq<char>,
    obj_url: Seq<char>,
    file_name: Seq<char>,
    file_size: int,
    is_image: bool,
) -> (Seq<char>, Seq<char>) {
    if is_image {
        (
            "RichText/UriObject"@,
            "<URIObject type=\"Picture.1\" uri=\""@ + obj_url + "\" url_thumbnail=\""@ + obj_url
                + "/views/imgt1\"><a href=\"https://api.asm.skype.com/s/i?"@ + obj_id
                + "\">https://api.asm.skype.com/s/i?"@ + obj_id
                + "</a><meta type=\"photo\" originalName=\""@ + file_name + "\"/></URIObject>"@,
        )
    } else {
        (
            "RichText/Media_GenericFile"@,
            "<URIObject type=\"File.1\" uri=\""@ + obj_url + "\" url_thumbnail=\""@ + obj_url
                + "/views/thumbnail\"><FileSize v=\""@ + dec_str(file_size)
                + "\"/><OriginalName v=\""@ + file_name
                + "\"/><a href=\"https://login.skype.com/login/sso?go=webclient.xmm&docid="@
                + obj_id + "\">https://login.skype.com/login/sso?go=webclient.xmm&docid="@ + obj_id
                + "</a></URIObject>"@,
        )
    }
}

/// Build the message type and markup body for a file or image upload.
pub fn build_file_message(
    obj_id: &str,
    obj_url: &str,
    file_name: &str,
    file_size: usize,
    is_image: bool,
) -> (r: (String, String))
    ensures
        (r.0@, r.1@) == spec_file_message(
            obj_id@,
            obj_url@,
            file_name@,
            file_size as int,
            is_image,
        ),
{
    if is_image {
        let kind = String::from_str("RichText/UriObject");
        let body = String::from_str("<URIObject type=\"Picture.1\" uri=\"").concat(obj_url).concat(
            "\" url_thumbnail=\"",
        ).concat(obj_url).concat("/views/imgt1\"><a href=\"https://api.asm.skype.com/s/i?").concat(
            obj_id,
        ).concat("\">https://api.asm.skype.com/s/i?").concat(obj_id).concat(
            "</a><meta type=\"photo\" originalName=\"",
        ).concat(file_name).concat("\"/></URIObject>");
        (kind, body)
    } else {
        let size_text = u64_to_string(file_size as u64);
        let kind = String::from_str("RichText/Media_GenericFile");
        let body = String::from_str("<URIObject type=\"File.1\" uri=\"").concat(obj_url).concat(
            "\" url_thumbnail=\"",
        ).concat(obj_url).concat("/views/thumbnail\"><FileSize v=\"").concat(
            size_text.as_str(),
        ).concat("\"/><OriginalName v=\"").concat(file_name).concat(
            "\"/><a href=\"https://login.skype.com/login/sso?go=webclient.xmm&docid=",
        ).concat(obj_id).concat(
            "\">https://login.skype.com/login/sso?go=webclient.xmm&docid=",
        ).concat(obj_id).concat("</a></URIObject>");
        (kind, body)
    }
}

/// The content type registered for a file extension.
pub open spec fn spec_mime(ext: Seq<char>) -> Seq<char> {
    if ext == "jpg"@ || ext == "jpeg"@ {
        "image/jpeg"@
    } else if ext == "png"@ {
        "image/png"@
    } else if ext == "gif"@ {
        "image/gif"@
    } else if ext == "bmp"@ {
        "image/bmp"@
    } else if ext == "webp"@ {
        "image/webp"@
    } else if ext == "pdf"@ {
        "application/pdf"@
    } else if ext == "txt"@ {
        "text/plain"@
    } else if ext == "json"@ {
        "application/json"@
    } else if ext == "zip"@ {
        "application/zip"@
    } else if ext == "doc"@ {
        "application/msword"@
    } else if ext == "docx"@ {
        "application/vnd.openxmlformats-officedocument.wordprocessingml.document"@
    } else if ext == "xls"@ {
        "application/vnd.ms-excel"@
    } else if ext == "xlsx"@ {
        "application/vnd.openxmlformats-officedocument.spreadsheetml.sheet"@
    } else if ext == "ppt"@ {
        "application/vnd.ms-powerpoint"@
    } else if ext == "pptx"@ {
        "application/vnd.openxmlformats-officedocument.presentationml.presentation"@
    } else if ext == "csv"@ {
        "text/csv"@
    } else if ext == "mp4"@ {
        "video/mp4"@
    } else if ext == "mp3"@ {
        "audio/mpeg"@
    } else {
        "application/octet-stream"@
    }
}

/// Map a file extension to a content type.
pub fn mime_for_ext(ext: &str) -> (r: &'static str)
    ensures
        r@ == spec_mime(ext@),
{
    if str_eq(ext, "jpg") || str_eq(ext, "jpeg") {
        "image/jpeg"
    } else if str_eq(ext, "png") {
        "image/png"
    } else if str_eq(ext, "gif") {
        "image/gif"
    } else if str_eq(ext, "bmp") {
        "image/bmp"
    } else if str_eq(ext, "webp") {
        "image/webp"
    } else if str_eq(ext, "pdf") {
        "application/pdf"
    } else if str_eq(ext, "txt") {
        "text/plain"
    } else if str_eq(ext, "json") {
        "application/json"
    } else if str_eq(ext, "zip") {
        "application/zip"
    } else if str_eq(ext, "doc") {
        "application/msword"
    } else if str_eq(ext, "docx") {
        "application/vnd.openxmlformats-officedocument.wordprocessingml.document"
    } else if str_eq(ext, "xls") {
        "application/vnd.ms-excel"
    } else if str_eq(ext, "xlsx") {
        "application/vnd.openxmlformats-officedocument.spreadsheetml.sheet"
    } else if str_eq(ext, "ppt") {
        "application/vnd.ms-powerpoint"
    } else if str_eq(ext, "pptx") {
        "application/vnd.openxmlformats-officedocument.presentationml.presentation"
    } else if str_eq(ext, "csv") {
        "text/csv"
    } else if str_eq(ext, "mp4") {
        "video/mp4"
    } else if str_eq(ext, "mp3") {
        "audio/mpeg"
    } else {
        "application/octet-stream"
    }
}

/// Whether a file extension denotes an inline-displayable image.
pub open spec fn spec_is_image_ext(ext: Seq<char>) -> bool {
    ||| ext == "jpg"@
    ||| ext == "jpeg"@
    ||| ext == "png"@
    ||| ext == "gif"@
    ||| ext == "bmp"@
    ||| ext == "webp"@
}

/// Whether a file extension denotes an inline-displayable image.
pub fn is_image_ext(ext: &str) -> (r: bool)
    ensures
        r == spec_is_image_ext(ext@),
{
    str_eq(ext, "jpg") || str_eq(ext, "jpeg") || str_eq(ext, "png") || str_eq(ext, "gif") || str_eq(
        ext,
        "bmp",
    ) || str_eq(ext, "webp")
}

} // verus!
