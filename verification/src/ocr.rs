//! OCR service: upload checks, the temporary file, the converter script and
//! the reply.
use vstd::prelude::*;
use crate::text::opt_view;
use crate::json::{member_i64, member_str, signed_of, text_of, JsonValue};
use crate::text::{contains, decimal, decimal_string, replace, str_contains, str_replace};

verus! {

/// Largest accepted upload, in bytes.
pub const MAX_UPLOAD: usize = 104857600;

/// The reply to an OCR request.
pub struct OcrReply {
    pub status_code: u16,
    pub text: Option<String>,
    pub pages: Option<i32>,
    pub error: Option<String>,
}

pub open spec fn error_reply_is(r: OcrReply, code: u16, message: Seq<char>) -> bool {
    &&& r.status_code == code
    &&& r.text is None
    &&& r.pages is None
    &&& opt_view(r.error) == Some(message)
}

fn error_reply(code: u16, message: String) -> (r: OcrReply)
    ensures
        error_reply_is(r, code, message@),
{
    OcrReply { status_code: code, text: None, pages: None, error: Some(message) }
}

/// The refusal of an upload of `len` bytes: empty uploads and uploads over
/// the limit are refused; `None` lets the upload through.
pub fn upload_refusal(len: usize) -> (r: Option<OcrReply>)
    ensures
        len == 0 ==> (r matches Some(x) && error_reply_is(x, 400, "empty body"@)),
        len > MAX_UPLOAD ==> (r matches Some(x) && error_reply_is(x, 413, "upload too large"@)),
        0 < len <= MAX_UPLOAD ==> r is None,
{
    if len == 0 {
        Some(error_reply(400, String::from_str("empty body")))
    } else if len > MAX_UPLOAD {
        Some(error_reply(413, String::from_str("upload too large")))
    } else {
        None
    }
}

/// The file extension for an upload with this content type (a missing type
/// counts as PDF).
pub fn upload_extension(content_type: Option<&str>) -> (r: &'static str)
    ensures
        r@ == if contains(
            match content_type {
                Some(t) => t@,
                None => "application/pdf"@,
            },
            "pdf"@,
        ) {
            ".pdf"@
        } else {
            ".png"@
        },
{
    let ct = match content_type {
        Some(t) => t,
        None => "application/pdf",
    };
    if str_contains(ct, "pdf") {
        ".pdf"
    } else {
        ".png"
    }
}

/// The temporary file of the process `pid` for an upload with extension `ext`.
pub fn ocr_temp_path(pid: u32, ext: &str) -> (r: String)
    ensures
        r@ == "/tmp/evo-ocr-"@ + decimal(pid as nat) + ext@,
{
    let mut r = String::from_str("/tmp/evo-ocr-");
    let n = decimal_string(pid as u64);
    r.append(n.as_str());
    r.append(ext);
    r
}

/// The converter script for the file at `path`: it prints the Markdown text
/// and the page count as JSON, or an error on standard error. Double quotes
/// in the path are escaped for the Python string literal.
pub open spec fn docling_script_of(path: Seq<char>) -> Seq<char> {
    "\nimport json, sys\ntry:\n    from docling.document_converter import DocumentConverter\n    converter = DocumentConverter()\n    result = converter.convert(\""@
        + replace(path, "\""@, "\\\""@)
        + "\")\n    text = result.document.export_to_markdown()\n    try:\n        pages = len(result.document.pages)\n    except (AttributeError, TypeError):\n        pages = -1\n    print(json.dumps({\"text\": text, \"pages\": pages}))\nexcept Exception as e:\n    print(json.dumps({\"error\": str(e)}), file=sys.stderr)\n    sys.exit(1)\n"@
}

pub fn docling_script(path: &str) -> (r: String)
    ensures
        r@ == docling_script_of(path@),
{
    proof {
        reveal_strlit("\"");
    }
    let escaped = str_replace(path, "\"", "\\\"");
    let mut r = String::from_str(
        "\nimport json, sys\ntry:\n    from docling.document_converter import DocumentConverter\n    converter = DocumentConverter()\n    result = converter.convert(\"",
    );
    r.append(escaped.as_str());
    r.append(
        "\")\n    text = result.document.export_to_markdown()\n    try:\n        pages = len(result.document.pages)\n    except (AttributeError, TypeError):\n        pages = -1\n    print(json.dumps({\"text\": text, \"pages\": pages}))\nexcept Exception as e:\n    print(json.dumps({\"error\": str(e)}), file=sys.stderr)\n    sys.exit(1)\n",
    );
    r
}

/// The text and page count of the converter's JSON output; a missing text
/// is empty and a missing page count is -1 (wrapped to 32 bits).
pub fn docling_result(parsed: &JsonValue) -> (r: (String, i32))
    ensures
        r.0@ == match text_of(parsed.member("text"@)) {
            Some(t) => t,
            None => Seq::<char>::empty(),
        },
        r.1 == match signed_of(parsed.member("pages"@)) {
            Some(n) => n as i32,
            None => -1i32,
        },
{
    let text = match member_str(parsed, "text") {
        Some(t) => String::from_str(t),
        None => String::new(),
    };
    let pages: i64 = match member_i64(parsed, "pages") {
        Some(n) => n,
        None => -1,
    };
    (text, pages as i32)
}

/// The message for a converter that exited with an error.
pub fn docling_failure(stderr: &str) -> (r: String)
    ensures
        r@ == "Docling fehlgeschlagen: "@ + stderr@,
{
    let mut r = String::from_str("Docling fehlgeschlagen: ");
    r.append(stderr);
    r
}

/// The message for a temporary file that could not be written.
pub fn temp_file_failure(error: &str) -> (r: OcrReply)
    ensures
        error_reply_is(r, 500, "temp file: "@ + error@),
{
    let mut m = String::from_str("temp file: ");
    m.append(error);
    error_reply(500, m)
}

/// The reply for the conversion's outcome.
pub fn ocr_reply(result: Result<(String, i32), String>) -> (r: OcrReply)
    ensures
        match result {
            Ok((text, pages)) => r.status_code == 200 && opt_view(r.text) == Some(text@) && r.pages
                == Some(pages) && r.error is None,
            Err(e) => error_reply_is(r, 500, e@),
        },
{
    match result {
        Ok((text, pages)) => OcrReply {
            status_code: 200,
            text: Some(text),
            pages: Some(pages),
            error: None,
        },
        Err(e) => error_reply(500, e),
    }
}

} // verus!
