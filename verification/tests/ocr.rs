use evo_toolkit::json::JsonValue;
use evo_toolkit::ocr::{
    docling_failure, docling_result, docling_script, ocr_reply, ocr_temp_path, temp_file_failure,
    upload_extension, upload_refusal, MAX_UPLOAD,
};

#[test]
fn uploads_are_checked() {
    let r = upload_refusal(0).unwrap();
    assert_eq!(r.status_code, 400);
    assert_eq!(r.error, Some("empty body".to_string()));
    let r = upload_refusal(MAX_UPLOAD + 1).unwrap();
    assert_eq!(r.status_code, 413);
    assert_eq!(r.error, Some("upload too large".to_string()));
    assert!(upload_refusal(MAX_UPLOAD).is_none());
    assert!(upload_refusal(1).is_none());
}

#[test]
fn extension_from_content_type() {
    assert_eq!(upload_extension(None), ".pdf");
    assert_eq!(upload_extension(Some("application/pdf")), ".pdf");
    assert_eq!(upload_extension(Some("image/png")), ".png");
    assert_eq!(upload_extension(Some("image/jpeg")), ".png");
    assert_eq!(ocr_temp_path(4242, ".pdf"), "/tmp/evo-ocr-4242.pdf");
}

#[test]
fn converter_script_escapes_quotes() {
    let script = docling_script("/tmp/a\"b.pdf");
    assert!(script.starts_with("\nimport json, sys\ntry:\n"));
    assert!(script.contains("result = converter.convert(\"/tmp/a\\\"b.pdf\")\n"));
    assert!(script.contains("print(json.dumps({\"text\": text, \"pages\": pages}))"));
    assert!(script.ends_with("    sys.exit(1)\n"));
}

#[test]
fn converter_output_and_reply() {
    let out = JsonValue::Object(vec![
        ("text".to_string(), JsonValue::Str("# Title".to_string())),
        ("pages".to_string(), JsonValue::UInt(3)),
    ]);
    assert_eq!(docling_result(&out), ("# Title".to_string(), 3));
    assert_eq!(docling_result(&JsonValue::Object(vec![])), (String::new(), -1));
    let r = ocr_reply(Ok(("text".to_string(), 2)));
    assert_eq!(r.status_code, 200);
    assert_eq!(r.text, Some("text".to_string()));
    assert_eq!(r.pages, Some(2));
    let r = ocr_reply(Err(docling_failure("boom")));
    assert_eq!(r.status_code, 500);
    assert_eq!(r.error, Some("Docling fehlgeschlagen: boom".to_string()));
    let r = temp_file_failure("disk full");
    assert_eq!(r.error, Some("temp file: disk full".to_string()));
}
