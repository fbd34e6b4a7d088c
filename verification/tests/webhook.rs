use evo_toolkit::webhook::{
    env_file_path, parse_webhook_secret, update_script_path, verify_signature, webhook_event_reply,
    webhook_precheck, webhook_reply,
    MAX_PAYLOAD,
};

const SIG_MAIN: &str = "sha256=7804d460f7eadad206a6d4c5a760b15defa80add90a31069e5ab2df85f18bcfa";
const SIG_FEATURE: &str = "sha256=0bc8c7bf045f34c20860cfbd5c42b71a1e6a5a018f0f5560ac4fb9239a9bd04c";
const SIG_NOT_JSON: &str = "sha256=b78e16163b0b358f9fdf339c383e0f989ab8b6b1c97f01b7b149cc95541e32bb";

#[test]
fn github_example_signature() {
    assert!(verify_signature(
        b"Hello, World!",
        "sha256=757107ea0eb2509fc211221cce984b8a37570b6d7586c22c46f4379c8b043e17",
        "It's a Secret to Everybody"
    ));
}

#[test]
fn bad_signatures_are_refused() {
    let body = b"Hello, World!";
    let secret = "It's a Secret to Everybody";
    // Missing prefix, wrong digest, upper-case digest, empty header.
    assert!(!verify_signature(body, "757107ea0eb2509fc211221cce984b8a37570b6d7586c22c46f4379c8b043e17", secret));
    assert!(!verify_signature(body, "sha256=657107ea0eb2509fc211221cce984b8a37570b6d7586c22c46f4379c8b043e17", secret));
    assert!(!verify_signature(body, "sha256=757107EA0EB2509FC211221CCE984B8A37570B6D7586C22C46F4379C8B043E17", secret));
    assert!(!verify_signature(body, "", secret));
    assert!(!verify_signature(body, "sha256=", secret));
    assert!(!verify_signature(b"Hello, World?", "sha256=757107ea0eb2509fc211221cce984b8a37570b6d7586c22c46f4379c8b043e17", secret));
}

#[test]
fn delivery_replies() {
    let main = br#"{"ref":"refs/heads/main"}"#;
    let r = webhook_reply(main, SIG_MAIN, "topsecret", Some("refs/heads/main".to_string()));
    assert_eq!(r.status_code, 200);
    assert_eq!(r.status, "update triggered");
    assert_eq!(r.event_ref, Some("refs/heads/main".to_string()));
    assert!(r.run_update);

    let feature = br#"{"ref":"refs/heads/feature"}"#;
    let r = webhook_reply(feature, SIG_FEATURE, "topsecret", Some("refs/heads/feature".to_string()));
    assert_eq!(r.status_code, 200);
    assert_eq!(r.status, "ignored");
    assert!(!r.run_update);

    let r = webhook_reply(main, SIG_FEATURE, "topsecret", Some("refs/heads/main".to_string()));
    assert_eq!(r.status_code, 403);
    assert_eq!(r.error, Some("invalid signature".to_string()));
    assert!(!r.run_update);

    let r = webhook_reply(b"not json", SIG_NOT_JSON, "topsecret", None);
    assert_eq!(r.status_code, 400);
    assert_eq!(r.error, Some("invalid json".to_string()));

    let big = vec![0u8; MAX_PAYLOAD + 1];
    let r = webhook_reply(&big, SIG_MAIN, "topsecret", None);
    assert_eq!(r.status_code, 413);
    assert_eq!(r.error, Some("payload too large".to_string()));
}

#[test]
fn secret_from_env_file() {
    let env = "# config\nOTHER=1\n  WEBHOOK_SECRET= \"abc123\"  \nWEBHOOK_SECRET=second\n";
    assert_eq!(parse_webhook_secret(env, "/x/.env"), Ok("abc123".to_string()));
    assert_eq!(parse_webhook_secret("WEBHOOK_SECRET='q'\n", "/x/.env"), Ok("q".to_string()));
    assert_eq!(
        parse_webhook_secret("WEBHOOK_SECRET=NICHT_GESETZT\n", "/x/.env"),
        Err("WEBHOOK_SECRET ist nicht konfiguriert (NICHT_GESETZT)".to_string())
    );
    assert_eq!(
        parse_webhook_secret("WEBHOOK_SECRET=\"\"\n", "/x/.env"),
        Err("WEBHOOK_SECRET ist nicht konfiguriert ()".to_string())
    );
    assert_eq!(
        parse_webhook_secret("WEBHOOK_SECRET=your-github-webhook-secret", "/x/.env"),
        Err("WEBHOOK_SECRET ist nicht konfiguriert (your-github-webhook-secret)".to_string())
    );
    assert_eq!(
        parse_webhook_secret("OTHER=1\n", "/x/.env"),
        Err("WEBHOOK_SECRET nicht in /x/.env gefunden".to_string())
    );
    assert_eq!(env_file_path(Some("/home/a")), "/home/a/.config/evo-x2/.env");
    assert_eq!(env_file_path(None), "/home/jan/.config/evo-x2/.env");
    assert_eq!(update_script_path(None), "/home/jan/.local/bin/llama-update.sh");
}

#[test]
fn deliveries_are_checked_before_parsing() {
    let main = br#"{"ref":"refs/heads/main"}"#;
    assert!(webhook_precheck(main, SIG_MAIN, "topsecret").is_none());
    let r = webhook_event_reply(main, SIG_MAIN, "topsecret", Some("refs/heads/main".to_string()));
    assert_eq!(r.status_code, 200);
    assert!(r.run_update);

    let refused = webhook_precheck(main, SIG_FEATURE, "topsecret").unwrap();
    assert_eq!(refused.status_code, 403);
    assert_eq!(refused.error, Some("invalid signature".to_string()));
    assert!(!refused.run_update);

    let big = vec![b'{'; MAX_PAYLOAD + 1];
    let refused = webhook_precheck(&big, "", "topsecret").unwrap();
    assert_eq!(refused.status_code, 413);
    assert_eq!(refused.error, Some("payload too large".to_string()));

    assert!(webhook_precheck(b"not json", SIG_NOT_JSON, "topsecret").is_none());
    let r = webhook_event_reply(b"not json", SIG_NOT_JSON, "topsecret", None);
    assert_eq!(r.status_code, 400);
}
