//! GitHub push-webhook receiver: signature check, the reply to a delivery,
//! and the secret read from the service's `.env` file.
use vstd::prelude::*;
use vstd::string::StringSliceAdditionalSpecFns;
use subtle::ConstantTimeEq;
use hmac::Mac;
use crate::text::opt_view;
use crate::text::{
    chars_of, lines, lines_of, slice_chars, starts_with, starts_with_exec, str_eq, string_of,
    trim, trim_bounds, trim_matches, trim_matches_exec,
};

verus! {

/// Largest accepted delivery body, in bytes.
pub const MAX_PAYLOAD: usize = 10485760;

/// HMAC-SHA256 of `message` under `key`: its result is this function of
/// the two byte sequences.
pub uninterp spec fn hmac_sha256(key: Seq<u8>, message: Seq<u8>) -> Seq<u8>;

/// Computes the HMAC-SHA256 tag of `message` under `key` with the `hmac`
/// crate (`Hmac::<Sha256>::new_from_slice`, `Mac::update`, `Mac::finalize`).
/// The contract names the tag (`hmac_sha256` of key and message) and says
/// that it is 32 bytes long and that key setup never fails: HMAC accepts
/// keys of any length (its `new_from_slice` always returns `Ok`).
#[verifier::external_body]
fn hmac_sha256_tag(key: &[u8], message: &[u8]) -> (tag: Option<Vec<u8>>)
    ensures
        tag is Some,
        tag->0@ == hmac_sha256(key@, message@),
        tag->0@.len() == 32,
{
    match <hmac::Hmac<sha2::Sha256> as Mac>::new_from_slice(key) {
        Ok(mut mac) => {
            mac.update(message);
            Some(mac.finalize().into_bytes().to_vec())
        },
        Err(_) => None,
    }
}

/// The lowercase hexadecimal digit (as an ASCII byte) of `d` < 16.
pub open spec fn hex_digit(d: int) -> u8 {
    if d < 10 {
        (48 + d) as u8
    } else {
        (87 + d) as u8
    }
}

/// Lowercase hexadecimal text of `bytes`, as ASCII bytes: two digits per
/// byte, high nibble first.
pub open spec fn hex_lower(bytes: Seq<u8>) -> Seq<u8>
    decreases bytes.len(),
{
    if bytes.len() == 0 {
        Seq::<u8>::empty()
    } else {
        hex_lower(bytes.drop_last()) + seq![
            hex_digit(bytes.last() as int / 16),
            hex_digit(bytes.last() as int % 16),
        ]
    }
}

/// Calls `hex::encode` (lowercase digits, high nibble first) and returns
/// the text's bytes.
#[verifier::external_body]
fn hex_encode(bytes: &[u8]) -> (r: Vec<u8>)
    ensures
        r@ == hex_lower(bytes@),
{
    hex::encode(bytes).into_bytes()
}

/// Compares two byte slices with `subtle::ConstantTimeEq::ct_eq` (in time
/// independent of their contents when the lengths agree); true exactly when
/// they are equal.
#[verifier::external_body]
fn bytes_ct_eq(a: &[u8], b: &[u8]) -> (r: bool)
    ensures
        r == (a@ == b@),
{
    a.ct_eq(b).into()
}

/// The bytes of `sha256=`.
pub open spec fn signature_prefix() -> Seq<u8> {
    seq![115u8, 104u8, 97u8, 50u8, 53u8, 54u8, 61u8]
}

/// A `X-Hub-Signature-256` header (its bytes) that signs `payload` with
/// `secret`: `sha256=` and the lowercase hex HMAC-SHA256 of the payload.
pub open spec fn signature_valid(payload: Seq<u8>, header: Seq<u8>, secret: Seq<u8>) -> bool {
    header.len() >= 7 && header.take(7) == signature_prefix() && header.skip(7) == hex_lower(
        hmac_sha256(secret, payload),
    )
}

/// Checks the signature header of a delivery against the shared secret.
pub fn verify_signature(payload: &[u8], signature: &str, secret: &str) -> (r: bool)
    ensures
        r == signature_valid(payload@, signature.spec_bytes(), secret.spec_bytes()),
{
    let sig = signature.as_bytes();
    if sig.len() < 7 {
        return false;
    }
    if !(sig[0] == 115u8 && sig[1] == 104u8 && sig[2] == 97u8 && sig[3] == 50u8 && sig[4] == 53u8
        && sig[5] == 54u8 && sig[6] == 61u8) {
        proof {
            if sig@.take(7) == signature_prefix() {
                assert(sig@.take(7)[0] == sig@[0]);
                assert(sig@.take(7)[1] == sig@[1]);
                assert(sig@.take(7)[2] == sig@[2]);
                assert(sig@.take(7)[3] == sig@[3]);
                assert(sig@.take(7)[4] == sig@[4]);
                assert(sig@.take(7)[5] == sig@[5]);
                assert(sig@.take(7)[6] == sig@[6]);
            }
        }
        return false;
    }
    assert(sig@.take(7) =~= signature_prefix());
    let mut rest: Vec<u8> = Vec::new();
    let mut i: usize = 7;
    while i < sig.len()
        invariant
            7 <= i <= sig@.len(),
            rest@ == sig@.subrange(7, i as int),
        decreases sig@.len() - i,
    {
        rest.push(sig[i]);
        i = i + 1;
        assert(rest@ =~= sig@.subrange(7, i as int));
    }
    assert(rest@ =~= sig@.skip(7));
    let tag = match hmac_sha256_tag(secret.as_bytes(), payload) {
        Some(t) => t,
        None => {
            return false;
        },
    };
    let expected = hex_encode(tag.as_slice());
    bytes_ct_eq(expected.as_slice(), rest.as_slice())
}

/// The reply to a delivery.
pub struct WebhookReply {
    pub status_code: u16,
    pub status: String,
    pub error: Option<String>,
    pub event_ref: Option<String>,
    /// Whether the update script is started.
    pub run_update: bool,
}

pub open spec fn is_deploy_ref(r: Seq<char>) -> bool {
    r == "refs/heads/main"@ || r == "refs/heads/master"@
}

/// A reply as (status code, status, error text, ref, whether the update runs).
pub open spec fn reply_view(r: WebhookReply) -> (u16, Seq<char>, Option<Seq<char>>, Option<Seq<char>>, bool) {
    (r.status_code, r.status@, opt_view(r.error), opt_view(r.event_ref), r.run_update)
}

/// The refusal owed before a body is read as JSON: oversized bodies first,
/// then bad signatures; `None` when the delivery passes both checks.
pub open spec fn precheck_reply(len: nat, signed: bool) -> Option<
    (u16, Seq<char>, Option<Seq<char>>, Option<Seq<char>>, bool),
> {
    if len > MAX_PAYLOAD {
        Some((413, "error"@, Some("payload too large"@), None, false))
    } else if !signed {
        Some((403, "error"@, Some("invalid signature"@), None, false))
    } else {
        None
    }
}

/// The reply to a delivery that passed the pre-check, whose body parsed to
/// a push event with this `ref` (`None`: not JSON): unparsable bodies are
/// refused, a push to `main` or `master` starts the update, any other is
/// ignored.
pub open spec fn event_reply(event_ref: Option<Seq<char>>) -> (
    u16,
    Seq<char>,
    Option<Seq<char>>,
    Option<Seq<char>>,
    bool,
) {
    match event_ref {
        None => (400, "error"@, Some("invalid json"@), None, false),
        Some(er) => if is_deploy_ref(er) {
            (200, "update triggered"@, None, Some(er), true)
        } else {
            (200, "ignored"@, None, Some(er), false)
        },
    }
}

/// The reply owed to a delivery of `len` bytes, whose signature is valid or
/// not, and whose body parsed to a push event with this `ref`: the
/// pre-check's refusal if there is one, else the reply to the event.
pub open spec fn delivery_reply(len: nat, signed: bool, event_ref: Option<Seq<char>>) -> (
    u16,
    Seq<char>,
    Option<Seq<char>>,
    Option<Seq<char>>,
    bool,
) {
    match precheck_reply(len, signed) {
        Some(r) => r,
        None => event_reply(event_ref),
    }
}

/// The update script runs only for a delivery within the size limit, with a
/// valid signature, that pushed to `main` or `master`.
pub proof fn law_update_only_for_signed_deploy_push(len: nat, signed: bool, event_ref: Option<Seq<char>>)
    ensures
        delivery_reply(len, signed, event_ref).4 ==> (event_ref matches Some(er) && is_deploy_ref(er)
            && len <= MAX_PAYLOAD && signed),
        !signed ==> delivery_reply(len, signed, event_ref).0 != 200,
{
}

fn error_reply(code: u16, message: &str) -> (r: WebhookReply)
    ensures
        reply_view(r) == (code, "error"@, Some(message@), None::<Seq<char>>, false),
{
    WebhookReply {
        status_code: code,
        status: String::from_str("error"),
        error: Some(String::from_str(message)),
        event_ref: None,
        run_update: false,
    }
}

/// The checks made before a delivery's body is read as JSON: a body over
/// the size limit is refused with 413, else a bad signature with 403;
/// `None` lets the delivery through to parsing.
pub fn webhook_precheck(body: &[u8], signature: &str, secret: &str) -> (r: Option<WebhookReply>)
    ensures
        match r {
            Some(x) => precheck_reply(
                body@.len(),
                signature_valid(body@, signature.spec_bytes(), secret.spec_bytes()),
            ) == Some(reply_view(x)),
            None => precheck_reply(
                body@.len(),
                signature_valid(body@, signature.spec_bytes(), secret.spec_bytes()),
            ) is None,
        },
        (r matches Some(x) && x.status_code == 413) <==> body@.len() > MAX_PAYLOAD,
        (r matches Some(x) && x.status_code == 403) <==> (body@.len() <= MAX_PAYLOAD && !signature_valid(
            body@,
            signature.spec_bytes(),
            secret.spec_bytes(),
        )),
{
    if body.len() > MAX_PAYLOAD {
        return Some(error_reply(413, "payload too large"));
    }
    if !verify_signature(body, signature, secret) {
        return Some(error_reply(403, "invalid signature"));
    }
    None
}

/// The reply to a delivery that passed `webhook_precheck`, once its body was
/// read as a push event with this `ref` (`None`: the body is not valid JSON).
pub fn webhook_event_reply(body: &[u8], signature: &str, secret: &str, event_ref: Option<String>) -> (r:
    WebhookReply)
    requires
        precheck_reply(
            body@.len(),
            signature_valid(body@, signature.spec_bytes(), secret.spec_bytes()),
        ) is None,
    ensures
        reply_view(r) == event_reply(opt_view(event_ref)),
        reply_view(r) == delivery_reply(
            body@.len(),
            signature_valid(body@, signature.spec_bytes(), secret.spec_bytes()),
            opt_view(event_ref),
        ),
{
    match event_ref {
        None => error_reply(400, "invalid json"),
        Some(er) => {
            let deploy = str_eq(er.as_str(), "refs/heads/main") || str_eq(
                er.as_str(),
                "refs/heads/master",
            );
            let status = if deploy {
                String::from_str("update triggered")
            } else {
                String::from_str("ignored")
            };
            WebhookReply {
                status_code: 200,
                status,
                error: None,
                event_ref: Some(er),
                run_update: deploy,
            }
        },
    }
}

/// The reply to a delivery with body `body`, signature header `signature`
/// (empty when absent) and, when the body parsed as a push event, its `ref`
/// (`None`: the body is not valid JSON).
pub fn webhook_reply(body: &[u8], signature: &str, secret: &str, event_ref: Option<String>) -> (r:
    WebhookReply)
    ensures
        reply_view(r) == delivery_reply(
            body@.len(),
            signature_valid(body@, signature.spec_bytes(), secret.spec_bytes()),
            opt_view(event_ref),
        ),
{
    match webhook_precheck(body, signature, secret) {
        Some(refusal) => refusal,
        None => webhook_event_reply(body, signature, secret, event_ref),
    }
}

/// The value after `WEBHOOK_SECRET=` on the first (trimmed) line of `ls`
/// that starts with it.
pub open spec fn secret_assignment(ls: Seq<Seq<char>>) -> Option<Seq<char>>
    decreases ls.len(),
{
    if ls.len() == 0 {
        None
    } else if starts_with(trim(ls[0]), "WEBHOOK_SECRET="@) {
        Some(trim(ls[0]).skip(15))
    } else {
        secret_assignment(ls.drop_first())
    }
}

/// The secret of an assignment: trimmed, then surrounding double and
/// single quotes removed.
pub open spec fn secret_value(raw: Seq<char>) -> Seq<char> {
    trim_matches(trim_matches(trim(raw), '"'), '\'')
}

/// Placeholder values that mean the secret was never set.
pub open spec fn placeholder_secret(s: Seq<char>) -> bool {
    s.len() == 0 || s == "NICHT_GESETZT"@ || s == "your-github-webhook-secret"@
}

/// The webhook secret from the text of the `.env` file at `env_path`.
pub fn parse_webhook_secret(content: &str, env_path: &str) -> (r: Result<String, String>)
    ensures
        match secret_assignment(lines(content@)) {
            Some(raw) => if placeholder_secret(secret_value(raw)) {
                r matches Err(e) && e@ == "WEBHOOK_SECRET ist nicht konfiguriert ("@ + secret_value(
                    raw,
                ) + ")"@
            } else {
                r matches Ok(s) && s@ == secret_value(raw)
            },
            None => r matches Err(e) && e@ == "WEBHOOK_SECRET nicht in "@ + env_path@
                + " gefunden"@,
        },
{
    let v = chars_of(content);
    let ls = lines_of(&v);
    let ghost lv = lines(content@);
    let prefix = chars_of("WEBHOOK_SECRET=");
    proof {
        reveal_strlit("WEBHOOK_SECRET=");
    }
    let mut i: usize = 0;
    assert(lv.skip(0) =~= lv);
    while i < ls.len()
        invariant
            i <= ls.len(),
            ls@.len() == lv.len(),
            forall|j: int| 0 <= j < ls@.len() ==> #[trigger] ls@[j]@ == lv[j],
            prefix@ == "WEBHOOK_SECRET="@,
            prefix@.len() == 15,
            lv == lines(content@),
            secret_assignment(lv.skip(i as int)) == secret_assignment(lv),
        decreases ls.len() - i,
    {
        let ghost rest = lv.skip(i as int);
        assert(rest[0] == lv[i as int]);
        let (lo, hi) = trim_bounds(&ls[i]);
        let line = slice_chars(&ls[i], lo, hi);
        if starts_with_exec(&line, &prefix) {
            let value = slice_chars(&line, 15, line.len());
            assert(value@ =~= trim(lv[i as int]).skip(15));
            assert(secret_assignment(rest) == Some(value@));
            let (vlo, vhi) = trim_bounds(&value);
            let t = slice_chars(&value, vlo, vhi);
            let a = trim_matches_exec(&t, '"');
            let b = trim_matches_exec(&a, '\'');
            let secret = string_of(&b);
            assert(t@ == trim(value@));
            assert(secret@ == secret_value(value@));
            let s = secret.as_str();
            if s.is_empty() || str_eq(s, "NICHT_GESETZT") || str_eq(s, "your-github-webhook-secret") {
                let mut e = String::from_str("WEBHOOK_SECRET ist nicht konfiguriert (");
                e.append(s);
                e.append(")");
                return Err(e);
            }
            return Ok(secret);
        }
        assert(rest.drop_first() =~= lv.skip(i + 1));
        i = i + 1;
    }
    let mut e = String::from_str("WEBHOOK_SECRET nicht in ");
    e.append(env_path);
    e.append(" gefunden");
    Err(e)
}

/// The `.env` file of the services under the home directory `home`
/// (`/home/jan` when unknown).
pub fn env_file_path(home: Option<&str>) -> (r: String)
    ensures
        r@ == match home {
            Some(h) => h@,
            None => "/home/jan"@,
        } + "/.config/evo-x2/.env"@,
{
    let mut r = match home {
        Some(h) => String::from_str(h),
        None => String::from_str("/home/jan"),
    };
    r.append("/.config/evo-x2/.env");
    r
}

/// The update script started by a deploy push.
pub fn update_script_path(home: Option<&str>) -> (r: String)
    ensures
        r@ == match home {
            Some(h) => h@,
            None => "/home/jan"@,
        } + "/.local/bin/llama-update.sh"@,
{
    let mut r = match home {
        Some(h) => String::from_str(h),
        None => String::from_str("/home/jan"),
    };
    r.append("/.local/bin/llama-update.sh");
    r
}

} // verus!
