//! Trusted bridges to the HTTP client and to the multipart encoder.
//! Everything behind them depends on the network or on a random draw, so
//! their contracts state only what holds of every outcome.
use crate::HttpOutcome;
use vstd::prelude::*;

verus! {

#[verifier::external_type_specification]
#[verifier::external_body]
pub struct ExMultipart<'n, 'd>(multipart::client::lazy::Multipart<'n, 'd>);

/// What has been added to a multipart request: each part's name and bytes,
/// in order.
pub uninterp spec fn mp_parts(m: multipart::client::lazy::Multipart<'static, 'static>) -> Seq<
    (Seq<char>, Seq<u8>),
>;

/// Relies on multipart's lazy `Multipart::new`: a fresh request holds no
/// parts.
#[verifier::external_body]
pub(crate) fn mp_new() -> (m: multipart::client::lazy::Multipart<'static, 'static>)
    ensures
        mp_parts(m) == Seq::<(Seq<char>, Seq<u8>)>::empty(),
{
    multipart::client::lazy::Multipart::new()
}

/// Relies on multipart's `add_stream`: appends one part carrying the given
/// field name, the same name as its filename, and the given bytes.
#[verifier::external_body]
pub(crate) fn mp_add(
    m: &mut multipart::client::lazy::Multipart<'static, 'static>,
    name: &str,
    content: &Vec<u8>,
)
    ensures
        mp_parts(*final(m)) == mp_parts(*old(m)).push((name@, content@)),
{
    m.add_stream(
        name.to_owned(),
        std::io::Cursor::new(content.clone()),
        Some(name.to_owned()),
        None,
    );
}

/// Relies on multipart's `prepare` and `boundary` and std's `read_to_end`:
/// the prepared body frames the parts with a freshly drawn boundary, and
/// may reorder them, so nothing is promised of the bytes that come back.
/// A request without parts is left out: `boundary` panics on one.
#[verifier::external_body]
pub(crate) fn mp_finish(m: &mut multipart::client::lazy::Multipart<'static, 'static>) -> (r: Result<
    (String, Vec<u8>),
    String,
>)
    requires
        mp_parts(*old(m)).len() > 0,
{
    match m.prepare() {
        Ok(mut p) => {
            let boundary = p.boundary().to_string();
            let mut buf = Vec::new();
            match std::io::Read::read_to_end(&mut p, &mut buf) {
                Ok(_) => Ok((boundary, buf)),
                Err(e) => Err(format!("{}", e)),
            }
        },
        Err(e) => Err(format!("{}", e)),
    }
}

/// Relies on ureq: one GET of the listing endpoint with a bearer header.
/// A completed exchange yields its status and body text (an unreadable
/// non-2xx body yields empty text); a connection-level failure yields a
/// description.
#[verifier::external_body]
pub(crate) fn http_get_list(api_key: &str) -> HttpOutcome {
    let auth = format!("Bearer {}", api_key);
    match ureq::get("https://neocities.org/api/list").set("Authorization", &auth).call() {
        Ok(res) => {
            let status = res.status();
            match res.into_string() {
                Ok(body) => HttpOutcome::Response(status, body),
                Err(e) => HttpOutcome::Failure(format!("{}", e)),
            }
        },
        Err(ureq::Error::Status(st, res)) => HttpOutcome::Response(st, res.into_string().unwrap_or_default()),
        Err(e) => HttpOutcome::Failure(format!("{}", e)),
    }
}

/// Relies on ureq: one POST of the given bytes to the upload endpoint,
/// with a bearer header and a multipart content type naming the given
/// boundary.  The outcome is reported as for the listing call.
#[verifier::external_body]
pub(crate) fn http_post_upload(api_key: &str, boundary: &str, body: &Vec<u8>) -> HttpOutcome {
    let auth = format!("Bearer {}", api_key);
    let ctype = format!("multipart/form-data; boundary={}", boundary);
    let req = ureq::post("https://neocities.org/api/upload").set("Authorization", &auth).set("Content-Type", &ctype);
    match req.send_bytes(body.as_slice()) {
        Ok(res) => {
            let status = res.status();
            match res.into_string() {
                Ok(b) => HttpOutcome::Response(status, b),
                Err(e) => HttpOutcome::Failure(format!("{}", e)),
            }
        },
        Err(ureq::Error::Status(st, res)) => HttpOutcome::Response(st, res.into_string().unwrap_or_default()),
        Err(e) => HttpOutcome::Failure(format!("{}", e)),
    }
}

/// Relies on ureq: one POST of the given pairs, form-encoded in order, to
/// the delete endpoint with a bearer header.  The outcome is reported as
/// for the listing call.
#[verifier::external_body]
pub(crate) fn http_post_delete(api_key: &str, form: &Vec<(&str, &str)>) -> HttpOutcome {
    let auth = format!("Bearer {}", api_key);
    match ureq::post("https://neocities.org/api/delete").set("Authorization", &auth).send_form(form.as_slice()) {
        Ok(res) => {
            let status = res.status();
            match res.into_string() {
                Ok(b) => HttpOutcome::Response(status, b),
                Err(e) => HttpOutcome::Failure(format!("{}", e)),
            }
        },
        Err(ureq::Error::Status(st, res)) => HttpOutcome::Response(st, res.into_string().unwrap_or_default()),
        Err(e) => HttpOutcome::Failure(format!("{}", e)),
    }
}

} // verus!
