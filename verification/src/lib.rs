//! A client for one remote file-hosting service's HTTP API: list the
//! files of an account, upload files in one multipart batch, delete
//! paths in one form-encoded request.  Request construction, response
//! decoding and the error taxonomy are verified; the HTTP exchange and
//! the multipart framing stand behind trusted bridges.
mod ext;
pub mod json;
pub mod listing;
pub mod encode;
mod transport;

use crate::encode::{encode_upload_body, first_invalid, form_pairs, valid_dest};
use crate::listing::{files_rep, message_text, parse_list_body};
use vstd::prelude::*;

verus! {

/// One file-or-directory record as reported by the listing endpoint.
pub struct File {
    pub path: String,
    pub is_directory: bool,
    pub size: Option<usize>,
    pub updated_at: String,
    pub sha1_hash: Option<String>,
}

impl File {
    /// Directories carry neither a size nor a content digest.
    pub open spec fn wf(self) -> bool {
        self.is_directory ==> self.size is None && self.sha1_hash is None
    }
}

/// One upload: a destination path and the bytes to store there.
pub struct UploadEntry {
    pub dest: String,
    pub content: Vec<u8>,
}

/// Everything that can go wrong with one operation.
#[derive(Debug)]
pub enum Error {
    /// The service rejected the request: its status and its message.
    Api(u16, String),
    /// No response was obtained; carries a description.
    Transport(String),
    /// A destination path names no part; carries that path.
    Path(String),
    /// A success body did not have the expected shape.
    Decode,
}

/// What one HTTP exchange came to: a response with status and body text,
/// or no response at all.
pub enum HttpOutcome {
    Response(u16, String),
    Failure(String),
}

pub open spec fn ok_status(s: u16) -> bool {
    200 <= s < 300
}

/// What the listing operation makes of each possible outcome:
/// a connection failure becomes a transport error; a non-2xx response
/// becomes an API error carrying its status and the message its body
/// bears (empty where the body cannot be read as one); a 2xx response
/// either decodes to the listing it describes, in body order, or is a
/// decode error.
pub fn interpret_list_outcome(o: HttpOutcome) -> (r: Result<Vec<File>, Error>)
    ensures
        (match o {
            HttpOutcome::Failure(detail) => r matches Err(e) && e matches Error::Transport(d)
                && d@ == detail@,
            HttpOutcome::Response(status, body) => if !ok_status(status) {
                r matches Err(e) && e matches Error::Api(st, m) && st == status && m@
                    == message_text(body@)
            } else {
                match parse_list_body(body@) {
                    Some(fs) => r matches Ok(v) && files_rep(v@) == fs,
                    None => r matches Err(e) && e is Decode,
                }
            },
        }),
        r matches Ok(v) ==> forall|t: int| 0 <= t < v@.len() ==> (#[trigger] v@[t]).wf(),
        r matches Err(e) ==> !(e is Path),
{
    match o {
        HttpOutcome::Failure(detail) => Err(Error::Transport(detail)),
        HttpOutcome::Response(status, body) => {
            if !(200 <= status && status < 300) {
                Err(Error::Api(status, listing::decode_message(body.as_str())))
            } else {
                match listing::decode_list_body(body.as_str()) {
                    Some(v) => Ok(v),
                    None => Err(Error::Decode),
                }
            }
        },
    }
}

/// What a write operation (upload or delete) makes of each possible
/// outcome: a connection failure becomes a transport error, a non-2xx
/// response an API error with its status and message, and any 2xx
/// response is success — its body is not decoded.
pub fn interpret_plain_outcome(o: HttpOutcome) -> (r: Result<(), Error>)
    ensures
        (match o {
            HttpOutcome::Failure(detail) => r matches Err(e) && e matches Error::Transport(d)
                && d@ == detail@,
            HttpOutcome::Response(status, body) => if !ok_status(status) {
                r matches Err(e) && e matches Error::Api(st, m) && st == status && m@
                    == message_text(body@)
            } else {
                r is Ok
            },
        }),
        r matches Err(e) ==> !(e is Path) && !(e is Decode),
{
    match o {
        HttpOutcome::Failure(detail) => Err(Error::Transport(detail)),
        HttpOutcome::Response(status, body) => {
            if !(200 <= status && status < 300) {
                Err(Error::Api(status, listing::decode_message(body.as_str())))
            } else {
                Ok(())
            }
        },
    }
}

/// A handle on one account: holds the bearer credential and nothing else.
pub struct Client {
    api_key: String,
}

impl View for Client {
    type V = Seq<char>;

    closed spec fn view(&self) -> Seq<char> {
        self.api_key@
    }
}

impl Client {
    /// A client for the account the credential names.  Nothing is sent
    /// and nothing is checked until an operation is invoked.
    pub fn new(api_key: String) -> (c: Client)
        ensures
            c@ == api_key@,
    {
        Client { api_key }
    }

    /// One authenticated read of the listing endpoint.  Every entry that
    /// comes back is well formed; failures are never path errors.
    pub fn list(&self) -> (r: Result<Vec<File>, Error>)
        ensures
            r matches Ok(v) ==> forall|t: int| 0 <= t < v@.len() ==> (#[trigger] v@[t]).wf(),
            r matches Err(e) ==> !(e is Path),
    {
        interpret_list_outcome(transport::http_get_list(self.api_key.as_str()))
    }

    /// One authenticated multipart upload of all entries, in order.  A
    /// path error comes exactly where some destination names no part —
    /// the first such destination, before anything is sent; zero entries
    /// are fine.  Success bodies are not decoded, so a decode error
    /// never comes.
    pub fn push(&self, entries: &Vec<UploadEntry>) -> (r: Result<(), Error>)
        ensures
            r matches Err(e) ==> (e matches Error::Path(p) ==> exists|j: int|
                #[trigger] first_invalid(entries@, j) && p@ == entries@[j].dest@),
            (exists|j: int| 0 <= j < entries@.len() && !valid_dest((#[trigger] entries@[j]).dest@))
                ==> (r matches Err(e) && e is Path),
            r matches Err(e) ==> !(e is Decode),
            entries@.len() == 0 ==> (r matches Err(e) ==> !(e is Path)),
    {
        match encode_upload_body(entries) {
            Ok((boundary, bytes)) => interpret_plain_outcome(
                transport::http_post_upload(self.api_key.as_str(), boundary.as_str(), &bytes),
            ),
            Err(e) => Err(e),
        }
    }

    /// One authenticated delete of all given paths, sent as one
    /// form-encoded request with a `filenames[]` field per path, in
    /// order; zero paths are fine.  No local check is made, so failures
    /// are never path or decode errors.
    pub fn delete(&self, paths: &Vec<String>) -> (r: Result<(), Error>)
        ensures
            r matches Err(e) ==> (e is Api || e is Transport),
    {
        let pairs = form_pairs(paths);
        interpret_plain_outcome(transport::http_post_delete(self.api_key.as_str(), &pairs))
    }
}

} // verus!
