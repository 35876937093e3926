//! The share slot: at most one screenshot is published at a time, behind a
//! token, and only a request that presents that token is given the file.

use vstd::prelude::*;
use vstd::string::StringExecFns;
use crate::screenshot::Screenshot;
use crate::text::{decimal, decimal_of, str_eq};

verus! {

/// The media type under which a screenshot is sent.
pub const CONTENT_TYPE: &'static str = "application/force-download";

/// The status of a reply that carries the file.
pub const STATUS_OK: u16 = 200;

/// The status of a reply to a token that is not the published one.
pub const STATUS_NOT_FOUND: u16 = 404;

/// The status of a reply where the published file could not be read.
pub const STATUS_SERVER_ERROR: u16 = 500;

/// The slot. It is populated where all three fields are set.
#[derive(Debug, Default, PartialEq, Eq)]
pub struct SharedScreenshot {
    /// Where the published file is.
    pub filepath: Option<String>,
    /// The name under which it is handed out.
    pub filename: Option<String>,
    /// The token that gives access to it.
    pub uuid: Option<String>,
}

/// What a populated slot holds.
pub ghost struct Published {
    pub filepath: Seq<char>,
    pub filename: Seq<char>,
    pub token: Seq<char>,
}

impl View for SharedScreenshot {
    type V = Option<Published>;

    open spec fn view(&self) -> Option<Published> {
        match (self.filepath, self.filename, self.uuid) {
            (Some(filepath), Some(filename), Some(token)) => Some(
                Published { filepath: filepath@, filename: filename@, token: token@ },
            ),
            _ => None,
        }
    }
}

/// The slot after a file is published: whatever it held is replaced.
pub open spec fn publish_to(
    slot: Option<Published>,
    filepath: Seq<char>,
    filename: Seq<char>,
    token: Seq<char>,
) -> Option<Published> {
    Some(Published { filepath, filename, token })
}

/// The slot after it is cleared.
pub open spec fn cleared(slot: Option<Published>) -> Option<Published> {
    None
}

/// The file that a token gives access to: path and name of the published
/// file where the token is the slot's own, nothing otherwise.
pub open spec fn resolved(slot: Option<Published>, token: Seq<char>) -> Option<(Seq<char>, Seq<char>)> {
    match slot {
        Some(p) => if p.token == token {
            Some((p.filepath, p.filename))
        } else {
            None
        },
        None => None,
    }
}

/// A file to hand out.
#[derive(Debug, PartialEq, Eq)]
pub struct SharedFile {
    /// Where the file is.
    pub filepath: String,
    /// The name under which it is handed out.
    pub filename: String,
}

/// A hexadecimal digit in lower case.
pub open spec fn is_lower_hex(c: char) -> bool {
    c == '0' || c == '1' || c == '2' || c == '3' || c == '4' || c == '5' || c == '6' || c == '7' || c == '8'
        || c == '9' || c == 'a' || c == 'b' || c == 'c' || c == 'd' || c == 'e' || c == 'f'
}

/// Whether `c` can stand at place `i` of a token: a hyphen after the
/// eighth digit and after each of the next three groups of four, the
/// version digit `4` at the head of the third group, and a hexadecimal digit
/// in lower case everywhere else.
pub open spec fn token_char_fits(i: int, c: char) -> bool {
    if i == 8 || i == 13 || i == 18 || i == 23 {
        c == '-'
    } else if i == 14 {
        c == '4'
    } else {
        is_lower_hex(c)
    }
}

/// The shape of a token: 36 characters, hexadecimal digits in lower case in
/// groups of 8, 4, 4, 4 and 12 with hyphens between them.
pub open spec fn is_token_text(t: Seq<char>) -> bool {
    &&& t.len() == 36
    &&& forall|i: int| 0 <= i < 36 ==> token_char_fits(i, #[trigger] t[i])
}

/// A token is not empty and holds none of the characters that end or split
/// the path of an address, so an address that ends in `/` and the token has
/// the token as its last path segment.
pub proof fn lemma_token_is_one_segment(t: Seq<char>)
    requires
        is_token_text(t),
    ensures
        t.len() > 0,
        forall|i: int| 0 <= i < t.len() ==> #[trigger] t[i] != '/' && t[i] != '?' && t[i] != '#',
{
    assert forall|i: int| 0 <= i < t.len() implies #[trigger] t[i] != '/' && t[i] != '?' && t[i] != '#' by {
        assert(token_char_fits(i, t[i]));
    }
}

/// Asks `uuid::Uuid::new_v4` for a random identifier and takes its text.
/// Nothing is claimed of which identifier comes, only the shape of its
/// text, the hyphenated lower-case form of a version 4 identifier. Not
/// proved: the claim rests on that crate. Where the system has no random
/// numbers to give, the call does not return.
#[verifier::external_body]
fn fresh_token() -> (token: String)
    ensures
        is_token_text(token@),
{
    uuid::Uuid::new_v4().to_string()
}

impl SharedScreenshot {
    /// Populates the slot; what it held is replaced.
    pub fn set_values(&mut self, filepath: String, filename: String, uuid: String)
        ensures
            final(self)@ == publish_to(old(self)@, filepath@, filename@, uuid@),
    {
        self.filepath = Some(filepath);
        self.filename = Some(filename);
        self.uuid = Some(uuid);
    }

    /// Empties the slot.
    pub fn clear(&mut self)
        ensures
            final(self)@ == cleared(old(self)@),
            final(self).filepath.is_none(),
            final(self).filename.is_none(),
            final(self).uuid.is_none(),
    {
        self.filepath = None;
        self.filename = None;
        self.uuid = None;
    }

    /// The published file, for one who presents the slot's token, in one
    /// reading of the slot.
    pub fn resolve(&self, token: &str) -> (r: Option<SharedFile>)
        ensures
            match r {
                Some(file) => resolved(self@, token@) == Some((file.filepath@, file.filename@)),
                None => resolved(self@, token@).is_none(),
            },
    {
        match (&self.filepath, &self.filename, &self.uuid) {
            (Some(filepath), Some(filename), Some(own)) => {
                if str_eq(own.as_str(), token) {
                    Some(SharedFile { filepath: filepath.clone(), filename: filename.clone() })
                } else {
                    None
                }
            },
            _ => None,
        }
    }

    /// Publishes a screenshot behind the given token.
    pub fn publish_with(&mut self, screenshot: &Screenshot, token: String)
        ensures
            final(self)@ == publish_to(old(self)@, screenshot@.filepath, screenshot@.filename, token@),
    {
        self.set_values(screenshot.filepath.clone(), screenshot.filename.clone(), token);
    }

    /// Publishes a screenshot behind a fresh random token, and returns the
    /// token.
    pub fn publish(&mut self, screenshot: &Screenshot) -> (token: String)
        ensures
            final(self)@ == publish_to(old(self)@, screenshot@.filepath, screenshot@.filename, token@),
            is_token_text(token@),
    {
        let token: String = fresh_token();
        self.publish_with(screenshot, token.clone());
        token
    }
}

/// Right after a file is published its token gives access to it, and no
/// other token gives access to anything.
pub proof fn lemma_publish_then_resolve(
    slot: Option<Published>,
    filepath: Seq<char>,
    filename: Seq<char>,
    token: Seq<char>,
    other: Seq<char>,
)
    ensures
        resolved(publish_to(slot, filepath, filename, token), token) == Some((filepath, filename)),
        other != token ==> resolved(publish_to(slot, filepath, filename, token), other).is_none(),
{
}

/// Once a second file is published behind another token, the first token
/// gives access to nothing.
pub proof fn lemma_republish_invalidates(
    slot: Option<Published>,
    first_path: Seq<char>,
    first_name: Seq<char>,
    first_token: Seq<char>,
    second_path: Seq<char>,
    second_name: Seq<char>,
    second_token: Seq<char>,
)
    requires
        first_token != second_token,
    ensures
        resolved(
            publish_to(
                publish_to(slot, first_path, first_name, first_token),
                second_path,
                second_name,
                second_token,
            ),
            first_token,
        ).is_none(),
{
}

/// After the slot is cleared no token gives access to anything.
pub proof fn lemma_clear_invalidates(slot: Option<Published>, token: Seq<char>)
    ensures
        resolved(cleared(slot), token).is_none(),
{
}

/// Clearing twice leaves what clearing once leaves.
pub proof fn lemma_clear_idempotent(slot: Option<Published>)
    ensures
        cleared(cleared(slot)) == cleared(slot),
{
}

/// A reply to a request.
#[derive(Debug, PartialEq, Eq)]
pub struct Response {
    /// The status code.
    pub status: u16,
    /// The header lines: name, then value.
    pub headers: Vec<(String, String)>,
    /// The body.
    pub body: Vec<u8>,
}

/// The header lines of a reply as plain values.
pub open spec fn header_views(headers: Seq<(String, String)>) -> Seq<(Seq<char>, Seq<char>)> {
    Seq::new(headers.len(), |i: int| (headers[i].0@, headers[i].1@))
}

/// The value of the header that names the file for the one who receives it.
pub open spec fn disposition_of(filename: Seq<char>) -> Seq<char> {
    "attachment; filename=\""@ + filename + "\""@
}

/// The value of the header that names the file for the one who receives it.
pub fn content_disposition(filename: &str) -> (r: String)
    ensures
        r@ == disposition_of(filename@),
{
    let mut r: String = String::from_str("attachment; filename=\"");
    r.append(filename);
    r.append("\"");
    r
}

/// The reply to a token that is not the published one: not found, and empty.
pub fn not_found() -> (r: Response)
    ensures
        r.status == STATUS_NOT_FOUND,
        r.headers@.len() == 0,
        r.body@.len() == 0,
{
    Response { status: STATUS_NOT_FOUND, headers: Vec::new(), body: Vec::new() }
}

/// The reply that hands out a file. With the file's contents it is a
/// download under the file's name. Where the file could not be read it is a
/// server error without a body.
pub fn create_image_response(filename: &str, contents: Option<Vec<u8>>) -> (r: Response)
    ensures
        match contents {
            Some(bytes) => r.status == STATUS_OK && r.body@ == bytes@ && header_views(r.headers@) == seq![
                ("Content-Type"@, CONTENT_TYPE@),
                ("Content-Disposition"@, disposition_of(filename@)),
            ],
            None => r.status == STATUS_SERVER_ERROR && r.headers@.len() == 0 && r.body@.len() == 0,
        },
{
    match contents {
        Some(bytes) => {
            let mut headers: Vec<(String, String)> = Vec::new();
            headers.push((String::from_str("Content-Type"), String::from_str(CONTENT_TYPE)));
            headers.push((String::from_str("Content-Disposition"), content_disposition(filename)));
            proof {
                assert(header_views(headers@) =~= seq![
                    ("Content-Type"@, CONTENT_TYPE@),
                    ("Content-Disposition"@, disposition_of(filename@)),
                ]);
            }
            Response { status: STATUS_OK, headers, body: bytes }
        },
        None => Response { status: STATUS_SERVER_ERROR, headers: Vec::new(), body: Vec::new() },
    }
}

/// What to do with a request for `word`: the file to read and hand out where
/// `word` is the slot's token, else the reply that nothing was found. The
/// slot is read once.
pub fn dyn_reply(shared_image: &SharedScreenshot, word: &str) -> (r: Result<SharedFile, Response>)
    ensures
        match r {
            Ok(file) => resolved(shared_image@, word@) == Some((file.filepath@, file.filename@)),
            Err(reply) => resolved(shared_image@, word@).is_none() && reply.status == STATUS_NOT_FOUND
                && reply.headers@.len() == 0 && reply.body@.len() == 0,
        },
{
    match shared_image.resolve(word) {
        Some(file) => Ok(file),
        None => Err(not_found()),
    }
}

/// The address under which the server is reached from the local network.
pub open spec fn base_url_of(ip: Seq<char>, port: u16) -> Seq<char> {
    "http://"@ + ip + ":"@ + decimal_of(port as nat) + "/"@
}

/// The address under which the server is reached from the local network.
pub fn base_url(ip: &str, port: u16) -> (r: String)
    ensures
        r@ == base_url_of(ip@, port),
{
    let mut r: String = String::from_str("http://");
    r.append(ip);
    r.append(":");
    let digits: String = decimal(port as u32);
    r.append(digits.as_str());
    r.append("/");
    r
}

/// The address of a published file: the server's address, then the token.
pub fn share_url(base_url: &str, token: &str) -> (r: String)
    ensures
        r@ == base_url@ + token@,
{
    let mut r: String = String::from_str(base_url);
    r.append(token);
    r
}

} // verus!
