use vstd::prelude::*;
use vstd::utf8::is_ascii_chars;

use crate::random::{random_hex, RandomnessError};
use crate::text::{
    all_hex, all_lower_hex, char_is_control, chars_equal, chars_of, decimal, has_prefix,
    hex_encode, is_control, is_hex_digit, is_lower_hex_digit, lemma_hex_encode_shape,
    lemma_parse_decimal, parse_usize, push_decimal, spec_parse_usize, starts_with, views_of_strings, chars_after,
};

verus! {

/// Shortest lifetime of a browser transfer, in seconds.
pub const MIN_TIMEOUT_SECONDS: u64 = 30;

/// Longest lifetime of a browser transfer, in seconds.
pub const MAX_TIMEOUT_SECONDS: u64 = 86_400;

/// Why a Browser / QR operation was refused or failed.
#[derive(Debug)]
pub enum BrowserError {
    InvalidTransferId,
    InvalidTimeout,
    InvalidToken,
    NoFiles,
    ServerFailed(String),
    MissingUrl,
    MissingExpiry,
    LauncherFailed(String),
    NotReady,
    Randomness(RandomnessError),
}

impl BrowserError {
    /// The message shown to the user.
    pub fn message(&self) -> (text: String)
        ensures
            text@ == spec_browser_error_message(*self),
    {
        match self {
            BrowserError::InvalidTransferId => "invalid Browser / QR transfer ID".to_owned(),
            BrowserError::InvalidTimeout => "invalid Browser / QR timeout".to_owned(),
            BrowserError::InvalidToken => "invalid Browser / QR token".to_owned(),
            BrowserError::NoFiles => "Browser / QR sharing requires at least one file".to_owned(),
            BrowserError::ServerFailed(detail) => {
                let mut text = "Browser / QR server failed: ".to_owned();
                text.append(detail.as_str());
                text
            },
            BrowserError::MissingUrl => "Browser / QR server omitted its URL".to_owned(),
            BrowserError::MissingExpiry => "Browser / QR server omitted its expiry".to_owned(),
            BrowserError::LauncherFailed(status) => {
                let mut text = "Browser / QR launcher exited during startup with ".to_owned();
                text.append(status.as_str());
                text
            },
            BrowserError::NotReady => "Browser / QR server did not become ready within five seconds".to_owned(),
            BrowserError::Randomness(error) => error.message(),
        }
    }
}

/// The message of each error.
pub open spec fn spec_browser_error_message(e: BrowserError) -> Seq<char> {
    match e {
        BrowserError::InvalidTransferId => "invalid Browser / QR transfer ID"@,
        BrowserError::InvalidTimeout => "invalid Browser / QR timeout"@,
        BrowserError::InvalidToken => "invalid Browser / QR token"@,
        BrowserError::NoFiles => "Browser / QR sharing requires at least one file"@,
        BrowserError::ServerFailed(detail) => "Browser / QR server failed: "@ + detail@,
        BrowserError::MissingUrl => "Browser / QR server omitted its URL"@,
        BrowserError::MissingExpiry => "Browser / QR server omitted its expiry"@,
        BrowserError::LauncherFailed(status) => "Browser / QR launcher exited during startup with "@
            + status@,
        BrowserError::NotReady => "Browser / QR server did not become ready within five seconds"@,
        BrowserError::Randomness(error) => "could not obtain secure randomness: "@ + error.detail@,
    }
}

/// A running Browser / QR transfer.
#[derive(Debug)]
pub struct BrowserLaunch {
    pub url: String,
    pub expires_at_unix: u64,
    pub transfer_id: String,
}

/// A transfer ID is 32 lowercase hexadecimal digits.
pub open spec fn spec_valid_transfer_id(id: Seq<char>) -> bool {
    id.len() == 32 && all_lower_hex(id)
}

/// A session token is 64 hexadecimal digits.
pub open spec fn spec_valid_token(token: Seq<char>) -> bool {
    token.len() == 64 && all_hex(token)
}

fn is_lower_hex_char(c: char) -> (b: bool)
    ensures
        b == is_lower_hex_digit(c),
{
    ('0' <= c && c <= '9') || ('a' <= c && c <= 'f')
}

fn is_hex_char(c: char) -> (b: bool)
    ensures
        b == is_hex_digit(c),
{
    ('0' <= c && c <= '9') || ('a' <= c && c <= 'f') || ('A' <= c && c <= 'F')
}

/// The user service unit that runs the transfer `transfer_id`. Only IDs of 32
/// lowercase hexadecimal digits are accepted, so the name cannot leave the
/// `unified-share-browser-` namespace.
pub fn unit_name(transfer_id: &str) -> (result: Result<String, BrowserError>)
    ensures
        result is Ok <==> spec_valid_transfer_id(transfer_id@),
        result matches Ok(name) ==> name@ == "unified-share-browser-"@ + transfer_id@,
        result matches Err(e) ==> e is InvalidTransferId,
{
    let chars = chars_of(transfer_id);
    if chars.len() != 32 {
        return Err(BrowserError::InvalidTransferId);
    }
    let mut i: usize = 0;
    while i < chars.len()
        invariant
            i <= chars.len(),
            chars@ == transfer_id@,
            forall|j: int| 0 <= j < i ==> is_lower_hex_digit(#[trigger] transfer_id@[j]),
        decreases chars.len() - i,
    {
        if !is_lower_hex_char(chars[i]) {
            return Err(BrowserError::InvalidTransferId);
        }
        i += 1;
    }
    let mut name = "unified-share-browser-".to_owned();
    name.append(transfer_id);
    Ok(name)
}

/// Checks the lifetime and the token that a Browser / QR server was started with.
pub fn validate_server_state(timeout_seconds: u64, token: &str) -> (result: Result<(), BrowserError>)
    ensures
        result is Ok <==> (MIN_TIMEOUT_SECONDS <= timeout_seconds <= MAX_TIMEOUT_SECONDS
            && spec_valid_token(token@)),
        result matches Err(e) ==> (if !(MIN_TIMEOUT_SECONDS <= timeout_seconds
            <= MAX_TIMEOUT_SECONDS) {
            e is InvalidTimeout
        } else {
            e is InvalidToken
        }),
{
    if timeout_seconds < MIN_TIMEOUT_SECONDS || timeout_seconds > MAX_TIMEOUT_SECONDS {
        return Err(BrowserError::InvalidTimeout);
    }
    let chars = chars_of(token);
    if chars.len() != 64 {
        return Err(BrowserError::InvalidToken);
    }
    let mut i: usize = 0;
    while i < chars.len()
        invariant
            i <= chars.len(),
            chars@ == token@,
            MIN_TIMEOUT_SECONDS <= timeout_seconds <= MAX_TIMEOUT_SECONDS,
            forall|j: int| 0 <= j < i ==> is_hex_digit(#[trigger] token@[j]),
        decreases chars.len() - i,
    {
        if !is_hex_char(chars[i]) {
            return Err(BrowserError::InvalidToken);
        }
        i += 1;
    }
    Ok(())
}

/// A new transfer ID: 16 random bytes in lowercase hexadecimal.
pub fn new_transfer_id() -> (result: Result<String, BrowserError>)
    ensures
        result matches Ok(id) ==> spec_valid_transfer_id(id@),
        result matches Err(e) ==> e is Randomness,
        result matches Ok(id) ==> exists|bytes: Seq<u8>|
            bytes.len() == 16 && id@ == #[trigger] hex_encode(bytes),
{
    match random_hex(16) {
        Ok(id) => Ok(id),
        Err(e) => Err(BrowserError::Randomness(e)),
    }
}

/// A new session token: 32 random bytes (256 bits) in lowercase hexadecimal.
pub fn new_token() -> (result: Result<String, BrowserError>)
    ensures
        result matches Ok(token) ==> spec_valid_token(token@),
        result matches Err(e) ==> e is Randomness,
        result matches Ok(token) ==> token@.len() == 64 && all_lower_hex(token@),
        result matches Ok(token) ==> exists|bytes: Seq<u8>|
            bytes.len() == 32 && token@ == #[trigger] hex_encode(bytes),
{
    match random_hex(32) {
        Ok(token) => Ok(token),
        Err(e) => Err(BrowserError::Randomness(e)),
    }
}

/// Every transfer ID made from 16 bytes names a unit that `unit_name` accepts.
pub proof fn lemma_fresh_transfer_id_accepted(bytes: Seq<u8>)
    requires
        bytes.len() == 16,
    ensures
        spec_valid_transfer_id(hex_encode(bytes)),
{
    lemma_hex_encode_shape(bytes);
}

/// Every token made from 32 bytes passes the check that the server makes
/// before it serves.
pub proof fn lemma_fresh_token_accepted(bytes: Seq<u8>)
    requires
        bytes.len() == 32,
    ensures
        spec_valid_token(hex_encode(bytes)),
{
    lemma_hex_encode_shape(bytes);
}

/// The file that hands the server its state.
pub fn state_file_name(transfer_id: &str) -> (name: String)
    ensures
        name@ == transfer_id@ + ".state.json"@,
{
    let mut name = transfer_id.to_owned();
    name.append(".state.json");
    name
}

/// The file in which the server reports that it is ready.
pub fn ready_file_name(transfer_id: &str) -> (name: String)
    ensures
        name@ == transfer_id@ + ".ready.json"@,
{
    let mut name = transfer_id.to_owned();
    name.append(".ready.json");
    name
}

/// The private URL of a transfer.
pub open spec fn spec_base_url(address: Seq<char>, port: u16, token: Seq<char>) -> Seq<char> {
    "http://"@ + address + ":"@ + decimal(port as nat) + "/t/"@ + token + "/"@
}

/// The private URL under which the server offers the files.
pub fn base_url(address: &str, port: u16, token: &str) -> (url: String)
    ensures
        url@ == spec_base_url(address@, port, token@),
{
    let mut url = "http://".to_owned();
    url.append(address);
    url.append(":");
    push_decimal(&mut url, port as u64);
    url.append("/t/");
    url.append(token);
    url.append("/");
    url
}


/// The HTML text that stands for `c`.
pub open spec fn escape_char(c: char) -> Seq<char> {
    if c == '&' {
        "&amp;"@
    } else if c == '<' {
        "&lt;"@
    } else if c == '>' {
        "&gt;"@
    } else if c == '"' {
        "&quot;"@
    } else if c == '\'' {
        "&#39;"@
    } else {
        seq![c]
    }
}

/// `value` with `&`, `<`, `>`, `"` and `'` replaced by HTML character references.
pub open spec fn spec_html_escape(value: Seq<char>) -> Seq<char>
    decreases value.len(),
{
    if value.len() == 0 {
        seq![]
    } else {
        spec_html_escape(value.drop_last()) + escape_char(value.last())
    }
}

/// Escapes text for use in HTML content and attribute values.
pub fn html_escape(value: &str) -> (escaped: String)
    ensures
        escaped@ == spec_html_escape(value@),
{
    let chars = chars_of(value);
    let mut out = String::new();
    let mut i: usize = 0;
    while i < chars.len()
        invariant
            i <= chars.len(),
            chars@ == value@,
            out@ == spec_html_escape(value@.take(i as int)),
        decreases chars.len() - i,
    {
        let c = chars[i];
        assert(value@.take(i + 1).drop_last() =~= value@.take(i as int));
        if c == '&' {
            out.append("&amp;");
        } else if c == '<' {
            out.append("&lt;");
        } else if c == '>' {
            out.append("&gt;");
        } else if c == '"' {
            out.append("&quot;");
        } else if c == '\'' {
            out.append("&#39;");
        } else {
            out.push(c);
        }
        i += 1;
    }
    assert(value@.take(i as int) =~= value@);
    out
}

/// A character that HTML escaping leaves no trace of.
pub open spec fn is_html_special(c: char) -> bool {
    c == '<' || c == '>' || c == '"' || c == '\''
}

/// Escaped text holds no `<`, `>`, `"` or `'`, so an untrusted file name
/// cannot open a tag or leave an attribute value.
pub proof fn lemma_html_escape_removes_specials(value: Seq<char>)
    ensures
        forall|i: int|
            0 <= i < spec_html_escape(value).len() ==> !is_html_special(
                #[trigger] spec_html_escape(value)[i],
            ),
    decreases value.len(),
{
    if value.len() > 0 {
        lemma_html_escape_removes_specials(value.drop_last());
        reveal_strlit("&amp;");
        reveal_strlit("&lt;");
        reveal_strlit("&gt;");
        reveal_strlit("&quot;");
        reveal_strlit("&#39;");
        let prev = spec_html_escape(value.drop_last());
        let tail = escape_char(value.last());
        assert forall|i: int| 0 <= i < spec_html_escape(value).len() implies !is_html_special(
            #[trigger] spec_html_escape(value)[i],
        ) by {
            if i < prev.len() {
                assert(spec_html_escape(value)[i] == prev[i]);
            } else {
                assert(spec_html_escape(value)[i] == tail[i - prev.len()]);
            }
        }
    }
}

/// The character that stands for `c` in a quoted header file name.
pub open spec fn header_safe_char(c: char) -> char {
    if c == '"' || c == '\\' || c == '\r' || c == '\n' || is_control(c) {
        '_'
    } else {
        c
    }
}

/// `value` with quotes, backslashes and control characters replaced by `_`.
pub open spec fn spec_safe_header_filename(value: Seq<char>) -> Seq<char> {
    value.map_values(|c: char| header_safe_char(c))
}

/// A file name that can stand between quotes in a `Content-Disposition` header.
pub fn safe_header_filename(value: &str) -> (safe: String)
    ensures
        safe@ == spec_safe_header_filename(value@),
{
    let chars = chars_of(value);
    let mut out = String::new();
    let mut i: usize = 0;
    while i < chars.len()
        invariant
            i <= chars.len(),
            chars@ == value@,
            out@ == spec_safe_header_filename(value@.take(i as int)),
        decreases chars.len() - i,
    {
        let c = chars[i];
        let r = if c == '"' || c == '\\' || c == '\r' || c == '\n' || char_is_control(c) {
            '_'
        } else {
            c
        };
        out.push(r);
        assert(spec_safe_header_filename(value@.take(i + 1)) =~= spec_safe_header_filename(
            value@.take(i as int),
        ).push(r));
        i += 1;
    }
    assert(value@.take(i as int) =~= value@);
    out
}

/// A safe header file name has as many characters as the given name and holds
/// no quote, backslash, carriage return, line feed or other control character,
/// so it cannot end the header or start another one.
pub proof fn lemma_safe_header_filename_cannot_inject(value: Seq<char>)
    ensures
        spec_safe_header_filename(value).len() == value.len(),
        forall|i: int|
            0 <= i < value.len() ==> {
                let c = #[trigger] spec_safe_header_filename(value)[i];
                c != '"' && c != '\\' && c != '\r' && c != '\n' && !is_control(c)
            },
{
}


/// The page text before the list of links.
pub open spec fn index_head() -> Seq<char> {
    "<!doctype html><html><head><meta charset=\"utf-8\"><meta name=\"viewport\" content=\"width=device-width\"><title>Unified Share</title><style>body{font:16px system-ui;max-width:38rem;margin:3rem auto;padding:0 1rem;color:#18181b}h1{font-size:1.5rem}li{margin:.8rem 0}a{color:#2563eb}</style></head><body><h1>Shared files</h1><p>This private link expires automatically.</p><ul>"@
}

/// The page text after the list of links.
pub open spec fn index_tail() -> Seq<char> {
    "</ul></body></html>"@
}

/// The download route of the file at `index`.
pub open spec fn file_route(base: Seq<char>, index: nat) -> Seq<char> {
    base + "file/"@ + decimal(index)
}

/// The list item that links the file at `index`.
pub open spec fn link_item(base: Seq<char>, index: nat, name: Seq<char>) -> Seq<char> {
    "<li><a href=\""@ + file_route(base, index) + "\" download>"@ + spec_html_escape(name)
        + "</a></li>"@
}

/// The list items for `names`, numbered from 0.
pub open spec fn spec_links(names: Seq<Seq<char>>, base: Seq<char>) -> Seq<char>
    decreases names.len(),
{
    if names.len() == 0 {
        seq![]
    } else {
        spec_links(names.drop_last(), base) + link_item(
            base,
            (names.len() - 1) as nat,
            names.last(),
        )
    }
}

/// The index page of a transfer.
pub open spec fn spec_index_html(names: Seq<Seq<char>>, base: Seq<char>) -> Seq<char> {
    index_head() + spec_links(names, base) + index_tail()
}

/// The index page that lists the shared files by number under `base`; the
/// file names only appear as escaped link text.
pub fn index_html(names: &Vec<String>, base: &str) -> (html: String)
    ensures
        html@ == spec_index_html(views_of_strings(names@), base@),
{
    let ghost all = views_of_strings(names@);
    let mut links = String::new();
    let mut i: usize = 0;
    while i < names.len()
        invariant
            i <= names.len(),
            all == views_of_strings(names@),
            links@ == spec_links(all.take(i as int), base@),
        decreases names.len() - i,
    {
        assert(all.take(i + 1).drop_last() =~= all.take(i as int));
        assert(all.take(i + 1).last() == names@[i as int]@);
        links.append("<li><a href=\"");
        links.append(base);
        links.append("file/");
        push_decimal(&mut links, i as u64);
        links.append("\" download>");
        let escaped = html_escape(names[i].as_str());
        links.append(escaped.as_str());
        links.append("</a></li>");
        assert(links@ =~= spec_links(all.take(i + 1), base@));
        i += 1;
    }
    assert(all.take(i as int) =~= all);
    let mut html = "<!doctype html><html><head><meta charset=\"utf-8\"><meta name=\"viewport\" content=\"width=device-width\"><title>Unified Share</title><style>body{font:16px system-ui;max-width:38rem;margin:3rem auto;padding:0 1rem;color:#18181b}h1{font-size:1.5rem}li{margin:.8rem 0}a{color:#2563eb}</style></head><body><h1>Shared files</h1><p>This private link expires automatically.</p><ul>".to_owned();
    html.append(links.as_str());
    html.append("</ul></body></html>");
    html
}

/// `needle` occurs in `hay`.
pub open spec fn contains_text(hay: Seq<char>, needle: Seq<char>) -> bool {
    exists|k: int|
        0 <= k && k + needle.len() <= hay.len() && #[trigger] hay.subrange(k, k + needle.len())
            == needle
}

proof fn lemma_links_prefix(names: Seq<Seq<char>>, base: Seq<char>, j: int) -> (rest: Seq<char>)
    requires
        0 <= j <= names.len(),
    ensures
        spec_links(names, base) == spec_links(names.take(j), base) + rest,
    decreases names.len(),
{
    if j == names.len() {
        assert(names.take(j) =~= names);
        assert(spec_links(names, base) =~= spec_links(names.take(j), base) + Seq::<char>::empty());
        Seq::<char>::empty()
    } else {
        let shorter = names.drop_last();
        assert(shorter.take(j) =~= names.take(j));
        let rest = lemma_links_prefix(shorter, base, j);
        let item = link_item(base, (names.len() - 1) as nat, names.last());
        assert(spec_links(names, base) =~= spec_links(names.take(j), base) + (rest + item));
        rest + item
    }
}

/// Every shared file has its numbered download route on the index page: the
/// page links the file at position `i` as `base` + `file/` + `i`.
pub proof fn lemma_index_links_every_file(names: Seq<Seq<char>>, base: Seq<char>, i: int)
    requires
        0 <= i < names.len(),
    ensures
        contains_text(spec_index_html(names, base), file_route(base, i as nat)),
{
    let rest = lemma_links_prefix(names, base, i + 1);
    let prefix = names.take(i + 1);
    assert(prefix.drop_last() =~= names.take(i));
    let before = spec_links(names.take(i), base);
    let opening = "<li><a href=\""@;
    let route = file_route(base, i as nat);
    let item = link_item(base, i as nat, names[i]);
    assert(spec_links(prefix, base) == before + item);
    let html = spec_index_html(names, base);
    let k: int = (index_head().len() + before.len() + opening.len()) as int;
    let after = "\" download>"@ + spec_html_escape(names[i]) + "</a></li>"@;
    assert(item =~= opening + route + after);
    assert(html =~= (index_head() + before + opening) + route + (after + rest + index_tail()));
    assert(html.subrange(k, k + route.len() as int) =~= route);
}

/// The HTTP methods that the browser server tells apart.
#[derive(Clone, Copy, Debug, PartialEq, Eq, Structural)]
pub enum RequestMethod {
    Get,
    Head,
    Other,
}

/// What the browser server answers a request with.
#[derive(Clone, Copy, Debug, PartialEq, Eq, Structural)]
pub enum Route {
    /// 405: only GET and HEAD are served.
    MethodNotAllowed,
    /// The index page.
    Index,
    /// The shared file at this position.
    File(usize),
    /// 404.
    NotFound,
}

/// The index path of a transfer.
pub open spec fn index_path(token: Seq<char>) -> Seq<char> {
    "/t/"@ + token + "/"@
}

/// The prefix of the download routes of a transfer.
pub open spec fn file_prefix(token: Seq<char>) -> Seq<char> {
    "/t/"@ + token + "/file/"@
}

/// How a request is routed: the index path, or a download route whose number
/// names one of the shared files; anything else is not found.
pub open spec fn spec_route(
    method: RequestMethod,
    url: Seq<char>,
    token: Seq<char>,
    file_count: nat,
) -> Route {
    if method == RequestMethod::Other {
        Route::MethodNotAllowed
    } else if url == index_path(token) {
        Route::Index
    } else if starts_with(url, file_prefix(token)) {
        match spec_parse_usize(url.skip(file_prefix(token).len() as int)) {
            Some(index) => if index < file_count {
                Route::File(index)
            } else {
                Route::NotFound
            },
            None => Route::NotFound,
        }
    } else {
        Route::NotFound
    }
}

/// Every file that the index page links can be downloaded: a GET or HEAD of
/// the link of file `i`, for any `i` below the number of shared files, is
/// routed to that file, the first one included.
pub proof fn lemma_every_linked_file_is_served(
    method: RequestMethod,
    token: Seq<char>,
    file_count: nat,
    i: nat,
)
    requires
        method != RequestMethod::Other,
        i < file_count,
        file_count <= usize::MAX,
    ensures
        spec_route(method, file_route(index_path(token), i), token, file_count) == Route::File(
            i as usize,
        ),
{
    reveal_strlit("/t/");
    reveal_strlit("/");
    reveal_strlit("file/");
    reveal_strlit("/file/");
    let url = file_route(index_path(token), i);
    let prefix = file_prefix(token);
    assert(prefix =~= index_path(token) + "file/"@);
    assert(url =~= prefix + decimal(i));
    assert(url.len() > index_path(token).len());
    assert(url.take(prefix.len() as int) =~= prefix);
    assert(url.skip(prefix.len() as int) =~= decimal(i));
    lemma_parse_decimal(i);
}

/// Routes a request of the browser server. Downloads are addressed by number
/// only, and only numbers below `file_count` reach a file.
pub fn route_request(method: RequestMethod, url: &str, token: &str, file_count: usize) -> (route:
    Route)
    ensures
        route == spec_route(method, url@, token@, file_count as nat),
        route matches Route::File(index) ==> index < file_count,
{
    if method == RequestMethod::Other {
        return Route::MethodNotAllowed;
    }
    let url_chars = chars_of(url);
    let mut index_text = "/t/".to_owned();
    index_text.append(token);
    index_text.append("/");
    let index_chars = chars_of(index_text.as_str());
    if chars_equal(&url_chars, &index_chars) {
        return Route::Index;
    }
    let mut prefix_text = "/t/".to_owned();
    prefix_text.append(token);
    prefix_text.append("/file/");
    let prefix_chars = chars_of(prefix_text.as_str());
    if has_prefix(&url_chars, &prefix_chars) {
        let rest = chars_after(&url_chars, prefix_chars.len());
        match parse_usize(&rest) {
            Some(index) => {
                if index < file_count {
                    Route::File(index)
                } else {
                    Route::NotFound
                }
            },
            None => Route::NotFound,
        }
    } else {
        Route::NotFound
    }
}

impl Route {
    /// The HTTP status of the answer; a file that cannot be read is answered
    /// with 500 instead.
    pub fn status_code(&self) -> (code: u16)
        ensures
            code == match *self {
                Route::MethodNotAllowed => 405u16,
                Route::Index => 200u16,
                Route::File(_) => 200u16,
                Route::NotFound => 404u16,
            },
    {
        match self {
            Route::MethodNotAllowed => 405,
            Route::Index => 200,
            Route::File(_) => 200,
            Route::NotFound => 404,
        }
    }
}


#[verifier::external_type_specification]
#[verifier::external_body]
pub struct ExHeader(tiny_http::Header);

/// The header that `tiny_http::Header::from_bytes` builds from a field name
/// and a value.
pub uninterp spec fn built_header(field: Seq<char>, value: Seq<char>) -> tiny_http::Header;

/// Calls `tiny_http::Header::from_bytes` with the UTF-8 bytes of both texts.
/// Claimed, from the crate's source: it succeeds exactly when both texts are
/// ASCII (it builds an `AsciiString` from each and fails otherwise), and the
/// header it builds depends on the two texts alone.
#[verifier::external_body]
fn make_header(field: &str, value: &str) -> (header: Result<tiny_http::Header, ()>)
    ensures
        header is Ok <==> (is_ascii_chars(field@) && is_ascii_chars(value@)),
        header matches Ok(h) ==> h == built_header(field@, value@),
{
    tiny_http::Header::from_bytes(field.as_bytes(), value.as_bytes())
}

/// A header whose field name and value are both ASCII.
fn ascii_header(field: &str, value: &str) -> (header: tiny_http::Header)
    requires
        is_ascii_chars(field@),
        is_ascii_chars(value@),
    ensures
        header == built_header(field@, value@),
{
    match make_header(field, value) {
        Ok(h) => h,
        Err(()) => vstd::pervasive::unreached(),
    }
}

/// The `Content-Disposition` value that offers a file for download.
pub open spec fn spec_content_disposition(name: Seq<char>) -> Seq<char> {
    "attachment; filename=\""@ + spec_safe_header_filename(name) + "\""@
}

/// The headers of a file download, in the order they are sent.
pub open spec fn spec_file_headers(name: Seq<char>) -> Seq<tiny_http::Header> {
    seq![
        built_header("Content-Type"@, "application/octet-stream"@),
        built_header("Content-Disposition"@, spec_content_disposition(name)),
        built_header("Cache-Control"@, "no-store"@),
    ]
}

/// The headers of a file download. A header value must be ASCII, so the file
/// name, once made header-safe, must be ASCII too.
pub fn file_headers(name: &str) -> (headers: Vec<tiny_http::Header>)
    requires
        is_ascii_chars(spec_safe_header_filename(name@)),
    ensures
        headers@ == spec_file_headers(name@),
{
    proof {
        reveal_strlit("Content-Type");
        reveal_strlit("application/octet-stream");
        reveal_strlit("Content-Disposition");
        reveal_strlit("Cache-Control");
        reveal_strlit("no-store");
        reveal_strlit("attachment; filename=\"");
        reveal_strlit("\"");
    }
    let mut disposition = "attachment; filename=\"".to_owned();
    let safe = safe_header_filename(name);
    disposition.append(safe.as_str());
    disposition.append("\"");
    assert(disposition@ == spec_content_disposition(name@));
    assert(is_ascii_chars(disposition@)) by {
        let prefix = "attachment; filename=\""@;
        let middle = spec_safe_header_filename(name@);
        assert forall|i: int| 0 <= i < disposition@.len() implies '\0' <= #[trigger] disposition@[i]
            <= '\u{7f}' by {
            if i < prefix.len() {
                assert(disposition@[i] == prefix[i]);
            } else if i < prefix.len() + middle.len() {
                assert(disposition@[i] == middle[i - prefix.len()]);
            }
        }
    }
    let content_type = ascii_header("Content-Type", "application/octet-stream");
    let content_disposition = ascii_header("Content-Disposition", disposition.as_str());
    let cache = ascii_header("Cache-Control", "no-store");
    let mut headers: Vec<tiny_http::Header> = Vec::new();
    headers.push(content_type);
    headers.push(content_disposition);
    headers.push(cache);
    assert(headers@ =~= spec_file_headers(name@));
    headers
}

/// The headers of the index page, in the order they are sent.
pub open spec fn spec_html_headers() -> Seq<tiny_http::Header> {
    seq![
        built_header("Content-Type"@, "text/html; charset=utf-8"@),
        built_header("Cache-Control"@, "no-store"@),
        built_header("X-Content-Type-Options"@, "nosniff"@),
        built_header("X-Frame-Options"@, "DENY"@),
        built_header("Referrer-Policy"@, "no-referrer"@),
        built_header("Content-Security-Policy"@, "default-src 'none'; style-src 'unsafe-inline'"@),
    ]
}

/// The headers of the index page: no caching, no sniffing, no framing, no
/// referrer, and a policy that forbids everything but inline style.
pub fn html_headers() -> (headers: Vec<tiny_http::Header>)
    ensures
        headers@ == spec_html_headers(),
{
    proof {
        reveal_strlit("Content-Type");
        reveal_strlit("text/html; charset=utf-8");
        reveal_strlit("Cache-Control");
        reveal_strlit("no-store");
        reveal_strlit("X-Content-Type-Options");
        reveal_strlit("nosniff");
        reveal_strlit("X-Frame-Options");
        reveal_strlit("DENY");
        reveal_strlit("Referrer-Policy");
        reveal_strlit("no-referrer");
        reveal_strlit("Content-Security-Policy");
        reveal_strlit("default-src 'none'; style-src 'unsafe-inline'");
    }
    let mut headers: Vec<tiny_http::Header> = Vec::new();
    headers.push(ascii_header("Content-Type", "text/html; charset=utf-8"));
    headers.push(ascii_header("Cache-Control", "no-store"));
    headers.push(ascii_header("X-Content-Type-Options", "nosniff"));
    headers.push(ascii_header("X-Frame-Options", "DENY"));
    headers.push(ascii_header("Referrer-Policy", "no-referrer"));
    headers.push(
        ascii_header("Content-Security-Policy", "default-src 'none'; style-src 'unsafe-inline'"),
    );
    assert(headers@ =~= spec_html_headers());
    headers
}


/// What a Browser / QR server reports once it has started, or failed to.
#[derive(Debug)]
pub struct ReadyState {
    pub ok: bool,
    pub url: Option<String>,
    pub expires_at_unix: Option<u64>,
    pub error: Option<String>,
}

/// The report of a server that serves under `url` from `now` for
/// `timeout_seconds`; the expiry saturates rather than wraps.
pub fn ready_report(url: String, now: u64, timeout_seconds: u64) -> (report: ReadyState)
    ensures
        report.ok,
        report.url == Some(url),
        report.expires_at_unix == Some(if now + timeout_seconds > u64::MAX {
            u64::MAX
        } else {
            (now + timeout_seconds) as u64
        }),
        report.error is None,
{
    ReadyState {
        ok: true,
        url: Some(url),
        expires_at_unix: Some(now.saturating_add(timeout_seconds)),
        error: None,
    }
}

/// The report of a server that could not start.
pub fn failure_report(error: String) -> (report: ReadyState)
    ensures
        !report.ok,
        report.url is None,
        report.expires_at_unix is None,
        report.error == Some(error),
{
    ReadyState { ok: false, url: None, expires_at_unix: None, error: Some(error) }
}

/// How the launcher process ended.
pub struct LauncherExit {
    pub success: bool,
    /// The exit status as the operating system describes it.
    pub status: String,
}

/// What must be undone when a launch is given up.
#[derive(Clone, Copy, Debug, PartialEq, Eq, Structural)]
pub enum LaunchCleanup {
    /// Nothing; the server reported for itself.
    Nothing,
    /// Remove the state file that nobody consumed.
    StateFile,
    /// Stop the launcher and the service, and remove the state file.
    Everything,
}

/// The next move while waiting for a Browser / QR server to start.
#[derive(Debug)]
pub enum LaunchStep {
    /// The server is ready.
    Launched(BrowserLaunch),
    /// The launch failed.
    Failed(BrowserError, LaunchCleanup),
    /// Wait a moment and look again.
    Wait { launcher_finished: bool },
}

/// Whether `step` is the right move for what was observed in one round.
pub open spec fn spec_launch_step(
    launcher_finished: bool,
    ready: Option<ReadyState>,
    launcher_exit: Option<LauncherExit>,
    deadline_passed: bool,
    transfer_id: String,
    step: LaunchStep,
) -> bool {
    match ready {
        Some(r) => if !r.ok {
            &&& step matches LaunchStep::Failed(BrowserError::ServerFailed(detail), cleanup)
            &&& cleanup == LaunchCleanup::Nothing
            &&& detail@ == match r.error {
                Some(e) => e@,
                None => "unknown startup error"@,
            }
        } else if r.url is None {
            step == LaunchStep::Failed(BrowserError::MissingUrl, LaunchCleanup::Nothing)
        } else if r.expires_at_unix is None {
            step == LaunchStep::Failed(BrowserError::MissingExpiry, LaunchCleanup::Nothing)
        } else {
            step == LaunchStep::Launched(
                BrowserLaunch {
                    url: r.url->0,
                    expires_at_unix: r.expires_at_unix->0,
                    transfer_id,
                },
            )
        },
        None => if !launcher_finished && (launcher_exit matches Some(e) && !e.success) {
            step == LaunchStep::Failed(
                BrowserError::LauncherFailed(launcher_exit->0.status),
                LaunchCleanup::StateFile,
            )
        } else if deadline_passed {
            step == LaunchStep::Failed(BrowserError::NotReady, LaunchCleanup::Everything)
        } else {
            step == LaunchStep::Wait { launcher_finished: launcher_finished || launcher_exit is Some }
        },
    }
}

/// Decides the next move of the launcher, given what was observed in this
/// round: the server's ready report, if one was found; how the launcher
/// process ended, if it was checked and has ended; whether the five-second
/// deadline has passed. A ready report decides alone; a failed launcher ends
/// the wait; the deadline ends it otherwise.
pub fn launch_step(
    launcher_finished: bool,
    ready: Option<ReadyState>,
    launcher_exit: Option<LauncherExit>,
    deadline_passed: bool,
    transfer_id: String,
) -> (step: LaunchStep)
    ensures
        spec_launch_step(launcher_finished, ready, launcher_exit, deadline_passed, transfer_id, step),
{
    if let Some(r) = ready {
        if !r.ok {
            let detail = match r.error {
                Some(e) => e,
                None => "unknown startup error".to_owned(),
            };
            return LaunchStep::Failed(BrowserError::ServerFailed(detail), LaunchCleanup::Nothing);
        }
        let url = match r.url {
            Some(u) => u,
            None => {
                return LaunchStep::Failed(BrowserError::MissingUrl, LaunchCleanup::Nothing);
            },
        };
        let expires_at_unix = match r.expires_at_unix {
            Some(e) => e,
            None => {
                return LaunchStep::Failed(BrowserError::MissingExpiry, LaunchCleanup::Nothing);
            },
        };
        return LaunchStep::Launched(BrowserLaunch { url, expires_at_unix, transfer_id });
    }
    let mut finished = launcher_finished;
    if !launcher_finished {
        if let Some(exit) = launcher_exit {
            if !exit.success {
                return LaunchStep::Failed(
                    BrowserError::LauncherFailed(exit.status),
                    LaunchCleanup::StateFile,
                );
            }
            finished = true;
        }
    }
    if deadline_passed {
        return LaunchStep::Failed(BrowserError::NotReady, LaunchCleanup::Everything);
    }
    LaunchStep::Wait { launcher_finished: finished }
}

/// What inspecting a path to share found.
#[derive(Clone, Copy, Debug, PartialEq, Eq, Structural)]
pub enum PathKind {
    RegularFile,
    NotRegularFile,
    Unreadable,
}

/// Why a list of paths cannot be shared.
#[derive(Clone, Copy, Debug, PartialEq, Eq, Structural)]
pub enum PathProblem {
    /// No path was given.
    NoPaths,
    /// The path at this position could not be inspected.
    Unreadable(usize),
    /// The path at this position is no regular file.
    NotRegularFile(usize),
}

/// The first problem among the inspected paths, in order; none when every
/// path is a regular file and there is at least one.
pub open spec fn spec_first_path_problem(kinds: Seq<PathKind>) -> Option<PathProblem> {
    if kinds.len() == 0 {
        Some(PathProblem::NoPaths)
    } else {
        spec_first_bad_path(kinds, 0)
    }
}

/// The first path from position `from` on that is no regular file.
pub open spec fn spec_first_bad_path(kinds: Seq<PathKind>, from: int) -> Option<PathProblem>
    decreases kinds.len() - from,
{
    if from >= kinds.len() || from < 0 {
        None
    } else if kinds[from] == PathKind::Unreadable {
        Some(PathProblem::Unreadable(from as usize))
    } else if kinds[from] == PathKind::NotRegularFile {
        Some(PathProblem::NotRegularFile(from as usize))
    } else {
        spec_first_bad_path(kinds, from + 1)
    }
}

/// The first path that is no regular file, in order; none when all are.
pub fn first_bad_path(kinds: &Vec<PathKind>) -> (problem: Option<PathProblem>)
    ensures
        problem == spec_first_bad_path(kinds@, 0),
        problem is None <==> forall|i: int|
            0 <= i < kinds@.len() ==> #[trigger] kinds@[i] == PathKind::RegularFile,
{
    let mut i: usize = 0;
    while i < kinds.len()
        invariant
            i <= kinds.len(),
            spec_first_bad_path(kinds@, 0) == spec_first_bad_path(kinds@, i as int),
            forall|j: int| 0 <= j < i ==> #[trigger] kinds@[j] == PathKind::RegularFile,
        decreases kinds.len() - i,
    {
        match kinds[i] {
            PathKind::Unreadable => {
                return Some(PathProblem::Unreadable(i));
            },
            PathKind::NotRegularFile => {
                return Some(PathProblem::NotRegularFile(i));
            },
            PathKind::RegularFile => {},
        }
        i += 1;
    }
    None
}

/// Checks the paths of a Browser / QR transfer: at least one, and only
/// regular files.
pub fn first_path_problem(kinds: &Vec<PathKind>) -> (problem: Option<PathProblem>)
    ensures
        problem == spec_first_path_problem(kinds@),
        problem is None <==> (kinds@.len() > 0 && forall|i: int|
            0 <= i < kinds@.len() ==> #[trigger] kinds@[i] == PathKind::RegularFile),
{
    if kinds.len() == 0 {
        return Some(PathProblem::NoPaths);
    }
    first_bad_path(kinds)
}

/// Why the Browser / QR route cannot run on this machine.
#[derive(Clone, Copy, Debug, PartialEq, Eq, Structural)]
pub enum AvailabilityProblem {
    RuntimeDirUnset,
    RuntimeDirMissing,
    ServiceToolsMissing,
}

/// The message of each problem.
pub open spec fn spec_availability_message(p: AvailabilityProblem) -> Seq<char> {
    match p {
        AvailabilityProblem::RuntimeDirUnset => "XDG_RUNTIME_DIR is not set"@,
        AvailabilityProblem::RuntimeDirMissing => "The per-user runtime directory is unavailable."@,
        AvailabilityProblem::ServiceToolsMissing => "The user service manager tools are unavailable."@,
    }
}

impl AvailabilityProblem {
    /// The message shown to the user.
    pub fn message(&self) -> (text: String)
        ensures
            text@ == spec_availability_message(*self),
    {
        match self {
            AvailabilityProblem::RuntimeDirUnset => "XDG_RUNTIME_DIR is not set".to_owned(),
            AvailabilityProblem::RuntimeDirMissing => "The per-user runtime directory is unavailable.".to_owned(),
            AvailabilityProblem::ServiceToolsMissing => "The user service manager tools are unavailable.".to_owned(),
        }
    }
}

/// Whether the Browser / QR route can run, before the LAN address is looked
/// up: `runtime_dir` tells whether `XDG_RUNTIME_DIR` is set and, if so,
/// whether it is a directory; both `systemd-run` and `systemctl` must be on
/// the search path.
pub fn availability_problem(runtime_dir: Option<bool>, systemd_run: bool, systemctl: bool) -> (problem:
    Option<AvailabilityProblem>)
    ensures
        problem == (match runtime_dir {
            None => Some(AvailabilityProblem::RuntimeDirUnset),
            Some(false) => Some(AvailabilityProblem::RuntimeDirMissing),
            Some(true) => if systemd_run && systemctl {
                None
            } else {
                Some(AvailabilityProblem::ServiceToolsMissing)
            },
        }),
{
    match runtime_dir {
        None => Some(AvailabilityProblem::RuntimeDirUnset),
        Some(false) => Some(AvailabilityProblem::RuntimeDirMissing),
        Some(true) => if systemd_run && systemctl {
            None
        } else {
            Some(AvailabilityProblem::ServiceToolsMissing)
        },
    }
}

} // verus!
