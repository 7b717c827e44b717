//! The shell's static file server.
//!
//! The Harness guards its web surface with a session cookie that a webview only
//! holds inside a same-site frame. So the shell serves its own compiled frontend
//! from the loopback interface too, and the embedded frame is same-site. It
//! serves the static bundle the app was built with and nothing else.
use vstd::prelude::*;

use crate::error::{Error, Fault};
use crate::text;
use crate::text::Class;

verus! {

/// The loopback address the shell is served from.
pub const ADDRESS: &'static str = "127.0.0.1";

/// Bound on the head of a request the shell's own bundle can ask for.
pub const REQUEST_BYTES: usize = 4096;

/// The loopback origin the shell windows load.
#[derive(Debug)]
pub struct ShellOrigin(pub String);

/// The shell's static server, alive until stopped.
#[derive(Debug)]
pub struct ShellServer {
    pub port: u16,
    pub stopped: bool,
}

/// Whether the compiled shell can be served: it has an entry point.
pub fn check_root(entry_is_file: bool, entry: &str) -> (checked: Result<(), Error>)
    ensures
        match checked {
            Ok(_) => entry_is_file,
            Err(error) => !entry_is_file && error@ == Fault::Install(
                "the compiled shell has no entry point at "@ + entry@,
            ),
        },
{
    if entry_is_file {
        Ok(())
    } else {
        Err(Error::Install(text::join2("the compiled shell has no entry point at ", entry)))
    }
}

/// What kept the server from starting.
#[derive(Clone, Copy, Debug, PartialEq, Eq, Structural)]
pub enum StartFailure {
    Bind,
    Address,
    Spawn,
}

/// What is said when the server cannot start.
pub fn start_failure(step: StartFailure, cause: &str) -> (error: Error)
    ensures
        error@ == Fault::Install(
            (match step {
                StartFailure::Bind => "the shell could not bind: "@,
                StartFailure::Address => "the shell address is unreadable: "@,
                StartFailure::Spawn => "the shell server could not start: "@,
            }) + cause@,
        ),
{
    let what = match step {
        StartFailure::Bind => "the shell could not bind: ",
        StartFailure::Address => "the shell address is unreadable: ",
        StartFailure::Spawn => "the shell server could not start: ",
    };
    Error::Install(text::join2(what, cause))
}

impl ShellServer {
    /// A server on a port of the loopback interface, and the origin it serves.
    pub fn start(port: u16) -> (started: (ShellServer, ShellOrigin))
        ensures
            started.0.port == port,
            !started.0.stopped,
            started.1.0@ == "http://"@ + ADDRESS@ + ":"@ + text::decimal(port as nat),
    {
        let origin = text::join4("http://", ADDRESS, ":", &text::number_text(port as u64));
        (ShellServer { port, stopped: false }, ShellOrigin(origin))
    }

    /// Stops the server; it accepts nothing more.
    pub fn stop(&mut self)
        ensures
            final(self).stopped,
            final(self).port == old(self).port,
    {
        self.stopped = true;
    }
}

/// Whether the bytes end the head of a request.
pub open spec fn ends_head(bytes: Seq<u8>) -> bool {
    &&& bytes.len() >= 4
    &&& bytes[bytes.len() - 4] == 13
    &&& bytes[bytes.len() - 3] == 10
    &&& bytes[bytes.len() - 2] == 13
    &&& bytes[bytes.len() - 1] == 10
}

/// Takes in one byte of a request's head. Whether the head is read: it ended, or
/// it may not grow further.
pub fn take_byte(head: &mut Vec<u8>, byte: u8) -> (complete: bool)
    requires
        old(head)@.len() < REQUEST_BYTES,
    ensures
        final(head)@ == old(head)@.push(byte),
        complete == (ends_head(final(head)@) || final(head)@.len() == REQUEST_BYTES),
{
    head.push(byte);
    let length: usize = head.len();
    if length >= REQUEST_BYTES {
        return true;
    }
    length >= 4 && head[length - 4] == 13 && head[length - 3] == 10 && head[length - 2] == 13
        && head[length - 1] == 10
}

/// What a request asks for.
#[derive(Debug)]
pub enum Request {
    /// Nothing that can be answered: hang up.
    Nothing,
    /// Something other than reading.
    Refused,
    /// A file of the bundle, by its path below the root.
    File(String),
}

/// What a request asks for, by what it says.
pub enum Asked {
    Nothing,
    Refused,
    File(Seq<char>),
}

impl View for Request {
    type V = Asked;

    open spec fn view(&self) -> Asked {
        match *self {
            Request::Nothing => Asked::Nothing,
            Request::Refused => Asked::Refused,
            Request::File(path) => Asked::File(path@),
        }
    }
}

/// The file a target of a request names: what stands before a query or a
/// fragment, without slashes at its beginning, and the entry point where nothing
/// is left.
pub open spec fn target_file(target: Seq<char>) -> Seq<char> {
    let relative = text::trimmed_start(
        text::until(target, Class::Either('?', '#')),
        Class::Is('/'),
    );
    if relative.len() == 0 {
        "index.html"@
    } else {
        relative
    }
}

/// What the head of a request asks for.
pub open spec fn asked(head: Seq<char>) -> Asked {
    let lines = text::text_lines(head);
    if lines.len() == 0 {
        Asked::Nothing
    } else if text::first_word(lines[0]) != "GET"@ {
        Asked::Refused
    } else {
        let target = text::first_word(text::after_first_word(lines[0]));
        if target.len() == 0 {
            Asked::Nothing
        } else {
            Asked::File(target_file(target))
        }
    }
}

/// What the head of a request asks for.
pub fn read_head(head: &str) -> (request: Request)
    ensures
        request@ == asked(head@),
{
    let lines = text::lines(head);
    assert(text::texts(lines@).len() == lines@.len());
    if lines.len() == 0 {
        return Request::Nothing;
    }
    assert(text::texts(lines@)[0] == lines@[0]@);
    let (method, rest) = text::take_word(&lines[0]);
    if !text::same(&method, "GET") {
        return Request::Refused;
    }
    let (target, _) = text::take_word(&rest);
    if text::characters(&target).len() == 0 {
        return Request::Nothing;
    }
    let path = text::before(&target, Class::Either('?', '#'));
    let relative = text::trim_start(&path, Class::Is('/'));
    if text::characters(&relative).len() == 0 {
        Request::File("index.html".to_owned())
    } else {
        Request::File(relative)
    }
}

/// What the head of a request asks for, from its bytes.
pub fn read_request(head: &Vec<u8>) -> (request: Request)
    ensures
        request@ == asked(text::lossy(head@)),
{
    read_head(&text::decode_lossy(head))
}

/// Whether a place lies at or below another, step by step.
pub open spec fn lies_inside(root: Seq<Seq<char>>, found: Seq<Seq<char>>) -> bool {
    root.len() <= found.len() && forall|i: int|
        0 <= i < root.len() ==> root[i] == #[trigger] found[i]
}

/// Whether a place lies inside the bundle, by the steps of both with links
/// resolved.
pub fn inside(root: &Vec<String>, found: &Vec<String>) -> (answer: bool)
    ensures
        answer == lies_inside(text::texts(root@), text::texts(found@)),
{
    if root.len() > found.len() {
        return false;
    }
    let mut index: usize = 0;
    while index < root.len()
        invariant
            index <= root@.len() <= found@.len(),
            forall|i: int|
                0 <= i < index ==> text::texts(root@)[i] == #[trigger] text::texts(found@)[i],
        decreases root.len() - index,
    {
        if !text::same(&root[index], &found[index]) {
            assert(text::texts(root@)[index as int] != text::texts(found@)[index as int]);
            return false;
        }
        index += 1;
    }
    true
}

/// What was found where a file of the bundle is looked for.
#[derive(Debug)]
pub struct Found {
    /// Whether the place lies inside the bundle, links resolved.
    pub inside: bool,
    /// How long the file is, where it can be read.
    pub length: Option<usize>,
    /// What follows the last dot of its name.
    pub extension: Option<String>,
}

/// The type a file is served as.
pub open spec fn content_type(extension: Option<Seq<char>>) -> Seq<char> {
    if extension == Some("html"@) {
        "text/html; charset=utf-8"@
    } else if extension == Some("js"@) {
        "text/javascript; charset=utf-8"@
    } else if extension == Some("css"@) {
        "text/css; charset=utf-8"@
    } else if extension == Some("json"@) {
        "application/json"@
    } else if extension == Some("png"@) {
        "image/png"@
    } else if extension == Some("svg"@) {
        "image/svg+xml"@
    } else if extension == Some("woff2"@) {
        "font/woff2"@
    } else if extension == Some("ico"@) {
        "image/x-icon"@
    } else {
        "application/octet-stream"@
    }
}

/// Whether an extension is a given one.
fn is_extension(extension: &Option<String>, wanted: &str) -> (answer: bool)
    ensures
        answer == (text::seen(*extension) == Some(wanted@)),
{
    match extension {
        Some(found) => text::same(found, wanted),
        None => false,
    }
}

/// The type a file is served as.
pub fn content_type_of(extension: &Option<String>) -> (name: &'static str)
    ensures
        name@ == content_type(text::seen(*extension)),
{
    if is_extension(extension, "html") {
        "text/html; charset=utf-8"
    } else if is_extension(extension, "js") {
        "text/javascript; charset=utf-8"
    } else if is_extension(extension, "css") {
        "text/css; charset=utf-8"
    } else if is_extension(extension, "json") {
        "application/json"
    } else if is_extension(extension, "png") {
        "image/png"
    } else if is_extension(extension, "svg") {
        "image/svg+xml"
    } else if is_extension(extension, "woff2") {
        "font/woff2"
    } else if is_extension(extension, "ico") {
        "image/x-icon"
    } else {
        "application/octet-stream"
    }
}

/// What is answered to a request.
#[derive(Debug)]
pub struct Reply {
    pub status: u16,
    /// The head of the answer.
    pub head: String,
    /// What follows the head; nothing where the file itself follows it.
    pub body: Option<String>,
}

/// A short answer in plain text.
pub open spec fn plain_head(status: u16, message: Seq<char>) -> Seq<char> {
    "HTTP/1.1 "@ + text::decimal(status as nat) + " "@ + message
        + "\r\ncontent-type: text/plain\r\ncontent-length: "@ + text::decimal(
        vstd::utf8::encode_utf8(message).len(),
    ) + "\r\nconnection: close\r\n\r\n"@
}

/// What a file is served with: who may frame it and what it may reach.
pub const FILE_HEADERS: &'static str =
    "\r\ncontent-security-policy: default-src 'self'; img-src 'self' data:; style-src 'self' 'unsafe-inline'; connect-src 'self' ipc: http://ipc.localhost http://127.0.0.1:* ws://127.0.0.1:*; frame-src http://127.0.0.1:* http://localhost:*\r\naccess-control-allow-origin: *\r\ncache-control: no-store\r\nconnection: close\r\n\r\n";

/// The head a file of the bundle is served with.
pub open spec fn file_head(extension: Option<Seq<char>>, length: nat) -> Seq<char> {
    "HTTP/1.1 200 OK\r\ncontent-type: "@ + content_type(extension) + "\r\ncontent-length: "@
        + text::decimal(length) + FILE_HEADERS@
}

/// The status and the message of a refusal, where a file is refused. Files above
/// the limit are not this server talking to itself.
pub open spec fn refusal(found: Found, limit: usize) -> Option<(u16, Seq<char>)> {
    if !found.inside {
        Some((403, "forbidden"@))
    } else {
        match found.length {
            None => Some((404, "not found"@)),
            Some(length) => if length > limit {
                Some((413, "asset too large"@))
            } else {
                None
            },
        }
    }
}

/// A short answer in plain text.
pub fn plain_reply(status: u16, message: &str) -> (reply: Reply)
    ensures
        reply.status == status,
        reply.head@ == plain_head(status, message@),
        text::seen(reply.body) == Some(message@),
{
    let first = text::join5(
        "HTTP/1.1 ",
        &text::number_text(status as u64),
        " ",
        message,
        "\r\ncontent-type: text/plain\r\ncontent-length: ",
    );
    let head = text::join3(
        &first,
        &text::number_text(text::byte_length(message) as u64),
        "\r\nconnection: close\r\n\r\n",
    );
    Reply { status, head, body: Some(message.to_owned()) }
}

/// The answer to a request that does not ask to read.
pub fn refuse_method() -> (reply: Reply)
    ensures
        reply.status == 405,
        reply.head@ == plain_head(405, "method not allowed"@),
        text::seen(reply.body) == Some("method not allowed"@),
{
    plain_reply(405, "method not allowed")
}

/// The answer to a request for a file of the bundle.
pub fn answer(found: &Found, limit: usize) -> (reply: Reply)
    ensures
        match refusal(*found, limit) {
            Some((status, message)) => reply.status == status && reply.head@ == plain_head(
                status,
                message,
            ) && text::seen(reply.body) == Some(message),
            None => reply.status == 200 && reply.head@ == file_head(
                text::seen(found.extension),
                found.length->0 as nat,
            ) && reply.body is None,
        },
{
    if !found.inside {
        return plain_reply(403, "forbidden");
    }
    match found.length {
        None => plain_reply(404, "not found"),
        Some(length) => {
            if length > limit {
                return plain_reply(413, "asset too large");
            }
            let head = text::join5(
                "HTTP/1.1 200 OK\r\ncontent-type: ",
                content_type_of(&found.extension),
                "\r\ncontent-length: ",
                &text::number_text(length as u64),
                FILE_HEADERS,
            );
            Reply { status: 200, head, body: None }
        },
    }
}

/// Nothing outside the bundle is served, and nothing that cannot be read or is
/// too large.
pub proof fn only_the_bundle_is_served(found: Found, limit: usize)
    requires
        refusal(found, limit) is None,
    ensures
        found.inside,
        found.length matches Some(length) && length <= limit,
{
}

/// A request to read is answered with the file its target names, whatever the rest
/// of its head says.
pub proof fn a_request_to_read_names_a_file(target: Seq<char>, rest: Seq<char>)
    requires
        target.len() > 0,
        forall|i: int| 0 <= i < target.len() ==> !text::is_white(#[trigger] target[i]),
    ensures
        asked("GET "@ + target + " HTTP/1.1\r\n"@ + rest) == Asked::File(target_file(target)),
{
    reveal_strlit("GET ");
    reveal_strlit("GET");
    reveal_strlit(" HTTP/1.1\r\n");
    reveal_strlit(" HTTP/1.1");
    let head = "GET "@ + target + " HTTP/1.1\r\n"@ + rest;
    let line = "GET "@ + target + " HTTP/1.1"@;
    let front = line.push('\r');
    assert(!front.contains('\n')) by {
        if front.contains('\n') {
            let k = choose|k: int| 0 <= k < front.len() && front[k] == '\n';
            if 4 <= k < 4 + target.len() {
                assert(front[k] == target[k - 4]);
                assert(!text::is_white(target[k - 4]));
            } else if k >= 4 + target.len() && k < line.len() {
                assert(front[k] == " HTTP/1.1"@[k - 4 - target.len()]);
            }
        }
    }
    assert(head =~= front + seq!['\n'] + rest);
    text::lines_end_at_line_feeds(front, rest);
    assert(front.take(front.len() - 1) =~= line);
    assert(text::text_lines(head)[0] == line);
    let none = Seq::<char>::empty();
    let back = seq![' '] + target + " HTTP/1.1"@;
    assert(none + "GET"@ + back =~= line);
    text::a_word_that_stands_first_is_the_first_word(none, "GET"@, back);
    text::a_word_that_stands_first_is_the_first_word(seq![' '], target, " HTTP/1.1"@);
}

/// Anything but a request to read is refused, and a request that names nothing is
/// not answered at all.
pub proof fn only_reading_is_answered(head: Seq<char>)
    ensures
        ({
            let lines = text::text_lines(head);
            &&& lines.len() == 0 <==> head.len() == 0
            &&& lines.len() > 0 ==> (asked(head) is Refused <==> text::first_word(lines[0])
                != "GET"@)
            &&& head.len() == 0 ==> asked(head) is Nothing
            &&& asked(head) is File ==> text::first_word(lines[0]) == "GET"@
        }),
{
    text::parting_is_at_the_first_occurrence(head, '\n');
}

/// The file a target names is what stands between the slashes at its beginning and
/// its query or fragment; the entry point where nothing does.
pub proof fn a_target_names_a_file_below_the_root(
    slashes: Seq<char>,
    path: Seq<char>,
    query: Seq<char>,
)
    requires
        forall|i: int| 0 <= i < slashes.len() ==> (#[trigger] slashes[i]) == '/',
        forall|i: int| 0 <= i < path.len() ==> (#[trigger] path[i]) != '?' && path[i] != '#',
        path.len() > 0 ==> path[0] != '/',
        query.len() > 0 ==> query[0] == '?' || query[0] == '#',
    ensures
        path.len() > 0 ==> target_file(slashes + path + query) == path,
        path.len() == 0 ==> target_file(slashes + path + query) == "index.html"@,
{
    let whole = slashes + path + query;
    let class = Class::Either('?', '#');
    let front = slashes + path;
    assert forall|i: int| 0 <= i < front.len() implies !class.covers(#[trigger] whole[i]) by {
        if i < slashes.len() {
            assert(whole[i] == slashes[i]);
        } else {
            assert(whole[i] == path[i - slashes.len()]);
        }
    }
    if query.len() > 0 {
        assert(whole[front.len() as int] == query[0]);
    }
    text::lemma_until_at(whole, class, front.len() as int);
    assert(whole.take(front.len() as int) =~= front);
    let from = text::trimming_the_start_takes_a_run_of_the_class(front, Class::Is('/'));
    if from < slashes.len() {
        assert(front[from] == slashes[from]);
    } else if from > slashes.len() {
        assert(front[slashes.len() as int] == path[0]);
        assert(Class::Is('/').covers(front[slashes.len() as int]));
    }
    assert(front.skip(from) =~= path);
}

/// A place lies inside another where its steps are the other's and then some, and
/// nowhere else; a step up leads out.
pub proof fn a_place_inside_continues_the_root(
    root: Seq<Seq<char>>,
    further: Seq<Seq<char>>,
    found: Seq<Seq<char>>,
)
    ensures
        lies_inside(root, root + further),
        lies_inside(root, found) ==> found == root + found.skip(root.len() as int),
        root.len() > 0 ==> !lies_inside(root, root.drop_last()),
{
    if lies_inside(root, found) {
        assert(found =~= root + found.skip(root.len() as int));
    }
}

/// A file is served exactly where it lies inside the bundle, can be read and is not
/// too large; each refusal has its own status.
pub proof fn a_refusal_has_its_own_status(found: Found, limit: usize)
    ensures
        refusal(found, limit) is None <==> found.inside && (found.length matches Some(length)
            && length <= limit),
        !found.inside ==> refusal(found, limit) == Some((403u16, "forbidden"@)),
        found.inside && found.length is None ==> refusal(found, limit) == Some(
            (404u16, "not found"@),
        ),
        found.inside ==> (found.length matches Some(length) ==> (length > limit ==> refusal(
            found,
            limit,
        ) == Some((413u16, "asset too large"@)))),
{
}

/// Files are served as what they are; what is not known is served as bytes.
pub proof fn files_are_served_as_what_they_are(extension: Option<Seq<char>>)
    ensures
        content_type(Some("html"@)) == "text/html; charset=utf-8"@,
        content_type(Some("js"@)) == "text/javascript; charset=utf-8"@,
        content_type(Some("css"@)) == "text/css; charset=utf-8"@,
        content_type(Some("json"@)) == "application/json"@,
        content_type(Some("png"@)) == "image/png"@,
        content_type(Some("svg"@)) == "image/svg+xml"@,
        content_type(Some("woff2"@)) == "font/woff2"@,
        content_type(Some("ico"@)) == "image/x-icon"@,
        content_type(None) == "application/octet-stream"@,
        extension != Some("html"@) ==> content_type(extension) != "text/html; charset=utf-8"@,
{
    reveal_strlit("html");
    reveal_strlit("js");
    reveal_strlit("css");
    reveal_strlit("json");
    reveal_strlit("png");
    reveal_strlit("svg");
    reveal_strlit("woff2");
    reveal_strlit("ico");
    reveal_strlit("text/html; charset=utf-8");
    reveal_strlit("text/javascript; charset=utf-8");
    reveal_strlit("text/css; charset=utf-8");
    reveal_strlit("application/json");
    reveal_strlit("image/png");
    reveal_strlit("image/svg+xml");
    reveal_strlit("font/woff2");
    reveal_strlit("image/x-icon");
    reveal_strlit("application/octet-stream");
    assert("html"@[0] == 'h' && "js"@[0] == 'j' && "css"@[0] == 'c' && "json"@[0] == 'j'
        && "png"@[0] == 'p' && "svg"@[0] == 's' && "woff2"@[0] == 'w' && "ico"@[0] == 'i');
    assert("js"@.len() == 2 && "json"@.len() == 4);
    assert("text/html; charset=utf-8"@.len() == 24 && "application/octet-stream"@.len() == 24);
    assert("text/html; charset=utf-8"@[0] == 't' && "application/octet-stream"@[0] == 'a');
    assert("text/javascript; charset=utf-8"@.len() == 30 && "text/css; charset=utf-8"@.len() == 23
        && "application/json"@.len() == 16 && "image/png"@.len() == 9 && "image/svg+xml"@.len()
        == 13 && "font/woff2"@.len() == 10 && "image/x-icon"@.len() == 12);
}

/// An answer begins with its status, tells how long what follows is, and ends with
/// an empty line; a file's own tells its type.
pub proof fn an_answer_tells_its_status_and_length(
    status: u16,
    message: Seq<char>,
    extension: Option<Seq<char>>,
    length: nat,
)
    ensures
        ({
            let refused = plain_head(status, message);
            let served = file_head(extension, length);
            &&& text::begins(refused, "HTTP/1.1 "@ + text::decimal(status as nat) + " "@ + message)
            &&& text::holds_text(
                refused,
                "content-length: "@ + text::decimal(vstd::utf8::encode_utf8(message).len())
                    + "\r\n"@,
            )
            &&& text::begins(
                served,
                "HTTP/1.1 200 OK\r\ncontent-type: "@ + content_type(extension) + "\r\n"@,
            )
            &&& text::holds_text(served, "content-length: "@ + text::decimal(length) + "\r\n"@)
            &&& text::finishes(refused, "\r\n\r\n"@) && text::finishes(served, "\r\n\r\n"@)
        }),
{
    reveal_strlit("\r\ncontent-type: text/plain\r\ncontent-length: ");
    reveal_strlit("\r\ncontent-type: text/plain\r\n");
    reveal_strlit("content-length: ");
    reveal_strlit("\r\ncontent-length: ");
    reveal_strlit("\r\nconnection: close\r\n\r\n");
    reveal_strlit("connection: close\r\n\r\n");
    reveal_strlit("\r\n");
    reveal_strlit("\r\n\r\n");
    let refused = plain_head(status, message);
    let start = "HTTP/1.1 "@ + text::decimal(status as nat) + " "@ + message;
    assert(refused.take(start.len() as int) =~= start);
    let size = text::decimal(vstd::utf8::encode_utf8(message).len());
    let told = "content-length: "@ + size + "\r\n"@;
    let before = start + "\r\ncontent-type: text/plain\r\n"@;
    text::lemma_holds_between(before, told, "connection: close\r\n\r\n"@);
    assert(before + told + "connection: close\r\n\r\n"@ =~= refused);
    assert(refused.skip(refused.len() - 4) =~= "\r\n\r\n"@);
    lemma_file_head(extension, length);
}

/// The head of a file tells its type and its length, and ends with an empty line.
proof fn lemma_file_head(extension: Option<Seq<char>>, length: nat)
    ensures
        ({
            let served = file_head(extension, length);
            &&& text::begins(
                served,
                "HTTP/1.1 200 OK\r\ncontent-type: "@ + content_type(extension) + "\r\n"@,
            )
            &&& text::holds_text(served, "content-length: "@ + text::decimal(length) + "\r\n"@)
            &&& text::finishes(served, "\r\n\r\n"@)
        }),
{
    reveal_strlit("\r\ncontent-length: ");
    reveal_strlit("content-length: ");
    reveal_strlit("\r\n");
    reveal_strlit("\r\n\r\n");
    reveal_strlit(
        "\r\ncontent-security-policy: default-src 'self'; img-src 'self' data:; style-src 'self' 'unsafe-inline'; connect-src 'self' ipc: http://ipc.localhost http://127.0.0.1:* ws://127.0.0.1:*; frame-src http://127.0.0.1:* http://localhost:*\r\naccess-control-allow-origin: *\r\ncache-control: no-store\r\nconnection: close\r\n\r\n",
    );
    let served = file_head(extension, length);
    let start = "HTTP/1.1 200 OK\r\ncontent-type: "@ + content_type(extension);
    assert("\r\ncontent-length: "@ =~= "\r\n"@ + "content-length: "@);
    assert(served.take((start + "\r\n"@).len() as int) =~= start + "\r\n"@);
    let told = "content-length: "@ + text::decimal(length) + "\r\n"@;
    let rest = FILE_HEADERS@.skip(2);
    assert(FILE_HEADERS@.take(2) =~= "\r\n"@);
    assert(FILE_HEADERS@ =~= "\r\n"@ + rest);
    text::lemma_holds_between(start + "\r\n"@, told, rest);
    assert(start + "\r\n"@ + told + rest =~= served);
    let end = FILE_HEADERS@.len() as int;
    assert(FILE_HEADERS@.skip(end - 4) =~= "\r\n\r\n"@);
    assert(served.skip(served.len() - 4) =~= FILE_HEADERS@.skip(end - 4));
}

/// The head of a request ends with an empty line, whatever stands before it, and
/// does not end before that.
pub proof fn a_head_ends_with_an_empty_line(before: Seq<u8>, bytes: Seq<u8>)
    ensures
        ends_head(before + seq![13u8, 10u8, 13u8, 10u8]),
        ends_head(bytes) <==> bytes.len() >= 4 && bytes.skip(bytes.len() - 4) == seq![
            13u8,
            10u8,
            13u8,
            10u8,
        ],
{
    if ends_head(bytes) {
        assert(bytes.skip(bytes.len() - 4) =~= seq![13u8, 10u8, 13u8, 10u8]);
    }
    if bytes.len() >= 4 && bytes.skip(bytes.len() - 4) == seq![13u8, 10u8, 13u8, 10u8] {
        let last = bytes.skip(bytes.len() - 4);
        assert(last[0] == bytes[bytes.len() - 4]);
        assert(last[1] == bytes[bytes.len() - 3]);
        assert(last[2] == bytes[bytes.len() - 2]);
        assert(last[3] == bytes[bytes.len() - 1]);
    }
}

/// A head says its status, its content's type and exact length, and that the
/// connection ends with it; an empty line ends it.
pub proof fn a_head_says_what_follows(
    status: u16,
    message: Seq<char>,
    extension: Option<Seq<char>>,
    length: nat,
)
    ensures
        plain_head(status, message) == "HTTP/1.1 "@ + text::decimal(status as nat) + " "@ + message
            + "\r\ncontent-type: text/plain\r\ncontent-length: "@ + text::decimal(
            vstd::utf8::encode_utf8(message).len(),
        ) + "\r\nconnection: close\r\n\r\n"@,
        file_head(extension, length) == "HTTP/1.1 200 OK\r\ncontent-type: "@ + content_type(
            extension,
        ) + "\r\ncontent-length: "@ + text::decimal(length) + FILE_HEADERS@,
{
}

/// A head is read up to four kibibytes, and the server answers on the loopback address
/// alone.
pub proof fn a_head_is_read_up_to_its_limit()
    ensures
        REQUEST_BYTES == 4 * 1024,
        ADDRESS@ == "127.0.0.1"@,
{
}

/// A request is seen as what it asks for.
pub proof fn a_request_is_seen_as_what_it_asks_for(path: String)
    ensures
        Request::Nothing@ is Nothing,
        Request::Refused@ is Refused,
        Request::File(path)@ == Asked::File(path@),
{
}

} // verus!
