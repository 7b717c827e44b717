//! Recognise the line `dsh web` prints when its server starts listening.
//!
//! The harness announces itself on stdout as `dsh web: http://127.0.0.1:52175`.
//! That string decides where the application points its WebView, so it is
//! validated rather than trusted: a supervised child must not be able to steer
//! the shell at an arbitrary origin by printing one.
use vstd::prelude::*;
use vstd::utf8::encode_utf8;

use crate::address;
use crate::address::Address;
use crate::shell::ADDRESS;
use crate::text;
use crate::text::Class;

verus! {

/// Marker the harness prefixes its announcement with.
pub const READY_PREFIX: &'static str = "dsh web: ";

/// Outcome of inspecting one line of harness output.
#[derive(Debug, PartialEq, Eq)]
pub enum Ready {
    /// The line announced a usable loopback origin.
    At(String),
    /// The line announced something this shell refuses to load.
    Rejected(String),
}

/// An announcement by what it says.
pub enum Announcement {
    At(Seq<char>),
    Rejected(Seq<char>),
}

impl View for Ready {
    type V = Announcement;

    open spec fn view(&self) -> Announcement {
        match *self {
            Ready::At(text) => Announcement::At(text@),
            Ready::Rejected(text) => Announcement::Rejected(text@),
        }
    }
}

/// Why an announced address is refused, if it is.
pub open spec fn refused(candidate: Seq<char>, parts: Option<address::Parts>) -> Option<Seq<char>> {
    match parts {
        None => Some("harness announced an unparseable URL: "@ + candidate),
        Some(found) => if found.scheme != "http"@ || !(found.host == Some(ADDRESS@) || found.host
            == Some("localhost"@)) {
            Some("harness announced a non-loopback URL: "@ + candidate)
        } else if found.port is None {
            Some("harness announced a URL without an explicit port: "@ + candidate)
        } else {
            None
        },
    }
}

/// Why an announced address is refused, if it is.
pub fn refusal(candidate: &str, parts: &Option<Address>) -> (reason: Option<String>)
    ensures
        text::seen(reason) == refused(
            candidate@,
            match *parts {
                Some(found) => Some(found@),
                None => None,
            },
        ),
{
    let found = match parts {
        None => {
            return Some(text::join2("harness announced an unparseable URL: ", candidate));
        },
        Some(found) => found,
    };
    let loopback = match &found.host {
        Some(host) => text::same(host, ADDRESS) || text::same(host, "localhost"),
        None => false,
    };
    if !text::same(&found.scheme, "http") || !loopback {
        return Some(text::join2("harness announced a non-loopback URL: ", candidate));
    }
    if found.port.is_none() {
        return Some(
            text::join2("harness announced a URL without an explicit port: ", candidate),
        );
    }
    None
}

/// The value of the first pair of that name.
pub open spec fn value_of(
    list: Seq<(Seq<char>, Seq<char>)>,
    name: Seq<char>,
) -> Option<Seq<char>>
    decreases list.len(),
{
    if list.len() == 0 {
        None
    } else if list[0].0 == name {
        Some(list[0].1)
    } else {
        value_of(list.drop_first(), name)
    }
}

/// What the frame opens: the origin alone, or with the bootstrap token that
/// recent Harness releases require. Nothing else of the query is kept, never a
/// child-selected path or redirect.
pub open spec fn bootstrapped(
    origin: Seq<char>,
    query: Seq<(Seq<char>, Seq<char>)>,
) -> Seq<char> {
    match value_of(query, "token"@) {
        Some(token) => if token.len() > 0 {
            origin + "/?"@ + (address::written(encode_utf8("token"@)) + "="@ + address::written(
                encode_utf8(token),
            ))
        } else {
            origin
        },
        None => origin,
    }
}

/// What the frame opens, from an origin and the pairs of a query.
pub fn bootstrap(origin: &str, query: &Vec<(String, String)>) -> (opened: String)
    ensures
        opened@ == bootstrapped(origin@, address::paired(query@)),
{
    let ghost all = address::paired(query@);
    let mut index: usize = 0;
    assert(all.skip(0) =~= all);
    while index < query.len()
        invariant
            index <= query@.len(),
            all == address::paired(query@),
            value_of(all, "token"@) == value_of(all.skip(index as int), "token"@),
        decreases query.len() - index,
    {
        assert(all.skip(index as int)[0] == all[index as int]);
        assert(all.skip(index as int).drop_first() =~= all.skip(index + 1));
        if text::same(&query[index].0, "token") {
            let token = &query[index].1;
            if text::characters(token).len() > 0 {
                return text::join3(origin, "/?", &address::form_pair("token", token));
            }
            return origin.to_owned();
        }
        index += 1;
    }
    origin.to_owned()
}

/// What an announced address comes to.
pub open spec fn judged(candidate: Seq<char>) -> Announcement {
    match refused(candidate, address::address(candidate)) {
        Some(reason) => Announcement::Rejected(reason),
        None => {
            let parts = address::address(candidate)->0;
            let settled = if parts.host == Some("localhost"@) {
                address::rehosted(candidate, ADDRESS@)->0
            } else {
                candidate
            };
            Announcement::At(
                bootstrapped(
                    "http://"@ + ADDRESS@ + ":"@ + text::decimal(parts.port->0 as nat),
                    address::pairs(settled)->0,
                ),
            )
        },
    }
}

/// What one line of harness output announces, if anything.
pub open spec fn announced(line: Seq<char>) -> Option<Announcement> {
    match text::without_prefix(text::trimmed_end(line, Class::White), READY_PREFIX@) {
        Some(rest) => Some(judged(text::first_word(rest))),
        None => None,
    }
}

/// Extract the loopback origin announced by one line of harness stdout.
///
/// Returns `None` for ordinary log output, which is most lines. A cookie's
/// "site" is scheme plus registrable domain, and a name is not an address:
/// `localhost` is a different site from `127.0.0.1`. The frame only keeps the
/// harness's `SameSite=Strict` session cookie while it shares the shell's site,
/// so an announcement that spells the host out is rewritten to the address.
pub fn parse(line: &str) -> (ready: Option<Ready>)
    ensures
        match (ready, announced(line@)) {
            (Some(found), Some(wanted)) => found@ == wanted,
            (None, None) => true,
            _ => false,
        },
{
    let announcement = text::strip_prefix(&text::trim_end(line, Class::White), READY_PREFIX)?;
    let (candidate, _) = text::take_word(&announcement);
    let parts = address::taken_apart(&candidate);
    if let Some(reason) = refusal(&candidate, &parts) {
        return Some(Ready::Rejected(reason));
    }
    let named = match parts {
        Some(found) => match found.host {
            Some(host) => text::same(&host, "localhost"),
            None => false,
        },
        None => false,
    };
    let settled = if named {
        address::host_set(&candidate, ADDRESS)?
    } else {
        candidate
    };
    let origin = address::origin_read(&settled)?;
    let query = address::pairs_read(&settled)?;
    Some(Ready::At(bootstrap(&origin, &query)))
}

/// Whether a text is a loopback origin with an explicit port, alone or with a
/// bootstrap token that is not empty and nothing else.
pub open spec fn loopback(opened: Seq<char>) -> bool {
    exists|port: u16|
        {
            ||| opened == #[trigger] loopback_origin(port)
            ||| exists|token: Seq<char>|
                token.len() > 0 && opened == #[trigger] with_token(port, token)
        }
}

/// The loopback origin on a port.
pub open spec fn loopback_origin(port: u16) -> Seq<char> {
    "http://"@ + ADDRESS@ + ":"@ + text::decimal(port as nat)
}

/// The loopback origin on a port with a bootstrap token.
pub open spec fn with_token(port: u16, token: Seq<char>) -> Seq<char> {
    loopback_origin(port) + "/?"@ + (address::written(encode_utf8("token"@)) + "="@
        + address::written(encode_utf8(token)))
}

/// Whatever a child prints, the shell is only ever pointed at the loopback
/// address: the announced port, and at most a token in the query.
pub proof fn a_child_cannot_steer_the_shell(line: Seq<char>)
    ensures
        announced(line) matches Some(Announcement::At(opened)) ==> loopback(opened),
{
    if let Some(Announcement::At(opened)) = announced(line) {
        let rest = text::without_prefix(
            text::trimmed_end(line, Class::White),
            READY_PREFIX@,
        )->0;
        let candidate = text::first_word(rest);
        let parts = address::address(candidate)->0;
        let port = parts.port->0;
        let settled = if parts.host == Some("localhost"@) {
            address::rehosted(candidate, ADDRESS@)->0
        } else {
            candidate
        };
        let query = address::pairs(settled)->0;
        assert(opened == bootstrapped(loopback_origin(port), query));
        match value_of(query, "token"@) {
            Some(token) => {
                if token.len() > 0 {
                    assert(opened == with_token(port, token));
                } else {
                    assert(opened == loopback_origin(port));
                }
            },
            None => {
                assert(opened == loopback_origin(port));
            },
        }
    }
}

/// A line announces something exactly where it begins with the marker, and what it
/// announces is the first word behind it; white space at the end of the line makes
/// no difference.
pub proof fn a_line_announces_behind_its_marker(
    gap: Seq<char>,
    word: Seq<char>,
    line: Seq<char>,
)
    requires
        forall|i: int| 0 <= i < gap.len() ==> text::is_white(#[trigger] gap[i]),
        word.len() > 0,
        forall|i: int| 0 <= i < word.len() ==> !text::is_white(#[trigger] word[i]),
    ensures
        announced("dsh web: "@ + word + gap) == Some(judged(word)),
        !text::begins(line, "dsh web: "@) ==> announced(line) is None,
{
    let whole = "dsh web: "@ + word + gap;
    let to = text::trimming_the_end_takes_a_run_of_the_class(whole, Class::White);
    let front = "dsh web: "@ + word;
    assert(whole[front.len() - 1] == word.last());
    assert(!text::is_white(word[word.len() - 1]));
    if to < front.len() {
        assert(Class::White.covers(whole[front.len() - 1]));
    } else if to > front.len() {
        assert(whole[to - 1] == gap[to - 1 - front.len()]);
        assert(text::is_white(gap[to - 1 - front.len()]));
    }
    assert(whole.take(to) =~= front);
    text::a_prefix_taken_away_can_be_put_back(front, READY_PREFIX@, word);
    let none = Seq::<char>::empty();
    text::a_word_that_stands_first_is_the_first_word(none, word, none);
    assert(none + word + none =~= word);
    text::lemma_trimmed_end_begins(line, Class::White);
    let short = text::trimmed_end(line, Class::White);
    if text::begins(short, READY_PREFIX@) {
        text::lemma_begins_transitive(line, short, READY_PREFIX@);
    }
}

/// An address is accepted exactly where it can be read, is plain HTTP, on the
/// loopback interface by address or by name, and names its port; whatever is
/// refused is quoted.
pub proof fn only_a_loopback_address_with_a_port_is_accepted(
    candidate: Seq<char>,
    parts: Option<address::Parts>,
)
    ensures
        refused(candidate, parts) is None <==> (parts matches Some(found) && found.scheme
            == "http"@ && (found.host == Some("127.0.0.1"@) || found.host == Some("localhost"@))
            && found.port is Some),
        refused(candidate, parts) matches Some(reason) ==> text::finishes(reason, candidate),
        judged(candidate) is At <==> refused(candidate, address::address(candidate)) is None,
        judged(candidate) matches Announcement::Rejected(reason) ==> refused(
            candidate,
            address::address(candidate),
        ) == Some(reason),
{
    if let Some(reason) = refused(candidate, parts) {
        assert(reason.skip(reason.len() - candidate.len()) =~= candidate);
    }
}

/// What is opened is the loopback address on the port that was announced; the token
/// of the query is kept where it has one that is not empty, and nothing else of it.
pub proof fn an_accepted_address_keeps_its_port_and_its_token(
    candidate: Seq<char>,
    parts: address::Parts,
    port: u16,
    query: Seq<(Seq<char>, Seq<char>)>,
)
    requires
        address::address(candidate) == Some(parts),
        refused(candidate, Some(parts)) is None,
        parts.port == Some(port),
        address::pairs(
            if parts.host == Some("localhost"@) {
                address::rehosted(candidate, "127.0.0.1"@)->0
            } else {
                candidate
            },
        ) == Some(query),
    ensures
        (forall|i: int| 0 <= i < query.len() ==> (#[trigger] query[i]).0 != "token"@) ==> judged(
            candidate,
        ) == Announcement::At("http://127.0.0.1:"@ + text::decimal(port as nat)),
        forall|i: int|
            0 <= i < query.len() && (#[trigger] query[i]).0 == "token"@ && query[i].1.len() > 0 && (
            forall|j: int| 0 <= j < i ==> (#[trigger] query[j]).0 != "token"@) ==> judged(candidate)
                == Announcement::At(
                "http://127.0.0.1:"@ + text::decimal(port as nat) + "/?"@ + (address::written(
                    encode_utf8("token"@),
                ) + "="@ + address::written(encode_utf8(query[i].1))),
            ),
{
    reveal_strlit("http://127.0.0.1:");
    reveal_strlit("http://");
    reveal_strlit("127.0.0.1");
    reveal_strlit(":");
    assert("http://"@ + ADDRESS@ + ":"@ =~= "http://127.0.0.1:"@);
    assert forall|i: int|
        0 <= i < query.len() && (#[trigger] query[i]).0 == "token"@ && query[i].1.len() > 0 && (
        forall|j: int| 0 <= j < i ==> (#[trigger] query[j]).0 != "token"@) implies judged(candidate)
        == Announcement::At(
        "http://127.0.0.1:"@ + text::decimal(port as nat) + "/?"@ + (address::written(
            encode_utf8("token"@),
        ) + "="@ + address::written(encode_utf8(query[i].1))),
    ) by {
        the_first_pair_of_a_name_gives_its_value(query, "token"@, i);
    }
    if forall|i: int| 0 <= i < query.len() ==> (#[trigger] query[i]).0 != "token"@ {
        the_first_pair_of_a_name_gives_its_value(query, "token"@, 0);
    }
}

/// The value of a name is that of the first pair with it, and there is none where
/// no pair has it.
pub proof fn the_first_pair_of_a_name_gives_its_value(
    list: Seq<(Seq<char>, Seq<char>)>,
    name: Seq<char>,
    at: int,
)
    ensures
        0 <= at < list.len() && list[at].0 == name && (forall|j: int|
            0 <= j < at ==> (#[trigger] list[j]).0 != name) ==> value_of(list, name) == Some(
            list[at].1,
        ),
        (forall|j: int| 0 <= j < list.len() ==> (#[trigger] list[j]).0 != name) ==> value_of(
            list,
            name,
        ) is None,
    decreases list.len(),
{
    if list.len() > 0 {
        let rest = list.drop_first();
        the_first_pair_of_a_name_gives_its_value(rest, name, at - 1);
        assert forall|j: int| 0 <= j < rest.len() implies #[trigger] rest[j] == list[j + 1] by {}
        if 0 < at < list.len() && list[at].0 == name && (forall|j: int|
            0 <= j < at ==> (#[trigger] list[j]).0 != name) {
            assert(list[0].0 != name);
            assert forall|j: int| 0 <= j < at - 1 implies (#[trigger] rest[j]).0 != name by {
                assert(list[j + 1].0 != name);
            }
        }
        if forall|j: int| 0 <= j < list.len() ==> (#[trigger] list[j]).0 != name {
            assert(list[0].0 != name);
            assert forall|j: int| 0 <= j < rest.len() implies (#[trigger] rest[j]).0 != name by {
                assert(list[j + 1].0 != name);
            }
        }
    }
}

/// An address that is refused is told with the reason: that it is none, that it does
/// not stay on this machine, or that it names no port.
pub proof fn a_refused_address_is_told_with_the_reason(
    candidate: Seq<char>,
    parts: address::Parts,
    port: u16,
)
    ensures
        refused(candidate, None) == Some("harness announced an unparseable URL: "@ + candidate),
        parts.scheme != "http"@ || parts.host != Some("127.0.0.1"@) && parts.host != Some(
            "localhost"@,
        ) ==> refused(candidate, Some(parts)) == Some(
            "harness announced a non-loopback URL: "@ + candidate,
        ),
        parts.scheme == "http"@ && (parts.host == Some("127.0.0.1"@) || parts.host == Some(
            "localhost"@,
        )) && parts.port is None ==> refused(candidate, Some(parts)) == Some(
            "harness announced a URL without an explicit port: "@ + candidate,
        ),
        loopback_origin(port) == "http://"@ + "127.0.0.1"@ + ":"@ + text::decimal(port as nat),
{
}

/// An address that is taken is served from the loopback address at the announced
/// port, whichever of the two names it was announced under.
pub proof fn an_announced_port_is_served_on_the_loopback_address(
    candidate: Seq<char>,
    parts: address::Parts,
)
    requires
        address::address(candidate) == Some(parts),
        refused(candidate, Some(parts)) is None,
    ensures
        parts.port is Some,
        parts.host == Some("127.0.0.1"@) && "127.0.0.1"@ != "localhost"@ ==> judged(candidate)
            == Announcement::At(
            bootstrapped(
                "http://"@ + "127.0.0.1"@ + ":"@ + text::decimal(parts.port->0 as nat),
                address::pairs(candidate)->0,
            ),
        ),
        parts.host == Some("localhost"@) ==> judged(candidate) == Announcement::At(
            bootstrapped(
                "http://"@ + "127.0.0.1"@ + ":"@ + text::decimal(parts.port->0 as nat),
                address::pairs(address::rehosted(candidate, "127.0.0.1"@)->0)->0,
            ),
        ),
{
}

/// An announcement is seen as what it is: an address that is served, or a reason.
pub proof fn an_announcement_is_seen_as_what_it_is(text: String)
    ensures
        Ready::At(text)@ == Announcement::At(text@),
        Ready::Rejected(text)@ == Announcement::Rejected(text@),
{
}

} // verus!
