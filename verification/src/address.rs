//! Addresses on the web, as `url` reads and rewrites them.
//!
//! Every outside call takes and gives the text of an address: what `url` prints
//! of an address it has read is read again as the same address.
use vstd::prelude::*;
use vstd::utf8::encode_utf8;

use crate::text;

verus! {

/// The parts of an address.
#[derive(Debug)]
pub struct Address {
    pub scheme: String,
    pub username: String,
    pub password: Option<String>,
    pub host: Option<String>,
    /// The port, where it is not the one the scheme implies.
    pub port: Option<u16>,
    pub path: String,
    pub query: Option<String>,
    pub fragment: Option<String>,
}

/// The parts of an address by what they say.
pub struct Parts {
    pub scheme: Seq<char>,
    pub username: Seq<char>,
    pub password: Option<Seq<char>>,
    pub host: Option<Seq<char>>,
    pub port: Option<u16>,
    pub path: Seq<char>,
    pub query: Option<Seq<char>>,
    pub fragment: Option<Seq<char>>,
}

impl View for Address {
    type V = Parts;

    open spec fn view(&self) -> Parts {
        Parts {
            scheme: self.scheme@,
            username: self.username@,
            password: text::seen(self.password),
            host: text::seen(self.host),
            port: self.port,
            path: self.path@,
            query: text::seen(self.query),
            fragment: text::seen(self.fragment),
        }
    }
}

/// What `url` reads in a text: the parts of an address, or nothing.
pub uninterp spec fn address(text: Seq<char>) -> Option<Parts>;

/// The text of an address after its host was set.
pub uninterp spec fn rehosted(text: Seq<char>, host: Seq<char>) -> Option<Seq<char>>;

/// The names and values in the query of an address.
pub uninterp spec fn pairs(text: Seq<char>) -> Option<Seq<(Seq<char>, Seq<char>)>>;

/// The text of an address after its path was set.
pub uninterp spec fn repathed(text: Seq<char>, path: Seq<char>) -> Option<Seq<char>>;

/// The text of an address after its query was taken away.
pub uninterp spec fn unqueried(text: Seq<char>) -> Option<Seq<char>>;

/// The text of an address after names and values were added to its query.
pub uninterp spec fn queried(
    text: Seq<char>,
    added: Seq<(Seq<char>, Seq<char>)>,
) -> Option<Seq<char>>;

/// A list of names and values by what they say.
pub open spec fn paired(list: Seq<(String, String)>) -> Seq<(Seq<char>, Seq<char>)> {
    Seq::new(list.len(), |i: int| (list[i].0@, list[i].1@))
}

/// Whether a text is short enough for every position in an address made of it
/// to be a 32-bit number, which `url` counts on.
///
/// Up to eight names and eight values of such texts are added to an address of
/// that length, and each byte of any of them may be written as three: that makes
/// 51 times the bound. The bound leaves room for that about five times over,
/// so that what a host becomes in ASCII, and the few characters between the
/// parts, need not be counted.
pub open spec fn short(text: Seq<char>) -> bool {
    encode_utf8(text).len() <= 0xff_ffff
}

/// Reads an address with `url::Url::parse` and takes its parts with the
/// getters of `url::Url`.
#[verifier::external_body]
pub(crate) fn taken_apart(text: &str) -> (found: Option<Address>)
    ensures
        match (found, address(text@)) {
            (Some(parts), Some(wanted)) => parts@ == wanted,
            (None, None) => true,
            _ => false,
        },
{
    let url = url::Url::parse(text).ok()?;
    Some(
        Address {
            scheme: url.scheme().to_string(),
            username: url.username().to_string(),
            password: url.password().map(str::to_string),
            host: url.host_str().map(str::to_string),
            port: url.port(),
            path: url.path().to_string(),
            query: url.query().map(str::to_string),
            fragment: url.fragment().map(str::to_string),
        },
    )
}

/// Sets the host of an address with `url::Url::set_host`. Where `127.0.0.1`
/// takes the place of `localhost` in an `http` address, the other parts stay.
#[verifier::external_body]
pub(crate) fn host_set(text: &str, host: &str) -> (changed: Option<String>)
    requires
        address(text@) is Some,
        address(text@)->0.scheme == "http"@,
        address(text@)->0.host == Some("localhost"@),
        host@ == "127.0.0.1"@,
    ensures
        text::seen(changed) == rehosted(text@, host@),
        changed is Some,
        address(changed->0@) == Some((Parts { host: Some(host@), ..address(text@)->0 })),
{
    let mut url = url::Url::parse(text).ok()?;
    let _ = url.set_host(Some(host));
    Some(url.to_string())
}

/// The origin of an `http` address, by `url::Url::origin` and
/// `url::Origin::ascii_serialization`: its scheme, its host and, where it names
/// one, its port. Addresses of other schemes are left out, because the origin of
/// one that wraps another address is looked for by recursion.
#[verifier::external_body]
pub(crate) fn origin_read(text: &str) -> (origin: Option<String>)
    requires
        address(text@) is Some,
        address(text@)->0.scheme == "http"@,
        address(text@)->0.host is Some,
    ensures
        text::seen(origin) == Some(
            match address(text@)->0.port {
                Some(port) => "http://"@ + address(text@)->0.host->0 + ":"@ + text::decimal(
                    port as nat,
                ),
                None => "http://"@ + address(text@)->0.host->0,
            },
        ),
{
    Some(url::Url::parse(text).ok()?.origin().ascii_serialization())
}

/// The query of an address as names and values, by `url::Url::query_pairs`.
#[verifier::external_body]
pub(crate) fn pairs_read(text: &str) -> (list: Option<Vec<(String, String)>>)
    ensures
        match (list, pairs(text@)) {
            (Some(found), Some(wanted)) => paired(found@) == wanted,
            (None, None) => true,
            _ => false,
        },
        list is Some <==> address(text@) is Some,
{
    Some(url::Url::parse(text).ok()?.query_pairs().into_owned().collect())
}

/// Sets the path of an address with `url::Url::set_path`, here to a beginning of
/// the path it has or to the root. An `https` address keeps its fragment, or its
/// lack of one.
#[verifier::external_body]
pub(crate) fn path_set(text: &str, path: &str) -> (changed: Option<String>)
    requires
        short(text@),
        address(text@) is Some,
        path@ == "/"@ || text::begins(address(text@)->0.path, path@),
    ensures
        text::seen(changed) == repathed(text@, path@),
        changed is Some,
        address(text@)->0.scheme == "https"@ ==> address(changed->0@) is Some && address(
            changed->0@,
        )->0.fragment == address(text@)->0.fragment,
{
    let mut url = url::Url::parse(text).ok()?;
    url.set_path(path);
    Some(url.to_string())
}

/// Takes the query of an address away with `url::Url::set_query`.
#[verifier::external_body]
pub(crate) fn query_cleared(text: &str) -> (changed: Option<String>)
    requires
        address(text@) is Some,
        address(text@)->0.fragment is None,
    ensures
        text::seen(changed) == unqueried(text@),
        changed is Some,
{
    let mut url = url::Url::parse(text).ok()?;
    url.set_query(None);
    Some(url.to_string())
}

/// Adds names and values to the query of an address with
/// `url::Url::query_pairs_mut` and its `extend_pairs`, one after another.
#[verifier::external_body]
pub(crate) fn pairs_added(text: &str, added: &Vec<(String, String)>) -> (changed: Option<String>)
    requires
        short(text@),
        added@.len() <= 8,
        forall|i: int| 0 <= i < added@.len() ==> short(added@[i].0@) && short(added@[i].1@),
    ensures
        text::seen(changed) == queried(text@, paired(added@)),
        changed is Some <==> address(text@) is Some,
{
    let mut url = url::Url::parse(text).ok()?;
    url.query_pairs_mut().extend_pairs(added);
    Some(url.to_string())
}

/// Whether a byte stands for itself in a form.
pub open spec fn plain(byte: u8) -> bool {
    ||| 0x30 <= byte <= 0x39
    ||| 0x41 <= byte <= 0x5a
    ||| 0x61 <= byte <= 0x7a
    ||| byte == 0x2a
    ||| byte == 0x2d
    ||| byte == 0x2e
    ||| byte == 0x5f
}

/// The capital hexadecimal digit for a number below sixteen.
pub open spec fn capital_digit(number: int) -> char {
    if number < 10 {
        (number + 48) as char
    } else {
        (number + 55) as char
    }
}

/// What a byte is written as in a form: itself, a plus sign for a space, or a
/// percent sign and two hexadecimal digits.
pub open spec fn written_byte(byte: u8) -> Seq<char> {
    if plain(byte) {
        seq![byte as char]
    } else if byte == 0x20 {
        seq!['+']
    } else {
        seq!['%', capital_digit(byte as int / 16), capital_digit(byte as int % 16)]
    }
}

/// What bytes are written as in a form.
pub open spec fn written(bytes: Seq<u8>) -> Seq<char>
    decreases bytes.len(),
{
    if bytes.len() == 0 {
        Seq::empty()
    } else {
        written(bytes.drop_last()) + written_byte(bytes.last())
    }
}

/// Writes one name and its value as a form does, with
/// `url::form_urlencoded::Serializer`.
#[verifier::external_body]
pub(crate) fn form_pair(name: &str, value: &str) -> (pair: String)
    ensures
        pair@ == written(encode_utf8(name@)) + "="@ + written(encode_utf8(value@)),
{
    url::form_urlencoded::Serializer::new(String::new()).append_pair(name, value).finish()
}

/// A text of at most four million characters is short: none takes more than
/// four bytes.
pub proof fn lemma_short(text: Seq<char>)
    requires
        text.len() <= 0x3f_ffff,
    ensures
        short(text),
{
    lemma_encoded_length(text);
}

/// What follows the first characters of a short text is short.
pub proof fn lemma_short_suffix(text: Seq<char>, count: int)
    requires
        short(text),
        0 <= count,
    ensures
        count <= text.len() ==> short(text.skip(count)),
    decreases text.len(),
{
    if 0 < count <= text.len() {
        reveal(encode_utf8);
        lemma_short_suffix(text.drop_first(), count - 1);
        assert(text.drop_first().skip(count - 1) =~= text.skip(count));
    } else if count == 0 {
        assert(text.skip(0) =~= text);
    }
}

/// No character takes more than four bytes.
pub proof fn lemma_encoded_length(text: Seq<char>)
    ensures
        encode_utf8(text).len() <= 4 * text.len(),
    decreases text.len(),
{
    reveal(encode_utf8);
    if text.len() > 0 {
        lemma_encoded_length(text.drop_first());
    }
}

/// A letter, a digit and the four plain signs are written as they are, a space as a
/// plus sign, and every other byte as a percent sign and two digits that read as that
/// byte; what is written never means anything else to an address.
pub proof fn a_byte_is_written_so_that_it_can_be_read(byte: u8, character: char)
    ensures
        ({
            let shown = written_byte(byte);
            &&& plain(byte) ==> shown == seq![byte as char]
            &&& byte == 0x20 ==> shown == seq!['+']
            &&& shown.len() == 3 ==> shown[0] == '%' && (if byte as int / 16 < 10 {
                shown[1] as int == '0' as int + byte as int / 16
            } else {
                shown[1] as int == 'A' as int + byte as int / 16 - 10
            }) && (if byte as int % 16 < 10 {
                shown[2] as int == '0' as int + byte as int % 16
            } else {
                shown[2] as int == 'A' as int + byte as int % 16 - 10
            })
            &&& shown.len() == 1 <==> plain(byte) || byte == 0x20
            &&& shown.len() == 1 || shown.len() == 3
        }),
        'a' <= character <= 'z' || 'A' <= character <= 'Z' || '0' <= character <= '9' ==> plain(
            character as u8,
        ),
        plain('*' as u8) && plain('-' as u8) && plain('.' as u8) && plain('_' as u8),
        !plain('&' as u8) && !plain('=' as u8) && !plain('#' as u8) && !plain('%' as u8) && !plain(
            '+' as u8,
        ) && !plain('/' as u8) && !plain('?' as u8) && !plain(' ' as u8),
{
}

/// An address is seen as its parts.
pub proof fn an_address_is_seen_as_its_parts(address: Address)
    ensures
        address@.scheme == address.scheme@,
        address@.username == address.username@,
        address@.password == text::seen(address.password),
        address@.host == text::seen(address.host),
        address@.port == address.port,
        address@.path == address.path@,
        address@.query == text::seen(address.query),
        address@.fragment == text::seen(address.fragment),
{
}

} // verus!
