//! Where a console is: its IP address, the parts of a URL, the origin of a URL
//! and the names that a TLS server may go by.
use crate::text::{characters, same_text};
use vstd::prelude::*;

verus! {

/// An IP address. A version 6 address is the number that its sixteen bytes
/// spell, most significant byte first.
#[derive(Clone, Copy, PartialEq, Eq, Structural, Debug)]
pub enum IpAddress {
    V4(u8, u8, u8, u8),
    V6(u128),
}

/// A byte in decimal, without leading zeros.
pub open spec fn decimal(n: u8) -> Seq<char> {
    if n >= 100 {
        seq![
            decimal_digit(n as int / 100),
            decimal_digit(n as int / 10 % 10),
            decimal_digit(n as int % 10),
        ]
    } else if n >= 10 {
        seq![decimal_digit(n as int / 10), decimal_digit(n as int % 10)]
    } else {
        seq![decimal_digit(n as int)]
    }
}

/// The decimal digit of a value below ten.
pub open spec fn decimal_digit(value: int) -> char {
    ('0' as int + value) as char
}

/// Dotted decimal notation.
pub open spec fn dotted(a: u8, b: u8, c: u8, d: u8) -> Seq<char> {
    decimal(a) + seq!['.'] + decimal(b) + seq!['.'] + decimal(c) + seq!['.'] + decimal(d)
}

/// The address that a text writes down, if it is one.
pub uninterp spec fn ip_of_text(text: Seq<char>) -> Option<IpAddress>;

/// The canonical text of a version 6 address.
pub uninterp spec fn ipv6_text(bits: u128) -> Seq<char>;

/// `str::parse` for the standard library's `IpAddr`. What it reads goes by the
/// name `ip_of_text`. A version 4 address is read from exactly its four decimal
/// bytes, divided by dots and without leading zeros, and from nothing else. A
/// version 6 address is read from the text that `Ipv6Addr` gives it; what else it
/// is read from is left to the name.
#[verifier::external_body]
fn parse_ip(text: &str) -> (address: Option<IpAddress>)
    ensures
        address == ip_of_text(text@),
        address matches Some(IpAddress::V4(a, b, c, d)) ==> text@ == dotted(a, b, c, d),
        forall|a: u8, b: u8, c: u8, d: u8|
            text@ == #[trigger] dotted(a, b, c, d) ==> address == Some(IpAddress::V4(a, b, c, d)),
        forall|bits: u128|
            text@ == #[trigger] ipv6_text(bits) ==> address == Some(IpAddress::V6(bits)),
{
    match text.parse::<core::net::IpAddr>() {
        Ok(core::net::IpAddr::V4(v4)) => {
            let [a, b, c, d] = v4.octets();
            Some(IpAddress::V4(a, b, c, d))
        },
        Ok(core::net::IpAddr::V6(v6)) => Some(IpAddress::V6(u128::from(v6))),
        Err(_) => None,
    }
}

/// `to_string` of the standard library's `Ipv6Addr`. The text is a function of
/// the address alone; it goes by the name `ipv6_text`.
#[verifier::external_body]
fn format_ipv6(bits: u128) -> (text: String)
    ensures
        text@ == ipv6_text(bits),
{
    core::net::Ipv6Addr::from(bits).to_string()
}

/// The text of an address.
pub open spec fn address_text(address: IpAddress) -> Seq<char> {
    match address {
        IpAddress::V4(a, b, c, d) => dotted(a, b, c, d),
        IpAddress::V6(bits) => ipv6_text(bits),
    }
}

/// An address as the host of a URL: a version 6 address stands in brackets.
pub open spec fn host_text(address: IpAddress) -> Seq<char> {
    match address {
        IpAddress::V4(a, b, c, d) => dotted(a, b, c, d),
        IpAddress::V6(bits) => seq!['['] + ipv6_text(bits) + seq![']'],
    }
}

/// The number that some decimal digits spell.
pub open spec fn numeral(digits: Seq<char>) -> int
    decreases digits.len(),
{
    if digits.len() == 0 {
        0
    } else {
        10 * numeral(digits.drop_last()) + (digits.last() as int - '0' as int)
    }
}

/// A byte in decimal spells this byte, in digits only and without a leading zero.
pub proof fn law_decimal_spells_the_byte(n: u8)
    ensures
        numeral(decimal(n)) == n,
        1 <= decimal(n).len() <= 3,
        forall|i: int| 0 <= i < decimal(n).len() ==> '0' <= #[trigger] decimal(n)[i] <= '9',
        decimal(n).len() > 1 ==> decimal(n)[0] != '0',
{
    reveal_with_fuel(numeral, 4);
    let text = decimal(n);
    if n >= 100 {
        assert(text.drop_last() =~= seq![text[0], text[1]]);
        assert(text.drop_last().drop_last() =~= seq![text[0]]);
        assert(text.drop_last().drop_last().drop_last() =~= Seq::<char>::empty());
    } else if n >= 10 {
        assert(text.drop_last() =~= seq![text[0]]);
        assert(text.drop_last().drop_last() =~= Seq::<char>::empty());
    } else {
        assert(text.drop_last() =~= Seq::<char>::empty());
    }
}

/// The host of a URL for an address writes all of it: the four bytes of a version 4
/// address with dots between them, and a version 6 address in brackets.
pub proof fn law_host_writes_the_whole_address(a: u8, b: u8, c: u8, d: u8, bits: u128)
    ensures
        host_text(IpAddress::V4(a, b, c, d)) == decimal(a) + "."@ + decimal(b) + "."@ + decimal(c)
            + "."@ + decimal(d),
        address_text(IpAddress::V4(a, b, c, d)) == host_text(IpAddress::V4(a, b, c, d)),
        host_text(IpAddress::V6(bits)) == "["@ + ipv6_text(bits) + "]"@,
        address_text(IpAddress::V6(bits)) == ipv6_text(bits),
{
    reveal_strlit(".");
    reveal_strlit("[");
    reveal_strlit("]");
    assert("."@ =~= seq!['.']);
    assert("["@ =~= seq!['[']);
    assert("]"@ =~= seq![']']);
}

/// The URLs of an address hold it as their host, behind the scheme and, for the media
/// server, before the port.
pub proof fn law_urls_hold_the_host(host: Seq<char>)
    ensures
        api_url(host) == "https://"@ + host,
        media_url(host) == "rtsps://"@ + host + ":7441"@,
{
}

/// Appends a byte in decimal.
fn push_decimal(text: &mut String, n: u8)
    ensures
        final(text)@ == old(text)@ + decimal(n),
{
    let ghost before = text@;
    if n >= 100 {
        text.push((48 + n / 100) as char);
    }
    if n >= 10 {
        text.push((48 + n / 10 % 10) as char);
    }
    text.push((48 + n % 10) as char);
    assert(text@ =~= before + decimal(n));
}

/// Puts a text in brackets.
pub fn bracketed(inner: &str) -> (text: String)
    ensures
        text@ == seq!['['] + inner@ + seq![']'],
{
    let mut text: String = String::new();
    text.push('[');
    text.append(inner);
    text.push(']');
    assert(text@ =~= seq!['['] + inner@ + seq![']']);
    text
}

impl IpAddress {
    /// Reads an address. Every address is read from its own text.
    pub fn parse(text: &str) -> (address: Option<IpAddress>)
        ensures
            address == ip_of_text(text@),
            address matches Some(IpAddress::V4(a, b, c, d)) ==> text@ == dotted(a, b, c, d),
            forall|ip: IpAddress| text@ == #[trigger] address_text(ip) ==> address == Some(ip),
    {
        let address: Option<IpAddress> = parse_ip(text);
        assert forall|ip: IpAddress| text@ == #[trigger] address_text(ip) implies address == Some(
            ip,
        ) by {
            match ip {
                IpAddress::V4(a, b, c, d) => assert(text@ == dotted(a, b, c, d)),
                IpAddress::V6(bits) => assert(text@ == ipv6_text(bits)),
            }
        }
        address
    }

    /// The address as the host of a URL.
    pub fn host(&self) -> (text: String)
        ensures
            text@ == host_text(*self),
    {
        let mut text: String = String::new();
        match *self {
            IpAddress::V4(a, b, c, d) => {
                push_decimal(&mut text, a);
                text.push('.');
                push_decimal(&mut text, b);
                text.push('.');
                push_decimal(&mut text, c);
                text.push('.');
                push_decimal(&mut text, d);
                assert(text@ =~= dotted(a, b, c, d));
            },
            IpAddress::V6(bits) => {
                let inner: String = format_ipv6(bits);
                text = bracketed(inner.as_str());
            },
        }
        text
    }
}

/// A text without the given character at its start.
pub open spec fn trim_start(text: Seq<char>, c: char) -> Seq<char>
    decreases text.len(),
{
    if text.len() > 0 && text[0] == c {
        trim_start(text.drop_first(), c)
    } else {
        text
    }
}

/// A text without the given character at its end.
pub open spec fn trim_end(text: Seq<char>, c: char) -> Seq<char>
    decreases text.len(),
{
    if text.len() > 0 && text.last() == c {
        trim_end(text.drop_last(), c)
    } else {
        text
    }
}

/// A host without the brackets of a version 6 address.
pub open spec fn unbracketed(host: Seq<char>) -> Seq<char> {
    trim_end(trim_start(host, '['), ']')
}

/// Taking a character off the start takes off nothing but this character, and as much
/// of it as there is.
proof fn lemma_trim_start(text: Seq<char>, c: char) -> (n: int)
    ensures
        0 <= n <= text.len(),
        trim_start(text, c) == text.skip(n),
        forall|i: int| 0 <= i < n ==> #[trigger] text[i] == c,
        n < text.len() ==> text[n] != c,
    decreases text.len(),
{
    if text.len() > 0 && text[0] == c {
        let rest = text.drop_first();
        let k = lemma_trim_start(rest, c);
        assert(rest.skip(k) =~= text.skip(k + 1));
        assert forall|i: int| 0 <= i < k + 1 implies #[trigger] text[i] == c by {
            if i > 0 {
                assert(rest[i - 1] == text[i]);
            }
        }
        if k + 1 < text.len() {
            assert(rest[k] == text[k + 1]);
        }
        k + 1
    } else {
        assert(text.skip(0) =~= text);
        0
    }
}

/// Taking a character off the end takes off nothing but this character, and as much of
/// it as there is.
proof fn lemma_trim_end(text: Seq<char>, c: char) -> (n: int)
    ensures
        0 <= n <= text.len(),
        trim_end(text, c) == text.take(n),
        forall|i: int| n <= i < text.len() ==> #[trigger] text[i] == c,
        n > 0 ==> text[n - 1] != c,
    decreases text.len(),
{
    if text.len() > 0 && text.last() == c {
        let rest = text.drop_last();
        let k = lemma_trim_end(rest, c);
        assert(rest.take(k) =~= text.take(k));
        assert forall|i: int| k <= i < text.len() implies #[trigger] text[i] == c by {
            if i < rest.len() {
                assert(rest[i] == text[i]);
            }
        }
        if k > 0 {
            assert(rest[k - 1] == text[k - 1]);
        }
        k
    } else {
        assert(text.take(text.len() as int) =~= text);
        text.len() as int
    }
}

/// A host between brackets is what stands between them, and a host without brackets is
/// itself.
pub proof fn law_brackets_come_off(host: Seq<char>)
    requires
        host.len() > 0 ==> host[0] != '[' && host.last() != ']',
    ensures
        unbracketed(host) == host,
        unbracketed("["@ + host + "]"@) == host,
{
    reveal_strlit("[");
    reveal_strlit("]");
    let opened = host + "]"@;
    let whole = "["@ + host + "]"@;
    assert(whole.drop_first() =~= opened);
    assert(opened.drop_last() =~= host);
    if host.len() > 0 {
        assert(opened[0] == host[0]);
        assert(trim_start(opened, '[') == opened);
        assert(trim_start(whole, '[') == opened);
        assert(trim_end(opened, ']') == trim_end(host, ']'));
        assert(trim_end(host, ']') == host);
        assert(trim_start(host, '[') == host);
    } else {
        assert(host =~= Seq::<char>::empty());
        assert(opened[0] == ']');
        assert(trim_start(opened, '[') == opened);
        assert(trim_start(whole, '[') == opened);
        assert(trim_end(host, ']') == host);
        assert(trim_end(opened, ']') == host);
    }
}

/// Nothing but brackets is taken off any host, and none of them is left at its ends.
pub proof fn law_only_brackets_come_off(host: Seq<char>)
    ensures
        exists|from: int, to: int|
            0 <= from <= to <= host.len() && unbracketed(host) == #[trigger] host.subrange(from, to)
                && (forall|i: int| 0 <= i < from ==> host[i] == '[') && (forall|i: int|
                to <= i < host.len() ==> host[i] == ']'),
        unbracketed(host).len() > 0 ==> unbracketed(host)[0] != '[' && unbracketed(host).last()
            != ']',
{
    let from = lemma_trim_start(host, '[');
    let opened = host.skip(from);
    let kept = lemma_trim_end(opened, ']');
    assert(opened.take(kept) =~= host.subrange(from, from + kept));
    assert forall|i: int| from + kept <= i < host.len() implies host[i] == ']' by {
        assert(opened[i - from] == host[i]);
    }
    assert(unbracketed(host) == host.subrange(from, from + kept));
    if kept > 0 {
        assert(unbracketed(host)[0] == host[from]);
        assert(unbracketed(host).last() == opened[kept - 1]);
    }
}

/// A version 4 address has no brackets to take off.
pub proof fn lemma_dotted_is_unbracketed(a: u8, b: u8, c: u8, d: u8)
    ensures
        unbracketed(dotted(a, b, c, d)) == dotted(a, b, c, d),
{
    let text = dotted(a, b, c, d);
    assert(text[0] == decimal(a)[0]);
    assert(text.last() == decimal(d).last());
    assert('0' <= decimal(a)[0] <= '9');
    assert('0' <= decimal(d).last() <= '9');
}

/// Takes the brackets off a host.
pub(crate) fn without_brackets(host: &str) -> (name: String)
    ensures
        name@ == unbracketed(host@),
{
    let letters: Vec<char> = characters(host);
    let mut start: usize = 0;
    let mut end: usize = letters.len();
    assert(letters@.skip(0) =~= letters@);
    while start < letters.len() && letters[start] == '['
        invariant
            start <= letters@.len(),
            letters@ == host@,
            trim_start(host@, '[') == trim_start(letters@.skip(start as int), '['),
        decreases letters@.len() - start,
    {
        assert(letters@.skip(start as int).drop_first() =~= letters@.skip(start + 1));
        start = start + 1;
    }
    let ghost opened = trim_start(host@, '[');
    assert(opened == letters@.skip(start as int));
    assert(letters@.subrange(start as int, end as int) =~= opened);
    while end > start && letters[end - 1] == ']'
        invariant
            start <= end <= letters@.len(),
            trim_end(opened, ']') == trim_end(letters@.subrange(start as int, end as int), ']'),
        decreases end,
    {
        assert(letters@.subrange(start as int, end as int).drop_last() =~= letters@.subrange(
            start as int,
            end - 1,
        ));
        end = end - 1;
    }
    let ghost kept = letters@.subrange(start as int, end as int);
    assert(trim_end(opened, ']') == kept);
    let mut name: String = String::new();
    let mut i: usize = start;
    while i < end
        invariant
            start <= i <= end <= letters@.len(),
            name@ == letters@.subrange(start as int, i as int),
        decreases end - i,
    {
        name.push(letters[i]);
        assert(name@ =~= letters@.subrange(start as int, i + 1));
        i = i + 1;
    }
    name
}

/// The parts of a parsed URL.
#[derive(Debug)]
pub struct ConsoleUrl {
    pub scheme: String,
    pub username: String,
    pub password: Option<String>,
    pub host: Option<String>,
    pub port: Option<u16>,
    pub path: String,
    pub query: Option<String>,
    pub fragment: Option<String>,
}

/// The parts of a URL as plain text.
pub struct ConsoleUrlView {
    pub scheme: Seq<char>,
    pub username: Seq<char>,
    pub password: Option<Seq<char>>,
    pub host: Option<Seq<char>>,
    pub port: Option<u16>,
    pub path: Seq<char>,
    pub query: Option<Seq<char>>,
    pub fragment: Option<Seq<char>>,
}

/// An optional string as optional plain text.
pub open spec fn optional_text(text: Option<String>) -> Option<Seq<char>> {
    match text {
        Some(t) => Some(t@),
        None => None,
    }
}

impl View for ConsoleUrl {
    type V = ConsoleUrlView;

    open spec fn view(&self) -> ConsoleUrlView {
        ConsoleUrlView {
            scheme: self.scheme@,
            username: self.username@,
            password: optional_text(self.password),
            host: optional_text(self.host),
            port: self.port,
            path: self.path@,
            query: optional_text(self.query),
            fragment: optional_text(self.fragment),
        }
    }
}

/// An optional URL as optional plain parts.
pub open spec fn optional_url(url: Option<ConsoleUrl>) -> Option<ConsoleUrlView> {
    match url {
        Some(u) => Some(u@),
        None => None,
    }
}

/// The parts of the URL that a text writes down, if it is one.
pub uninterp spec fn url_of_text(text: Seq<char>) -> Option<ConsoleUrlView>;

/// A URL without a user, a query or a fragment.
pub open spec fn bare_url(
    scheme: Seq<char>,
    host: Seq<char>,
    port: Option<u16>,
    path: Seq<char>,
) -> ConsoleUrlView {
    ConsoleUrlView {
        scheme,
        username: ""@,
        password: None,
        host: Some(host),
        port,
        path,
        query: None,
        fragment: None,
    }
}

/// Whether a URL is one of these, without a user, a query or a fragment, and its host,
/// without brackets, writes this address down.
pub open spec fn is_bare_at(
    url: Option<ConsoleUrlView>,
    scheme: Seq<char>,
    address: IpAddress,
    port: Option<u16>,
    path: Seq<char>,
) -> bool {
    url matches Some(u) && u.host is Some && u == bare_url(scheme, u.host->0, port, path)
        && ip_of_text(unbracketed(u.host->0)) == Some(address)
}

/// The URL of the API at a host.
pub open spec fn api_url(host: Seq<char>) -> Seq<char> {
    "https://"@ + host
}

/// The URL of the media server at a host.
pub open spec fn media_url(host: Seq<char>) -> Seq<char> {
    "rtsps://"@ + host + ":7441"@
}

/// `url::Url::parse`, with the parts that the accessors of the parsed URL give.
/// They are a function of the text alone and go by the name `url_of_text`. An
/// `https` URL that holds just a version 4 address in dotted decimal notation has
/// this host, no port of its own and the path `/`; an `rtsps` URL that holds such
/// an address and the port 7441 has this host, this port and an empty path. With a
/// version 6 address in brackets it is the same, but for the host: between its
/// brackets the crate writes the same address in hexadecimal groups. What becomes of
/// any other text is left to the name.
#[verifier::external_body]
fn parse_url(text: &str) -> (url: Option<ConsoleUrl>)
    ensures
        optional_url(url) == url_of_text(text@),
        forall|a: u8, b: u8, c: u8, d: u8|
            text@ == api_url(#[trigger] dotted(a, b, c, d)) ==> optional_url(url) == Some(
                bare_url("https"@, dotted(a, b, c, d), None, "/"@),
            ),
        forall|a: u8, b: u8, c: u8, d: u8|
            text@ == media_url(#[trigger] dotted(a, b, c, d)) ==> optional_url(url) == Some(
                bare_url("rtsps"@, dotted(a, b, c, d), Some(7441), ""@),
            ),
        forall|address: IpAddress|
            text@ == api_url(#[trigger] host_text(address)) ==> is_bare_at(
                optional_url(url),
                "https"@,
                address,
                None,
                "/"@,
            ),
        forall|address: IpAddress|
            text@ == media_url(#[trigger] host_text(address)) ==> is_bare_at(
                optional_url(url),
                "rtsps"@,
                address,
                Some(7441),
                ""@,
            ),
{
    let url = url::Url::parse(text).ok()?;
    Some(ConsoleUrl {
        scheme: url.scheme().to_owned(),
        username: url.username().to_owned(),
        password: url.password().map(str::to_owned),
        host: url.host_str().map(str::to_owned),
        port: url.port(),
        path: url.path().to_owned(),
        query: url.query().map(str::to_owned),
        fragment: url.fragment().map(str::to_owned),
    })
}

impl ConsoleUrl {
    /// Reads a URL.
    pub fn parse(text: &str) -> (url: Option<ConsoleUrl>)
        ensures
            optional_url(url) == url_of_text(text@),
            forall|a: u8, b: u8, c: u8, d: u8|
                text@ == api_url(#[trigger] dotted(a, b, c, d)) ==> optional_url(url) == Some(
                    bare_url("https"@, dotted(a, b, c, d), None, "/"@),
                ),
            forall|a: u8, b: u8, c: u8, d: u8|
                text@ == media_url(#[trigger] dotted(a, b, c, d)) ==> optional_url(url) == Some(
                    bare_url("rtsps"@, dotted(a, b, c, d), Some(7441), ""@),
                ),
            forall|address: IpAddress|
                text@ == api_url(#[trigger] host_text(address)) ==> is_bare_at(
                    optional_url(url),
                    "https"@,
                    address,
                    None,
                    "/"@,
                ),
            forall|address: IpAddress|
                text@ == media_url(#[trigger] host_text(address)) ==> is_bare_at(
                    optional_url(url),
                    "rtsps"@,
                    address,
                    Some(7441),
                    ""@,
                ),
    {
        parse_url(text)
    }
}

/// The origin of a URL. An opaque origin is the same as no other.
#[derive(Debug)]
pub enum Origin {
    Tuple { scheme: String, host: String, port: u16 },
    Opaque,
}

/// An origin as plain text.
pub enum OriginView {
    Tuple { scheme: Seq<char>, host: Seq<char>, port: u16 },
    Opaque,
}

impl View for Origin {
    type V = OriginView;

    open spec fn view(&self) -> OriginView {
        match self {
            Origin::Tuple { scheme, host, port } => OriginView::Tuple {
                scheme: scheme@,
                host: host@,
                port: *port,
            },
            Origin::Opaque => OriginView::Opaque,
        }
    }
}

/// An optional origin as optional plain text.
pub open spec fn optional_origin(origin: Option<Origin>) -> Option<OriginView> {
    match origin {
        Some(o) => Some(o@),
        None => None,
    }
}

/// Whether two origins, each taken from a URL of its own, are the same.
pub open spec fn same_origin(a: OriginView, b: OriginView) -> bool {
    a is Tuple && a == b
}

/// The port that the scheme of a URL stands for, where URLs of that scheme have an
/// origin of their own.
pub open spec fn known_port(scheme: Seq<char>) -> Option<u16> {
    if scheme == "http"@ || scheme == "ws"@ {
        Some(80)
    } else if scheme == "https"@ || scheme == "wss"@ {
        Some(443)
    } else if scheme == "ftp"@ {
        Some(21)
    } else {
        None
    }
}

/// The origin of a URL that has no other URL inside: its scheme, its host and its
/// port, which is the scheme's where the URL names none. That of a URL with any
/// other scheme is opaque.
pub open spec fn url_origin(url: ConsoleUrlView) -> OriginView {
    match (known_port(url.scheme), url.host) {
        (Some(known), Some(host)) => OriginView::Tuple {
            scheme: url.scheme,
            host,
            port: match url.port {
                Some(port) => port,
                None => known,
            },
        },
        _ => OriginView::Opaque,
    }
}

/// The origin of the URL that a text writes down. A `blob` URL has the origin of
/// the URL that its path writes down, and so on, through at most so many levels.
/// Without a URL at the end the origin is opaque.
pub open spec fn nested_origin(text: Seq<char>, levels: nat) -> OriginView
    decreases levels,
{
    match url_of_text(text) {
        None => OriginView::Opaque,
        Some(url) => if url.scheme != "blob"@ {
            url_origin(url)
        } else if levels == 0 {
            OriginView::Opaque
        } else {
            nested_origin(url.path, (levels - 1) as nat)
        },
    }
}

/// The origin of the URL that a text writes down, if it is one. No text has room
/// for more levels than it has characters.
pub open spec fn origin_of_text(text: Seq<char>) -> Option<OriginView> {
    if url_of_text(text) is Some {
        Some(nested_origin(text, text.len()))
    } else {
        None
    }
}

/// The origin of `https` at the usual port of a host.
pub open spec fn https_origin(host: Seq<char>) -> OriginView {
    OriginView::Tuple { scheme: "https"@, host, port: 443 }
}

/// Whether an origin is that of the API at an address: `https`, at the usual port of a
/// host that, without brackets, writes the address down.
pub open spec fn is_api_origin(origin: OriginView, address: IpAddress) -> bool {
    origin matches OriginView::Tuple { scheme, host, port } && origin == https_origin(host)
        && ip_of_text(unbracketed(host)) == Some(address)
}

/// `url::Url::origin` of the URL that `url::Url::parse` reads, which must not be a
/// `blob` URL: there the call goes on inside itself, once for every level. For a
/// scheme with a known port the origin is the scheme, the host and the port; for
/// any other it is opaque, and the number that sets each opaque origin apart is
/// dropped.
#[verifier::external_body]
fn parse_origin(text: &str) -> (origin: Option<Origin>)
    requires
        url_of_text(text@) matches Some(url) && url.scheme != "blob"@,
    ensures
        optional_origin(origin) == Some(url_origin(url_of_text(text@)->0)),
{
    match url::Url::parse(text).ok()?.origin() {
        url::Origin::Tuple(scheme, host, port) => {
            Some(Origin::Tuple { scheme, host: host.to_string(), port })
        },
        url::Origin::Opaque(_) => Some(Origin::Opaque),
    }
}

impl Origin {
    /// The origin of a URL. The URL of the API at an address has the origin of this
    /// API.
    pub fn parse(text: &str) -> (origin: Option<Origin>)
        ensures
            optional_origin(origin) == origin_of_text(text@),
            forall|a: u8, b: u8, c: u8, d: u8|
                text@ == api_url(#[trigger] dotted(a, b, c, d)) ==> optional_origin(origin)
                    == Some(https_origin(dotted(a, b, c, d))),
            forall|address: IpAddress|
                text@ == api_url(#[trigger] host_text(address)) ==> (origin matches Some(o)
                    && is_api_origin(o@, address)),
    {
        let parsed: Option<ConsoleUrl> = ConsoleUrl::parse(text);
        proof {
            assert forall|a: u8, b: u8, c: u8, d: u8|
                text@ == api_url(#[trigger] dotted(a, b, c, d)) implies origin_of_text(text@)
                == Some(https_origin(dotted(a, b, c, d))) by {
                law_https_url_has_its_own_origin(text@);
            }
            assert forall|address: IpAddress|
                text@ == api_url(#[trigger] host_text(address)) implies (origin_of_text(
                text@,
            ) matches Some(o) && is_api_origin(o, address)) by {
                law_https_url_has_its_own_origin(text@);
            }
        }
        match parsed {
            Some(url) => Origin::within(text, url),
            None => None,
        }
    }

    /// The origin of a parsed URL. The levels of a `blob` URL are taken off one by one.
    fn within(text: &str, outer: ConsoleUrl) -> (origin: Option<Origin>)
        requires
            url_of_text(text@) == Some(outer@),
        ensures
            optional_origin(origin) == origin_of_text(text@),
    {
        let mut url: ConsoleUrl = outer;
        let mut inner: String = text.to_owned();
        let mut levels: usize = characters(text).len();
        while same_text(url.scheme.as_str(), "blob")
            invariant
                url_of_text(text@) is Some,
                url_of_text(inner@) == Some(url@),
                nested_origin(text@, text@.len()) == nested_origin(inner@, levels as nat),
            decreases levels,
        {
            if levels == 0 {
                return Some(Origin::Opaque);
            }
            inner = url.path;
            levels = levels - 1;
            url = match ConsoleUrl::parse(inner.as_str()) {
                Some(url) => url,
                None => return Some(Origin::Opaque),
            };
        }
        parse_origin(inner.as_str())
    }

    /// Whether this origin is the same as that of another URL.
    pub fn same(&self, other: &Origin) -> (same: bool)
        ensures
            same == same_origin(self@, other@),
    {
        match (self, other) {
            (
                Origin::Tuple { scheme: s, host: h, port: p },
                Origin::Tuple { scheme: t, host: i, port: q },
            ) => same_text(s.as_str(), t.as_str()) && same_text(h.as_str(), i.as_str()) && *p == *q,
            _ => false,
        }
    }
}

/// The origin of an `https` URL is its scheme, its host and its port, which is 443
/// where the URL names none.
pub proof fn law_https_url_has_its_own_origin(text: Seq<char>)
    requires
        url_of_text(text) matches Some(url) && url.scheme == "https"@ && url.host is Some,
    ensures
        ({
            let url = url_of_text(text)->0;
            origin_of_text(text) == Some(
                OriginView::Tuple {
                    scheme: "https"@,
                    host: url.host->0,
                    port: match url.port {
                        Some(port) => port,
                        None => 443,
                    },
                },
            )
        }),
{
    reveal_strlit("https");
    reveal_strlit("http");
    reveal_strlit("ws");
    reveal_strlit("blob");
    assert("https"@.len() != "blob"@.len());
    assert("https"@.len() != "http"@.len());
    assert("https"@.len() != "ws"@.len());
}

/// The origin of a URL with a host is opaque unless its scheme is one of five, and of
/// those it is the scheme, the host and the port, or the usual port of the scheme.
pub proof fn law_origin_goes_by_scheme_host_and_port(text: Seq<char>)
    requires
        url_of_text(text) matches Some(url) && url.host is Some && url.scheme != "blob"@,
    ensures
        ({
            let url = url_of_text(text)->0;
            let usual: Option<u16> = if url.scheme == "https"@ || url.scheme == "wss"@ {
                Some(443)
            } else if url.scheme == "http"@ || url.scheme == "ws"@ {
                Some(80)
            } else if url.scheme == "ftp"@ {
                Some(21)
            } else {
                None
            };
            match usual {
                None => origin_of_text(text) == Some(OriginView::Opaque),
                Some(known) => origin_of_text(text) == Some(
                    OriginView::Tuple {
                        scheme: url.scheme,
                        host: url.host->0,
                        port: if url.port is Some {
                            url.port->0
                        } else {
                            known
                        },
                    },
                ),
            }
        }),
{
    reveal_strlit("https");
    reveal_strlit("http");
    reveal_strlit("wss");
    reveal_strlit("ws");
    reveal_strlit("ftp");
    assert("https"@.len() == 5 && "http"@.len() == 4 && "wss"@.len() == 3 && "ws"@.len() == 2);
    assert("ftp"@[0] != "wss"@[0]);
}

/// A text has an origin exactly if it is a URL.
pub proof fn law_every_url_has_an_origin(text: Seq<char>)
    ensures
        origin_of_text(text) is Some <==> url_of_text(text) is Some,
{
}

/// Two origins are the same exactly if both are known and agree in scheme, host and
/// port.
pub proof fn law_origins_agree_in_every_part(a: OriginView, b: OriginView)
    ensures
        same_origin(a, b) <==> {
            &&& a matches OriginView::Tuple { scheme: s, host: h, port: p }
            &&& b matches OriginView::Tuple { scheme: t, host: i, port: q }
            &&& s == t && h == i && p == q
        },
        same_origin(a, b) == same_origin(b, a),
{
}

/// However deep the URL inside a `blob` URL is, its origin is the origin of the whole.
pub proof fn law_nesting_of_any_depth_has_the_origin_inside(levels: Seq<Seq<char>>, room: nat)
    requires
        0 < levels.len() <= room + 1,
        forall|i: int|
            0 <= i < levels.len() - 1 ==> (url_of_text(#[trigger] levels[i]) matches Some(url)
                && url.scheme == "blob"@ && url.path == levels[i + 1]),
        url_of_text(levels.last()) matches Some(url) && url.scheme != "blob"@,
    ensures
        nested_origin(levels[0], room) == url_origin(url_of_text(levels.last())->0),
        levels.len() <= levels[0].len() + 1 ==> origin_of_text(levels[0]) == Some(
            url_origin(url_of_text(levels.last())->0),
        ),
    decreases levels.len(),
{
    if levels.len() > 1 {
        let rest = levels.drop_first();
        assert(rest[0] == levels[1]);
        assert(url_of_text(levels[0])->0.path == levels[1]);
        assert(rest.last() == levels.last());
        assert forall|i: int| 0 <= i < rest.len() - 1 implies (url_of_text(
            #[trigger] rest[i],
        ) matches Some(url) && url.scheme == "blob"@ && url.path == rest[i + 1]) by {
            assert(rest[i] == levels[i + 1]);
            assert(rest[i + 1] == levels[i + 1 + 1]);
        }
        law_nesting_of_any_depth_has_the_origin_inside(rest, (room - 1) as nat);
        if levels.len() <= levels[0].len() + 1 {
            law_nesting_of_any_depth_has_the_origin_inside(rest, (levels[0].len() - 1) as nat);
        }
    }
}

/// A `blob` URL has the origin of the URL inside.
pub proof fn law_blob_url_has_the_origin_inside(text: Seq<char>)
    requires
        text.len() > 0,
        url_of_text(text) matches Some(outer) && outer.scheme == "blob"@ && (url_of_text(
            outer.path,
        ) matches Some(inner) && inner.scheme != "blob"@),
    ensures
        origin_of_text(text) == origin_of_text(url_of_text(text)->0.path),
{
    reveal_with_fuel(nested_origin, 2);
}

/// An address as the URL of the API at this address names it, without brackets.
pub open spec fn url_host(address: IpAddress) -> Seq<char> {
    unbracketed(url_of_text(api_url(host_text(address)))->0.host->0)
}

/// Whether a text is a name that a TLS server may go by.
pub uninterp spec fn is_server_name(name: Seq<char>) -> bool;

/// Whether `rustls::pki_types::ServerName::try_from` takes a text as a DNS name or
/// an IP address. That is a function of the text alone and goes by the name
/// `is_server_name`. A version 4 address in dotted decimal notation is taken, and so
/// is every address as the host of a URL, without brackets. `unifi.local` is taken
/// too.
#[verifier::external_body]
fn check_server_name(name: &str) -> (valid: bool)
    ensures
        valid == is_server_name(name@),
        forall|a: u8, b: u8, c: u8, d: u8| name@ == #[trigger] dotted(a, b, c, d) ==> valid,
        forall|address: IpAddress| name@ == #[trigger] url_host(address) ==> valid,
        name@ == "unifi.local"@ ==> valid,
{
    rustls::pki_types::ServerName::try_from(name).is_ok()
}

/// Whether a text is a name that a TLS server may go by.
pub fn server_name_valid(name: &str) -> (valid: bool)
    ensures
        valid == is_server_name(name@),
        forall|a: u8, b: u8, c: u8, d: u8| name@ == #[trigger] dotted(a, b, c, d) ==> valid,
        forall|address: IpAddress| name@ == #[trigger] url_host(address) ==> valid,
        name@ == "unifi.local"@ ==> valid,
{
    check_server_name(name)
}

} // verus!
