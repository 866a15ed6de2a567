//! The URL at which a Docker daemon listens.
use vstd::prelude::*;

use crate::hostname::{can_read_host, is_readable_host, law_host_without_hyphens_is_readable};
use crate::laws::lemma_decimal_digits;
use crate::text::{after_last, characters, decimal, decimal_text, enclose, find, find_last};
use crate::text::{first_where, lemma_after_last, lemma_first_where, lemma_first_where_bounds};
use crate::text::{lower_text, part, reads, to_lower_text};

verus! {

/// The host of a URL in a relative scheme; an address is given by its text.
#[derive(Debug, PartialEq, Eq)]
pub enum Host {
    Domain(String),
    Ipv4(String),
    Ipv6(String),
}

/// What follows the scheme of a URL: a host, and the port where there is one, if the scheme is
/// relative, such as `http`, and otherwise text without further structure.
#[derive(Debug, PartialEq, Eq)]
pub enum SchemeData {
    Relative(Host, Option<u16>),
    NonRelative(String),
}

/// The parts of a URL that say where a daemon listens.
#[derive(Debug, PartialEq, Eq)]
pub struct Url {
    /// The scheme, in ASCII lower case.
    pub scheme: String,
    pub scheme_data: SchemeData,
}

pub ghost enum HostView {
    Domain(Seq<char>),
    Ipv4(Seq<char>),
    Ipv6(Seq<char>),
}

pub ghost enum SchemeDataView {
    Relative(HostView, Option<u16>),
    NonRelative(Seq<char>),
}

pub ghost struct UrlView {
    pub scheme: Seq<char>,
    pub scheme_data: SchemeDataView,
}

impl View for Host {
    type V = HostView;

    open spec fn view(&self) -> HostView {
        match self {
            Host::Domain(text) => HostView::Domain(text@),
            Host::Ipv4(text) => HostView::Ipv4(text@),
            Host::Ipv6(text) => HostView::Ipv6(text@),
        }
    }
}

impl View for SchemeData {
    type V = SchemeDataView;

    open spec fn view(&self) -> SchemeDataView {
        match self {
            SchemeData::Relative(host, port) => SchemeDataView::Relative(host@, *port),
            SchemeData::NonRelative(text) => SchemeDataView::NonRelative(text@),
        }
    }
}

impl View for Url {
    type V = UrlView;

    open spec fn view(&self) -> UrlView {
        UrlView { scheme: self.scheme@, scheme_data: self.scheme_data@ }
    }
}

impl HostView {
    /// The host as it stands in a URL: an IPv6 address in square brackets.
    pub open spec fn text(self) -> Seq<char> {
        match self {
            HostView::Domain(text) => text,
            HostView::Ipv4(text) => text,
            HostView::Ipv6(text) => "["@ + text + "]"@,
        }
    }
}

/// The port that needs no mention in an address that is reached by `https`.
pub const HTTPS_PORT: u16 = 443;

impl UrlView {
    /// The text that says where the daemon listens: all that follows the scheme where the scheme is
    /// not relative, and otherwise the host, with the port unless it is that of `https`.
    pub open spec fn domain(self) -> Seq<char> {
        match self.scheme_data {
            SchemeDataView::NonRelative(text) => text,
            SchemeDataView::Relative(host, port) => if port is Some && port->0 != HTTPS_PORT {
                host.text() + ":"@ + decimal(port->0 as nat)
            } else {
                host.text()
            },
        }
    }
}

/// The characters that are dropped at both ends of a URL.
pub open spec fn is_blank(character: char) -> bool {
    ||| character == ' '
    ||| character == '\t'
    ||| character == '\n'
    ||| character == '\r'
    ||| character == '\x0C'
}

pub open spec fn is_slash(character: char) -> bool {
    character == '/' || character == '\\'
}

/// The characters that end the part of a URL that names its host.
pub open spec fn ends_authority(character: char) -> bool {
    is_slash(character) || character == '?' || character == '#'
}

/// The characters that are dropped inside a host.
pub open spec fn is_break(character: char) -> bool {
    character == '\t' || character == '\n' || character == '\r'
}

/// An input without the blanks at its ends.
pub open spec fn trimmed(input: Seq<char>) -> Seq<char> {
    let start = first_where(input, 0, |c: char| !is_blank(c));
    let end = after_last(input, input.len() as int, |c: char| !is_blank(c));
    if start < end {
        input.subrange(start, end)
    } else {
        seq![]
    }
}

/// The schemes whose URLs name a host.
pub open spec fn is_relative_scheme(scheme: Seq<char>) -> bool {
    ||| scheme == "file"@
    ||| scheme == "ftp"@
    ||| scheme == "gopher"@
    ||| scheme == "http"@
    ||| scheme == "https"@
    ||| scheme == "ws"@
    ||| scheme == "wss"@
}

/// A text up to the character that ends the part that names the host.
pub open spec fn authority(text: Seq<char>) -> Seq<char> {
    text.take(first_where(text, 0, |c: char| ends_authority(c)))
}

/// The place of the `:` before the port, the first one at or after `at` outside square brackets;
/// the end where there is none.
pub open spec fn port_place(text: Seq<char>, at: int, bracketed: bool) -> int
    decreases text.len() - at,
{
    if at >= text.len() || (text[at] == ':' && !bracketed) {
        at
    } else {
        port_place(text, at + 1, text[at] == '[' || (bracketed && text[at] != ']'))
    }
}

pub open spec fn without_breaks(text: Seq<char>) -> Seq<char>
    decreases text.len(),
{
    if text.len() == 0 {
        text
    } else if is_break(text.last()) {
        without_breaks(text.drop_last())
    } else {
        without_breaks(text.drop_last()).push(text.last())
    }
}

/// The host in what follows `file:`: it stands behind two slashes.
pub open spec fn file_host(rest: Seq<char>) -> Seq<char> {
    if rest.len() >= 2 && is_slash(rest[0]) && is_slash(rest[1]) {
        without_breaks(authority(rest.skip(2)))
    } else {
        seq![]
    }
}

/// The host in what follows the `:` of another relative scheme: it stands behind the slashes and
/// the last `@`, and before the port.
pub open spec fn network_host(rest: Seq<char>) -> Seq<char> {
    let place = authority(rest.skip(first_where(rest, 0, |c: char| !is_slash(c))));
    let host = place.skip(after_last(place, place.len() as int, |c: char| c == '@'));
    without_breaks(host.take(port_place(host, 0, false)))
}

/// Whether an input can be given to the URL parser: it names no host, as where its scheme is not
/// relative, or one that the parser can read.
pub open spec fn is_parsable(input: Seq<char>) -> bool {
    let text = trimmed(input);
    let colon = first_where(text, 0, |c: char| c == ':');
    let scheme = lower_text(text.take(colon));
    let rest = text.skip(colon + 1);
    if colon >= text.len() || !is_relative_scheme(scheme) {
        true
    } else if scheme == "file"@ {
        is_readable_host(file_host(rest))
    } else {
        is_readable_host(network_host(rest))
    }
}

fn is_no_blank(c: char) -> (found: bool)
    ensures
        found == !is_blank(c),
{
    !(c == ' ' || c == '\t' || c == '\n' || c == '\r' || c == '\x0C')
}

fn is_colon(c: char) -> (found: bool)
    ensures
        found == (c == ':'),
{
    c == ':'
}

fn is_at(c: char) -> (found: bool)
    ensures
        found == (c == '@'),
{
    c == '@'
}

fn is_no_slash(c: char) -> (found: bool)
    ensures
        found == !is_slash(c),
{
    !(c == '/' || c == '\\')
}

fn stops_authority(c: char) -> (found: bool)
    ensures
        found == ends_authority(c),
{
    c == '/' || c == '\\' || c == '?' || c == '#'
}

fn trim(input: &Vec<char>) -> (text: Vec<char>)
    ensures
        text@ == trimmed(input@),
{
    let start = find(input, 0, is_no_blank, Ghost(|c: char| !is_blank(c)));
    let end = find_last(input, is_no_blank, Ghost(|c: char| !is_blank(c)));
    if start < end {
        part(input, start, end)
    } else {
        Vec::new()
    }
}

/// Cuts a text, from the place `from` on, before the character that ends the part that names the
/// host.
fn cut_authority(text: &Vec<char>, from: usize) -> (place: Vec<char>)
    requires
        from <= text.len(),
    ensures
        place@ == authority(text@.skip(from as int)),
{
    let rest = part(text, from, text.len());
    assert(rest@ =~= text@.skip(from as int));
    let end = find(&rest, 0, stops_authority, Ghost(|c: char| ends_authority(c)));
    part(&rest, 0, end)
}

fn find_port(text: &Vec<char>) -> (place: usize)
    ensures
        place <= text.len(),
        place == port_place(text@, 0, false),
{
    let mut place: usize = 0;
    let mut bracketed = false;
    while place < text.len() && !(text[place] == ':' && !bracketed)
        invariant
            place <= text.len(),
            port_place(text@, place as int, bracketed) == port_place(text@, 0, false),
        ensures
            place <= text.len(),
            place == port_place(text@, 0, false),
        decreases text.len() - place,
    {
        bracketed = text[place] == '[' || (bracketed && text[place] != ']');
        place = place + 1;
    }
    place
}

fn drop_breaks(text: &Vec<char>) -> (kept: Vec<char>)
    ensures
        kept@ == without_breaks(text@),
{
    let mut kept: Vec<char> = Vec::new();
    let mut at: usize = 0;
    while at < text.len()
        invariant
            at <= text.len(),
            kept@ == without_breaks(text@.take(at as int)),
        decreases text.len() - at,
    {
        let character: char = text[at];
        assert(text@.take(at + 1).drop_last() =~= text@.take(at as int));
        if !(character == '\t' || character == '\n' || character == '\r') {
            kept.push(character);
        }
        at = at + 1;
    }
    assert(text@.take(text@.len() as int) =~= text@);
    kept
}

fn read_file_host(rest: &Vec<char>) -> (host: Vec<char>)
    ensures
        host@ == file_host(rest@),
{
    if rest.len() >= 2 && !is_no_slash(rest[0]) && !is_no_slash(rest[1]) {
        drop_breaks(&cut_authority(rest, 2))
    } else {
        Vec::new()
    }
}

fn read_network_host(rest: &Vec<char>) -> (host: Vec<char>)
    ensures
        host@ == network_host(rest@),
{
    let start = find(rest, 0, is_no_slash, Ghost(|c: char| !is_slash(c)));
    let place = cut_authority(rest, start);
    let user_end = find_last(&place, is_at, Ghost(|c: char| c == '@'));
    let host = part(&place, user_end, place.len());
    assert(host@ =~= place@.skip(user_end as int));
    let end = find_port(&host);
    drop_breaks(&part(&host, 0, end))
}

impl Host {
    /// The host as it stands in a URL.
    fn text(&self) -> (text: String)
        ensures
            text@ == self@.text(),
    {
        match self {
            Host::Domain(text) => text.as_str().to_owned(),
            Host::Ipv4(text) => text.as_str().to_owned(),
            Host::Ipv6(text) => enclose("[", text.as_str(), "]"),
        }
    }
}

impl Url {
    /// The text that says where the daemon listens.
    pub(crate) fn domain(&self) -> (domain: String)
        ensures
            domain@ == self@.domain(),
    {
        match &self.scheme_data {
            SchemeData::NonRelative(text) => text.as_str().to_owned(),
            SchemeData::Relative(host, port) => {
                let text = host.text();
                match port {
                    Some(port) if *port != HTTPS_PORT => enclose(
                        text.as_str(),
                        ":",
                        decimal_text(*port as u64).as_str(),
                    ),
                    _ => text,
                }
            },
        }
    }

    /// Whether the input can be given to the URL parser.
    pub fn can_parse(input: &str) -> (fits: bool)
        ensures
            fits == is_parsable(input@),
    {
        let text = trim(&characters(input));
        let colon = find(&text, 0, is_colon, Ghost(|c: char| c == ':'));
        if colon == text.len() {
            return true;
        }
        let scheme = to_lower_text(&part(&text, 0, colon));
        let rest = part(&text, colon + 1, text.len());
        assert(text@.subrange(0, colon as int) =~= text@.take(colon as int));
        assert(text@.subrange(colon + 1, text@.len() as int) =~= text@.skip(colon + 1));
        if reads(&scheme, "file") {
            can_read_host(&read_file_host(&rest))
        } else if reads(&scheme, "ftp") || reads(&scheme, "gopher") || reads(&scheme, "http")
            || reads(&scheme, "https") || reads(&scheme, "ws") || reads(&scheme, "wss") {
            can_read_host(&read_network_host(&rest))
        } else {
            true
        }
    }
}

/// Whether the input is a scheme in lower-case letters that is not relative, `:` and printable
/// ASCII characters other than `?` and `#`.
pub open spec fn is_opaque(input: Seq<char>) -> bool {
    let colon = first_where(input, 0, |c: char| c == ':');
    &&& 0 < colon < input.len()
    &&& forall|i: int| 0 <= i < colon ==> 'a' <= #[trigger] input[i] <= 'z'
    &&& !is_relative_scheme(input.take(colon))
    &&& forall|i: int|
        colon < i < input.len() ==> '!' <= #[trigger] input[i] <= '~' && input[i] != '?'
            && input[i] != '#'
}

/// The parts of an opaque input: the scheme, and all that follows the `:`.
pub open spec fn opaque_parts(input: Seq<char>) -> UrlView {
    let colon = first_where(input, 0, |c: char| c == ':');
    UrlView {
        scheme: input.take(colon),
        scheme_data: SchemeDataView::NonRelative(input.skip(colon + 1)),
    }
}

/// The port that a relative scheme stands for.
pub open spec fn default_port(scheme: Seq<char>) -> Option<u16> {
    if scheme == "ftp"@ {
        Some(21)
    } else if scheme == "gopher"@ {
        Some(70)
    } else if scheme == "http"@ || scheme == "ws"@ {
        Some(80)
    } else if scheme == "https"@ || scheme == "wss"@ {
        Some(443)
    } else {
        None
    }
}

/// Lower-case letters and dots, a letter first.
pub open spec fn is_simple_host(host: Seq<char>) -> bool {
    &&& host.len() > 0
    &&& host[0] != '.'
    &&& forall|i: int| 0 <= i < host.len() ==> 'a' <= #[trigger] host[i] <= 'z' || host[i] == '.'
}

/// The address of a host in a relative scheme, with the port where one is named.
pub open spec fn network_address(
    scheme: Seq<char>,
    host: Seq<char>,
    port: Option<u16>,
) -> Seq<char> {
    match port {
        Some(port) => scheme + "://"@ + host + (":"@ + decimal(port as nat)),
        None => scheme + "://"@ + host,
    }
}

/// The parts of such an address: without a port, it has that of the scheme.
pub open spec fn network_parts(scheme: Seq<char>, host: Seq<char>, port: Option<u16>) -> UrlView {
    UrlView {
        scheme,
        scheme_data: SchemeDataView::Relative(
            HostView::Domain(host),
            match port {
                Some(port) => Some(port),
                None => default_port(scheme),
            },
        ),
    }
}

/// What `url::Url::parse` makes of an input, `None` where it refuses it.
pub uninterp spec fn parsed_url(input: Seq<char>) -> Option<UrlView>;

/// Calls `url::Url::parse` and keeps the scheme, the host, an IP address as its text, and the port
/// that the URL names or else the one that its scheme stands for.
/// The parts are a function of the input alone. An input of a scheme that is not relative and
/// plain printable text comes apart at the `:`, with nothing changed. The address of a host of
/// lower-case letters and dots comes apart into its scheme, its host and its port. What becomes of
/// every other input is left to that function. On some hosts that cannot be read it panics or does
/// not return.
#[verifier::external_body]
pub(crate) fn parse_url(input: &str) -> (url: Option<Url>)
    requires
        is_parsable(input@),
    ensures
        url is Some <==> parsed_url(input@) is Some,
        url is Some ==> url->0@ == parsed_url(input@)->0,
        is_opaque(input@) ==> url is Some && url->0@ == opaque_parts(input@),
        forall|scheme: Seq<char>, host: Seq<char>, port: Option<u16>|
            default_port(scheme) is Some && is_simple_host(host) && input@
                == #[trigger] network_address(scheme, host, port) ==> url is Some && url->0@
                == network_parts(scheme, host, port),
{
    let url = url::Url::parse(input).ok()?;
    let scheme_data = match url.scheme_data {
        url::SchemeData::NonRelative(text) => SchemeData::NonRelative(text),
        url::SchemeData::Relative(data) => {
            let port = data.port_or_default();
            let host = match data.host {
                url::Host::Domain(text) => Host::Domain(text),
                url::Host::Ipv4(address) => Host::Ipv4(address.to_string()),
                url::Host::Ipv6(address) => Host::Ipv6(address.to_string()),
            };
            SchemeData::Relative(host, port)
        },
    };
    Some(Url { scheme: url.scheme, scheme_data })
}

/// Printable ASCII characters other than `?` and `#`, which would end the text.
pub open spec fn is_printable(text: Seq<char>) -> bool {
    forall|i: int|
        0 <= i < text.len() ==> '!' <= #[trigger] text[i] <= '~' && text[i] != '?' && text[i]
            != '#'
}

/// A scheme in lower-case letters that is not relative, `:` and printable text can be given to the
/// URL parser, and comes apart at the `:`.
pub proof fn law_opaque_url_comes_apart(scheme: Seq<char>, rest: Seq<char>)
    requires
        scheme.len() > 0,
        forall|i: int| 0 <= i < scheme.len() ==> 'a' <= #[trigger] scheme[i] <= 'z',
        !is_relative_scheme(scheme),
        is_printable(rest),
    ensures
        is_parsable(scheme + ":"@ + rest),
        is_opaque(scheme + ":"@ + rest),
        opaque_parts(scheme + ":"@ + rest) == (UrlView {
            scheme,
            scheme_data: SchemeDataView::NonRelative(rest),
        }),
{
    reveal_strlit(":");
    let input = scheme + ":"@ + rest;
    let colon = scheme.len() as int;
    assert(forall|i: int| 0 <= i < colon ==> #[trigger] input[i] == scheme[i]);
    assert(input[colon] == ':');
    assert(forall|i: int|
        colon < i < input.len() ==> #[trigger] input[i] == rest[i - colon - 1]);
    lemma_first_where(input, 0, 0, |c: char| !is_blank(c));
    lemma_first_where(input, 0, colon, |c: char| c == ':');
    assert(!is_blank(input.last()));
    assert(trimmed(input) =~= input);
    assert(input.take(colon) =~= scheme);
    assert(input.skip(colon + 1) =~= rest);
    assert(lower_text(scheme) =~= scheme);
}

/// An opaque input can be given to the URL parser.
pub proof fn law_opaque_is_parsable(input: Seq<char>)
    requires
        is_opaque(input),
    ensures
        is_parsable(input),
{
    reveal_strlit(":");
    let colon = first_where(input, 0, |c: char| c == ':');
    lemma_first_where_bounds(input, 0, |c: char| c == ':');
    assert(input.take(colon) + ":"@ + input.skip(colon + 1) =~= input);
    law_opaque_url_comes_apart(input.take(colon), input.skip(colon + 1));
}

/// Nothing, or a `:` and the port, with no blank in it.
pub open spec fn is_port(port: Seq<char>) -> bool {
    &&& port.len() > 0 ==> port[0] == ':'
    &&& forall|i: int|
        0 <= i < port.len() ==> ' ' < #[trigger] port[i] && !ends_authority(port[i]) && port[i]
            != '@'
}

/// An input in a scheme that is not relative can be given to the URL parser, whatever follows.
pub proof fn law_other_schemes_are_parsable(scheme: Seq<char>, rest: Seq<char>)
    requires
        scheme.len() > 0,
        forall|i: int| 0 <= i < scheme.len() ==> 'a' <= #[trigger] scheme[i] <= 'z',
        !is_relative_scheme(scheme),
    ensures
        is_parsable(scheme + ":"@ + rest),
{
    reveal_strlit(":");
    let input = scheme + ":"@ + rest;
    let colon = scheme.len() as int;
    assert(forall|i: int| 0 <= i < colon ==> #[trigger] input[i] == scheme[i]);
    assert(input[colon] == ':');
    lemma_first_where(input, 0, 0, |c: char| !is_blank(c));
    lemma_after_last_bound(input, input.len() as int, colon, |c: char| !is_blank(c));
    let text = trimmed(input);
    assert(forall|i: int| 0 <= i <= colon ==> #[trigger] text[i] == input[i]);
    lemma_first_where(text, 0, colon, |c: char| c == ':');
    assert(text.take(colon) =~= scheme);
    assert(lower_text(scheme) =~= scheme);
}

/// An input without a `:` has no scheme, and can be given to the URL parser.
pub proof fn law_inputs_without_a_scheme_are_parsable(input: Seq<char>)
    requires
        !input.contains(':'),
    ensures
        is_parsable(input),
{
    let text = trimmed(input);
    lemma_first_where_bounds(input, 0, |c: char| !is_blank(c));
    lemma_after_last_within(input, input.len() as int, |c: char| !is_blank(c));
    assert forall|i: int| 0 <= i < text.len() implies #[trigger] text[i] != ':' by {
        let start = first_where(input, 0, |c: char| !is_blank(c));
        assert(text[i] == input[start + i]);
    }
    lemma_first_where(text, 0, text.len() as int, |c: char| c == ':');
}

proof fn lemma_after_last_bound(text: Seq<char>, to: int, at: int, wanted: spec_fn(char) -> bool)
    requires
        0 <= at < to <= text.len(),
        wanted(text[at]),
    ensures
        at < after_last(text, to, wanted) <= to,
    decreases to,
{
    if !wanted(text[to - 1]) {
        lemma_after_last_bound(text, to - 1, at, wanted);
    }
}

proof fn lemma_after_last_within(text: Seq<char>, to: int, wanted: spec_fn(char) -> bool)
    requires
        0 <= to <= text.len(),
    ensures
        0 <= after_last(text, to, wanted) <= to,
    decreases to,
{
    if to > 0 && !wanted(text[to - 1]) {
        lemma_after_last_within(text, to - 1, wanted);
    }
}

/// A place in a URL of a relative scheme other than `file`: a host that is no IPv6 address, with no
/// blank in it, and the port.
pub open spec fn is_place(host: Seq<char>, port: Seq<char>) -> bool {
    &&& forall|i: int|
        0 <= i < host.len() ==> ' ' < #[trigger] host[i] && !ends_authority(host[i]) && host[i]
            != ':' && host[i] != '@' && host[i] != '['
    &&& is_port(port)
}

/// The host of a network address stands behind the last `@`, and the port and the path are no part
/// of it.
pub proof fn law_host_stands_behind_its_user(
    user: Seq<char>,
    host: Seq<char>,
    port: Seq<char>,
    path: Seq<char>,
)
    requires
        is_place(host, port),
        host.len() > 0,
        forall|i: int| 0 <= i < user.len() ==> !ends_authority(#[trigger] user[i]),
        path.len() > 0 ==> ends_authority(path[0]),
    ensures
        network_host("//"@ + user + "@"@ + host + port + path) == host,
        network_host("//"@ + host + port + path) == host,
{
    reveal_strlit("@");
    reveal_strlit("//");
    let place = host + port;
    let with_user = user + "@"@;
    assert forall|i: int| 0 <= i < place.len() implies !ends_authority(#[trigger] place[i])
        && place[i] != '@' by {
        if i < host.len() {
            assert(place[i] == host[i]);
        } else {
            assert(place[i] == port[i - host.len()]);
        }
    }
    lemma_place_behind(with_user, place, path);
    lemma_place_behind(seq![], place, path);
    assert("//"@ + user + "@"@ + host + port + path =~= "//"@ + (with_user + place) + path);
    assert("//"@ + host + port + path =~= "//"@ + (seq![] + place) + path);
    assert forall|i: int| 0 <= i < host.len() implies #[trigger] place[i] != ':' && place[i]
        != '[' by {
        assert(place[i] == host[i]);
    }
    if port.len() > 0 {
        assert(place[host.len() as int] == port[0]);
    }
    lemma_port_place(place, 0, host.len() as int);
    assert(place.take(host.len() as int) =~= host);
    lemma_without_breaks(host);
}

/// What stands behind the user, if there is one, up to the path is where the host is looked for.
proof fn lemma_place_behind(user: Seq<char>, place: Seq<char>, path: Seq<char>)
    requires
        user.len() > 0 ==> user.last() == '@',
        forall|i: int| 0 <= i < user.len() ==> !ends_authority(#[trigger] user[i]),
        place.len() > 0,
        forall|i: int|
            0 <= i < place.len() ==> !ends_authority(#[trigger] place[i]) && place[i] != '@',
        path.len() > 0 ==> ends_authority(path[0]),
    ensures
        network_host("//"@ + (user + place) + path) == without_breaks(
            place.take(port_place(place, 0, false)),
        ),
{
    reveal_strlit("//");
    let whole = user + place;
    let rest = "//"@ + whole + path;
    assert forall|i: int| 0 <= i < whole.len() implies !ends_authority(#[trigger] whole[i]) by {
        if i < user.len() {
            assert(whole[i] == user[i]);
        } else {
            assert(whole[i] == place[i - user.len()]);
        }
    }
    assert(rest[2] == whole[0]);
    lemma_first_where(rest, 0, 2, |c: char| !is_slash(c));
    let text = rest.skip(2);
    assert(text =~= whole + path);
    assert(forall|i: int| 0 <= i < whole.len() ==> #[trigger] text[i] == whole[i]);
    if path.len() > 0 {
        assert(text[whole.len() as int] == path[0]);
    }
    lemma_first_where(text, 0, whole.len() as int, |c: char| ends_authority(c));
    assert(authority(text) =~= whole);
    let start = user.len() as int;
    if start > 0 {
        assert(whole[start - 1] == user.last());
    }
    assert forall|i: int| start <= i < whole.len() implies #[trigger] whole[i] != '@' by {
        assert(whole[i] == place[i - start]);
    }
    lemma_after_last(whole, whole.len() as int, start, |c: char| c == '@');
    assert(whole.skip(start) =~= place);
}

/// A host in square brackets is an IPv6 address: it stands in the address with its colons, and can
/// be read whatever it is.
pub proof fn law_host_in_brackets_is_read(
    user: Seq<char>,
    address: Seq<char>,
    port: Seq<char>,
    path: Seq<char>,
)
    requires
        forall|i: int| 0 <= i < user.len() ==> !ends_authority(#[trigger] user[i]),
        forall|i: int|
            0 <= i < address.len() ==> ' ' < #[trigger] address[i] && !ends_authority(address[i])
                && address[i] != '@' && address[i] != ']',
        is_port(port),
        path.len() > 0 ==> ends_authority(path[0]),
    ensures
        network_host("//"@ + user + "@"@ + ("["@ + address + "]"@) + port + path) == "["@ + address
            + "]"@,
        network_host("//"@ + ("["@ + address + "]"@) + port + path) == "["@ + address + "]"@,
        is_readable_host("["@ + address + "]"@),
{
    reveal_strlit("@");
    reveal_strlit("//");
    reveal_strlit("[");
    reveal_strlit("]");
    let host = "["@ + address + "]"@;
    let place = host + port;
    let with_user = user + "@"@;
    let last = host.len() - 1;
    assert(forall|i: int| 1 <= i < last ==> #[trigger] place[i] == address[i - 1]);
    assert(place[0] == '[' && place[last] == ']');
    assert(forall|i: int| host.len() <= i < place.len() ==> #[trigger] place[i] == port[i
        - host.len()]);
    lemma_place_behind(with_user, place, path);
    lemma_place_behind(seq![], place, path);
    assert("//"@ + user + "@"@ + host + port + path =~= "//"@ + (with_user + place) + path);
    assert("//"@ + host + port + path =~= "//"@ + (seq![] + place) + path);
    lemma_port_behind_brackets(place, 1, last);
    assert(place.take(host.len() as int) =~= host);
    assert(host[0] == '[' && host[last] == ']');
    assert forall|i: int| 0 <= i < host.len() implies ' ' < #[trigger] host[i] by {
        if 1 <= i < last {
            assert(host[i] == address[i - 1]);
        }
    }
    lemma_without_breaks(host);
}

proof fn lemma_port_behind_brackets(text: Seq<char>, at: int, last: int)
    requires
        0 <= at <= last < text.len(),
        text[last] == ']',
        forall|i: int| at <= i < last ==> #[trigger] text[i] != ']',
        last + 1 < text.len() ==> text[last + 1] == ':',
    ensures
        port_place(text, at, true) == last + 1,
    decreases last - at,
{
    if at < last {
        lemma_port_behind_brackets(text, at + 1, last);
    } else {
        assert(port_place(text, last + 1, false) == last + 1);
    }
}

/// The host of a `file` URL stands behind two slashes, and the path is no part of it.
pub proof fn law_file_host_stands_behind_two_slashes(host: Seq<char>, path: Seq<char>)
    requires
        forall|i: int| 0 <= i < host.len() ==> ' ' < #[trigger] host[i] && !ends_authority(host[i]),
        path.len() > 0 ==> ends_authority(path[0]),
    ensures
        file_host("//"@ + host + path) == host,
{
    reveal_strlit("//");
    let rest = "//"@ + host + path;
    let text = rest.skip(2);
    assert(text =~= host + path);
    assert(forall|i: int| 0 <= i < host.len() ==> #[trigger] text[i] == host[i]);
    if path.len() > 0 {
        assert(text[host.len() as int] == path[0]);
    }
    lemma_first_where(text, 0, host.len() as int, |c: char| ends_authority(c));
    assert(authority(text) =~= host);
    lemma_without_breaks(host);
}

/// Blanks around an address make no difference to whether it can be given to the URL parser.
pub proof fn law_blanks_around_do_not_matter(left: Seq<char>, input: Seq<char>, right: Seq<char>)
    requires
        input.len() > 0,
        !is_blank(input[0]),
        !is_blank(input.last()),
        forall|i: int| 0 <= i < left.len() ==> is_blank(#[trigger] left[i]),
        forall|i: int| 0 <= i < right.len() ==> is_blank(#[trigger] right[i]),
    ensures
        is_parsable(left + input + right) == is_parsable(input),
{
    let whole = left + input + right;
    let start = left.len() as int;
    let end = start + input.len();
    assert(forall|i: int| 0 <= i < start ==> #[trigger] whole[i] == left[i]);
    assert(whole[start] == input[0] && whole[end - 1] == input.last());
    assert(forall|i: int| end <= i < whole.len() ==> #[trigger] whole[i] == right[i - end]);
    lemma_first_where(whole, 0, start, |c: char| !is_blank(c));
    lemma_after_last(whole, whole.len() as int, end, |c: char| !is_blank(c));
    lemma_first_where(input, 0, 0, |c: char| !is_blank(c));
    lemma_after_last(input, input.len() as int, input.len() as int, |c: char| !is_blank(c));
    assert(trimmed(whole) =~= input);
    assert(trimmed(input) =~= input);
}

proof fn lemma_port_place(text: Seq<char>, at: int, place: int)
    requires
        0 <= at <= place <= text.len(),
        place < text.len() ==> text[place] == ':',
        forall|i: int| at <= i < place ==> #[trigger] text[i] != ':' && text[i] != '[',
    ensures
        port_place(text, at, false) == place,
    decreases place - at,
{
    if at < place {
        lemma_port_place(text, at + 1, place);
    }
}

proof fn lemma_without_breaks(text: Seq<char>)
    requires
        forall|i: int| 0 <= i < text.len() ==> ' ' < #[trigger] text[i],
    ensures
        without_breaks(text) == text,
    decreases text.len(),
{
    if text.len() > 0 {
        assert(!is_break(text[text.len() - 1]));
        lemma_without_breaks(text.drop_last());
        assert(text.drop_last().push(text.last()) =~= text);
    }
}

/// An address whose host can be read can be given to the URL parser, whatever port and path
/// follow.
pub proof fn law_network_address_is_parsable(
    scheme: Seq<char>,
    host: Seq<char>,
    port: Seq<char>,
    path: Seq<char>,
)
    requires
        is_relative_scheme(scheme),
        scheme != "file"@,
        is_place(host, port),
        host.len() > 0,
        is_readable_host(host),
        path.len() > 0 ==> ends_authority(path[0]),
        forall|i: int| 0 <= i < path.len() ==> ' ' < #[trigger] path[i],
    ensures
        is_parsable(scheme + "://"@ + host + port + path),
{
    reveal_strlit("//");
    reveal_strlit("://");
    let input = scheme + "://"@ + host + port + path;
    let rest = "//"@ + host + port + path;
    let colon = scheme.len() as int;
    lemma_relative_scheme(scheme);
    assert(forall|i: int| 0 <= i < colon ==> #[trigger] input[i] == scheme[i]);
    assert(input[colon] == ':');
    assert(input.skip(colon + 1) =~= rest);
    let last = input.len() - 1;
    if path.len() > 0 {
        assert(input[last] == path[path.len() - 1]);
    } else if port.len() > 0 {
        assert(input[last] == port[port.len() - 1]);
    } else {
        assert(input[last] == host[host.len() - 1]);
    }
    lemma_first_where(input, 0, 0, |c: char| !is_blank(c));
    lemma_after_last(input, input.len() as int, input.len() as int, |c: char| !is_blank(c));
    assert(trimmed(input) =~= input);
    lemma_first_where(input, 0, colon, |c: char| c == ':');
    assert(input.take(colon) =~= scheme);
    assert(lower_text(scheme) =~= scheme);
    law_host_stands_behind_its_user(seq![], host, port, path);
}

/// The address of a host of lower-case letters and dots can be given to the URL parser.
pub proof fn law_simple_address_is_parsable(
    scheme: Seq<char>,
    host: Seq<char>,
    port: Option<u16>,
)
    requires
        default_port(scheme) is Some,
        is_simple_host(host),
    ensures
        is_parsable(network_address(scheme, host, port)),
{
    reveal_strlit(":");
    reveal_strlit("file");
    reveal_strlit("ftp");
    reveal_strlit("gopher");
    reveal_strlit("http");
    reveal_strlit("https");
    reveal_strlit("ws");
    reveal_strlit("wss");
    assert("http"@[0] != "file"@[0]);
    assert("ftp"@[1] != "file"@[1]);
    let port_text: Seq<char> = match port {
        Some(port) => ":"@ + decimal(port as nat),
        None => seq![],
    };
    if port is Some {
        lemma_decimal_digits(port->0 as nat);
        assert forall|i: int| 0 <= i < port_text.len() implies ' ' < #[trigger] port_text[i]
            && !ends_authority(port_text[i]) && port_text[i] != '@' by {
            if i > 0 {
                assert(port_text[i] == decimal(port->0 as nat)[i - 1]);
            }
        }
    }
    assert(host[0] != '.');
    law_host_without_hyphens_is_readable(host);
    law_network_address_is_parsable(scheme, host, port_text, seq![]);
    assert(scheme + "://"@ + host + port_text + seq![] =~= network_address(scheme, host, port));
}

proof fn lemma_relative_scheme(scheme: Seq<char>)
    requires
        is_relative_scheme(scheme),
    ensures
        scheme.len() > 0,
        forall|i: int| 0 <= i < scheme.len() ==> 'a' <= #[trigger] scheme[i] <= 'z',
{
    reveal_strlit("file");
    reveal_strlit("ftp");
    reveal_strlit("gopher");
    reveal_strlit("http");
    reveal_strlit("https");
    reveal_strlit("ws");
    reveal_strlit("wss");
}

} // verus!
