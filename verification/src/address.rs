//! Addresses of relays.

use crate::text::{
    chars_of, decimal, decimal_of, decimal_parses, find, find_from, find_gives_the_first_place,
    joined2, opt_text, parsed, string_of,
};
use vstd::prelude::*;
use vstd::slice::slice_subrange;
use vstd::string::StringExecFns;

verus! {

/// Why an address was refused.
#[derive(Debug, Clone, Copy, PartialEq, Eq, Structural)]
pub enum AddressError {
    /// It is not an absolute URL.
    NotAUrl,
}

/// Errors of the url crate.
#[verifier::external_type_specification]
#[verifier::external_body]
pub struct ExParseError(url::ParseError);

/// The parts of a URL.
#[derive(Debug)]
pub struct UrlParts {
    /// The URL in its normal form.
    pub text: String,
    pub scheme: String,
    pub host: Option<String>,
    /// The port, unless there is none or it is the scheme's own.
    pub port: Option<u16>,
    pub path: String,
}

/// The normal form, scheme, host, port and path of the URL that `url::Url::parse` reads in a
/// text, if it reads one.
pub uninterp spec fn url_in(text: Seq<char>) -> Option<
    (Seq<char>, Seq<char>, Option<Seq<char>>, Option<u16>, Seq<char>),
>;

impl UrlParts {
    /// The parts, in the order in which they are declared.
    pub open spec fn model(&self) -> (
        Seq<char>,
        Seq<char>,
        Option<Seq<char>>,
        Option<u16>,
        Seq<char>,
    ) {
        (self.text@, self.scheme@, opt_text(self.host), self.port, self.path@)
    }
}

/// Reads an absolute URL with `url::Url::parse` and takes it apart with its accessors.
#[verifier::external_body]
fn read_url(text: &str) -> (r: Result<UrlParts, url::ParseError>)
    ensures
        match r {
            Ok(parts) => url_in(text@) == Some(parts.model()),
            Err(_) => url_in(text@) is None,
        },
{
    let url = url::Url::parse(text)?;
    Ok(
        UrlParts {
            text: url.as_str().to_string(),
            scheme: url.scheme().to_string(),
            host: url.host_str().map(|h| h.to_string()),
            port: url.port(),
            path: url.path().to_string(),
        },
    )
}

/// Takes a URL apart.
pub fn parse_url(text: &str) -> (r: Result<UrlParts, AddressError>)
    ensures
        match r {
            Ok(parts) => url_in(text@) == Some(parts.model()),
            Err(e) => url_in(text@) is None && e == AddressError::NotAUrl,
        },
{
    match read_url(text) {
        Ok(parts) => Ok(parts),
        Err(_) => Err(AddressError::NotAUrl),
    }
}

/// The host of a URL, `localhost` where it has none.
pub open spec fn host_or_local(host: Option<Seq<char>>) -> Seq<char> {
    match host {
        Some(h) => h,
        None => "localhost"@,
    }
}

/// `scheme://host:port`, with a port where the URL names none.
pub open spec fn origin(
    scheme: Seq<char>,
    host: Option<Seq<char>>,
    port: Option<u16>,
    default_port: u16,
) -> Seq<char> {
    scheme + "://"@ + host_or_local(host) + ":"@ + decimal(
        match port {
            Some(p) => p as nat,
            None => default_port as nat,
        },
    )
}

fn put_origin(parts: &UrlParts, default_port: u16) -> (r: String)
    ensures
        r@ == origin(parts.scheme@, opt_text(parts.host), parts.port, default_port),
{
    let mut r = parts.scheme.as_str().to_owned();
    r.append("://");
    match &parts.host {
        Some(h) => r.append(h),
        None => r.append("localhost"),
    }
    r.append(":");
    let port: u16 = match parts.port {
        Some(p) => p,
        None => default_port,
    };
    r.append(&decimal_of(port as u64));
    r
}

/// A text without the slashes at its beginning.
pub open spec fn trim_slashes(s: Seq<char>) -> Seq<char>
    decreases s.len(),
{
    if s.len() > 0 && s[0] == '/' {
        trim_slashes(s.skip(1))
    } else {
        s
    }
}

fn without_slashes(s: &str) -> (r: String)
    ensures
        r@ == trim_slashes(s@),
{
    let chars = chars_of(s);
    let mut i: usize = 0;
    assert(chars@.skip(0) =~= chars@);
    while i < chars.len() && chars[i] == '/'
        invariant
            i <= chars.len(),
            trim_slashes(chars@) == trim_slashes(chars@.skip(i as int)),
        decreases chars.len() - i,
    {
        assert(chars@.skip(i as int).skip(1) =~= chars@.skip(i + 1));
        i = i + 1;
    }
    let rest = slice_subrange(chars.as_slice(), i, chars.len());
    assert(rest@ =~= chars@.skip(i as int));
    string_of(rest)
}

/// The URL of a depth camera: what has no scheme is a path on the default relay.
pub open spec fn camera_url(path: Seq<char>) -> Seq<char> {
    if find(path, "://"@, 0) is Some {
        path
    } else {
        "https://cdn.1ms.ai/"@ + path
    }
}

/// The relay and the broadcast path of a depth camera, from the parts of its URL. A URL without a
/// path leaves the path as it was given.
pub fn relay_and_path(parts: &UrlParts, given: &str) -> (r: (String, String))
    ensures
        r.0@ == origin(parts.scheme@, opt_text(parts.host), parts.port, 443),
        r.1@ == (if trim_slashes(parts.path@).len() == 0 {
            given@
        } else {
            trim_slashes(parts.path@)
        }),
{
    let base = put_origin(parts, 443);
    let path = without_slashes(&parts.path);
    if chars_of(&path).len() == 0 {
        (base, given.to_owned())
    } else {
        (base, path)
    }
}

/// Finds the relay and the broadcast path of a depth camera.
pub fn locate_camera(path: &str) -> (r: Result<(String, String), AddressError>)
    ensures
        match r {
            Ok((relay, broadcast)) => url_in(camera_url(path@)) matches Some(
                (text, scheme, host, port, url_path),
            ) && relay@ == origin(scheme, host, port, 443) && broadcast@ == (if trim_slashes(
                url_path,
            ).len() == 0 {
                path@
            } else {
                trim_slashes(url_path)
            }),
            Err(e) => url_in(camera_url(path@)) is None && e == AddressError::NotAUrl,
        },
{
    let chars = chars_of(path);
    let address = if find_from(&chars, "://", 0).is_some() {
        path.to_owned()
    } else {
        joined2("https://cdn.1ms.ai/", path)
    };
    match parse_url(&address) {
        Ok(parts) => Ok(relay_and_path(&parts, path)),
        Err(e) => Err(e),
    }
}

/// The relay that is tried first, from the parts of its URL: on port 4443, unless the URL names a
/// port.
pub fn quic_relay(parts: &UrlParts, given: &str) -> (r: String)
    ensures
        r@ == (if parts.port is None {
            origin(parts.scheme@, opt_text(parts.host), parts.port, 4443) + parts.path@
        } else {
            given@
        }),
{
    if parts.port.is_none() {
        let mut r = put_origin(parts, 4443);
        r.append(&parts.path);
        r
    } else {
        given.to_owned()
    }
}

/// Finds the relay that is tried first.
pub fn first_relay(relay: &str) -> (r: Result<String, AddressError>)
    ensures
        match r {
            Ok(first) => url_in(relay@) matches Some((text, scheme, host, port, path)) && first@ == (
            if port is None {
                origin(scheme, host, port, 4443) + path
            } else {
                relay@
            }),
            Err(e) => url_in(relay@) is None && e == AddressError::NotAUrl,
        },
{
    match parse_url(relay) {
        Ok(parts) => Ok(quic_relay(&parts, relay)),
        Err(e) => Err(e),
    }
}

/// Whether a source is a path on a relay rather than the id of a server.
pub fn is_relay_path(source: &str) -> (r: bool)
    ensures
        r == source@.contains('/'),
{
    crate::text::contains_char(source, '/')
}

/// An origin reads back: the scheme, `://`, the host, a colon and the port. Where the URL names none,
/// the host is `localhost` and the port is the default.
pub proof fn origin_reads_back(
    scheme: Seq<char>,
    host: Option<Seq<char>>,
    port: Option<u16>,
    default_port: u16,
)
    ensures
        ({
            let s = origin(scheme, host, port, default_port);
            let name = match host {
                Some(h) => h,
                None => seq!['l', 'o', 'c', 'a', 'l', 'h', 'o', 's', 't'],
            };
            let from = scheme.len() as int + 3;
            let colon = from + name.len();
            &&& colon < s.len()
            &&& s.take(scheme.len() as int) == scheme
            &&& s.subrange(scheme.len() as int, from) == seq![':', '/', '/']
            &&& s.subrange(from, colon) == name
            &&& s[colon] == ':'
            &&& parsed(s.skip(colon + 1), u16::MAX as int) == Some(
                match port {
                    Some(p) => p as int,
                    None => default_port as int,
                },
            )
        }),
{
    reveal_strlit("://");
    reveal_strlit(":");
    reveal_strlit("localhost");
    let s = origin(scheme, host, port, default_port);
    let name = host_or_local(host);
    let n: nat = match port {
        Some(p) => p as nat,
        None => default_port as nat,
    };
    let from = scheme.len() as int + 3;
    let colon = from + name.len();
    assert("localhost"@ =~= seq!['l', 'o', 'c', 'a', 'l', 'h', 'o', 's', 't']);
    assert(s.take(scheme.len() as int) =~= scheme);
    assert(s.subrange(scheme.len() as int, from) =~= seq![':', '/', '/']);
    assert(s.subrange(from, colon) =~= name);
    assert(s.skip(colon + 1) =~= decimal(n));
    decimal_parses(n, u16::MAX as int);
}

/// What is cut off at the beginning is slashes, and what is left begins with something else.
pub proof fn leading_slashes_are_cut_off(s: Seq<char>)
    ensures
        trim_slashes(s).len() <= s.len(),
        trim_slashes(s) == s.skip(s.len() - trim_slashes(s).len()),
        forall|i: int| 0 <= i < s.len() - trim_slashes(s).len() ==> #[trigger] s[i] == '/',
        trim_slashes(s).len() > 0 ==> trim_slashes(s)[0] != '/',
    decreases s.len(),
{
    if s.len() > 0 && s[0] == '/' {
        let rest = s.skip(1);
        leading_slashes_are_cut_off(rest);
        assert(rest.skip(rest.len() - trim_slashes(s).len()) =~= s.skip(
            s.len() - trim_slashes(s).len(),
        ));
        assert forall|i: int| 0 <= i < s.len() - trim_slashes(s).len() implies #[trigger] s[i] == '/' by {
            if i > 0 {
                assert(rest[i - 1] == '/');
            }
        }
    } else {
        assert(s.skip(0) =~= s);
    }
}

/// A path that holds `://` is taken as it is; any other is put behind the address of the default
/// relay, so that it is the path of a URL with a scheme.
pub proof fn camera_url_has_a_scheme(path: Seq<char>)
    ensures
        find(camera_url(path), "://"@, 0) is Some,
        find(path, "://"@, 0) is Some ==> camera_url(path) == path,
        find(path, "://"@, 0) is None ==> path.is_suffix_of(camera_url(path)) && camera_url(path)[camera_url(
            path,
        ).len() - path.len() - 1] == '/',
{
    reveal_strlit("://");
    reveal_strlit("https://cdn.1ms.ai/");
    if find(path, "://"@, 0) is None {
        let s = camera_url(path);
        assert(s.subrange(5, 8) =~= "://"@);
        find_gives_the_first_place(s, "://"@, 0, 5);
        assert(s.subrange(s.len() - path.len(), s.len() as int) =~= path);
    }
}

} // verus!
