//! From the link that a user gives to the album's identifier and the
//! addresses of the service's endpoints for that album.

use vstd::prelude::*;
use crate::album::text_of;
use crate::error::AlbumError;
use crate::text::chars_of;

verus! {

/// The error of `regex::Regex::new`. Nothing is known of what it holds.
#[verifier::external_type_specification]
#[verifier::external_body]
pub struct ExRegexError(regex::Error);

/// Whether `regex::Regex::new` accepts `pattern`.
pub uninterp spec fn pattern_compiles(pattern: Seq<char>) -> bool;

/// What capture group `group` holds after `regex::Regex::captures` has
/// searched `haystack` for `pattern`: the text that the group matched, or
/// nothing where the pattern matches nowhere or the group took no part.
pub uninterp spec fn captured_group(pattern: Seq<char>, haystack: Seq<char>, group: nat) -> Option<
    Seq<char>,
>;

/// Whether `part` occurs in `whole` as a run of consecutive characters.
pub open spec fn occurs_in(part: Seq<char>, whole: Seq<char>) -> bool {
    exists|i: int|
        0 <= i && i + part.len() <= whole.len() && #[trigger] whole.subrange(i, i + part.len())
            == part
}

/// Compiles `pattern` with `regex::Regex::new`, searches `haystack` with
/// `Regex::captures` and copies out what `Captures::get(group)` matched.
///
/// None of this is proved. It is taken from the regex crate that
/// - the call fails exactly where the pattern does not compile, and whether
///   it compiles depends on the pattern alone;
/// - what is captured depends on pattern, haystack and group alone;
/// - what is captured is a part of the haystack.
#[verifier::external_body]
fn capture_group(pattern: &str, haystack: &str, group: usize) -> (r: Result<
    Option<String>,
    regex::Error,
>)
    ensures
        r is Ok <==> pattern_compiles(pattern@),
        r matches Ok(found) ==> text_of(found) == captured_group(pattern@, haystack@, group as nat),
        r matches Ok(Some(text)) ==> occurs_in(text@, haystack@),
{
    let re = regex::Regex::new(pattern)?;
    Ok(re.captures(haystack).and_then(|c| c.get(group)).map(|m| m.as_str().to_string()))
}

/// Whether `c` may occur in an album identifier: an ASCII letter or digit.
pub open spec fn is_token_char(c: char) -> bool {
    ('a' <= c && c <= 'z') || ('A' <= c && c <= 'Z') || ('0' <= c && c <= '9')
}

/// Whether `s` has the form of an album identifier: one or more ASCII
/// letters and digits.
pub open spec fn is_token(s: Seq<char>) -> bool {
    s.len() > 0 && forall|i: int| 0 <= i < s.len() ==> is_token_char(#[trigger] s[i])
}

/// The pattern that finds the identifier in a link: the address of a shared
/// album, a number sign, and the identifier as the first group.
pub const ALBUM_LINK_PATTERN: &'static str = "icloud\\.com/sharedalbum/#([A-Za-z0-9]+)";

/// The text of [`ALBUM_LINK_PATTERN`].
pub open spec fn album_link_pattern() -> Seq<char> {
    ALBUM_LINK_PATTERN@
}

/// The identifier that a captured text amounts to: the text itself where it
/// has the form of an identifier.
pub open spec fn token_of_capture(capture: Option<Seq<char>>) -> Option<Seq<char>> {
    match capture {
        Some(text) => if is_token(text) {
            Some(text)
        } else {
            None
        },
        None => None,
    }
}

/// The identifier that `link` holds, if any: what the first group of the
/// link pattern captures in it.
pub open spec fn token_in(link: Seq<char>) -> Option<Seq<char>> {
    if pattern_compiles(album_link_pattern()) {
        token_of_capture(captured_group(album_link_pattern(), link, 1))
    } else {
        None
    }
}

/// The opaque token that identifies a shared album. It is never empty and
/// holds ASCII letters and digits only.
#[derive(Debug)]
pub struct AlbumIdentifier {
    token: String,
}

impl View for AlbumIdentifier {
    type V = Seq<char>;

    closed spec fn view(&self) -> Seq<char> {
        self.token@
    }
}

impl AlbumIdentifier {
    #[verifier::type_invariant]
    spec fn well_formed(&self) -> bool {
        is_token(self.token@)
    }

    /// The identifier spelled by `token`, where it has the form of one.
    pub fn new(token: String) -> (r: Option<AlbumIdentifier>)
        ensures
            match r {
                Some(id) => is_token(token@) && id@ == token@,
                None => !is_token(token@),
            },
    {
        let chars = chars_of(token.as_str());
        let n: usize = chars.len();
        if n == 0 {
            return None;
        }
        let mut i: usize = 0;
        while i < n
            invariant
                n == chars@.len(),
                chars@ == token@,
                i <= n,
                forall|j: int| 0 <= j < i ==> is_token_char(#[trigger] token@[j]),
            decreases n - i,
        {
            let c: char = chars[i];
            let ok: bool = ('a' <= c && c <= 'z') || ('A' <= c && c <= 'Z') || ('0' <= c && c
                <= '9');
            if !ok {
                assert(!is_token_char(token@[i as int]));
                return None;
            }
            i += 1;
        }
        Some(AlbumIdentifier { token })
    }

    /// The token as text.
    pub fn as_str(&self) -> (r: &str)
        ensures
            r@ == self@,
            is_token(self@),
    {
        proof {
            use_type_invariant(self);
        }
        self.token.as_str()
    }
}

/// Turns what the link pattern captured into an identifier. No capture, or
/// one that does not have the form of an identifier, means that the link is
/// not one of a shared album.
pub fn identifier_from_capture(capture: Option<String>) -> (r: Result<AlbumIdentifier, AlbumError>)
    ensures
        match r {
            Ok(id) => token_of_capture(text_of(capture)) == Some(id@),
            Err(e) => e == AlbumError::InvalidInput && token_of_capture(text_of(capture)) is None,
        },
{
    match capture {
        Some(token) => match AlbumIdentifier::new(token) {
            Some(id) => Ok(id),
            None => Err(AlbumError::InvalidInput),
        },
        None => Err(AlbumError::InvalidInput),
    }
}

/// Extracts the album's identifier from the link that the user gave: the run
/// of letters and digits that follows `icloud.com/sharedalbum/#`, wherever
/// in the text that stands. A text without it is refused.
pub fn extract_hash_from_url(url: &str) -> (r: Result<AlbumIdentifier, AlbumError>)
    ensures
        match r {
            Ok(id) => token_in(url@) == Some(id@) && is_token(id@) && occurs_in(id@, url@),
            Err(e) => e == AlbumError::InvalidInput && token_in(url@) is None,
        },
{
    match capture_group(ALBUM_LINK_PATTERN, url, 1) {
        Ok(capture) => identifier_from_capture(capture),
        Err(_) => Err(AlbumError::InvalidInput),
    }
}

/// Where the service is reached, up to the album's identifier.
pub const SERVICE_PREFIX: &'static str = "https://p153-sharedstreams.icloud.com/";

/// What follows the album's identifier in the address of the endpoint that
/// returns the album's manifest.
pub const WEBSTREAM_SUFFIX: &'static str = "/sharedstreams/webstream";

/// What follows the album's identifier in the address of the endpoint that
/// returns download locations.
pub const WEBASSETURLS_SUFFIX: &'static str = "/sharedstreams/webasseturls";

/// The address of the endpoint that returns the manifest of album `id`.
pub open spec fn webstream_url_of(id: Seq<char>) -> Seq<char> {
    SERVICE_PREFIX@ + id + WEBSTREAM_SUFFIX@
}

/// The address of the endpoint that returns download locations for photos
/// of album `id`.
pub open spec fn webasseturls_url_of(id: Seq<char>) -> Seq<char> {
    SERVICE_PREFIX@ + id + WEBASSETURLS_SUFFIX@
}

/// The address to which the request for the album's manifest goes.
pub fn webstream_url(id: &AlbumIdentifier) -> (r: String)
    ensures
        r@ == webstream_url_of(id@),
{
    let mut url: String = SERVICE_PREFIX.to_owned();
    url.append(id.as_str());
    url.append(WEBSTREAM_SUFFIX);
    url
}

/// The address to which the requests for download locations go.
pub fn webasseturls_url(id: &AlbumIdentifier) -> (r: String)
    ensures
        r@ == webasseturls_url_of(id@),
{
    let mut url: String = SERVICE_PREFIX.to_owned();
    url.append(id.as_str());
    url.append(WEBASSETURLS_SUFFIX);
    url
}

} // verus!
