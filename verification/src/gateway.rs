//! Request paths sent to the catalog gateways and the authorization
//! token the podcast gateway requires.

use vstd::prelude::*;

use sha1::{Digest, Sha1};

use crate::digits::{spec_udigits, u64_string};

verus! {

/// What urlencoding::encode returns for a string: a pure function of
/// its characters.
pub uninterp spec fn url_encoded(s: Seq<char>) -> Seq<char>;

/// Relies on urlencoding::encode: percent-encodes every byte except
/// alphanumerics and `-`, `_`, `.`, `~`; the result depends on the
/// input alone, and an empty input stays empty.
#[verifier::external_body]
fn url_encode(s: &str) -> (r: String)
    ensures
        r@ == url_encoded(s@),
        s@.len() == 0 ==> r@.len() == 0,
{
    urlencoding::encode(s).into_owned()
}

/// The search request path for one title: the encoded query asking for
/// tracks, albums and artists at once.
pub fn search_path(title: &str) -> (r: String)
    ensures
        r@ == "/search?q="@ + url_encoded(title@) + "&type=track,album,artist"@,
{
    let mut r = String::from_str("/search?q=");
    let encoded = url_encode(title);
    r.append(encoded.as_str());
    r.append("&type=track,album,artist");
    r
}

/// The request path for one page of an album's track listing.
pub fn album_tracks_path(album_id: &str, offset: u64, limit: u64) -> (r: String)
    ensures
        r@ == "/albums/"@ + album_id@ + "/tracks?offset="@ + spec_udigits(offset as nat)
            + "&limit="@ + spec_udigits(limit as nat),
{
    let mut r = String::from_str("/albums/");
    r.append(album_id);
    r.append("/tracks?offset=");
    let off = u64_string(offset);
    r.append(off.as_str());
    r.append("&limit=");
    let lim = u64_string(limit);
    r.append(lim.as_str());
    r
}

/// The request path for one page of an artist's album listing.
pub fn artist_albums_path(artist_id: &str, offset: u64, limit: u64) -> (r: String)
    ensures
        r@ == "/artists/"@ + artist_id@ + "/albums?offset="@ + spec_udigits(offset as nat)
            + "&limit="@ + spec_udigits(limit as nat),
{
    let mut r = String::from_str("/artists/");
    r.append(artist_id);
    r.append("/albums?offset=");
    let off = u64_string(offset);
    r.append(off.as_str());
    r.append("&limit=");
    let lim = u64_string(limit);
    r.append(lim.as_str());
    r
}

/// What hashing a string with SHA-1 and rendering the digest in hex
/// yields: a pure function of the input characters.
pub uninterp spec fn sha1_hex_of(s: Seq<char>) -> Seq<char>;

/// Relies on sha1::Sha1 through the digest traits, and on the hex
/// rendering of its 20-byte output: the digest is a function of the
/// input alone and renders as exactly 40 lower-case hex characters, two
/// per byte.
#[verifier::external_body]
fn sha1_hex(s: &str) -> (r: String)
    ensures
        r@ == sha1_hex_of(s@),
        r@.len() == 40,
{
    let mut hasher = Sha1::new();
    hasher.update(s.as_bytes());
    format!("{:x}", hasher.finalize())
}

/// The authorization token the podcast gateway requires: the hex SHA-1
/// digest of the api key, the secret and the current unix time,
/// concatenated in that order.
pub fn auth_token(api_key: &str, secret: &str, unix_time: &str) -> (r: String)
    ensures
        r@ == sha1_hex_of(api_key@ + secret@ + unix_time@),
        r@.len() == 40,
{
    let mut v = String::from_str(api_key);
    v.append(secret);
    v.append(unix_time);
    sha1_hex(v.as_str())
}

} // verus!
