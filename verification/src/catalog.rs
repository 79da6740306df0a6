//! Display metadata of the external catalog.
//!
//! The engine never consults metadata for rating logic; these shapes only
//! decorate a match proposal or a leaderboard for presentation. Fetching
//! them over the wire, and the token handling around that, is the
//! caller's concern: the functions here are the pure part — mapping raw
//! catalog shapes to presentation shapes and checking token expiry
//! arithmetic.

use vstd::prelude::*;

use crate::model::Record;

verus! {

/// A token grant of the catalog's authorization server.
pub struct SpotifyResponse {
    /// The bearer token to call the catalog with.
    pub access_token: String,
    /// The token to obtain the next grant with, when one was issued.
    pub refresh_token: Option<String>,
    /// How many seconds the grant lasts.
    pub expires_in: u64,
}

/// One collection of the catalog, as presented to users.
pub struct Playlist {
    /// Canonical catalog address of the playlist.
    pub href: String,
    /// Catalog identifier of the playlist.
    pub id: String,
    /// Display name.
    pub name: String,
    /// Address of the first cover image, or empty when it has none.
    pub image_url: String,
}

/// One item of a collection, as presented to users.
pub struct Track {
    /// Canonical catalog address of the track.
    pub href: String,
    /// Catalog identifier of the track.
    pub id: String,
    /// Display name.
    pub name: String,
    /// The performing artists.
    pub artists: Vec<Artist>,
    /// Address of the first album image, or empty when there is none.
    pub image_url: String,
}

/// One artist named by a track.
pub struct Artist {
    /// Display name.
    pub name: String,
    /// Canonical catalog address of the artist.
    pub href: String,
}

/// A track decorated with its rating state, as a match proposal or a
/// leaderboard row presents it.
pub struct RatedTrack {
    /// The track's display metadata.
    pub track: Track,
    /// The rating state snapshot the track is shown with.
    pub record: Record,
}

/// The first of the listed image addresses, or the empty string when
/// none was listed.
pub fn first_image_url(urls: Vec<String>) -> (r: String)
    ensures
        urls@.len() > 0 ==> r@ == urls@[0]@,
        urls@.len() == 0 ==> r@ == Seq::<char>::empty(),
{
    let mut urls = urls;
    if urls.len() > 0 {
        urls.remove(0)
    } else {
        String::new()
    }
}

impl Playlist {
    /// Shapes a raw catalog playlist for presentation: its image is the
    /// first of its cover images, or empty when it has none.
    pub fn from_parts(href: String, id: String, name: String, images: Vec<String>) -> (r: Playlist)
        ensures
            r.href@ == href@,
            r.id@ == id@,
            r.name@ == name@,
            images@.len() > 0 ==> r.image_url@ == images@[0]@,
            images@.len() == 0 ==> r.image_url@ == Seq::<char>::empty(),
    {
        Playlist { href, id, name, image_url: first_image_url(images) }
    }
}

impl Track {
    /// Shapes a raw catalog track for presentation: its image is the
    /// first of its album's images, or empty when there is none.
    pub fn from_parts(
        href: String,
        id: String,
        name: String,
        artists: Vec<Artist>,
        album_images: Vec<String>,
    ) -> (r: Track)
        ensures
            r.href@ == href@,
            r.id@ == id@,
            r.name@ == name@,
            r.artists@ == artists@,
            album_images@.len() > 0 ==> r.image_url@ == album_images@[0]@,
            album_images@.len() == 0 ==> r.image_url@ == Seq::<char>::empty(),
    {
        Track { href, id, name, artists, image_url: first_image_url(album_images) }
    }
}

impl RatedTrack {
    /// Decorates a track with the rating state it is shown with.
    pub fn from_track(track: Track, record: Record) -> (r: RatedTrack)
        ensures
            r.track == track,
            r.record == record,
    {
        RatedTrack { track, record }
    }
}

/// When an access token granted now for `expires_in` seconds expires, on
/// the granting clock, saturating at the largest representable instant.
pub fn token_expiry(now_epoch_secs: u64, expires_in: u64) -> (r: u64)
    ensures
        now_epoch_secs + expires_in <= u64::MAX ==> r == now_epoch_secs + expires_in,
        now_epoch_secs + expires_in > u64::MAX ==> r == u64::MAX,
{
    match now_epoch_secs.checked_add(expires_in) {
        Some(t) => t,
        None => u64::MAX,
    }
}

/// Whether a token that expires at `expires_at` is already expired at
/// `now_epoch_secs`.
pub fn token_expired(now_epoch_secs: u64, expires_at: u64) -> (r: bool)
    ensures
        r == (now_epoch_secs >= expires_at),
{
    now_epoch_secs >= expires_at
}

} // verus!
