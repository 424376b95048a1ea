//! Response model of the music catalogue used for album lookups.
use vstd::prelude::*;
use crate::text::{owned, push_str};

verus! {

pub const ALBUM_URL: &'static str = "https://tidal.com/album";

/// The public share link of an album.
pub fn album_share_url(album_id: &str) -> (r: String)
    ensures
        r@ == ALBUM_URL@ + "/"@ + album_id@ + "/u"@,
{
    let mut r = owned(ALBUM_URL);
    push_str(&mut r, "/");
    push_str(&mut r, album_id);
    push_str(&mut r, "/u");
    r
}

#[derive(Debug)]
pub struct AuthResponse {
    pub access_token: String,
    pub expires_in: u64,
}

#[derive(Debug)]
pub struct AlbumAttributes {
    pub title: String,
    pub duration: String,
    pub release_date: Option<String>,
}

#[derive(Debug)]
pub struct ArtistAttributes {
    pub name: String,
}

#[derive(Debug)]
pub struct ArtworkFile {
    pub href: String,
}

#[derive(Debug)]
pub struct ArtworkAttributes {
    pub files: Vec<ArtworkFile>,
}

#[derive(Debug)]
pub struct TrackAttributes {
    pub title: String,
    pub duration: String,
}

/// A resource included beside the main one, by its type.
#[derive(Debug)]
pub enum IncludedEntity {
    Artist(ArtistAttributes),
    Album(AlbumAttributes),
    Artwortk(ArtworkAttributes),
    Track(TrackAttributes),
}

#[derive(Debug)]
pub struct IncludedItem {
    pub id: String,
    pub entity: IncludedEntity,
}

#[derive(Debug)]
pub struct MultiResponse<T> {
    pub data: Vec<T>,
    pub included: Vec<IncludedItem>,
}

#[derive(Debug)]
pub struct Error {
    pub code: String,
    pub detail: String,
}

#[derive(Debug)]
pub struct ErrorResponse {
    pub errors: Vec<Error>,
}

impl IncludedItem {
    /// The id and attributes, when this is an artist.
    pub fn artist(self) -> (r: Option<(String, ArtistAttributes)>)
        ensures
            self.entity is Artist <==> r is Some,
            r is Some ==> r->Some_0 == (self.id, self.entity->Artist_0),
    {
        match self.entity {
            IncludedEntity::Artist(a) => Some((self.id, a)),
            _ => None,
        }
    }

    /// The id and attributes, when this is an album.
    pub fn album(self) -> (r: Option<(String, AlbumAttributes)>)
        ensures
            self.entity is Album <==> r is Some,
            r is Some ==> r->Some_0 == (self.id, self.entity->Album_0),
    {
        match self.entity {
            IncludedEntity::Album(a) => Some((self.id, a)),
            _ => None,
        }
    }

    /// The id and attributes, when this is an artwork.
    pub fn artwork(self) -> (r: Option<(String, ArtworkAttributes)>)
        ensures
            self.entity is Artwortk <==> r is Some,
            r is Some ==> r->Some_0 == (self.id, self.entity->Artwortk_0),
    {
        match self.entity {
            IncludedEntity::Artwortk(a) => Some((self.id, a)),
            _ => None,
        }
    }

    /// Borrowed id and attributes, when this is an artwork.
    pub fn artwork_ref(&self) -> (r: Option<(&str, &ArtworkAttributes)>)
        ensures
            self.entity is Artwortk <==> r is Some,
            r is Some ==> r->Some_0.0@ == self.id@ && *r->Some_0.1 == self.entity->Artwortk_0,
    {
        match &self.entity {
            IncludedEntity::Artwortk(a) => Some((self.id.as_str(), a)),
            _ => None,
        }
    }

    /// The id and attributes, when this is a track.
    pub fn track(self) -> (r: Option<(String, TrackAttributes)>)
        ensures
            self.entity is Track <==> r is Some,
            r is Some ==> r->Some_0 == (self.id, self.entity->Track_0),
    {
        match self.entity {
            IncludedEntity::Track(t) => Some((self.id, t)),
            _ => None,
        }
    }

    /// Borrowed id and attributes, when this is a track.
    pub fn track_ref(&self) -> (r: Option<(&str, &TrackAttributes)>)
        ensures
            self.entity is Track <==> r is Some,
            r is Some ==> r->Some_0.0@ == self.id@ && *r->Some_0.1 == self.entity->Track_0,
    {
        match &self.entity {
            IncludedEntity::Track(t) => Some((self.id.as_str(), t)),
            _ => None,
        }
    }
}

} // verus!
