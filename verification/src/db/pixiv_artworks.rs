use vstd::prelude::*;

verus! {

/// Speicfy which part should not be updated.
#[derive(Clone, Copy, Debug, PartialEq, Eq, Structural)]
pub enum PixivArtworkLock {
    Title,
    Author,
    Description,
    IsNsfw,
}

/// The bit of a part in a set of locked parts.
pub open spec fn lock_bit(l: PixivArtworkLock) -> u8 {
    match l {
        PixivArtworkLock::Title => 1,
        PixivArtworkLock::Author => 2,
        PixivArtworkLock::Description => 4,
        PixivArtworkLock::IsNsfw => 8,
    }
}

impl PixivArtworkLock {
    /// The bit of the part in a set of locked parts.
    pub fn bit(self) -> (r: u8)
        ensures
            r == lock_bit(self),
    {
        match self {
            PixivArtworkLock::Title => 1,
            PixivArtworkLock::Author => 2,
            PixivArtworkLock::Description => 4,
            PixivArtworkLock::IsNsfw => 8,
        }
    }
}

pub struct PixivArtwork {
    /// The artwork ID
    pub id: u64,
    /// The artwork title
    pub title: String,
    /// The artwork author
    pub author: String,
    /// The author's UID
    pub uid: u64,
    /// The artwork description
    pub description: String,
    /// The artwork's page count
    pub count: u64,
    /// Whether the artwork is NSFW
    pub is_nsfw: bool,
    /// Specify which part should not be updated: the bits of the locked parts.
    pub lock: u8,
}

impl PixivArtwork {
    /// Whether a part should not be updated.
    pub fn is_locked(&self, part: PixivArtworkLock) -> (r: bool)
        ensures
            r == (self.lock & lock_bit(part) != 0),
    {
        self.lock & part.bit() != 0
    }
}

} // verus!
