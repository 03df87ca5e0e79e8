//! The comic record that the index stores.

use vstd::prelude::*;
use vstd::string::StringExecFns;

verus! {

/// The mathematical value of a [`Comic`].
pub struct ComicView {
    /// The key that the archive gave the comic.
    pub id: u64,
    pub title: Seq<char>,
    pub alt: Seq<char>,
    /// Where the comic's image is to be had.
    pub img: Seq<char>,
    /// Text cut out of the comic's companion page; empty where none was found.
    pub transcript: Seq<char>,
}

impl ComicView {
    /// The text that a search looks through, before its case is lowered:
    /// title, alt text and transcript, one after the other.
    pub open spec fn blob(self) -> Seq<char> {
        self.title + self.alt + self.transcript
    }

    /// The same comic with another transcript.
    pub open spec fn with_transcript(self, transcript: Seq<char>) -> ComicView {
        ComicView { transcript, ..self }
    }
}

/// One comic of the archive together with the text scraped for it.
#[derive(Debug, PartialEq, Eq)]
pub struct Comic {
    id: u64,
    title: String,
    alt: String,
    img: String,
    transcript: String,
}

impl View for Comic {
    type V = ComicView;

    closed spec fn view(&self) -> ComicView {
        ComicView {
            id: self.id,
            title: self.title@,
            alt: self.alt@,
            img: self.img@,
            transcript: self.transcript@,
        }
    }
}

/// The values of a sequence of comics, in the same order.
pub open spec fn comic_views(comics: Seq<Comic>) -> Seq<ComicView> {
    comics.map_values(|c: Comic| c@)
}

/// The identifiers of a sequence of comics, in the same order.
pub open spec fn ids_of(comics: Seq<ComicView>) -> Seq<u64> {
    comics.map_values(|c: ComicView| c.id)
}

impl Clone for Comic {
    fn clone(&self) -> (copy: Self)
        ensures
            copy == *self,
    {
        Comic {
            id: self.id,
            title: self.title.clone(),
            alt: self.alt.clone(),
            img: self.img.clone(),
            transcript: self.transcript.clone(),
        }
    }
}

impl Comic {
    /// Builds a comic from its parts.
    pub fn new(id: u64, title: String, alt: String, img: String, transcript: String) -> (comic:
        Comic)
        ensures
            comic@ == (ComicView {
                id,
                title: title@,
                alt: alt@,
                img: img@,
                transcript: transcript@,
            }),
    {
        Comic { id, title, alt, img, transcript }
    }

    /// The key that the archive gave this comic.
    pub fn id(&self) -> (id: u64)
        ensures
            id == self@.id,
    {
        self.id
    }

    pub fn title(&self) -> (title: &str)
        ensures
            title@ == self@.title,
    {
        self.title.as_str()
    }

    pub fn alt(&self) -> (alt: &str)
        ensures
            alt@ == self@.alt,
    {
        self.alt.as_str()
    }

    /// Where the comic's image is to be had.
    pub fn img(&self) -> (img: &str)
        ensures
            img@ == self@.img,
    {
        self.img.as_str()
    }

    pub fn transcript(&self) -> (transcript: &str)
        ensures
            transcript@ == self@.transcript,
    {
        self.transcript.as_str()
    }

    /// Replaces the transcript and leaves the rest as it is.
    pub fn with_transcript(self, transcript: String) -> (comic: Comic)
        ensures
            comic@ == self@.with_transcript(transcript@),
    {
        Comic { id: self.id, title: self.title, alt: self.alt, img: self.img, transcript }
    }

    /// The text that a search looks through, before its case is lowered.
    pub fn blob(&self) -> (blob: String)
        ensures
            blob@ == self@.blob(),
    {
        let mut blob = self.title.clone();
        blob.append(self.alt.as_str());
        blob.append(self.transcript.as_str());
        blob
    }
}

} // verus!
