//! The shape of one page of search results, and its mathematical view.

use vstd::prelude::*;

verus! {

/// One page of results, in the order the API returned them.
#[derive(Debug, Clone)]
pub struct Posts {
    pub posts: Vec<Post>,
}

/// One media post.
#[derive(Debug, Clone)]
pub struct Post {
    pub id: u64,
    pub file: File,
    pub tags: Tags,
    pub sample: Sample,
}

/// The primary file of a post: its extension and, where the API gives one, its URL.
#[derive(Debug, Clone)]
pub struct File {
    pub ext: String,
    pub url: Option<String>,
}

/// The contributors a post is attributed to.
#[derive(Debug, Clone)]
pub struct Tags {
    pub artist: Vec<String>,
}

/// The reduced-quality sample of a post.
#[derive(Debug, Clone)]
pub struct Sample {
    pub has: bool,
    pub url: Option<String>,
    pub alternates: Alternates,
}

/// The structured variants of a sample; only the 480p one is read.
#[derive(Debug, Clone)]
pub struct Alternates {
    pub lower_quality: Option<LowerQuality>,
}

/// A structured variant: a media type and its candidate URLs, in order.
#[derive(Debug, Clone)]
pub struct LowerQuality {
    pub media_type: String,
    pub urls: Vec<Option<String>>,
}

/// A primary file with its texts as character sequences.
pub struct FileView {
    pub ext: Seq<char>,
    pub url: Option<Seq<char>>,
}

/// The contributors of a post as character sequences.
pub struct TagsView {
    pub artist: Seq<Seq<char>>,
}

/// A structured variant with its texts as character sequences.
pub struct LowerQualityView {
    pub media_type: Seq<char>,
    pub urls: Seq<Option<Seq<char>>>,
}

/// The structured variants of a sample, in the model.
pub struct AlternatesView {
    pub lower_quality: Option<LowerQualityView>,
}

/// A sample, in the model.
pub struct SampleView {
    pub has: bool,
    pub url: Option<Seq<char>>,
    pub alternates: AlternatesView,
}

/// A post, in the model: what contracts say of a `Post`.
pub struct PostView {
    pub id: u64,
    pub file: FileView,
    pub tags: TagsView,
    pub sample: SampleView,
}

impl View for File {
    type V = FileView;

    open spec fn view(&self) -> FileView {
        FileView { ext: self.ext@, url: self.url.deep_view() }
    }
}

impl View for Tags {
    type V = TagsView;

    open spec fn view(&self) -> TagsView {
        TagsView { artist: self.artist.deep_view() }
    }
}

impl View for LowerQuality {
    type V = LowerQualityView;

    open spec fn view(&self) -> LowerQualityView {
        LowerQualityView { media_type: self.media_type@, urls: self.urls.deep_view() }
    }
}

impl View for Alternates {
    type V = AlternatesView;

    open spec fn view(&self) -> AlternatesView {
        AlternatesView {
            lower_quality: match self.lower_quality {
                Some(variant) => Some(variant@),
                None => None,
            },
        }
    }
}

impl View for Sample {
    type V = SampleView;

    open spec fn view(&self) -> SampleView {
        SampleView { has: self.has, url: self.url.deep_view(), alternates: self.alternates@ }
    }
}

impl View for Post {
    type V = PostView;

    open spec fn view(&self) -> PostView {
        PostView { id: self.id, file: self.file@, tags: self.tags@, sample: self.sample@ }
    }
}

impl View for Posts {
    type V = Seq<PostView>;

    open spec fn view(&self) -> Seq<PostView> {
        Seq::new(self.posts@.len(), |i: int| self.posts@[i]@)
    }
}

} // verus!
