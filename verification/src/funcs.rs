//! What one post becomes on disk, and where its bytes come from.

use crate::text::{
    decimal, join, join_strings, join_trailing, lemma_decimal_injective, lemma_join_trailing,
    u64_to_string,
};
use crate::type_defs::api_defs::{LowerQualityView, Post, PostView, Tags};
use vstd::prelude::*;
use vstd::string::*;

verus! {

/// The label of a post that names no contributor.
pub open spec fn unknown_artist() -> Seq<char> {
    "unknown-artist"@
}

/// The contributor label of a post: the fallback label for no contributor,
/// the name itself for one, the names joined by `", "` for more.
pub open spec fn contributor_label(artists: Seq<Seq<char>>) -> Seq<char> {
    if artists.len() == 0 {
        unknown_artist()
    } else if artists.len() == 1 {
        artists[0]
    } else {
        join(artists, ", "@)
    }
}

/// The file name of a post: `{label}-{id}.{extension}`.
pub open spec fn artifact_name(post: PostView) -> Seq<char> {
    contributor_label(post.tags.artist) + "-"@ + decimal(post.id as nat) + "."@ + post.file.ext
}

/// Where a post is downloaded to: its file name under `./dl/`.
pub open spec fn download_path(post: PostView) -> Seq<char> {
    "./dl/"@ + artifact_name(post)
}

/// Where the page with the given number is kept between the two passes of
/// a bulk run.
pub open spec fn page_file_path(number: nat) -> Seq<char> {
    "./data/post_page_"@ + decimal(number) + ".json"@
}

/// The first candidate that is present, in list order.
pub open spec fn first_present(urls: Seq<Option<Seq<char>>>) -> Option<Seq<char>>
    decreases urls.len(),
{
    if urls.len() == 0 {
        None
    } else if urls[0] is Some {
        urls[0]
    } else {
        first_present(urls.drop_first())
    }
}

/// Whether a structured variant is a video, whose URLs come as a list.
pub open spec fn is_video(variant: LowerQualityView) -> bool {
    variant.media_type == "video"@
}

/// The candidate URLs of a post whose structured variant is a video.
pub open spec fn video_candidates(post: PostView) -> Option<Seq<Option<Seq<char>>>> {
    match post.sample.alternates.lower_quality {
        Some(variant) => if is_video(variant) {
            Some(variant.urls)
        } else {
            None
        },
        None => None,
    }
}

/// The URL to fetch when reduced quality is preferred.
///
/// Without a sample the primary file is taken and the sample is not looked
/// at. With one, a video variant gives its first present candidate, and
/// everything else gives the plain sample URL; the primary file is then not
/// consulted.
pub open spec fn reduced_source(post: PostView) -> Option<Seq<char>> {
    if !post.sample.has {
        post.file.url
    } else {
        match post.sample.alternates.lower_quality {
            Some(variant) => if is_video(variant) {
                first_present(variant.urls)
            } else {
                post.sample.url
            },
            None => post.sample.url,
        }
    }
}

/// The URL to fetch for a post under a quality preference, or `None` where
/// the post has no source.
pub open spec fn source_url(post: PostView, lower_quality: bool) -> Option<Seq<char>> {
    if lower_quality {
        reduced_source(post)
    } else {
        post.file.url
    }
}

/// What `first_present` picks: a present candidate with none present before
/// it, and nothing exactly when no candidate is present.
pub proof fn lemma_first_present(urls: Seq<Option<Seq<char>>>)
    ensures
        first_present(urls) is None <==> forall|i: int| 0 <= i < urls.len() ==> urls[i] is None,
        first_present(urls) is Some ==> exists|i: int|
            0 <= i < urls.len() && urls[i] == first_present(urls) && forall|j: int|
                0 <= j < i ==> urls[j] is None,
    decreases urls.len(),
{
    if urls.len() == 0 {
    } else if urls[0] is Some {
        assert(0 <= 0 < urls.len() && urls[0] == first_present(urls) && forall|j: int|
            0 <= j < 0 ==> urls[j] is None);
    } else {
        let rest = urls.drop_first();
        lemma_first_present(rest);
        assert forall|i: int| 0 <= i < rest.len() implies rest[i] == urls[i + 1] by {}
        if first_present(rest) is None {
            assert forall|i: int| 0 <= i < urls.len() implies urls[i] is None by {
                if i > 0 {
                    assert(rest[i - 1] is None);
                }
            }
        } else {
            let k = choose|i: int|
                0 <= i < rest.len() && rest[i] == first_present(rest) && forall|j: int|
                    0 <= j < i ==> rest[j] is None;
            assert forall|j: int| 0 <= j < k + 1 implies urls[j] is None by {
                if j > 0 {
                    assert(rest[j - 1] is None);
                }
            }
        }
    }
}

/// The label of several contributors is their names joined by `", "`: a
/// separator stands between each two names and none after the last, so
/// the label followed by one more separator is every name followed by one.
pub proof fn lemma_label_of_several(artists: Seq<Seq<char>>)
    requires
        artists.len() > 1,
    ensures
        contributor_label(artists) == join(artists, ", "@),
        contributor_label(artists) + ", "@ == join_trailing(artists, ", "@),
{
    lemma_join_trailing(artists, ", "@);
}

/// The label of a post without contributors is the fallback label.
pub proof fn lemma_label_of_none(artists: Seq<Seq<char>>)
    requires
        artists.len() == 0,
    ensures
        contributor_label(artists) == "unknown-artist"@,
{
}

/// Where a post has no sample, its primary file is taken whatever the
/// quality preference, and nothing of the sample is looked at: any other
/// post without a sample and with the same primary URL resolves alike,
/// whatever its sample URL and its structured variant hold.
pub proof fn lemma_without_sample_the_file_is_taken(
    post: PostView,
    other: PostView,
    lower_quality: bool,
)
    requires
        !post.sample.has,
        !other.sample.has,
        other.file.url == post.file.url,
    ensures
        source_url(post, lower_quality) == post.file.url,
        source_url(other, lower_quality) == source_url(post, lower_quality),
{
}

/// A post has no source exactly when the URL chosen for it is absent: the
/// primary URL where original quality is preferred or the post has no
/// sample; every candidate of a video variant; the sample URL otherwise.
pub proof fn lemma_no_source(post: PostView, lower_quality: bool)
    ensures
        source_url(post, lower_quality) is None <==> if !lower_quality || !post.sample.has {
            post.file.url is None
        } else if video_candidates(post) is Some {
            forall|i: int|
                0 <= i < video_candidates(post)->0.len() ==> video_candidates(post)->0[i] is None
        } else {
            post.sample.url is None
        },
{
    if let Some(urls) = video_candidates(post) {
        lemma_first_present(urls);
    }
}

/// The name of a post is fixed by its contributors, its identifier and its
/// extension: two posts that agree on these have the same name and the
/// same download path, so a file written in one run is found by the next.
pub proof fn lemma_name_is_determined(post: PostView, other: PostView)
    requires
        post.tags.artist == other.tags.artist,
        post.id == other.id,
        post.file.ext == other.file.ext,
    ensures
        artifact_name(post) == artifact_name(other),
        download_path(post) == download_path(other),
{
}

/// Different pages are kept at different paths, so no page of a bulk run
/// overwrites another.
pub proof fn lemma_page_paths_differ(a: nat, b: nat)
    requires
        page_file_path(a) == page_file_path(b),
    ensures
        a == b,
{
    let head = "./data/post_page_"@;
    let tail = ".json"@;
    let pa = page_file_path(a);
    let pb = page_file_path(b);
    assert(pa.len() == head.len() + decimal(a).len() + tail.len());
    assert(pb.len() == head.len() + decimal(b).len() + tail.len());
    assert(decimal(a) =~= pa.subrange(head.len() as int, (head.len() + decimal(a).len()) as int));
    assert(decimal(b) =~= pb.subrange(head.len() as int, (head.len() + decimal(b).len()) as int));
    lemma_decimal_injective(a, b);
}

/// Computes the contributor label of a post.
pub fn parse_artists(tags: &Tags) -> (label: String)
    ensures
        label@ == contributor_label(tags@.artist),
        tags@.artist.len() == 0 ==> label@ == "unknown-artist"@,
        tags@.artist.len() == 1 ==> label@ == tags@.artist[0],
        tags@.artist.len() > 1 ==> label@ == join(tags@.artist, ", "@),
{
    let n: usize = tags.artist.len();
    if n == 0 {
        String::from_str("unknown-artist")
    } else if n == 1 {
        tags.artist[0].clone()
    } else {
        join_strings(&tags.artist, ", ")
    }
}

/// Computes the file name of a post.
pub fn file_name(post: &Post) -> (name: String)
    ensures
        name@ == artifact_name(post@),
{
    let mut name: String = parse_artists(&post.tags);
    name.append("-");
    name.append(u64_to_string(post.id).as_str());
    name.append(".");
    name.append(post.file.ext.as_str());
    name
}

/// Computes where a post is downloaded to.
pub fn file_path(post: &Post) -> (path: String)
    ensures
        path@ == download_path(post@),
{
    let name: String = file_name(post);
    String::from_str("./dl/").concat(name.as_str())
}

/// Computes where the page with the given number is kept.
pub fn page_path(number: u64) -> (path: String)
    ensures
        path@ == page_file_path(number as nat),
{
    let mut path: String = String::from_str("./data/post_page_");
    path.append(u64_to_string(number).as_str());
    path.append(".json");
    path
}

/// Picks the first present candidate of a list.
pub fn first_candidate(urls: &Vec<Option<String>>) -> (url: Option<String>)
    ensures
        url.deep_view() == first_present(urls.deep_view()),
{
    let ghost all = urls.deep_view();
    let mut i: usize = 0;
    assert(all.skip(0) =~= all);
    while i < urls.len()
        invariant
            i <= urls.len(),
            all == urls.deep_view(),
            all.len() == urls.len(),
            first_present(all) == first_present(all.skip(i as int)),
        decreases urls.len() - i,
    {
        let ghost rest = all.skip(i as int);
        assert(rest.drop_first() =~= all.skip(i as int + 1));
        match &urls[i] {
            Some(url) => {
                return Some(url.clone());
            },
            None => {},
        }
        i = i + 1;
    }
    None
}

/// Chooses the URL to fetch when reduced quality is preferred.
pub fn lower_quality_dl(post: &Post) -> (url: Option<String>)
    ensures
        url.deep_view() == reduced_source(post@),
        !post@.sample.has ==> url.deep_view() == post@.file.url,
{
    if !post.sample.has {
        post.file.url.clone()
    } else {
        match &post.sample.alternates.lower_quality {
            Some(variant) => {
                if variant.media_type == String::from_str("video") {
                    first_candidate(&variant.urls)
                } else {
                    post.sample.url.clone()
                }
            },
            None => post.sample.url.clone(),
        }
    }
}

/// Chooses the URL to fetch for a post under a quality preference.
pub fn resolve(post: &Post, lower_quality: bool) -> (url: Option<String>)
    ensures
        url.deep_view() == source_url(post@, lower_quality),
        url is None <==> source_url(post@, lower_quality) is None,
{
    if lower_quality {
        lower_quality_dl(post)
    } else {
        post.file.url.clone()
    }
}

} // verus!
