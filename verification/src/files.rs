//! File handling for the download stage: the archive-neutral file metadata
//! built from images, attachments and bare URLs, media-type guessing, and
//! the flat download-request list a post submits to the download workers.

use vstd::prelude::*;
use vstd::string::StrSliceExecFns;
use crate::fanbox::Post;
use crate::fanbox::PostBody;
use crate::fanbox::PostFile;
use crate::fanbox::PostImage;
use crate::fanbox::PostVideo;
use crate::body::spec_video_text;
use crate::strings::spec_split;
use crate::strings::split_char;

verus! {

/// What mime_guess computes for a whole filename: the first guess for its
/// extension, or `application/octet-stream`; a function of the name alone.
pub uninterp spec fn spec_filename_mime(name: Seq<char>) -> Seq<char>;

/// Relies on `mime_guess::MimeGuess::from_path` followed by
/// `first_or_octet_stream`: the guess comes from a static table keyed by the
/// name's extension.
#[verifier::external_body]
fn mime_for_filename(name: &str) -> (r: String)
    ensures
        r@ == spec_filename_mime(name@),
{
    mime_guess::MimeGuess::from_path(name).first_or_octet_stream().to_string()
}

/// What mime_guess computes for a bare extension, with the same fallback.
pub uninterp spec fn spec_extension_mime(ext: Seq<char>) -> Seq<char>;

/// Relies on `mime_guess::MimeGuess::from_ext` followed by
/// `first_or_octet_stream`: the guess comes from a static table.
#[verifier::external_body]
fn mime_for_extension(ext: &str) -> (r: String)
    ensures
        r@ == spec_extension_mime(ext@),
{
    mime_guess::MimeGuess::from_ext(ext).first_or_octet_stream().to_string()
}

/// Whether mime_guess classes an extension as video (with the `text/plain`
/// fallback for unknown extensions, which is never a video).
pub uninterp spec fn spec_video_extension(ext: Seq<char>) -> bool;

/// Relies on `mime_guess::MimeGuess::from_ext`, `first_or_text_plain` and
/// the mime crate's type accessor: whether the guessed top-level type is
/// `video` comes from a static table keyed by the extension.
#[verifier::external_body]
fn extension_is_video(ext: &str) -> (r: bool)
    ensures
        r == spec_video_extension(ext@),
{
    mime_guess::MimeGuess::from_ext(ext).first_or_text_plain().type_() == mime::VIDEO
}

/// Archive-neutral metadata for one file to download: the filename it will
/// carry in the archive, its guessed media type, the source URL, and pixel
/// dimensions when the source is an image.
#[derive(Debug, PartialEq, Eq)]
pub struct FileMeta {
    pub filename: String,
    pub mime: String,
    pub data: String,
    pub width: Option<u32>,
    pub height: Option<u32>,
}

impl Clone for FileMeta {
    fn clone(&self) -> (r: Self)
        ensures
            r == *self,
    {
        FileMeta {
            filename: self.filename.clone(),
            mime: self.mime.clone(),
            data: self.data.clone(),
            width: self.width,
            height: self.height,
        }
    }
}

/// Constructors of the download stage's file metadata, one per source the
/// platform hands out.
pub trait FanboxFileMeta where Self: Sized {
    fn from_url(url: String) -> Self;

    fn from_image(image: PostImage) -> Self;

    fn from_file(file: PostFile) -> Self;
}

/// The filename a bare URL yields: everything after its last slash.
pub open spec fn spec_url_filename(url: Seq<char>) -> Seq<char> {
    spec_split(url, '/').last()
}

impl FanboxFileMeta for FileMeta {
    /// Metadata for a bare URL, such as a cover image: the name is the
    /// URL's last path segment, the media type guessed from it.
    fn from_url(url: String) -> (r: Self)
        ensures
            r.filename@ == spec_url_filename(url@),
            r.mime@ == spec_filename_mime(spec_url_filename(url@)),
            r.data@ == url@,
            r.width is None,
            r.height is None,
    {
        let parts = split_char(url.as_str(), '/');
        proof {
            assert(crate::strings::views(parts@).last() == parts@[parts@.len() - 1]@);
        }
        let filename = parts[parts.len() - 1].clone();
        let mime = mime_for_filename(filename.as_str());
        FileMeta { filename, mime, data: url, width: None, height: None }
    }

    /// Metadata for a post image: `{id}.{extension}`, media type guessed
    /// from the extension, and the pixel dimensions the platform reports.
    fn from_image(image: PostImage) -> (r: Self)
        ensures
            r.filename@ == image.id@ + "."@ + image.extension@,
            r.mime@ == spec_extension_mime(image.extension@),
            r.data@ == image.original_url@,
            r.width == Some(image.width),
            r.height == Some(image.height),
    {
        let filename = image.filename();
        let mime = mime_for_extension(image.extension.as_str());
        FileMeta {
            filename,
            mime,
            data: image.original_url,
            width: Some(image.width),
            height: Some(image.height),
        }
    }

    /// Metadata for a post attachment: `{name}.{extension}`, media type
    /// guessed from the extension.
    fn from_file(file: PostFile) -> (r: Self)
        ensures
            r.filename@ == file.name@ + "."@ + file.extension@,
            r.mime@ == spec_extension_mime(file.extension@),
            r.data@ == file.url@,
            r.width is None,
            r.height is None,
    {
        let filename = file.filename();
        let mime = mime_for_extension(file.extension.as_str());
        FileMeta { filename, mime, data: file.url, width: None, height: None }
    }
}

/// All images a body carries, flat list first, then the side table's
/// entries in table order.
pub open spec fn spec_body_images(body: PostBody) -> Seq<PostImage> {
    (match body.images {
        Some(l) => l@,
        None => Seq::<PostImage>::empty(),
    }) + (match body.image_map {
        Some(m) => m.entries@.map_values(|e: (String, PostImage)| e.1),
        None => Seq::<PostImage>::empty(),
    })
}

/// All attachments a body carries, flat list first, then the side table's
/// entries in table order.
pub open spec fn spec_body_files(body: PostBody) -> Seq<PostFile> {
    (match body.files {
        Some(l) => l@,
        None => Seq::<PostFile>::empty(),
    }) + (match body.file_map {
        Some(m) => m.entries@.map_values(|e: (String, PostFile)| e.1),
        None => Seq::<PostFile>::empty(),
    })
}

/// The view of one file-meta value.
pub open spec fn spec_meta_view(m: FileMeta) -> (
    Seq<char>,
    Seq<char>,
    Seq<char>,
    Option<u32>,
    Option<u32>,
) {
    (m.filename@, m.mime@, m.data@, m.width, m.height)
}

/// The views of a file-meta list.
pub open spec fn meta_views(s: Seq<FileMeta>) -> Seq<
    (Seq<char>, Seq<char>, Seq<char>, Option<u32>, Option<u32>),
> {
    s.map_values(|m: FileMeta| spec_meta_view(m))
}

/// What `from_image` builds, as a view.
pub open spec fn spec_image_meta(im: PostImage) -> (
    Seq<char>,
    Seq<char>,
    Seq<char>,
    Option<u32>,
    Option<u32>,
) {
    (
        im.id@ + "."@ + im.extension@,
        spec_extension_mime(im.extension@),
        im.original_url@,
        Some(im.width),
        Some(im.height),
    )
}

/// What `from_file` builds, as a view.
pub open spec fn spec_file_meta(f: PostFile) -> (
    Seq<char>,
    Seq<char>,
    Seq<char>,
    Option<u32>,
    Option<u32>,
) {
    (f.name@ + "."@ + f.extension@, spec_extension_mime(f.extension@), f.url@, None, None)
}

/// The download metadata of a whole body: every image, then every
/// attachment.
pub open spec fn spec_file_metas(body: PostBody) -> Seq<
    (Seq<char>, Seq<char>, Seq<char>, Option<u32>, Option<u32>),
> {
    spec_body_images(body).map_values(|im: PostImage| spec_image_meta(im)) + spec_body_files(
        body,
    ).map_values(|f: PostFile| spec_file_meta(f))
}

impl PostBody {
    /// All images a body carries: the flat list, then the side table's
    /// entries in table order.
    pub fn images(&self) -> (r: Vec<PostImage>)
        ensures
            r@ == spec_body_images(*self),
    {
        let mut out: Vec<PostImage> = Vec::new();
        let ghost flat: Seq<PostImage> = match &self.images {
            Some(l) => l@,
            None => Seq::empty(),
        };
        match &self.images {
            Some(l) => {
                let mut i: usize = 0;
                while i < l.len()
                    invariant
                        i <= l@.len(),
                        self.images matches Some(x) && x == l,
                        flat == l@,
                        out@ =~= l@.subrange(0, i as int),
                    decreases l@.len() - i,
                {
                    out.push(l[i].clone());
                    i += 1;
                }
                proof {
                    assert(out@ =~= flat);
                }
            },
            None => {
                proof {
                    assert(out@ =~= flat);
                }
            },
        }
        match &self.image_map {
            Some(m) => {
                let mut i: usize = 0;
                proof {
                    let f = |e: (String, PostImage)| e.1;
                    assert(out@ =~= flat + m.entries@.subrange(0, 0).map_values(f));
                }
                while i < m.entries.len()
                    invariant
                        i <= m.entries@.len(),
                        self.image_map matches Some(x) && x == m,
                        out@ == flat + m.entries@.subrange(0, i as int).map_values(
                            |e: (String, PostImage)| e.1,
                        ),
                    decreases m.entries@.len() - i,
                {
                    let ghost before = out@;
                    out.push(m.entries[i].1.clone());
                    proof {
                        let f = |e: (String, PostImage)| e.1;
                        assert(m.entries@.subrange(0, i + 1).map_values(f) =~= m.entries@.subrange(
                            0,
                            i as int,
                        ).map_values(f).push(f(m.entries@[i as int])));
                        assert(out@ =~= flat + m.entries@.subrange(0, i + 1).map_values(f));
                    }
                    i += 1;
                }
                proof {
                    assert(m.entries@.subrange(0, m.entries@.len() as int) =~= m.entries@);
                }
            },
            None => {
                proof {
                    assert(out@ =~= flat + Seq::<PostImage>::empty());
                }
            },
        }
        out
    }

    /// All attachments a body carries: the flat list, then the side table's
    /// entries in table order.
    pub fn files(&self) -> (r: Vec<PostFile>)
        ensures
            r@ == spec_body_files(*self),
    {
        let mut out: Vec<PostFile> = Vec::new();
        let ghost flat: Seq<PostFile> = match &self.files {
            Some(l) => l@,
            None => Seq::empty(),
        };
        match &self.files {
            Some(l) => {
                let mut i: usize = 0;
                while i < l.len()
                    invariant
                        i <= l@.len(),
                        self.files matches Some(x) && x == l,
                        flat == l@,
                        out@ =~= l@.subrange(0, i as int),
                    decreases l@.len() - i,
                {
                    out.push(l[i].clone());
                    i += 1;
                }
                proof {
                    assert(out@ =~= flat);
                }
            },
            None => {
                proof {
                    assert(out@ =~= flat);
                }
            },
        }
        match &self.file_map {
            Some(m) => {
                let mut i: usize = 0;
                proof {
                    let f = |e: (String, PostFile)| e.1;
                    assert(out@ =~= flat + m.entries@.subrange(0, 0).map_values(f));
                }
                while i < m.entries.len()
                    invariant
                        i <= m.entries@.len(),
                        self.file_map matches Some(x) && x == m,
                        out@ == flat + m.entries@.subrange(0, i as int).map_values(
                            |e: (String, PostFile)| e.1,
                        ),
                    decreases m.entries@.len() - i,
                {
                    let ghost before = out@;
                    out.push(m.entries[i].1.clone());
                    proof {
                        let f = |e: (String, PostFile)| e.1;
                        assert(m.entries@.subrange(0, i + 1).map_values(f) =~= m.entries@.subrange(
                            0,
                            i as int,
                        ).map_values(f).push(f(m.entries@[i as int])));
                        assert(out@ =~= flat + m.entries@.subrange(0, i + 1).map_values(f));
                    }
                    i += 1;
                }
                proof {
                    assert(m.entries@.subrange(0, m.entries@.len() as int) =~= m.entries@);
                }
            },
            None => {
                proof {
                    assert(out@ =~= flat + Seq::<PostFile>::empty());
                }
            },
        }
        out
    }

    /// The download metadata for everything this body references: every
    /// image converted by `from_image`, then every attachment converted by
    /// `from_file`.
    pub fn file_metas(&self) -> (r: Vec<FileMeta>)
        ensures
            meta_views(r@) == spec_file_metas(*self),
    {
        let images = self.images();
        let files = self.files();
        let mut out: Vec<FileMeta> = Vec::new();
        let ghost ipart = spec_body_images(*self).map_values(|im: PostImage| spec_image_meta(im));
        let mut i: usize = 0;
        proof {
            assert(meta_views(out@) =~= ipart.subrange(0, 0));
        }
        while i < images.len()
            invariant
                i <= images@.len(),
                images@ == spec_body_images(*self),
                ipart == spec_body_images(*self).map_values(|im: PostImage| spec_image_meta(im)),
                meta_views(out@) == ipart.subrange(0, i as int),
            decreases images@.len() - i,
        {
            let ghost before = out@;
            let meta = FileMeta::from_image(images[i].clone());
            proof {
                assert(spec_meta_view(meta) == spec_image_meta(images@[i as int]));
                assert(meta_views(before.push(meta)) =~= meta_views(before).push(
                    spec_meta_view(meta),
                ));
                assert(ipart.subrange(0, i + 1) =~= ipart.subrange(0, i as int).push(
                    ipart[i as int],
                ));
            }
            out.push(meta);
            i += 1;
        }
        proof {
            assert(ipart.subrange(0, ipart.len() as int) =~= ipart);
        }
        let ghost fpart = spec_body_files(*self).map_values(|f: PostFile| spec_file_meta(f));
        let mut j: usize = 0;
        proof {
            assert(meta_views(out@) =~= ipart + fpart.subrange(0, 0));
        }
        while j < files.len()
            invariant
                j <= files@.len(),
                files@ == spec_body_files(*self),
                ipart == spec_body_images(*self).map_values(|im: PostImage| spec_image_meta(im)),
                fpart == spec_body_files(*self).map_values(|f: PostFile| spec_file_meta(f)),
                meta_views(out@) == ipart + fpart.subrange(0, j as int),
            decreases files@.len() - j,
        {
            let ghost before = out@;
            let meta = FileMeta::from_file(files[j].clone());
            proof {
                assert(spec_meta_view(meta) == spec_file_meta(files@[j as int]));
                assert(meta_views(before.push(meta)) =~= meta_views(before).push(
                    spec_meta_view(meta),
                ));
                assert(fpart.subrange(0, j + 1) =~= fpart.subrange(0, j as int).push(
                    fpart[j as int],
                ));
                assert(ipart + fpart.subrange(0, j + 1) =~= (ipart + fpart.subrange(
                    0,
                    j as int,
                )).push(fpart[j as int]));
            }
            out.push(meta);
            j += 1;
        }
        proof {
            assert(fpart.subrange(0, fpart.len() as int) =~= fpart);
            assert(meta_views(out@) =~= spec_file_metas(*self));
        }
        out
    }

    /// Whether an extension names a video format.
    pub fn is_video(extension: &str) -> (r: bool)
        ensures
            r == spec_video_extension(extension@),
    {
        extension_is_video(extension)
    }

    /// The renderings of the known-provider external videos, in order.
    pub fn web_videos(&self) -> (r: Vec<String>)
        ensures
            crate::strings::views(r@) == spec_web_videos(
                match self.videos {
                    Some(l) => l@,
                    None => Seq::<PostVideo>::empty(),
                },
            ),
    {
        let mut out: Vec<String> = Vec::new();
        match &self.videos {
            None => {
                proof {
                    assert(crate::strings::views(out@) =~= spec_web_videos(
                        Seq::<PostVideo>::empty(),
                    ));
                }
            },
            Some(vids) => {
                let mut i: usize = 0;
                proof {
                    assert(vids@.take(0) =~= Seq::<PostVideo>::empty());
                    assert(crate::strings::views(out@) =~= spec_web_videos(vids@.take(0)));
                }
                while i < vids.len()
                    invariant
                        i <= vids@.len(),
                        self.videos matches Some(l) && l == vids,
                        crate::strings::views(out@) == spec_web_videos(vids@.take(i as int)),
                    decreases vids@.len() - i,
                {
                    let ghost before = out@;
                    proof {
                        assert(vids@.take(i + 1).drop_last() =~= vids@.take(i as int));
                        assert(vids@.take(i + 1).last() == vids@[i as int]);
                    }
                    match vids[i].to_text() {
                        Some(t) => {
                            proof {
                                assert(crate::strings::views(before.push(t)) =~=
                                    crate::strings::views(before).push(t@));
                            }
                            out.push(t);
                        },
                        None => {},
                    }
                    i += 1;
                }
                proof {
                    assert(vids@.take(vids@.len() as int) =~= vids@);
                }
            },
        }
        out
    }
}

/// The texts of the known-provider videos among `vs`.
pub open spec fn spec_web_videos(vs: Seq<PostVideo>) -> Seq<Seq<char>>
    decreases vs.len(),
{
    if vs.len() == 0 {
        Seq::empty()
    } else {
        let prev = spec_web_videos(vs.drop_last());
        match spec_video_text(vs.last()) {
            Some(t) => prev.push(t),
            None => prev,
        }
    }
}

/// A file as the archive store places it: a final path and a filename,
/// video formats distinguished from plain files.
#[derive(Debug, PartialEq, Eq)]
pub enum ArchiveFile {
    Video { path: String, filename: String },
    File { path: String, filename: String },
}

impl PostBody {
    /// Classify a downloaded attachment by its extension into the archive's
    /// video or plain-file kind; the filename is the path's last segment.
    pub fn parse_video_or_file(file: &PostFile, path: String) -> (r: ArchiveFile)
        ensures
            spec_video_extension(file.extension@) ==> (r matches ArchiveFile::Video {
                path: p,
                filename: f,
            } && p@ == path@ && f@ == spec_split(path@, '/').last()),
            !spec_video_extension(file.extension@) ==> (r matches ArchiveFile::File {
                path: p,
                filename: f,
            } && p@ == path@ && f@ == spec_split(path@, '/').last()),
    {
        let parts = split_char(path.as_str(), '/');
        proof {
            assert(crate::strings::views(parts@).last() == parts@[parts@.len() - 1]@);
        }
        let filename = parts[parts.len() - 1].clone();
        if Self::is_video(file.extension.as_str()) {
            ArchiveFile::Video { path, filename }
        } else {
            ArchiveFile::File { path, filename }
        }
    }
}

/// The URLs one post needs downloaded: the URL of every image and file the
/// body references, then the cover image URL when present.
pub open spec fn spec_download_urls(post: Post) -> Seq<Seq<char>> {
    let urls = spec_file_metas(post.body->0).map_values(
        |m: (Seq<char>, Seq<char>, Seq<char>, Option<u32>, Option<u32>)| m.2,
    );
    match post.cover_image_url {
        Some(u) => urls.push(u@),
        None => urls,
    }
}

/// The download-request URL list for one post: every referenced file's URL,
/// then the cover image's URL when there is one.
pub fn collect_download_urls(post: &Post) -> (r: Vec<String>)
    requires
        post.body is Some,
    ensures
        crate::strings::views(r@) == spec_download_urls(*post),
{
    let body = post.body();
    let metas = body.file_metas();
    let ghost data_of = |m: (Seq<char>, Seq<char>, Seq<char>, Option<u32>, Option<u32>)| m.2;
    let ghost urls = spec_file_metas(post.body->0).map_values(data_of);
    let mut out: Vec<String> = Vec::new();
    let mut i: usize = 0;
    proof {
        assert(crate::strings::views(out@) =~= urls.subrange(0, 0));
    }
    while i < metas.len()
        invariant
            i <= metas@.len(),
            meta_views(metas@) == spec_file_metas(post.body->0),
            urls == spec_file_metas(post.body->0).map_values(data_of),
            data_of == (|m: (Seq<char>, Seq<char>, Seq<char>, Option<u32>, Option<u32>)| m.2),
            crate::strings::views(out@) == urls.subrange(0, i as int),
        decreases metas@.len() - i,
    {
        let ghost before = out@;
        let u = metas[i].data.clone();
        proof {
            assert(u@ == meta_views(metas@)[i as int].2);
            assert(urls[i as int] == meta_views(metas@)[i as int].2);
            assert(crate::strings::views(before.push(u)) =~= crate::strings::views(before).push(
                u@,
            ));
            assert(urls.subrange(0, i + 1) =~= urls.subrange(0, i as int).push(urls[i as int]));
        }
        out.push(u);
        i += 1;
    }
    proof {
        assert(urls.subrange(0, urls.len() as int) =~= urls);
    }
    match &post.cover_image_url {
        Some(u) => {
            let ghost before = out@;
            out.push(u.clone());
            proof {
                assert(crate::strings::views(out@) =~= crate::strings::views(before).push(u@));
                assert(crate::strings::views(out@) =~= spec_download_urls(*post));
            }
        },
        None => {
            proof {
                assert(crate::strings::views(out@) =~= spec_download_urls(*post));
            }
        },
    }
    out
}

} // verus!
