//! Wallpapers from the user's own folders. The application lists the
//! folders' files; this module keeps the images among them.

use vstd::prelude::*;

use super::{views_of, SourceKind, WallpaperInfo, WallpaperView};
use crate::rng;
use crate::text::{lowercase_of, str_eq, to_lowercase};

verus! {

/// Wallpapers from the user's own folders.
pub struct LocalProvider {
    pub folders: Vec<String>,
}

/// A file found in one of the folders: its path, and its file name and
/// extension when they are valid Unicode.
pub struct LocalFile {
    pub path: String,
    pub file_name: Option<String>,
    pub extension: Option<String>,
}

/// The image file extensions taken (compared in lower case).
pub open spec fn is_supported_extension(e: Seq<char>) -> bool {
    e == "jpg"@ || e == "jpeg"@ || e == "png"@ || e == "webp"@ || e == "bmp"@
}

/// Whether a file is taken: its extension, lower-cased, is a supported one.
pub open spec fn is_image_file(f: LocalFile) -> bool {
    is_supported_extension(lowercase_of(match f.extension {
        Some(e) => e@,
        None => ""@,
    }))
}

pub open spec fn local_wallpaper(f: LocalFile) -> WallpaperView {
    WallpaperView {
        source: SourceKind::Local,
        url: ""@,
        title: match f.file_name {
            Some(n) => n@,
            None => "Unknown"@,
        },
        copyright: ""@,
        local_path: Some(f.path@),
    }
}

/// The wallpapers of the image files, in order.
pub open spec fn local_wallpapers(fs: Seq<LocalFile>) -> Seq<WallpaperView>
    decreases fs.len(),
{
    if fs.len() == 0 {
        seq![]
    } else {
        let rest = local_wallpapers(fs.drop_last());
        if is_image_file(fs.last()) { rest.push(local_wallpaper(fs.last())) } else { rest }
    }
}

impl LocalProvider {
    pub fn new(folders: Vec<String>) -> (r: LocalProvider)
        ensures
            r.folders@ == folders@,
    {
        LocalProvider { folders }
    }

    pub fn kind(&self) -> (r: SourceKind)
        ensures
            r == SourceKind::Local,
    {
        SourceKind::Local
    }

    pub fn name(&self) -> (r: &'static str)
        ensures
            r@ == "Local Folders"@,
    {
        "Local Folders"
    }

    /// Whether a lower-cased file extension is one of the image formats
    /// taken.
    pub fn is_supported_extension_name(e: &str) -> (r: bool)
        ensures
            r == is_supported_extension(e@),
    {
        str_eq(e, "jpg") || str_eq(e, "jpeg") || str_eq(e, "png") || str_eq(e, "webp") || str_eq(e, "bmp")
    }

    /// The wallpapers of the image files among `files`, in order.
    pub fn wallpapers(files: Vec<LocalFile>) -> (r: Vec<WallpaperInfo>)
        ensures
            views_of(r@) == local_wallpapers(files@),
    {
        proof {
            reveal_strlit("");
        }
        let mut r: Vec<WallpaperInfo> = Vec::new();
        let mut i: usize = 0;
        while i < files.len()
            invariant
                i <= files@.len(),
                views_of(r@) =~= local_wallpapers(files@.take(i as int)),
            decreases files@.len() - i,
        {
            let f = &files[i];
            assert(files@.take(i as int + 1).drop_last() =~= files@.take(i as int));
            let ext = match &f.extension {
                Some(e) => to_lowercase(e.as_str()),
                None => to_lowercase(""),
            };
            if Self::is_supported_extension_name(ext.as_str()) {
                let w = WallpaperInfo {
                    source: SourceKind::Local,
                    url: String::new(),
                    title: match &f.file_name {
                        Some(n) => n.clone(),
                        None => "Unknown".to_string(),
                    },
                    copyright: String::new(),
                    local_path: Some(f.path.clone()),
                };
                proof {
                    reveal_strlit("");
                    assert(w.url@ =~= ""@);
                    assert(w.copyright@ =~= ""@);
                    assert(w@.title == local_wallpaper(*f).title);
                    assert(w@ == local_wallpaper(*f));
                }
                let ghost before = views_of(r@);
                r.push(w);
                assert(views_of(r@) =~= before.push(local_wallpaper(files@[i as int])));
            }
            i = i + 1;
        }
        assert(files@.take(files@.len() as int) =~= files@);
        r
    }

    /// Up to `count` image files drawn at random, as wallpapers: the images
    /// are shuffled and cut to `count`.
    pub fn select(files: Vec<LocalFile>, count: usize) -> (r: Vec<WallpaperInfo>)
        ensures
            exists|images: Seq<WallpaperInfo>, perm: Seq<WallpaperInfo>|
                #![trigger images.to_multiset(), perm.to_multiset()]
                views_of(images) == local_wallpapers(files@) && perm.len() == images.len()
                    && perm.to_multiset() == images.to_multiset()
                    && r@ == perm.take(if count < perm.len() { count as int } else { perm.len() as int }),
    {
        let mut images = Self::wallpapers(files);
        let ghost base = images@;
        rng::shuffle(&mut images);
        let ghost perm = images@;
        images.truncate(count);
        assert(images@ =~= perm.take(if count < perm.len() { count as int } else { perm.len() as int }));
        assert(views_of(base) == local_wallpapers(files@));
        images
    }
}

} // verus!
