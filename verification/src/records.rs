//! Records exchanged with the desktop shell, and the engine's error type.
//!
//! [`App`] describes one installed application as the launcher lists it;
//! [`AppCache`] is the cached listing with the directory stamps that
//! decide staleness. [`ContentType`] tags clipboard-history entries.

use vstd::prelude::*;

verus! {

/// The engine's errors.
#[derive(Clone, Debug)]
pub enum AppError {
    /// A clipboard-history request could not be served.
    ClipboardHistory(String),
    /// A platform directory the engine needs could not be found.
    DirectoryNotFound,
    /// No usable input devices were found; the capture backend cannot
    /// start without operator intervention.
    CaptureUnavailable(String),
}

impl AppError {
    /// A short description of the error.
    pub fn message(&self) -> (r: String)
        ensures
            (match self {
                AppError::ClipboardHistory(m) => r@ == m@,
                AppError::DirectoryNotFound => r@ == "directory not found"@,
                AppError::CaptureUnavailable(m) => r@ == m@,
            }),
    {
        match self {
            AppError::ClipboardHistory(m) => m.clone(),
            AppError::DirectoryNotFound => String::from_str("directory not found"),
            AppError::CaptureUnavailable(m) => m.clone(),
        }
    }
}

/// One installed application as the launcher lists it.
#[derive(Clone, Debug)]
pub struct App {
    pub name: String,
    pub comment: Option<String>,
    pub exec_command: Option<String>,
    pub icon_path: Option<String>,
}

impl App {
    /// An application with a name and nothing else yet.
    pub fn new(name: String) -> (r: App)
        ensures
            r.name@ == name@,
            r.comment is None,
            r.exec_command is None,
            r.icon_path is None,
    {
        App { name, comment: None, exec_command: None, icon_path: None }
    }

    /// The same application with its comment replaced.
    pub fn with_comment(self, comment: Option<String>) -> (r: App)
        ensures
            r.name == self.name,
            r.comment == comment,
            r.exec_command == self.exec_command,
            r.icon_path == self.icon_path,
    {
        App { comment, ..self }
    }

    /// The same application with its launch command replaced.
    pub fn with_exec(self, exec_command: Option<String>) -> (r: App)
        ensures
            r.name == self.name,
            r.comment == self.comment,
            r.exec_command == exec_command,
            r.icon_path == self.icon_path,
    {
        App { exec_command, ..self }
    }

    /// The same application with its icon path replaced.
    pub fn with_icon_path(self, icon_path: Option<String>) -> (r: App)
        ensures
            r.name == self.name,
            r.comment == self.comment,
            r.exec_command == self.exec_command,
            r.icon_path == icon_path,
    {
        App { icon_path, ..self }
    }
}

/// One watched directory and the modification time the cache saw for it.
#[derive(Clone, Debug)]
pub struct DirStamp {
    pub path: String,
    pub modified: i64,
}

/// The cached application listing, with the directory stamps that decide
/// whether it is stale.
pub struct AppCache {
    pub apps: Vec<App>,
    pub dir_stamps: Vec<DirStamp>,
}

/// The cached stamp for a directory path, if the cache has one.
pub open spec fn stamp_lookup(stamps: Seq<DirStamp>, path: Seq<char>) -> Option<int>
    decreases stamps.len(),
{
    if stamps.len() == 0 {
        None
    } else if stamps.first().path@ == path {
        Some(stamps.first().modified as int)
    } else {
        stamp_lookup(stamps.drop_first(), path)
    }
}

/// Whether one observed directory makes the cache stale: it does unless
/// the cache has a stamp for it, the directory still has a modification
/// time, and that time is not newer than the stamp.
pub open spec fn dir_stale(stamps: Seq<DirStamp>, path: Seq<char>, modified: Option<int>) -> bool {
    match (modified, stamp_lookup(stamps, path)) {
        (Some(current), Some(cached)) => current > cached,
        _ => true,
    }
}

/// Whether any observed directory makes the cache stale.
pub open spec fn any_stale(stamps: Seq<DirStamp>, current: Seq<(Seq<char>, Option<int>)>) -> bool {
    exists|i: int|
        0 <= i < current.len() && dir_stale(
            stamps,
            (#[trigger] current[i]).0,
            current[i].1,
        )
}

impl AppCache {
    /// A cache holding the given listing and stamps.
    pub fn new(apps: Vec<App>, dir_stamps: Vec<DirStamp>) -> (r: AppCache)
        ensures
            r.apps == apps,
            r.dir_stamps == dir_stamps,
    {
        AppCache { apps, dir_stamps }
    }

    /// Decides staleness against the directories as they look now, each
    /// with its current modification time if it has one, per
    /// [`any_stale`]: any new, vanished or newer directory invalidates
    /// the cache.
    pub fn is_stale(&self, current: &Vec<DirStamp>, missing: &Vec<String>) -> (r: bool)
        ensures
            r == any_stale(
                self.dir_stamps@,
                current@.map_values(|d: DirStamp| (d.path@, Some(d.modified as int)))
                    + missing@.map_values(|p: String| (p@, None::<int>)),
            ),
    {
        let ghost cv = current@.map_values(|d: DirStamp| (d.path@, Some(d.modified as int)))
            + missing@.map_values(|p: String| (p@, None::<int>));
        if missing.len() > 0 {
            proof {
                let wi = current@.len() as int;
                assert(cv[wi].1 is None);
                assert(dir_stale(self.dir_stamps@, cv[wi].0, cv[wi].1));
            }
            return true;
        }
        let mut i: usize = 0;
        while i < current.len()
            invariant
                i <= current@.len(),
                missing@.len() == 0,
                cv == current@.map_values(|d: DirStamp| (d.path@, Some(d.modified as int)))
                    + missing@.map_values(|p: String| (p@, None::<int>)),
                cv.len() == current@.len(),
                forall|t: int| 0 <= t < i ==> !dir_stale(self.dir_stamps@, (#[trigger] cv[t]).0, cv[t].1),
            decreases current@.len() - i,
        {
            let cached = self.stamp_for(&current[i].path);
            let stale = match cached {
                Some(c) => current[i].modified > c,
                None => true,
            };
            proof {
                assert(cv[i as int] == (current@[i as int].path@, Some(
                    current@[i as int].modified as int,
                )));
            }
            if stale {
                proof {
                    assert(dir_stale(self.dir_stamps@, cv[i as int].0, cv[i as int].1));
                }
                return true;
            }
            i += 1;
        }
        proof {
            assert(!any_stale(self.dir_stamps@, cv));
        }
        false
    }

    /// The cached stamp for a path, per [`stamp_lookup`].
    fn stamp_for(&self, path: &String) -> (r: Option<i64>)
        ensures
            (match r {
                Some(m) => stamp_lookup(self.dir_stamps@, path@) == Some(m as int),
                None => stamp_lookup(self.dir_stamps@, path@) is None,
            }),
    {
        let ghost sv = self.dir_stamps@;
        let mut i: usize = 0;
        proof {
            assert(sv.skip(0) =~= sv);
        }
        while i < self.dir_stamps.len()
            invariant
                i <= sv.len(),
                sv == self.dir_stamps@,
                stamp_lookup(sv, path@) == stamp_lookup(sv.skip(i as int), path@),
            decreases sv.len() - i,
        {
            if self.dir_stamps[i].path == *path {
                return Some(self.dir_stamps[i].modified);
            }
            proof {
                assert(sv.skip(i as int).drop_first() =~= sv.skip(i as int + 1));
            }
            i += 1;
        }
        proof {
            assert(sv.skip(sv.len() as int) =~= Seq::<DirStamp>::empty());
        }
        None
    }
}

/// What kind of content a clipboard-history entry holds.
#[derive(Clone, Debug, PartialEq, Eq, Structural)]
pub enum ContentType {
    Text,
    Image,
    Color,
    Link,
    File,
}

impl ContentType {
    /// The content type a storage tag names; an unknown tag is an error.
    pub fn from_str(s: &str) -> (r: Result<ContentType, AppError>)
        ensures
            (match r {
                Ok(t) => (s@ == "text"@ && t == ContentType::Text) || (s@ == "image"@ && t
                    == ContentType::Image) || (s@ == "color"@ && t == ContentType::Color) || (s@
                    == "link"@ && t == ContentType::Link) || (s@ == "file"@ && t
                    == ContentType::File),
                Err(e) => s@ != "text"@ && s@ != "image"@ && s@ != "color"@ && s@ != "link"@ && s@
                    != "file"@ && e is ClipboardHistory,
            }),
    {
        let o = String::from_str(s);
        if crate::chars::string_eq_lit(&o, "text") {
            Ok(ContentType::Text)
        } else if crate::chars::string_eq_lit(&o, "image") {
            Ok(ContentType::Image)
        } else if crate::chars::string_eq_lit(&o, "color") {
            Ok(ContentType::Color)
        } else if crate::chars::string_eq_lit(&o, "link") {
            Ok(ContentType::Link)
        } else if crate::chars::string_eq_lit(&o, "file") {
            Ok(ContentType::File)
        } else {
            Err(AppError::ClipboardHistory(String::from_str("invalid content type")))
        }
    }

    /// The storage tag of a content type; the inverse of `from_str`.
    pub fn as_str(&self) -> (r: &'static str)
        ensures
            (match self {
                ContentType::Text => r@ == "text"@,
                ContentType::Image => r@ == "image"@,
                ContentType::Color => r@ == "color"@,
                ContentType::Link => r@ == "link"@,
                ContentType::File => r@ == "file"@,
            }),
    {
        match self {
            ContentType::Text => "text",
            ContentType::Image => "image",
            ContentType::Color => "color",
            ContentType::Link => "link",
            ContentType::File => "file",
        }
    }
}

} // verus!