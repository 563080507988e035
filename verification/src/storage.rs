//! Where a page is stored: the file name that a URL gives, the path of the
//! file below the output root, and the directory that holds the pages found
//! through it.

use vstd::prelude::*;
use vstd::string::*;
use crate::task::text_of;
use crate::text::{
    ends_with, last_index_of, rfind, sanitize, sanitized, trim_end_slashes, trim_slashes, trimmed,
    trimmed_end,
};

verus! {

/// The longest file name, in characters, that is kept as it is.
pub const MAX_NAME_LEN: usize = 200;

/// The host and the path that `url::Url::parse` finds in `url`: what
/// `Url::host_str` and `Url::path` return, or, where it rejects `url`, the
/// text of its error.
pub uninterp spec fn url_parts(url: Seq<char>) -> Result<
    (Option<Seq<char>>, Seq<char>),
    Seq<char>,
>;

/// The value of what [`split_url`] returns.
pub open spec fn parts_text(parts: Result<(Option<String>, String), String>) -> Result<
    (Option<Seq<char>>, Seq<char>),
    Seq<char>,
> {
    match parts {
        Ok((Some(host), path)) => Ok((Some(host@), path@)),
        Ok((None, path)) => Ok((None, path@)),
        Err(reason) => Err(reason@),
    }
}

/// Whether `s` holds no slash.
pub open spec fn has_no_slash(s: Seq<char>) -> bool {
    forall|i: int| 0 <= i < s.len() ==> s[i] != '/'
}

/// Parses `url` with `url::Url::parse` and, where that succeeds, reads the host
/// with `Url::host_str` and the path with `Url::path`; where it fails, takes
/// the text of the error. The contract gives the outcome its name,
/// [`url_parts`]: it is a function of the text of `url`. It also claims that
/// a host holds no slash: the parser rejects one in an opaque host and in a
/// domain, and an address is written without one.
#[verifier::external_body]
pub(crate) fn split_url(url: &str) -> (parts: Result<(Option<String>, String), String>)
    ensures
        parts_text(parts) == url_parts(url@),
        match parts {
            Ok((Some(host), _)) => has_no_slash(host@),
            _ => true,
        },
{
    match url::Url::parse(url) {
        Ok(parsed) => Ok((parsed.host_str().map(String::from), String::from(parsed.path()))),
        Err(error) => Err(error.to_string()),
    }
}

/// Why a page has no place in the store.
#[derive(Debug, PartialEq, Eq)]
pub enum StorageError {
    /// The URL is not an absolute URL; `reason` is what the URL parser says.
    InvalidUrl { reason: String },
    /// The page would be stored outside the base directory.
    OutsideBase,
}

/// The mathematical value of a [`StorageError`].
pub enum StorageFault {
    InvalidUrl { reason: Seq<char> },
    OutsideBase,
}

impl View for StorageError {
    type V = StorageFault;

    open spec fn view(&self) -> StorageFault {
        match *self {
            StorageError::InvalidUrl { reason } => StorageFault::InvalidUrl { reason: reason@ },
            StorageError::OutsideBase => StorageFault::OutsideBase,
        }
    }
}

/// The name before the cap on its length.
pub open spec fn base_name(host: Option<Seq<char>>, path: Seq<char>) -> Seq<char> {
    let h = match host {
        Some(h) => h,
        None => "unknown"@,
    };
    let clean = sanitized(trim_slashes(path));
    if clean.len() == 0 {
        h + ".html"@
    } else if ".html"@.is_suffix_of(clean) || ".htm"@.is_suffix_of(clean) {
        clean
    } else {
        h + "_"@ + clean + ".html"@
    }
}

/// The file name of the page at a URL with this host and path: the host alone
/// for a root path, the sanitized path where it ends like an HTML file, else
/// host and sanitized path; cut to [`MAX_NAME_LEN`] characters, with the
/// extension put back, where it is longer.
pub open spec fn file_name(host: Option<Seq<char>>, path: Seq<char>) -> Seq<char> {
    let name = base_name(host, path);
    if name.len() > MAX_NAME_LEN {
        name.take(MAX_NAME_LEN as int) + ".html"@
    } else {
        name
    }
}

/// Whether `path` starts at the root of the file system.
pub open spec fn is_absolute(path: Seq<char>) -> bool {
    path.len() > 0 && path[0] == '/'
}

/// The path, relative to the output root, of a file `name` in `parent`: the
/// name alone where there is no parent directory or an empty one, else the
/// directory, one slash between the two, and the name.
pub open spec fn relative_path(parent: Option<Seq<char>>, name: Seq<char>) -> Seq<char> {
    match parent {
        Some(dir) => if dir.len() == 0 {
            name
        } else if dir.last() == '/' {
            dir + name
        } else {
            dir + "/"@ + name
        },
        None => name,
    }
}

/// Whether a file `name` in `parent` would lie outside the base directory.
pub open spec fn leaves_base(parent: Option<Seq<char>>, name: Seq<char>) -> bool {
    is_absolute(name) || match parent {
        Some(dir) => is_absolute(dir),
        None => false,
    }
}

/// The stored path of `url` under `parent`, given what the URL parser finds in
/// `url`.
pub open spec fn stored_path(
    parts: Result<(Option<Seq<char>>, Seq<char>), Seq<char>>,
    parent: Option<Seq<char>>,
) -> Result<Seq<char>, StorageFault> {
    match parts {
        Ok((host, path)) => if leaves_base(parent, file_name(host, path)) {
            Err(StorageFault::OutsideBase)
        } else {
            Ok(relative_path(parent, file_name(host, path)))
        },
        Err(reason) => Err(StorageFault::InvalidUrl { reason }),
    }
}

/// The value of what [`Storage::page_path`] returns.
pub open spec fn path_text(path: Result<String, StorageError>) -> Result<Seq<char>, StorageFault> {
    match path {
        Ok(p) => Ok(p@),
        Err(e) => Err(e@),
    }
}

/// Where the file name of the stored path `saved` starts.
pub open spec fn name_start(saved: Seq<char>) -> int {
    last_index_of(saved, '/') + 1
}

/// The path `saved` without the extension of its file name. A file name
/// without a dot after its first character has no extension; an empty path
/// gives `links`.
pub open spec fn without_extension(saved: Seq<char>) -> Seq<char> {
    let start = name_start(saved);
    let dot = last_index_of(saved.skip(start), '.');
    if saved.len() == start {
        "links"@
    } else if dot > 0 {
        saved.take(start + dot)
    } else {
        saved
    }
}

/// The directory for the pages found through the page stored at `saved`:
/// the path, taken without the slashes at its end, without the extension of
/// its file name.
pub open spec fn child_directory_of(saved: Seq<char>) -> Seq<char> {
    without_extension(trim_end_slashes(saved))
}

/// The view of an optional text.
pub open spec fn opt_text(s: Option<&str>) -> Option<Seq<char>> {
    match s {
        Some(t) => Some(t@),
        None => None,
    }
}

/// The store: pages are kept below its base directory.
pub struct Storage {
    base_path: String,
}

impl Storage {
    /// The text of the base directory.
    pub closed spec fn base(&self) -> Seq<char> {
        self.base_path@
    }

    /// A store below `base_path`.
    pub fn new(base_path: &str) -> (storage: Storage)
        ensures
            storage.base() == base_path@,
    {
        Storage { base_path: String::from_str(base_path) }
    }

    /// The base directory.
    pub fn base_path(&self) -> (base: &str)
        ensures
            base@ == self.base(),
    {
        self.base_path.as_str()
    }

    /// The file name of the page at a URL with this host and path.
    pub fn url_to_filename(host: Option<&str>, path: &str) -> (name: String)
        ensures
            name@ == file_name(opt_text(host), path@),
    {
        let h: &str = match host {
            Some(h) => h,
            None => "unknown",
        };
        let clean = sanitize(trimmed(path));
        let name = if clean.as_str().unicode_len() == 0 {
            String::from_str(h).concat(".html")
        } else if ends_with(clean.as_str(), ".html") || ends_with(clean.as_str(), ".htm") {
            clean
        } else {
            String::from_str(h).concat("_").concat(clean.as_str()).concat(".html")
        };
        assert(name@ == base_name(opt_text(host), path@));
        if name.as_str().unicode_len() > MAX_NAME_LEN {
            String::from_str(name.as_str().substring_char(0, MAX_NAME_LEN)).concat(".html")
        } else {
            name
        }
    }

    /// The path of a file `name` in `parent`, relative to the base directory.
    pub fn join_relative(parent: Option<&str>, name: &str) -> (path: String)
        ensures
            path@ == relative_path(opt_text(parent), name@),
    {
        match parent {
            Some(dir) => {
                let n = dir.unicode_len();
                if n == 0 {
                    String::from_str(name)
                } else if dir.get_char(n - 1) == '/' {
                    String::from_str(dir).concat(name)
                } else {
                    String::from_str(dir).concat("/").concat(name)
                }
            },
            None => String::from_str(name),
        }
    }

    /// Whether `path` starts at the root of the file system.
    pub fn starts_at_root(path: &str) -> (yes: bool)
        ensures
            yes == is_absolute(path@),
    {
        path.unicode_len() > 0 && path.get_char(0) == '/'
    }

    /// The path, relative to the base directory, at which the page of `url` is
    /// stored for a task with this parent directory. Fails with `InvalidUrl`
    /// exactly where `url` is no absolute URL, and else with `OutsideBase`
    /// exactly where the parent directory starts at the root. A path that is
    /// returned is relative, and its file name is a single component.
    pub fn page_path(&self, url: &str, parent: Option<&str>) -> (path: Result<String, StorageError>)
        ensures
            path_text(path) == stored_path(url_parts(url@), opt_text(parent)),
            match path {
                Ok(p) => p@.len() > 0 && !is_absolute(p@),
                Err(e) => true,
            },
            match url_parts(url@) {
                Ok((host, route)) => {
                    &&& has_no_slash(file_name(host, route))
                    &&& leaves_base(opt_text(parent), file_name(host, route)) == match parent {
                        Some(dir) => is_absolute(dir@),
                        None => false,
                    }
                },
                Err(_) => true,
            },
    {
        match split_url(url) {
            Ok((host, route)) => {
                let name = match &host {
                    Some(h) => Self::url_to_filename(Some(h.as_str()), route.as_str()),
                    None => Self::url_to_filename(None, route.as_str()),
                };
                proof {
                    lemma_file_name_is_one_component(text_of(host), route@);
                }
                let outside = match parent {
                    Some(dir) => Self::starts_at_root(dir),
                    None => false,
                };
                if outside || Self::starts_at_root(name.as_str()) {
                    Err(StorageError::OutsideBase)
                } else {
                    Ok(Self::join_relative(parent, name.as_str()))
                }
            },
            Err(reason) => Err(StorageError::InvalidUrl { reason }),
        }
    }

    /// The directory for the pages found through the page stored at `saved`.
    pub fn child_directory(saved: &str) -> (dir: String)
        ensures
            dir@ == child_directory_of(saved@),
    {
        let saved = trimmed_end(saved);
        let n = saved.unicode_len();
        let start: usize = match rfind(saved, '/') {
            Some(i) => i + 1,
            None => 0,
        };
        if start == n {
            return String::from_str("links");
        }
        let name = saved.substring_char(start, n);
        assert(name@ =~= saved@.skip(start as int));
        match rfind(name, '.') {
            Some(dot) => {
                if dot > 0 {
                    let dir = String::from_str(saved.substring_char(0, start + dot));
                    assert(dir@ =~= saved@.take(start + dot));
                    dir
                } else {
                    String::from_str(saved)
                }
            },
            None => String::from_str(saved),
        }
    }
}

/// Path derivation has no hidden input: two paths derived for one URL and one
/// parent directory are the same.
pub proof fn lemma_page_path_deterministic(
    url: Seq<char>,
    parent: Option<Seq<char>>,
    first: Result<Seq<char>, StorageFault>,
    second: Result<Seq<char>, StorageFault>,
)
    requires
        first == stored_path(url_parts(url), parent),
        second == stored_path(url_parts(url), parent),
    ensures
        first == second,
{
}

/// A file name is a single path component: where the host holds no slash, the
/// name holds none, whatever the path.
pub proof fn lemma_file_name_is_one_component(host: Option<Seq<char>>, path: Seq<char>)
    requires
        match host {
            Some(h) => has_no_slash(h),
            None => true,
        },
    ensures
        has_no_slash(file_name(host, path)),
        file_name(host, path).len() > 0,
        file_name(host, path).len() <= MAX_NAME_LEN + 5,
{
    reveal_strlit("unknown");
    reveal_strlit(".html");
    reveal_strlit(".htm");
    reveal_strlit("_");
    let clean = sanitized(trim_slashes(path));
    assert(has_no_slash(clean));
    let name = base_name(host, path);
    assert(has_no_slash(name));
    assert(name.len() > 0);
}

} // verus!
