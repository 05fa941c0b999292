//! Where the files of a note live: the name of each file, its place under
//! the served directory, and the address under which it is served.

use vstd::arithmetic::power::pow;
use vstd::prelude::*;

verus! {

/// Makes `url::Url` known: a parsed address, carried as it is.
#[verifier::external_type_specification]
#[verifier::external_body]
pub struct ExUrl(url::Url);

/// Makes `url::ParseError` known: why a text is no address, carried as it is.
#[verifier::external_type_specification]
#[verifier::external_body]
pub struct ExParseError(url::ParseError);

/// The serialization that a `url::Url` holds.
pub uninterp spec fn url_text(u: url::Url) -> Seq<char>;

/// What `url::Url::parse` makes of a text: the serialization of the parsed
/// address, or nothing where the text is no absolute address.
pub uninterp spec fn url_parse(input: Seq<char>) -> Option<Seq<char>>;

/// What `url::Url::join` makes of a reference read against a base address,
/// both as texts: the serialization of the resolved address, or nothing
/// where the reference cannot be resolved.
pub uninterp spec fn url_join(base: Seq<char>, reference: Seq<char>) -> Option<Seq<char>>;

/// Calls `url::Url::parse`. The result is the one that `url_parse` names:
/// a failure exactly where `url_parse` gives nothing, else an address whose
/// serialization is the named text.
#[verifier::external_body]
fn parse_url(input: &str) -> (r: Result<url::Url, url::ParseError>)
    ensures
        match r {
            Ok(u) => url_parse(input@) == Some(url_text(u)),
            Err(_) => url_parse(input@) is None,
        },
{
    url::Url::parse(input)
}

/// Calls `url::Url::join` on a base address. The result is the one that
/// `url_join` names for the base's serialization and the reference.
#[verifier::external_body]
fn join_url(base: &url::Url, reference: &str) -> (r: Result<url::Url, url::ParseError>)
    ensures
        match r {
            Ok(u) => url_join(url_text(*base), reference@) == Some(url_text(u)),
            Err(_) => url_join(url_text(*base), reference@) is None,
        },
{
    base.join(reference)
}

/// Calls `url::Url::as_str` and copies the text, which is the address's
/// serialization.
#[verifier::external_body]
fn url_string(u: &url::Url) -> (text: String)
    ensures
        text@ == url_text(*u),
{
    u.as_str().to_string()
}

/// `Url`'s `Clone` is derived: the copy holds the same serialization.
pub assume_specification[ <url::Url as Clone>::clone ](u: &url::Url) -> (r: url::Url)
    ensures
        url_text(r) == url_text(*u),
;

/// The lower-case hexadecimal digit for a number below sixteen.
pub open spec fn hex_char(d: nat) -> char
    recommends
        d < 16,
{
    if d < 10 {
        ('0' as nat + d) as char
    } else {
        ('a' as nat + d - 10) as char
    }
}

/// The hexadecimal digit of `id` at place `k`, counted from the left among
/// its thirty-two.
pub open spec fn hex_digit_at(id: u128, k: int) -> nat
    recommends
        0 <= k < 32,
{
    ((id as int / pow(16, (31 - k) as nat)) % 16) as nat
}

/// An identifier in its usual written form: thirty-two lower-case
/// hexadecimal digits in groups of 8, 4, 4, 4 and 12, with hyphens between.
pub open spec fn hyphenated(id: u128) -> Seq<char> {
    Seq::new(
        36,
        |i: int|
            if i == 8 || i == 13 || i == 18 || i == 23 {
                '-'
            } else if i < 8 {
                hex_char(hex_digit_at(id, i))
            } else if i < 13 {
                hex_char(hex_digit_at(id, i - 1))
            } else if i < 18 {
                hex_char(hex_digit_at(id, i - 2))
            } else if i < 23 {
                hex_char(hex_digit_at(id, i - 3))
            } else {
                hex_char(hex_digit_at(id, i - 4))
            },
    )
}

/// Formats the `uuid::Uuid` with the value `id` through its `Display`,
/// which writes the hyphenated lower-case form.
#[verifier::external_body]
fn uuid_string(id: u128) -> (text: String)
    ensures
        text@ == hyphenated(id),
{
    uuid::Uuid::from_u128(id).to_string()
}

/// The name of a note's document file.
pub open spec fn note_file_name_text(id: u128) -> Seq<char> {
    hyphenated(id) + ".pdf"@
}

/// The name of a note's preview image.
pub open spec fn preview_file_name_text(id: u128) -> Seq<char> {
    hyphenated(id) + ".jpg"@
}

/// The name of a note's document file: its identifier and `.pdf`.
pub fn note_file_name(id: u128) -> (name: String)
    ensures
        name@ == note_file_name_text(id),
{
    let mut name = uuid_string(id);
    name.append(".pdf");
    name
}

/// The name of a note's preview image: its identifier and `.jpg`.
pub fn preview_file_name(id: u128) -> (name: String)
    ensures
        name@ == preview_file_name_text(id),
{
    let mut name = uuid_string(id);
    name.append(".jpg");
    name
}

/// A name adjoined to a directory, as a Unix path is: a name that starts at
/// the root stands alone, and one separator stands between the two parts
/// unless the directory is empty or ends in one.
pub open spec fn joined_path(base: Seq<char>, name: Seq<char>) -> Seq<char> {
    if name.len() > 0 && name[0] == '/' {
        name
    } else if base.len() == 0 {
        name
    } else if base.last() == '/' {
        base + name
    } else {
        base + seq!['/'] + name
    }
}

/// Adjoins `name` to the directory `base`.
pub fn join_path(base: &str, name: &str) -> (path: String)
    ensures
        path@ == joined_path(base@, name@),
{
    let name_len: usize = name.unicode_len();
    if name_len > 0 && name.get_char(0) == '/' {
        return String::from_str(name);
    }
    let base_len: usize = base.unicode_len();
    if base_len == 0 {
        return String::from_str(name);
    }
    let mut path = String::from_str(base);
    if base.get_char(base_len - 1) != '/' {
        proof {
            reveal_strlit("/");
        }
        path.append("/");
        assert(path@ =~= base@ + seq!['/']);
    }
    path.append(name);
    path
}

/// Why a set of paths could not be made.
#[derive(Clone, Copy, Debug, PartialEq, Eq)]
pub enum PathError {
    /// The address is not one that files can be served under.
    InvalidUrl,
}

/// The paths and the address needed to place and to name any note's files.
#[derive(Clone)]
pub struct Paths {
    /// Address of the static files server.
    static_files_url: url::Url,
    /// The directory that the static files server serves.
    static_files_path: String,
    /// The directory of the uploaded documents on this machine.
    notes_system_path: String,
    /// The same directory relative to what is served.
    notes_path_slug: String,
    /// The directory of the preview images on this machine.
    previews_system_path: String,
    /// The same directory relative to what is served.
    previews_path_slug: String,
    /// Where logs are kept.
    log_location: String,
}

/// What a `Paths` holds, as texts.
pub struct PathsView {
    pub static_files_url: Seq<char>,
    pub static_files_path: Seq<char>,
    pub notes_system_path: Seq<char>,
    pub notes_path_slug: Seq<char>,
    pub previews_system_path: Seq<char>,
    pub previews_path_slug: Seq<char>,
    pub log_location: Seq<char>,
}

impl View for Paths {
    type V = PathsView;

    closed spec fn view(&self) -> PathsView {
        PathsView {
            static_files_url: url_text(self.static_files_url),
            static_files_path: self.static_files_path@,
            notes_system_path: self.notes_system_path@,
            notes_path_slug: self.notes_path_slug@,
            previews_system_path: self.previews_system_path@,
            previews_path_slug: self.previews_path_slug@,
            log_location: self.log_location@,
        }
    }
}

impl PathsView {
    /// The paths laid out under a served directory, for a parsed address.
    pub open spec fn layout(
        url: Seq<char>,
        static_files_path: Seq<char>,
        notes_relative_path: Seq<char>,
        previews_relative_path: Seq<char>,
    ) -> PathsView {
        PathsView {
            static_files_url: url,
            static_files_path,
            notes_system_path: joined_path(static_files_path, notes_relative_path),
            notes_path_slug: notes_relative_path,
            previews_system_path: joined_path(static_files_path, previews_relative_path),
            previews_path_slug: previews_relative_path,
            log_location: joined_path(static_files_path, "logs"@),
        }
    }

    /// The address of a file served under `slug`, where there is one.
    pub open spec fn url_from_slug(self, slug: Seq<char>) -> Option<Seq<char>> {
        url_join(self.static_files_url, slug)
    }

    /// Where a document is served, relative to the server's root.
    pub open spec fn note_slug(self, filename: Seq<char>) -> Seq<char> {
        joined_path(self.notes_path_slug, filename)
    }

    /// Where a document lies on this machine.
    pub open spec fn note_path(self, filename: Seq<char>) -> Seq<char> {
        joined_path(self.notes_system_path, filename)
    }

    /// Where a preview image is served, relative to the server's root.
    pub open spec fn preview_slug(self, filename: Seq<char>) -> Seq<char> {
        joined_path(self.previews_path_slug, filename)
    }

    /// Where a preview image lies on this machine.
    pub open spec fn preview_path(self, filename: Seq<char>) -> Seq<char> {
        joined_path(self.previews_system_path, filename)
    }
}

impl Paths {
    /// Lays out the paths for notes and previews under the served directory
    /// `static_file_storage_location`, which the caller gives as an absolute
    /// path, and checks the server's address. The two relative paths are
    /// taken relative to the served directory.
    pub fn new(
        static_files_url: &str,
        static_file_storage_location: &str,
        notes_relative_path: &str,
        previews_relative_path: &str,
    ) -> (r: Result<Paths, PathError>)
        ensures
            match r {
                Ok(paths) => url_parse(static_files_url@) is Some && paths@ == PathsView::layout(
                    url_parse(static_files_url@)->0,
                    static_file_storage_location@,
                    notes_relative_path@,
                    previews_relative_path@,
                ),
                Err(e) => url_parse(static_files_url@) is None && e == PathError::InvalidUrl,
            },
    {
        match parse_url(static_files_url) {
            Ok(url) => Ok(
                Paths {
                    static_files_url: url,
                    static_files_path: String::from_str(static_file_storage_location),
                    notes_system_path: join_path(static_file_storage_location, notes_relative_path),
                    notes_path_slug: String::from_str(notes_relative_path),
                    previews_system_path: join_path(
                        static_file_storage_location,
                        previews_relative_path,
                    ),
                    previews_path_slug: String::from_str(previews_relative_path),
                    log_location: join_path(static_file_storage_location, "logs"),
                },
            ),
            Err(_) => Err(PathError::InvalidUrl),
        }
    }

    /// The layout for work on one's own machine.
    pub fn development() -> (r: Result<Paths, PathError>)
        ensures
            match r {
                Ok(paths) => url_parse("http://localhost:3000"@) is Some && paths@
                    == PathsView::layout(
                    url_parse("http://localhost:3000"@)->0,
                    "./static_files"@,
                    "notes/uploaded"@,
                    "notes/previews"@,
                ),
                Err(e) => url_parse("http://localhost:3000"@) is None && e == PathError::InvalidUrl,
            },
    {
        Paths::new("http://localhost:3000", "./static_files", "notes/uploaded", "notes/previews")
    }

    /// A copy of these paths.
    pub fn duplicate(&self) -> (r: Paths)
        ensures
            r@ == self@,
    {
        Paths {
            static_files_url: self.static_files_url.clone(),
            static_files_path: self.static_files_path.clone(),
            notes_system_path: self.notes_system_path.clone(),
            notes_path_slug: self.notes_path_slug.clone(),
            previews_system_path: self.previews_system_path.clone(),
            previews_path_slug: self.previews_path_slug.clone(),
            log_location: self.log_location.clone(),
        }
    }

    // --- Notes ---
    /// Where a document is served, relative to the server's root.
    pub fn get_note_slug(&self, filename: &str) -> (slug: String)
        ensures
            slug@ == self@.note_slug(filename@),
    {
        join_path(self.notes_path_slug.as_str(), filename)
    }

    /// Where a document lies on this machine.
    pub fn get_note_path(&self, filename: &str) -> (path: String)
        ensures
            path@ == self@.note_path(filename@),
    {
        join_path(self.notes_system_path.as_str(), filename)
    }

    /// The address under which a document is served.
    pub fn get_note_url(&self, filename: &str) -> (r: Result<String, PathError>)
        ensures
            match r {
                Ok(url) => self@.url_from_slug(self@.note_slug(filename@)) == Some(url@),
                Err(e) => self@.url_from_slug(self@.note_slug(filename@)) is None && e
                    == PathError::InvalidUrl,
            },
    {
        let slug = self.get_note_slug(filename);
        self.get_url_from_slug(slug.as_str())
    }

    /// The directory of the uploaded documents.
    pub fn get_notes_dir(&self) -> (dir: &str)
        ensures
            dir@ == self@.notes_system_path,
    {
        self.notes_system_path.as_str()
    }

    // --- Preview images ---
    /// Where a preview image is served, relative to the server's root.
    pub fn get_preview_slug(&self, filename: &str) -> (slug: String)
        ensures
            slug@ == self@.preview_slug(filename@),
    {
        join_path(self.previews_path_slug.as_str(), filename)
    }

    /// Where a preview image lies on this machine.
    pub fn get_preview_path(&self, filename: &str) -> (path: String)
        ensures
            path@ == self@.preview_path(filename@),
    {
        join_path(self.previews_system_path.as_str(), filename)
    }

    /// The address under which a preview image is served.
    pub fn get_preview_url(&self, filename: &str) -> (r: Result<String, PathError>)
        ensures
            match r {
                Ok(url) => self@.url_from_slug(self@.preview_slug(filename@)) == Some(url@),
                Err(e) => self@.url_from_slug(self@.preview_slug(filename@)) is None && e
                    == PathError::InvalidUrl,
            },
    {
        let slug = self.get_preview_slug(filename);
        self.get_url_from_slug(slug.as_str())
    }

    /// The directory of the preview images.
    pub fn get_previews_dir(&self) -> (dir: &str)
        ensures
            dir@ == self@.previews_system_path,
    {
        self.previews_system_path.as_str()
    }

    /// Where logs are kept.
    pub fn get_log_location(&self) -> (dir: &str)
        ensures
            dir@ == self@.log_location,
    {
        self.log_location.as_str()
    }

    /// The address of whatever is served under `slug`: the slug read as a
    /// reference against the server's address.
    pub fn get_url_from_slug(&self, slug: &str) -> (r: Result<String, PathError>)
        ensures
            match r {
                Ok(url) => self@.url_from_slug(slug@) == Some(url@),
                Err(e) => self@.url_from_slug(slug@) is None && e == PathError::InvalidUrl,
            },
    {
        match join_url(&self.static_files_url, slug) {
            Ok(url) => Ok(url_string(&url)),
            Err(_) => Err(PathError::InvalidUrl),
        }
    }
}

} // verus!
