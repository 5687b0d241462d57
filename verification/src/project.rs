//! Project directories: the name of a new project's directory, and the
//! decision to delete a directory only inside the projects' base directory.
use vstd::prelude::*;
use crate::models::{project_type_name, ProjectType};
use crate::text::{
    ascii_lower, ascii_lower_char, ascii_text, chars_of, concat3, lowercase, string_from_chars,
    to_lowercase_string,
};
use crate::tools::{
    join_path, joined_path, lexically_within, lexically_within_exec,
};

verus! {

/// Whether `char::is_alphanumeric` holds of a character (Unicode
/// `Alphabetic` or `Numeric`).
pub uninterp spec fn unicode_alphanumeric(c: char) -> bool;

/// Whether a character is a letter or digit: among ASCII characters exactly
/// `0`..`9`, `A`..`Z` and `a`..`z` (as `char::is_ascii_alphanumeric`
/// documents), and otherwise `unicode_alphanumeric`.
pub open spec fn alphanumeric(c: char) -> bool {
    if c <= '\u{7f}' {
        ('0' <= c && c <= '9') || ('A' <= c && c <= 'Z') || ('a' <= c && c <= 'z')
    } else {
        unicode_alphanumeric(c)
    }
}

/// `char::is_alphanumeric`. Of the Unicode tables only the ASCII part is
/// restated (see `alphanumeric`); the result on other characters is named
/// `unicode_alphanumeric`.
#[verifier::external_body]
pub(crate) fn is_alphanumeric(c: char) -> (res: bool)
    ensures
        res == (if c <= '\u{7f}' {
            ('0' <= c && c <= '9') || ('A' <= c && c <= 'Z') || ('a' <= c && c <= 'z')
        } else {
            unicode_alphanumeric(c)
        }),
{
    c.is_alphanumeric()
}

/// A character kept in a directory name as it is; any other becomes `_`.
pub open spec fn kept_char(c: char) -> char {
    if alphanumeric(c) || c == '-' || c == '_' {
        c
    } else {
        '_'
    }
}

/// A project name made safe for a directory: every character other than
/// letters, digits, `-` and `_` replaced by `_`, then lower-cased.
pub open spec fn sanitized(name: Seq<char>) -> Seq<char> {
    lowercase(name.map_values(|c: char| kept_char(c)))
}

/// A project name made safe for a directory name.
pub fn sanitize_name(name: &str) -> (res: String)
    ensures
        res@ == sanitized(name@),
{
    let cs = chars_of(name);
    let mut out: Vec<char> = Vec::new();
    let mut i: usize = 0;
    while i < cs.len()
        invariant
            i <= cs.len(),
            out@ =~= cs@.take(i as int).map_values(|c: char| kept_char(c)),
        decreases cs.len() - i,
    {
        let c = cs[i];
        let k = if is_alphanumeric(c) || c == '-' || c == '_' {
            c
        } else {
            '_'
        };
        out.push(k);
        proof {
            assert(cs@.take(i + 1) =~= cs@.take(i as int).push(c));
        }
        i = i + 1;
    }
    assert(cs@.take(i as int) =~= cs@);
    let mapped = string_from_chars(&out);
    to_lowercase_string(mapped.as_str())
}

/// An ASCII letter or digit.
pub open spec fn ascii_letter_or_digit(c: char) -> bool {
    ('0' <= c && c <= '9') || ('A' <= c && c <= 'Z') || ('a' <= c && c <= 'z')
}

/// A character a sanitized ASCII name is made of: a small letter, a
/// digit, `-` or `_`.
pub open spec fn dir_name_char(c: char) -> bool {
    ('0' <= c && c <= '9') || ('a' <= c && c <= 'z') || c == '-' || c == '_'
}

/// Sanitizing an ASCII name keeps its length; letters and digits stay in
/// place (letters made small), `-` and `_` stay, and every other character
/// becomes `_`; so the result is made of small letters, digits, `-` and
/// `_` only.
pub proof fn lemma_sanitized_name(name: Seq<char>)
    requires
        ascii_text(name),
    ensures
        sanitized(name).len() == name.len(),
        forall|i: int| 0 <= i < name.len() ==> dir_name_char(#[trigger] sanitized(name)[i]),
        forall|i: int|
            0 <= i < name.len() ==> (#[trigger] sanitized(name)[i] == if ascii_letter_or_digit(
                name[i],
            ) || name[i] == '-' || name[i] == '_' {
                ascii_lower_char(name[i])
            } else {
                '_'
            }),
{
    let m = name.map_values(|c: char| kept_char(c));
    assert(ascii_text(m)) by {
        assert forall|i: int| 0 <= i < m.len() implies m[i] <= '\u{7f}' by {
            assert(m[i] == kept_char(name[i]));
        }
    }
    assert(sanitized(name) == ascii_lower(m));
    assert forall|i: int| 0 <= i < name.len() implies dir_name_char(#[trigger] sanitized(name)[i])
        && sanitized(name)[i] == (if ascii_letter_or_digit(name[i]) || name[i] == '-' || name[i]
        == '_' {
        ascii_lower_char(name[i])
    } else {
        '_'
    }) by {
        assert(m[i] == kept_char(name[i]));
        assert(sanitized(name)[i] == ascii_lower_char(m[i]));
        let c = name[i];
        if 'A' <= c && c <= 'Z' {
            assert('a' <= ascii_lower_char(c) && ascii_lower_char(c) <= 'z');
        }
    }
}

/// The directory name of a project: its sanitized name, `_`, and its type.
pub open spec fn project_dir_name(name: Seq<char>, t: ProjectType) -> Seq<char> {
    sanitized(name) + "_"@ + project_type_name(t)
}

/// Manages the directories of projects under one base directory.
#[derive(Debug)]
pub struct ProjectManager<'a> {
    base_dir: &'a str,
}

impl<'a> View for ProjectManager<'a> {
    type V = Seq<char>;

    /// The base directory.
    closed spec fn view(&self) -> Seq<char> {
        self.base_dir@
    }
}

impl<'a> ProjectManager<'a> {
    /// A manager of the projects under `base_dir`.
    pub fn new(base_dir: &'a str) -> (m: ProjectManager<'a>)
        ensures
            m@ == base_dir@,
    {
        ProjectManager { base_dir }
    }

    /// The base directory.
    pub fn base_dir(&self) -> (d: &'a str)
        ensures
            d@ == self@,
    {
        self.base_dir
    }

    /// The name of the directory of a new project.
    pub fn dir_name(&self, name: &str, project_type: ProjectType) -> (s: String)
        ensures
            s@ == project_dir_name(name@, project_type),
    {
        let sanitized = sanitize_name(name);
        let t = project_type.to_string();
        concat3(sanitized.as_str(), "_", t.as_str())
    }

    /// The path of the directory of a new project: the base directory
    /// joined with the project's directory name.
    pub fn project_dir(&self, name: &str, project_type: ProjectType) -> (s: String)
        ensures
            s@ == joined_path(self@, project_dir_name(name@, project_type)),
    {
        let dir = self.dir_name(name, project_type);
        join_path(self.base_dir, dir.as_str())
    }

    /// Whether a project directory is to be deleted: only when it exists
    /// and `within_base` says it lies under the base directory.
    pub fn may_delete(exists: bool, within_base: bool) -> (go: bool)
        ensures
            go == (exists && within_base),
    {
        exists && within_base
    }

    /// Whether the directory at `path` is to be deleted, given whether it
    /// exists: only when, with `.` and `..` resolved, it lies under the
    /// base directory, so nothing outside the projects' base directory is
    /// ever removed.
    pub fn should_delete(&self, path: &str, exists: bool) -> (go: bool)
        ensures
            go == (exists && lexically_within(path@, self@)),
    {
        let within = lexically_within_exec(path, self.base_dir);
        Self::may_delete(exists, within)
    }
}

} // verus!
