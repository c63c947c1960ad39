use vstd::prelude::*;
use vstd::string::*;

verus! {

/// The settings of the editor: where CDDA is installed and which tileset to use.
#[derive(Debug)]
pub struct Settings {
    pub selected_cdda_dir: Option<String>,
    pub selectable_tilesets: Vec<String>,
    pub selected_tileset: Option<String>,
}

impl Default for Settings {
    fn default() -> (r: Self)
        ensures
            r.selected_cdda_dir is None,
            r.selectable_tilesets@.len() == 0,
            r.selected_tileset is None,
    {
        Self { selected_cdda_dir: None, selectable_tilesets: Vec::new(), selected_tileset: None }
    }
}

/// A path separator on some platform: `/` everywhere, `\` on Windows.
pub open spec fn is_separator_char(c: char) -> bool {
    c == '/' || c == '\\'
}

/// A path that `Path::join` appends rather than lets replace the base: it starts
/// with no separator and holds no `:` (so it has no root and no Windows prefix).
pub open spec fn is_plain_relative(p: Seq<char>) -> bool {
    (p.len() == 0 || !is_separator_char(p[0])) && !p.contains(':')
}

/// A base that `Path::join` extends as it is: it does not start with two
/// separators (so it has no Windows verbatim, device or network prefix).
pub open spec fn is_plain_base(b: Seq<char>) -> bool {
    !(b.len() >= 2 && is_separator_char(b[0]) && is_separator_char(b[1]))
}

/// `r` is `rest` joined to the plain base `base`: `rest` alone after an empty base;
/// after a bare Windows drive such as `C:` appended, or after a separator where the
/// base is no drive; appended after a base that ends in `/`; after one that ends in
/// `\` appended, or after a `/` where `\` is no separator; else after the separator
/// of the platform, `/` or `\`.
pub open spec fn joined(base: Seq<char>, rest: Seq<char>, r: Seq<char>) -> bool {
    if base.len() == 0 {
        r == rest
    } else if base.len() == 2 && base[1] == ':' {
        r == base + rest || r == base + seq!['/'] + rest || r == base + seq!['\\'] + rest
    } else if base.last() == '/' {
        r == base + rest
    } else if base.last() == '\\' {
        r == base + rest || r == base + seq!['/'] + rest
    } else {
        r == base + seq!['/'] + rest || r == base + seq!['\\'] + rest
    }
}

/// `rest` adjoined to the path `base` with `Path::join`, as text. For a relative
/// `rest` without a prefix, `PathBuf::push` appends it, after the platform's
/// separator unless `base` is empty, already ends in a separator, or is a bare
/// Windows drive such as `C:`; that is what is trusted here, for a base that does
/// not start with two separators. Which of `/` and `\` the platform uses is left
/// unsaid, and so is the result for a base that starts with two separators (a
/// Windows verbatim, device or network prefix), whose components Windows may rewrite.
#[verifier::external_body]
fn join_path(base: &String, rest: &str) -> (r: String)
    requires
        is_plain_relative(rest@),
    ensures
        is_plain_base(base@) ==> joined(base@, rest@, r@),
{
    std::path::Path::new(base.as_str()).join(rest).to_string_lossy().into_owned()
}

/// The path of a directory under the selected CDDA directory, if one is selected:
/// `rest` joined to it (see `joined`).
pub open spec fn under_cdda_dir(s: Settings, rest: Seq<char>, r: Option<String>) -> bool {
    match s.selected_cdda_dir {
        None => r is None,
        Some(d) => r matches Some(p) && (is_plain_base(d@) ==> joined(d@, rest, p@)),
    }
}

impl Settings {
    /// The json data directory of the selected CDDA directory: `data\json` under it.
    pub fn data_json_dir(&self) -> (r: Option<String>)
        ensures
            under_cdda_dir(*self, "data\\json"@, r),
    {
        proof {
            reveal_strlit("data\\json");
        }
        match &self.selected_cdda_dir {
            None => None,
            Some(dir) => Some(join_path(dir, "data\\json")),
        }
    }

    /// The graphics directory of the selected CDDA directory: `gfx` under it.
    pub fn gfx_dir(&self) -> (r: Option<String>)
        ensures
            under_cdda_dir(*self, "gfx"@, r),
    {
        proof {
            reveal_strlit("gfx");
        }
        match &self.selected_cdda_dir {
            None => None,
            Some(dir) => Some(join_path(dir, "gfx")),
        }
    }
}

/// Loads the settings from the data directory of the editor.
pub struct SettingsLoader {}

/// Saves the settings to the data directory of the editor.
pub struct SettingsSaver {}

} // verus!
