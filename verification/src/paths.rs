use vstd::prelude::*;
use crate::text::opt_text;

verus! {

/// The path conventions of the platform the program runs on: whether `\` separates the
/// components of a path besides `/` (as on Windows) or not (as on Unix). Its field is private
/// and only `PathRules::current` makes one, so every value describes the running platform.
#[derive(Clone, Copy)]
pub struct PathRules {
    backslash_separates: bool,
}

impl View for PathRules {
    type V = bool;

    /// Whether `\` separates components; where it does not, paths follow the Unix rules below.
    closed spec fn view(&self) -> bool {
        self.backslash_separates
    }
}

/// Calls `std::path::is_separator` on `\`. Whether it separates depends on the platform, so
/// nothing is claimed of the result.
#[verifier::external_body]
fn backslash_is_separator() -> (r: bool) {
    std::path::is_separator('\\')
}

impl PathRules {
    /// The conventions of the running platform.
    pub fn current() -> (r: PathRules) {
        PathRules { backslash_separates: backslash_is_separator() }
    }
}

/// `base` extended by `segment`, as `PathBuf::push` does on Unix: an absolute
/// segment replaces the base; otherwise a `/` is put between them unless the base
/// is empty or already ends with one.
pub open spec fn unix_join(base: Seq<char>, segment: Seq<char>) -> Seq<char> {
    if segment.len() > 0 && segment[0] == '/' {
        segment
    } else if base.len() == 0 || base.last() == '/' {
        base + segment
    } else {
        base + seq!['/'] + segment
    }
}

/// `path` cut at every `/`: the texts before the first separator, between each two
/// and after the last, in order (empty where two separators meet).
pub open spec fn split_at_slash(path: Seq<char>) -> Seq<Seq<char>>
    decreases path.len(),
{
    if path.len() == 0 {
        seq![seq![]]
    } else {
        let init = split_at_slash(path.drop_last());
        if path.last() == '/' {
            init.push(seq![])
        } else {
            init.update(init.len() - 1, init.last().push(path.last()))
        }
    }
}

/// A piece between separators that stands as a component of its own: not empty
/// (repeated or trailing separators) and not a `.` (the current directory).
pub open spec fn is_named_part(part: Seq<char>) -> bool {
    part.len() > 0 && part != seq!['.']
}

/// The components of `path` as `std::path::Path::components` yields them on Unix,
/// each taken as text: the root as `/` where the path starts with a separator; a
/// `.` where a relative path starts with `.` followed by a separator or nothing;
/// then each piece between separators other than an empty one or `.`, in order
/// (`..` among them).
pub open spec fn unix_components(path: Seq<char>) -> Seq<Seq<char>> {
    let root: Seq<Seq<char>> = if path.len() > 0 && path[0] == '/' {
        seq![seq!['/']]
    } else {
        seq![]
    };
    let cur: Seq<Seq<char>> = if path.len() > 0 && path[0] == '.' && (path.len() == 1 || path[1] == '/') {
        seq![seq!['.']]
    } else {
        seq![]
    };
    root + cur + split_at_slash(path).filter(|part: Seq<char>| is_named_part(part))
}

/// The final component of `path` under the Unix rules, when it is a name (not the root,
/// `.` or `..`).
pub open spec fn unix_file_name(path: Seq<char>) -> Option<Seq<char>> {
    let c = unix_components(path);
    if c.len() > 0 && c.last() != seq!['/'] && c.last() != seq!['.'] && c.last() != seq!['.', '.'] {
        Some(c.last())
    } else {
        None
    }
}

/// What `std::path::Path::join` gives for `base` and `segment` on a platform where `\`
/// separates components or not, as `backslash_separates` says.
pub uninterp spec fn path_join(backslash_separates: bool, base: Seq<char>, segment: Seq<char>) -> Seq<char>;

/// Whether `std::path::Path`'s `==` takes `a` and `b` for the same path, on a platform where
/// `\` separates components or not, as `backslash_separates` says.
pub uninterp spec fn path_eq(backslash_separates: bool, a: Seq<char>, b: Seq<char>) -> bool;

/// What `std::path::Path::file_name` returns for `path`, on a platform where `\` separates
/// components or not, as `backslash_separates` says.
pub uninterp spec fn path_file_name(backslash_separates: bool, path: Seq<char>) -> Option<Seq<char>>;

/// What `std::path::Path::parent` returns for `path`, on a platform where `\` separates
/// components or not, as `backslash_separates` says.
pub uninterp spec fn path_parent(backslash_separates: bool, path: Seq<char>) -> Option<Seq<char>>;

/// Two paths are the same path under `rules`: equal text, or equal as `std::path::Path` compares
/// them.
pub open spec fn same_path_spec(rules: bool, a: Seq<char>, b: Seq<char>) -> bool {
    a == b || path_eq(rules, a, b)
}

/// Calls `std::path::Path::join`. The contract claims that the result is what `path_join` names,
/// and that on Unix it is `unix_join`, as std documents `PathBuf::push` there. `rules` carries
/// the platform whose conventions the call follows; on Windows (`\` and prefixes such as `C:`)
/// nothing more is claimed.
#[verifier::external_body]
pub(crate) fn join(rules: &PathRules, base: &str, segment: &str) -> (r: String)
    ensures
        r@ == path_join(rules@, base@, segment@),
        !rules@ ==> r@ == unix_join(base@, segment@),
{
    std::path::Path::new(base).join(segment).to_string_lossy().into_owned()
}

/// Calls `==` on two `std::path::Path`s. The contract claims that the result is what `path_eq`
/// names, that a path equals itself, and that on Unix two paths are equal exactly when their
/// components are (std compares paths component by component). `rules` carries the platform; on
/// Windows nothing more is claimed.
#[verifier::external_body]
pub(crate) fn same_path(rules: &PathRules, a: &str, b: &str) -> (r: bool)
    ensures
        r == (a@ == b@ || path_eq(rules@, a@, b@)),
        !rules@ ==> (r == (unix_components(a@) == unix_components(b@))),
{
    std::path::Path::new(a) == std::path::Path::new(b)
}

/// Calls `std::path::Path::file_name`. The contract claims that the result is what
/// `path_file_name` names, and that on Unix it is the last component when that is a name. `rules`
/// carries the platform; on Windows nothing more is claimed.
#[verifier::external_body]
pub(crate) fn file_name(rules: &PathRules, path: &str) -> (r: Option<String>)
    ensures
        opt_text(r) == path_file_name(rules@, path@),
        !rules@ ==> opt_text(r) == unix_file_name(path@),
{
    std::path::Path::new(path).file_name().map(|n| n.to_string_lossy().into_owned())
}

/// Calls `std::path::Path::parent`. The contract claims that the result is what `path_parent`
/// names, and, on Unix, as std documents it, that there is no parent exactly where the path is
/// empty or ends in the root, and that otherwise the parent has the path's components without the
/// last one. `rules` carries the platform; on Windows nothing more is claimed.
#[verifier::external_body]
pub(crate) fn parent(rules: &PathRules, path: &str) -> (r: Option<String>)
    ensures
        opt_text(r) == path_parent(rules@, path@),
        !rules@ ==> (r is None <==> (unix_components(path@).len() == 0 || unix_components(path@).last()
            == seq!['/'])),
        !rules@ && r is Some ==> unix_components(r.unwrap()@) == unix_components(path@).drop_last(),
{
    std::path::Path::new(path).parent().map(|p| p.to_string_lossy().into_owned())
}

/// Where a project keeps its files, relative to its root folder.
pub struct ProjectLayout {
    /// `<root>/.khepri`
    pub khepri_dir: String,
    /// `<root>/scenes`
    pub scenes_dir: String,
    /// `<root>/assets`
    pub assets_dir: String,
    /// `<root>/.khepri/project.ron`
    pub config_path: String,
    /// `<root>/scenes/main_scene.ron`
    pub main_scene_path: String,
}

pub open spec fn khepri_dir_name() -> Seq<char> {
    seq!['.', 'k', 'h', 'e', 'p', 'r', 'i']
}

pub open spec fn project_file_name() -> Seq<char> {
    seq!['p', 'r', 'o', 'j', 'e', 'c', 't', '.', 'r', 'o', 'n']
}

pub open spec fn scenes_dir_name() -> Seq<char> {
    seq!['s', 'c', 'e', 'n', 'e', 's']
}

pub open spec fn assets_dir_name() -> Seq<char> {
    seq!['a', 's', 's', 'e', 't', 's']
}

pub open spec fn main_scene_file_name() -> Seq<char> {
    seq!['m', 'a', 'i', 'n', '_', 's', 'c', 'e', 'n', 'e', '.', 'r', 'o', 'n']
}

pub open spec fn user_file_name() -> Seq<char> {
    seq!['u', 's', 'e', 'r', '.', 'r', 'o', 'n']
}

/// Get the default scene path for a project: `<root>/scenes/main_scene.ron`.
pub fn default_scene_path(rules: &PathRules, project_root: &str) -> (r: String)
    ensures
        r@ == path_join(rules@, path_join(rules@, project_root@, scenes_dir_name()), main_scene_file_name()),
{
    proof {
        reveal_strlit("scenes");
        assert("scenes"@ =~= scenes_dir_name());
        reveal_strlit("main_scene.ron");
        assert("main_scene.ron"@ =~= main_scene_file_name());
    }
    let dir = join(rules, project_root, "scenes");
    join(rules, dir.as_str(), "main_scene.ron")
}

/// The path of a project's metadata file: `<root>/.khepri/project.ron`.
pub fn project_config_path(rules: &PathRules, project_root: &str) -> (r: String)
    ensures
        r@ == path_join(rules@, path_join(rules@, project_root@, khepri_dir_name()), project_file_name()),
{
    proof {
        reveal_strlit(".khepri");
        assert(".khepri"@ =~= khepri_dir_name());
        reveal_strlit("project.ron");
        assert("project.ron"@ =~= project_file_name());
    }
    let dir = join(rules, project_root, ".khepri");
    join(rules, dir.as_str(), "project.ron")
}

/// The standard directory layout of a project rooted at `project_root`.
pub fn project_layout(rules: &PathRules, project_root: &str) -> (r: ProjectLayout)
    ensures
        r.khepri_dir@ == path_join(rules@, project_root@, khepri_dir_name()),
        r.scenes_dir@ == path_join(rules@, project_root@, scenes_dir_name()),
        r.assets_dir@ == path_join(rules@, project_root@, assets_dir_name()),
        r.config_path@ == path_join(rules@, r.khepri_dir@, project_file_name()),
        r.main_scene_path@ == path_join(rules@, r.scenes_dir@, main_scene_file_name()),
{
    proof {
        reveal_strlit(".khepri");
        assert(".khepri"@ =~= khepri_dir_name());
        reveal_strlit("scenes");
        assert("scenes"@ =~= scenes_dir_name());
        reveal_strlit("assets");
        assert("assets"@ =~= assets_dir_name());
        reveal_strlit("project.ron");
        assert("project.ron"@ =~= project_file_name());
        reveal_strlit("main_scene.ron");
        assert("main_scene.ron"@ =~= main_scene_file_name());
    }
    let khepri_dir = join(rules, project_root, ".khepri");
    let scenes_dir = join(rules, project_root, "scenes");
    let assets_dir = join(rules, project_root, "assets");
    let config_path = join(rules, khepri_dir.as_str(), "project.ron");
    let main_scene_path = join(rules, scenes_dir.as_str(), "main_scene.ron");
    ProjectLayout { khepri_dir, scenes_dir, assets_dir, config_path, main_scene_path }
}

/// The home folder to keep user settings in: `USERPROFILE`, else `HOME`, else `.`.
pub fn home_folder(userprofile: Option<String>, home: Option<String>) -> (r: String)
    ensures
        r@ == match userprofile {
            Some(u) => u@,
            None => match home {
                Some(h) => h@,
                None => seq!['.'],
            },
        },
{
    match userprofile {
        Some(u) => u,
        None => match home {
            Some(h) => h,
            None => {
                proof {
                    reveal_strlit(".");
                }
                String::from_str(".")
            },
        },
    }
}

/// The path of the user settings file under `home`: `<home>/.khepri/user.ron`.
pub fn user_config_path(rules: &PathRules, home: &str) -> (r: String)
    ensures
        r@ == path_join(rules@, path_join(rules@, home@, khepri_dir_name()), user_file_name()),
{
    proof {
        reveal_strlit(".khepri");
        assert(".khepri"@ =~= khepri_dir_name());
        reveal_strlit("user.ron");
        assert("user.ron"@ =~= user_file_name());
    }
    let dir = join(rules, home, ".khepri");
    join(rules, dir.as_str(), "user.ron")
}

} // verus!
