use vstd::prelude::*;
use crate::paths::{same_path, same_path_spec, PathRules};
use crate::lemmas::{lemma_filter_drops_single, lemma_filter_keeps_all};

verus! {

/// How many projects the recent list keeps.
pub const MAX_RECENT_PROJECTS: usize = 20;

/// User-level preferences, stored in `~/.khepri/user.ron`.
pub struct UserConfig {
    pub recent_projects: Vec<String>,
}

impl View for UserConfig {
    type V = Seq<Seq<char>>;

    /// The recent project paths, most recent first.
    open spec fn view(&self) -> Seq<Seq<char>> {
        self.recent_projects@.map_values(|p: String| p@)
    }
}

impl Default for UserConfig {
    fn default() -> (r: Self)
        ensures
            r@.len() == 0,
    {
        let r = UserConfig { recent_projects: Vec::new() };
        assert(r@ =~= Seq::<Seq<char>>::empty());
        r
    }
}

/// `list` without the entries that name the same path as `path`.
pub open spec fn without_path(rules: bool, list: Seq<Seq<char>>, path: Seq<char>) -> Seq<Seq<char>> {
    list.filter(|q: Seq<char>| !same_path_spec(rules, q, path))
}

/// `list` with `path` moved (or added) to the front, capped at `MAX_RECENT_PROJECTS` entries.
pub open spec fn with_recent(rules: bool, list: Seq<Seq<char>>, path: Seq<char>) -> Seq<Seq<char>> {
    let l = seq![path] + without_path(rules@, list, path);
    if l.len() > MAX_RECENT_PROJECTS {
        l.take(MAX_RECENT_PROJECTS as int)
    } else {
        l
    }
}

/// Moves the items of `list` that do not name the same path as `path` into a new vector, in order.
fn retain_other_paths(rules: &PathRules, list: Vec<String>, path: &str) -> (r: Vec<String>)
    ensures
        r@.map_values(|p: String| p@) == without_path(rules@, list@.map_values(|p: String| p@), path@),
{
    let ghost pred = |q: Seq<char>| !same_path_spec(rules@, q, path@);
    let ghost all = list@.map_values(|p: String| p@);
    let mut kept: Vec<String> = Vec::new();
    let mut i: usize = 0;
    while i < list.len()
        invariant
            i <= list@.len(),
            all == list@.map_values(|p: String| p@),
            pred == (|q: Seq<char>| !same_path_spec(rules@, q, path@)),
            kept@.map_values(|p: String| p@) == all.take(i as int).filter(pred),
        decreases list@.len() - i,
    {
        proof {
            all.take(i as int).lemma_filter_push(all[i as int], pred);
            assert(all.take(i + 1) =~= all.take(i as int).push(all[i as int]));
        }
        let same = same_path(rules, list[i].as_str(), path);
        if !same {
            let ghost before = kept@;
            kept.push(list[i].clone());
            proof {
                assert(kept@.map_values(|p: String| p@) =~= before.map_values(|p: String| p@).push(all[i as int]));
            }
        }
        i = i + 1;
    }
    proof {
        assert(all.take(list@.len() as int) =~= all);
    }
    kept
}

/// Add a project path to the recent projects list.
/// Moves it to the front if already present. Keeps at most `MAX_RECENT_PROJECTS` entries.
pub fn add_recent_project(rules: &PathRules, config: &mut UserConfig, project_root: String)
    ensures
        final(config)@ == with_recent(rules@, old(config)@, project_root@),
{
    let mut list: Vec<String> = Vec::new();
    std::mem::swap(&mut list, &mut config.recent_projects);
    let kept = retain_other_paths(rules, list, project_root.as_str());
    let ghost rest = kept@.map_values(|p: String| p@);
    let ghost first = project_root@;
    let mut result: Vec<String> = Vec::new();
    result.push(project_root);
    let mut i: usize = 0;
    while i < kept.len()
        invariant
            i <= kept@.len(),
            rest == kept@.map_values(|p: String| p@),
            result@.map_values(|p: String| p@) == seq![first] + rest.take(i as int),
        decreases kept@.len() - i,
    {
        let ghost before = result@;
        result.push(kept[i].clone());
        proof {
            assert(result@ == before.push(kept@[i as int]));
            assert(rest[i as int] == kept@[i as int]@);
            assert(before.map_values(|p: String| p@) =~= seq![first] + rest.take(i as int));
            assert(result@.map_values(|p: String| p@) =~= before.map_values(|p: String| p@).push(rest[i as int]));
            assert(result@.map_values(|p: String| p@) =~= seq![first] + rest.take(i + 1));
        }
        i = i + 1;
    }
    proof {
        assert(rest.take(kept@.len() as int) =~= rest);
    }
    let ghost full = result@;
    result.truncate(MAX_RECENT_PROJECTS);
    proof {
        if full.len() > MAX_RECENT_PROJECTS {
            assert(result@.map_values(|p: String| p@) =~= (seq![first] + rest).take(MAX_RECENT_PROJECTS as int));
        }
    }
    config.recent_projects = result;
}

/// Get the list of recent project paths, most recent first.
pub fn get_recent_projects(config: UserConfig) -> (r: Vec<String>)
    ensures
        r@.map_values(|p: String| p@) == config@,
{
    config.recent_projects
}

/// Remove a project from the recent projects list.
pub fn remove_recent_project(rules: &PathRules, config: &mut UserConfig, project_root: &str)
    ensures
        final(config)@ == without_path(rules@, old(config)@, project_root@),
{
    let mut list: Vec<String> = Vec::new();
    std::mem::swap(&mut list, &mut config.recent_projects);
    config.recent_projects = retain_other_paths(rules, list, project_root);
}

/// No entry left by `without_path` names the removed path; the entries left keep their order.
proof fn lemma_without_path_excludes(rules: bool, list: Seq<Seq<char>>, path: Seq<char>)
    ensures
        forall|i: int| 0 <= i < without_path(rules, list, path).len() ==>
            !same_path_spec(rules, #[trigger] without_path(rules, list, path)[i], path),
{
    let pred = |q: Seq<char>| !same_path_spec(rules, q, path);
    assert forall|i: int| 0 <= i < without_path(rules, list, path).len() implies
        !same_path_spec(rules, #[trigger] without_path(rules, list, path)[i], path) by {
        list.lemma_filter_pred(pred, i);
    }
}

/// `[path] + rest` loses exactly its head when `path` is filtered out of it.
proof fn lemma_without_path_of_front(rules: bool, rest: Seq<Seq<char>>, path: Seq<char>)
    requires
        forall|i: int| 0 <= i < rest.len() ==> !same_path_spec(rules, #[trigger] rest[i], path),
    ensures
        without_path(rules, seq![path] + rest, path) == rest,
{
    let pred = |q: Seq<char>| !same_path_spec(rules, q, path);
    Seq::filter_distributes_over_add(seq![path], rest, pred);
    lemma_filter_drops_single(path, pred);
    lemma_filter_keeps_all(rest, pred);
    assert(Seq::<Seq<char>>::empty() + rest =~= rest);
}

/// After a project is added, it heads the list, no other entry names the same path,
/// and the list holds at most `MAX_RECENT_PROJECTS` entries.
pub proof fn lemma_added_project_is_first(rules: bool, list: Seq<Seq<char>>, path: Seq<char>)
    ensures
        with_recent(rules, list, path).len() >= 1,
        with_recent(rules, list, path).len() <= MAX_RECENT_PROJECTS,
        with_recent(rules, list, path)[0] == path,
        forall|i: int| 1 <= i < with_recent(rules, list, path).len() ==>
            !same_path_spec(rules, #[trigger] with_recent(rules, list, path)[i], path),
{
    lemma_without_path_excludes(rules, list, path);
    let f = without_path(rules, list, path);
    let l = seq![path] + f;
    assert forall|i: int| 1 <= i < with_recent(rules, list, path).len() implies
        !same_path_spec(rules, #[trigger] with_recent(rules, list, path)[i], path) by {
        assert(with_recent(rules, list, path)[i] == l[i]);
        assert(l[i] == f[i - 1]);
    }
}

/// Adding the same project twice in a row leaves the list as adding it once.
pub proof fn lemma_add_recent_idempotent(rules: bool, list: Seq<Seq<char>>, path: Seq<char>)
    ensures
        with_recent(rules, with_recent(rules, list, path), path) == with_recent(rules, list, path),
{
    lemma_added_project_is_first(rules, list, path);
    let once = with_recent(rules, list, path);
    let tail = once.drop_first();
    assert(once =~= seq![path] + tail);
    assert forall|i: int| 0 <= i < tail.len() implies !same_path_spec(rules, #[trigger] tail[i], path) by {
        assert(tail[i] == once[i + 1]);
    }
    lemma_without_path_of_front(rules, tail, path);
}

/// Removing a project right after adding it leaves the list without that project,
/// cut to the room the added entry took.
pub proof fn lemma_remove_after_add(rules: bool, list: Seq<Seq<char>>, path: Seq<char>)
    ensures
        without_path(rules, with_recent(rules, list, path), path) == ({
            let f = without_path(rules, list, path);
            if f.len() >= MAX_RECENT_PROJECTS {
                f.take(MAX_RECENT_PROJECTS - 1)
            } else {
                f
            }
        }),
{
    lemma_without_path_excludes(rules, list, path);
    let f = without_path(rules, list, path);
    let once = with_recent(rules, list, path);
    let tail = once.drop_first();
    lemma_added_project_is_first(rules, list, path);
    assert(once =~= seq![path] + tail);
    assert forall|i: int| 0 <= i < tail.len() implies !same_path_spec(rules, #[trigger] tail[i], path) by {
        assert(tail[i] == once[i + 1]);
    }
    lemma_without_path_of_front(rules, tail, path);
    if f.len() >= MAX_RECENT_PROJECTS {
        assert(tail =~= f.take(MAX_RECENT_PROJECTS - 1));
    } else {
        assert(tail =~= f);
    }
}

/// Removing a project twice leaves the list as removing it once.
pub proof fn lemma_remove_recent_idempotent(rules: bool, list: Seq<Seq<char>>, path: Seq<char>)
    ensures
        without_path(rules, without_path(rules, list, path), path) == without_path(rules, list, path),
{
    lemma_without_path_excludes(rules, list, path);
    lemma_filter_keeps_all(without_path(rules, list, path), |q: Seq<char>| !same_path_spec(rules, q, path));
}

} // verus!
