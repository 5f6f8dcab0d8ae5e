//! The settings that hold for every project.

use crate::text::{same_text, texts};
use vstd::prelude::*;

verus! {

/// The mathematical value of the global settings.
pub struct GlobalConfigModel {
    pub projects: Seq<Seq<char>>,
    pub break_seconds: u64,
    pub rate_limit: usize,
    pub proxy: Option<Seq<char>>,
}

/// The global settings: the known projects, the latest first, the pause
/// after a task in seconds, the number of tasks at a time, and the proxy.
#[derive(Clone, Debug, PartialEq)]
pub struct GlobalConfig {
    pub projects: Vec<String>,
    pub break_seconds: u64,
    pub rate_limit: usize,
    pub proxy: Option<String>,
}

/// The global settings that a request wants changed.
#[derive(Clone, Debug, PartialEq)]
pub struct GlobalConfigRequest {
    pub rate_limit: Option<usize>,
    pub break_seconds: Option<u64>,
    pub proxy: Option<String>,
}

impl View for GlobalConfig {
    type V = GlobalConfigModel;

    open spec fn view(&self) -> GlobalConfigModel {
        GlobalConfigModel {
            projects: texts(self.projects@),
            break_seconds: self.break_seconds,
            rate_limit: self.rate_limit,
            proxy: match self.proxy {
                Some(proxy) => Some(proxy@),
                None => None,
            },
        }
    }
}

/// The settings of a first start: no project, a pause of three seconds, five
/// tasks at a time, no proxy.
pub open spec fn default_global_config() -> GlobalConfigModel {
    GlobalConfigModel { projects: Seq::empty(), break_seconds: 3, rate_limit: 5, proxy: None }
}

/// The settings after a request: each value that the request holds replaces
/// the old one; the projects stay.
pub open spec fn merged_global(config: GlobalConfigModel, update: GlobalConfigRequest) -> GlobalConfigModel {
    GlobalConfigModel {
        projects: config.projects,
        break_seconds: match update.break_seconds {
            Some(break_seconds) => break_seconds,
            None => config.break_seconds,
        },
        rate_limit: match update.rate_limit {
            Some(rate_limit) => rate_limit,
            None => config.rate_limit,
        },
        proxy: match update.proxy {
            Some(proxy) => Some(proxy@),
            None => config.proxy,
        },
    }
}

/// Where `path` first stands in `projects`; their number where it does not.
pub open spec fn first_position(projects: Seq<Seq<char>>, path: Seq<char>) -> int
    decreases projects.len(),
{
    if projects.len() == 0 {
        0
    } else if projects[0] == path {
        0
    } else {
        1 + first_position(projects.drop_first(), path)
    }
}

/// The projects with `path` as the latest: at the front, and no longer where
/// it first stood.
pub open spec fn with_latest(projects: Seq<Seq<char>>, path: Seq<char>) -> Seq<Seq<char>> {
    let at = first_position(projects, path);
    if at < projects.len() {
        seq![path] + projects.remove(at)
    } else {
        seq![path] + projects
    }
}

impl Default for GlobalConfig {
    /// The settings of a first start.
    fn default() -> (r: Self)
        ensures
            r@ == default_global_config(),
    {
        let config = GlobalConfig {
            projects: Vec::new(),
            break_seconds: 3,
            rate_limit: 5,
            proxy: None,
        };
        assert(config@.projects =~= Seq::<Seq<char>>::empty());
        config
    }
}

impl GlobalConfig {
    /// Takes over each value that the request holds.
    pub fn merge_from_request(&mut self, update: GlobalConfigRequest)
        ensures
            final(self)@ == merged_global(old(self)@, update),
    {
        if let Some(rate_limit) = update.rate_limit {
            self.rate_limit = rate_limit;
        }
        if let Some(break_seconds) = update.break_seconds {
            self.break_seconds = break_seconds;
        }
        if let Some(proxy) = update.proxy {
            self.proxy = Some(proxy);
        }
    }
}

/// Finds where `path` first stands among the projects.
pub fn find_source_path(projects: &Vec<String>, path: &str) -> (r: usize)
    ensures
        r == first_position(texts(projects@), path@),
        r <= projects.len(),
{
    let ghost all = texts(projects@);
    let mut i: usize = 0;
    assert(all.skip(0) =~= all);
    while i < projects.len()
        invariant
            i <= projects.len(),
            all == texts(projects@),
            first_position(all, path@) == i + first_position(all.skip(i as int), path@),
        decreases projects.len() - i,
    {
        assert(all.skip(i as int)[0] == projects@[i as int]@);
        if same_text(projects[i].as_str(), path) {
            return i;
        }
        assert(all.skip(i as int).drop_first() =~= all.skip(i + 1));
        i += 1;
    }
    i
}

/// Makes `source_path` the latest project: moves it to the front, or puts it
/// there where it is new.
pub fn update_project(source_path: &String, global_config: &mut GlobalConfig)
    ensures
        final(global_config)@.projects == with_latest(old(global_config)@.projects, source_path@),
        final(global_config)@.break_seconds == old(global_config)@.break_seconds,
        final(global_config)@.rate_limit == old(global_config)@.rate_limit,
        final(global_config)@.proxy == old(global_config)@.proxy,
{
    let ghost before = texts(global_config.projects@);
    let at = find_source_path(&global_config.projects, source_path.as_str());
    if at < global_config.projects.len() {
        let moved = global_config.projects.remove(at);
        assert(texts(global_config.projects@) =~= before.remove(at as int));
        global_config.projects.insert(0, moved);
        assert(texts(global_config.projects@) =~= seq![source_path@] + before.remove(at as int)) by {
            lemma_first_position_holds(before, source_path@);
        }
    } else {
        global_config.projects.insert(0, source_path.clone());
        assert(texts(global_config.projects@) =~= seq![source_path@] + before);
    }
}

/// At the first position of `path`, where there is one, stands `path`.
pub proof fn lemma_first_position_holds(projects: Seq<Seq<char>>, path: Seq<char>)
    ensures
        0 <= first_position(projects, path) <= projects.len(),
        first_position(projects, path) < projects.len() ==> projects[first_position(
            projects,
            path,
        )] == path,
    decreases projects.len(),
{
    if projects.len() > 0 && projects[0] != path {
        lemma_first_position_holds(projects.drop_first(), path);
    }
}

/// The latest project: the first of the list.
pub fn get_latest_project_source_path(global_config: &GlobalConfig) -> (r: Option<String>)
    ensures
        match r {
            Some(path) => global_config@.projects.len() > 0 && path@ == global_config@.projects[0],
            None => global_config@.projects.len() == 0,
        },
{
    if global_config.projects.len() > 0 {
        Some(global_config.projects[0].clone())
    } else {
        None
    }
}

} // verus!
