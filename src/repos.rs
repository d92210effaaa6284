//! Known groups, their task forces and repositories, and the choice of repositories to search.
use vstd::prelude::*;
use vstd::string::*;

use crate::order::{sorted_unique, strictly_sorted};
use crate::text::views;

verus! {

/// A group's or task force's main repository and, optionally, its others.
#[derive(Debug, Clone)]
pub struct MainAndOtherRepos {
    pub main: String,
    pub others: Option<Vec<String>>,
}

/// The repositories where a group tracks its horizontal reviews, where it does them.
#[derive(Debug, Clone)]
pub struct HorizontalReview {
    pub comments: Option<String>,
    pub designs: Option<String>,
    pub specs: Option<String>,
}

/// A group's repositories, its horizontal review repositories and its task forces' ones, each
/// task force under its name (the names are distinct).
#[derive(Debug, Clone)]
pub struct GroupRepos {
    pub group: MainAndOtherRepos,
    pub horizontal_review: Option<HorizontalReview>,
    pub task_forces: Option<Vec<(String, MainAndOtherRepos)>>,
}

/// Every known group, under its name (the names are distinct).
#[derive(Debug, Clone)]
pub struct AllGroupRepos {
    pub repos: Vec<(String, GroupRepos)>,
}

/// Why no repositories could be chosen.
#[derive(Debug, Clone, PartialEq, Eq)]
pub enum GetReposError {
    /// Neither the group nor any task force was asked for.
    NoneSelected,
    /// Task forces were asked for, but the group has none.
    NoTaskForces,
    /// A task force that the group does not have; its known task forces are listed.
    UnknownTaskForce { task_force: String, group_task_forces: Vec<String> },
}

/// A group name that is not known; the known ones are listed.
#[derive(Debug, Clone, PartialEq, Eq)]
pub enum ReposError {
    InvalidGroup { group_name: String, valid_groups: Vec<String> },
}

/// The repositories of a group or task force: the main one, then the others unless only main
/// repositories are wanted.
pub open spec fn team_repos(t: MainAndOtherRepos, main_only: bool) -> Seq<Seq<char>> {
    seq![t.main@] + match t.others {
        Some(o) => if main_only {
            Seq::empty()
        } else {
            views(o@)
        },
        None => Seq::empty(),
    }
}

pub open spec fn names_of<T>(entries: Seq<(String, T)>) -> Seq<Seq<char>> {
    entries.map_values(|e: (String, T)| e.0@)
}

/// `i` is the first entry named `name`.
pub open spec fn first_named<T>(entries: Seq<(String, T)>, name: Seq<char>, i: int) -> bool {
    &&& 0 <= i < entries.len()
    &&& entries[i].0@ == name
    &&& forall|j: int| 0 <= j < i ==> entries[j].0@ != name
}

/// The repositories of every task force, in order.
pub open spec fn all_tf_repos(tfs: Seq<(String, MainAndOtherRepos)>, main_only: bool) -> Seq<Seq<char>>
    decreases tfs.len(),
{
    if tfs.len() == 0 {
        Seq::empty()
    } else {
        all_tf_repos(tfs.drop_last(), main_only) + team_repos(tfs.last().1, main_only)
    }
}

/// The repositories of the named task forces, in the order named, or the first name that no
/// task force has.
pub open spec fn named_tf_repos(
    tfs: Seq<(String, MainAndOtherRepos)>,
    names: Seq<Seq<char>>,
    main_only: bool,
) -> Result<Seq<Seq<char>>, Seq<char>>
    decreases names.len(),
{
    if names.len() == 0 {
        Ok(Seq::empty())
    } else {
        match named_tf_repos(tfs, names.drop_last(), main_only) {
            Err(e) => Err(e),
            Ok(acc) => if exists|i: int| first_named(tfs, names.last(), i) {
                let i = choose|i: int| first_named(tfs, names.last(), i);
                Ok(acc + team_repos(tfs[i].1, main_only))
            } else {
                Err(names.last())
            },
        }
    }
}

fn push_team(out: &mut Vec<String>, t: &MainAndOtherRepos, main_only: bool)
    ensures
        views(final(out)@) == views(old(out)@) + team_repos(*t, main_only),
{
    let ghost before = views(out@);
    out.push(t.main.clone());
    assert(views(out@) =~= before + seq![t.main@]);
    match &t.others {
        Some(others) => {
            if !main_only {
                let mut i: usize = 0;
                while i < others.len()
                    invariant
                        i <= others@.len(),
                        views(out@) == before + seq![t.main@] + views(others@.take(i as int)),
                    decreases others@.len() - i,
                {
                    let ghost prev = views(out@);
                    out.push(others[i].clone());
                    assert(views(out@) =~= prev.push(others@[i as int]@));
                    assert(views(others@.take(i + 1)) =~= views(others@.take(i as int)).push(
                        others@[i as int]@,
                    ));
                    i = i + 1;
                }
                assert(others@.take(i as int) =~= others@);
            }
        },
        None => {},
    }
    assert(views(out@) =~= before + team_repos(*t, main_only));
}

fn find_named<T>(entries: &Vec<(String, T)>, name: &String) -> (r: Option<usize>)
    ensures
        r matches Some(i) ==> first_named(entries@, name@, i as int),
        r is None ==> forall|j: int| 0 <= j < entries@.len() ==> entries@[j].0@ != name@,
{
    let mut i: usize = 0;
    while i < entries.len()
        invariant
            i <= entries@.len(),
            forall|j: int| 0 <= j < i ==> entries@[j].0@ != name@,
        decreases entries@.len() - i,
    {
        if entries[i].0 == *name {
            return Some(i);
        }
        i = i + 1;
    }
    None
}

fn names_vec<T>(entries: &Vec<(String, T)>) -> (r: Vec<String>)
    ensures
        views(r@) == names_of(entries@),
{
    let mut out: Vec<String> = Vec::new();
    let mut i: usize = 0;
    while i < entries.len()
        invariant
            i <= entries@.len(),
            views(out@) == names_of(entries@.take(i as int)),
        decreases entries@.len() - i,
    {
        let ghost prev = views(out@);
        out.push(entries[i].0.clone());
        assert(views(out@) =~= prev.push(entries@[i as int].0@));
        assert(names_of(entries@.take(i + 1)) =~= names_of(entries@.take(i as int)).push(
            entries@[i as int].0@,
        ));
        i = i + 1;
    }
    assert(entries@.take(i as int) =~= entries@);
    out
}

/// Adds the repositories of a group or task force.
pub fn add_repos(dest: &mut Vec<String>, main_only: bool, team: &MainAndOtherRepos)
    ensures
        views(final(dest)@) == views(old(dest)@) + team_repos(*team, main_only),
{
    push_team(dest, team, main_only);
}

/// The repositories to search: the group's when asked, then those of the named task forces
/// (of all of them, in order, when the list of names is empty).
pub fn get_repos(
    group_repos: &GroupRepos,
    main_only: bool,
    include_group: bool,
    include_tfs: &Option<Vec<String>>,
) -> (r: Result<Vec<String>, GetReposError>)
    ensures
        ({
            let own = if include_group {
                team_repos(group_repos.group, main_only)
            } else {
                Seq::empty()
            };
            match include_tfs {
                None => if own.len() == 0 {
                    r == Err::<Vec<String>, GetReposError>(GetReposError::NoneSelected)
                } else {
                    r matches Ok(v) && views(v@) == own
                },
                Some(names) => match group_repos.task_forces {
                    None => r == Err::<Vec<String>, GetReposError>(GetReposError::NoTaskForces),
                    Some(tfs) => if names@.len() == 0 {
                        let all = own + all_tf_repos(tfs@, main_only);
                        if all.len() == 0 {
                            r == Err::<Vec<String>, GetReposError>(GetReposError::NoneSelected)
                        } else {
                            r matches Ok(v) && views(v@) == all
                        }
                    } else {
                        match named_tf_repos(tfs@, views(names@), main_only) {
                            Err(unknown) => r matches Err(GetReposError::UnknownTaskForce {
                                task_force,
                                group_task_forces,
                            }) && task_force@ == unknown && views(group_task_forces@) == names_of(
                                tfs@,
                            ),
                            Ok(named) => r matches Ok(v) && views(v@) == own + named,
                        }
                    },
                },
            }
        }),
{
    let mut out: Vec<String> = Vec::new();
    if include_group {
        push_team(&mut out, &group_repos.group, main_only);
    }
    let ghost own = views(out@);
    assert(own =~= if include_group {
        team_repos(group_repos.group, main_only)
    } else {
        Seq::empty()
    });
    match include_tfs {
        None => {},
        Some(names) => match &group_repos.task_forces {
            None => {
                return Err(GetReposError::NoTaskForces);
            },
            Some(tfs) => {
                if names.len() == 0 {
                    let mut i: usize = 0;
                    while i < tfs.len()
                        invariant
                            i <= tfs@.len(),
                            *include_tfs == Some(*names),
                            group_repos.task_forces == Some(*tfs),
                            views(out@) == own + all_tf_repos(tfs@.take(i as int), main_only),
                        decreases tfs@.len() - i,
                    {
                        push_team(&mut out, &tfs[i].1, main_only);
                        assert(tfs@.take(i + 1).drop_last() =~= tfs@.take(i as int));
                        i = i + 1;
                    }
                    assert(tfs@.take(i as int) =~= tfs@);
                } else {
                    let mut k: usize = 0;
                    while k < names.len()
                        invariant
                            k <= names@.len(),
                            *include_tfs == Some(*names),
                            group_repos.task_forces == Some(*tfs),
                            names@.len() != 0,
                            named_tf_repos(tfs@, views(names@.take(k as int)), main_only) matches Ok(
                                acc,
                            ) && views(out@) == own + acc,
                        decreases names@.len() - k,
                    {
                        assert(views(names@.take(k + 1)).drop_last() =~= views(names@.take(k as int)));
                        assert(views(names@.take(k + 1)).last() == names@[k as int]@);
                        match find_named(tfs, &names[k]) {
                            Some(i) => {
                                proof {
                                    let c = choose|c: int| first_named(tfs@, names@[k as int]@, c);
                                    if c < i {
                                        assert(tfs@[c].0@ == names@[k as int]@);
                                    } else if c > i {
                                        assert(tfs@[i as int].0@ == names@[k as int]@);
                                    }
                                }
                                push_team(&mut out, &tfs[i].1, main_only);
                            },
                            None => {
                                proof {
                                    let vn = views(names@);
                                    assert(!exists|c: int| first_named(tfs@, names@[k as int]@, c));
                                    assert(vn.take(k + 1) =~= views(names@.take(k + 1)));
                                    assert(vn.take(k + 1).drop_last() =~= views(names@.take(k as int)));
                                    assert(vn.take(k + 1).last() == names@[k as int]@);
                                    assert(named_tf_repos(tfs@, vn.take(k + 1), main_only) == Err::<
                                        Seq<Seq<char>>,
                                        Seq<char>,
                                    >(names@[k as int]@));
                                    lemma_named_prefix_err(tfs@, vn, k as int + 1, main_only);
                                }
                                let task_force = names[k].clone();
                                let group_task_forces = names_vec(tfs);
                                assert(named_tf_repos(tfs@, views(names@), main_only) == Err::<
                                    Seq<Seq<char>>,
                                    Seq<char>,
                                >(task_force@));
                                return Err(GetReposError::UnknownTaskForce { task_force, group_task_forces });
                            },
                        }
                        k = k + 1;
                    }
                    assert(names@.take(k as int) =~= names@);
                }
            },
        },
    }
    if out.len() == 0 {
        return Err(GetReposError::NoneSelected);
    }
    Ok(out)
}

/// An error on a prefix of the names is the error on all of them.
proof fn lemma_named_prefix_err(
    tfs: Seq<(String, MainAndOtherRepos)>,
    names: Seq<Seq<char>>,
    k: int,
    main_only: bool,
)
    requires
        0 <= k <= names.len(),
        named_tf_repos(tfs, names.take(k), main_only) is Err,
    ensures
        named_tf_repos(tfs, names, main_only) == named_tf_repos(tfs, names.take(k), main_only),
    decreases names.len() - k,
{
    if k < names.len() {
        assert(names.take(k + 1).drop_last() =~= names.take(k));
        lemma_named_prefix_err(tfs, names, k + 1, main_only);
    } else {
        assert(names.take(k) =~= names);
    }
}

impl AllGroupRepos {
    /// The known group names, sorted.
    pub fn known_group_names(&self) -> (r: Vec<String>)
        ensures
            strictly_sorted(views(r@)),
            views(r@).to_set() == names_of(self.repos@).to_set(),
    {
        let names = names_vec(&self.repos);
        sorted_unique(&names)
    }

    /// The repositories of the named group, or the error that lists the known groups.
    pub fn for_group(&self, group: &str) -> (r: Result<&GroupRepos, ReposError>)
        ensures
            match r {
                Ok(g) => exists|i: int| first_named(self.repos@, group@, i) && *g == self.repos@[i].1,
                Err(ReposError::InvalidGroup { group_name, valid_groups }) => {
                    &&& forall|j: int| 0 <= j < self.repos@.len() ==> self.repos@[j].0@ != group@
                    &&& group_name@ == group@
                    &&& strictly_sorted(views(valid_groups@))
                    &&& views(valid_groups@).to_set() == names_of(self.repos@).to_set()
                },
            },
    {
        let name = String::from_str(group);
        match find_named(&self.repos, &name) {
            Some(i) => Ok(&self.repos[i].1),
            None => Err(
                ReposError::InvalidGroup { group_name: name, valid_groups: self.known_group_names() },
            ),
        }
    }
}

impl GroupRepos {
    /// The group's horizontal comment review repository, if it does such reviews.
    pub fn hr_comments(&self) -> (r: Option<&String>)
        ensures
            r == match self.horizontal_review {
                Some(h) => match h.comments {
                    Some(c) => Some(&c),
                    None => None,
                },
                None => None,
            },
    {
        match &self.horizontal_review {
            Some(h) => h.comments.as_ref(),
            None => None,
        }
    }

    /// The group's horizontal design review repository, if it does such reviews.
    pub fn hr_designs(&self) -> (r: Option<&String>)
        ensures
            r == match self.horizontal_review {
                Some(h) => match h.designs {
                    Some(c) => Some(&c),
                    None => None,
                },
                None => None,
            },
    {
        match &self.horizontal_review {
            Some(h) => h.designs.as_ref(),
            None => None,
        }
    }

    /// The group's horizontal spec review repository, if it does such reviews.
    pub fn hr_specs(&self) -> (r: Option<&String>)
        ensures
            r == match self.horizontal_review {
                Some(h) => match h.specs {
                    Some(c) => Some(&c),
                    None => None,
                },
                None => None,
            },
    {
        match &self.horizontal_review {
            Some(h) => h.specs.as_ref(),
            None => None,
        }
    }
}

} // verus!
