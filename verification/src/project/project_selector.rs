//! Choosing the project to work for.

use crate::config::{
    find_project, lemma_project_place, project_place, AmplitudeProjectSecrets, MultiProjectConfig,
};
use vstd::prelude::*;

verus! {

/// The projects from which one is chosen.
#[derive(Debug)]
pub struct ProjectSelector {
    pub config: MultiProjectConfig,
}

/// Why no project was chosen.
#[derive(Debug)]
pub enum SelectionError {
    /// The configuration has no project of this name.
    NotFound(String),
    /// The configuration has no project at all.
    NoProjects,
}

impl ProjectSelector {
    /// A selector over the projects of a configuration.
    pub fn new(config: MultiProjectConfig) -> (selector: Self)
        ensures
            selector.config == config,
    {
        ProjectSelector { config }
    }

    /// The keys of the project with the given name.
    pub fn select_project(&self, project_name: &str) -> (chosen: Result<
        &AmplitudeProjectSecrets,
        SelectionError,
    >)
        ensures
            chosen matches Ok(s) ==> project_place(self.config.projects@, project_name@) matches Some(
                i,
            ) && *s == self.config.projects@[i].1,
            chosen matches Err(e) ==> (e matches SelectionError::NotFound(name) && name@
                == project_name@ && project_place(self.config.projects@, project_name@) is None),
    {
        match self.config.get_project(project_name) {
            Some(secrets) => Ok(secrets),
            None => Err(SelectionError::NotFound(project_name.to_owned())),
        }
    }

    /// The names of the projects, each once, in the order in which they
    /// first stand in the configuration.
    pub fn list_projects(&self) -> (names: Vec<&String>)
        ensures
            names@.map_values(|n: &String| n@) == crate::names::first_occurrences(
                crate::config::project_names(self.config.projects@),
            ),
    {
        self.config.list_projects()
    }

    /// The names of the projects but the given one, each once, in the order
    /// in which they first stand in the configuration.
    pub fn other_projects(&self, excluded: &str) -> (names: Vec<&String>)
        ensures
            names@.map_values(|n: &String| n@) == crate::names::without_name(
                crate::names::first_occurrences(
                    crate::config::project_names(self.config.projects@),
                ),
                excluded@,
            ),
    {
        let all = self.config.list_projects();
        let ghost views = all@.map_values(|n: &String| n@);
        let wanted = excluded.to_owned();
        let mut names: Vec<&String> = Vec::new();
        let mut i: usize = 0;
        assert(views.take(0) =~= Seq::<Seq<char>>::empty());
        assert(names@.map_values(|n: &String| n@) =~= Seq::<Seq<char>>::empty());
        while i < all.len()
            invariant
                i <= all.len(),
                wanted@ == excluded@,
                views == all@.map_values(|n: &String| n@),
                names@.map_values(|n: &String| n@) == crate::names::without_name(
                    views.take(i as int),
                    excluded@,
                ),
            decreases all.len() - i,
        {
            let ghost before = names@.map_values(|n: &String| n@);
            assert(views.take(i + 1).drop_last() =~= views.take(i as int));
            assert(views.take(i + 1).last() == all@[i as int]@);
            if !(*all[i] == wanted) {
                names.push(all[i]);
                assert(names@.map_values(|n: &String| n@) =~= before.push(all@[i as int]@));
            }
            i += 1;
        }
        assert(views.take(all.len() as int) =~= views);
        names
    }

    /// Whether there is a project of this name.
    pub fn has_project(&self, project_name: &str) -> (known: bool)
        ensures
            known == project_place(self.config.projects@, project_name@) is Some,
    {
        find_project(&self.config.projects, project_name).is_some()
    }

    /// Puts a project into the configuration. A project that has the name
    /// already gives way to the new one, in its place; a new name goes to
    /// the end.
    pub fn add_project(&mut self, project_name: String, secrets: AmplitudeProjectSecrets)
        ensures
            (match project_place(old(self).config.projects@, project_name@) {
                Some(i) => final(self).config.projects@ == old(self).config.projects@.update(
                    i,
                    (project_name, secrets),
                ),
                None => final(self).config.projects@ == old(self).config.projects@.push(
                    (project_name, secrets),
                ),
            }),
    {
        proof {
            lemma_project_place(self.config.projects@, project_name@);
        }
        match find_project(&self.config.projects, project_name.as_str()) {
            Some(i) => {
                self.config.projects.set(i, (project_name, secrets));
            },
            None => {
                self.config.projects.push((project_name, secrets));
            },
        }
    }
}

} // verus!
