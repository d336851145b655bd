use vstd::prelude::*;
use crate::paths::{file_name, join, parent, path_file_name, path_join, path_parent, PathRules};

verus! {

/// What the Hub returns when it closes.
pub enum HubResult {
    Quit,
    OpenProject(String),
}

/// A rename of a project folder that the Hub asks to be carried out.
pub struct RenameRequest {
    pub from: String,
    pub to: String,
}

/// The Hub's dialog state: the new-project popup, the context menu of a project card
/// and the rename popup.
pub struct HubState {
    /// The path conventions that folder names and joins follow.
    pub rules: PathRules,
    pub show_popup: bool,
    pub popup_just_opened: bool,
    pub project_name: String,
    pub git_init: bool,
    pub chosen_folder: Option<String>,
    pub ctx_menu_project: Option<String>,
    pub ctx_menu_just_opened: bool,
    pub rename_project: Option<String>,
    pub rename_text: String,
    pub rename_just_opened: bool,
}

/// The name shown on the card of a project whose folder is `path`.
pub open spec fn display_name_spec(rules: bool, path: Seq<char>) -> Seq<char> {
    match path_file_name(rules, path) {
        Some(n) => n,
        None => seq!['U', 'n', 'k', 'n', 'o', 'w', 'n'],
    }
}

/// The name shown on the card of a project: its folder name, or `Unknown`.
pub fn project_display_name(rules: &PathRules, path: &str) -> (r: String)
    ensures
        r@ == display_name_spec(rules@, path@),
{
    match file_name(rules, path) {
        Some(n) => n,
        None => {
            proof {
                reveal_strlit("Unknown");
            }
            String::from_str("Unknown")
        },
    }
}

/// Create needs both a typed name and a chosen folder: with no name, or no folder, the popup can
/// create nothing, whatever else it holds; with both, it can.
pub proof fn lemma_create_needs_name_and_folder(h: HubState)
    ensures
        h.project_name@.len() == 0 ==> !h.can_create_spec(),
        h.chosen_folder is None ==> !h.can_create_spec(),
        h.project_name@.len() > 0 && h.chosen_folder is Some ==> h.can_create_spec(),
{
}

impl HubState {
    /// Every dialog closed and every field empty.
    pub open spec fn is_idle(&self) -> bool {
        &&& !self.show_popup
        &&& !self.popup_just_opened
        &&& self.project_name@.len() == 0
        &&& !self.git_init
        &&& self.chosen_folder.is_none()
        &&& self.ctx_menu_project.is_none()
        &&& !self.ctx_menu_just_opened
        &&& self.rename_project.is_none()
        &&& self.rename_text@.len() == 0
        &&& !self.rename_just_opened
    }

    /// The new-project popup may create a project: a name is typed and a folder is chosen.
    pub open spec fn can_create_spec(&self) -> bool {
        self.project_name@.len() > 0 && self.chosen_folder.is_some()
    }

    pub fn new() -> (r: Self)
        ensures
            r.is_idle(),
    {
        HubState {
            rules: PathRules::current(),
            show_popup: false,
            popup_just_opened: false,
            project_name: String::new(),
            git_init: false,
            chosen_folder: None,
            ctx_menu_project: None,
            ctx_menu_just_opened: false,
            rename_project: None,
            rename_text: String::new(),
            rename_just_opened: false,
        }
    }

    /// Opens the new-project popup with empty inputs (the title bar's `+` was clicked).
    pub fn open_new_project_popup(&mut self)
        ensures
            final(self).project_name@.len() == 0,
            *final(self) == (HubState {
                show_popup: true,
                popup_just_opened: true,
                project_name: final(self).project_name,
                chosen_folder: None,
                git_init: false,
                ..*old(self)
            }),
    {
        self.show_popup = true;
        self.popup_just_opened = true;
        self.project_name = String::new();
        self.chosen_folder = None;
        self.git_init = false;
    }

    /// Whether the Create button is enabled.
    pub fn can_create(&self) -> (r: bool)
        ensures
            r == self.can_create_spec(),
            r <==> (self.project_name@.len() > 0 && self.chosen_folder is Some),
    {
        !self.project_name.as_str().is_empty() && self.chosen_folder.is_some()
    }

    /// The folder a new project is created in: the chosen folder joined with the typed name,
    /// when Create is enabled.
    pub fn new_project_root(&self) -> (r: Option<String>)
        ensures
            match r {
                Some(root) => self.can_create_spec() && root@ == path_join(
                    self.rules@,
                    self.chosen_folder.unwrap()@,
                    self.project_name@,
                ),
                None => !self.can_create_spec(),
            },
            r is Some <==> (self.project_name@.len() > 0 && self.chosen_folder is Some),
    {
        if !self.can_create() {
            return None;
        }
        match &self.chosen_folder {
            Some(folder) => Some(join(&self.rules, folder.as_str(), self.project_name.as_str())),
            None => None,
        }
    }

    /// Closes the new-project popup (the project was created, or Cancel was clicked).
    pub fn close_new_project_popup(&mut self)
        ensures
            *final(self) == (HubState { show_popup: false, ..*old(self) }),
    {
        self.show_popup = false;
    }

    /// Ends a frame of the new-project popup: a click on the backdrop closes it, except in the
    /// frame that opened it.
    pub fn end_popup_frame(&mut self, backdrop_clicked: bool)
        ensures
            *final(self) == (HubState {
                show_popup: old(self).show_popup && (old(self).popup_just_opened || !backdrop_clicked),
                popup_just_opened: false,
                ..*old(self)
            }),
    {
        if !self.popup_just_opened && backdrop_clicked {
            self.show_popup = false;
        }
        self.popup_just_opened = false;
    }

    /// Opens the context menu of the card of `project` (its `•••` button was clicked).
    pub fn open_context_menu(&mut self, project: String)
        ensures
            *final(self) == (HubState { ctx_menu_project: Some(project), ctx_menu_just_opened: true, ..*old(self) }),
    {
        self.ctx_menu_project = Some(project);
        self.ctx_menu_just_opened = true;
    }

    /// One frame of the context menu, given which of its buttons were clicked and whether the
    /// primary button was clicked anywhere. Rename opens the rename popup with the folder's name;
    /// Delete returns the project to forget and delete. The menu closes after either button, or on
    /// a click outside it, except in the frame that opened it.
    pub fn context_menu_step(&mut self, rename_clicked: bool, delete_clicked: bool, primary_clicked: bool) -> (r:
        Option<String>)
        ensures
            match old(self).ctx_menu_project {
                None => r.is_none() && *final(self) == *old(self),
                Some(p) => {
                    &&& (if delete_clicked { r == Some(p) } else { r.is_none() })
                    &&& (if rename_clicked {
                        &&& final(self).rename_project == Some(p)
                        &&& final(self).rename_text@ == match path_file_name(old(self).rules@, p@) {
                            Some(n) => n,
                            None => Seq::<char>::empty(),
                        }
                        &&& final(self).rename_just_opened
                    } else {
                        &&& final(self).rename_project == old(self).rename_project
                        &&& final(self).rename_text == old(self).rename_text
                        &&& final(self).rename_just_opened == old(self).rename_just_opened
                    })
                    &&& !final(self).ctx_menu_just_opened
                    &&& final(self).ctx_menu_project == (if rename_clicked || delete_clicked || (
                    !old(self).ctx_menu_just_opened && primary_clicked) {
                        None
                    } else {
                        Some(p)
                    })
                    &&& final(self).show_popup == old(self).show_popup
                    &&& final(self).popup_just_opened == old(self).popup_just_opened
                    &&& final(self).project_name == old(self).project_name
                    &&& final(self).chosen_folder == old(self).chosen_folder
                    &&& final(self).git_init == old(self).git_init
                    &&& final(self).rules == old(self).rules
                },
            },
    {
        let project = match &self.ctx_menu_project {
            Some(p) => p.clone(),
            None => return None,
        };
        let mut close_menu = rename_clicked || delete_clicked;
        if rename_clicked {
            self.rename_project = Some(project.clone());
            self.rename_text = match file_name(&self.rules, project.as_str()) {
                Some(n) => n,
                None => String::new(),
            };
            self.rename_just_opened = true;
        }
        if self.ctx_menu_just_opened {
            self.ctx_menu_just_opened = false;
        } else if primary_clicked {
            close_menu = true;
        }
        if close_menu {
            self.ctx_menu_project = None;
        }
        if delete_clicked {
            Some(project)
        } else {
            None
        }
    }

    /// Whether the Rename button of the rename popup is enabled: a new name is typed.
    pub fn can_rename(&self) -> (r: bool)
        ensures
            r == (self.rename_text@.len() > 0),
    {
        !self.rename_text.as_str().is_empty()
    }

    /// One frame of the rename popup, given which of its buttons were clicked and whether its
    /// backdrop was. An enabled Rename asks to move the project folder next to itself under the
    /// typed name (when the folder has a parent) and closes the popup, as do Cancel and a click on
    /// the backdrop outside the frame that opened it.
    pub fn rename_step(&mut self, rename_clicked: bool, cancel_clicked: bool, backdrop_clicked: bool) -> (r:
        Option<RenameRequest>)
        ensures
            match old(self).rename_project {
                None => r.is_none() && *final(self) == *old(self),
                Some(p) => {
                    let confirmed = rename_clicked && old(self).rename_text@.len() > 0;
                    &&& match r {
                        Some(req) => confirmed && path_parent(old(self).rules@, p@) is Some && req.from == p && req.to@
                            == path_join(
                            old(self).rules@,
                            path_parent(old(self).rules@, p@).unwrap(),
                            old(self).rename_text@,
                        ),
                        None => !confirmed || path_parent(old(self).rules@, p@) is None,
                    }
                    &&& !final(self).rename_just_opened
                    &&& final(self).rename_project == (if confirmed || cancel_clicked || (
                    !old(self).rename_just_opened && backdrop_clicked) {
                        None
                    } else {
                        Some(p)
                    })
                    &&& final(self).rename_text == old(self).rename_text
                    &&& final(self).show_popup == old(self).show_popup
                    &&& final(self).popup_just_opened == old(self).popup_just_opened
                    &&& final(self).project_name == old(self).project_name
                    &&& final(self).chosen_folder == old(self).chosen_folder
                    &&& final(self).git_init == old(self).git_init
                    &&& final(self).rules == old(self).rules
                    &&& final(self).ctx_menu_project == old(self).ctx_menu_project
                    &&& final(self).ctx_menu_just_opened == old(self).ctx_menu_just_opened
                },
            },
    {
        let project = match &self.rename_project {
            Some(p) => p.clone(),
            None => return None,
        };
        let mut request: Option<RenameRequest> = None;
        if rename_clicked && self.can_rename() {
            if let Some(dir) = parent(&self.rules, project.as_str()) {
                let to = join(&self.rules, dir.as_str(), self.rename_text.as_str());
                request = Some(RenameRequest { from: project.clone(), to });
            }
            self.rename_project = None;
        }
        if cancel_clicked {
            self.rename_project = None;
        }
        if self.rename_just_opened {
            self.rename_just_opened = false;
        } else if backdrop_clicked {
            self.rename_project = None;
        }
        request
    }
}

} // verus!
