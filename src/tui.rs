//! The application state of the interactive surface and the key router.
//!
//! Work on disk, the clipboard and the editor is not done here: the router
//! hands back a [`Command`] (or queues a [`PendingAction`]) for the run loop
//! to perform, and the loop reports back through [`TUIApp::reload`] and
//! [`TUIApp::set_error`].
use vstd::prelude::*;
use vstd::string::StringExecFns;
use crate::dialogs::{
    ConfirmDialog, CreateDialog, CreateOutcome, FilterOutcome, TagEditDialog, TagEditOutcome,
    TagFilterDialog, TagInputMode, confirm_answer, create_after, filter_cursor_after, tag_edit_after,
};
use crate::index::{PromptIndex, follow_selection, opt_view, reload_anchor, tags_ordered};
use crate::input::Key;
use crate::model::{PromptMetadata, add_tag, remove_tag, strs_view, tags_with, tags_without};
use crate::naming::{normal_form, normalize};
use crate::text::{pop_char, push_char};

verus! {

/// The top-level interaction profile.
#[derive(Clone, Copy, Debug, PartialEq, Eq, Structural)]
pub enum AppMode {
    /// Pick a prompt and copy it.
    QuickSelect,
    /// Create, edit, tag and delete prompts.
    Management,
}

/// Work that needs the terminal handed over, done after the key is routed.
#[derive(Clone, Copy, Debug, PartialEq, Eq, Structural)]
pub enum PendingAction {
    /// Open the selected prompt in the editor.
    Edit,
}

/// The dialog that is open, if any: there is room for one only.
pub enum Dialog {
    Confirm(ConfirmDialog),
    TagFilter(TagFilterDialog),
    TagEdit(TagEditDialog),
    Create(CreateDialog),
}

/// Work the run loop performs for the router.
pub enum Command {
    Nothing,
    /// Copy the body of this prompt to the clipboard (the application then quits).
    CopyBody { file_path: String },
    /// Delete this prompt file.
    Delete { file_path: String },
    /// Create a prompt under the normalized `name` from template `template`.
    Create { name: String, display_name: String, template: usize },
    /// Rewrite the tags of this prompt file.
    SetTags { file_path: String, tags: Vec<String> },
}

/// Both are open dialogs of the same kind, or both are closed.
pub open spec fn same_kind(a: Option<Dialog>, b: Option<Dialog>) -> bool {
    match (a, b) {
        (None, None) => true,
        (Some(Dialog::Confirm(_)), Some(Dialog::Confirm(_))) => true,
        (Some(Dialog::TagFilter(_)), Some(Dialog::TagFilter(_))) => true,
        (Some(Dialog::TagEdit(_)), Some(Dialog::TagEdit(_))) => true,
        (Some(Dialog::Create(_)), Some(Dialog::Create(_))) => true,
        _ => false,
    }
}

/// The application state.
pub struct TUIApp {
    pub index: PromptIndex,
    pub mode: AppMode,
    pub dialog: Option<Dialog>,
    pub search_active: bool,
    pub pending: Option<PendingAction>,
    pub error: Option<String>,
    pub quit: bool,
}

/// Selection one step down over `n` visible records.
pub open spec fn sel_next(s: Option<usize>, n: nat) -> Option<usize> {
    match s {
        Some(i) => if i + 1 < n {
            Some((i + 1) as usize)
        } else {
            Some(i)
        },
        None => None,
    }
}

/// Selection one step up.
pub open spec fn sel_prev(s: Option<usize>) -> Option<usize> {
    match s {
        Some(i) => if i > 0 {
            Some((i - 1) as usize)
        } else {
            Some(i)
        },
        None => None,
    }
}

/// The other mode.
pub open spec fn other_mode(m: AppMode) -> AppMode {
    match m {
        AppMode::QuickSelect => AppMode::Management,
        AppMode::Management => AppMode::QuickSelect,
    }
}

impl TUIApp {
    pub open spec fn wf(&self) -> bool {
        &&& self.index.wf()
        &&& match self.dialog {
            Some(Dialog::TagFilter(d)) => d.wf(),
            Some(Dialog::Create(d)) => d.wf(),
            Some(Dialog::TagEdit(_)) => self.index.selected_record() is Some,
            _ => true,
        }
    }

    /// Path of the selected record, if any.
    pub open spec fn selected_path(&self) -> Option<Seq<char>> {
        match self.index.selected_record() {
            Some(p) => Some(self.index.all_view()[p as int].path),
            None => None,
        }
    }

    /// Everything but the selection is as in `o`, the selection is `sel`.
    pub open spec fn moved_from(&self, o: TUIApp, sel: Option<usize>) -> bool {
        &&& self.index.all_view() == o.index.all_view()
        &&& self.index.visible_view() == o.index.visible_view()
        &&& self.index.filter_view() == o.index.filter_view()
        &&& self.index.query_view() == o.index.query_view()
        &&& self.index.selection() == sel
        &&& self.mode == o.mode
        &&& self.dialog == o.dialog
        &&& self.search_active == o.search_active
        &&& self.pending == o.pending
        &&& self.error == o.error
        &&& self.quit == o.quit
    }

    /// The index now has query `q` (filter and records kept) and the
    /// selection followed the record selected in `o`.
    pub open spec fn requeried_from(&self, o: TUIApp, q: Seq<char>) -> bool {
        &&& self.index.all_view() == o.index.all_view()
        &&& self.index.filter_view() == o.index.filter_view()
        &&& self.index.query_view() == q
        &&& self.index.selection() == follow_selection(
            self.index.visible_view(),
            o.index.selected_record(),
        )
    }

    /// The index now has tag filter `f` (query and records kept) and the
    /// selection followed the record selected in `o`.
    pub open spec fn refiltered_from(&self, o: TUIApp, f: Option<Seq<char>>) -> bool {
        &&& self.index.all_view() == o.index.all_view()
        &&& self.index.filter_view() == f
        &&& self.index.query_view() == o.index.query_view()
        &&& self.index.selection() == follow_selection(
            self.index.visible_view(),
            o.index.selected_record(),
        )
    }

    /// The key Enter asks for the selected prompt to be copied: with a
    /// selection, the body is to be copied and the application quits; with
    /// none, an error is shown.
    pub open spec fn copy_step(o: TUIApp, n: TUIApp, cmd: Command) -> bool {
        match o.selected_path() {
            Some(p) => (cmd matches Command::CopyBody { file_path } && file_path@ == p) && n == (
            TUIApp { quit: true, ..o }),
            None => cmd is Nothing && n.error is Some && n == (TUIApp { error: n.error, ..o }),
        }
    }

    /// What a key does when no error is shown, no dialog is open and search
    /// is not active.
    pub open spec fn top_level_step(o: TUIApp, n: TUIApp, key: Key, cmd: Command) -> bool {
        let manage = o.mode == AppMode::Management;
        match key {
            Key::Esc | Key::Char('q') => cmd is Nothing && n == (TUIApp { quit: true, ..o }),
            Key::Down | Key::Char('j') => cmd is Nothing && n.moved_from(
                o,
                sel_next(o.index.selection(), o.index.visible_view().len()),
            ),
            Key::Up | Key::Char('k') => cmd is Nothing && n.moved_from(
                o,
                sel_prev(o.index.selection()),
            ),
            Key::Enter => if manage {
                cmd is Nothing && n == o
            } else {
                TUIApp::copy_step(o, n, cmd)
            },
            Key::Char('m') => cmd is Nothing && n == (TUIApp { mode: other_mode(o.mode), ..o }),
            Key::Char('/') => cmd is Nothing && n == (TUIApp { search_active: true, ..o }),
            Key::Char('f') => cmd is Nothing && n == (TUIApp { dialog: n.dialog, ..o }) && (
            n.dialog matches Some(Dialog::TagFilter(d)) && d.cursor == 0 && tags_ordered(
                strs_view(d.tags@),
            ) && forall|t: Seq<char>|
                strs_view(d.tags@).contains(t) <==> exists|i: int|
                    0 <= i < o.index.all_view().len() && #[trigger] o.index.all_view()[i].tags.contains(
                        t,
                    )),
            Key::Char('e') => cmd is Nothing && n == (TUIApp {
                pending: if manage && o.index.selected_record() is Some {
                    Some(PendingAction::Edit)
                } else {
                    o.pending
                },
                ..o
            }),
            Key::Char('d') => cmd is Nothing && n == (TUIApp { dialog: n.dialog, ..o }) && if manage
                && o.selected_path() is Some {
                n.dialog matches Some(Dialog::Confirm(c)) && Some(c.target@) == o.selected_path()
            } else {
                n.dialog == o.dialog
            },
            Key::Char('n') => cmd is Nothing && n == (TUIApp { dialog: n.dialog, ..o }) && if manage {
                n.dialog matches Some(Dialog::Create(c)) && c.filename@ == Seq::<char>::empty()
                    && c.template == 0
            } else {
                n.dialog == o.dialog
            },
            Key::Char('t') => cmd is Nothing && n == (TUIApp { dialog: n.dialog, ..o }) && if manage
                && o.index.selected_record() is Some {
                n.dialog matches Some(Dialog::TagEdit(_))
            } else {
                n.dialog == o.dialog
            },
            _ => cmd is Nothing && n == o,
        }
    }

    /// What a key does while search is active (no error, no dialog).
    pub open spec fn search_step(o: TUIApp, n: TUIApp, key: Key, cmd: Command) -> bool {
        match key {
            Key::Esc => cmd is Nothing && !n.search_active && n.requeried_from(o, Seq::<char>::empty()),
            Key::Char(c) => cmd is Nothing && n.search_active && n.requeried_from(
                o,
                o.index.query_view().push(c),
            ),
            Key::Backspace => cmd is Nothing && n.search_active && if o.index.query_view().len() > 0 {
                n.requeried_from(o, o.index.query_view().drop_last())
            } else {
                n.index == o.index
            },
            Key::Enter => if o.mode == AppMode::QuickSelect {
                TUIApp::copy_step(o, n, cmd)
            } else {
                cmd is Nothing && n == o
            },
            _ => cmd is Nothing && n == o,
        }
    }

    /// What a key does while a dialog is open (no error shown).
    pub open spec fn dialog_step(o: TUIApp, n: TUIApp, key: Key, cmd: Command) -> bool {
        match o.dialog {
            Some(Dialog::Confirm(c)) => match confirm_answer(key) {
                Some(true) => n.dialog is None && n.index == o.index && (cmd matches Command::Delete {
                    file_path,
                } && file_path@ == c.target@),
                Some(false) => n.dialog is None && n.index == o.index && cmd is Nothing,
                None => n.dialog == o.dialog && n.index == o.index && cmd is Nothing,
            },
            Some(Dialog::TagFilter(d)) => cmd is Nothing && match key {
                Key::Esc => n.dialog is None && n.index == o.index,
                Key::Enter => n.dialog is None && if d.cursor < d.tags@.len() {
                    n.refiltered_from(o, Some(d.tags@[d.cursor as int]@))
                } else {
                    n.index == o.index
                },
                Key::Char('c') => n.dialog is None && n.refiltered_from(o, None),
                _ => n.index == o.index && (n.dialog matches Some(Dialog::TagFilter(e)) && e.tags
                    == d.tags && e.cursor == filter_cursor_after(d, key)),
            },
            Some(Dialog::TagEdit(d)) => {
                let m = o.index.all_view()[o.index.selected_record()->0 as int];
                let closes = key == Key::Esc && d.mode == TagInputMode::ViewTags;
                &&& n.index == o.index
                &&& closes ==> n.dialog is None
                &&& !closes ==> (n.dialog matches Some(Dialog::TagEdit(e)) && tag_edit_after(
                    d,
                    e,
                    key,
                    m.tags.len() as int,
                ))
                &&& if key == Key::Enter && d.mode == TagInputMode::AddingTag && d.buffer@.len() > 0 {
                    (cmd matches Command::SetTags { file_path, tags } && file_path@ == m.path
                        && strs_view(tags@) == tags_with(m.tags, d.buffer@))
                } else if key == Key::Enter && d.mode == TagInputMode::RemovingTag && d.cursor
                    < m.tags.len() {
                    (cmd matches Command::SetTags { file_path, tags } && file_path@ == m.path
                        && strs_view(tags@) == tags_without(m.tags, m.tags[d.cursor as int]))
                } else {
                    cmd is Nothing
                }
            },
            Some(Dialog::Create(c)) => n.index == o.index && match key {
                Key::Esc => n.dialog is None && cmd is Nothing,
                Key::Enter => if !c.valid() {
                    cmd is Nothing && n.dialog == o.dialog && n.error == o.error
                } else if exists|i: int|
                    0 <= i < o.index.all_view().len() && #[trigger] o.index.all_view()[i].name == normal_form(c.filename@) {
                    cmd is Nothing && n.dialog == o.dialog && n.error is Some
                } else {
                    n.dialog is None && n.error == o.error && (cmd matches Command::Create { name, display_name, template } && name@
                        == normal_form(c.filename@) && display_name@ == c.filename@ && template == c.template)
                },
                _ => cmd is Nothing && (n.dialog matches Some(Dialog::Create(e)) && create_after(
                    c,
                    e,
                    key,
                )),
            },
            None => true,
        }
    }

    /// How one key changes the state, by the precedence: a shown error, then
    /// the open dialog, then search, then the top level.
    pub open spec fn routed(o: TUIApp, n: TUIApp, key: Key, cmd: Command) -> bool {
        &&& n.wf()
        &&& o.dialog is Some ==> (n.dialog is None || same_kind(o.dialog, n.dialog))
        &&& if o.error is Some {
            cmd is Nothing && n == (TUIApp { error: None, ..o })
        } else if o.dialog is Some {
            &&& n.mode == o.mode
            &&& n.search_active == o.search_active
            &&& n.pending == o.pending
            &&& n.quit == o.quit
            &&& !(o.dialog matches Some(Dialog::Create(_)) && key == Key::Enter) ==> n.error == o.error
            &&& TUIApp::dialog_step(o, n, key, cmd)
        } else if o.search_active {
            &&& n.mode == o.mode
            &&& n.dialog is None
            &&& n.pending == o.pending
            &&& key != Key::Enter ==> n.error == o.error && n.quit == o.quit
            &&& TUIApp::search_step(o, n, key, cmd)
        } else {
            TUIApp::top_level_step(o, n, key, cmd)
        }
    }

    /// The state the application starts in over `records` in `mode`:
    /// nothing filtered, every record visible, the first one selected, no
    /// dialog, no search, no error, nothing pending, not quitting.
    pub open spec fn fresh(&self, records: Seq<PromptMetadata>, mode: AppMode) -> bool {
        &&& self.wf()
        &&& self.mode == mode
        &&& self.dialog is None
        &&& !self.search_active
        &&& self.pending is None
        &&& self.error is None
        &&& !self.quit
        &&& self.index.all_view().to_multiset() == crate::model::metas_view(records).to_multiset()
        &&& self.index.filter_view() is None
        &&& self.index.query_view() == Seq::<char>::empty()
        &&& self.index.visible_view() == Seq::new(records.len(), |i: int| i as usize)
        &&& self.index.selection() == (if records.len() == 0 { None } else { Some(0usize) })
    }

    /// Starts over `records` in `mode`: nothing filtered, the first record
    /// selected, no dialog, no search, no error.
    pub fn new(records: Vec<PromptMetadata>, mode: AppMode) -> (r: Self)
        ensures
            r.fresh(records@, mode),
    {
        TUIApp {
            index: PromptIndex::new(records),
            mode,
            dialog: None,
            search_active: false,
            pending: None,
            error: None,
            quit: false,
        }
    }

    fn selected_path_exec(&self) -> (r: Option<String>)
        requires
            self.wf(),
        ensures
            opt_view(r) == self.selected_path(),
    {
        match self.index.selected() {
            Some(m) => Some(m.file_path.clone()),
            None => None,
        }
    }

    fn copy_exec(&mut self) -> (r: Command)
        requires
            old(self).wf(),
        ensures
            final(self).wf(),
            TUIApp::copy_step(*old(self), *final(self), r),
    {
        match self.selected_path_exec() {
            Some(p) => {
                self.quit = true;
                Command::CopyBody { file_path: p }
            },
            None => {
                self.error = Some(String::from_str("No prompt selected"));
                Command::Nothing
            },
        }
    }

    fn route_confirm(&mut self, key: Key) -> (r: Command)
        requires
            old(self).wf(),
            old(self).dialog matches Some(Dialog::Confirm(_)),
        ensures
            final(self).wf(),
            final(self).mode == old(self).mode,
            final(self).search_active == old(self).search_active,
            final(self).pending == old(self).pending,
            final(self).quit == old(self).quit,
            final(self).error == old(self).error,
            final(self).dialog is None || same_kind(old(self).dialog, final(self).dialog),
            TUIApp::dialog_step(*old(self), *final(self), key, r),
    {
        match ConfirmDialog::answer(key) {
            Some(true) => {
                let target = match &self.dialog {
                    Some(Dialog::Confirm(c)) => c.target.clone(),
                    _ => String::new(),
                };
                self.dialog = None;
                Command::Delete { file_path: target }
            },
            Some(false) => {
                self.dialog = None;
                Command::Nothing
            },
            None => Command::Nothing,
        }
    }

    fn route_filter(&mut self, key: Key) -> (r: Command)
        requires
            old(self).wf(),
            old(self).dialog matches Some(Dialog::TagFilter(_)),
        ensures
            final(self).wf(),
            final(self).mode == old(self).mode,
            final(self).search_active == old(self).search_active,
            final(self).pending == old(self).pending,
            final(self).quit == old(self).quit,
            final(self).error == old(self).error,
            final(self).dialog is None || same_kind(old(self).dialog, final(self).dialog),
            TUIApp::dialog_step(*old(self), *final(self), key, r),
    {
        let dlg = self.dialog.take();
        if let Some(Dialog::TagFilter(mut d)) = dlg {
            match d.handle_key(key) {
                FilterOutcome::Stay => {
                    self.dialog = Some(Dialog::TagFilter(d));
                },
                FilterOutcome::Close => {},
                FilterOutcome::Select(t) => {
                    self.index.set_tag_filter(Some(t));
                },
                FilterOutcome::Clear => {
                    self.index.set_tag_filter(None);
                },
            }
        }
        Command::Nothing
    }

    fn route_tag_edit(&mut self, key: Key) -> (r: Command)
        requires
            old(self).wf(),
            old(self).dialog matches Some(Dialog::TagEdit(_)),
        ensures
            final(self).wf(),
            final(self).mode == old(self).mode,
            final(self).search_active == old(self).search_active,
            final(self).pending == old(self).pending,
            final(self).quit == old(self).quit,
            final(self).error == old(self).error,
            final(self).dialog is None || same_kind(old(self).dialog, final(self).dialog),
            TUIApp::dialog_step(*old(self), *final(self), key, r),
    {
        let dlg = self.dialog.take();
        let mut cmd = Command::Nothing;
        if let Some(Dialog::TagEdit(mut d)) = dlg {
            if let Some(m) = self.index.selected() {
                let n_tags = m.tags.len();
                let out = d.handle_key(key, n_tags);
                match out {
                    TagEditOutcome::Close => {},
                    TagEditOutcome::Stay => {
                        self.dialog = Some(Dialog::TagEdit(d));
                    },
                    TagEditOutcome::Add(t) => {
                        let tags = add_tag(&m.tags, t.as_str());
                        cmd = Command::SetTags { file_path: m.file_path.clone(), tags };
                        self.dialog = Some(Dialog::TagEdit(d));
                    },
                    TagEditOutcome::Remove(i) => {
                        let tags = remove_tag(&m.tags, m.tags[i].as_str());
                        cmd = Command::SetTags { file_path: m.file_path.clone(), tags };
                        self.dialog = Some(Dialog::TagEdit(d));
                    },
                }
            }
        }
        cmd
    }

    fn route_create(&mut self, key: Key) -> (r: Command)
        requires
            old(self).wf(),
            old(self).dialog matches Some(Dialog::Create(_)),
        ensures
            final(self).wf(),
            final(self).mode == old(self).mode,
            final(self).search_active == old(self).search_active,
            final(self).pending == old(self).pending,
            final(self).quit == old(self).quit,
            final(self).dialog is None || same_kind(old(self).dialog, final(self).dialog),
            key != Key::Enter ==> final(self).error == old(self).error,
            TUIApp::dialog_step(*old(self), *final(self), key, r),
    {
        let dlg = self.dialog.take();
        let mut cmd = Command::Nothing;
        if let Some(Dialog::Create(mut d)) = dlg {
            match d.handle_key(key) {
                CreateOutcome::Close => {},
                CreateOutcome::Stay => {
                    self.dialog = Some(Dialog::Create(d));
                },
                CreateOutcome::Confirm => {
                    let name = normalize(d.filename.as_str());
                    if self.index.contains_name(name.as_str()) {
                        self.error = Some(String::from_str("Prompt already exists: ").concat(d.filename.as_str()));
                        self.dialog = Some(Dialog::Create(d));
                    } else {
                        cmd = Command::Create {
                            name,
                            display_name: d.filename.clone(),
                            template: d.template,
                        };
                    }
                },
            }
        }
        cmd
    }

    fn route_search(&mut self, key: Key) -> (r: Command)
        requires
            old(self).wf(),
            old(self).dialog is None,
            old(self).error is None,
            old(self).search_active,
        ensures
            final(self).wf(),
            final(self).mode == old(self).mode,
            final(self).dialog is None,
            final(self).pending == old(self).pending,
            key != Key::Enter ==> final(self).error == old(self).error && final(self).quit == old(self).quit,
            TUIApp::search_step(*old(self), *final(self), key, r),
    {
        match key {
            Key::Esc => {
                self.search_active = false;
                self.index.set_query(String::new());
                Command::Nothing
            },
            Key::Char(c) => {
                let mut q = self.index.query().clone();
                push_char(&mut q, c);
                self.index.set_query(q);
                Command::Nothing
            },
            Key::Backspace => {
                if !self.index.query().as_str().is_empty() {
                    let mut q = self.index.query().clone();
                    pop_char(&mut q);
                    self.index.set_query(q);
                }
                Command::Nothing
            },
            Key::Enter => {
                if self.mode == AppMode::QuickSelect {
                    self.copy_exec()
                } else {
                    Command::Nothing
                }
            },
            _ => Command::Nothing,
        }
    }

    fn route_top(&mut self, key: Key) -> (r: Command)
        requires
            old(self).wf(),
            old(self).dialog is None,
            old(self).error is None,
            !old(self).search_active,
        ensures
            final(self).wf(),
            TUIApp::top_level_step(*old(self), *final(self), key, r),
    {
        let manage = self.mode == AppMode::Management;
        match key {
            Key::Esc | Key::Char('q') => {
                self.quit = true;
            },
            Key::Down | Key::Char('j') => {
                self.index.next();
            },
            Key::Up | Key::Char('k') => {
                self.index.previous();
            },
            Key::Enter => {
                if !manage {
                    return self.copy_exec();
                }
            },
            Key::Char('m') => {
                self.mode = if manage {
                    AppMode::QuickSelect
                } else {
                    AppMode::Management
                };
            },
            Key::Char('/') => {
                self.search_active = true;
            },
            Key::Char('f') => {
                let tags = self.index.all_tags();
                self.dialog = Some(Dialog::TagFilter(TagFilterDialog::new(tags)));
            },
            Key::Char('e') => {
                if manage && self.index.selected_index().is_some() {
                    self.pending = Some(PendingAction::Edit);
                }
            },
            Key::Char('d') => {
                if manage {
                    if let Some(p) = self.selected_path_exec() {
                        self.dialog = Some(Dialog::Confirm(ConfirmDialog { target: p }));
                    }
                }
            },
            Key::Char('n') => {
                if manage {
                    self.dialog = Some(Dialog::Create(CreateDialog::new()));
                }
            },
            Key::Char('t') => {
                if manage && self.index.selected_index().is_some() {
                    self.dialog = Some(Dialog::TagEdit(TagEditDialog::new()));
                }
            },
            _ => {},
        }
        Command::Nothing
    }

    /// Routes one key by the precedence: a shown error swallows it, then the
    /// open dialog, then search, then the top level.
    pub fn handle_key(&mut self, key: Key) -> (r: Command)
        requires
            old(self).wf(),
        ensures
            TUIApp::routed(*old(self), *final(self), key, r),
    {
        if self.error.is_some() {
            self.error = None;
            return Command::Nothing;
        }
        match &self.dialog {
            Some(Dialog::Confirm(_)) => return self.route_confirm(key),
            Some(Dialog::TagFilter(_)) => return self.route_filter(key),
            Some(Dialog::TagEdit(_)) => return self.route_tag_edit(key),
            Some(Dialog::Create(_)) => return self.route_create(key),
            None => {},
        }
        if self.search_active {
            self.route_search(key)
        } else {
            self.route_top(key)
        }
    }

    /// Shows an error; the next key only clears it.
    pub fn set_error(&mut self, message: String)
        ensures
            *final(self) == (TUIApp { error: Some(message), ..*old(self) }),
    {
        self.error = Some(message);
    }

    /// Whether an error is shown.
    pub fn has_error(&self) -> (r: bool)
        ensures
            r == self.error is Some,
    {
        self.error.is_some()
    }

    /// The error shown, if any.
    pub fn error_message(&self) -> (r: Option<&String>)
        ensures
            r == match self.error {
                Some(e) => Some(&e),
                None => None::<&String>,
            },
    {
        match &self.error {
            Some(e) => Some(e),
            None => None,
        }
    }

    /// Whether the run loop should stop.
    pub fn should_quit(&self) -> (r: bool)
        ensures
            r == self.quit,
    {
        self.quit
    }

    /// The current mode.
    pub fn mode(&self) -> (r: AppMode)
        ensures
            r == self.mode,
    {
        self.mode
    }

    /// Whether search is active.
    pub fn is_search_active(&self) -> (r: bool)
        ensures
            r == self.search_active,
    {
        self.search_active
    }

    /// Whether the delete confirmation is open.
    pub fn is_showing_confirmation(&self) -> (r: bool)
        ensures
            r == self.dialog matches Some(Dialog::Confirm(_)),
    {
        matches!(self.dialog, Some(Dialog::Confirm(_)))
    }

    /// Whether the tag-filter dialog is open.
    pub fn is_tag_filter_dialog_active(&self) -> (r: bool)
        ensures
            r == self.dialog matches Some(Dialog::TagFilter(_)),
    {
        matches!(self.dialog, Some(Dialog::TagFilter(_)))
    }

    /// Whether the tag-edit dialog is open.
    pub fn is_tag_management_active(&self) -> (r: bool)
        ensures
            r == self.dialog matches Some(Dialog::TagEdit(_)),
    {
        matches!(self.dialog, Some(Dialog::TagEdit(_)))
    }

    /// Whether the create dialog is open.
    pub fn is_create_dialog_active(&self) -> (r: bool)
        ensures
            r == self.dialog matches Some(Dialog::Create(_)),
    {
        matches!(self.dialog, Some(Dialog::Create(_)))
    }

    /// The create dialog, if open.
    pub fn get_create_dialog(&self) -> (r: Option<&CreateDialog>)
        ensures
            match self.dialog {
                Some(Dialog::Create(d)) => r == Some(&d),
                _ => r is None,
            },
    {
        match &self.dialog {
            Some(Dialog::Create(d)) => Some(d),
            _ => None,
        }
    }

    /// The tag-filter dialog, if open.
    pub fn get_tag_filter_dialog(&self) -> (r: Option<&TagFilterDialog>)
        ensures
            match self.dialog {
                Some(Dialog::TagFilter(d)) => r == Some(&d),
                _ => r is None,
            },
    {
        match &self.dialog {
            Some(Dialog::TagFilter(d)) => Some(d),
            _ => None,
        }
    }

    /// The tag-edit dialog, if open.
    pub fn get_tag_dialog(&self) -> (r: Option<&TagEditDialog>)
        ensures
            match self.dialog {
                Some(Dialog::TagEdit(d)) => r == Some(&d),
                _ => r is None,
            },
    {
        match &self.dialog {
            Some(Dialog::TagEdit(d)) => Some(d),
            _ => None,
        }
    }

    /// Hands the queued action to the run loop and clears it.
    pub fn take_pending_action(&mut self) -> (r: Option<PendingAction>)
        ensures
            r == old(self).pending,
            *final(self) == (TUIApp { pending: None, ..*old(self) }),
    {
        let p = self.pending;
        self.pending = None;
        p
    }

    /// Path, relative to the prompts directory, of the selected prompt.
    pub fn selected_file_path(&self) -> (r: Option<String>)
        requires
            self.wf(),
        ensures
            opt_view(r) == self.selected_path(),
    {
        self.selected_path_exec()
    }

    /// Replaces the records by a fresh scan (see [`PromptIndex::reload`]).
    /// A tag-edit dialog closes if nothing is selected any more.
    pub fn reload(&mut self, records: Vec<PromptMetadata>)
        requires
            old(self).wf(),
        ensures
            final(self).wf(),
            final(self).index.all_view().to_multiset() == crate::model::metas_view(records@).to_multiset(),
            final(self).index.filter_view() == old(self).index.filter_view(),
            final(self).index.query_view() == old(self).index.query_view(),
            final(self).index.selection() == follow_selection(
                final(self).index.visible_view(),
                reload_anchor(old(self).index, final(self).index.all_view()),
            ),
            final(self).mode == old(self).mode,
            final(self).search_active == old(self).search_active,
            final(self).pending == old(self).pending,
            final(self).error == old(self).error,
            final(self).quit == old(self).quit,
            (old(self).dialog matches Some(Dialog::TagEdit(_)) && final(self).index.selected_record() is None)
                ==> final(self).dialog is None,
            !(old(self).dialog matches Some(Dialog::TagEdit(_)) && final(self).index.selected_record() is None)
                ==> final(self).dialog == old(self).dialog,
    {
        self.index.reload(records);
        if self.index.selected_index().is_none() && matches!(self.dialog, Some(Dialog::TagEdit(_))) {
            self.dialog = None;
        }
    }
}

/// Routes key events to the application state.
pub struct EventHandler;

impl EventHandler {
    pub fn new() -> (r: Self) {
        EventHandler
    }

    /// Routes one key (see [`TUIApp::handle_key`]) and returns the work the
    /// run loop must do.
    pub fn handle_event(&self, app: &mut TUIApp, key: Key) -> (r: Command)
        requires
            old(app).wf(),
        ensures
            TUIApp::routed(*old(app), *final(app), key, r),
    {
        app.handle_key(key)
    }
}

/// The interactive surface: its application state.
pub struct TUI {
    app: TUIApp,
}

impl TUI {
    /// Starts in quick-select mode over `records`.
    pub fn new(records: Vec<PromptMetadata>) -> (r: Self)
        ensures
            r.app_view().fresh(records@, AppMode::QuickSelect),
    {
        TUI { app: TUIApp::new(records, AppMode::QuickSelect) }
    }

    pub closed spec fn app_view(&self) -> TUIApp {
        self.app
    }

    /// The application state.
    pub fn app(&self) -> (r: &TUIApp)
        ensures
            *r == self.app_view(),
    {
        &self.app
    }
}

/// Starts the interactive surface over `records`.
pub fn run_app(records: Vec<PromptMetadata>) -> (r: TUI)
    ensures
        r.app_view().fresh(records@, AppMode::QuickSelect),
{
    TUI::new(records)
}

} // verus!
