//! The dialog models: confirmation, tag filter, tag edit and create. Each is
//! a small state machine over keys; committing what a dialog decided is the
//! application state's work.
use vstd::prelude::*;
use crate::input::Key;
use crate::model::strs_view;
use crate::naming::normal_form;
use crate::text::{pop_char, push_char};

verus! {

/// What a confirmation dialog makes of a key: `Some(true)` to confirm,
/// `Some(false)` to decline, `None` to keep asking.
pub open spec fn confirm_answer(key: Key) -> Option<bool> {
    match key {
        Key::Char(c) => if c == 'y' || c == 'Y' {
            Some(true)
        } else if c == 'n' || c == 'N' {
            Some(false)
        } else {
            None
        },
        Key::Esc => Some(false),
        _ => None,
    }
}

/// A yes/no question about deleting one prompt.
pub struct ConfirmDialog {
    /// Path of the prompt file to delete, relative to the prompts directory.
    pub target: String,
}

impl ConfirmDialog {
    /// Reads a key.
    pub fn answer(key: Key) -> (r: Option<bool>)
        ensures
            r == confirm_answer(key),
    {
        match key {
            Key::Char(c) => if c == 'y' || c == 'Y' {
                Some(true)
            } else if c == 'n' || c == 'N' {
                Some(false)
            } else {
                None
            },
            Key::Esc => Some(false),
            _ => None,
        }
    }
}

/// What the tag-filter dialog asks for after a key.
pub enum FilterOutcome {
    /// Keep the dialog open.
    Stay,
    /// Close the dialog, leaving the filter as it is.
    Close,
    /// Close the dialog and filter by this tag.
    Select(String),
    /// Close the dialog and clear the filter.
    Clear,
}

/// The tag-filter cursor after a key: up and down move it, stopping at the
/// ends; other keys leave it.
pub open spec fn filter_cursor_after(d: TagFilterDialog, key: Key) -> usize {
    match key {
        Key::Up => step_up(d.cursor),
        Key::Down => if d.cursor + 1 < d.tags@.len() {
            (d.cursor + 1) as usize
        } else {
            d.cursor
        },
        _ => d.cursor,
    }
}

/// A list of tags with a cursor.
pub struct TagFilterDialog {
    pub tags: Vec<String>,
    pub cursor: usize,
}

impl TagFilterDialog {
    /// The cursor is on a tag, or at 0 when there are none.
    pub open spec fn wf(&self) -> bool {
        self.cursor == 0 || self.cursor < self.tags@.len()
    }

    /// Opens the dialog over `tags`, the cursor on the first.
    pub fn new(tags: Vec<String>) -> (r: Self)
        ensures
            r.wf(),
            strs_view(r.tags@) == strs_view(tags@),
            r.cursor == 0,
    {
        TagFilterDialog { tags, cursor: 0 }
    }

    /// Moves the cursor up, stopping at the first tag.
    pub fn move_up(&mut self)
        requires
            old(self).wf(),
        ensures
            final(self).wf(),
            final(self).tags == old(self).tags,
            final(self).cursor == if old(self).cursor > 0 {
                (old(self).cursor - 1) as usize
            } else {
                0
            },
    {
        if self.cursor > 0 {
            self.cursor -= 1;
        }
    }

    /// Moves the cursor down, stopping at the last tag.
    pub fn move_down(&mut self)
        requires
            old(self).wf(),
        ensures
            final(self).wf(),
            final(self).tags == old(self).tags,
            final(self).cursor == if old(self).cursor + 1 < old(self).tags@.len() {
                (old(self).cursor + 1) as usize
            } else {
                old(self).cursor
            },
    {
        let n = self.tags.len();
        if self.cursor < n && n - self.cursor > 1 {
            self.cursor += 1;
        }
    }

    /// The tag under the cursor, if any.
    pub fn get_selected_tag(&self) -> (r: Option<&String>)
        ensures
            self.cursor < self.tags@.len() ==> (r matches Some(t) && t@ == self.tags@[self.cursor as int]@),
            self.cursor >= self.tags@.len() ==> r is None,
    {
        if self.cursor < self.tags.len() {
            Some(&self.tags[self.cursor])
        } else {
            None
        }
    }

    /// Handles one key: up and down move, Enter picks the tag under the
    /// cursor, `c` clears the filter, Esc closes.
    pub fn handle_key(&mut self, key: Key) -> (r: FilterOutcome)
        requires
            old(self).wf(),
        ensures
            final(self).wf(),
            final(self).tags == old(self).tags,
            final(self).cursor == filter_cursor_after(*old(self), key),
            match key {
                Key::Esc => r is Close,
                Key::Enter => if old(self).cursor < old(self).tags@.len() {
                    r matches FilterOutcome::Select(t) && t@ == old(self).tags@[old(
                        self,
                    ).cursor as int]@
                } else {
                    r is Close
                },
                Key::Char(c) => if c == 'c' {
                    r is Clear
                } else {
                    r is Stay
                },
                _ => r is Stay,
            },
    {
        match key {
            Key::Esc => FilterOutcome::Close,
            Key::Up => {
                self.move_up();
                FilterOutcome::Stay
            },
            Key::Down => {
                self.move_down();
                FilterOutcome::Stay
            },
            Key::Enter => match self.get_selected_tag() {
                Some(t) => FilterOutcome::Select(t.clone()),
                None => FilterOutcome::Close,
            },
            Key::Char(c) => if c == 'c' {
                FilterOutcome::Clear
            } else {
                FilterOutcome::Stay
            },
            _ => FilterOutcome::Stay,
        }
    }
}

/// The sub-state of the tag-edit dialog.
#[derive(Clone, Copy, Debug, PartialEq, Eq, Structural)]
pub enum TagInputMode {
    ViewTags,
    AddingTag,
    RemovingTag,
}

/// What the tag-edit dialog asks for after a key.
pub enum TagEditOutcome {
    /// Nothing to do beyond the dialog's own change.
    Stay,
    /// Close the dialog.
    Close,
    /// Add this tag to the selected prompt.
    Add(String),
    /// Remove the tag at this position of the selected prompt's tags.
    Remove(usize),
}

/// Adds tags to, or removes them from, the selected prompt. The tag list
/// itself is the prompt's; the dialog holds only its own input.
pub struct TagEditDialog {
    pub mode: TagInputMode,
    pub buffer: String,
    pub cursor: usize,
}

/// The cursor one step up, stopping at 0.
pub open spec fn step_up(c: usize) -> usize {
    if c > 0 {
        (c - 1) as usize
    } else {
        0
    }
}

/// The tag-edit dialog after a key, where the prompt has `n_tags` tags.
pub open spec fn tag_edit_after(o: TagEditDialog, n: TagEditDialog, key: Key, n_tags: int) -> bool {
    match o.mode {
        TagInputMode::ViewTags => match key {
            Key::Char(c) => if c == 'a' {
                n.mode == TagInputMode::AddingTag && n.buffer@ == Seq::<char>::empty() && n.cursor
                    == o.cursor
            } else if c == 'r' {
                n.mode == TagInputMode::RemovingTag && n.cursor == 0 && n.buffer@ == o.buffer@
            } else {
                n == o
            },
            _ => n == o,
        },
        TagInputMode::AddingTag => match key {
            Key::Esc | Key::Enter => n.mode == TagInputMode::ViewTags && n.buffer@
                == Seq::<char>::empty() && n.cursor == o.cursor,
            Key::Char(c) => n.mode == o.mode && n.buffer@ == o.buffer@.push(c) && n.cursor
                == o.cursor,
            Key::Backspace => n.mode == o.mode && n.buffer@ == (if o.buffer@.len() > 0 {
                o.buffer@.drop_last()
            } else {
                o.buffer@
            }) && n.cursor == o.cursor,
            _ => n == o,
        },
        TagInputMode::RemovingTag => match key {
            Key::Esc | Key::Enter => n.mode == TagInputMode::ViewTags && n.buffer@ == o.buffer@
                && n.cursor == 0,
            Key::Up => n.mode == o.mode && n.buffer@ == o.buffer@ && n.cursor == step_up(o.cursor),
            Key::Down => n.mode == o.mode && n.buffer@ == o.buffer@ && n.cursor == (if o.cursor + 1
                < n_tags {
                (o.cursor + 1) as usize
            } else {
                o.cursor
            }),
            _ => n == o,
        },
    }
}

/// What the tag-edit dialog asks for after a key.
pub open spec fn tag_edit_outcome(o: TagEditDialog, key: Key, n_tags: int, r: TagEditOutcome) -> bool {
    match o.mode {
        TagInputMode::ViewTags => if key == Key::Esc {
            r is Close
        } else {
            r is Stay
        },
        TagInputMode::AddingTag => if key == Key::Enter && o.buffer@.len() > 0 {
            (r matches TagEditOutcome::Add(t) && t@ == o.buffer@)
        } else {
            r is Stay
        },
        TagInputMode::RemovingTag => if key == Key::Enter && o.cursor < n_tags {
            r == TagEditOutcome::Remove(o.cursor)
        } else {
            r is Stay
        },
    }
}

impl TagEditDialog {
    /// Opens the dialog in its viewing state.
    pub fn new() -> (r: Self)
        ensures
            r.mode == TagInputMode::ViewTags,
            r.buffer@ == Seq::<char>::empty(),
            r.cursor == 0,
    {
        TagEditDialog { mode: TagInputMode::ViewTags, buffer: String::new(), cursor: 0 }
    }

    /// The current sub-state.
    pub fn input_mode(&self) -> (r: TagInputMode)
        ensures
            r == self.mode,
    {
        self.mode
    }

    /// Handles one key, where the selected prompt has `n_tags` tags.
    pub fn handle_key(&mut self, key: Key, n_tags: usize) -> (r: TagEditOutcome)
        ensures
            tag_edit_after(*old(self), *final(self), key, n_tags as int),
            tag_edit_outcome(*old(self), key, n_tags as int, r),
    {
        match self.mode {
            TagInputMode::ViewTags => match key {
                Key::Esc => TagEditOutcome::Close,
                Key::Char(c) => {
                    if c == 'a' {
                        self.mode = TagInputMode::AddingTag;
                        self.buffer = String::new();
                    } else if c == 'r' {
                        self.mode = TagInputMode::RemovingTag;
                        self.cursor = 0;
                    }
                    TagEditOutcome::Stay
                },
                _ => TagEditOutcome::Stay,
            },
            TagInputMode::AddingTag => match key {
                Key::Esc => {
                    self.mode = TagInputMode::ViewTags;
                    self.buffer = String::new();
                    TagEditOutcome::Stay
                },
                Key::Enter => {
                    let tag = self.buffer.clone();
                    self.buffer = String::new();
                    self.mode = TagInputMode::ViewTags;
                    if tag.as_str().is_empty() {
                        TagEditOutcome::Stay
                    } else {
                        TagEditOutcome::Add(tag)
                    }
                },
                Key::Char(c) => {
                    push_char(&mut self.buffer, c);
                    TagEditOutcome::Stay
                },
                Key::Backspace => {
                    pop_char(&mut self.buffer);
                    TagEditOutcome::Stay
                },
                _ => TagEditOutcome::Stay,
            },
            TagInputMode::RemovingTag => match key {
                Key::Esc => {
                    self.mode = TagInputMode::ViewTags;
                    self.cursor = 0;
                    TagEditOutcome::Stay
                },
                Key::Up => {
                    if self.cursor > 0 {
                        self.cursor -= 1;
                    }
                    TagEditOutcome::Stay
                },
                Key::Down => {
                    if self.cursor < n_tags && n_tags - self.cursor > 1 {
                        self.cursor += 1;
                    }
                    TagEditOutcome::Stay
                },
                Key::Enter => {
                    let c = self.cursor;
                    self.mode = TagInputMode::ViewTags;
                    self.cursor = 0;
                    if c < n_tags {
                        TagEditOutcome::Remove(c)
                    } else {
                        TagEditOutcome::Stay
                    }
                },
                _ => TagEditOutcome::Stay,
            },
        }
    }
}

/// The number of templates the create dialog offers; the first is "none".
pub const TEMPLATE_COUNT: usize = 3;

/// The name of template `i`.
pub open spec fn template_label(i: usize) -> Seq<char> {
    if i == 0 {
        "none"@
    } else if i == 1 {
        "default"@
    } else {
        "basic"@
    }
}

/// The name of template `i`.
pub fn template_name(i: usize) -> (r: &'static str)
    requires
        i < TEMPLATE_COUNT,
    ensures
        r@ == template_label(i),
{
    if i == 0 {
        "none"
    } else if i == 1 {
        "default"
    } else {
        "basic"
    }
}

/// The field of the create dialog that has the cursor.
#[derive(Clone, Copy, Debug, PartialEq, Eq, Structural)]
pub enum DialogField {
    Filename,
    Template,
}

/// What the create dialog asks for after a key.
#[derive(Clone, Copy, Debug, PartialEq, Eq, Structural)]
pub enum CreateOutcome {
    Stay,
    Close,
    Confirm,
}

/// Template `t` moved one step forward, wrapping around.
pub open spec fn template_after(t: usize) -> usize {
    if t + 1 < TEMPLATE_COUNT {
        (t + 1) as usize
    } else {
        0
    }
}

/// Template `t` moved one step back, wrapping around.
pub open spec fn template_before(t: usize) -> usize {
    if t > 0 {
        (t - 1) as usize
    } else {
        (TEMPLATE_COUNT - 1) as usize
    }
}

/// The other field.
pub open spec fn field_after(f: DialogField) -> DialogField {
    match f {
        DialogField::Filename => DialogField::Template,
        DialogField::Template => DialogField::Filename,
    }
}

/// The create dialog after a key.
pub open spec fn create_after(o: CreateDialog, n: CreateDialog, key: Key) -> bool {
    let on_template = o.field == DialogField::Template;
    match key {
        Key::Tab => n.field == field_after(o.field) && n.filename == o.filename && n.template
            == o.template,
        Key::Left => n.field == o.field && n.filename == o.filename && n.template == (if on_template {
            template_before(o.template)
        } else {
            o.template
        }),
        Key::Right => n.field == o.field && n.filename == o.filename && n.template == (if on_template {
            template_after(o.template)
        } else {
            o.template
        }),
        Key::Char(c) => n.field == o.field && (if on_template {
            n.filename == o.filename && n.template == (if c == 'h' {
                template_before(o.template)
            } else if c == 'l' {
                template_after(o.template)
            } else {
                o.template
            })
        } else {
            n.filename@ == o.filename@.push(c) && n.template == o.template
        }),
        Key::Backspace => n.field == o.field && n.template == o.template && (if on_template {
            n.filename == o.filename
        } else {
            n.filename@ == (if o.filename@.len() > 0 {
                o.filename@.drop_last()
            } else {
                o.filename@
            })
        }),
        _ => n == o,
    }
}

/// What the create dialog asks for after a key.
pub open spec fn create_outcome(o: CreateDialog, key: Key) -> CreateOutcome {
    match key {
        Key::Esc => CreateOutcome::Close,
        Key::Enter => if o.valid() {
            CreateOutcome::Confirm
        } else {
            CreateOutcome::Stay
        },
        _ => CreateOutcome::Stay,
    }
}

/// The dialog that creates a prompt: a file name and a template.
pub struct CreateDialog {
    pub filename: String,
    pub template: usize,
    pub field: DialogField,
}

impl CreateDialog {
    pub open spec fn wf(&self) -> bool {
        self.template < TEMPLATE_COUNT
    }

    /// The dialog can be committed: the file name is not empty once
    /// normalized.
    pub open spec fn valid(&self) -> bool {
        normal_form(self.filename@).len() > 0
    }

    /// Opens the dialog: empty file name, template "none", cursor on the
    /// file name.
    pub fn new() -> (r: Self)
        ensures
            r.wf(),
            r.filename@ == Seq::<char>::empty(),
            r.template == 0,
            r.field == DialogField::Filename,
    {
        CreateDialog { filename: String::new(), template: 0, field: DialogField::Filename }
    }

    /// The field with the cursor.
    pub fn current_field(&self) -> (r: DialogField)
        ensures
            r == self.field,
    {
        self.field
    }

    /// Appends a character to the file name.
    pub fn add_char(&mut self, c: char)
        ensures
            final(self).filename@ == old(self).filename@.push(c),
            final(self).template == old(self).template,
            final(self).field == old(self).field,
    {
        push_char(&mut self.filename, c);
    }

    /// Deletes the last character of the file name, if any.
    pub fn delete_char(&mut self)
        ensures
            final(self).filename@ == if old(self).filename@.len() > 0 {
                old(self).filename@.drop_last()
            } else {
                old(self).filename@
            },
            final(self).template == old(self).template,
            final(self).field == old(self).field,
    {
        pop_char(&mut self.filename);
    }

    /// Moves the cursor to the other field.
    pub fn next_field(&mut self)
        ensures
            final(self).field == field_after(old(self).field),
            final(self).filename == old(self).filename,
            final(self).template == old(self).template,
    {
        self.field = match self.field {
            DialogField::Filename => DialogField::Template,
            DialogField::Template => DialogField::Filename,
        };
    }

    /// Selects the next template, wrapping around.
    pub fn next_template(&mut self)
        requires
            old(self).wf(),
        ensures
            final(self).wf(),
            final(self).template == template_after(old(self).template),
            final(self).filename == old(self).filename,
            final(self).field == old(self).field,
    {
        if self.template + 1 < TEMPLATE_COUNT {
            self.template += 1;
        } else {
            self.template = 0;
        }
    }

    /// Selects the previous template, wrapping around.
    pub fn previous_template(&mut self)
        requires
            old(self).wf(),
        ensures
            final(self).wf(),
            final(self).template == template_before(old(self).template),
            final(self).filename == old(self).filename,
            final(self).field == old(self).field,
    {
        if self.template > 0 {
            self.template -= 1;
        } else {
            self.template = TEMPLATE_COUNT - 1;
        }
    }

    /// Whether the dialog can be committed.
    pub fn is_valid(&self) -> (r: bool)
        ensures
            r == self.valid(),
    {
        !crate::naming::normalize(self.filename.as_str()).as_str().is_empty()
    }

    /// The name of the selected template.
    pub fn template_name(&self) -> (r: &'static str)
        requires
            self.wf(),
        ensures
            r@ == template_label(self.template),
    {
        template_name(self.template)
    }

    /// Handles one key. On the file name, every character is typed in,
    /// `h` and `l` included; on the template, left/right and `h`/`l` move
    /// among templates and other characters are ignored. Tab switches
    /// field, Enter commits a valid dialog, Esc closes.
    pub fn handle_key(&mut self, key: Key) -> (r: CreateOutcome)
        requires
            old(self).wf(),
        ensures
            final(self).wf(),
            create_after(*old(self), *final(self), key),
            r == create_outcome(*old(self), key),
    {
        let on_template = self.field == DialogField::Template;
        match key {
            Key::Esc => CreateOutcome::Close,
            Key::Enter => if self.is_valid() {
                CreateOutcome::Confirm
            } else {
                CreateOutcome::Stay
            },
            Key::Tab => {
                self.next_field();
                CreateOutcome::Stay
            },
            Key::Left => {
                if on_template {
                    self.previous_template();
                }
                CreateOutcome::Stay
            },
            Key::Right => {
                if on_template {
                    self.next_template();
                }
                CreateOutcome::Stay
            },
            Key::Char(c) => {
                if on_template {
                    if c == 'h' {
                        self.previous_template();
                    } else if c == 'l' {
                        self.next_template();
                    }
                } else {
                    self.add_char(c);
                }
                CreateOutcome::Stay
            },
            Key::Backspace => {
                if !on_template {
                    self.delete_char();
                }
                CreateOutcome::Stay
            },
            _ => CreateOutcome::Stay,
        }
    }
}

} // verus!
