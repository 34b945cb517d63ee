//! The decisions of the command surface (list, get, create, edit, delete,
//! copy, search), made over the records of a directory scan. Reading and
//! writing the files is left to the caller.
use vstd::prelude::*;
use vstd::string::StringExecFns;
use crate::error::{FinkError, PromptError, ValidationError};
use crate::index::{first_named, has_tag, sort_by_name, sorted_by_name};
use crate::model::{MetaView, PromptMetadata, metas_view, strs_view};
use crate::naming::{normal_form, normalize};
use crate::text::{contains_folded, has_substring, lower_of, str_eq};

verus! {

/// Where a search looks.
#[derive(Clone, Copy, Debug, PartialEq, Eq, Structural)]
pub enum SearchType {
    Name,
    Tag,
    Content,
}

/// Whether a record (with its body) matches a case-insensitive search.
pub open spec fn search_hit(m: MetaView, body: Seq<char>, query: Seq<char>, kind: SearchType) -> bool {
    match kind {
        SearchType::Name => has_substring(lower_of(m.display), lower_of(query)),
        SearchType::Tag => exists|i: int|
            0 <= i < m.tags.len() && has_substring(lower_of(#[trigger] m.tags[i]), lower_of(query)),
        SearchType::Content => has_substring(lower_of(body), lower_of(query)),
    }
}

/// Positions, among the first `n`, of the records that match a search.
pub open spec fn hits_upto(
    all: Seq<MetaView>,
    bodies: Seq<Seq<char>>,
    query: Seq<char>,
    kind: SearchType,
    n: int,
) -> Seq<usize>
    decreases n,
{
    if n <= 0 {
        seq![]
    } else {
        let v = hits_upto(all, bodies, query, kind, n - 1);
        if search_hit(all[n - 1], bodies[n - 1], query, kind) {
            v.push((n - 1) as usize)
        } else {
            v
        }
    }
}

/// A record carries one of `tags`.
pub open spec fn carries_any(m: MetaView, tags: Seq<Seq<char>>) -> bool {
    exists|i: int| 0 <= i < tags.len() && m.tags.contains(#[trigger] tags[i])
}

/// The test "carries one of `tags`", as a predicate.
pub open spec fn carries_any_of(tags: Seq<Seq<char>>) -> spec_fn(MetaView) -> bool {
    |m: MetaView| carries_any(m, tags)
}

/// The path of a prompt file: the base path, the prompts directory, then
/// the file's path within it.
pub open spec fn file_path_under(base: Seq<char>, file: Seq<char>) -> Seq<char> {
    base + "/prompts/"@ + file
}

/// A `..` segment starts at position `i` of a `/`-separated path.
pub open spec fn parent_segment_at(p: Seq<char>, i: int) -> bool {
    &&& 0 <= i && i + 2 <= p.len()
    &&& p[i] == '.' && p[i + 1] == '.'
    &&& (i == 0 || p[i - 1] == '/')
    &&& (i + 2 == p.len() || p[i + 2] == '/')
}

/// A relative path that stays inside the directory it is resolved against:
/// not absolute, and without a `..` segment.
pub open spec fn stays_inside(p: Seq<char>) -> bool {
    !(p.len() > 0 && p[0] == '/') && !(exists|i: int| parent_segment_at(p, i))
}

/// The command surface's settings: where prompts live, and which editor
/// opens them (none: the caller's default).
pub struct DefaultPromptApplication {
    base_path: String,
    editor: Option<String>,
}

impl DefaultPromptApplication {
    pub closed spec fn base_view(&self) -> Seq<char> {
        self.base_path@
    }

    pub closed spec fn editor_view(&self) -> Option<Seq<char>> {
        match self.editor {
            Some(e) => Some(e@),
            None => None,
        }
    }

    /// Prompts under `base_path`, with the default editor.
    pub fn new(base_path: String) -> (r: Self)
        ensures
            r.base_view() == base_path@,
            r.editor_view() is None,
    {
        DefaultPromptApplication { base_path, editor: None }
    }

    /// Prompts under `storage_path`, opened with `editor`.
    pub fn with_config(storage_path: String, editor: String) -> (r: Self)
        ensures
            r.base_view() == storage_path@,
            r.editor_view() == Some(editor@),
    {
        DefaultPromptApplication { base_path: storage_path, editor: Some(editor) }
    }

    /// Switches to another editor.
    pub fn update_editor(&mut self, editor: &str)
        ensures
            final(self).base_view() == old(self).base_view(),
            final(self).editor_view() == Some(editor@),
    {
        self.editor = Some(String::from_str(editor));
    }

    /// The base path.
    pub fn base_path(&self) -> (r: &String)
        ensures
            r@ == self.base_view(),
    {
        &self.base_path
    }

    /// The configured editor, if any.
    pub fn editor(&self) -> (r: Option<&String>)
        ensures
            match self.editor_view() {
                Some(e) => (r matches Some(s) && s@ == e),
                None => r is None,
            },
    {
        match &self.editor {
            Some(e) => Some(e),
            None => None,
        }
    }

    /// The full path of a prompt file given relative to the prompts directory.
    pub fn prompt_file_path(&self, file_path: &str) -> (r: String)
        ensures
            r@ == file_path_under(self.base_view(), file_path@),
    {
        let a = self.base_path.clone().concat("/prompts/");
        a.concat(file_path)
    }

    /// The first record named `name`, or `NotFound` when there is none.
    pub fn find_prompt(records: &Vec<PromptMetadata>, name: &str) -> (r: Result<usize, FinkError>)
        ensures
            match first_named(metas_view(records@), name@, records@.len() as int) {
                Some(i) => r == Ok::<usize, FinkError>(i),
                None => (r matches Err(FinkError::Prompt(PromptError::NotFound(n))) && n@ == name@),
            },
    {
        let mut i: usize = 0;
        while i < records.len()
            invariant
                i <= records@.len(),
                first_named(metas_view(records@), name@, i as int) is None,
            decreases records.len() - i,
        {
            if str_eq(records[i].name.as_str(), name) {
                proof {
                    lemma_first_named_from(metas_view(records@), name@, i as int + 1, records@.len() as int);
                }
                return Ok(i);
            }
            i += 1;
        }
        Err(FinkError::Prompt(PromptError::NotFound(String::from_str(name))))
    }

    /// Decides a deletion: the prompt must exist, and without `force` the
    /// deletion is refused with a message that points to `--force`.
    pub fn check_delete(records: &Vec<PromptMetadata>, name: &str, force: bool) -> (r: Result<
        usize,
        FinkError,
    >)
        ensures
            match first_named(metas_view(records@), name@, records@.len() as int) {
                Some(i) => if force {
                    r == Ok::<usize, FinkError>(i)
                } else {
                    (r matches Err(FinkError::Validation(ValidationError::InvalidInput(f, m)))
                        && f@ == "confirmation"@ && m@
                        == "Deletion cancelled. Use --force to skip confirmation."@)
                },
                None => (r matches Err(FinkError::Prompt(PromptError::NotFound(n))) && n@ == name@),
            },
    {
        let i = Self::find_prompt(records, name)?;
        if !force {
            return Err(
                FinkError::Validation(
                    ValidationError::InvalidInput(
                        String::from_str("confirmation"),
                        String::from_str("Deletion cancelled. Use --force to skip confirmation."),
                    ),
                ),
            );
        }
        Ok(i)
    }

    /// Decides a creation: the normalized name under which the prompt is to
    /// be written; `MissingRequired` when that name is empty, `AlreadyExists`
    /// when a record has it.
    pub fn check_create(records: &Vec<PromptMetadata>, name: &str) -> (r: Result<String, FinkError>)
        ensures
            normal_form(name@).len() == 0 ==> (r matches Err(
                FinkError::Validation(ValidationError::MissingRequired(f)),
            ) && f@ == "name"@),
            normal_form(name@).len() > 0 && (exists|i: int|
                0 <= i < records@.len() && #[trigger] records@[i].name@ == normal_form(name@)) ==> (
            r matches Err(FinkError::Prompt(PromptError::AlreadyExists(n))) && n@ == name@),
            normal_form(name@).len() > 0 && !(exists|i: int|
                0 <= i < records@.len() && #[trigger] records@[i].name@ == normal_form(name@)) ==> (
            r matches Ok(s) && s@ == normal_form(name@)),
    {
        let normalized = normalize(name);
        if normalized.as_str().is_empty() {
            return Err(FinkError::Validation(ValidationError::MissingRequired(String::from_str("name"))));
        }
        let mut i: usize = 0;
        while i < records.len()
            invariant
                i <= records@.len(),
                normalized@ == normal_form(name@),
                normal_form(name@).len() > 0,
                forall|k: int| 0 <= k < i ==> #[trigger] records@[k].name@ != normal_form(name@),
            decreases records.len() - i,
        {
            if str_eq(records[i].name.as_str(), normalized.as_str()) {
                return Err(FinkError::Prompt(PromptError::AlreadyExists(String::from_str(name))));
            }
            i += 1;
        }
        Ok(normalized)
    }

    /// The records that carry one of `tags` (all of them without a tag
    /// list), ordered by name.
    pub fn list_prompts(records: Vec<PromptMetadata>, tags: Option<Vec<String>>) -> (r: Vec<
        PromptMetadata,
    >)
        ensures
            sorted_by_name(metas_view(r@)),
            match tags {
                None => metas_view(r@).to_multiset() == metas_view(records@).to_multiset(),
                Some(t) => metas_view(r@).to_multiset() == metas_view(records@).filter(
                    carries_any_of(strs_view(t@)),
                ).to_multiset(),
            },
    {
        match tags {
            None => sort_by_name(records),
            Some(t) => sort_by_name(Self::filter_by_tags(records, &t)),
        }
    }

    fn filter_by_tags(records: Vec<PromptMetadata>, t: &Vec<String>) -> (r: Vec<PromptMetadata>)
        ensures
            metas_view(r@) == metas_view(records@).filter(carries_any_of(strs_view(t@))),
    {
        let ghost pred = carries_any_of(strs_view(t@));
        let mut out: Vec<PromptMetadata> = Vec::new();
        let mut rest = records;
        let ghost orig = metas_view(rest@);
        let n = rest.len();
        let mut i: usize = 0;
        proof {
            assert(orig.subrange(0, orig.len() as int) =~= orig);
            assert(orig.subrange(0, 0) =~= seq![]);
            assert(metas_view(out@) =~= seq![]);
        }
        while rest.len() > 0
            invariant
                pred == carries_any_of(strs_view(t@)),
                orig.len() == n,
                i <= orig.len(),
                i + rest@.len() == orig.len(),
                metas_view(rest@) == orig.subrange(i as int, orig.len() as int),
                metas_view(out@) == orig.subrange(0, i as int).filter(pred),
            decreases rest@.len(),
        {
            let ghost r0 = metas_view(rest@);
            let m = rest.remove(0);
            proof {
                assert(r0[0] == orig[i as int]);
                assert(m@ == orig[i as int]);
                assert(orig.subrange(0, i + 1) =~= orig.subrange(0, i as int).push(m@));
                orig.subrange(0, i as int).lemma_filter_push(m@, pred);
                assert(metas_view(rest@) =~= r0.remove(0));
                assert(r0.remove(0) =~= orig.subrange(i + 1, orig.len() as int));
            }
            let keep = carries_any_exec(&m, t);
            proof {
                assert(keep == pred(m@));
                let pre = orig.subrange(0, i as int);
                if keep {
                    assert(pre.push(m@).filter(pred) == pre.filter(pred).push(m@));
                } else {
                    assert(pre.push(m@).filter(pred) == pre.filter(pred));
                }
            }
            if keep {
                out.push(m);
                proof {
                    assert(metas_view(out@) =~= orig.subrange(0, i as int).filter(pred).push(
                        orig[i as int],
                    ));
                }
            }
            i += 1;
        }
        proof {
            assert(orig.subrange(0, i as int) =~= orig);
        }
        out
    }

    /// Positions of the records that match a case-insensitive search on
    /// the display name, on any tag, or on the body (`bodies[i]` is the
    /// body of `records[i]`).
    pub fn search_prompts(
        records: &Vec<PromptMetadata>,
        bodies: &Vec<String>,
        query: &str,
        kind: SearchType,
    ) -> (r: Vec<usize>)
        requires
            bodies@.len() == records@.len(),
        ensures
            r@ == hits_upto(
                metas_view(records@),
                strs_view(bodies@),
                query@,
                kind,
                records@.len() as int,
            ),
    {
        let mut out: Vec<usize> = Vec::new();
        let mut i: usize = 0;
        while i < records.len()
            invariant
                i <= records@.len(),
                bodies@.len() == records@.len(),
                out@ == hits_upto(metas_view(records@), strs_view(bodies@), query@, kind, i as int),
            decreases records.len() - i,
        {
            let m = &records[i];
            let hit = match kind {
                SearchType::Name => contains_folded(m.display_name.as_str(), query),
                SearchType::Tag => {
                    let h = any_tag_contains(&m.tags, query);
                    proof {
                        let mv = metas_view(records@)[i as int];
                        assert(mv.tags == strs_view(m.tags@));
                        if h {
                            let j = choose|j: int|
                                0 <= j < strs_view(m.tags@).len() && has_substring(
                                    lower_of(#[trigger] strs_view(m.tags@)[j]),
                                    lower_of(query@),
                                );
                            assert(has_substring(lower_of(mv.tags[j]), lower_of(query@)));
                        }
                    }
                    h
                },
                SearchType::Content => contains_folded(bodies[i].as_str(), query),
            };
            proof {
                assert(metas_view(records@)[i as int] == records@[i as int]@);
                assert(strs_view(bodies@)[i as int] == bodies@[i as int]@);
                assert(hit == search_hit(
                    metas_view(records@)[i as int],
                    strs_view(bodies@)[i as int],
                    query@,
                    kind,
                ));
            }
            if hit {
                out.push(i);
            }
            i += 1;
        }
        out
    }

    /// Checks a path given relative to the prompts directory; `InvalidPath`
    /// when it would leave that directory.
    pub fn check_relative_path(path: &str) -> (r: Result<(), FinkError>)
        ensures
            stays_inside(path@) ==> r is Ok,
            !stays_inside(path@) ==> (r matches Err(
                FinkError::Storage(crate::error::StorageError::InvalidPath(q)),
            ) && q@ == path@),
    {
        let v = crate::text::chars_of(path);
        let n = v.len();
        let bad = if n > 0 && v[0] == '/' {
            true
        } else {
            let mut found = false;
            let mut i: usize = 0;
            while i < n
                invariant_except_break
                    !found,
                invariant
                    v@ == path@,
                    n == v@.len(),
                    i <= n,
                    forall|k: int| 0 <= k < i ==> !parent_segment_at(path@, k),
                ensures
                    found ==> exists|k: int| parent_segment_at(path@, k),
                    !found ==> forall|k: int| 0 <= k < n ==> !parent_segment_at(path@, k),
                decreases n - i,
            {
                if n - i >= 2 && v[i] == '.' && v[i + 1] == '.' && (i == 0 || v[i - 1] == '/') && (n - i == 2
                    || v[i + 2] == '/') {
                    found = true;
                    assert(parent_segment_at(path@, i as int));
                    break;
                }
                i += 1;
            }
            found
        };
        if bad {
            Err(FinkError::Storage(crate::error::StorageError::InvalidPath(String::from_str(path))))
        } else {
            Ok(())
        }
    }
}

fn any_tag_contains(tags: &Vec<String>, query: &str) -> (r: bool)
    ensures
        r == exists|i: int|
            0 <= i < strs_view(tags@).len() && has_substring(lower_of(#[trigger] strs_view(tags@)[i]), lower_of(query@)),
{
    let mut i: usize = 0;
    while i < tags.len()
        invariant
            i <= tags@.len(),
            forall|k: int| 0 <= k < i ==> !has_substring(lower_of(#[trigger] strs_view(tags@)[k]), lower_of(query@)),
        decreases tags.len() - i,
    {
        if contains_folded(tags[i].as_str(), query) {
            assert(strs_view(tags@)[i as int] == tags@[i as int]@);
            return true;
        }
        assert(strs_view(tags@)[i as int] == tags@[i as int]@);
        i += 1;
    }
    false
}

fn carries_any_exec(m: &PromptMetadata, tags: &Vec<String>) -> (r: bool)
    ensures
        r == carries_any(m@, strs_view(tags@)),
{
    let mut i: usize = 0;
    while i < tags.len()
        invariant
            i <= tags@.len(),
            forall|k: int| 0 <= k < i ==> !m@.tags.contains(#[trigger] strs_view(tags@)[k]),
        decreases tags.len() - i,
    {
        if has_tag(&m.tags, tags[i].as_str()) {
            assert(strs_view(tags@)[i as int] == tags@[i as int]@);
            return true;
        }
        assert(strs_view(tags@)[i as int] == tags@[i as int]@);
        i += 1;
    }
    false
}

proof fn lemma_first_named_from(all: Seq<MetaView>, name: Seq<char>, m: int, n: int)
    requires
        0 < m <= n,
        first_named(all, name, m) is Some,
    ensures
        first_named(all, name, n) == first_named(all, name, m),
    decreases n - m,
{
    if n > m {
        lemma_first_named_from(all, name, m, n - 1);
    }
}

/// What the interactive surface does with a failed operation.
#[derive(Clone, Copy, Debug, PartialEq, Eq, Structural)]
pub enum ErrorAction {
    /// Show the error and give control back to the user.
    Banner,
    /// Restore the terminal and end with the error.
    Exit,
}

/// Recoverable errors (a missing or duplicate prompt, refused input) and
/// any other error about a prompt are shown; the others end the session.
pub fn error_action(e: &FinkError) -> (r: ErrorAction)
    ensures
        r == (if e.is_recoverable_spec() || e matches FinkError::Prompt(_) {
            ErrorAction::Banner
        } else {
            ErrorAction::Exit
        }),
{
    if e.is_recoverable() {
        return ErrorAction::Banner;
    }
    match e {
        FinkError::Prompt(_) => ErrorAction::Banner,
        _ => ErrorAction::Exit,
    }
}

} // verus!
