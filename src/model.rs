//! The metadata record of one prompt.
use vstd::prelude::*;
use vstd::string::StringExecFns;
use crate::text::str_eq;

verus! {

/// Metadata of one prompt file.
pub struct PromptMetadata {
    /// Normalized name: the prompt's identity.
    pub name: String,
    /// Human-readable name, for presentation.
    pub display_name: String,
    /// Tags, in order, without duplicates.
    pub tags: Vec<String>,
    /// Path of the file, relative to the prompts directory.
    pub file_path: String,
}

/// The mathematical value of a [`PromptMetadata`].
pub struct MetaView {
    pub name: Seq<char>,
    pub display: Seq<char>,
    pub tags: Seq<Seq<char>>,
    pub path: Seq<char>,
}

/// The character sequences held by a vector of strings.
pub open spec fn strs_view(v: Seq<String>) -> Seq<Seq<char>> {
    v.map_values(|t: String| t@)
}

impl View for PromptMetadata {
    type V = MetaView;

    open spec fn view(&self) -> MetaView {
        MetaView {
            name: self.name@,
            display: self.display_name@,
            tags: strs_view(self.tags@),
            path: self.file_path@,
        }
    }
}

/// The views of a sequence of records.
pub open spec fn metas_view(v: Seq<PromptMetadata>) -> Seq<MetaView> {
    v.map_values(|m: PromptMetadata| m@)
}

/// Copies a vector of strings, keeping every character.
pub fn copy_strings(v: &Vec<String>) -> (r: Vec<String>)
    ensures
        strs_view(r@) == strs_view(v@),
{
    let mut out: Vec<String> = Vec::new();
    let mut i: usize = 0;
    while i < v.len()
        invariant
            i <= v@.len(),
            strs_view(out@) =~= strs_view(v@.subrange(0, i as int)),
        decreases v.len() - i,
    {
        out.push(v[i].clone());
        assert(strs_view(v@.subrange(0, i + 1)) =~= strs_view(v@.subrange(0, i as int)).push(
            v@[i as int]@,
        ));
        i += 1;
    }
    assert(v@.subrange(0, v@.len() as int) =~= v@);
    out
}

impl PromptMetadata {
    /// Builds a record from its four parts.
    pub fn new(name: String, display_name: String, tags: Vec<String>, file_path: String) -> (r: Self)
        ensures
            r.name@ == name@,
            r.display_name@ == display_name@,
            r.tags@ == tags@,
            r.file_path@ == file_path@,
    {
        PromptMetadata { name, display_name, tags, file_path }
    }

    /// A copy of this record with the same view.
    pub fn duplicate(&self) -> (r: Self)
        ensures
            r@ == self@,
    {
        PromptMetadata {
            name: self.name.clone(),
            display_name: self.display_name.clone(),
            tags: copy_strings(&self.tags),
            file_path: self.file_path.clone(),
        }
    }
}

/// The tags after adding `t`: appended at the end unless already there.
pub open spec fn tags_with(tags: Seq<Seq<char>>, t: Seq<char>) -> Seq<Seq<char>> {
    if tags.contains(t) {
        tags
    } else {
        tags.push(t)
    }
}

/// The tags after removing `t`: every other tag, in order.
pub open spec fn tags_without(tags: Seq<Seq<char>>, t: Seq<char>) -> Seq<Seq<char>> {
    tags.filter(|u: Seq<char>| u != t)
}

/// The tag list with `tag` added at the end, unless it is there already.
pub fn add_tag(tags: &Vec<String>, tag: &str) -> (r: Vec<String>)
    ensures
        strs_view(r@) == tags_with(strs_view(tags@), tag@),
{
    let mut out = copy_strings(tags);
    if !crate::index::has_tag(tags, tag) {
        out.push(String::from_str(tag));
        proof {
            assert(strs_view(out@) =~= strs_view(tags@).push(tag@));
        }
    }
    out
}

/// The tag list without `tag`, the others kept in order.
pub fn remove_tag(tags: &Vec<String>, tag: &str) -> (r: Vec<String>)
    ensures
        strs_view(r@) == tags_without(strs_view(tags@), tag@),
{
    let mut out: Vec<String> = Vec::new();
    let mut i: usize = 0;
    while i < tags.len()
        invariant
            i <= tags@.len(),
            strs_view(out@) == tags_without(strs_view(tags@).subrange(0, i as int), tag@),
        decreases tags.len() - i,
    {
        let ghost pre = strs_view(tags@).subrange(0, i as int);
        assert(strs_view(tags@).subrange(0, i + 1) =~= pre.push(tags@[i as int]@));
        proof {
            pre.lemma_filter_push(tags@[i as int]@, |u: Seq<char>| u != tag@);
        }
        if !str_eq(tags[i].as_str(), tag) {
            out.push(tags[i].clone());
            proof {
                assert(strs_view(out@) =~= tags_without(pre, tag@).push(tags@[i as int]@));
            }
        }
        i += 1;
    }
    assert(strs_view(tags@).subrange(0, tags@.len() as int) =~= strs_view(tags@));
    out
}

/// The first `n` tags without empty ones and without repeats, each kept
/// where it first occurs.
pub open spec fn clean_upto(ts: Seq<Seq<char>>, n: int) -> Seq<Seq<char>>
    decreases n,
{
    if n <= 0 {
        seq![]
    } else {
        let d = clean_upto(ts, n - 1);
        if ts[n - 1].len() == 0 || d.contains(ts[n - 1]) {
            d
        } else {
            d.push(ts[n - 1])
        }
    }
}

/// The tags without empty ones and without repeats, in order of first
/// occurrence.
pub open spec fn clean_tags(ts: Seq<Seq<char>>) -> Seq<Seq<char>> {
    clean_upto(ts, ts.len() as int)
}

proof fn lemma_clean_upto(ts: Seq<Seq<char>>, n: int)
    requires
        0 <= n <= ts.len(),
    ensures
        clean_upto(ts, n).no_duplicates(),
        forall|i: int| 0 <= i < clean_upto(ts, n).len() ==> (#[trigger] clean_upto(ts, n)[i]).len() > 0,
    decreases n,
{
    if n > 0 {
        lemma_clean_upto(ts, n - 1);
    }
}

/// Cleaned tags hold no repeat and no empty tag.
pub proof fn lemma_clean_tags(ts: Seq<Seq<char>>)
    ensures
        clean_tags(ts).no_duplicates(),
        forall|i: int| 0 <= i < clean_tags(ts).len() ==> (#[trigger] clean_tags(ts)[i]).len() > 0,
{
    lemma_clean_upto(ts, ts.len() as int);
}

/// Drops empty and repeated tags, keeping the first occurrence of each.
pub fn clean_tag_list(tags: &Vec<String>) -> (r: Vec<String>)
    ensures
        strs_view(r@) == clean_tags(strs_view(tags@)),
{
    let mut out: Vec<String> = Vec::new();
    let mut i: usize = 0;
    while i < tags.len()
        invariant
            i <= tags@.len(),
            strs_view(out@) == clean_upto(strs_view(tags@), i as int),
        decreases tags.len() - i,
    {
        let t = &tags[i];
        assert(strs_view(tags@)[i as int] == t@);
        if !t.as_str().is_empty() && !crate::index::has_tag(&out, t.as_str()) {
            out.push(t.clone());
            assert(strs_view(out@) =~= clean_upto(strs_view(tags@), i as int).push(t@));
        }
        i += 1;
    }
    out
}

} // verus!
