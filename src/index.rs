//! The prompt index: every record ordered by name, and the visible
//! subsequence chosen by a tag filter and a search query, with a selection
//! that follows the selected record across recomputations.
use vstd::prelude::*;
use vstd::multiset::Multiset;
use vstd::seq_lib::{to_multiset_contains, to_multiset_insert, to_multiset_remove};
use crate::model::{MetaView, PromptMetadata, metas_view, strs_view};
use crate::text::{
    chars_of, contains_folded, has_substring, lemma_lex_total, lex_le, lex_le_exec, lower_of, str_eq,
};

verus! {

/// Records ordered by name, each next to its successor.
pub open spec fn sorted_by_name(s: Seq<MetaView>) -> bool {
    forall|i: int| 0 <= i < s.len() - 1 ==> lex_le(#[trigger] s[i].name, s[i + 1].name)
}

/// Whether a record passes the tag filter and the search query.
pub open spec fn record_visible(m: MetaView, filter: Option<Seq<char>>, query: Seq<char>) -> bool {
    (match filter {
        Some(t) => m.tags.contains(t),
        None => true,
    }) && (query.len() == 0 || has_substring(lower_of(m.display), lower_of(query)))
}

/// Positions, among the first `n` records, of those that are visible.
pub open spec fn visible_upto(
    all: Seq<MetaView>,
    filter: Option<Seq<char>>,
    query: Seq<char>,
    n: int,
) -> Seq<usize>
    decreases n,
{
    if n <= 0 {
        seq![]
    } else {
        let v = visible_upto(all, filter, query, n - 1);
        if record_visible(all[n - 1], filter, query) {
            v.push((n - 1) as usize)
        } else {
            v
        }
    }
}

/// Positions in `all` of the visible records, in order.
pub open spec fn visible_of(all: Seq<MetaView>, filter: Option<Seq<char>>, query: Seq<char>) -> Seq<
    usize,
> {
    visible_upto(all, filter, query, all.len() as int)
}

pub open spec fn strictly_increasing(v: Seq<usize>) -> bool {
    forall|i: int, j: int| 0 <= i < j < v.len() ==> v[i] < v[j]
}

/// The last position among the first `n` of `vis` whose record is not after `p`.
pub open spec fn last_not_after(vis: Seq<usize>, p: int, n: int) -> int
    decreases n,
{
    if n <= 0 {
        -1
    } else if vis[n - 1] <= p {
        n - 1
    } else {
        last_not_after(vis, p, n - 1)
    }
}

/// The selection after the visible set became `vis`, where `prev` is the
/// position in the whole index of the record selected before: that record
/// if it is still visible, else the nearest earlier visible one, else the
/// first; nothing when nothing is visible.
pub open spec fn follow_selection(vis: Seq<usize>, prev: Option<usize>) -> Option<usize> {
    if vis.len() == 0 {
        None
    } else {
        match prev {
            None => Some(0usize),
            Some(p) => {
                let j = last_not_after(vis, p as int, vis.len() as int);
                if j < 0 {
                    Some(0usize)
                } else {
                    Some(j as usize)
                }
            },
        }
    }
}

/// The first position of a record named `name` among the first `n`.
pub open spec fn first_named(all: Seq<MetaView>, name: Seq<char>, n: int) -> Option<usize>
    decreases n,
{
    if n <= 0 {
        None
    } else {
        match first_named(all, name, n - 1) {
            Some(i) => Some(i),
            None => if all[n - 1].name == name {
                Some((n - 1) as usize)
            } else {
                None
            },
        }
    }
}

proof fn lemma_visible_upto(all: Seq<MetaView>, filter: Option<Seq<char>>, query: Seq<char>, n: int)
    requires
        0 <= n <= all.len(),
        all.len() <= usize::MAX,
    ensures
        visible_upto(all, filter, query, n).len() <= n,
        strictly_increasing(visible_upto(all, filter, query, n)),
        forall|i: int|
            0 <= i < visible_upto(all, filter, query, n).len() ==> visible_upto(
                all,
                filter,
                query,
                n,
            )[i] < n,
        forall|k: int|
            0 <= k < n ==> (visible_upto(all, filter, query, n).contains(k as usize)
                <==> record_visible(all[k], filter, query)),
    decreases n,
{
    if n > 0 {
        lemma_visible_upto(all, filter, query, n - 1);
        let v = visible_upto(all, filter, query, n - 1);
        let w = v.push((n - 1) as usize);
        if record_visible(all[n - 1], filter, query) {
            assert forall|k: int| 0 <= k < n implies (w.contains(k as usize)
                <==> record_visible(all[k], filter, query)) by {
                if k < n - 1 {
                    if w.contains(k as usize) {
                        let j = choose|j: int| 0 <= j < w.len() && #[trigger] w[j] == k as usize;
                        if j == v.len() {
                            assert(w[j] == (n - 1) as usize);
                            assert(false);
                        }
                        assert(v[j] == k as usize);
                    }
                    if v.contains(k as usize) {
                        let j = choose|j: int| 0 <= j < v.len() && #[trigger] v[j] == k as usize;
                        assert(w[j] == k as usize);
                    }
                } else {
                    assert(w[v.len() as int] == k as usize);
                }
            }
        } else {
            assert forall|k: int| 0 <= k < n implies (v.contains(k as usize)
                <==> record_visible(all[k], filter, query)) by {
                if k == n - 1 {
                    if v.contains(k as usize) {
                        let j = choose|j: int| 0 <= j < v.len() && #[trigger] v[j] == k as usize;
                        assert(v[j] < n - 1);
                    }
                }
            }
        }
    }
}

/// The visible positions are strictly increasing, in range, and hold
/// exactly the records that pass the filter and the query.
pub proof fn lemma_visible_of(all: Seq<MetaView>, filter: Option<Seq<char>>, query: Seq<char>)
    requires
        all.len() <= usize::MAX,
    ensures
        visible_of(all, filter, query).len() <= all.len(),
        strictly_increasing(visible_of(all, filter, query)),
        forall|i: int|
            0 <= i < visible_of(all, filter, query).len() ==> visible_of(all, filter, query)[i]
                < all.len(),
        forall|k: int|
            0 <= k < all.len() ==> (visible_of(all, filter, query).contains(k as usize)
                <==> record_visible(all[k], filter, query)),
{
    lemma_visible_upto(all, filter, query, all.len() as int);
}

proof fn lemma_last_not_after_range(vis: Seq<usize>, p: int, n: int)
    requires
        0 <= n <= vis.len(),
    ensures
        -1 <= last_not_after(vis, p, n) < n,
    decreases n,
{
    if n > 0 {
        lemma_last_not_after_range(vis, p, n - 1);
    }
}

proof fn lemma_last_not_after_hits(vis: Seq<usize>, k: int, n: int)
    requires
        strictly_increasing(vis),
        0 <= k < n <= vis.len(),
    ensures
        last_not_after(vis, vis[k] as int, n) == k,
    decreases n,
{
    if n - 1 > k {
        lemma_last_not_after_hits(vis, k, n - 1);
    }
}

/// The selection keeps a record that is still visible: whichever way the
/// visible set changed, if the record selected before is in it, the new
/// selection is that record.
pub proof fn lemma_selection_stability(vis: Seq<usize>, k: int)
    requires
        strictly_increasing(vis),
        0 <= k < vis.len(),
    ensures
        follow_selection(vis, Some(vis[k])) == Some(k as usize),
{
    lemma_last_not_after_hits(vis, k, vis.len() as int);
}

/// Where the selection lands is always inside the visible set.
pub proof fn lemma_follow_selection_in_range(vis: Seq<usize>, prev: Option<usize>)
    ensures
        vis.len() == 0 <==> follow_selection(vis, prev) is None,
        follow_selection(vis, prev) matches Some(s) ==> s < vis.len(),
{
    if let Some(p) = prev {
        lemma_last_not_after_range(vis, p as int, vis.len() as int);
    }
}

/// The characters of an optional string.
pub open spec fn opt_view(o: Option<String>) -> Option<Seq<char>> {
    match o {
        Some(t) => Some(t@),
        None => None,
    }
}

/// Whether `tags` holds `tag`.
pub fn has_tag(tags: &Vec<String>, tag: &str) -> (r: bool)
    ensures
        r == strs_view(tags@).contains(tag@),
{
    let mut i: usize = 0;
    while i < tags.len()
        invariant
            i <= tags@.len(),
            forall|k: int| 0 <= k < i ==> tags@[k]@ != tag@,
        decreases tags.len() - i,
    {
        if str_eq(tags[i].as_str(), tag) {
            assert(strs_view(tags@)[i as int] == tag@);
            return true;
        }
        i += 1;
    }
    assert forall|k: int| 0 <= k < strs_view(tags@).len() implies strs_view(tags@)[k] != tag@ by {
        assert(strs_view(tags@)[k] == tags@[k]@);
    }
    false
}

fn record_visible_exec(m: &PromptMetadata, filter: &Option<String>, query: &String) -> (r: bool)
    ensures
        r == record_visible(m@, opt_view(*filter), query@),
{
    let tag_ok = match filter {
        Some(t) => has_tag(&m.tags, t.as_str()),
        None => true,
    };
    if !tag_ok {
        return false;
    }
    if query.as_str().is_empty() {
        return true;
    }
    contains_folded(m.display_name.as_str(), query.as_str())
}

fn compute_visible(all: &Vec<PromptMetadata>, filter: &Option<String>, query: &String) -> (r: Vec<usize>)
    ensures
        r@ == visible_of(metas_view(all@), opt_view(*filter), query@),
{
    let mut out: Vec<usize> = Vec::new();
    let mut i: usize = 0;
    while i < all.len()
        invariant
            i <= all@.len(),
            out@ == visible_upto(metas_view(all@), opt_view(*filter), query@, i as int),
        decreases all.len() - i,
    {
        if record_visible_exec(&all[i], filter, query) {
            out.push(i);
        }
        i += 1;
    }
    out
}

fn follow_exec(vis: &Vec<usize>, prev: Option<usize>) -> (r: Option<usize>)
    ensures
        r == follow_selection(vis@, prev),
{
    if vis.len() == 0 {
        return None;
    }
    match prev {
        None => Some(0),
        Some(p) => {
            let mut j: usize = vis.len();
            while j > 0 && vis[j - 1] > p
                invariant
                    j <= vis@.len(),
                    last_not_after(vis@, p as int, vis@.len() as int) == last_not_after(
                        vis@,
                        p as int,
                        j as int,
                    ),
                decreases j,
            {
                j -= 1;
            }
            if j == 0 {
                Some(0)
            } else {
                Some(j - 1)
            }
        },
    }
}

/// The first position of a record named `name`, if any.
fn find_named(all: &Vec<PromptMetadata>, name: &str) -> (r: Option<usize>)
    ensures
        r == first_named(metas_view(all@), name@, all@.len() as int),
{
    let mut i: usize = 0;
    while i < all.len()
        invariant
            i <= all@.len(),
            first_named(metas_view(all@), name@, i as int) is None,
        decreases all.len() - i,
    {
        if str_eq(all[i].name.as_str(), name) {
            proof { lemma_first_named_stays(metas_view(all@), name@, i as int + 1, all@.len() as int); }
            return Some(i);
        }
        i += 1;
    }
    None
}

proof fn lemma_first_named_stays(all: Seq<MetaView>, name: Seq<char>, m: int, n: int)
    requires
        0 < m <= n,
        first_named(all, name, m) is Some,
    ensures
        first_named(all, name, n) == first_named(all, name, m),
    decreases n - m,
{
    if n > m {
        lemma_first_named_stays(all, name, m, n - 1);
    }
}

/// Inserts `m` into a name-ordered vector, keeping it ordered.
fn insert_by_name(v: &mut Vec<PromptMetadata>, m: PromptMetadata)
    requires
        sorted_by_name(metas_view(old(v)@)),
    ensures
        sorted_by_name(metas_view(final(v)@)),
        metas_view(final(v)@).to_multiset() == metas_view(old(v)@).to_multiset().insert(m@),
        final(v)@.len() == old(v)@.len() + 1,
{
    let key = chars_of(m.name.as_str());
    let mut k: usize = 0;
    while k < v.len()
        invariant
            k <= v@.len(),
            key@ == m.name@,
            forall|j: int| 0 <= j < k ==> !lex_le(m.name@, #[trigger] v@[j].name@),
        ensures
            k <= v@.len(),
            forall|j: int| 0 <= j < k ==> !lex_le(m.name@, #[trigger] v@[j].name@),
            k < v@.len() ==> lex_le(m.name@, v@[k as int].name@),
        decreases v.len() - k,
    {
        let other = chars_of(v[k].name.as_str());
        if lex_le_exec(&key, &other) {
            break;
        }
        k += 1;
    }
    let ghost s = metas_view(v@);
    let ghost x = m@;
    proof {
        if k > 0 {
            lemma_lex_total(s[k - 1].name, x.name);
        }
    }
    v.insert(k, m);
    proof {
        let t = metas_view(v@);
        assert(t =~= s.insert(k as int, x));
        to_multiset_insert(s, k as int, x);
        assert forall|i: int| 0 <= i < t.len() - 1 implies lex_le(#[trigger] t[i].name, t[i + 1].name) by {
            if i < k as int - 1 {
                assert(t[i] == s[i] && t[i + 1] == s[i + 1]);
            } else if i == k as int - 1 {
                assert(t[i] == s[i] && t[i + 1] == x);
                assert(!lex_le(x.name, s[i].name));
            } else if i == k as int {
                assert(t[i] == x && t[i + 1] == s[i]);
            } else {
                assert(t[i] == s[i - 1] && t[i + 1] == s[i]);
            }
        }
    }
}

/// Orders records by name.
pub(crate) fn sort_by_name(records: Vec<PromptMetadata>) -> (r: Vec<PromptMetadata>)
    ensures
        sorted_by_name(metas_view(r@)),
        metas_view(r@).to_multiset() == metas_view(records@).to_multiset(),
        r@.len() == records@.len(),
{
    broadcast use vstd::multiset::group_multiset_axioms, vstd::seq_lib::group_to_multiset_ensures;

    let mut out: Vec<PromptMetadata> = Vec::new();
    let mut rest = records;
    let ghost orig = metas_view(rest@);
    proof {
        assert(metas_view(out@) =~= seq![]);
        assert(orig =~= metas_view(rest@).subrange(0, 0) + metas_view(rest@));
    }
    let mut taken: usize = 0;
    while rest.len() > 0
        invariant
            sorted_by_name(metas_view(out@)),
            metas_view(out@).to_multiset().add(metas_view(rest@).to_multiset()) == orig.to_multiset(),
            out@.len() + rest@.len() == orig.len(),
        decreases rest@.len(),
    {
        let ghost r0 = metas_view(rest@);
        let ghost o0 = metas_view(out@);
        let m = rest.remove(0);
        proof {
            assert(metas_view(rest@) =~= r0.remove(0));
            to_multiset_remove(r0, 0);
            assert(r0.to_multiset().count(m@) > 0) by {
                to_multiset_contains(r0, m@);
                assert(r0[0] == m@);
            }
        }
        insert_by_name(&mut out, m);
        proof {
            assert(metas_view(out@).to_multiset().add(metas_view(rest@).to_multiset()) =~= o0.to_multiset().add(
                r0.to_multiset(),
            ));
        }
    }
    proof {
        assert(metas_view(rest@) =~= seq![]);
        assert(metas_view(rest@).to_multiset() =~= Multiset::empty());
    }
    out
}

/// Tags in order, each next to its successor, with no tag twice.
pub open spec fn tags_ordered(s: Seq<Seq<char>>) -> bool {
    &&& forall|i: int| 0 <= i < s.len() - 1 ==> lex_le(#[trigger] s[i], s[i + 1])
    &&& s.no_duplicates()
}

/// Some record among the first `n` carries `t`, or record `n` carries it
/// among its first `m` tags.
pub open spec fn tag_seen(all: Seq<MetaView>, t: Seq<char>, n: int, m: int) -> bool {
    (exists|i: int| 0 <= i < n && #[trigger] all[i].tags.contains(t)) || (0 <= n < all.len()
        && all[n].tags.subrange(0, m).contains(t))
}

/// Inserts `t` into ordered tags unless it is there already.
fn insert_tag(v: &mut Vec<String>, t: &String)
    requires
        tags_ordered(strs_view(old(v)@)),
    ensures
        tags_ordered(strs_view(final(v)@)),
        forall|u: Seq<char>|
            strs_view(final(v)@).contains(u) <==> (strs_view(old(v)@).contains(u) || u == t@),
{
    if has_tag(v, t.as_str()) {
        return;
    }
    let key = chars_of(t.as_str());
    let mut k: usize = 0;
    while k < v.len()
        invariant
            k <= v@.len(),
            key@ == t@,
            forall|j: int| 0 <= j < k ==> !lex_le(t@, #[trigger] v@[j]@),
        ensures
            k <= v@.len(),
            forall|j: int| 0 <= j < k ==> !lex_le(t@, #[trigger] v@[j]@),
            k < v@.len() ==> lex_le(t@, v@[k as int]@),
        decreases v.len() - k,
    {
        let other = chars_of(v[k].as_str());
        if lex_le_exec(&key, &other) {
            break;
        }
        k += 1;
    }
    let ghost s = strs_view(v@);
    proof {
        if k > 0 {
            lemma_lex_total(s[k - 1], t@);
        }
    }
    v.insert(k, t.clone());
    proof {
        let w = strs_view(v@);
        assert(w =~= s.insert(k as int, t@));
        assert forall|i: int| 0 <= i < w.len() - 1 implies lex_le(#[trigger] w[i], w[i + 1]) by {
            if i < k as int - 1 {
                assert(w[i] == s[i] && w[i + 1] == s[i + 1]);
            } else if i == k as int - 1 {
                assert(w[i] == s[i] && w[i + 1] == t@);
                assert(!lex_le(t@, s[i]));
            } else if i == k as int {
                assert(w[i] == t@ && w[i + 1] == s[i]);
            } else {
                assert(w[i] == s[i - 1] && w[i + 1] == s[i]);
            }
        }
        assert forall|a: int, b: int| 0 <= a < w.len() && 0 <= b < w.len() && a != b implies w[a]
            != w[b] by {
            if a != k as int && b != k as int {
                let a0 = if a < k { a } else { a - 1 };
                let b0 = if b < k { b } else { b - 1 };
                assert(w[a] == s[a0] && w[b] == s[b0]);
            } else if a == k as int {
                let b0 = if b < k { b } else { b - 1 };
                assert(w[b] == s[b0]);
            } else {
                let a0 = if a < k { a } else { a - 1 };
                assert(w[a] == s[a0]);
            }
        }
        assert forall|u: Seq<char>| w.contains(u) <==> (s.contains(u) || u == t@) by {
            if w.contains(u) {
                let j = choose|j: int| 0 <= j < w.len() && #[trigger] w[j] == u;
                if j < k {
                    assert(s[j] == u);
                } else if j > k {
                    assert(s[j - 1] == u);
                }
            }
            if s.contains(u) {
                let j = choose|j: int| 0 <= j < s.len() && #[trigger] s[j] == u;
                if j < k {
                    assert(w[j] == u);
                } else {
                    assert(w[j + 1] == u);
                }
            }
            if u == t@ {
                assert(w[k as int] == u);
            }
        }
    }
}

/// Where the selection is anchored after the records of `old` are replaced
/// by `all`: the record of the same name if there is one, else the position
/// of the record selected before.
pub open spec fn reload_anchor(old: PromptIndex, all: Seq<MetaView>) -> Option<usize> {
    match old.selected_record() {
        Some(p) => match first_named(all, old.all_view()[p as int].name, all.len() as int) {
            Some(q) => Some(q),
            None => Some(p),
        },
        None => None,
    }
}

/// No two records share a name.
pub open spec fn names_unique(all: Seq<MetaView>) -> bool {
    forall|i: int, j: int| 0 <= i < j < all.len() ==> all[i].name != all[j].name
}

/// The prompt index.
pub struct PromptIndex {
    all: Vec<PromptMetadata>,
    visible: Vec<usize>,
    tag_filter: Option<String>,
    query: String,
    selected: Option<usize>,
}

impl PromptIndex {
    /// Every record, ordered by name.
    pub closed spec fn all_view(&self) -> Seq<MetaView> {
        metas_view(self.all@)
    }

    /// The tag filter, if one is set.
    pub closed spec fn filter_view(&self) -> Option<Seq<char>> {
        opt_view(self.tag_filter)
    }

    /// The search query (empty: no search filter).
    pub closed spec fn query_view(&self) -> Seq<char> {
        self.query@
    }

    /// Positions in `all_view` of the visible records.
    pub closed spec fn visible_view(&self) -> Seq<usize> {
        self.visible@
    }

    /// The selected position in `visible_view`.
    pub closed spec fn selection(&self) -> Option<usize> {
        self.selected
    }

    /// Position in `all_view` of the selected record.
    pub open spec fn selected_record(&self) -> Option<usize> {
        match self.selection() {
            Some(s) => Some(self.visible_view()[s as int]),
            None => None,
        }
    }

    pub open spec fn wf(&self) -> bool {
        &&& self.all_view().len() <= usize::MAX
        &&& sorted_by_name(self.all_view())
        &&& self.visible_view() == visible_of(self.all_view(), self.filter_view(), self.query_view())
        &&& (self.visible_view().len() == 0 <==> self.selection() is None)
        &&& (self.selection() matches Some(s) ==> s < self.visible_view().len())
    }

    proof fn lemma_wf_facts(&self)
        requires
            self.wf(),
        ensures
            self.visible_view().len() <= self.all_view().len(),
            strictly_increasing(self.visible_view()),
            forall|i: int|
                0 <= i < self.visible_view().len() ==> self.visible_view()[i]
                    < self.all_view().len(),
            self.all_view().len() == self.all@.len(),
    {
        lemma_visible_of(self.all_view(), self.filter_view(), self.query_view());
    }

    /// Builds the index over `records`: no tag filter, no query, every
    /// record visible, the first one selected.
    pub fn new(records: Vec<PromptMetadata>) -> (r: Self)
        ensures
            r.wf(),
            r.all_view().to_multiset() == metas_view(records@).to_multiset(),
            r.all_view().len() == records@.len(),
            r.filter_view() is None,
            r.query_view() == Seq::<char>::empty(),
            r.visible_view() == Seq::new(records@.len(), |i: int| i as usize),
            r.selection() == (if records@.len() == 0 { None } else { Some(0usize) }),
    {
        let all = sort_by_name(records);
        let n = all.len();
        let tag_filter: Option<String> = None;
        let query = String::new();
        let visible = compute_visible(&all, &tag_filter, &query);
        proof {
            lemma_visible_of(metas_view(all@), None, query@);
            lemma_all_visible(metas_view(all@), query@, n as int);
            assert(visible@ =~= Seq::new(records@.len(), |i: int| i as usize));
        }
        let selected = if n == 0 { None } else { Some(0) };
        PromptIndex { all, visible, tag_filter, query, selected }
    }

    fn recompute(&mut self, prev: Option<usize>)
        requires
            old(self).all_view().len() <= usize::MAX,
            sorted_by_name(old(self).all_view()),
        ensures
            final(self).wf(),
            final(self).all == old(self).all,
            final(self).tag_filter == old(self).tag_filter,
            final(self).query == old(self).query,
            final(self).selection() == follow_selection(final(self).visible_view(), prev),
    {
        self.visible = compute_visible(&self.all, &self.tag_filter, &self.query);
        self.selected = follow_exec(&self.visible, prev);
        proof {
            lemma_follow_selection_in_range(self.visible@, prev);
        }
    }

    /// Sets or clears the tag filter and recomputes the visible records;
    /// the selection follows the record selected before.
    pub fn set_tag_filter(&mut self, tag: Option<String>)
        requires
            old(self).wf(),
        ensures
            final(self).wf(),
            final(self).all_view() == old(self).all_view(),
            final(self).filter_view() == opt_view(tag),
            final(self).query_view() == old(self).query_view(),
            final(self).selection() == follow_selection(
                final(self).visible_view(),
                old(self).selected_record(),
            ),
    {
        let prev = self.selected_record_exec();
        self.tag_filter = tag;
        self.recompute(prev);
    }

    /// Replaces the search query and recomputes the visible records; the
    /// selection follows the record selected before.
    pub fn set_query(&mut self, query: String)
        requires
            old(self).wf(),
        ensures
            final(self).wf(),
            final(self).all_view() == old(self).all_view(),
            final(self).filter_view() == old(self).filter_view(),
            final(self).query_view() == query@,
            final(self).selection() == follow_selection(
                final(self).visible_view(),
                old(self).selected_record(),
            ),
    {
        let prev = self.selected_record_exec();
        self.query = query;
        self.recompute(prev);
    }

    /// Replaces every record by a fresh scan. The selection follows the
    /// record of the same name if there is one, else the position in the
    /// index of the record selected before.
    pub fn reload(&mut self, records: Vec<PromptMetadata>)
        requires
            old(self).wf(),
        ensures
            final(self).wf(),
            final(self).all_view().to_multiset() == metas_view(records@).to_multiset(),
            final(self).all_view().len() == records@.len(),
            final(self).filter_view() == old(self).filter_view(),
            final(self).query_view() == old(self).query_view(),
            final(self).selection() == follow_selection(
                final(self).visible_view(),
                reload_anchor(*old(self), final(self).all_view()),
            ),
    {
        let old_pos = self.selected_record_exec();
        let all = sort_by_name(records);
        let prev = match old_pos {
            Some(p) => match find_named(&all, self.all[p].name.as_str()) {
                Some(q) => Some(q),
                None => Some(p),
            },
            None => None,
        };
        let n = all.len();
        assert(metas_view(all@).len() == n);
        self.all = all;
        self.recompute(prev);
    }

    fn selected_record_exec(&self) -> (r: Option<usize>)
        requires
            self.wf(),
        ensures
            r == self.selected_record(),
            r matches Some(p) ==> p < self.all_view().len(),
    {
        proof {
            self.lemma_wf_facts();
        }
        match self.selected {
            Some(s) => Some(self.visible[s]),
            None => None,
        }
    }

    /// Moves the selection one visible record down, stopping at the last.
    pub fn next(&mut self)
        requires
            old(self).wf(),
        ensures
            final(self).wf(),
            final(self).all_view() == old(self).all_view(),
            final(self).visible_view() == old(self).visible_view(),
            final(self).filter_view() == old(self).filter_view(),
            final(self).query_view() == old(self).query_view(),
            final(self).selection() == match old(self).selection() {
                Some(s) => if s + 1 < old(self).visible_view().len() {
                    Some((s + 1) as usize)
                } else {
                    Some(s)
                },
                None => None,
            },
    {
        if let Some(s) = self.selected {
            let n = self.visible.len();
            if s < n && n - s > 1 {
                self.selected = Some(s + 1);
            }
        }
    }

    /// Moves the selection one visible record up, stopping at the first.
    pub fn previous(&mut self)
        requires
            old(self).wf(),
        ensures
            final(self).wf(),
            final(self).all_view() == old(self).all_view(),
            final(self).visible_view() == old(self).visible_view(),
            final(self).filter_view() == old(self).filter_view(),
            final(self).query_view() == old(self).query_view(),
            final(self).selection() == match old(self).selection() {
                Some(s) => if s > 0 {
                    Some((s - 1) as usize)
                } else {
                    Some(s)
                },
                None => None,
            },
    {
        if let Some(s) = self.selected {
            if s > 0 {
                self.selected = Some(s - 1);
            }
        }
    }

    /// The selected record, if any.
    pub fn selected(&self) -> (r: Option<&PromptMetadata>)
        requires
            self.wf(),
        ensures
            match self.selected_record() {
                Some(p) => (r matches Some(m) && m@ == self.all_view()[p as int]),
                None => r is None,
            },
    {
        proof {
            self.lemma_wf_facts();
        }
        match self.selected {
            Some(s) => Some(&self.all[self.visible[s]]),
            None => None,
        }
    }

    /// The selected position among the visible records.
    pub fn selected_index(&self) -> (r: Option<usize>)
        ensures
            r == self.selection(),
    {
        self.selected
    }

    /// The number of visible records.
    pub fn visible_len(&self) -> (r: usize)
        ensures
            r == self.visible_view().len(),
    {
        self.visible.len()
    }

    /// The visible record at position `i`.
    pub fn visible_at(&self, i: usize) -> (r: &PromptMetadata)
        requires
            self.wf(),
            i < self.visible_view().len(),
        ensures
            r@ == self.all_view()[self.visible_view()[i as int] as int],
    {
        proof {
            self.lemma_wf_facts();
        }
        &self.all[self.visible[i]]
    }

    /// Every record, ordered by name.
    pub fn records(&self) -> (r: &Vec<PromptMetadata>)
        ensures
            metas_view(r@) == self.all_view(),
    {
        &self.all
    }

    /// The tag filter, if set.
    pub fn tag_filter(&self) -> (r: &Option<String>)
        ensures
            opt_view(*r) == self.filter_view(),
    {
        &self.tag_filter
    }

    /// The search query.
    pub fn query(&self) -> (r: &String)
        ensures
            r@ == self.query_view(),
    {
        &self.query
    }

    /// Whether some record carries the normalized name `name`.
    pub fn contains_name(&self, name: &str) -> (r: bool)
        ensures
            r == exists|i: int| 0 <= i < self.all_view().len() && #[trigger] self.all_view()[i].name == name@,
    {
        let f = find_named(&self.all, name);
        proof {
            lemma_first_named_spec(self.all_view(), name@, self.all_view().len() as int);
        }
        f.is_some()
    }

    /// The distinct tags of all records, in order.
    pub fn all_tags(&self) -> (r: Vec<String>)
        requires
            self.wf(),
        ensures
            tags_ordered(strs_view(r@)),
            forall|t: Seq<char>|
                strs_view(r@).contains(t) <==> exists|i: int|
                    0 <= i < self.all_view().len() && #[trigger] self.all_view()[i].tags.contains(t),
    {
        let ghost all = self.all_view();
        let mut out: Vec<String> = Vec::new();
        let mut i: usize = 0;
        while i < self.all.len()
            invariant
                all == self.all_view(),
                i <= all.len(),
                tags_ordered(strs_view(out@)),
                forall|t: Seq<char>| strs_view(out@).contains(t) <==> tag_seen(all, t, i as int, 0),
            decreases self.all@.len() - i,
        {
            let tags = &self.all[i].tags;
            let mut j: usize = 0;
            while j < tags.len()
                invariant
                    all == self.all_view(),
                    i < all.len(),
                    tags == &self.all@[i as int].tags,
                    all[i as int].tags == strs_view(tags@),
                    j <= tags@.len(),
                    tags_ordered(strs_view(out@)),
                    forall|t: Seq<char>| strs_view(out@).contains(t) <==> tag_seen(all, t, i as int, j as int),
                decreases tags@.len() - j,
            {
                insert_tag(&mut out, &tags[j]);
                proof {
                    let ts = all[i as int].tags;
                    assert(ts.subrange(0, j + 1) =~= ts.subrange(0, j as int).push(tags@[j as int]@));
                    assert forall|t: Seq<char>| strs_view(out@).contains(t) <==> tag_seen(all, t, i as int, j + 1) by {
                        if ts.subrange(0, j + 1).contains(t) && t != tags@[j as int]@ {
                            let q = choose|q: int| 0 <= q < j + 1 && #[trigger] ts.subrange(0, j + 1)[q] == t;
                            assert(ts.subrange(0, j as int)[q] == t);
                        }
                        if ts.subrange(0, j as int).contains(t) {
                            let q = choose|q: int| 0 <= q < j && #[trigger] ts.subrange(0, j as int)[q] == t;
                            assert(ts.subrange(0, j + 1)[q] == t);
                        }
                        if t == tags@[j as int]@ {
                            assert(ts.subrange(0, j + 1)[j as int] == t);
                        }
                    }
                }
                j += 1;
            }
            proof {
                let ts = all[i as int].tags;
                assert(ts.subrange(0, j as int) =~= ts);
                assert forall|t: Seq<char>| strs_view(out@).contains(t) <==> tag_seen(all, t, i + 1, 0) by {
                    if tag_seen(all, t, i as int, j as int) {
                        if exists|q: int| 0 <= q < i && #[trigger] all[q].tags.contains(t) {
                            let q = choose|q: int| 0 <= q < i && #[trigger] all[q].tags.contains(t);
                            assert(0 <= q < i + 1 && all[q].tags.contains(t));
                        } else {
                            assert(all[i as int].tags.contains(t));
                        }
                    }
                    if exists|q: int| 0 <= q < i + 1 && #[trigger] all[q].tags.contains(t) {
                        let q = choose|q: int| 0 <= q < i + 1 && #[trigger] all[q].tags.contains(t);
                        if q < i {
                            assert(tag_seen(all, t, i as int, j as int));
                        } else {
                            assert(all[i as int].tags.subrange(0, j as int).contains(t));
                        }
                    }
                }
            }
            i += 1;
        }
        proof {
            assert forall|t: Seq<char>| tag_seen(all, t, i as int, 0) <==> exists|q: int|
                0 <= q < all.len() && #[trigger] all[q].tags.contains(t) by {
                if 0 <= i < all.len() && all[i as int].tags.subrange(0, 0).contains(t) {
                    let q = choose|q: int| 0 <= q < 0 && #[trigger] all[i as int].tags.subrange(0, 0)[q] == t;
                }
            }
        }
        out
    }
}


proof fn lemma_all_visible(all: Seq<MetaView>, query: Seq<char>, n: int)
    requires
        0 <= n <= all.len(),
        all.len() <= usize::MAX,
        query.len() == 0,
    ensures
        visible_upto(all, None, query, n).len() == n,
        forall|i: int| 0 <= i < n ==> #[trigger] visible_upto(all, None, query, n)[i] == i as usize,
    decreases n,
{
    if n > 0 {
        lemma_all_visible(all, query, n - 1);
    }
}

proof fn lemma_first_named_spec(all: Seq<MetaView>, name: Seq<char>, n: int)
    requires
        0 <= n <= all.len(),
    ensures
        first_named(all, name, n) is Some <==> exists|i: int| 0 <= i < n && #[trigger] all[i].name == name,
    decreases n,
{
    if n > 0 {
        lemma_first_named_spec(all, name, n - 1);
    }
}

/// Selection stability on index states: when the visible set of an index
/// was recomputed over the same records with the selection following the
/// record selected before, and that record is still visible, the same
/// record (hence the same name) is selected afterwards.
pub proof fn lemma_index_keeps_selected(before: PromptIndex, after: PromptIndex, p: usize)
    requires
        before.wf(),
        after.wf(),
        after.all_view() == before.all_view(),
        after.selection() == follow_selection(after.visible_view(), before.selected_record()),
        before.selected_record() == Some(p),
        after.visible_view().contains(p),
    ensures
        after.selected_record() == Some(p),
        after.all_view()[after.selected_record()->0 as int].name == before.all_view()[p as int].name,
{
    after.lemma_wf_facts();
    let vis = after.visible_view();
    let k = choose|k: int| 0 <= k < vis.len() && vis[k] == p;
    lemma_selection_stability(vis, k);
    assert(Some(vis[k]) == before.selected_record());
    assert(after.selection() == Some(k as usize));
    assert(after.selected_record() == Some(vis[k]));
}

/// Selection stability by name: over records whose names are distinct, when
/// the visible set was recomputed with the selection following the record
/// selected before, and a record of that name is still visible, the record
/// selected afterwards has that name.
pub proof fn lemma_selection_follows_name(before: PromptIndex, after: PromptIndex, name: Seq<char>)
    requires
        before.wf(),
        after.wf(),
        after.all_view() == before.all_view(),
        names_unique(after.all_view()),
        after.selection() == follow_selection(after.visible_view(), before.selected_record()),
        before.selected_record() matches Some(p) && before.all_view()[p as int].name == name,
        exists|k: int|
            0 <= k < after.visible_view().len() && #[trigger] after.all_view()[after.visible_view()[k] as int].name
                == name,
    ensures
        after.selected_record() matches Some(q) && after.all_view()[q as int].name == name,
{
    before.lemma_wf_facts();
    after.lemma_wf_facts();
    let p = before.selected_record()->0;
    let vis = after.visible_view();
    let k = choose|k: int|
        0 <= k < vis.len() && #[trigger] after.all_view()[vis[k] as int].name == name;
    let s = before.selection()->0;
    assert(p == before.visible_view()[s as int]);
    assert(p < before.all_view().len());
    if vis[k] != p {
        if (vis[k] as int) < (p as int) {
            assert(after.all_view()[vis[k] as int].name != after.all_view()[p as int].name);
        } else {
            assert(after.all_view()[p as int].name != after.all_view()[vis[k] as int].name);
        }
    }
    assert(vis[k] == p);
    assert(vis.contains(p));
    lemma_index_keeps_selected(before, after, p);
}

} // verus!
