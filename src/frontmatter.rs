//! The prompt file format: a header between two `---` lines holding the
//! display name and the tags, then the body.
//!
//! ```text
//! ---
//! name: "<display name>"
//! tags: ["<tag>", "<tag>"]
//! ---
//! <body>
//! ```
//!
//! Further header lines may follow the tags; they are kept as they are.
//! In the name, `"` and `\` are written after a `\`; tags may hold any
//! character but `"`.
use vstd::prelude::*;
use vstd::string::StringExecFns;
use crate::error::{FinkError, PromptError};
use crate::model::{PromptMetadata, clean_tag_list, clean_tags, strs_view};
use crate::naming::{normal_form, normalize};
use crate::text::{chars_of, push_char, string_of};

verus! {

/// `---`, a newline, `name: ` and the opening quote.
pub open spec fn head() -> Seq<char> {
    seq!['-', '-', '-', '\n', 'n', 'a', 'm', 'e', ':', ' ', '"']
}

/// The closing quote of the name, a newline, `tags: ` and `[`.
pub open spec fn name_end() -> Seq<char> {
    seq!['"', '\n', 't', 'a', 'g', 's', ':', ' ', '[']
}

/// The separator between two quoted tags.
pub open spec fn sep() -> Seq<char> {
    seq![',', ' ']
}

pub open spec fn quoted(t: Seq<char>) -> Seq<char> {
    seq!['"'] + t + seq!['"']
}

/// The quoted tags, separated by `, `.
pub open spec fn tag_list(ts: Seq<Seq<char>>) -> Seq<char>
    decreases ts.len(),
{
    if ts.len() == 0 {
        seq![]
    } else if ts.len() == 1 {
        quoted(ts[0])
    } else {
        quoted(ts[0]) + sep() + tag_list(ts.drop_first())
    }
}

/// How one character of the name is written.
pub open spec fn escape_char(c: char) -> Seq<char> {
    if c == '"' || c == '\\' {
        seq!['\\', c]
    } else {
        seq![c]
    }
}

/// The name as written: each `"` and `\` after a `\`.
pub open spec fn escape(n: Seq<char>) -> Seq<char>
    decreases n.len(),
{
    if n.len() == 0 {
        seq![]
    } else {
        escape_char(n[0]) + escape(n.drop_first())
    }
}

/// The name read back: a `\` stands for the character after it.
pub open spec fn unescape(s: Seq<char>) -> Seq<char>
    decreases s.len(),
{
    if s.len() == 0 {
        seq![]
    } else if s[0] == '\\' && s.len() >= 2 {
        seq![s[1]] + unescape(s.subrange(2, s.len() as int))
    } else {
        seq![s[0]] + unescape(s.drop_first())
    }
}

/// The position, from `i` on, of the quote that closes the name (a quote
/// after a `\` does not), or the length.
pub open spec fn name_close(s: Seq<char>, i: int) -> int
    decreases s.len() + 1 - i,
{
    if i < 0 || i >= s.len() {
        s.len() as int
    } else if s[i] == '"' {
        i
    } else if s[i] == '\\' {
        name_close(s, i + 2)
    } else {
        name_close(s, i + 1)
    }
}

/// The text of a prompt file with further header lines `extra` after the
/// tags.
pub open spec fn serialize_full(
    name: Seq<char>,
    tags: Seq<Seq<char>>,
    extra: Seq<char>,
    body: Seq<char>,
) -> Seq<char> {
    head() + escape(name) + name_end() + tag_list(tags) + seq![']', '\n'] + extra + seq![
        '-',
        '-',
        '-',
        '\n',
    ] + body
}

/// The text of a prompt file.
pub open spec fn serialize(name: Seq<char>, tags: Seq<Seq<char>>, body: Seq<char>) -> Seq<char> {
    serialize_full(name, tags, seq![], body)
}

/// The line break and `---` line that close the header.
pub open spec fn closing() -> Seq<char> {
    seq!['\n', '-', '-', '-', '\n']
}

/// Further header lines the format can hold: none, or whole lines of which
/// none is `---`.
pub open spec fn extra_ok(x: Seq<char>) -> bool {
    x.len() == 0 || (x[x.len() - 1] == '\n' && forall|m: int|
        0 <= m && m + 4 <= x.len() && (m == 0 || x[m - 1] == '\n') ==> #[trigger] x.subrange(m, m + 4)
            != seq!['-', '-', '-', '\n'])
}

/// The first position from `k` on where the header closes, or the length.
pub open spec fn close_at(s: Seq<char>, k: int) -> int
    decreases s.len() + 1 - k,
{
    if k < 0 || k >= s.len() {
        s.len() as int
    } else if has_at(s, closing(), k) {
        k
    } else {
        close_at(s, k + 1)
    }
}

pub open spec fn quote_free(s: Seq<char>) -> bool {
    forall|i: int| 0 <= i < s.len() ==> s[i] != '"'
}

/// Tags the format can hold: none with a `"`.
pub open spec fn representable(tags: Seq<Seq<char>>) -> bool {
    forall|i: int| 0 <= i < tags.len() ==> quote_free(#[trigger] tags[i])
}

/// The first position from `i` on that holds a quote, or the length.
pub open spec fn quote_end(s: Seq<char>, i: int) -> int
    decreases s.len() - i,
{
    if i >= s.len() || i < 0 {
        s.len() as int
    } else if s[i] == '"' {
        i
    } else {
        quote_end(s, i + 1)
    }
}

pub open spec fn has_at(s: Seq<char>, p: Seq<char>, i: int) -> bool {
    0 <= i && i + p.len() <= s.len() && s.subrange(i, i + p.len()) == p
}

/// Reads quoted tags starting at `i` (on an opening quote) up to and
/// including the closing `]`: the tags and the position after `]`.
pub open spec fn parse_tags(s: Seq<char>, i: int) -> Option<(Seq<Seq<char>>, int)>
    decreases s.len() - i,
{
    if !(0 <= i < s.len() && s[i] == '"') {
        None
    } else {
        let e = quote_end(s, i + 1);
        if e >= s.len() {
            None
        } else {
            let t = s.subrange(i + 1, e);
            if has_at(s, seq![']'], e + 1) {
                Some((seq![t], e + 2))
            } else if has_at(s, sep(), e + 1) && e + 3 > i {
                match parse_tags(s, e + 3) {
                    Some((rest, j)) => Some((seq![t] + rest, j)),
                    None => None,
                }
            } else {
                None
            }
        }
    }
}

/// Reads the tag list starting at `i`, just after `[`.
pub open spec fn parse_tag_list(s: Seq<char>, i: int) -> Option<(Seq<Seq<char>>, int)> {
    if has_at(s, seq![']'], i) {
        Some((seq![], i + 1))
    } else {
        parse_tags(s, i)
    }
}

/// Reads a prompt file: the display name, the tags, the further header
/// lines and the body.
pub open spec fn parse(s: Seq<char>) -> Option<(Seq<char>, Seq<Seq<char>>, Seq<char>, Seq<char>)> {
    if !has_at(s, head(), 0) {
        None
    } else {
        let e = name_close(s, head().len() as int);
        if !has_at(s, name_end(), e) {
            None
        } else {
            match parse_tag_list(s, e + name_end().len()) {
                Some((ts, j)) => if has_at(s, seq!['\n'], j) && has_at(s, closing(), close_at(s, j)) {
                    let k = close_at(s, j);
                    Some(
                        (
                            unescape(s.subrange(head().len() as int, e)),
                            ts,
                            s.subrange(j + 1, k + 1),
                            s.subrange(k + 5, s.len() as int),
                        ),
                    )
                } else {
                    None
                },
                None => None,
            }
        }
    }
}

proof fn lemma_quote_end(s: Seq<char>, i: int, k: int)
    requires
        0 <= i <= k < s.len(),
        s[k] == '"',
        forall|j: int| i <= j < k ==> s[j] != '"',
    ensures
        quote_end(s, i) == k,
    decreases k - i,
{
    if i < k {
        lemma_quote_end(s, i + 1, k);
    }
}

proof fn lemma_parse_tags(s: Seq<char>, p: int, ts: Seq<Seq<char>>)
    requires
        ts.len() >= 1,
        forall|i: int| 0 <= i < ts.len() ==> quote_free(#[trigger] ts[i]),
        0 <= p,
        p + tag_list(ts).len() + 1 <= s.len(),
        s.subrange(p, p + tag_list(ts).len() + 1) == tag_list(ts) + seq![']'],
    ensures
        parse_tags(s, p) == Some((ts, p + tag_list(ts).len() + 1)),
    decreases ts.len(),
{
    let t0 = ts[0];
    let l = tag_list(ts) + seq![']'];
    assert forall|k: int| 0 <= k < l.len() implies s[p + k] == l[k] by {
        assert(s.subrange(p, p + l.len())[k] == s[p + k]);
    }
    let q = quoted(t0);
    if ts.len() == 1 {
        assert(l =~= q + seq![']']);
    } else {
        assert(l =~= q + sep() + (tag_list(ts.drop_first()) + seq![']']));
    }
    assert(l.subrange(0, q.len() as int) =~= q);
    assert(s[p] == '"') by {
        assert(l[0] == q[0]);
    }
    let e = p + 1 + t0.len();
    assert forall|j: int| p + 1 <= j < e implies s[j] != '"' by {
        assert(l[j - p] == q[j - p]);
        assert(q[j - p] == t0[j - p - 1]);
    }
    assert(s[e] == '"') by {
        assert(l[e - p] == q[e - p]);
    }
    lemma_quote_end(s, p + 1, e);
    assert(s.subrange(p + 1, e) =~= t0) by {
        assert forall|j: int| 0 <= j < t0.len() implies s.subrange(p + 1, e)[j] == t0[j] by {
            assert(l[j + 1] == q[j + 1]);
        }
    }
    if ts.len() == 1 {
        assert(s[e + 1] == ']') by {
            assert(l[e + 1 - p] == ']');
        }
        assert(s.subrange(e + 1, e + 2) =~= seq![']']);
        assert(seq![t0] =~= ts);
    } else {
        let rest = ts.drop_first();
        let lr = tag_list(rest) + seq![']'];
        assert(s[e + 1] == ',') by {
            assert(l[e + 1 - p] == ',');
        }
        assert(!has_at(s, seq![']'], e + 1)) by {
            assert(s.subrange(e + 1, e + 2)[0] == ',');
        }
        assert(s.subrange(e + 1, e + 3) =~= sep()) by {
            assert(l[e + 2 - p] == ' ');
        }
        let p2 = e + 3;
        assert(p2 == p + q.len() + 2);
        assert(s.subrange(p2, p2 + lr.len()) =~= lr) by {
            assert forall|j: int| 0 <= j < lr.len() implies s.subrange(p2, p2 + lr.len())[j] == lr[j] by {
                assert(l[p2 - p + j] == lr[j]);
            }
        }
        assert forall|i: int| 0 <= i < rest.len() implies quote_free(#[trigger] rest[i]) by {
            assert(rest[i] == ts[i + 1]);
        }
        lemma_parse_tags(s, p2, rest);
        assert(seq![t0] + rest =~= ts);
    }
}

proof fn lemma_name_close(s: Seq<char>, p: int, n: Seq<char>)
    requires
        0 <= p,
        p + escape(n).len() < s.len(),
        s.subrange(p, p + escape(n).len()) == escape(n),
        s[p + escape(n).len()] == '"',
    ensures
        name_close(s, p) == p + escape(n).len(),
    decreases n.len(),
{
    if n.len() > 0 {
        let c = n[0];
        let rest = n.drop_first();
        let ec = escape_char(c);
        let x = escape(n);
        assert(x == ec + escape(rest));
        assert(s[p] == x[0]) by {
            assert(s.subrange(p, p + x.len())[0] == s[p]);
        }
        let q = p + ec.len();
        assert(s.subrange(q, q + escape(rest).len()) =~= escape(rest)) by {
            assert forall|j: int| 0 <= j < escape(rest).len() implies s.subrange(q, q + escape(rest).len())[j]
                == escape(rest)[j] by {
                assert(s.subrange(p, p + x.len())[ec.len() + j] == x[ec.len() + j]);
            }
        }
        lemma_name_close(s, q, rest);
    }
}

proof fn lemma_unescape_escape(n: Seq<char>)
    ensures
        unescape(escape(n)) == n,
    decreases n.len(),
{
    if n.len() > 0 {
        let c = n[0];
        let rest = n.drop_first();
        let x = escape(n);
        lemma_unescape_escape(rest);
        if c == '"' || c == '\\' {
            assert(x.subrange(2, x.len() as int) =~= escape(rest));
        } else {
            assert(x.drop_first() =~= escape(rest));
        }
        assert(seq![c] + rest =~= n);
    }
}

proof fn lemma_close_at(s: Seq<char>, k: int, k0: int)
    requires
        0 <= k <= k0 < s.len(),
        has_at(s, closing(), k0),
        forall|i: int| k <= i < k0 ==> !has_at(s, closing(), i),
    ensures
        close_at(s, k) == k0,
    decreases k0 - k,
{
    if k < k0 {
        lemma_close_at(s, k + 1, k0);
    }
}

proof fn lemma_extra_close(s: Seq<char>, j: int, x: Seq<char>)
    requires
        0 <= j,
        j + x.len() + 5 <= s.len(),
        s.subrange(j, j + x.len() + 5) == seq!['\n'] + x + seq!['-', '-', '-', '\n'],
        extra_ok(x),
    ensures
        close_at(s, j) == j + x.len(),
        has_at(s, closing(), j + x.len()),
        s.subrange(j + 1, j + x.len() + 1) == x,
{
    let k0 = j + x.len();
    let dash = seq!['-', '-', '-', '\n'];
    let w = seq!['\n'] + x + dash;
    assert forall|i: int| 0 <= i < w.len() implies s[j + i] == w[i] by {
        assert(s.subrange(j, j + x.len() + 5)[i] == s[j + i]);
    }
    assert forall|i: int| 0 <= i < x.len() implies s[j + 1 + i] == x[i] by {
        assert(w[1 + i] == x[i]);
    }
    assert forall|i: int| 0 <= i < 4 implies s[k0 + 1 + i] == dash[i] by {
        assert(w[1 + x.len() + i] == dash[i]);
    }
    assert(s[k0] == '\n') by {
        if x.len() > 0 {
            assert(s[k0] == x[x.len() - 1]);
        } else {
            assert(w[0] == '\n');
        }
    }
    assert(s.subrange(k0, k0 + 5) =~= closing());
    assert forall|k: int| j <= k < k0 implies !has_at(s, closing(), k) by {
        if has_at(s, closing(), k) {
            let m = k - j;
            assert forall|t: int| 0 <= t < 5 implies s[k + t] == closing()[t] by {
                assert(s.subrange(k, k + 5)[t] == s[k + t]);
            }
            if m > 0 {
                assert(s[k] == x[m - 1]);
            }
            if m + 4 <= x.len() {
                assert(x.subrange(m, m + 4) =~= dash) by {
                    assert forall|t: int| 0 <= t < 4 implies x.subrange(m, m + 4)[t] == dash[t] by {
                        assert(s[k + 1 + t] == closing()[1 + t]);
                        assert(s[j + 1 + (m + t)] == x[m + t]);
                    }
                }
            } else {
                let t = x.len() - 1 - m;
                assert(s[k + 1 + t] == closing()[1 + t]);
                assert(s[j + 1 + (x.len() - 1)] == x[x.len() - 1]);
            }
        }
    }
    lemma_close_at(s, j, k0);
    assert(s.subrange(j + 1, k0 + 1) =~= x);
}

/// Reading back a written prompt file gives what was written: the display
/// name, the tags, the further header lines and the body, for any name, any
/// tags without a `"`, and whole further lines of which none is `---`.
pub proof fn lemma_round_trip_full(
    name: Seq<char>,
    tags: Seq<Seq<char>>,
    extra: Seq<char>,
    body: Seq<char>,
)
    requires
        representable(tags),
        extra_ok(extra),
    ensures
        parse(serialize_full(name, tags, extra, body)) == Some((name, tags, extra, body)),
{
    let s = serialize_full(name, tags, extra, body);
    let h = head();
    let en = escape(name);
    let ne = name_end();
    let tl = tag_list(tags);
    let hl = h.len() as int;
    let e = hl + en.len();
    let p = e + ne.len();
    let j = p + tl.len() + 1;
    let x = extra;
    let k0 = j + x.len();
    let dash = seq!['-', '-', '-', '\n'];
    assert(s =~= h + en + ne + tl + seq![']', '\n'] + x + dash + body);
    assert(s.subrange(0, hl) =~= h);
    assert(s.subrange(hl, e) =~= en);
    assert(s[e] == '"');
    lemma_name_close(s, hl, name);
    lemma_unescape_escape(name);
    assert(s.subrange(e, p) =~= ne);
    assert(s.subrange(p, j) =~= tl + seq![']']);
    if tags.len() == 0 {
        assert(tl =~= seq![]);
        assert(s.subrange(p, p + 1) =~= seq![']']);
    } else {
        assert(s[p] == '"') by {
            assert(tl[0] == '"');
        }
        assert(!has_at(s, seq![']'], p)) by {
            assert(s.subrange(p, p + 1)[0] == '"');
        }
        lemma_parse_tags(s, p, tags);
    }
    assert(s.subrange(j, k0 + 5) =~= seq!['\n'] + x + dash);
    assert(s.subrange(j, j + 1) =~= seq!['\n']);
    lemma_extra_close(s, j, x);
    assert(s.subrange(k0 + 5, s.len() as int) =~= body);
}

/// Reading back a written prompt file gives what was written: the display
/// name, the tags and the body, for any name and any tags without a `"`.
pub proof fn lemma_round_trip(name: Seq<char>, tags: Seq<Seq<char>>, body: Seq<char>)
    requires
        representable(tags),
    ensures
        parse(serialize(name, tags, body)) == Some((name, tags, Seq::<char>::empty(), body)),
{
    lemma_round_trip_full(name, tags, seq![], body);
}

fn head_chars() -> (r: Vec<char>)
    ensures
        r@ == head(),
{
    let r = vec!['-', '-', '-', '\n', 'n', 'a', 'm', 'e', ':', ' ', '"'];
    assert(r@ =~= head());
    r
}

fn name_end_chars() -> (r: Vec<char>)
    ensures
        r@ == name_end(),
{
    let r = vec!['"', '\n', 't', 'a', 'g', 's', ':', ' ', '['];
    assert(r@ =~= name_end());
    r
}

fn extend(out: &mut Vec<char>, v: &Vec<char>)
    ensures
        final(out)@ == old(out)@ + v@,
{
    let mut i: usize = 0;
    while i < v.len()
        invariant
            i <= v@.len(),
            out@ == old(out)@ + v@.subrange(0, i as int),
        decreases v.len() - i,
    {
        out.push(v[i]);
        assert(v@.subrange(0, i + 1) =~= v@.subrange(0, i as int).push(v@[i as int]));
        i += 1;
    }
    assert(v@.subrange(0, v@.len() as int) =~= v@);
}

fn tag_list_from(tags: &Vec<String>, i: usize) -> (r: Vec<char>)
    requires
        i <= tags@.len(),
    ensures
        r@ == tag_list(strs_view(tags@).subrange(i as int, tags@.len() as int)),
    decreases tags@.len() - i,
{
    let ghost ts = strs_view(tags@).subrange(i as int, tags@.len() as int);
    if i == tags.len() {
        assert(ts =~= seq![]);
        return Vec::new();
    }
    let mut out: Vec<char> = Vec::new();
    out.push('"');
    extend(&mut out, &chars_of(tags[i].as_str()));
    out.push('"');
    assert(out@ =~= quoted(ts[0]));
    if i + 1 < tags.len() {
        out.push(',');
        out.push(' ');
        let rest = tag_list_from(tags, i + 1);
        extend(&mut out, &rest);
        assert(ts.drop_first() =~= strs_view(tags@).subrange(i + 1, tags@.len() as int));
        assert(out@ =~= quoted(ts[0]) + sep() + tag_list(ts.drop_first()));
    }
    out
}

fn escape_exec(v: &Vec<char>) -> (r: Vec<char>)
    ensures
        r@ == escape(v@),
{
    let mut out: Vec<char> = Vec::new();
    let mut i: usize = 0;
    assert(v@.subrange(0, v@.len() as int) =~= v@);
    assert(out@ + escape(v@) =~= escape(v@));
    while i < v.len()
        invariant
            i <= v@.len(),
            out@ + escape(v@.subrange(i as int, v@.len() as int)) == escape(v@),
        decreases v.len() - i,
    {
        let c = v[i];
        let ghost rest = v@.subrange(i as int, v@.len() as int);
        assert(rest.drop_first() =~= v@.subrange(i + 1, v@.len() as int));
        assert(rest[0] == c);
        let ghost o = out@;
        if c == '"' || c == '\\' {
            out.push('\\');
        }
        out.push(c);
        assert(out@ =~= o + escape_char(c));
        assert(out@ + escape(v@.subrange(i + 1, v@.len() as int)) =~= o + (escape_char(c) + escape(
            rest.drop_first(),
        )));
        i += 1;
    }
    assert(v@.subrange(v@.len() as int, v@.len() as int) =~= seq![]);
    assert(out@ + seq![] =~= out@);
    out
}

fn unescape_exec(v: &Vec<char>) -> (r: Vec<char>)
    ensures
        r@ == unescape(v@),
{
    let n = v.len();
    let mut out: Vec<char> = Vec::new();
    let mut i: usize = 0;
    proof {
        assert(v@.subrange(0, n as int) =~= v@);
        assert(out@ + unescape(v@) =~= unescape(v@));
    }
    while i < n
        invariant
            n == v@.len(),
            i <= n,
            out@ + unescape(v@.subrange(i as int, n as int)) == unescape(v@),
        decreases n - i,
    {
        let ghost rest = v@.subrange(i as int, n as int);
        let ghost o = out@;
        if v[i] == '\\' && n - i >= 2 {
            out.push(v[i + 1]);
            assert(rest.subrange(2, rest.len() as int) =~= v@.subrange(i + 2, n as int));
            assert(out@ + unescape(v@.subrange(i + 2, n as int)) =~= o + (seq![rest[1]] + unescape(
                rest.subrange(2, rest.len() as int),
            )));
            i += 2;
        } else {
            out.push(v[i]);
            assert(rest.drop_first() =~= v@.subrange(i + 1, n as int));
            assert(out@ + unescape(v@.subrange(i + 1, n as int)) =~= o + (seq![rest[0]] + unescape(
                rest.drop_first(),
            )));
            i += 1;
        }
    }
    assert(v@.subrange(n as int, n as int) =~= seq![]);
    assert(out@ + seq![] =~= out@);
    out
}

fn name_close_exec(s: &Vec<char>, i: usize) -> (r: usize)
    requires
        i <= s@.len(),
    ensures
        r == name_close(s@, i as int),
        i <= r <= s@.len(),
{
    let n = s.len();
    let mut k: usize = i;
    while k < n && s[k] != '"'
        invariant
            n == s@.len(),
            i <= k <= n,
            name_close(s@, i as int) == name_close(s@, k as int),
        decreases n - k,
    {
        if s[k] == '\\' {
            assert(name_close(s@, k as int) == name_close(s@, k + 2));
            if n - k < 2 {
                k = n;
            } else {
                k += 2;
            }
        } else {
            k += 1;
        }
    }
    k
}

fn sub_vec(s: &Vec<char>, a: usize, b: usize) -> (r: Vec<char>)
    requires
        a <= b <= s@.len(),
    ensures
        r@ == s@.subrange(a as int, b as int),
{
    let mut out: Vec<char> = Vec::new();
    let mut k: usize = a;
    while k < b
        invariant
            a <= k <= b <= s@.len(),
            out@ == s@.subrange(a as int, k as int),
        decreases b - k,
    {
        out.push(s[k]);
        assert(s@.subrange(a as int, k + 1) =~= s@.subrange(a as int, k as int).push(s@[k as int]));
        k += 1;
    }
    out
}

/// Writes a prompt file: the header with `name`, `tags` and the further
/// header lines `extra`, then `body`.
pub fn serialize_full_prompt(name: &str, tags: &Vec<String>, extra: &str, body: &str) -> (r: String)
    ensures
        r@ == serialize_full(name@, strs_view(tags@), extra@, body@),
{
    let mut out = head_chars();
    extend(&mut out, &escape_exec(&chars_of(name)));
    extend(&mut out, &name_end_chars());
    extend(&mut out, &tag_list_from(tags, 0));
    out.push(']');
    out.push('\n');
    extend(&mut out, &chars_of(extra));
    out.push('-');
    out.push('-');
    out.push('-');
    out.push('\n');
    extend(&mut out, &chars_of(body));
    assert(strs_view(tags@).subrange(0, tags@.len() as int) =~= strs_view(tags@));
    assert(out@ =~= serialize_full(name@, strs_view(tags@), extra@, body@));
    string_of(&out)
}

/// Writes a prompt file: the header with `name` and `tags`, then `body`.
pub fn serialize_prompt(name: &str, tags: &Vec<String>, body: &str) -> (r: String)
    ensures
        r@ == serialize(name@, strs_view(tags@), body@),
{
    let none = String::new();
    serialize_full_prompt(name, tags, none.as_str(), body)
}

fn close_at_exec(s: &Vec<char>, i: usize) -> (r: usize)
    requires
        i <= s@.len(),
    ensures
        r == close_at(s@, i as int),
        i <= r <= s@.len(),
{
    let n = s.len();
    let c = vec!['\n', '-', '-', '-', '\n'];
    assert(c@ =~= closing());
    let mut k: usize = i;
    while k < n && !has_at_exec(s, &c, k)
        invariant
            n == s@.len(),
            c@ == closing(),
            i <= k <= n,
            close_at(s@, i as int) == close_at(s@, k as int),
        decreases n - k,
    {
        k += 1;
    }
    k
}

fn has_at_exec(s: &Vec<char>, p: &Vec<char>, i: usize) -> (r: bool)
    ensures
        r == has_at(s@, p@, i as int),
{
    if i > s.len() || s.len() - i < p.len() {
        return false;
    }
    let sl = s.len();
    let mut k: usize = 0;
    while k < p.len()
        invariant
            sl == s@.len(),
            i + p@.len() <= s@.len(),
            k <= p@.len(),
            forall|j: int| 0 <= j < k ==> s@[i + j] == p@[j],
        decreases p.len() - k,
    {
        if s[i + k] != p[k] {
            assert(s@.subrange(i as int, i + p@.len())[k as int] != p@[k as int]);
            return false;
        }
        k += 1;
    }
    assert(s@.subrange(i as int, i + p@.len()) =~= p@);
    true
}

fn quote_end_exec(s: &Vec<char>, i: usize) -> (r: usize)
    requires
        i <= s@.len(),
    ensures
        r == quote_end(s@, i as int),
        i <= r <= s@.len(),
{
    let mut k: usize = i;
    while k < s.len() && s[k] != '"'
        invariant
            i <= k <= s@.len(),
            quote_end(s@, i as int) == quote_end(s@, k as int),
        decreases s.len() - k,
    {
        k += 1;
    }
    k
}

fn slice_string(s: &Vec<char>, a: usize, b: usize) -> (r: String)
    requires
        a <= b <= s@.len(),
    ensures
        r@ == s@.subrange(a as int, b as int),
{
    let mut out = String::new();
    let mut k: usize = a;
    while k < b
        invariant
            a <= k <= b <= s@.len(),
            out@ == s@.subrange(a as int, k as int),
        decreases b - k,
    {
        push_char(&mut out, s[k]);
        assert(s@.subrange(a as int, k + 1) =~= s@.subrange(a as int, k as int).push(s@[k as int]));
        k += 1;
    }
    out
}

fn parse_tags_exec(s: &Vec<char>, i: usize) -> (r: Option<(Vec<String>, usize)>)
    ensures
        match parse_tags(s@, i as int) {
            Some((ts, j)) => (r matches Some((v, k)) && strs_view(v@) == ts && k == j),
            None => r is None,
        },
    decreases s@.len() - i,
{
    if !(i < s.len() && s[i] == '"') {
        return None;
    }
    let e = quote_end_exec(s, i + 1);
    if e >= s.len() {
        return None;
    }
    let t = slice_string(s, i + 1, e);
    let close = vec![']'];
    let sp = vec![',', ' '];
    assert(close@ =~= seq![']']);
    assert(sp@ =~= sep());
    if has_at_exec(s, &close, e + 1) {
        let mut v: Vec<String> = Vec::new();
        v.push(t);
        assert(strs_view(v@) =~= seq![s@.subrange(i + 1, e as int)]);
        Some((v, e + 2))
    } else if has_at_exec(s, &sp, e + 1) {
        match parse_tags_exec(s, e + 3) {
            Some((rest, j)) => {
                let mut v: Vec<String> = Vec::new();
                v.push(t);
                let ghost first = strs_view(v@);
                let mut rest = rest;
                let ghost rv = strs_view(rest@);
                while rest.len() > 0
                    invariant
                        strs_view(v@) + strs_view(rest@) == first + rv,
                    decreases rest@.len(),
                {
                    let ghost before = strs_view(rest@);
                    let x = rest.remove(0);
                    assert(strs_view(rest@) =~= before.drop_first());
                    let ghost vb = strs_view(v@);
                    v.push(x);
                    assert(strs_view(v@) + strs_view(rest@) =~= vb + before);
                }
                assert(strs_view(rest@) =~= seq![]);
                assert(strs_view(v@) =~= first + rv);
                assert(first =~= seq![s@.subrange(i + 1, e as int)]);
                Some((v, j))
            },
            None => None,
        }
    } else {
        None
    }
}

/// The display name, tags, further header lines and body read from a
/// prompt file.
pub struct ParsedPrompt {
    pub name: String,
    pub tags: Vec<String>,
    pub extra: String,
    pub body: String,
}

/// Reads a prompt file; `None` when its header is not in the format.
pub fn parse_prompt(text: &str) -> (r: Option<ParsedPrompt>)
    ensures
        match parse(text@) {
            Some((n, ts, x, b)) => (r matches Some(p) && p.name@ == n && strs_view(p.tags@) == ts
                && p.extra@ == x && p.body@ == b),
            None => r is None,
        },
{
    let s = chars_of(text);
    let n = s.len();
    let h = head_chars();
    if !has_at_exec(&s, &h, 0) {
        return None;
    }
    let e = name_close_exec(&s, 11);
    let ne = name_end_chars();
    if !has_at_exec(&s, &ne, e) {
        return None;
    }
    let p = e + 9;
    let close = vec![']'];
    assert(close@ =~= seq![']']);
    let parsed = if has_at_exec(&s, &close, p) {
        Some((Vec::new(), p + 1))
    } else {
        parse_tags_exec(&s, p)
    };
    match parsed {
        Some((tags, j)) => {
            proof {
                if has_at(s@, seq![']'], p as int) {
                    assert(strs_view(tags@) =~= seq![]);
                }
            }
            let nl = vec!['\n'];
            assert(nl@ =~= seq!['\n']);
            if !has_at_exec(&s, &nl, j) {
                return None;
            }
            let k = close_at_exec(&s, j);
            let c = vec!['\n', '-', '-', '-', '\n'];
            assert(c@ =~= closing());
            if !has_at_exec(&s, &c, k) {
                return None;
            }
            let name = string_of(&unescape_exec(&sub_vec(&s, 11, e)));
            let extra = slice_string(&s, j + 1, k + 1);
            let body = slice_string(&s, k + 5, s.len());
            Some(ParsedPrompt { name, tags, extra, body })
        },
        None => None,
    }
}

/// A file path without its `.md` extension.
pub open spec fn stem(p: Seq<char>) -> Seq<char> {
    if p.len() >= 3 && p.subrange(p.len() - 3, p.len() as int) == seq!['.', 'm', 'd'] {
        p.subrange(0, p.len() - 3)
    } else {
        p
    }
}

/// The record of the prompt file at `file_path` (relative to the prompts
/// directory) holding `text`: named by the normal form of the file's stem,
/// with its tags cleaned. `InvalidFormat` when the header does not read or
/// the name would be empty.
pub fn read_record(file_path: &str, text: &str) -> (r: Result<PromptMetadata, FinkError>)
    ensures
        match parse(text@) {
            Some((n, ts, _, _)) => if normal_form(stem(file_path@)).len() > 0 {
                (r matches Ok(m) && m.name@ == normal_form(stem(file_path@)) && m.display_name@ == n
                    && strs_view(m.tags@) == clean_tags(ts) && m.file_path@ == file_path@)
            } else {
                (r matches Err(FinkError::Prompt(PromptError::InvalidFormat(f))) && f@ == file_path@)
            },
            None => (r matches Err(FinkError::Prompt(PromptError::InvalidFormat(f))) && f@ == file_path@),
        },
{
    match parse_prompt(text) {
        Some(p) => {
            let v = chars_of(file_path);
            let n = v.len();
            let mut ext: Vec<char> = Vec::new();
            ext.push('.');
            ext.push('m');
            ext.push('d');
            let stem_text = if n >= 3 && has_at_exec(&v, &ext, n - 3) {
                slice_string(&v, 0, n - 3)
            } else {
                string_of(&v)
            };
            proof {
                assert(ext@ =~= seq!['.', 'm', 'd']);
            }
            let name = normalize(stem_text.as_str());
            if name.as_str().is_empty() {
                return Err(FinkError::Prompt(PromptError::InvalidFormat(String::from_str(file_path))));
            }
            Ok(PromptMetadata {
                name,
                display_name: p.name,
                tags: clean_tag_list(&p.tags),
                file_path: String::from_str(file_path),
            })
        },
        None => Err(FinkError::Prompt(PromptError::InvalidFormat(String::from_str(file_path)))),
    }
}

/// The prompt file `text` with its tags replaced by `tags` (cleaned of empty
/// and repeated tags, first occurrences kept in order), the name, the further
/// header lines and the body kept as they are; `InvalidFormat` when its
/// header does not read.
pub fn replace_tags(text: &str, tags: &Vec<String>) -> (r: Result<String, FinkError>)
    ensures
        match parse(text@) {
            Some((n, _, x, b)) => (r matches Ok(s) && s@ == serialize_full(n, clean_tags(strs_view(tags@)), x, b)),
            None => (r matches Err(FinkError::Prompt(PromptError::InvalidFormat(_)))),
        },
{
    match parse_prompt(text) {
        Some(p) => Ok(
            serialize_full_prompt(p.name.as_str(), &clean_tag_list(tags), p.extra.as_str(), p.body.as_str()),
        ),
        None => Err(
            FinkError::Prompt(PromptError::InvalidFormat(String::from_str("prompt header"))),
        ),
    }
}

} // verus!
