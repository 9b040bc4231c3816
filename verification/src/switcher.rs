//! The matching engine: which configured project is shown for which visible
//! window, in what order, and which window a pressed key switches to.
//!
//! A window matches a project when the project's pattern occurs in the
//! window's title.  For each project the first matching window wins.
use vstd::prelude::*;
use crate::models::{Config, ProjectConfig, WindowInfo};
use crate::text::{
    chars_eq_ignore_ascii_case, chars_lex_le, chars_of, eq_ignore_ascii_case,
    lemma_ascii_case_codes, lemma_letter_pair_case_equal, lemma_lex_le_antisymmetric,
    lemma_lex_le_reflexive, lemma_lex_le_total,
    lemma_lex_le_transitive, lex_le, occurs_in, str_contains,
};

verus! {

broadcast use vstd::seq_lib::group_to_multiset_ensures;

/// One row of the overlay: the project's key, the matched window's title, and
/// the window's handle.
pub type MatchEntry = (String, String, isize);

// ── Definitions ─────────────────────────────────────────────────────

/// The window's title contains the project's pattern.
pub open spec fn title_matches(w: WindowInfo, p: ProjectConfig) -> bool {
    occurs_in(p.match_pattern@, w.title@)
}

/// The first window of `ws` whose title contains the pattern of `p`.
pub open spec fn first_match(ws: Seq<WindowInfo>, p: ProjectConfig) -> Option<WindowInfo>
    decreases ws.len(),
{
    if ws.len() == 0 {
        None
    } else if title_matches(ws[0], p) {
        Some(ws[0])
    } else {
        first_match(ws.drop_first(), p)
    }
}

/// The overlay rows before sorting: one per project that has a matching
/// window, in the order of the projects.
pub open spec fn match_entries(ps: Seq<(String, ProjectConfig)>, ws: Seq<WindowInfo>) -> Seq<
    MatchEntry,
>
    decreases ps.len(),
{
    if ps.len() == 0 {
        Seq::empty()
    } else {
        let prev = match_entries(ps.drop_last(), ws);
        match first_match(ws, ps.last().1) {
            Some(w) => prev.push((ps.last().1.key, w.title, w.hwnd)),
            None => prev,
        }
    }
}

/// Row `a` comes no later than row `b` when ordered by key.
pub open spec fn key_le(a: MatchEntry, b: MatchEntry) -> bool {
    lex_le(a.0@, b.0@)
}

/// No two projects share a key.
pub open spec fn project_keys_distinct(ps: Seq<(String, ProjectConfig)>) -> bool {
    forall|i: int, j: int|
        0 <= i < ps.len() && 0 <= j < ps.len() && i != j ==> #[trigger] ps[i].1.key@
            != #[trigger] ps[j].1.key@
}

/// No two rows share a key.
pub open spec fn row_keys_distinct(s: Seq<MatchEntry>) -> bool {
    forall|i: int, j: int| 0 <= i < j < s.len() ==> #[trigger] s[i].0@ != #[trigger] s[j].0@
}

/// Every row's key comes strictly before the keys of the rows after it.
pub open spec fn strictly_sorted_by_key(s: Seq<MatchEntry>) -> bool {
    forall|i: int, j: int| 0 <= i < j < s.len() ==> !key_le(#[trigger] s[j], #[trigger] s[i])
}

/// `x` placed into `s` after every row whose key is not greater than its own.
pub open spec fn insert_by_key(s: Seq<MatchEntry>, x: MatchEntry) -> Seq<MatchEntry>
    decreases s.len(),
{
    if s.len() == 0 {
        seq![x]
    } else if key_le(s.last(), x) {
        s.push(x)
    } else {
        insert_by_key(s.drop_last(), x).push(s.last())
    }
}

/// The stable sort of `s` by key: rows with equal keys keep their order.
pub open spec fn sort_by_key(s: Seq<MatchEntry>) -> Seq<MatchEntry>
    decreases s.len(),
{
    if s.len() == 0 {
        s
    } else {
        insert_by_key(sort_by_key(s.drop_last()), s.last())
    }
}

/// Every row's key is no greater than the keys of the rows after it.
pub open spec fn sorted_by_key(s: Seq<MatchEntry>) -> bool {
    forall|i: int, j: int| 0 <= i < j < s.len() ==> key_le(#[trigger] s[i], #[trigger] s[j])
}

/// The window that pressing `key` switches to: the first matching window of
/// the first project (in project order) whose key equals `key` up to ASCII
/// case and that has a matching window.
pub open spec fn window_for_key(ps: Seq<(String, ProjectConfig)>, ws: Seq<WindowInfo>, key: char) -> Option<
    isize,
>
    decreases ps.len(),
{
    if ps.len() == 0 {
        None
    } else if eq_ignore_ascii_case(ps[0].1.key@, seq![key]) && first_match(ws, ps[0].1) is Some {
        Some(first_match(ws, ps[0].1)->0.hwnd)
    } else {
        window_for_key(ps.drop_first(), ws, key)
    }
}

// ── Lemmas ──────────────────────────────────────────────────────────

/// The first match of a project is one of the windows, and its title
/// contains the project's pattern; no match means no title contains it.
pub proof fn lemma_first_match(ws: Seq<WindowInfo>, p: ProjectConfig)
    ensures
        first_match(ws, p) matches Some(w) ==> ws.contains(w) && title_matches(w, p),
        first_match(ws, p) is None ==> forall|i: int|
            0 <= i < ws.len() ==> !title_matches(#[trigger] ws[i], p),
    decreases ws.len(),
{
    if ws.len() > 0 {
        lemma_first_match(ws.drop_first(), p);
        if !title_matches(ws[0], p) {
            if let Some(w) = first_match(ws.drop_first(), p) {
                let k = choose|k: int| 0 <= k < ws.drop_first().len() && ws.drop_first()[k] == w;
                assert(ws[k + 1] == w);
            }
            assert forall|i: int| 0 <= i < ws.len() && first_match(ws, p) is None implies !title_matches(
                #[trigger] ws[i],
                p,
            ) by {
                if i > 0 {
                    assert(ws[i] == ws.drop_first()[i - 1]);
                }
            }
        } else {
            assert(ws.contains(ws[0]));
        }
    }
}

/// The rows before sorting are exactly the rows of projects with a matching
/// window.
proof fn lemma_match_entries_members(ps: Seq<(String, ProjectConfig)>, ws: Seq<WindowInfo>, e: MatchEntry)
    ensures
        match_entries(ps, ws).contains(e) <==> exists|j: int|
            0 <= j < ps.len() && #[trigger] first_match(ws, ps[j].1) is Some && e == (
                ps[j].1.key,
                first_match(ws, ps[j].1)->0.title,
                first_match(ws, ps[j].1)->0.hwnd,
            ),
    decreases ps.len(),
{
    if ps.len() > 0 {
        let prev = ps.drop_last();
        lemma_match_entries_members(prev, ws, e);
        let n = ps.len() - 1;
        let cur = match_entries(ps, ws);
        let old_entries = match_entries(prev, ws);
        if match_entries(ps, ws).contains(e) {
            if first_match(ws, ps[n].1) is Some && e == (
                ps[n].1.key,
                first_match(ws, ps[n].1)->0.title,
                first_match(ws, ps[n].1)->0.hwnd,
            ) {
                assert(first_match(ws, ps[n].1) is Some);
            } else {
                let k = choose|k: int| 0 <= k < cur.len() && cur[k] == e;
                if first_match(ws, ps.last().1) is Some {
                    assert(k < old_entries.len());
                }
                assert(old_entries[k] == e);
                let j = choose|j: int|
                    0 <= j < prev.len() && #[trigger] first_match(ws, prev[j].1) is Some && e == (
                        prev[j].1.key,
                        first_match(ws, prev[j].1)->0.title,
                        first_match(ws, prev[j].1)->0.hwnd,
                    );
                assert(ps[j] == prev[j]);
            }
        }
        if exists|j: int|
            0 <= j < ps.len() && #[trigger] first_match(ws, ps[j].1) is Some && e == (
                ps[j].1.key,
                first_match(ws, ps[j].1)->0.title,
                first_match(ws, ps[j].1)->0.hwnd,
            ) {
            let j = choose|j: int|
                0 <= j < ps.len() && #[trigger] first_match(ws, ps[j].1) is Some && e == (
                    ps[j].1.key,
                    first_match(ws, ps[j].1)->0.title,
                    first_match(ws, ps[j].1)->0.hwnd,
                );
            if j == n {
                assert(cur[cur.len() - 1] == e);
            } else {
                assert(prev[j] == ps[j]);
                assert(old_entries.contains(e));
                let k = choose|k: int| 0 <= k < old_entries.len() && old_entries[k] == e;
                assert(cur[k] == e);
            }
        }
    }
}

proof fn lemma_insert_by_key_multiset(s: Seq<MatchEntry>, x: MatchEntry)
    ensures
        insert_by_key(s, x).to_multiset() =~= s.to_multiset().insert(x),
    decreases s.len(),
{
    if s.len() == 0 {
        assert(seq![x] =~= Seq::<MatchEntry>::empty().push(x));
    } else if key_le(s.last(), x) {
    } else {
        lemma_insert_by_key_multiset(s.drop_last(), x);
        assert(s =~= s.drop_last().push(s.last()));
    }
}

proof fn lemma_insert_by_key_sorted(s: Seq<MatchEntry>, x: MatchEntry)
    requires
        sorted_by_key(s),
    ensures
        sorted_by_key(insert_by_key(s, x)),
    decreases s.len(),
{
    let r = insert_by_key(s, x);
    if s.len() == 0 {
    } else if key_le(s.last(), x) {
        assert forall|i: int, j: int| 0 <= i < j < r.len() implies key_le(#[trigger] r[i], #[trigger] r[j]) by {
            if j == r.len() - 1 && i < s.len() - 1 {
                lemma_lex_le_transitive(s[i].0@, s.last().0@, x.0@);
            }
        }
    } else {
        let t = s.drop_last();
        let last = s.last();
        lemma_insert_by_key_sorted(t, x);
        lemma_insert_by_key_multiset(t, x);
        lemma_lex_le_total(last.0@, x.0@);
        let r0 = insert_by_key(t, x);
        assert forall|i: int, j: int| 0 <= i < j < r.len() implies key_le(#[trigger] r[i], #[trigger] r[j]) by {
            if j == r.len() - 1 {
                let e = r0[i];
                assert(r0.contains(e));
                assert(r0.to_multiset().count(e) > 0);
                if e != x {
                    assert(t.to_multiset().count(e) > 0);
                    assert(t.contains(e));
                    let k = choose|k: int| 0 <= k < t.len() && t[k] == e;
                    assert(s[k] == e);
                    assert(key_le(s[k], s[s.len() - 1]));
                }
            }
        }
    }
}

/// Sorting by key gives rows in key order.
pub proof fn lemma_sort_by_key_sorted(s: Seq<MatchEntry>)
    ensures
        sorted_by_key(sort_by_key(s)),
    decreases s.len(),
{
    if s.len() > 0 {
        lemma_sort_by_key_sorted(s.drop_last());
        lemma_insert_by_key_sorted(sort_by_key(s.drop_last()), s.last());
    }
}

/// Sorting by key neither adds nor drops a row.
pub proof fn lemma_sort_by_key_permutes(s: Seq<MatchEntry>)
    ensures
        sort_by_key(s).to_multiset() =~= s.to_multiset(),
    decreases s.len(),
{
    if s.len() > 0 {
        lemma_sort_by_key_permutes(s.drop_last());
        lemma_insert_by_key_multiset(sort_by_key(s.drop_last()), s.last());
        assert(s =~= s.drop_last().push(s.last()));
    }
}

proof fn lemma_sorted_contains(s: Seq<MatchEntry>, e: MatchEntry)
    ensures
        sort_by_key(s).contains(e) <==> s.contains(e),
{
    lemma_sort_by_key_permutes(s);
    assert(sort_by_key(s).contains(e) <==> sort_by_key(s).to_multiset().count(e) > 0);
    assert(s.contains(e) <==> s.to_multiset().count(e) > 0);
}

proof fn lemma_window_for_key_witness(ps: Seq<(String, ProjectConfig)>, ws: Seq<WindowInfo>, key: char)
    ensures
        window_for_key(ps, ws, key) matches Some(h) ==> exists|j: int|
            0 <= j < ps.len() && eq_ignore_ascii_case(ps[j].1.key@, seq![key])
                && #[trigger] first_match(ws, ps[j].1) is Some && first_match(ws, ps[j].1)->0.hwnd
                == h,
        window_for_key(ps, ws, key) is None ==> forall|j: int|
            0 <= j < ps.len() && eq_ignore_ascii_case(ps[j].1.key@, seq![key])
                ==> #[trigger] first_match(ws, ps[j].1) is None,
    decreases ps.len(),
{
    if ps.len() > 0 {
        let rest = ps.drop_first();
        lemma_window_for_key_witness(rest, ws, key);
        if !(eq_ignore_ascii_case(ps[0].1.key@, seq![key]) && first_match(ws, ps[0].1) is Some) {
            if let Some(h) = window_for_key(rest, ws, key) {
                let j = choose|j: int|
                    0 <= j < rest.len() && eq_ignore_ascii_case(rest[j].1.key@, seq![key])
                        && #[trigger] first_match(ws, rest[j].1) is Some && first_match(
                        ws,
                        rest[j].1,
                    )->0.hwnd == h;
                assert(ps[j + 1] == rest[j]);
            } else {
                assert forall|j: int|
                    0 <= j < ps.len() && eq_ignore_ascii_case(ps[j].1.key@, seq![key]) implies #[trigger] first_match(
                    ws,
                    ps[j].1,
                ) is None by {
                    if j > 0 {
                        assert(ps[j] == rest[j - 1]);
                    }
                }
            }
        }
    }
}


proof fn lemma_entries_keys_distinct(ps: Seq<(String, ProjectConfig)>, ws: Seq<WindowInfo>)
    requires
        project_keys_distinct(ps),
    ensures
        row_keys_distinct(match_entries(ps, ws)),
    decreases ps.len(),
{
    if ps.len() > 0 {
        let prev = ps.drop_last();
        assert(project_keys_distinct(prev)) by {
            assert forall|i: int, j: int|
                0 <= i < prev.len() && 0 <= j < prev.len() && i != j implies #[trigger] prev[i].1.key@
                != #[trigger] prev[j].1.key@ by {
                assert(prev[i] == ps[i] && prev[j] == ps[j]);
            }
        }
        lemma_entries_keys_distinct(prev, ws);
        let old_rows = match_entries(prev, ws);
        let rows = match_entries(ps, ws);
        let n = ps.len() - 1;
        if let Some(w) = first_match(ws, ps.last().1) {
            assert forall|i: int, j: int| 0 <= i < j < rows.len() implies #[trigger] rows[i].0@
                != #[trigger] rows[j].0@ by {
                if j == rows.len() - 1 {
                    let e = old_rows[i];
                    assert(old_rows.contains(e));
                    lemma_match_entries_members(prev, ws, e);
                    let k = choose|k: int|
                        0 <= k < prev.len() && #[trigger] first_match(ws, prev[k].1) is Some && e == (
                            prev[k].1.key,
                            first_match(ws, prev[k].1)->0.title,
                            first_match(ws, prev[k].1)->0.hwnd,
                        );
                    assert(prev[k] == ps[k]);
                    assert(ps[n] == ps.last());
                    assert(ps[k].1.key@ != ps[n].1.key@);
                }
            }
        }
    }
}

proof fn lemma_insert_by_key_strict(s: Seq<MatchEntry>, x: MatchEntry)
    requires
        strictly_sorted_by_key(s),
        forall|k: int| 0 <= k < s.len() ==> (#[trigger] s[k]).0@ != x.0@,
    ensures
        strictly_sorted_by_key(insert_by_key(s, x)),
    decreases s.len(),
{
    let r = insert_by_key(s, x);
    if s.len() == 0 {
    } else if key_le(s.last(), x) {
        let n = s.len() - 1;
        assert forall|i: int, j: int| 0 <= i < j < r.len() implies !key_le(#[trigger] r[j], #[trigger] r[i]) by {
            if j == r.len() - 1 {
                if key_le(x, s[i]) {
                    if i < n {
                        lemma_lex_le_total(s[i].0@, s[n].0@);
                        lemma_lex_le_transitive(x.0@, s[i].0@, s[n].0@);
                    }
                    lemma_lex_le_antisymmetric(x.0@, s[n].0@);
                }
            }
        }
    } else {
        let t = s.drop_last();
        let last = s.last();
        assert forall|k: int| 0 <= k < t.len() implies (#[trigger] t[k]).0@ != x.0@ by {
            assert(t[k] == s[k]);
        }
        assert(strictly_sorted_by_key(t)) by {
            assert forall|i: int, j: int| 0 <= i < j < t.len() implies !key_le(#[trigger] t[j], #[trigger] t[i]) by {
                assert(t[i] == s[i] && t[j] == s[j]);
            }
        }
        lemma_insert_by_key_strict(t, x);
        lemma_insert_by_key_multiset(t, x);
        let r0 = insert_by_key(t, x);
        assert forall|i: int, j: int| 0 <= i < j < r.len() implies !key_le(#[trigger] r[j], #[trigger] r[i]) by {
            if j == r.len() - 1 {
                let e = r0[i];
                assert(r0.contains(e));
                assert(r0.to_multiset().count(e) > 0);
                if e != x {
                    assert(t.to_multiset().count(e) > 0);
                    assert(t.contains(e));
                    let k = choose|k: int| 0 <= k < t.len() && t[k] == e;
                    assert(s[k] == e);
                    assert(!key_le(s[s.len() - 1], s[k]));
                }
            }
        }
    }
}

proof fn lemma_sort_by_key_strict(s: Seq<MatchEntry>)
    requires
        row_keys_distinct(s),
    ensures
        strictly_sorted_by_key(sort_by_key(s)),
    decreases s.len(),
{
    if s.len() > 0 {
        let t = s.drop_last();
        assert(row_keys_distinct(t)) by {
            assert forall|i: int, j: int| 0 <= i < j < t.len() implies #[trigger] t[i].0@ != #[trigger] t[j].0@ by {
                assert(t[i] == s[i] && t[j] == s[j]);
            }
        }
        lemma_sort_by_key_strict(t);
        let st = sort_by_key(t);
        assert forall|k: int| 0 <= k < st.len() implies (#[trigger] st[k]).0@ != s.last().0@ by {
            lemma_sorted_contains(t, st[k]);
            assert(st.contains(st[k]));
            let m = choose|m: int| 0 <= m < t.len() && t[m] == st[k];
            assert(s[m] == t[m]);
            assert(s[s.len() - 1] == s.last());
        }
        lemma_insert_by_key_strict(st, s.last());
    }
}

proof fn lemma_strictly_sorted_unique(a: Seq<MatchEntry>, b: Seq<MatchEntry>)
    requires
        strictly_sorted_by_key(a),
        strictly_sorted_by_key(b),
        forall|e: MatchEntry| a.contains(e) <==> b.contains(e),
    ensures
        a == b,
    decreases a.len(),
{
    if a.len() == 0 {
        if b.len() > 0 {
            assert(b.contains(b[0]));
        }
        assert(a =~= b);
    } else if b.len() == 0 {
        assert(a.contains(a[0]));
    } else {
        assert(a.contains(a[0]));
        let k = choose|k: int| 0 <= k < b.len() && b[k] == a[0];
        assert(b.contains(b[0]));
        let m = choose|m: int| 0 <= m < a.len() && a[m] == b[0];
        if k > 0 {
            assert(!key_le(b[k], b[0]));
            if m == 0 {
                lemma_lex_le_reflexive(a[0].0@);
            } else {
                assert(!key_le(a[m], a[0]));
                lemma_lex_le_total(a[0].0@, a[m].0@);
            }
        }
        assert(a[0] == b[0]);
        let a1 = a.drop_first();
        let b1 = b.drop_first();
        assert(strictly_sorted_by_key(a1)) by {
            assert forall|i: int, j: int| 0 <= i < j < a1.len() implies !key_le(#[trigger] a1[j], #[trigger] a1[i]) by {
                assert(a1[i] == a[i + 1] && a1[j] == a[j + 1]);
            }
        }
        assert(strictly_sorted_by_key(b1)) by {
            assert forall|i: int, j: int| 0 <= i < j < b1.len() implies !key_le(#[trigger] b1[j], #[trigger] b1[i]) by {
                assert(b1[i] == b[i + 1] && b1[j] == b[j + 1]);
            }
        }
        assert forall|e: MatchEntry| a1.contains(e) <==> b1.contains(e) by {
            if a1.contains(e) {
                let i = choose|i: int| 0 <= i < a1.len() && a1[i] == e;
                assert(a[i + 1] == e);
                assert(a.contains(e));
                if e == a[0] {
                    lemma_lex_le_reflexive(e.0@);
                    assert(!key_le(a[i + 1], a[0]));
                }
                let j = choose|j: int| 0 <= j < b.len() && b[j] == e;
                assert(j > 0);
                assert(b1[j - 1] == e);
            }
            if b1.contains(e) {
                let i = choose|i: int| 0 <= i < b1.len() && b1[i] == e;
                assert(b[i + 1] == e);
                assert(b.contains(e));
                if e == b[0] {
                    lemma_lex_le_reflexive(e.0@);
                    assert(!key_le(b[i + 1], b[0]));
                }
                let j = choose|j: int| 0 <= j < a.len() && a[j] == e;
                assert(j > 0);
                assert(a1[j - 1] == e);
            }
        }
        lemma_strictly_sorted_unique(a1, b1);
        assert(a =~= seq![a[0]] + a1);
        assert(b =~= seq![b[0]] + b1);
    }
}

/// When no two projects share a key, the overlay rows depend only on which
/// projects are configured, not on the order in which they are visited: two
/// project lists with the same members give the same rows.
pub proof fn lemma_rows_ignore_project_order(
    ps1: Seq<(String, ProjectConfig)>,
    ps2: Seq<(String, ProjectConfig)>,
    ws: Seq<WindowInfo>,
)
    requires
        project_keys_distinct(ps1),
        project_keys_distinct(ps2),
        forall|p: (String, ProjectConfig)| ps1.contains(p) <==> ps2.contains(p),
    ensures
        sort_by_key(match_entries(ps1, ws)) == sort_by_key(match_entries(ps2, ws)),
{
    let e1 = match_entries(ps1, ws);
    let e2 = match_entries(ps2, ws);
    lemma_entries_keys_distinct(ps1, ws);
    lemma_entries_keys_distinct(ps2, ws);
    lemma_sort_by_key_strict(e1);
    lemma_sort_by_key_strict(e2);
    assert forall|e: MatchEntry| #[trigger] sort_by_key(e1).contains(e) <==> sort_by_key(e2).contains(e) by {
        lemma_sorted_contains(e1, e);
        lemma_sorted_contains(e2, e);
        lemma_match_entries_members(ps1, ws, e);
        lemma_match_entries_members(ps2, ws, e);
        if e1.contains(e) {
            let j = choose|j: int|
                0 <= j < ps1.len() && #[trigger] first_match(ws, ps1[j].1) is Some && e == (
                    ps1[j].1.key,
                    first_match(ws, ps1[j].1)->0.title,
                    first_match(ws, ps1[j].1)->0.hwnd,
                );
            assert(ps1.contains(ps1[j]));
            let k = choose|k: int| 0 <= k < ps2.len() && ps2[k] == ps1[j];
            assert(first_match(ws, ps2[k].1) is Some);
        }
        if e2.contains(e) {
            let j = choose|j: int|
                0 <= j < ps2.len() && #[trigger] first_match(ws, ps2[j].1) is Some && e == (
                    ps2[j].1.key,
                    first_match(ws, ps2[j].1)->0.title,
                    first_match(ws, ps2[j].1)->0.hwnd,
                );
            assert(ps2.contains(ps2[j]));
            let k = choose|k: int| 0 <= k < ps1.len() && ps1[k] == ps2[j];
            assert(first_match(ws, ps1[k].1) is Some);
        }
    }
    lemma_strictly_sorted_unique(sort_by_key(e1), sort_by_key(e2));
}


/// The first match of a project is the window of least index whose title
/// contains the project's pattern: it is `ws[i]` for some `i` whose title
/// contains the pattern, and no earlier title contains it.
pub proof fn lemma_first_match_is_earliest(ws: Seq<WindowInfo>, p: ProjectConfig)
    ensures
        first_match(ws, p) matches Some(w) ==> exists|i: int|
            0 <= i < ws.len() && ws[i] == w && occurs_in(p.match_pattern@, ws[i].title@)
                && forall|j: int| 0 <= j < i ==> !occurs_in(p.match_pattern@, #[trigger] ws[j].title@),
        first_match(ws, p) is None ==> forall|j: int|
            0 <= j < ws.len() ==> !occurs_in(p.match_pattern@, #[trigger] ws[j].title@),
    decreases ws.len(),
{
    if ws.len() > 0 {
        let rest = ws.drop_first();
        lemma_first_match_is_earliest(rest, p);
        if occurs_in(p.match_pattern@, ws[0].title@) {
            assert(forall|j: int| 0 <= j < 0 ==> !occurs_in(p.match_pattern@, #[trigger] ws[j].title@));
        } else {
            if let Some(w) = first_match(rest, p) {
                let i = choose|i: int|
                    0 <= i < rest.len() && rest[i] == w && occurs_in(p.match_pattern@, rest[i].title@)
                        && forall|j: int| 0 <= j < i ==> !occurs_in(p.match_pattern@, #[trigger] rest[j].title@);
                assert(ws[i + 1] == w);
                assert forall|j: int| 0 <= j < i + 1 implies !occurs_in(p.match_pattern@, #[trigger] ws[j].title@) by {
                    if j > 0 {
                        assert(ws[j] == rest[j - 1]);
                    }
                }
            } else {
                assert forall|j: int| 0 <= j < ws.len() implies !occurs_in(p.match_pattern@, #[trigger] ws[j].title@) by {
                    if j > 0 {
                        assert(ws[j] == rest[j - 1]);
                    }
                }
            }
        }
    }
}

/// Pressing an upper-case letter and pressing its lower-case letter (the
/// code 32 above) switch to the same window, whatever the projects and
/// windows: project keys are compared ignoring ASCII case.
pub proof fn lemma_key_case_ignored(
    ps: Seq<(String, ProjectConfig)>,
    ws: Seq<WindowInfo>,
    upper: char,
    lower: char,
)
    requires
        0x41 <= (upper as u32) <= 0x5A,
        (lower as u32) == (upper as u32) + 32,
    ensures
        window_for_key(ps, ws, upper) == window_for_key(ps, ws, lower),
    decreases ps.len(),
{
    if ps.len() > 0 {
        lemma_letter_pair_case_equal(upper, lower, ps[0].1.key@);
        lemma_key_case_ignored(ps.drop_first(), ws, upper, lower);
    }
}

/// A project whose key is a single ASCII letter is found by either case of
/// that letter: pressing the upper-case letter (the key code the overlay
/// reports) reaches a project configured with the lower-case letter.
pub proof fn lemma_letter_keys_match_both_cases(key: Seq<char>, upper: char, lower: char)
    requires
        0x41 <= (upper as u32) <= 0x5A,
        (lower as u32) == (upper as u32) + 32,
        key == seq![lower] || key == seq![upper],
    ensures
        eq_ignore_ascii_case(key, seq![upper]),
        eq_ignore_ascii_case(key, seq![lower]),
{
    lemma_letter_pair_case_equal(upper, lower, key);
    lemma_letter_pair_case_equal(upper, lower, seq![upper]);
    lemma_ascii_case_codes(upper);
    lemma_ascii_case_codes(lower);
    assert(seq![upper][0] == upper);
    assert(seq![lower][0] == lower);
}

// ── The switcher ────────────────────────────────────────────────────

/// The configuration together with the latest snapshot of visible windows.
pub struct Switcher {
    config: Config,
    cache: Vec<WindowInfo>,
}

impl Switcher {
    /// The configuration names each project once.
    #[verifier::type_invariant]
    spec fn names_are_unique(self) -> bool {
        self.config.names_unique()
    }

    /// The configuration in use.
    pub closed spec fn cfg(&self) -> Config {
        self.config
    }

    /// The latest snapshot of visible windows, in enumeration order.
    pub closed spec fn windows(&self) -> Seq<WindowInfo> {
        self.cache@
    }

    /// The projects in the order the matcher visits them.
    pub open spec fn projects(&self) -> Seq<(String, ProjectConfig)> {
        self.cfg().projects@
    }

    /// The overlay rows: one per project that has a matching window, sorted
    /// by key.
    pub open spec fn rows(&self) -> Seq<MatchEntry> {
        sort_by_key(match_entries(self.projects(), self.windows()))
    }

    /// A switcher for `config` that has seen no window yet.  Project names
    /// must be unique, as they are in the configuration file's map.
    pub fn new(config: Config) -> (s: Self)
        requires
            config.names_unique(),
        ensures
            s.cfg() == config,
            s.windows() == Seq::<WindowInfo>::empty(),
            s.cfg().names_unique(),
    {
        Switcher { config, cache: Vec::new() }
    }

    /// Replaces the snapshot of visible windows with `windows`, freshly
    /// enumerated by the caller.
    pub fn refresh(&mut self, windows: Vec<WindowInfo>)
        ensures
            final(self).windows() == windows@,
            final(self).cfg() == old(self).cfg(),
            final(self).cfg().names_unique(),
    {
        proof {
            use_type_invariant(&*self);
        }
        self.cache = windows;
    }

    /// The index of the first window whose title contains the pattern of
    /// `p`.
    fn first_matching_window(&self, p: &ProjectConfig) -> (r: Option<usize>)
        ensures
            match r {
                Some(i) => i < self.windows().len() && first_match(self.windows(), *p) == Some(
                    self.windows()[i as int],
                ),
                None => first_match(self.windows(), *p) is None,
            },
    {
        let mut i: usize = 0;
        proof {
            assert(self.cache@.skip(0) =~= self.cache@);
        }
        while i < self.cache.len()
            invariant
                i <= self.cache@.len(),
                first_match(self.cache@, *p) == first_match(self.cache@.skip(i as int), *p),
            decreases self.cache.len() - i,
        {
            proof {
                let rest = self.cache@.skip(i as int);
                assert(rest[0] == self.cache@[i as int]);
                assert(rest.drop_first() =~= self.cache@.skip(i + 1));
            }
            if str_contains(self.cache[i].title.as_str(), p.match_pattern.as_str()) {
                return Some(i);
            }
            i += 1;
        }
        None
    }

    /// The overlay rows: for each project that has a matching window, its key,
    /// the title and the handle of its first matching window; sorted by key,
    /// rows with equal keys in project order.
    pub fn matches(&self) -> (r: Vec<MatchEntry>)
        ensures
            r@ == self.rows(),
    {
        let mut results: Vec<MatchEntry> = Vec::new();
        let n = self.config.projects.len();
        let mut i: usize = 0;
        proof {
            assert(self.projects().take(0) =~= Seq::<(String, ProjectConfig)>::empty());
        }
        while i < n
            invariant
                i <= n,
                n == self.projects().len(),
                results@ == sort_by_key(match_entries(self.projects().take(i as int), self.windows())),
            decreases n - i,
        {
            let proj = &self.config.projects[i].1;
            let found = self.first_matching_window(proj);
            proof {
                assert(self.projects().take(i + 1).drop_last() =~= self.projects().take(i as int));
            }
            match found {
                Some(k) => {
                    let entry: MatchEntry = (
                        proj.key.clone(),
                        self.cache[k].title.clone(),
                        self.cache[k].hwnd,
                    );
                    insert_sorted(&mut results, entry);
                    proof {
                        let prefix = self.projects().take(i + 1);
                        let entries = match_entries(prefix.drop_last(), self.windows());
                        assert(match_entries(prefix, self.windows()) == entries.push(entry));
                        assert(entries.push(entry).drop_last() =~= entries);
                    }
                },
                None => {},
            }
            i += 1;
        }
        proof {
            assert(self.projects().take(n as int) =~= self.projects());
        }
        results
    }

    /// The window to switch to when `key` is pressed: the first matching
    /// window of the first project, in project order, whose key equals `key`
    /// up to ASCII case and that has a matching window.
    pub fn find_hwnd_by_key(&self, key: char) -> (r: Option<isize>)
        ensures
            r == window_for_key(self.projects(), self.windows(), key),
    {
        let key_chars = [key];
        let n = self.config.projects.len();
        let mut i: usize = 0;
        proof {
            assert(self.projects().skip(0) =~= self.projects());
            assert(key_chars@ =~= seq![key]);
        }
        while i < n
            invariant
                i <= n,
                n == self.projects().len(),
                key_chars@ == seq![key],
                window_for_key(self.projects(), self.windows(), key) == window_for_key(
                    self.projects().skip(i as int),
                    self.windows(),
                    key,
                ),
            decreases n - i,
        {
            let proj = &self.config.projects[i].1;
            proof {
                let rest = self.projects().skip(i as int);
                assert(rest[0] == self.projects()[i as int]);
                assert(rest.drop_first() =~= self.projects().skip(i + 1));
            }
            let k = chars_of(proj.key.as_str());
            if chars_eq_ignore_ascii_case(k.as_slice(), key_chars.as_slice()) {
                match self.first_matching_window(proj) {
                    Some(w) => {
                        return Some(self.cache[w].hwnd);
                    },
                    None => {},
                }
            }
            i += 1;
        }
        None
    }

    /// The configuration in use.
    pub fn get_config(&self) -> (c: &Config)
        ensures
            *c == self.cfg(),
            c.names_unique(),
    {
        proof {
            use_type_invariant(self);
        }
        &self.config
    }

    /// Takes the outcome of re-reading the configuration: a new configuration
    /// (with unique project names) replaces the old one and the answer is
    /// `true`; a failure leaves the configuration as it was and the answer is
    /// `false`.
    pub fn reload_config(&mut self, loaded: Result<Config, String>) -> (ok: bool)
        requires
            loaded matches Ok(c) ==> c.names_unique(),
        ensures
            ok == loaded is Ok,
            loaded matches Ok(c) ==> final(self).cfg() == c,
            loaded is Err ==> final(self).cfg() == old(self).cfg(),
            final(self).windows() == old(self).windows(),
            final(self).cfg().names_unique(),
    {
        proof {
            use_type_invariant(&*self);
        }
        match loaded {
            Ok(new_config) => {
                self.config = new_config;
                true
            },
            Err(_) => false,
        }
    }
}

/// Places `x` into the key-sorted rows `v` after every row whose key is not
/// greater than its own.
fn insert_sorted(v: &mut Vec<MatchEntry>, x: MatchEntry)
    ensures
        final(v)@ == insert_by_key(old(v)@, x),
{
    let ghost s = v@;
    let xk = chars_of(x.0.as_str());
    let mut j: usize = v.len();
    proof {
        assert(s.take(s.len() as int) =~= s);
        assert(s.skip(s.len() as int) =~= Seq::<MatchEntry>::empty());
    }
    loop
        invariant
            v@ == s,
            j <= s.len(),
            xk@ == x.0@,
            insert_by_key(s, x) == insert_by_key(s.take(j as int), x) + s.skip(j as int),
        ensures
            j <= s.len(),
            insert_by_key(s, x) == insert_by_key(s.take(j as int), x) + s.skip(j as int),
            j == 0 || lex_le(s[j - 1].0@, x.0@),
        decreases j,
    {
        if j == 0 {
            break;
        }
        let pk = chars_of(v[j - 1].0.as_str());
        if chars_lex_le(pk.as_slice(), xk.as_slice()) {
            break;
        }
        proof {
            let t = s.take(j as int);
            assert(t.drop_last() =~= s.take(j - 1));
            assert(t.last() == s[j - 1]);
            assert(insert_by_key(t, x) == insert_by_key(s.take(j - 1), x).push(s[j - 1]));
            assert(insert_by_key(s.take(j - 1), x).push(s[j - 1]) + s.skip(j as int)
                =~= insert_by_key(s.take(j - 1), x) + s.skip(j - 1));
        }
        j -= 1;
    }
    proof {
        let t = s.take(j as int);
        if j > 0 {
            assert(t.last() == s[j - 1]);
            assert(insert_by_key(t, x) == t.push(x));
        } else {
            assert(t =~= Seq::<MatchEntry>::empty());
        }
    }
    v.insert(j, x);
    proof {
        assert(v@ =~= s.take(j as int).push(x) + s.skip(j as int));
    }
}

// ── Laws ────────────────────────────────────────────────────────────

/// The overlay rows are in key order, and each row belongs to a project whose
/// pattern occurs in the row's title, with the handle of that project's first
/// matching window; every project with a matching window has its row.
pub proof fn lemma_rows_are_sorted_matches(s: &Switcher)
    ensures
        sorted_by_key(s.rows()),
        forall|e: MatchEntry| #[trigger]
            s.rows().contains(e) <==> exists|j: int|
                0 <= j < s.projects().len() && #[trigger] first_match(
                    s.windows(),
                    s.projects()[j].1,
                ) is Some && e == (
                    s.projects()[j].1.key,
                    first_match(s.windows(), s.projects()[j].1)->0.title,
                    first_match(s.windows(), s.projects()[j].1)->0.hwnd,
                ),
        forall|j: int|
            0 <= j < s.projects().len() ==> (#[trigger] first_match(s.windows(), s.projects()[j].1) matches Some(
                w,
            ) ==> s.windows().contains(w) && occurs_in(s.projects()[j].1.match_pattern@, w.title@)),
{
    let entries = match_entries(s.projects(), s.windows());
    lemma_sort_by_key_sorted(entries);
    assert forall|e: MatchEntry| #[trigger]
        s.rows().contains(e) <==> exists|j: int|
            0 <= j < s.projects().len() && #[trigger] first_match(
                s.windows(),
                s.projects()[j].1,
            ) is Some && e == (
                s.projects()[j].1.key,
                first_match(s.windows(), s.projects()[j].1)->0.title,
                first_match(s.windows(), s.projects()[j].1)->0.hwnd,
            ) by {
        lemma_sorted_contains(entries, e);
        lemma_match_entries_members(s.projects(), s.windows(), e);
    }
    assert forall|j: int| 0 <= j < s.projects().len() implies (#[trigger] first_match(
        s.windows(),
        s.projects()[j].1,
    ) matches Some(w) ==> s.windows().contains(w) && occurs_in(
        s.projects()[j].1.match_pattern@,
        w.title@,
    )) by {
        lemma_first_match(s.windows(), s.projects()[j].1);
    }
}

/// Pressing a key switches to a window shown in the overlay under that key:
/// when `find_hwnd_by_key` answers a handle, some overlay row has a key equal
/// to the pressed key up to ASCII case and that handle; when it answers
/// nothing, no overlay row has such a key.
pub proof fn lemma_key_switches_to_shown_row(s: &Switcher, key: char)
    ensures
        window_for_key(s.projects(), s.windows(), key) matches Some(h) ==> exists|i: int|
            0 <= i < s.rows().len() && eq_ignore_ascii_case(#[trigger] s.rows()[i].0@, seq![key])
                && s.rows()[i].2 == h,
        window_for_key(s.projects(), s.windows(), key) is None ==> forall|i: int|
            0 <= i < s.rows().len() ==> !eq_ignore_ascii_case(#[trigger] s.rows()[i].0@, seq![key]),
{
    let ps = s.projects();
    let ws = s.windows();
    let entries = match_entries(ps, ws);
    lemma_window_for_key_witness(ps, ws, key);
    if let Some(h) = window_for_key(ps, ws, key) {
        let j = choose|j: int|
            0 <= j < ps.len() && eq_ignore_ascii_case(ps[j].1.key@, seq![key])
                && #[trigger] first_match(ws, ps[j].1) is Some && first_match(ws, ps[j].1)->0.hwnd
                == h;
        let w = first_match(ws, ps[j].1)->0;
        let e: MatchEntry = (ps[j].1.key, w.title, w.hwnd);
        lemma_match_entries_members(ps, ws, e);
        lemma_sorted_contains(entries, e);
        let i = choose|i: int| 0 <= i < s.rows().len() && s.rows()[i] == e;
        assert(eq_ignore_ascii_case(s.rows()[i].0@, seq![key]));
    } else {
        assert forall|i: int| 0 <= i < s.rows().len() implies !eq_ignore_ascii_case(
            #[trigger] s.rows()[i].0@,
            seq![key],
        ) by {
            let e = s.rows()[i];
            lemma_sorted_contains(entries, e);
            lemma_match_entries_members(ps, ws, e);
            let j = choose|j: int|
                0 <= j < ps.len() && #[trigger] first_match(ws, ps[j].1) is Some && e == (
                    ps[j].1.key,
                    first_match(ws, ps[j].1)->0.title,
                    first_match(ws, ps[j].1)->0.hwnd,
                );
            assert(first_match(ws, ps[j].1) is Some);
        }
    }
}

} // verus!
