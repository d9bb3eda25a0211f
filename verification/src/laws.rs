use vstd::prelude::*;

use crate::text::{ascii_lower, ascii_lower_char, ascii_upper, ascii_upper_char, lemma_split_on_map, split_on};
use crate::shortcut::{
    ascii_hotkey_words, code_of, hotkey_words, no_modifiers, scan_words, shortcut_of_words, startup_shortcut_of,
    with_modifier, Code, Modifiers, Shortcut,
};
use crate::store::{
    first_with_id, has_id, is_first_with_id, is_valid_order, lemma_first_unique, lemma_found_ids, lemma_first_with_id, merge_all,
    reorder_list, upsert, without_id, Macro,
};

verus! {

/// No two macros of `ms` share an identifier.
pub open spec fn ids_unique(ms: Seq<Macro>) -> bool {
    forall|i: int, j: int| 0 <= i < j < ms.len() ==> #[trigger] ms[i].id@ != #[trigger] ms[j].id@
}

/// The identifiers of `ms`, in order.
pub open spec fn ids_of(ms: Seq<Macro>) -> Seq<Seq<char>> {
    ms.map_values(|m: Macro| m.id@)
}

/// `t` has the identifiers of `s` at the indices of `s`, and perhaps more
/// macros after them.
pub open spec fn extends_ids(s: Seq<Macro>, t: Seq<Macro>) -> bool {
    &&& s.len() <= t.len()
    &&& forall|i: int| 0 <= i < s.len() ==> #[trigger] t[i].id@ == s[i].id@
}

// ---------------------------------------------------------------------------
// Deleting

/// Deleting an identifier that no macro has leaves the list as it is.
pub proof fn law_delete_absent_is_noop(ms: Seq<Macro>, id: Seq<char>)
    requires
        !has_id(ms, id),
    ensures
        without_id(ms, id) == ms,
    decreases ms.len(),
{
    if ms.len() > 0 {
        assert forall|i: int| 0 <= i < ms.drop_last().len() implies #[trigger] ms.drop_last()[i].id@ != id by {
            assert(ms.drop_last()[i] == ms[i]);
        }
        law_delete_absent_is_noop(ms.drop_last(), id);
        assert(ms.last().id@ != id);
        assert(ms.drop_last().push(ms.last()) =~= ms);
    }
}

/// After deleting an identifier, no macro has it, and every macro with
/// another identifier is still there.
pub proof fn law_delete_removes_exactly(ms: Seq<Macro>, id: Seq<char>)
    ensures
        !has_id(without_id(ms, id), id),
        forall|i: int| 0 <= i < ms.len() && ms[i].id@ != id ==> without_id(ms, id).contains(#[trigger] ms[i]),
        forall|k: int| 0 <= k < without_id(ms, id).len() ==> ms.contains(#[trigger] without_id(ms, id)[k]),
    decreases ms.len(),
{
    if ms.len() > 0 {
        let pre = ms.drop_last();
        law_delete_removes_exactly(pre, id);
        let r = without_id(pre, id);
        assert forall|i: int| 0 <= i < ms.len() && ms[i].id@ != id implies without_id(ms, id).contains(
            #[trigger] ms[i],
        ) by {
            if i < pre.len() {
                assert(pre[i] == ms[i]);
                let k = choose|k: int| 0 <= k < r.len() && r[k] == pre[i];
                if ms.last().id@ != id {
                    assert(r.push(ms.last())[k] == r[k]);
                }
            } else {
                assert(r.push(ms.last())[r.len() as int] == ms.last());
            }
        }
        assert forall|k: int| 0 <= k < without_id(ms, id).len() implies ms.contains(
            #[trigger] without_id(ms, id)[k],
        ) by {
            if ms.last().id@ != id && k == r.len() {
                assert(ms[ms.len() - 1] == ms.last());
            } else {
                if ms.last().id@ != id {
                    assert(r.push(ms.last())[k] == r[k]);
                }
                let j = choose|j: int| 0 <= j < pre.len() && pre[j] == r[k];
                assert(ms[j] == pre[j]);
            }
        }
        if ms.last().id@ != id {
            assert forall|k: int| 0 <= k < r.push(ms.last()).len() implies #[trigger] r.push(
                ms.last(),
            )[k].id@ != id by {
                if k < r.len() {
                    assert(r.push(ms.last())[k] == r[k]);
                }
            }
        }
    }
}

/// Adding a macro and then deleting its identifier gives back the list
/// from before, when no macro there had that identifier.
pub proof fn law_delete_undoes_add(ms: Seq<Macro>, m: Macro)
    requires
        !has_id(ms, m.id@),
    ensures
        without_id(ms.push(m), m.id@) == ms,
{
    assert(ms.push(m).drop_last() =~= ms);
    law_delete_absent_is_noop(ms, m.id@);
}

// ---------------------------------------------------------------------------
// Updating

/// An update keeps the length and every identifier, and afterwards the
/// updated macro is the one found first for its identifier.
pub proof fn law_update_keeps_ids(ms: Seq<Macro>, id: Seq<char>, title: String, content: String)
    requires
        has_id(ms, id),
    ensures
        ({
            let i = first_with_id(ms, id);
            let r = ms.update(i, Macro { id: ms[i].id, title, content });
            &&& r.len() == ms.len()
            &&& forall|j: int| 0 <= j < ms.len() ==> #[trigger] r[j].id@ == ms[j].id@
            &&& first_with_id(r, id) == i
            &&& r[i].title == title
            &&& r[i].content == content
        }),
{
    lemma_first_with_id(ms, id);
    let i = first_with_id(ms, id);
    let r = ms.update(i, Macro { id: ms[i].id, title, content });
    assert forall|j: int| 0 <= j < i implies #[trigger] r[j].id@ != id by {
        assert(r[j] == ms[j]);
    }
    assert(is_first_with_id(r, id, i));
    lemma_first_unique(r, id, i);
}

// ---------------------------------------------------------------------------
// Reordering

/// Every macro of a reordered list is a macro of the original list.
pub proof fn law_reorder_takes_from_list(ms: Seq<Macro>, ids: Seq<Seq<char>>)
    ensures
        forall|k: int| 0 <= k < reorder_list(ms, ids).len() ==> ms.contains(#[trigger] reorder_list(ms, ids)[k]),
        reorder_list(ms, ids).len() <= ids.len(),
    decreases ids.len(),
{
    if ids.len() > 0 {
        law_reorder_takes_from_list(ms, ids.drop_last());
        let rest = reorder_list(ms, ids.drop_last());
        if has_id(ms, ids.last()) {
            lemma_first_with_id(ms, ids.last());
            let f = first_with_id(ms, ids.last());
            assert forall|k: int| 0 <= k < rest.push(ms[f]).len() implies ms.contains(
                #[trigger] rest.push(ms[f])[k],
            ) by {
                if k < rest.len() {
                    assert(rest.push(ms[f])[k] == rest[k]);
                }
            }
        }
    }
}

/// The list's own identifiers, in their order, are a valid order when they
/// are unique, and reordering by them changes nothing.
pub proof fn law_reorder_by_own_ids_is_identity(ms: Seq<Macro>)
    requires
        ids_unique(ms),
    ensures
        is_valid_order(ms, ids_of(ms)),
        reorder_list(ms, ids_of(ms)) == ms,
{
    let ids = ids_of(ms);
    assert forall|a: int, b: int| 0 <= a < ids.len() && 0 <= b < ids.len() && a != b implies ids[a] != ids[b] by {
        if a < b {
            assert(ms[a].id@ != ms[b].id@);
        } else {
            assert(ms[b].id@ != ms[a].id@);
        }
    }
    assert forall|k: int| 0 <= k < ids.len() implies has_id(ms, #[trigger] ids[k]) by {
        assert(ms[k].id@ == ids[k]);
    }
    lemma_found_ids(ms, ids);
    lemma_reorder_own_prefix(ms, ms.len() as int);
    assert(ids_of(ms).take(ms.len() as int) =~= ids_of(ms));
    assert(ms.take(ms.len() as int) =~= ms);
}

proof fn lemma_reorder_own_prefix(ms: Seq<Macro>, n: int)
    requires
        ids_unique(ms),
        0 <= n <= ms.len(),
    ensures
        reorder_list(ms, ids_of(ms).take(n)) == ms.take(n),
    decreases n,
{
    if n == 0 {
        assert(ids_of(ms).take(0) =~= Seq::<Seq<char>>::empty());
        assert(ms.take(0) =~= Seq::<Macro>::empty());
    } else {
        lemma_reorder_own_prefix(ms, n - 1);
        let ids = ids_of(ms).take(n);
        assert(ids.drop_last() =~= ids_of(ms).take(n - 1));
        assert(ids.last() == ms[n - 1].id@);
        assert forall|j: int| 0 <= j < n - 1 implies #[trigger] ms[j].id@ != ms[n - 1].id@ by {}
        assert(is_first_with_id(ms, ms[n - 1].id@, n - 1));
        lemma_first_unique(ms, ms[n - 1].id@, n - 1);
        assert(ms.take(n - 1).push(ms[n - 1]) =~= ms.take(n));
    }
}

// ---------------------------------------------------------------------------
// Importing

proof fn lemma_upsert_shape(s: Seq<Macro>, m: Macro)
    ensures
        extends_ids(s, upsert(s, m)),
        has_id(s, m.id@) ==> upsert(s, m).len() == s.len(),
        !has_id(s, m.id@) ==> upsert(s, m) == s.push(m),
        has_id(s, m.id@) ==> is_first_with_id(s, m.id@, first_with_id(s, m.id@)),
        has_id(s, m.id@) ==> upsert(s, m) == s.update(first_with_id(s, m.id@), m),
        is_first_with_id(
            upsert(s, m),
            m.id@,
            if has_id(s, m.id@) {
                first_with_id(s, m.id@)
            } else {
                s.len() as int
            },
        ),
        upsert(s, m)[if has_id(s, m.id@) {
            first_with_id(s, m.id@)
        } else {
            s.len() as int
        }] == m,
{
    let t = upsert(s, m);
    if has_id(s, m.id@) {
        lemma_first_with_id(s, m.id@);
        let f = first_with_id(s, m.id@);
        assert forall|i: int| 0 <= i < s.len() implies #[trigger] t[i].id@ == s[i].id@ by {}
        assert forall|j: int| 0 <= j < f implies #[trigger] t[j].id@ != m.id@ by {
            assert(t[j] == s[j]);
        }
    } else {
        assert forall|i: int| 0 <= i < s.len() implies #[trigger] t[i].id@ == s[i].id@ by {
            assert(t[i] == s[i]);
        }
        assert forall|j: int| 0 <= j < s.len() implies #[trigger] t[j].id@ != m.id@ by {
            assert(t[j] == s[j]);
        }
    }
}

proof fn lemma_first_in_extension(s: Seq<Macro>, t: Seq<Macro>, id: Seq<char>)
    requires
        extends_ids(s, t),
        has_id(s, id),
    ensures
        has_id(t, id),
        first_with_id(t, id) == first_with_id(s, id),
{
    lemma_first_with_id(s, id);
    let f = first_with_id(s, id);
    assert forall|j: int| 0 <= j < f implies #[trigger] t[j].id@ != id by {
        assert(s[j].id@ != id);
    }
    assert(t[f].id@ == id);
    assert(is_first_with_id(t, id, f));
    lemma_first_unique(t, id, f);
}

proof fn lemma_first_beyond_extension(s: Seq<Macro>, t: Seq<Macro>, id: Seq<char>)
    requires
        extends_ids(s, t),
        !has_id(s, id),
        has_id(t, id),
    ensures
        first_with_id(t, id) >= s.len(),
{
    lemma_first_with_id(t, id);
    let f = first_with_id(t, id);
    if f < s.len() {
        assert(s[f].id@ == id);
    }
}

/// Importing keeps every identifier where it was and adds each imported
/// identifier; the list grows only by imported identifiers it lacked.
pub proof fn law_import_keeps_and_adds(ms: Seq<Macro>, x: Seq<Macro>)
    ensures
        extends_ids(ms, merge_all(ms, x)),
        forall|k: int| 0 <= k < x.len() ==> has_id(merge_all(ms, x), #[trigger] x[k].id@),
        (forall|k: int| 0 <= k < x.len() ==> has_id(ms, #[trigger] x[k].id@)) ==> merge_all(ms, x).len()
            == ms.len(),
    decreases x.len(),
{
    if x.len() > 0 {
        let pre = x.drop_last();
        law_import_keeps_and_adds(ms, pre);
        let s = merge_all(ms, pre);
        let m = x.last();
        lemma_upsert_shape(s, m);
        let t = upsert(s, m);
        assert forall|i: int| 0 <= i < ms.len() implies #[trigger] t[i].id@ == ms[i].id@ by {
            assert(s[i].id@ == ms[i].id@);
        }
        assert forall|k: int| 0 <= k < x.len() implies has_id(t, #[trigger] x[k].id@) by {
            if k < pre.len() {
                assert(pre[k] == x[k]);
                lemma_first_in_extension(s, t, x[k].id@);
            } else {
                let p = if has_id(s, m.id@) {
                    first_with_id(s, m.id@)
                } else {
                    s.len() as int
                };
                assert(t[p].id@ == m.id@);
            }
        }
        if forall|k: int| 0 <= k < x.len() ==> has_id(ms, #[trigger] x[k].id@) {
            assert forall|k: int| 0 <= k < pre.len() implies has_id(ms, #[trigger] pre[k].id@) by {
                assert(pre[k] == x[k]);
            }
            assert(has_id(ms, x[x.len() - 1].id@));
            lemma_first_in_extension(ms, s, m.id@);
        }
    }
}

/// After an import, the macro found first for an imported identifier is the
/// last imported macro with that identifier.
pub proof fn law_import_last_wins(ms: Seq<Macro>, x: Seq<Macro>, k: int)
    requires
        0 <= k < x.len(),
        forall|j: int| k < j < x.len() ==> #[trigger] x[j].id@ != x[k].id@,
    ensures
        has_id(merge_all(ms, x), x[k].id@),
        merge_all(ms, x)[first_with_id(merge_all(ms, x), x[k].id@)] == x[k],
    decreases x.len(),
{
    let pre = x.drop_last();
    let s = merge_all(ms, pre);
    let m = x.last();
    let t = upsert(s, m);
    lemma_upsert_shape(s, m);
    let p = if has_id(s, m.id@) {
        first_with_id(s, m.id@)
    } else {
        s.len() as int
    };
    if k == x.len() - 1 {
        lemma_first_unique(t, m.id@, p);
    } else {
        assert forall|j: int| k < j < pre.len() implies #[trigger] pre[j].id@ != pre[k].id@ by {
            assert(pre[j] == x[j]);
            assert(x[j].id@ != x[k].id@);
        }
        assert(pre[k] == x[k]);
        law_import_last_wins(ms, pre, k);
        let id = x[k].id@;
        assert(x[x.len() - 1].id@ != id);
        lemma_first_in_extension(s, t, id);
        let f = first_with_id(s, id);
        lemma_first_with_id(s, id);
        if has_id(s, m.id@) {
            assert(f != p);
        } else {
            assert(f < s.len());
        }
    }
}

/// Importing changes a macro of the list only where it is the first one with
/// an imported identifier.
pub proof fn law_import_frame(ms: Seq<Macro>, x: Seq<Macro>, i: int)
    requires
        0 <= i < ms.len(),
        forall|k: int| 0 <= k < x.len() ==> #[trigger] x[k].id@ != ms[i].id@ || i != first_with_id(
            ms,
            x[k].id@,
        ),
    ensures
        merge_all(ms, x)[i] == ms[i],
    decreases x.len(),
{
    if x.len() > 0 {
        let pre = x.drop_last();
        assert forall|k: int| 0 <= k < pre.len() implies #[trigger] pre[k].id@ != ms[i].id@ || i
            != first_with_id(ms, pre[k].id@) by {
            assert(pre[k] == x[k]);
        }
        law_import_frame(ms, pre, i);
        law_import_keeps_and_adds(ms, pre);
        let s = merge_all(ms, pre);
        let m = x.last();
        lemma_upsert_shape(s, m);
        assert(x[x.len() - 1] == m);
        if has_id(s, m.id@) {
            let f = first_with_id(s, m.id@);
            if has_id(ms, m.id@) {
                lemma_first_in_extension(ms, s, m.id@);
                if f == i {
                    lemma_first_with_id(ms, m.id@);
                    assert(ms[i].id@ == m.id@);
                }
            } else {
                lemma_first_beyond_extension(ms, s, m.id@);
            }
        }
    }
}

/// The last index of `x` at or after `k` whose identifier is that of `x[k]`.
proof fn last_occurrence(x: Seq<Macro>, k: int) -> (k2: int)
    requires
        0 <= k < x.len(),
    ensures
        k <= k2 < x.len(),
        x[k2].id@ == x[k].id@,
        forall|j: int| k2 < j < x.len() ==> #[trigger] x[j].id@ != x[k].id@,
    decreases x.len() - k,
{
    if exists|j: int| k < j < x.len() && #[trigger] x[j].id@ == x[k].id@ {
        let j = choose|j: int| k < j < x.len() && #[trigger] x[j].id@ == x[k].id@;
        last_occurrence(x, j)
    } else {
        k
    }
}

/// Importing the same macros a second time changes nothing.
pub proof fn law_import_idempotent(ms: Seq<Macro>, x: Seq<Macro>)
    ensures
        merge_all(merge_all(ms, x), x) == merge_all(ms, x),
{
    let r = merge_all(ms, x);
    let t = merge_all(r, x);
    law_import_keeps_and_adds(ms, x);
    law_import_keeps_and_adds(r, x);
    assert forall|i: int| 0 <= i < r.len() implies #[trigger] t[i] == r[i] by {
        if exists|k: int| 0 <= k < x.len() && #[trigger] x[k].id@ == r[i].id@ && i == first_with_id(
            r,
            x[k].id@,
        ) {
            let k = choose|k: int| 0 <= k < x.len() && #[trigger] x[k].id@ == r[i].id@ && i
                == first_with_id(r, x[k].id@);
            let k2 = last_occurrence(x, k);
            law_import_last_wins(ms, x, k2);
            law_import_last_wins(r, x, k2);
            lemma_first_in_extension(r, t, x[k2].id@);
        } else {
            law_import_frame(r, x, i);
        }
    }
    assert(t =~= r);
}

/// Importing a list into itself (a backup restored right after it was made)
/// changes nothing when its identifiers are unique.
pub proof fn law_import_own_export_is_identity(ms: Seq<Macro>)
    requires
        ids_unique(ms),
    ensures
        merge_all(ms, ms) == ms,
{
    lemma_import_own_prefix(ms, ms.len() as int);
    assert(ms.take(ms.len() as int) =~= ms);
}

proof fn lemma_import_own_prefix(ms: Seq<Macro>, n: int)
    requires
        ids_unique(ms),
        0 <= n <= ms.len(),
    ensures
        merge_all(ms, ms.take(n)) == ms,
    decreases n,
{
    if n > 0 {
        lemma_import_own_prefix(ms, n - 1);
        assert(ms.take(n).drop_last() =~= ms.take(n - 1));
        assert(ms.take(n).last() == ms[n - 1]);
        assert forall|j: int| 0 <= j < n - 1 implies #[trigger] ms[j].id@ != ms[n - 1].id@ by {}
        assert(is_first_with_id(ms, ms[n - 1].id@, n - 1));
        lemma_first_unique(ms, ms[n - 1].id@, n - 1);
        assert(ms.update(n - 1, ms[n - 1]) =~= ms);
    }
}

// ---------------------------------------------------------------------------
// Hotkey words

/// `w` names a modifier.
pub open spec fn is_modifier_word(w: Seq<char>) -> bool {
    with_modifier(no_modifiers(), w) is Some
}

/// `w` names a key and no modifier.
pub open spec fn is_key_word(w: Seq<char>) -> bool {
    !is_modifier_word(w) && code_of(w) is Some
}

proof fn lemma_scan_two(a: Seq<char>, b: Seq<char>)
    ensures
        scan_words(seq![a, b]) == match scan_words(seq![a]) {
            Err(e) => Err(e),
            Ok((m, k)) => match with_modifier(m, b) {
                Some(m2) => Ok((m2, k)),
                None => match code_of(b) {
                    Some(c) => Ok((m, Some(c))),
                    None => Err(crate::shortcut::unknown_key_message(b)),
                },
            },
        },
        scan_words(seq![a]) == match with_modifier(no_modifiers(), a) {
            Some(m2) => Ok((m2, None)),
            None => match code_of(a) {
                Some(c) => Ok((no_modifiers(), Some(c))),
                None => Err(crate::shortcut::unknown_key_message(a)),
            },
        },
{
    assert(seq![a, b].drop_last() =~= seq![a]);
    assert(seq![a].drop_last() =~= Seq::<Seq<char>>::empty());
    reveal_with_fuel(scan_words, 3);
}

/// A modifier and a key may be written in either order.
pub proof fn law_modifier_and_key_commute(m: Seq<char>, k: Seq<char>)
    requires
        is_modifier_word(m),
        is_key_word(k),
    ensures
        shortcut_of_words(seq![m, k]) == shortcut_of_words(seq![k, m]),
        shortcut_of_words(seq![m, k]) == Ok::<Shortcut, Seq<char>>(
            Shortcut { mods: with_modifier(no_modifiers(), m)->0, key: code_of(k)->0 },
        ),
{
    lemma_scan_two(m, k);
    lemma_scan_two(k, m);
}

/// Of two keys, the later one is bound.
pub proof fn law_later_key_wins(k1: Seq<char>, k2: Seq<char>)
    requires
        is_key_word(k1),
        is_key_word(k2),
    ensures
        shortcut_of_words(seq![k1, k2]) == Ok::<Shortcut, Seq<char>>(
            Shortcut { mods: no_modifiers(), key: code_of(k2)->0 },
        ),
{
    lemma_scan_two(k1, k2);
}

/// Naming a modifier twice is the same as naming it once.
pub proof fn law_repeated_modifier(m: Seq<char>, k: Seq<char>)
    requires
        is_modifier_word(m),
        is_key_word(k),
    ensures
        shortcut_of_words(seq![m, m, k]) == shortcut_of_words(seq![m, k]),
{
    lemma_scan_two(m, k);
    lemma_scan_two(m, m);
    assert(seq![m, m, k].drop_last() =~= seq![m, m]);
    reveal_with_fuel(scan_words, 2);
}

/// Letter case does not matter in an ASCII hotkey string: the text, its
/// lower-case form and its upper-case form are all ASCII and give the same
/// words, so by the contract of `parse_shortcut_str` they parse to the same
/// hotkey or the same error.
pub proof fn law_hotkey_case_insensitive(s: Seq<char>)
    requires
        vstd::utf8::is_ascii_chars(s),
    ensures
        vstd::utf8::is_ascii_chars(ascii_lower(s)),
        vstd::utf8::is_ascii_chars(ascii_upper(s)),
        ascii_hotkey_words(ascii_lower(s)) == ascii_hotkey_words(s),
        ascii_hotkey_words(ascii_upper(s)) == ascii_hotkey_words(s),
{
    let lo = |c: char| ascii_lower_char(c);
    let up = |c: char| ascii_upper_char(c);
    assert forall|c: char| (#[trigger] lo(c) == '+') == (c == '+') by {}
    assert forall|c: char| (#[trigger] up(c) == '+') == (c == '+') by {}
    assert(ascii_lower(s) =~= s.map_values(lo));
    assert(ascii_upper(s) =~= s.map_values(up));
    assert forall|i: int| 0 <= i < ascii_lower(s).len() implies '\0' <= #[trigger] ascii_lower(s)[i] <= '\u{7f}' by {
        assert(s[i] <= '\u{7f}');
    }
    assert forall|i: int| 0 <= i < ascii_upper(s).len() implies '\0' <= #[trigger] ascii_upper(s)[i] <= '\u{7f}' by {
        assert(s[i] <= '\u{7f}');
    }
    lemma_split_on_map(s, '+', lo);
    lemma_split_on_map(s, '+', up);
    let pieces = split_on(s, '+');
    assert forall|p: Seq<char>| #[trigger] ascii_lower(p.map_values(lo)) == ascii_lower(p) by {
        assert(ascii_lower(p.map_values(lo)) =~= ascii_lower(p));
    }
    assert forall|p: Seq<char>| #[trigger] ascii_lower(p.map_values(up)) == ascii_lower(p) by {
        assert(ascii_lower(p.map_values(up)) =~= ascii_lower(p));
    }
    assert(ascii_hotkey_words(ascii_lower(s)) =~= ascii_hotkey_words(s)) by {
        assert forall|k: int| 0 <= k < pieces.len() implies #[trigger] ascii_hotkey_words(ascii_lower(s))[k]
            == ascii_hotkey_words(s)[k] by {
            assert(ascii_lower(pieces[k].map_values(lo)) == ascii_lower(pieces[k]));
        }
    }
    assert(ascii_hotkey_words(ascii_upper(s)) =~= ascii_hotkey_words(s)) by {
        assert forall|k: int| 0 <= k < pieces.len() implies #[trigger] ascii_hotkey_words(ascii_upper(s))[k]
            == ascii_hotkey_words(s)[k] by {
            assert(ascii_lower(pieces[k].map_values(up)) == ascii_lower(pieces[k]));
        }
    }
}

// ---------------------------------------------------------------------------
// Order of the remaining and of the new macros

/// Deleting keeps the other macros in their order: the result is the
/// subsequence of the macros whose identifier is not `id`.
pub proof fn law_delete_keeps_order(ms: Seq<Macro>, id: Seq<char>)
    ensures
        without_id(ms, id) == ms.filter(|m: Macro| m.id@ != id),
    decreases ms.len(),
{
    reveal(Seq::filter);
    if ms.len() > 0 {
        law_delete_keeps_order(ms.drop_last(), id);
    }
}

/// Deleting distributes over concatenation.
pub proof fn law_delete_concat(a: Seq<Macro>, b: Seq<Macro>, id: Seq<char>)
    ensures
        without_id(a + b, id) == without_id(a, id) + without_id(b, id),
{
    law_delete_keeps_order(a + b, id);
    law_delete_keeps_order(a, id);
    law_delete_keeps_order(b, id);
    Seq::filter_distributes_over_add(a, b, |m: Macro| m.id@ != id);
}

/// Importing macros whose identifiers are new and distinct appends them,
/// in the order given, after the existing macros.
pub proof fn law_import_new_appends_in_order(ms: Seq<Macro>, x: Seq<Macro>)
    requires
        forall|k: int| 0 <= k < x.len() ==> !has_id(ms, #[trigger] x[k].id@),
        forall|a: int, b: int| 0 <= a < b < x.len() ==> #[trigger] x[a].id@ != #[trigger] x[b].id@,
    ensures
        merge_all(ms, x) == ms + x,
    decreases x.len(),
{
    if x.len() == 0 {
        assert(ms + x =~= ms);
    } else {
        let pre = x.drop_last();
        let m = x.last();
        assert forall|k: int| 0 <= k < pre.len() implies !has_id(ms, #[trigger] pre[k].id@) by {
            assert(pre[k] == x[k]);
        }
        assert forall|a: int, b: int| 0 <= a < b < pre.len() implies #[trigger] pre[a].id@
            != #[trigger] pre[b].id@ by {
            assert(pre[a] == x[a]);
            assert(pre[b] == x[b]);
        }
        law_import_new_appends_in_order(ms, pre);
        let s = ms + pre;
        assert(x[x.len() - 1] == m);
        assert(!has_id(s, m.id@)) by {
            if has_id(s, m.id@) {
                let j = choose|j: int| 0 <= j < s.len() && #[trigger] s[j].id@ == m.id@;
                if j < ms.len() {
                    assert(s[j] == ms[j]);
                    assert(has_id(ms, x[x.len() - 1].id@));
                } else {
                    assert(s[j] == pre[j - ms.len()]);
                    assert(pre[j - ms.len()] == x[j - ms.len()]);
                    assert(x[j - ms.len()].id@ != x[x.len() - 1].id@);
                }
            }
        }
        assert(s.push(m) =~= ms + x);
    }
}

// ---------------------------------------------------------------------------
// Start-up hotkey

/// At start-up the saved hotkey is registered whenever it parses, and
/// Alt+Space only when it does not.
pub proof fn law_startup_uses_saved_hotkey(s: Seq<char>)
    ensures
        shortcut_of_words(hotkey_words(s)) matches Ok(sc) ==> startup_shortcut_of(s) == sc,
        shortcut_of_words(hotkey_words(s)) is Err ==> startup_shortcut_of(s) == (Shortcut {
            mods: Modifiers { control: false, alt: true, shift: false, meta: false },
            key: Code::Space,
        }),
{
}

// ---------------------------------------------------------------------------
// Modifiers add up

/// `w` is one of the modifier names.
pub open spec fn is_modifier_name(w: Seq<char>) -> bool {
    w == "ctrl"@ || w == "control"@ || w == "alt"@ || w == "option"@ || w == "shift"@ || w == "super"@
        || w == "meta"@ || w == "cmd"@ || w == "command"@
}

/// The modifiers that a list of words names: a modifier is held when any
/// of its names occurs.
pub open spec fn named_modifiers(ws: Seq<Seq<char>>) -> Modifiers {
    Modifiers {
        control: ws.contains("ctrl"@) || ws.contains("control"@),
        alt: ws.contains("alt"@) || ws.contains("option"@),
        shift: ws.contains("shift"@),
        meta: ws.contains("super"@) || ws.contains("meta"@) || ws.contains("cmd"@) || ws.contains("command"@),
    }
}

/// The modifier names, character by character.
proof fn lemma_modifier_name_texts()
    ensures
        "ctrl"@ == seq!['c', 't', 'r', 'l'],
        "control"@ == seq!['c', 'o', 'n', 't', 'r', 'o', 'l'],
        "alt"@ == seq!['a', 'l', 't'],
        "option"@ == seq!['o', 'p', 't', 'i', 'o', 'n'],
        "shift"@ == seq!['s', 'h', 'i', 'f', 't'],
        "super"@ == seq!['s', 'u', 'p', 'e', 'r'],
        "meta"@ == seq!['m', 'e', 't', 'a'],
        "cmd"@ == seq!['c', 'm', 'd'],
        "command"@ == seq!['c', 'o', 'm', 'm', 'a', 'n', 'd'],
{
    reveal_strlit("ctrl");
    assert("ctrl"@ =~= seq!['c', 't', 'r', 'l']);
    reveal_strlit("control");
    assert("control"@ =~= seq!['c', 'o', 'n', 't', 'r', 'o', 'l']);
    reveal_strlit("alt");
    assert("alt"@ =~= seq!['a', 'l', 't']);
    reveal_strlit("option");
    assert("option"@ =~= seq!['o', 'p', 't', 'i', 'o', 'n']);
    reveal_strlit("shift");
    assert("shift"@ =~= seq!['s', 'h', 'i', 'f', 't']);
    reveal_strlit("super");
    assert("super"@ =~= seq!['s', 'u', 'p', 'e', 'r']);
    reveal_strlit("meta");
    assert("meta"@ =~= seq!['m', 'e', 't', 'a']);
    reveal_strlit("cmd");
    assert("cmd"@ =~= seq!['c', 'm', 'd']);
    reveal_strlit("command");
    assert("command"@ =~= seq!['c', 'o', 'm', 'm', 'a', 'n', 'd']);
}

/// Any number of modifier names, in any order and with repeats, followed by
/// a key name, give the key with exactly the modifiers named.
pub proof fn law_modifiers_are_union(ws: Seq<Seq<char>>, k: Seq<char>)
    requires
        forall|i: int| 0 <= i < ws.len() ==> is_modifier_name(#[trigger] ws[i]),
        !is_modifier_name(k),
        code_of(k) is Some,
    ensures
        shortcut_of_words(ws.push(k)) == Ok::<Shortcut, Seq<char>>(
            Shortcut { mods: named_modifiers(ws), key: code_of(k)->0 },
        ),
{
    lemma_scan_modifier_names(ws);
    assert(ws.push(k).drop_last() =~= ws);
    lemma_modifier_name_texts();
}

proof fn lemma_scan_modifier_names(ws: Seq<Seq<char>>)
    requires
        forall|i: int| 0 <= i < ws.len() ==> is_modifier_name(#[trigger] ws[i]),
    ensures
        scan_words(ws) == Ok::<(Modifiers, Option<Code>), Seq<char>>((named_modifiers(ws), None)),
    decreases ws.len(),
{
    if ws.len() == 0 {
        assert(named_modifiers(ws) == no_modifiers());
    } else {
        let pre = ws.drop_last();
        let w = ws.last();
        assert forall|i: int| 0 <= i < pre.len() implies is_modifier_name(#[trigger] pre[i]) by {
            assert(pre[i] == ws[i]);
        }
        lemma_scan_modifier_names(pre);
        assert(is_modifier_name(ws[ws.len() - 1]));
        assert(ws =~= pre.push(w));
        assert forall|n: Seq<char>| #[trigger] ws.contains(n) == (pre.contains(n) || n == w) by {
            if ws.contains(n) {
                let j = choose|j: int| 0 <= j < ws.len() && ws[j] == n;
                if j < pre.len() {
                    assert(pre[j] == ws[j]);
                }
            }
            if pre.contains(n) {
                let j = choose|j: int| 0 <= j < pre.len() && pre[j] == n;
                assert(ws[j] == pre[j]);
            }
            if n == w {
                assert(ws[ws.len() - 1] == w);
            }
        }
        lemma_modifier_name_texts();
    }
}

// ---------------------------------------------------------------------------
// Key names

/// The name of each key, as written in a hotkey string.
pub open spec fn key_name(c: Code) -> Seq<char> {
    match c {
        Code::Space => "space"@,
        Code::Enter => "enter"@,
        Code::Tab => "tab"@,
        Code::Escape => "escape"@,
        Code::Backspace => "backspace"@,
        Code::Delete => "delete"@,
        Code::Home => "home"@,
        Code::End => "end"@,
        Code::PageUp => "pageup"@,
        Code::PageDown => "pagedown"@,
        Code::ArrowUp => "arrowup"@,
        Code::ArrowDown => "arrowdown"@,
        Code::ArrowLeft => "arrowleft"@,
        Code::ArrowRight => "arrowright"@,
        Code::F1 => "f1"@,
        Code::F2 => "f2"@,
        Code::F3 => "f3"@,
        Code::F4 => "f4"@,
        Code::F5 => "f5"@,
        Code::F6 => "f6"@,
        Code::F7 => "f7"@,
        Code::F8 => "f8"@,
        Code::F9 => "f9"@,
        Code::F10 => "f10"@,
        Code::F11 => "f11"@,
        Code::F12 => "f12"@,
        Code::KeyA => "a"@,
        Code::KeyB => "b"@,
        Code::KeyC => "c"@,
        Code::KeyD => "d"@,
        Code::KeyE => "e"@,
        Code::KeyF => "f"@,
        Code::KeyG => "g"@,
        Code::KeyH => "h"@,
        Code::KeyI => "i"@,
        Code::KeyJ => "j"@,
        Code::KeyK => "k"@,
        Code::KeyL => "l"@,
        Code::KeyM => "m"@,
        Code::KeyN => "n"@,
        Code::KeyO => "o"@,
        Code::KeyP => "p"@,
        Code::KeyQ => "q"@,
        Code::KeyR => "r"@,
        Code::KeyS => "s"@,
        Code::KeyT => "t"@,
        Code::KeyU => "u"@,
        Code::KeyV => "v"@,
        Code::KeyW => "w"@,
        Code::KeyX => "x"@,
        Code::KeyY => "y"@,
        Code::KeyZ => "z"@,
        Code::Digit0 => "0"@,
        Code::Digit1 => "1"@,
        Code::Digit2 => "2"@,
        Code::Digit3 => "3"@,
        Code::Digit4 => "4"@,
        Code::Digit5 => "5"@,
        Code::Digit6 => "6"@,
        Code::Digit7 => "7"@,
        Code::Digit8 => "8"@,
        Code::Digit9 => "9"@,
    }
}

/// The lengths and telling characters of the key names.
proof fn lemma_key_name_texts()
    ensures
        "space"@.len() == 5,
        "space"@[0] == 's',
        "enter"@.len() == 5,
        "enter"@[0] == 'e',
        "tab"@.len() == 3,
        "tab"@[0] == 't',
        "escape"@.len() == 6,
        "escape"@[0] == 'e',
        "backspace"@.len() == 9,
        "backspace"@[0] == 'b',
        "delete"@.len() == 6,
        "delete"@[0] == 'd',
        "home"@.len() == 4,
        "home"@[0] == 'h',
        "end"@.len() == 3,
        "end"@[0] == 'e',
        "pageup"@.len() == 6,
        "pageup"@[0] == 'p',
        "pagedown"@.len() == 8,
        "pagedown"@[0] == 'p',
        "arrowup"@.len() == 7,
        "arrowup"@[0] == 'a',
        "arrowdown"@.len() == 9,
        "arrowdown"@[0] == 'a',
        "arrowleft"@.len() == 9,
        "arrowleft"@[0] == 'a',
        "arrowright"@.len() == 10,
        "arrowright"@[0] == 'a',
        "f1"@.len() == 2,
        "f1"@[0] == 'f',
        "f2"@.len() == 2,
        "f2"@[0] == 'f',
        "f3"@.len() == 2,
        "f3"@[0] == 'f',
        "f4"@.len() == 2,
        "f4"@[0] == 'f',
        "f5"@.len() == 2,
        "f5"@[0] == 'f',
        "f6"@.len() == 2,
        "f6"@[0] == 'f',
        "f7"@.len() == 2,
        "f7"@[0] == 'f',
        "f8"@.len() == 2,
        "f8"@[0] == 'f',
        "f9"@.len() == 2,
        "f9"@[0] == 'f',
        "f10"@.len() == 3,
        "f10"@[0] == 'f',
        "f11"@.len() == 3,
        "f11"@[0] == 'f',
        "f12"@.len() == 3,
        "f12"@[0] == 'f',
        "a"@.len() == 1,
        "a"@[0] == 'a',
        "b"@.len() == 1,
        "b"@[0] == 'b',
        "c"@.len() == 1,
        "c"@[0] == 'c',
        "d"@.len() == 1,
        "d"@[0] == 'd',
        "e"@.len() == 1,
        "e"@[0] == 'e',
        "f"@.len() == 1,
        "f"@[0] == 'f',
        "g"@.len() == 1,
        "g"@[0] == 'g',
        "h"@.len() == 1,
        "h"@[0] == 'h',
        "i"@.len() == 1,
        "i"@[0] == 'i',
        "j"@.len() == 1,
        "j"@[0] == 'j',
        "k"@.len() == 1,
        "k"@[0] == 'k',
        "l"@.len() == 1,
        "l"@[0] == 'l',
        "m"@.len() == 1,
        "m"@[0] == 'm',
        "n"@.len() == 1,
        "n"@[0] == 'n',
        "o"@.len() == 1,
        "o"@[0] == 'o',
        "p"@.len() == 1,
        "p"@[0] == 'p',
        "q"@.len() == 1,
        "q"@[0] == 'q',
        "r"@.len() == 1,
        "r"@[0] == 'r',
        "s"@.len() == 1,
        "s"@[0] == 's',
        "t"@.len() == 1,
        "t"@[0] == 't',
        "u"@.len() == 1,
        "u"@[0] == 'u',
        "v"@.len() == 1,
        "v"@[0] == 'v',
        "w"@.len() == 1,
        "w"@[0] == 'w',
        "x"@.len() == 1,
        "x"@[0] == 'x',
        "y"@.len() == 1,
        "y"@[0] == 'y',
        "z"@.len() == 1,
        "z"@[0] == 'z',
        "0"@.len() == 1,
        "0"@[0] == '0',
        "1"@.len() == 1,
        "1"@[0] == '1',
        "2"@.len() == 1,
        "2"@[0] == '2',
        "3"@.len() == 1,
        "3"@[0] == '3',
        "4"@.len() == 1,
        "4"@[0] == '4',
        "5"@.len() == 1,
        "5"@[0] == '5',
        "6"@.len() == 1,
        "6"@[0] == '6',
        "7"@.len() == 1,
        "7"@[0] == '7',
        "8"@.len() == 1,
        "8"@[0] == '8',
        "9"@.len() == 1,
        "9"@[0] == '9',
        "return"@.len() == 6,
        "return"@[0] == 'r',
        "esc"@.len() == 3,
        "esc"@[0] == 'e',
        "del"@.len() == 3,
        "del"@[0] == 'd',
        "arrowdown"@[5] == 'd',
        "arrowleft"@[5] == 'l',
        "end"@[1] == 'n',
        "esc"@[1] == 's',
        "f1"@[1] == '1',
        "f10"@[2] == '0',
        "f11"@[2] == '1',
        "f12"@[2] == '2',
        "f2"@[1] == '2',
        "f3"@[1] == '3',
        "f4"@[1] == '4',
        "f5"@[1] == '5',
        "f6"@[1] == '6',
        "f7"@[1] == '7',
        "f8"@[1] == '8',
        "f9"@[1] == '9',
{
    reveal_strlit("space");
    assert("space"@ =~= seq!['s', 'p', 'a', 'c', 'e']);
    reveal_strlit("enter");
    assert("enter"@ =~= seq!['e', 'n', 't', 'e', 'r']);
    reveal_strlit("tab");
    assert("tab"@ =~= seq!['t', 'a', 'b']);
    reveal_strlit("escape");
    assert("escape"@ =~= seq!['e', 's', 'c', 'a', 'p', 'e']);
    reveal_strlit("backspace");
    assert("backspace"@ =~= seq!['b', 'a', 'c', 'k', 's', 'p', 'a', 'c', 'e']);
    reveal_strlit("delete");
    assert("delete"@ =~= seq!['d', 'e', 'l', 'e', 't', 'e']);
    reveal_strlit("home");
    assert("home"@ =~= seq!['h', 'o', 'm', 'e']);
    reveal_strlit("end");
    assert("end"@ =~= seq!['e', 'n', 'd']);
    reveal_strlit("pageup");
    assert("pageup"@ =~= seq!['p', 'a', 'g', 'e', 'u', 'p']);
    reveal_strlit("pagedown");
    assert("pagedown"@ =~= seq!['p', 'a', 'g', 'e', 'd', 'o', 'w', 'n']);
    reveal_strlit("arrowup");
    assert("arrowup"@ =~= seq!['a', 'r', 'r', 'o', 'w', 'u', 'p']);
    reveal_strlit("arrowdown");
    assert("arrowdown"@ =~= seq!['a', 'r', 'r', 'o', 'w', 'd', 'o', 'w', 'n']);
    reveal_strlit("arrowleft");
    assert("arrowleft"@ =~= seq!['a', 'r', 'r', 'o', 'w', 'l', 'e', 'f', 't']);
    reveal_strlit("arrowright");
    assert("arrowright"@ =~= seq!['a', 'r', 'r', 'o', 'w', 'r', 'i', 'g', 'h', 't']);
    reveal_strlit("f1");
    assert("f1"@ =~= seq!['f', '1']);
    reveal_strlit("f2");
    assert("f2"@ =~= seq!['f', '2']);
    reveal_strlit("f3");
    assert("f3"@ =~= seq!['f', '3']);
    reveal_strlit("f4");
    assert("f4"@ =~= seq!['f', '4']);
    reveal_strlit("f5");
    assert("f5"@ =~= seq!['f', '5']);
    reveal_strlit("f6");
    assert("f6"@ =~= seq!['f', '6']);
    reveal_strlit("f7");
    assert("f7"@ =~= seq!['f', '7']);
    reveal_strlit("f8");
    assert("f8"@ =~= seq!['f', '8']);
    reveal_strlit("f9");
    assert("f9"@ =~= seq!['f', '9']);
    reveal_strlit("f10");
    assert("f10"@ =~= seq!['f', '1', '0']);
    reveal_strlit("f11");
    assert("f11"@ =~= seq!['f', '1', '1']);
    reveal_strlit("f12");
    assert("f12"@ =~= seq!['f', '1', '2']);
    reveal_strlit("a");
    assert("a"@ =~= seq!['a']);
    reveal_strlit("b");
    assert("b"@ =~= seq!['b']);
    reveal_strlit("c");
    assert("c"@ =~= seq!['c']);
    reveal_strlit("d");
    assert("d"@ =~= seq!['d']);
    reveal_strlit("e");
    assert("e"@ =~= seq!['e']);
    reveal_strlit("f");
    assert("f"@ =~= seq!['f']);
    reveal_strlit("g");
    assert("g"@ =~= seq!['g']);
    reveal_strlit("h");
    assert("h"@ =~= seq!['h']);
    reveal_strlit("i");
    assert("i"@ =~= seq!['i']);
    reveal_strlit("j");
    assert("j"@ =~= seq!['j']);
    reveal_strlit("k");
    assert("k"@ =~= seq!['k']);
    reveal_strlit("l");
    assert("l"@ =~= seq!['l']);
    reveal_strlit("m");
    assert("m"@ =~= seq!['m']);
    reveal_strlit("n");
    assert("n"@ =~= seq!['n']);
    reveal_strlit("o");
    assert("o"@ =~= seq!['o']);
    reveal_strlit("p");
    assert("p"@ =~= seq!['p']);
    reveal_strlit("q");
    assert("q"@ =~= seq!['q']);
    reveal_strlit("r");
    assert("r"@ =~= seq!['r']);
    reveal_strlit("s");
    assert("s"@ =~= seq!['s']);
    reveal_strlit("t");
    assert("t"@ =~= seq!['t']);
    reveal_strlit("u");
    assert("u"@ =~= seq!['u']);
    reveal_strlit("v");
    assert("v"@ =~= seq!['v']);
    reveal_strlit("w");
    assert("w"@ =~= seq!['w']);
    reveal_strlit("x");
    assert("x"@ =~= seq!['x']);
    reveal_strlit("y");
    assert("y"@ =~= seq!['y']);
    reveal_strlit("z");
    assert("z"@ =~= seq!['z']);
    reveal_strlit("0");
    assert("0"@ =~= seq!['0']);
    reveal_strlit("1");
    assert("1"@ =~= seq!['1']);
    reveal_strlit("2");
    assert("2"@ =~= seq!['2']);
    reveal_strlit("3");
    assert("3"@ =~= seq!['3']);
    reveal_strlit("4");
    assert("4"@ =~= seq!['4']);
    reveal_strlit("5");
    assert("5"@ =~= seq!['5']);
    reveal_strlit("6");
    assert("6"@ =~= seq!['6']);
    reveal_strlit("7");
    assert("7"@ =~= seq!['7']);
    reveal_strlit("8");
    assert("8"@ =~= seq!['8']);
    reveal_strlit("9");
    assert("9"@ =~= seq!['9']);
    reveal_strlit("return");
    assert("return"@ =~= seq!['r', 'e', 't', 'u', 'r', 'n']);
    reveal_strlit("esc");
    assert("esc"@ =~= seq!['e', 's', 'c']);
    reveal_strlit("del");
    assert("del"@ =~= seq!['d', 'e', 'l']);
}

/// Each key's own name names that key, and so do the aliases `return`,
/// `esc` and `del` for Enter, Escape and Delete.
pub proof fn law_each_key_named(c: Code)
    ensures
        code_of(key_name(c)) == Some(c),
        code_of("return"@) == Some(Code::Enter),
        code_of("esc"@) == Some(Code::Escape),
        code_of("del"@) == Some(Code::Delete),
{
    lemma_key_name_texts();
    match c {
        Code::Space => {

            assert(code_of("space"@) == Some(Code::Space));
        },
        Code::Enter => {
            assert(code_of("enter"@) == Some(Code::Enter));
        },
        Code::Tab => {
            assert(code_of("tab"@) == Some(Code::Tab));
        },
        Code::Escape => {
            assert(code_of("escape"@) == Some(Code::Escape));
        },
        Code::Backspace => {
            assert(code_of("backspace"@) == Some(Code::Backspace));
        },
        Code::Delete => {
            assert(code_of("delete"@) == Some(Code::Delete));
        },
        Code::Home => {
            assert(code_of("home"@) == Some(Code::Home));
        },
        Code::End => {
            assert(code_of("end"@) == Some(Code::End));
        },
        Code::PageUp => {
            assert(code_of("pageup"@) == Some(Code::PageUp));
        },
        Code::PageDown => {
            assert(code_of("pagedown"@) == Some(Code::PageDown));
        },
        Code::ArrowUp => {
            assert(code_of("arrowup"@) == Some(Code::ArrowUp));
        },
        Code::ArrowDown => {
            assert(code_of("arrowdown"@) == Some(Code::ArrowDown));
        },
        Code::ArrowLeft => {
            assert(code_of("arrowleft"@) == Some(Code::ArrowLeft));
        },
        Code::ArrowRight => {
            assert(code_of("arrowright"@) == Some(Code::ArrowRight));
        },
        Code::F1 => {
            assert(code_of("f1"@) == Some(Code::F1));
        },
        Code::F2 => {
            assert(code_of("f2"@) == Some(Code::F2));
        },
        Code::F3 => {
            assert(code_of("f3"@) == Some(Code::F3));
        },
        Code::F4 => {
            assert(code_of("f4"@) == Some(Code::F4));
        },
        Code::F5 => {
            assert(code_of("f5"@) == Some(Code::F5));
        },
        Code::F6 => {
            assert(code_of("f6"@) == Some(Code::F6));
        },
        Code::F7 => {
            assert(code_of("f7"@) == Some(Code::F7));
        },
        Code::F8 => {
            assert(code_of("f8"@) == Some(Code::F8));
        },
        Code::F9 => {
            assert(code_of("f9"@) == Some(Code::F9));
        },
        Code::F10 => {
            assert(code_of("f10"@) == Some(Code::F10));
        },
        Code::F11 => {
            assert(code_of("f11"@) == Some(Code::F11));
        },
        Code::F12 => {
            assert(code_of("f12"@) == Some(Code::F12));
        },
        Code::KeyA => {
            assert(code_of("a"@) == Some(Code::KeyA));
        },
        Code::KeyB => {
            assert(code_of("b"@) == Some(Code::KeyB));
        },
        Code::KeyC => {
            assert(code_of("c"@) == Some(Code::KeyC));
        },
        Code::KeyD => {
            assert(code_of("d"@) == Some(Code::KeyD));
        },
        Code::KeyE => {
            assert(code_of("e"@) == Some(Code::KeyE));
        },
        Code::KeyF => {
            assert(code_of("f"@) == Some(Code::KeyF));
        },
        Code::KeyG => {
            assert(code_of("g"@) == Some(Code::KeyG));
        },
        Code::KeyH => {
            assert(code_of("h"@) == Some(Code::KeyH));
        },
        Code::KeyI => {
            assert(code_of("i"@) == Some(Code::KeyI));
        },
        Code::KeyJ => {
            assert(code_of("j"@) == Some(Code::KeyJ));
        },
        Code::KeyK => {
            assert(code_of("k"@) == Some(Code::KeyK));
        },
        Code::KeyL => {
            assert(code_of("l"@) == Some(Code::KeyL));
        },
        Code::KeyM => {
            assert(code_of("m"@) == Some(Code::KeyM));
        },
        Code::KeyN => {
            assert(code_of("n"@) == Some(Code::KeyN));
        },
        Code::KeyO => {
            assert(code_of("o"@) == Some(Code::KeyO));
        },
        Code::KeyP => {
            assert(code_of("p"@) == Some(Code::KeyP));
        },
        Code::KeyQ => {
            assert(code_of("q"@) == Some(Code::KeyQ));
        },
        Code::KeyR => {
            assert(code_of("r"@) == Some(Code::KeyR));
        },
        Code::KeyS => {
            assert(code_of("s"@) == Some(Code::KeyS));
        },
        Code::KeyT => {
            assert(code_of("t"@) == Some(Code::KeyT));
        },
        Code::KeyU => {
            assert(code_of("u"@) == Some(Code::KeyU));
        },
        Code::KeyV => {
            assert(code_of("v"@) == Some(Code::KeyV));
        },
        Code::KeyW => {
            assert(code_of("w"@) == Some(Code::KeyW));
        },
        Code::KeyX => {
            assert(code_of("x"@) == Some(Code::KeyX));
        },
        Code::KeyY => {
            assert(code_of("y"@) == Some(Code::KeyY));
        },
        Code::KeyZ => {
            assert(code_of("z"@) == Some(Code::KeyZ));
        },
        Code::Digit0 => {
            assert(code_of("0"@) == Some(Code::Digit0));
        },
        Code::Digit1 => {
            assert(code_of("1"@) == Some(Code::Digit1));
        },
        Code::Digit2 => {
            assert(code_of("2"@) == Some(Code::Digit2));
        },
        Code::Digit3 => {
            assert(code_of("3"@) == Some(Code::Digit3));
        },
        Code::Digit4 => {
            assert(code_of("4"@) == Some(Code::Digit4));
        },
        Code::Digit5 => {
            assert(code_of("5"@) == Some(Code::Digit5));
        },
        Code::Digit6 => {
            assert(code_of("6"@) == Some(Code::Digit6));
        },
        Code::Digit7 => {
            assert(code_of("7"@) == Some(Code::Digit7));
        },
        Code::Digit8 => {
            assert(code_of("8"@) == Some(Code::Digit8));
        },
        Code::Digit9 => {
            assert(code_of("9"@) == Some(Code::Digit9));
        },
    }
}

/// A word that names a key is that key's own name or one of its aliases.
pub proof fn law_key_names_unique(s: Seq<char>)
    ensures
        code_of(s) matches Some(c) ==> s == key_name(c) || (c == Code::Enter && s == "return"@) || (c
            == Code::Escape && s == "esc"@) || (c == Code::Delete && s == "del"@),
{
}

} // verus!
