use vstd::prelude::*;
use vstd::string::*;

use crate::ids::{is_uuid_v4_text, new_macro_id};
use crate::paths::{is_plain_file_name, join_path, path_joined};
use crate::shortcut::{error_view, hotkey_words, parse_shortcut_str, shortcut_of_words, Shortcut};
use crate::text::strings_view;

verus! {

/// A stored text snippet: an identifier, the title shown in the picker and
/// the text that is pasted.
#[derive(Clone, Debug, PartialEq, Eq)]
pub struct Macro {
    pub id: String,
    pub title: String,
    pub content: String,
}

impl Macro {
    /// A field-by-field copy.
    pub fn duplicate(&self) -> (m: Macro)
        ensures
            m == *self,
    {
        Macro { id: self.id.clone(), title: self.title.clone(), content: self.content.clone() }
    }
}

/// The user's settings.
#[derive(Clone, Debug, PartialEq, Eq)]
pub struct AppSettings {
    pub hotkey: String,
}

impl AppSettings {
    /// A field-by-field copy.
    pub fn duplicate(&self) -> (s: AppSettings)
        ensures
            s == *self,
    {
        AppSettings { hotkey: self.hotkey.clone() }
    }
}

/// The settings loaded from disk, or the default settings when none could
/// be loaded.
pub fn loaded_or_default_settings(loaded: Option<AppSettings>) -> (s: AppSettings)
    ensures
        match loaded {
            Some(l) => s == l,
            None => s.hotkey@ == "Alt+Space"@,
        },
{
    match loaded {
        Some(l) => l,
        None => AppSettings::default(),
    }
}

impl Default for AppSettings {
    fn default() -> (s: Self)
        ensures
            s.hotkey@ == "Alt+Space"@,
    {
        AppSettings { hotkey: String::from_str("Alt+Space") }
    }
}

/// The content of a macro backup file.
pub struct ExportData {
    pub version: u32,
    pub macros: Vec<Macro>,
}

/// The state that the app keeps: the macro list, the settings and the
/// directory that both are saved in.
pub struct AppState {
    pub macros: Vec<Macro>,
    pub settings: AppSettings,
    pub data_dir: std::path::PathBuf,
}

/// What a change of the hotkey asks of the shortcut registry: the hotkey to
/// release, if the current one parses, and the one to register.
pub struct HotkeyChange {
    pub unregister: Option<Shortcut>,
    pub register: Shortcut,
}

/// Some macro in `ms` has the identifier `id`.
pub open spec fn has_id(ms: Seq<Macro>, id: Seq<char>) -> bool {
    exists|i: int| 0 <= i < ms.len() && #[trigger] ms[i].id@ == id
}

/// `i` is the index of the first macro in `ms` with identifier `id`.
pub open spec fn is_first_with_id(ms: Seq<Macro>, id: Seq<char>, i: int) -> bool {
    &&& 0 <= i < ms.len()
    &&& ms[i].id@ == id
    &&& forall|j: int| 0 <= j < i ==> #[trigger] ms[j].id@ != id
}

/// The index of the first macro in `ms` with identifier `id` (meaningful
/// when there is one).
pub open spec fn first_with_id(ms: Seq<Macro>, id: Seq<char>) -> int {
    choose|i: int| is_first_with_id(ms, id, i)
}

/// `ms` without the macros whose identifier is `id`, the others in order.
pub open spec fn without_id(ms: Seq<Macro>, id: Seq<char>) -> Seq<Macro>
    decreases ms.len(),
{
    if ms.len() == 0 {
        ms
    } else {
        let rest = without_id(ms.drop_last(), id);
        if ms.last().id@ == id {
            rest
        } else {
            rest.push(ms.last())
        }
    }
}

/// `ms` with `m` in place of the first macro with the same identifier, or
/// with `m` appended when there is none.
pub open spec fn upsert(ms: Seq<Macro>, m: Macro) -> Seq<Macro> {
    if has_id(ms, m.id@) {
        ms.update(first_with_id(ms, m.id@), m)
    } else {
        ms.push(m)
    }
}

/// `ms` with every macro of `imported` upserted, in order.
pub open spec fn merge_all(ms: Seq<Macro>, imported: Seq<Macro>) -> Seq<Macro>
    decreases imported.len(),
{
    if imported.len() == 0 {
        ms
    } else {
        upsert(merge_all(ms, imported.drop_last()), imported.last())
    }
}

/// For each identifier in `ids`, in order, the first macro of `ms` with it;
/// identifiers that no macro has are skipped.
pub open spec fn reorder_list(ms: Seq<Macro>, ids: Seq<Seq<char>>) -> Seq<Macro>
    decreases ids.len(),
{
    if ids.len() == 0 {
        Seq::<Macro>::empty()
    } else {
        let rest = reorder_list(ms, ids.drop_last());
        if has_id(ms, ids.last()) {
            rest.push(ms[first_with_id(ms, ids.last())])
        } else {
            rest
        }
    }
}

/// The identifiers of `ids` that some macro of `ms` has, in order.
pub open spec fn found_ids(ms: Seq<Macro>, ids: Seq<Seq<char>>) -> Seq<Seq<char>>
    decreases ids.len(),
{
    if ids.len() == 0 {
        ids
    } else {
        let rest = found_ids(ms, ids.drop_last());
        if has_id(ms, ids.last()) {
            rest.push(ids.last())
        } else {
            rest
        }
    }
}

/// `ids` is an order for `ms`: the identifiers of `ids` that name a macro
/// name as many as there are macros and none of them twice. Identifiers
/// that name no macro are passed over.
pub open spec fn is_valid_order(ms: Seq<Macro>, ids: Seq<Seq<char>>) -> bool {
    &&& found_ids(ms, ids).len() == ms.len()
    &&& found_ids(ms, ids).no_duplicates()
}

/// `p` lists each index below `n` exactly once.
pub open spec fn is_index_permutation(p: Seq<int>, n: int) -> bool {
    &&& p.len() == n
    &&& forall|k: int| 0 <= k < n ==> 0 <= #[trigger] p[k] < n
    &&& p.no_duplicates()
    &&& forall|i: int| 0 <= i < n ==> p.contains(i)
}

/// `r` holds the macros of `ms`, each exactly once, in some order.
pub open spec fn is_permutation_of(r: Seq<Macro>, ms: Seq<Macro>) -> bool {
    exists|p: Seq<int>|
        #![trigger is_index_permutation(p, ms.len() as int)]
        is_index_permutation(p, ms.len() as int) && r.len() == ms.len() && forall|k: int|
            0 <= k < r.len() ==> #[trigger] r[k] == ms[p[k]]
}

/// The first macro with a given identifier exists whenever one has it.
pub proof fn lemma_first_with_id(ms: Seq<Macro>, id: Seq<char>)
    requires
        has_id(ms, id),
    ensures
        is_first_with_id(ms, id, first_with_id(ms, id)),
    decreases ms.len(),
{
    let w = choose|i: int| 0 <= i < ms.len() && #[trigger] ms[i].id@ == id;
    if has_id(ms.drop_last(), id) {
        lemma_first_with_id(ms.drop_last(), id);
        let k = first_with_id(ms.drop_last(), id);
        assert(ms.drop_last()[k] == ms[k]);
        assert forall|j: int| 0 <= j < k implies #[trigger] ms[j].id@ != id by {
            assert(ms.drop_last()[j] == ms[j]);
        }
        assert(is_first_with_id(ms, id, k));
    } else {
        let k = ms.len() - 1;
        assert forall|j: int| 0 <= j < k implies #[trigger] ms[j].id@ != id by {
            assert(ms.drop_last()[j] == ms[j]);
        }
        if w < k {
            assert(ms.drop_last()[w] == ms[w]);
        }
        assert(is_first_with_id(ms, id, k));
    }
}

/// There is only one first macro with a given identifier.
pub proof fn lemma_first_unique(ms: Seq<Macro>, id: Seq<char>, i: int)
    requires
        is_first_with_id(ms, id, i),
    ensures
        first_with_id(ms, id) == i,
{
    lemma_first_with_id(ms, id);
    let k = first_with_id(ms, id);
    if k < i {
        assert(ms[k].id@ != id);
    }
    if i < k {
        assert(ms[i].id@ != id);
    }
}

/// Finds the index of the first macro with identifier `id`.
fn position_of(ms: &Vec<Macro>, id: &String) -> (r: Option<usize>)
    ensures
        match r {
            Some(i) => is_first_with_id(ms@, id@, i as int),
            None => !has_id(ms@, id@),
        },
{
    let mut i: usize = 0;
    while i < ms.len()
        invariant
            i <= ms.len(),
            forall|j: int| 0 <= j < i ==> #[trigger] ms@[j].id@ != id@,
        decreases ms.len() - i,
    {
        if ms[i].id == *id {
            return Some(i);
        }
        i = i + 1;
    }
    None
}

/// A copy of a macro list.
fn copy_macros(ms: &Vec<Macro>) -> (r: Vec<Macro>)
    ensures
        r@ == ms@,
{
    let mut r: Vec<Macro> = Vec::new();
    let mut i: usize = 0;
    while i < ms.len()
        invariant
            i <= ms.len(),
            r@ == ms@.take(i as int),
        decreases ms.len() - i,
    {
        r.push(ms[i].duplicate());
        i = i + 1;
        assert(r@ =~= ms@.take(i as int));
    }
    assert(ms@.take(ms.len() as int) =~= ms@);
    r
}

/// `r` is the list that a fresh installation starts with: four greetings,
/// each with a random identifier.
pub open spec fn is_default_list(r: Seq<Macro>) -> bool {
    &&& r.len() == 4
    &&& forall|i: int| 0 <= i < 4 ==> is_uuid_v4_text(#[trigger] r[i].id@)
    &&& r[0].title@ == "안녕하세요"@
    &&& r[0].content@ == "안녕하세요! 무엇을 도와드릴까요?"@
    &&& r[1].title@ == "감사합니다"@
    &&& r[1].content@ == "감사합니다! 좋은 하루 되세요."@
    &&& r[2].title@ == "확인했습니다"@
    &&& r[2].content@ == "확인했습니다. 바로 처리해드리겠습니다."@
    &&& r[3].title@ == "잠시만요"@
    &&& r[3].content@ == "잠시만요, 확인 후 답변 드리겠습니다."@
}

/// The macros that a fresh installation starts with.
pub fn default_macros() -> (r: Vec<Macro>)
    ensures
        is_default_list(r@),
{
    let mut r: Vec<Macro> = Vec::new();
    r.push(Macro {
        id: new_macro_id(),
        title: String::from_str("안녕하세요"),
        content: String::from_str("안녕하세요! 무엇을 도와드릴까요?"),
    });
    r.push(Macro {
        id: new_macro_id(),
        title: String::from_str("감사합니다"),
        content: String::from_str("감사합니다! 좋은 하루 되세요."),
    });
    r.push(Macro {
        id: new_macro_id(),
        title: String::from_str("확인했습니다"),
        content: String::from_str("확인했습니다. 바로 처리해드리겠습니다."),
    });
    r.push(Macro {
        id: new_macro_id(),
        title: String::from_str("잠시만요"),
        content: String::from_str("잠시만요, 확인 후 답변 드리겠습니다."),
    });
    r
}

/// The macro list loaded from disk, or the default list when none could be
/// loaded.
pub fn loaded_or_default_macros(loaded: Option<Vec<Macro>>) -> (r: Vec<Macro>)
    ensures
        match loaded {
            Some(v) => r == v,
            None => is_default_list(r@),
        },
{
    match loaded {
        Some(v) => v,
        None => default_macros(),
    }
}

/// No identifier occurs twice in `ids`.
fn all_distinct(ids: &Vec<String>) -> (r: bool)
    ensures
        r == strings_view(ids@).no_duplicates(),
{
    let ghost ws = strings_view(ids@);
    let mut i: usize = 0;
    while i < ids.len()
        invariant
            i <= ids.len(),
            ws == strings_view(ids@),
            forall|a: int, b: int| 0 <= a < b < i ==> #[trigger] ws[a] != #[trigger] ws[b],
        decreases ids.len() - i,
    {
        let mut j: usize = 0;
        while j < i
            invariant
                j <= i < ids.len(),
                ws == strings_view(ids@),
                forall|a: int, b: int| 0 <= a < b < i ==> #[trigger] ws[a] != #[trigger] ws[b],
                forall|a: int| 0 <= a < j ==> #[trigger] ws[a] != ws[i as int],
            decreases i - j,
        {
            if ids[j] == ids[i] {
                assert(ws[j as int] == ws[i as int]);
                return false;
            }
            j = j + 1;
        }
        i = i + 1;
    }
    assert forall|a: int, b: int| 0 <= a < ws.len() && 0 <= b < ws.len() && a != b implies ws[a] != ws[b] by {
        if a < b {
            assert(ws[a] != ws[b]);
        } else {
            assert(ws[b] != ws[a]);
        }
    }
    true
}

/// When every identifier of `ids` is present, the reordered list takes, for
/// each identifier, the first macro with it.
proof fn lemma_reorder_list_all_present(ms: Seq<Macro>, ids: Seq<Seq<char>>)
    requires
        forall|k: int| 0 <= k < ids.len() ==> has_id(ms, #[trigger] ids[k]),
    ensures
        reorder_list(ms, ids).len() == ids.len(),
        forall|k: int|
            0 <= k < ids.len() ==> #[trigger] reorder_list(ms, ids)[k] == ms[first_with_id(ms, ids[k])],
    decreases ids.len(),
{
    if ids.len() > 0 {
        let pre = ids.drop_last();
        assert forall|k: int| 0 <= k < pre.len() implies has_id(ms, #[trigger] pre[k]) by {
            assert(pre[k] == ids[k]);
        }
        lemma_reorder_list_all_present(ms, pre);
        assert(has_id(ms, ids[ids.len() - 1]));
        assert forall|k: int| 0 <= k < ids.len() implies #[trigger] reorder_list(ms, ids)[k]
            == ms[first_with_id(ms, ids[k])] by {
            if k < pre.len() {
                assert(pre[k] == ids[k]);
            }
        }
    }
}

/// Identifiers that name no macro do not change the reordered list, and
/// every found identifier names a macro.
pub proof fn lemma_found_ids(ms: Seq<Macro>, ids: Seq<Seq<char>>)
    ensures
        reorder_list(ms, ids) == reorder_list(ms, found_ids(ms, ids)),
        forall|k: int| 0 <= k < found_ids(ms, ids).len() ==> has_id(ms, #[trigger] found_ids(ms, ids)[k]),
        (forall|k: int| 0 <= k < ids.len() ==> has_id(ms, #[trigger] ids[k])) ==> found_ids(ms, ids) == ids,
    decreases ids.len(),
{
    if ids.len() > 0 {
        let pre = ids.drop_last();
        lemma_found_ids(ms, pre);
        let f = found_ids(ms, pre);
        if has_id(ms, ids.last()) {
            assert(f.push(ids.last()).drop_last() =~= f);
            assert forall|k: int| 0 <= k < f.push(ids.last()).len() implies has_id(
                ms,
                #[trigger] f.push(ids.last())[k],
            ) by {
                if k < f.len() {
                    assert(f.push(ids.last())[k] == f[k]);
                }
            }
        }
        if forall|k: int| 0 <= k < ids.len() ==> has_id(ms, #[trigger] ids[k]) {
            assert forall|k: int| 0 <= k < pre.len() implies has_id(ms, #[trigger] pre[k]) by {
                assert(pre[k] == ids[k]);
            }
            assert(has_id(ms, ids[ids.len() - 1]));
            assert(pre.push(ids.last()) =~= ids);
        }
    }
}

/// Reordering by a valid order gives a permutation of the list.
pub proof fn lemma_valid_order_is_permutation(ms: Seq<Macro>, ids: Seq<Seq<char>>)
    requires
        is_valid_order(ms, ids),
    ensures
        is_permutation_of(reorder_list(ms, ids), ms),
{
    lemma_found_ids(ms, ids);
    lemma_names_each_once_is_permutation(ms, found_ids(ms, ids));
}

/// Reordering by identifiers that name every macro exactly once gives a
/// permutation of the list.
proof fn lemma_names_each_once_is_permutation(ms: Seq<Macro>, ids: Seq<Seq<char>>)
    requires
        ids.len() == ms.len(),
        ids.no_duplicates(),
        forall|k: int| 0 <= k < ids.len() ==> has_id(ms, #[trigger] ids[k]),
    ensures
        is_permutation_of(reorder_list(ms, ids), ms),
{
    let n = ms.len() as int;
    lemma_reorder_list_all_present(ms, ids);
    let r = reorder_list(ms, ids);
    let p = Seq::new(n as nat, |k: int| first_with_id(ms, ids[k]));
    assert forall|k: int| 0 <= k < n implies 0 <= #[trigger] p[k] < n && ms[p[k]].id@ == ids[k] by {
        lemma_first_with_id(ms, ids[k]);
    }
    assert forall|a: int, b: int| 0 <= a < p.len() && 0 <= b < p.len() && a != b implies p[a] != p[b] by {
        assert(ms[p[a]].id@ == ids[a]);
        assert(ms[p[b]].id@ == ids[b]);
        assert(ids[a] != ids[b]);
    }
    assert(p.no_duplicates());
    p.unique_seq_to_set();
    vstd::set_lib::lemma_int_range(0, n);
    assert(p.to_set().subset_of(vstd::set_lib::set_int_range(0, n))) by {
        assert forall|x: int| #[trigger] p.to_set().contains(x) implies vstd::set_lib::set_int_range(0, n).contains(x) by {
            let k = choose|k: int| 0 <= k < p.len() && p[k] == x;
            assert(0 <= p[k] < n);
        }
    }
    vstd::seq_lib::seq_to_set_is_finite(p);
    vstd::set_lib::lemma_subset_equality(p.to_set(), vstd::set_lib::set_int_range(0, n));
    assert forall|i: int| 0 <= i < n implies p.contains(i) by {
        assert(vstd::set_lib::set_int_range(0, n).contains(i));
        assert(p.to_set().contains(i));
    }
    assert(is_index_permutation(p, n));
    assert forall|k: int| 0 <= k < r.len() implies #[trigger] r[k] == ms[p[k]] by {}
}

/// The names of the two data files are plain file names and differ.
proof fn lemma_data_file_names()
    ensures
        is_plain_file_name("macros.json"@),
        is_plain_file_name("settings.json"@),
        "macros.json"@ != "settings.json"@,
{
    reveal_strlit("macros.json");
    reveal_strlit("settings.json");
    assert("macros.json"@ =~= seq!['m', 'a', 'c', 'r', 'o', 's', '.', 'j', 's', 'o', 'n']);
    assert("settings.json"@ =~= seq!['s', 'e', 't', 't', 'i', 'n', 'g', 's', '.', 'j', 's', 'o', 'n']);
    assert("macros.json"@[0] != "settings.json"@[0]);
}

impl AppState {
    /// The file that the macro list is saved in.
    pub fn macros_path(&self) -> (p: std::path::PathBuf)
        ensures
            p == path_joined(self.data_dir, "macros.json"@),
            p != path_joined(self.data_dir, "settings.json"@),
    {
        let p = join_path(&self.data_dir, "macros.json");
        proof {
            lemma_data_file_names();
        }
        p
    }

    /// The file that the settings are saved in.
    pub fn settings_path(&self) -> (p: std::path::PathBuf)
        ensures
            p == path_joined(self.data_dir, "settings.json"@),
            p != path_joined(self.data_dir, "macros.json"@),
    {
        let p = join_path(&self.data_dir, "settings.json");
        proof {
            lemma_data_file_names();
        }
        p
    }

    /// A copy of the macro list.
    pub fn get_macros(&self) -> (r: Vec<Macro>)
        ensures
            r@ == self.macros@,
    {
        copy_macros(&self.macros)
    }

    /// Appends a macro with a fresh random identifier and returns it.
    pub fn add_macro(&mut self, title: String, content: String) -> (item: Macro)
        ensures
            is_uuid_v4_text(item.id@),
            item.title == title,
            item.content == content,
            final(self).macros@ == old(self).macros@.push(item),
            final(self).settings == old(self).settings,
            final(self).data_dir == old(self).data_dir,
    {
        let item = Macro { id: new_macro_id(), title, content };
        self.macros.push(item.duplicate());
        item
    }

    /// Sets the title and content of the first macro with identifier `id`.
    pub fn update_macro(&mut self, id: String, title: String, content: String) -> (r: Result<(), String>)
        ensures
            r is Ok <==> has_id(old(self).macros@, id@),
            r is Ok ==> final(self).macros@ == old(self).macros@.update(
                first_with_id(old(self).macros@, id@),
                Macro {
                    id: old(self).macros@[first_with_id(old(self).macros@, id@)].id,
                    title,
                    content,
                },
            ),
            r matches Err(e) ==> e@ == "not found"@ && final(self).macros@ == old(self).macros@,
            final(self).settings == old(self).settings,
            final(self).data_dir == old(self).data_dir,
    {
        match position_of(&self.macros, &id) {
            Some(idx) => {
                proof {
                    lemma_first_unique(self.macros@, id@, idx as int);
                }
                let kept_id = self.macros[idx].id.clone();
                self.macros.set(idx, Macro { id: kept_id, title, content });
                Ok(())
            },
            None => Err(String::from_str("not found")),
        }
    }

    /// Removes every macro with identifier `id`; fails when there is none.
    pub fn delete_macro(&mut self, id: String) -> (r: Result<(), String>)
        ensures
            r is Ok <==> has_id(old(self).macros@, id@),
            r matches Err(e) ==> e@ == "not found"@,
            final(self).macros@ == without_id(old(self).macros@, id@),
            final(self).settings == old(self).settings,
            final(self).data_dir == old(self).data_dir,
    {
        let ghost ms = self.macros@;
        let mut kept: Vec<Macro> = Vec::new();
        let mut removed = false;
        let mut i: usize = 0;
        assert(ms.take(0) =~= Seq::<Macro>::empty());
        while i < self.macros.len()
            invariant
                ms == self.macros@,
                i <= ms.len(),
                kept@ == without_id(ms.take(i as int), id@),
                removed == has_id(ms.take(i as int), id@),
            decreases ms.len() - i,
        {
            let ghost pre = ms.take(i as int);
            let ghost next = ms.take(i + 1);
            assert(next.drop_last() =~= pre);
            assert(next.last() == ms[i as int]);
            if self.macros[i].id == id {
                removed = true;
                assert(next[i as int].id@ == id@);
            } else {
                kept.push(self.macros[i].duplicate());
                proof {
                    if has_id(next, id@) {
                        let w = choose|k: int| 0 <= k < next.len() && #[trigger] next[k].id@ == id@;
                        assert(pre[w] == next[w]);
                    }
                }
            }
            proof {
                if has_id(pre, id@) {
                    let w = choose|k: int| 0 <= k < pre.len() && #[trigger] pre[k].id@ == id@;
                    assert(next[w] == pre[w]);
                }
            }
            i = i + 1;
        }
        assert(ms.take(ms.len() as int) =~= ms);
        self.macros = kept;
        if removed {
            Ok(())
        } else {
            Err(String::from_str("not found"))
        }
    }

    /// Puts the macros in the order given by `ids`, passing over identifiers
    /// that name no macro. The identifiers must name every macro exactly
    /// once; otherwise the list is left as it is.
    pub fn reorder_macros(&mut self, ids: &Vec<String>) -> (r: Result<(), String>)
        ensures
            is_valid_order(old(self).macros@, strings_view(ids@)) ==> {
                &&& r is Ok
                &&& final(self).macros@ == reorder_list(old(self).macros@, strings_view(ids@))
                &&& is_permutation_of(final(self).macros@, old(self).macros@)
            },
            !is_valid_order(old(self).macros@, strings_view(ids@)) ==> {
                &&& r matches Err(e) && e@ == "invalid ids"@
                &&& final(self).macros@ == old(self).macros@
            },
            final(self).settings == old(self).settings,
            final(self).data_dir == old(self).data_dir,
    {
        let ghost ws = strings_view(ids@);
        let mut reordered: Vec<Macro> = Vec::new();
        let mut found: Vec<String> = Vec::new();
        let mut i: usize = 0;
        assert(ws.take(0) =~= Seq::<Seq<char>>::empty());
        assert(strings_view(found@) =~= Seq::<Seq<char>>::empty());
        while i < ids.len()
            invariant
                i <= ids.len(),
                ws == strings_view(ids@),
                reordered@ == reorder_list(self.macros@, ws.take(i as int)),
                strings_view(found@) == found_ids(self.macros@, ws.take(i as int)),
                reordered@.len() == found@.len(),
            decreases ids.len() - i,
        {
            assert(ws.take(i + 1).drop_last() =~= ws.take(i as int));
            assert(ws.take(i + 1).last() == ids@[i as int]@);
            let ghost before = found@;
            match position_of(&self.macros, &ids[i]) {
                Some(p) => {
                    proof {
                        lemma_first_unique(self.macros@, ids@[i as int]@, p as int);
                    }
                    reordered.push(self.macros[p].duplicate());
                    found.push(ids[i].clone());
                    assert(strings_view(found@) =~= strings_view(before).push(ids@[i as int]@));
                },
                None => {},
            }
            i = i + 1;
        }
        assert(ws.take(ids.len() as int) =~= ws);
        if reordered.len() != self.macros.len() || !all_distinct(&found) {
            return Err(String::from_str("invalid ids"));
        }
        proof {
            lemma_valid_order_is_permutation(self.macros@, ws);
        }
        self.macros = reordered;
        Ok(())
    }

    /// The backup of the current macro list.
    pub fn export_data(&self) -> (d: ExportData)
        ensures
            d.version == 1,
            d.macros@ == self.macros@,
    {
        ExportData { version: 1, macros: copy_macros(&self.macros) }
    }

    /// Merges imported macros into the list: each replaces the first macro
    /// with its identifier, or is appended when there is none. Returns the
    /// resulting list.
    pub fn import_macros(&mut self, imported: Vec<Macro>) -> (r: Vec<Macro>)
        ensures
            final(self).macros@ == merge_all(old(self).macros@, imported@),
            r@ == final(self).macros@,
            final(self).settings == old(self).settings,
            final(self).data_dir == old(self).data_dir,
    {
        let ghost start = self.macros@;
        let mut i: usize = 0;
        assert(imported@.take(0) =~= Seq::<Macro>::empty());
        while i < imported.len()
            invariant
                i <= imported.len(),
                self.macros@ == merge_all(start, imported@.take(i as int)),
                self.settings == old(self).settings,
                self.data_dir == old(self).data_dir,
            decreases imported.len() - i,
        {
            assert(imported@.take(i + 1).drop_last() =~= imported@.take(i as int));
            assert(imported@.take(i + 1).last() == imported@[i as int]);
            let item = imported[i].duplicate();
            match position_of(&self.macros, &item.id) {
                Some(idx) => {
                    proof {
                        lemma_first_unique(self.macros@, item.id@, idx as int);
                    }
                    self.macros.set(idx, item);
                },
                None => {
                    self.macros.push(item);
                },
            }
            i = i + 1;
        }
        assert(imported@.take(imported.len() as int) =~= imported@);
        copy_macros(&self.macros)
    }

    /// A copy of the settings.
    pub fn get_settings(&self) -> (s: AppSettings)
        ensures
            s == self.settings,
    {
        self.settings.duplicate()
    }

    /// Records a new hotkey text in the settings.
    pub fn set_hotkey(&mut self, hotkey: String)
        ensures
            final(self).settings.hotkey == hotkey,
            final(self).macros == old(self).macros,
            final(self).data_dir == old(self).data_dir,
    {
        self.settings = AppSettings { hotkey };
    }

    /// Decides what a change of the hotkey to `hotkey` takes: fails with the
    /// parse error when the new text does not parse; otherwise the current
    /// hotkey is to be released if its text parses, and the new one registered.
    pub fn plan_hotkey_update(&self, hotkey: &str) -> (r: Result<HotkeyChange, String>)
        ensures
            error_view(r) == match shortcut_of_words(hotkey_words(hotkey@)) {
                Err(e) => Err(e),
                Ok(sc) => Ok(
                    HotkeyChange {
                        unregister: match shortcut_of_words(hotkey_words(self.settings.hotkey@)) {
                            Ok(old_sc) => Some(old_sc),
                            Err(_) => None,
                        },
                        register: sc,
                    },
                ),
            },
    {
        let new_shortcut = match parse_shortcut_str(hotkey) {
            Ok(sc) => sc,
            Err(e) => {
                return Err(e);
            },
        };
        let unregister = match parse_shortcut_str(self.settings.hotkey.as_str()) {
            Ok(old_sc) => Some(old_sc),
            Err(_) => None,
        };
        Ok(HotkeyChange { unregister, register: new_shortcut })
    }
}

} // verus!
