use vstd::prelude::*;
use vstd::string::*;

verus! {

/// The views of a sequence of strings.
pub open spec fn strings_view(ps: Seq<String>) -> Seq<Seq<char>> {
    ps.map_values(|p: String| p@)
}

/// The pieces of `s` between occurrences of `sep`, as `str::split` with a
/// single-character pattern yields them: always at least one piece, and an
/// empty piece for each leading, trailing or doubled separator.
pub open spec fn split_on(s: Seq<char>, sep: char) -> Seq<Seq<char>>
    decreases s.len(),
{
    if s.len() == 0 {
        seq![Seq::<char>::empty()]
    } else {
        let rest = split_on(s.drop_last(), sep);
        if s.last() == sep {
            rest.push(Seq::<char>::empty())
        } else {
            rest.update(rest.len() - 1, rest.last().push(s.last()))
        }
    }
}

/// Character-wise equality of two string slices.
pub fn str_eq(a: &str, b: &str) -> (r: bool)
    ensures
        r == (a@ == b@),
{
    let n = a.unicode_len();
    let m = b.unicode_len();
    if n != m {
        return false;
    }
    let mut i: usize = 0;
    while i < n
        invariant
            n == a@.len(),
            m == b@.len(),
            n == m,
            i <= n,
            forall|j: int| 0 <= j < i ==> a@[j] == b@[j],
        decreases n - i,
    {
        if a.get_char(i) != b.get_char(i) {
            return false;
        }
        i = i + 1;
    }
    assert(a@ =~= b@);
    true
}

/// Splits `s` at every `'+'`.
pub fn split_plus(s: &str) -> (parts: Vec<String>)
    ensures
        strings_view(parts@) == split_on(s@, '+'),
{
    let n = s.unicode_len();
    let mut parts: Vec<String> = Vec::new();
    let mut start: usize = 0;
    let mut i: usize = 0;
    assert(s@.take(0) =~= Seq::<char>::empty());
    assert(strings_view(parts@).push(s@.subrange(0, 0)) =~= seq![Seq::<char>::empty()]);
    while i < n
        invariant
            n == s@.len(),
            start <= i <= n,
            split_on(s@.take(i as int), '+') == strings_view(parts@).push(
                s@.subrange(start as int, i as int),
            ),
        decreases n - i,
    {
        let c = s.get_char(i);
        let ghost old_parts = parts@;
        let ghost old_start = start;
        assert(s@.take(i + 1).drop_last() =~= s@.take(i as int));
        assert(s@.take(i + 1).last() == c);
        if c == '+' {
            let piece = s.substring_char(start, i);
            parts.push(String::from_str(piece));
            start = i + 1;
            assert(strings_view(parts@) =~= strings_view(old_parts).push(
                s@.subrange(old_start as int, i as int),
            ));
            assert(s@.subrange(start as int, i + 1) =~= Seq::<char>::empty());
        } else {
            assert(s@.subrange(start as int, i + 1) =~= s@.subrange(start as int, i as int).push(c));
        }
        i = i + 1;
        assert(split_on(s@.take(i as int), '+') =~= strings_view(parts@).push(
            s@.subrange(start as int, i as int),
        ));
    }
    let ghost before = parts@;
    let last = s.substring_char(start, n);
    parts.push(String::from_str(last));
    assert(s@.take(n as int) =~= s@);
    assert(strings_view(parts@) =~= strings_view(before).push(s@.subrange(start as int, n as int)));
    parts
}

/// `c` with an ASCII upper-case letter turned into its lower-case one.
pub open spec fn ascii_lower_char(c: char) -> char {
    if 'A' <= c <= 'Z' {
        ((c as u32) + 32) as char
    } else {
        c
    }
}

/// `c` with an ASCII lower-case letter turned into its upper-case one.
pub open spec fn ascii_upper_char(c: char) -> char {
    if 'a' <= c <= 'z' {
        ((c as u32) - 32) as char
    } else {
        c
    }
}

/// `s` with its ASCII letters in lower case.
pub open spec fn ascii_lower(s: Seq<char>) -> Seq<char> {
    s.map_values(|c: char| ascii_lower_char(c))
}

/// `s` with its ASCII letters in upper case.
pub open spec fn ascii_upper(s: Seq<char>) -> Seq<char> {
    s.map_values(|c: char| ascii_upper_char(c))
}

/// Mapping the characters by a function that keeps `sep` and only `sep` at
/// `sep` maps the pieces alike.
pub proof fn lemma_split_on_map(s: Seq<char>, sep: char, f: spec_fn(char) -> char)
    requires
        forall|c: char| (#[trigger] f(c) == sep) == (c == sep),
    ensures
        split_on(s.map_values(f), sep) == split_on(s, sep).map_values(|p: Seq<char>| p.map_values(f)),
    decreases s.len(),
{
    let fs = s.map_values(f);
    assert(Seq::<char>::empty().map_values(f) =~= Seq::<char>::empty());
    if s.len() == 0 {
        assert(fs =~= Seq::<char>::empty());
        assert(split_on(s, sep).map_values(|p: Seq<char>| p.map_values(f)) =~= seq![Seq::<char>::empty()]);
    } else {
        lemma_split_on_nonempty(s.drop_last(), sep);
        lemma_split_on_map(s.drop_last(), sep, f);
        assert(fs.drop_last() =~= s.drop_last().map_values(f));
        assert(fs.last() == f(s.last()));
        let rest = split_on(s.drop_last(), sep);
        let mrest = rest.map_values(|p: Seq<char>| p.map_values(f));
        if s.last() == sep {
            assert(split_on(s, sep).map_values(|p: Seq<char>| p.map_values(f)) =~= mrest.push(
                Seq::<char>::empty(),
            ));
        } else {
            assert(rest.last().push(s.last()).map_values(f) =~= mrest.last().push(f(s.last())));
            assert(split_on(s, sep).map_values(|p: Seq<char>| p.map_values(f)) =~= mrest.update(
                mrest.len() - 1,
                mrest.last().push(f(s.last())),
            ));
        }
    }
}

/// Splitting never yields an empty list of pieces.
pub proof fn lemma_split_on_nonempty(s: Seq<char>, sep: char)
    ensures
        split_on(s, sep).len() >= 1,
    decreases s.len(),
{
    if s.len() > 0 {
        lemma_split_on_nonempty(s.drop_last(), sep);
    }
}

/// The pieces of an ASCII text are ASCII.
pub proof fn lemma_split_on_ascii(s: Seq<char>, sep: char)
    requires
        vstd::utf8::is_ascii_chars(s),
    ensures
        forall|k: int|
            0 <= k < split_on(s, sep).len() ==> vstd::utf8::is_ascii_chars(#[trigger] split_on(s, sep)[k]),
    decreases s.len(),
{
    if s.len() > 0 {
        let pre = s.drop_last();
        assert(vstd::utf8::is_ascii_chars(pre)) by {
            assert forall|i: int| 0 <= i < pre.len() implies '\0' <= #[trigger] pre[i] <= '\u{7f}' by {
                assert(pre[i] == s[i]);
            }
        }
        lemma_split_on_ascii(pre, sep);
        lemma_split_on_nonempty(pre, sep);
        let rest = split_on(pre, sep);
        assert(s[s.len() - 1] == s.last());
        if s.last() != sep {
            let lp = rest.last().push(s.last());
            assert(vstd::utf8::is_ascii_chars(rest[rest.len() - 1]));
            assert forall|i: int| 0 <= i < lp.len() implies '\0' <= #[trigger] lp[i] <= '\u{7f}' by {
                if i < rest.last().len() {
                    assert(lp[i] == rest.last()[i]);
                }
            }
            let r = rest.update(rest.len() - 1, lp);
            assert forall|k: int| 0 <= k < r.len() implies vstd::utf8::is_ascii_chars(#[trigger] r[k]) by {
                if k < rest.len() - 1 {
                    assert(r[k] == rest[k]);
                }
            }
        } else {
            let r = rest.push(Seq::<char>::empty());
            assert forall|k: int| 0 <= k < r.len() implies vstd::utf8::is_ascii_chars(#[trigger] r[k]) by {
                if k < rest.len() {
                    assert(r[k] == rest[k]);
                }
            }
        }
    }
}

} // verus!
