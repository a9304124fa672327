//! Source collector: which of the paths found under a project root are
//! analysed.
//!
//! A path is left out where one of its components (the parts between
//! `/`) is an ignored name, and, where extensions are given, where its
//! extension is none of them. A path that was already taken is not taken
//! again, so a tree that leads back into itself yields each file once.
//! The order of the paths found is kept.

use vstd::prelude::*;
use crate::parser::{extension, extension_of};
use crate::text::{chars_of, holds_text, string_of};

verus! {

/// First position at or after `from` that holds `/`, or the end.
pub open spec fn slash_from(s: Seq<char>, from: int) -> int
    decreases s.len() - from,
{
    if 0 <= from < s.len() && s[from] != '/' {
        slash_from(s, from + 1)
    } else {
        from
    }
}

/// The components of a path from position `from` on.
pub open spec fn components_from(s: Seq<char>, from: int) -> Seq<Seq<char>>
    decreases s.len() - from,
{
    if from < 0 || from > s.len() {
        Seq::empty()
    } else {
        let k = slash_from(s, from);
        if from <= k < s.len() {
            seq![s.subrange(from, k)] + components_from(s, k + 1)
        } else {
            seq![s.subrange(from, s.len() as int)]
        }
    }
}

/// The components of a path: its parts between `/`.
pub open spec fn components_of(path: Seq<char>) -> Seq<Seq<char>> {
    components_from(path, 0)
}

pub open spec fn shares_member(a: Seq<Seq<char>>, b: Seq<Seq<char>>) -> bool {
    exists|i: int, j: int| 0 <= i < a.len() && 0 <= j < b.len() && #[trigger] a[i] == #[trigger] b[j]
}

pub open spec fn is_ignored(path: Seq<char>, ignored: Seq<Seq<char>>) -> bool {
    shares_member(components_of(path), ignored)
}

pub open spec fn is_wanted(
    path: Seq<char>,
    ignored: Seq<Seq<char>>,
    extensions: Seq<Seq<char>>,
) -> bool {
    !is_ignored(path, ignored) && (extensions.len() == 0 || extensions.contains(
        extension_of(path),
    ))
}

/// The paths taken among the first `n` found.
pub open spec fn selected_upto(
    found: Seq<Seq<char>>,
    ignored: Seq<Seq<char>>,
    extensions: Seq<Seq<char>>,
    n: nat,
) -> Seq<Seq<char>>
    decreases n,
{
    if n == 0 || n > found.len() {
        Seq::empty()
    } else {
        let rest = selected_upto(found, ignored, extensions, (n - 1) as nat);
        if is_wanted(found[n - 1], ignored, extensions) && !rest.contains(found[n - 1]) {
            rest.push(found[n - 1])
        } else {
            rest
        }
    }
}

/// The paths to analyse.
pub open spec fn selected_of(
    found: Seq<Seq<char>>,
    ignored: Seq<Seq<char>>,
    extensions: Seq<Seq<char>>,
) -> Seq<Seq<char>> {
    selected_upto(found, ignored, extensions, found.len())
}

/// No path is taken twice.
pub proof fn lemma_selected_distinct(
    found: Seq<Seq<char>>,
    ignored: Seq<Seq<char>>,
    extensions: Seq<Seq<char>>,
    n: nat,
)
    requires
        n <= found.len(),
    ensures
        selected_upto(found, ignored, extensions, n).no_duplicates(),
    decreases n,
{
    if n > 0 {
        lemma_selected_distinct(found, ignored, extensions, (n - 1) as nat);
    }
}

/// A path is taken exactly when it was found and is wanted.
pub proof fn lemma_selected_members(
    found: Seq<Seq<char>>,
    ignored: Seq<Seq<char>>,
    extensions: Seq<Seq<char>>,
    n: nat,
    path: Seq<char>,
)
    requires
        n <= found.len(),
    ensures
        selected_upto(found, ignored, extensions, n).contains(path) <==> is_wanted(
            path,
            ignored,
            extensions,
        ) && found.take(n as int).contains(path),
    decreases n,
{
    if n > 0 {
        lemma_selected_members(found, ignored, extensions, (n - 1) as nat, path);
        let rest = selected_upto(found, ignored, extensions, (n - 1) as nat);
        let all = selected_upto(found, ignored, extensions, n);
        let before = found.take(n - 1);
        let now = found.take(n as int);
        assert(now =~= before.push(found[n - 1]));
        if before.contains(path) {
            let i = choose|i: int| 0 <= i < before.len() && before[i] == path;
            assert(now[i] == path);
        }
        if now.contains(path) && !before.contains(path) {
            let i = choose|i: int| 0 <= i < now.len() && now[i] == path;
            if i < n - 1 {
                assert(before[i] == path);
            }
            assert(found[n - 1] == path);
        }
        assert(now[n - 1] == found[n - 1]);
        if rest.contains(path) {
            let i = choose|i: int| 0 <= i < rest.len() && rest[i] == path;
            assert(all[i] == path);
        }
        if all.contains(path) && !rest.contains(path) {
            let i = choose|i: int| 0 <= i < all.len() && all[i] == path;
            if i < rest.len() {
                assert(rest[i] == path);
            }
            assert(found[n - 1] == path);
        }
        if is_wanted(found[n - 1], ignored, extensions) && !rest.contains(found[n - 1]) {
            assert(all[all.len() - 1] == found[n - 1]);
        }
    } else {
        assert(found.take(0) =~= Seq::<Seq<char>>::empty());
    }
}

/// The components of a path.
pub fn components(path: &str) -> (parts: Vec<String>)
    ensures
        parts.deep_view() == components_of(path@),
{
    let chars: Vec<char> = chars_of(path);
    let n: usize = chars.len();
    let mut parts: Vec<String> = Vec::new();
    assert(parts.deep_view() =~= Seq::<Seq<char>>::empty());
    let mut from: usize = 0;
    loop
        invariant_except_break
            parts.deep_view() + components_from(chars@, from as int) == components_of(path@),
        invariant
            from <= n,
            n == chars.len(),
            chars@ == path@,
        ensures
            parts.deep_view() == components_of(path@),
        decreases n - from,
    {
        let mut k: usize = from;
        while k < n && chars[k] != '/'
            invariant
                from <= k <= n,
                n == chars.len(),
                slash_from(chars@, k as int) == slash_from(chars@, from as int),
            decreases n - k,
        {
            k += 1;
        }
        let part: String = string_of(&chars, from, k);
        let ghost before = parts.deep_view();
        parts.push(part);
        assert(parts.deep_view() =~= before.push(part@));
        if k >= n {
            assert(parts.deep_view() =~= before + components_from(chars@, from as int));
            break ;
        }
        assert(parts.deep_view() + components_from(chars@, k + 1) =~= before + components_from(
            chars@,
            from as int,
        ));
        from = k + 1;
    }
    parts
}

fn ignored_path(path: &str, ignored: &Vec<String>) -> (b: bool)
    ensures
        b == is_ignored(path@, ignored.deep_view()),
{
    let parts: Vec<String> = components(path);
    let mut i: usize = 0;
    while i < parts.len()
        invariant
            i <= parts.len(),
            parts.deep_view() == components_of(path@),
            forall|a: int, b: int|
                0 <= a < i && 0 <= b < ignored.len() ==> #[trigger] parts.deep_view()[a]
                    != #[trigger] ignored.deep_view()[b],
        decreases parts.len() - i,
    {
        if holds_text(ignored, &parts[i]) {
            assert(parts.deep_view()[i as int] == parts@[i as int]@);
            let ghost j = choose|j: int|
                0 <= j < ignored.deep_view().len() && ignored.deep_view()[j] == parts@[i as int]@;
            assert(parts.deep_view()[i as int] == ignored.deep_view()[j]);
            return true;
        }
        assert forall|b: int| 0 <= b < ignored.len() implies #[trigger] parts.deep_view()[i as int]
            != #[trigger] ignored.deep_view()[b] by {
            assert(parts.deep_view()[i as int] == parts@[i as int]@);
        }
        i += 1;
    }
    false
}

/// The paths to analyse among those found.
pub fn select_paths(found: &Vec<String>, ignored: &Vec<String>, extensions: &Vec<String>) -> (out:
    Vec<String>)
    ensures
        out.deep_view() == selected_of(
            found.deep_view(),
            ignored.deep_view(),
            extensions.deep_view(),
        ),
        out.deep_view().no_duplicates(),
{
    let mut out: Vec<String> = Vec::new();
    assert(out.deep_view() =~= Seq::<Seq<char>>::empty());
    let mut i: usize = 0;
    while i < found.len()
        invariant
            i <= found.len(),
            out.deep_view() == selected_upto(
                found.deep_view(),
                ignored.deep_view(),
                extensions.deep_view(),
                i as nat,
            ),
        decreases found.len() - i,
    {
        let path: &String = &found[i];
        assert(found.deep_view()[i as int] == path@);
        let wanted: bool = !ignored_path(path.as_str(), ignored) && (extensions.len() == 0
            || holds_text(extensions, &extension(path.as_str())));
        if wanted && !holds_text(&out, path) {
            let copy: String = path.clone();
            let ghost before = out.deep_view();
            out.push(copy);
            assert(out.deep_view() =~= before.push(path@));
        }
        i += 1;
    }
    proof {
        lemma_selected_distinct(
            found.deep_view(),
            ignored.deep_view(),
            extensions.deep_view(),
            found.len() as nat,
        );
    }
    out
}

} // verus!
