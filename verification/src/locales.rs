//! The locales on offer: one for every `*.lang` file, sorted and without repeats.
use vstd::prelude::*;
use vstd::string::*;
use vstd::utf8::*;

use crate::language::Language;
use crate::text;

verus! {

/// Text order: by the first character that differs, a prefix before what it begins.
pub open spec fn precedes(a: Seq<char>, b: Seq<char>) -> bool
    decreases a.len(),
{
    if b.len() == 0 {
        false
    } else if a.len() == 0 {
        true
    } else if a[0] != b[0] {
        (a[0] as u32) < (b[0] as u32)
    } else {
        precedes(a.drop_first(), b.drop_first())
    }
}

/// The characters of each text in a list.
pub open spec fn texts(v: Seq<String>) -> Seq<Seq<char>> {
    v.map_values(|s: String| s@)
}

/// Each text stands before every later one.
pub open spec fn is_ascending(v: Seq<Seq<char>>) -> bool {
    forall|i: int, j: int| 0 <= i < j < v.len() ==> precedes(#[trigger] v[i], #[trigger] v[j])
}

/// The locale that a file offers: what stands before the extension `.lang`. A file that is
/// named `.lang` alone offers none.
pub open spec fn locale_of_file(name: Seq<char>) -> Option<Seq<char>> {
    if name.len() > 5 && name.skip(name.len() - 5) == ".lang"@ {
        Some(name.take(name.len() - 5))
    } else {
        None
    }
}

/// `locale` is offered by one of the first `n` files.
pub open spec fn is_offered(names: Seq<Seq<char>>, n: int, locale: Seq<char>) -> bool {
    exists|i: int| 0 <= i < n && locale_of_file(#[trigger] names[i]) == Some(locale)
}

/// No text stands before itself.
pub proof fn order_is_irreflexive(a: Seq<char>)
    ensures
        !precedes(a, a),
    decreases a.len(),
{
    if a.len() > 0 {
        order_is_irreflexive(a.drop_first());
    }
}

/// Of two different texts one stands before the other.
pub proof fn order_is_total(a: Seq<char>, b: Seq<char>)
    ensures
        a == b || precedes(a, b) || precedes(b, a),
    decreases a.len(),
{
    if a.len() == 0 {
        if b.len() == 0 {
            assert(a =~= b);
        }
    } else if b.len() > 0 {
        if a[0] == b[0] {
            order_is_total(a.drop_first(), b.drop_first());
            if a.drop_first() == b.drop_first() {
                assert(a =~= seq![a[0]] + a.drop_first());
                assert(b =~= seq![b[0]] + b.drop_first());
            }
        } else {
            char_u32_cast(a[0], a[0] as u32);
            char_u32_cast(b[0], b[0] as u32);
        }
    }
}

/// What stands before a text stands before all that follow it.
pub proof fn order_is_transitive(a: Seq<char>, b: Seq<char>, c: Seq<char>)
    requires
        precedes(a, b),
        precedes(b, c),
    ensures
        precedes(a, c),
    decreases a.len(),
{
    if a.len() > 0 && a[0] == b[0] && b[0] == c[0] {
        order_is_transitive(a.drop_first(), b.drop_first(), c.drop_first());
    }
}

/// Tells whether `a` stands before `b`.
fn comes_before(a: &str, b: &str) -> (r: bool)
    ensures
        r == precedes(a@, b@),
{
    let x = text::chars_of(a);
    let y = text::chars_of(b);
    let mut i: usize = 0;
    assert(a@.skip(0) =~= a@);
    assert(b@.skip(0) =~= b@);
    while i < x.len() && i < y.len()
        invariant
            x@ == a@,
            y@ == b@,
            i <= x.len(),
            i <= y.len(),
            precedes(a@, b@) == precedes(a@.skip(i as int), b@.skip(i as int)),
        decreases x.len() - i,
    {
        if x[i] != y[i] {
            return (x[i] as u32) < (y[i] as u32);
        }
        assert(a@.skip(i as int).drop_first() =~= a@.skip(i + 1));
        assert(b@.skip(i as int).drop_first() =~= b@.skip(i + 1));
        i = i + 1;
    }
    i < y.len()
}

/// Puts `s` in its place in an ascending list, unless it is there already.
fn insert_sorted(list: &mut Vec<String>, s: String)
    requires
        is_ascending(texts(old(list)@)),
    ensures
        is_ascending(texts(final(list)@)),
        forall|t: Seq<char>| #[trigger]
            texts(final(list)@).contains(t) <==> texts(old(list)@).contains(t) || t == s@,
{
    let ghost before = texts(list@);
    let mut at: usize = 0;
    while at < list.len() && comes_before(list[at].as_str(), s.as_str())
        invariant
            at <= list.len(),
            texts(list@) == before,
            forall|j: int| 0 <= j < at ==> precedes(#[trigger] before[j], s@),
        decreases list.len() - at,
    {
        assert(before[at as int] == list@[at as int]@);
        at = at + 1;
    }
    if at < list.len() && text::same_text(list[at].as_str(), s.as_str()) {
        assert(before[at as int] == s@);
        return;
    }
    let ghost word = s@;
    list.insert(at, s);
    proof {
        let after = texts(list@);
        assert(after =~= before.insert(at as int, word));
        if at < before.len() {
            order_is_total(before[at as int], word);
        }
        assert forall|i: int, j: int| 0 <= i < j < after.len() implies precedes(
            #[trigger] after[i],
            #[trigger] after[j],
        ) by {
            if i < at && j == at {
            } else if i == at {
                if j - 1 > at {
                    order_is_transitive(word, before[at as int], before[j - 1]);
                }
            } else if i < at && j < at {
                assert(precedes(before[i], before[j]));
            } else if i < at {
                assert(precedes(before[i], before[j - 1]));
            } else {
                assert(precedes(before[i - 1], before[j - 1]));
            }
        }
        assert forall|t: Seq<char>| #[trigger] after.contains(t) <==> before.contains(t) || t
            == word by {
            if before.contains(t) {
                let k = choose|k: int| 0 <= k < before.len() && before[k] == t;
                if k < at {
                    assert(after[k] == t);
                } else {
                    assert(after[k + 1] == t);
                }
            }
            if t == word {
                assert(after[at as int] == t);
            }
            if after.contains(t) {
                let k = choose|k: int| 0 <= k < after.len() && after[k] == t;
                if k < at {
                    assert(before[k] == t);
                } else if k > at {
                    assert(before[k - 1] == t);
                }
            }
        }
    }
}

/// The locale that one file offers.
fn file_locale(name: &str) -> (r: Option<String>)
    ensures
        r is Some <==> locale_of_file(name@) is Some,
        r matches Some(s) ==> locale_of_file(name@) == Some(s@),
{
    let n: usize = name.unicode_len();
    if n <= 5 {
        return None;
    }
    let extension = name.substring_char(n - 5, n);
    assert(name@.skip(name@.len() - 5) =~= name@.subrange(n - 5, n as int));
    if text::same_text(extension, ".lang") {
        let stem = name.substring_char(0, n - 5).to_owned();
        assert(name@.take(name@.len() - 5) =~= name@.subrange(0, n - 5));
        Some(stem)
    } else {
        None
    }
}

impl Language {
    /// Lists the locales that a directory with these file names offers, in ascending order.
    pub fn available_locales(names: &Vec<String>) -> (r: Vec<String>)
        ensures
            is_ascending(texts(r@)),
            forall|t: Seq<char>| #[trigger]
                texts(r@).contains(t) <==> is_offered(texts(names@), names.len() as int, t),
    {
        let mut r: Vec<String> = Vec::new();
        let mut i: usize = 0;
        while i < names.len()
            invariant
                i <= names.len(),
                is_ascending(texts(r@)),
                forall|t: Seq<char>| #[trigger]
                    texts(r@).contains(t) <==> is_offered(texts(names@), i as int, t),
            decreases names.len() - i,
        {
            let ghost done = texts(r@);
            let ghost all = texts(names@);
            assert(all[i as int] == names@[i as int]@);
            match file_locale(names[i].as_str()) {
                Some(locale) => {
                    let ghost new = locale@;
                    insert_sorted(&mut r, locale);
                    assert forall|t: Seq<char>| #[trigger]
                        texts(r@).contains(t) <==> is_offered(all, i + 1, t) by {
                        lemma_offered_step(all, i as int, t);
                        assert(texts(r@).contains(t) <==> done.contains(t) || t == new);
                        assert(done.contains(t) <==> is_offered(all, i as int, t));
                    }
                },
                None => {
                    assert forall|t: Seq<char>| #[trigger]
                        texts(r@).contains(t) <==> is_offered(all, i + 1, t) by {
                        lemma_offered_step(all, i as int, t);
                    }
                },
            }
            i = i + 1;
        }
        r
    }
}

proof fn lemma_offered_step(names: Seq<Seq<char>>, n: int, locale: Seq<char>)
    requires
        0 <= n < names.len(),
    ensures
        is_offered(names, n + 1, locale) <==> is_offered(names, n, locale) || locale_of_file(
            names[n],
        ) == Some(locale),
{
    if is_offered(names, n + 1, locale) {
        let i = choose|i: int|
            0 <= i < n + 1 && locale_of_file(#[trigger] names[i]) == Some(locale);
        if i < n {
            assert(is_offered(names, n, locale));
        }
    }
    if is_offered(names, n, locale) {
        let i = choose|i: int| 0 <= i < n && locale_of_file(#[trigger] names[i]) == Some(locale);
        assert(0 <= i < n + 1);
    }
    if locale_of_file(names[n]) == Some(locale) {
        assert(is_offered(names, n + 1, locale));
    }
}

/// Ascending lists with the same members are the same list: the locales on offer do not
/// depend on the order in which the files are found.
pub proof fn ascending_lists_with_same_members_are_equal(a: Seq<Seq<char>>, b: Seq<Seq<char>>)
    requires
        is_ascending(a),
        is_ascending(b),
        forall|t: Seq<char>| #[trigger] a.contains(t) <==> b.contains(t),
    ensures
        a == b,
    decreases a.len(),
{
    if a.len() == 0 {
        if b.len() > 0 {
            assert(b.contains(b[0]));
            assert(a.contains(b[0]));
        }
        assert(a =~= b);
    } else {
        assert(a.contains(a.last()));
        assert(b.contains(a.last()));
        lemma_last_is_greatest(a, b);
        lemma_last_is_greatest(b, a);
        order_is_total(a.last(), b.last());
        if a.last() != b.last() {
            if precedes(a.last(), b.last()) {
                order_is_transitive(a.last(), b.last(), a.last());
                order_is_irreflexive(a.last());
            } else {
                order_is_transitive(b.last(), a.last(), b.last());
                order_is_irreflexive(b.last());
            }
        }
        let x = a.drop_last();
        let y = b.drop_last();
        assert forall|t: Seq<char>| #[trigger] x.contains(t) <==> y.contains(t) by {
            lemma_drop_greatest(a, t);
            lemma_drop_greatest(b, t);
            assert(a.contains(t) <==> b.contains(t));
        }
        assert(is_ascending(x));
        assert(is_ascending(y));
        ascending_lists_with_same_members_are_equal(x, y);
        assert(a =~= x.push(a.last()));
        assert(b =~= y.push(b.last()));
    }
}

/// The last of `b` is that of `a` or stands before it.
proof fn lemma_last_is_greatest(a: Seq<Seq<char>>, b: Seq<Seq<char>>)
    requires
        is_ascending(a),
        a.len() > 0,
        b.len() > 0,
        forall|t: Seq<char>| #[trigger] a.contains(t) <==> b.contains(t),
    ensures
        b.last() == a.last() || precedes(b.last(), a.last()),
{
    assert(b.contains(b.last()));
    assert(a.contains(b.last()));
    let k = choose|k: int| 0 <= k < a.len() && a[k] == b.last();
    if k < a.len() - 1 {
        assert(precedes(a[k], a[a.len() - 1]));
    }
}

proof fn lemma_drop_greatest(a: Seq<Seq<char>>, t: Seq<char>)
    requires
        is_ascending(a),
        a.len() > 0,
    ensures
        a.drop_last().contains(t) <==> a.contains(t) && t != a.last(),
{
    let x = a.drop_last();
    if x.contains(t) {
        let k = choose|k: int| 0 <= k < x.len() && x[k] == t;
        assert(a[k] == t);
        assert(precedes(a[k], a[a.len() - 1]));
        order_is_irreflexive(t);
    }
    if a.contains(t) && t != a.last() {
        let k = choose|k: int| 0 <= k < a.len() && a[k] == t;
        assert(x[k] == t);
    }
}

/// A file offers the locale `stem` exactly where its name is `stem` with `.lang` behind it, and
/// something stands before the extension.
pub proof fn file_offers_its_stem(name: Seq<char>, stem: Seq<char>)
    ensures
        locale_of_file(name) == Some(stem) <==> stem.len() > 0 && name == stem + ".lang"@,
{
    reveal_strlit(".lang");
    if locale_of_file(name) == Some(stem) {
        assert(name =~= name.take(name.len() - 5) + name.skip(name.len() - 5));
    }
    if stem.len() > 0 && name == stem + ".lang"@ {
        assert(name.skip(name.len() - 5) =~= ".lang"@);
        assert(name.take(name.len() - 5) =~= stem);
    }
}

/// After what two texts have in common the one that ends comes first, else the one with the
/// lesser character.
pub proof fn first_difference_decides(
    common: Seq<char>,
    x: char,
    y: char,
    a: Seq<char>,
    b: Seq<char>,
)
    ensures
        precedes(common, common + seq![y] + b),
        !precedes(common + seq![x] + a, common),
        x as u32 != y as u32 ==> (precedes(common + seq![x] + a, common + seq![y] + b) <==> (
        x as u32) < (y as u32)),
    decreases common.len(),
{
    let s = common + seq![x] + a;
    let t = common + seq![y] + b;
    if common.len() > 0 {
        let rest = common.drop_first();
        first_difference_decides(rest, x, y, a, b);
        assert(s.drop_first() =~= rest + seq![x] + a);
        assert(t.drop_first() =~= rest + seq![y] + b);
        assert(s[0] == common[0]);
        assert(t[0] == common[0]);
    } else {
        assert(s[0] == x);
        assert(t[0] == y);
    }
}

/// The locales on offer are those that the files offer: a list in ascending order has the stem
/// of every `*.lang` file once, and nothing else.
pub proof fn every_file_offers_its_locale(names: Seq<Seq<char>>, locale: Seq<char>)
    ensures
        is_offered(names, names.len() as int, locale) <==> locale.len() > 0 && names.contains(
            locale + ".lang"@,
        ),
{
    if is_offered(names, names.len() as int, locale) {
        let i = choose|i: int|
            0 <= i < names.len() && locale_of_file(#[trigger] names[i]) == Some(locale);
        file_offers_its_stem(names[i], locale);
    }
    if locale.len() > 0 && names.contains(locale + ".lang"@) {
        let i = choose|i: int| 0 <= i < names.len() && names[i] == locale + ".lang"@;
        file_offers_its_stem(names[i], locale);
    }
}

/// An ascending list never repeats a text.
pub proof fn ascending_list_has_no_repeats(v: Seq<Seq<char>>)
    requires
        is_ascending(v),
    ensures
        v.no_duplicates(),
{
    assert forall|i: int, j: int| 0 <= i < j < v.len() implies v[i] != v[j] by {
        order_is_irreflexive(v[i]);
        assert(precedes(v[i], v[j]));
    }
}

} // verus!
