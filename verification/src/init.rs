//! Selecting and laying out example katas.
//!
//! Example katas come as (language, kata name) pairs. The helpers here
//! order them, filter them, turn them into the lines the chooser shows,
//! match a comma-separated selection against those lines, and pick the
//! destination name for a kata that was selected more than once. Scanning
//! the example directories and copying files is the caller's side.

use vstd::prelude::*;

use crate::text::{
    contains_string,
    contains_sub,
    has_string,
    lemma_lex_le_antisym,
    lemma_lex_le_total,
    lemma_lex_le_trans,
    lex_le,
    split_char,
    split_spec,
    str_contains,
    str_eq,
    str_le,
    trim,
    trim_spec,
    views_of,
};

verus! {

use vstd::seq_lib::lemma_multiset_commutative;

/// Order on (language, kata) pairs: by kata name first, then by language.
pub open spec fn pair_le(a: (String, String), b: (String, String)) -> bool {
    if a.1@ == b.1@ {
        lex_le(a.0@, b.0@)
    } else {
        lex_le(a.1@, b.1@)
    }
}

/// Any two pairs are ordered.
proof fn lemma_pair_le_total(a: (String, String), b: (String, String))
    ensures
        pair_le(a, b) || pair_le(b, a),
{
    if a.1@ == b.1@ {
        lemma_lex_le_total(a.0@, b.0@);
    } else {
        lemma_lex_le_total(a.1@, b.1@);
    }
}

/// The order on pairs is transitive.
proof fn lemma_pair_le_trans(a: (String, String), b: (String, String), c: (String, String))
    requires
        pair_le(a, b),
        pair_le(b, c),
    ensures
        pair_le(a, c),
{
    if a.1@ == b.1@ && b.1@ == c.1@ {
        lemma_lex_le_trans(a.0@, b.0@, c.0@);
    } else if a.1@ != b.1@ && b.1@ != c.1@ {
        lemma_lex_le_trans(a.1@, b.1@, c.1@);
        if a.1@ == c.1@ {
            lemma_lex_le_antisym(a.1@, b.1@);
        }
    }
}

/// The pairs are ordered, kata name first, language second.
pub open spec fn pairs_sorted(s: Seq<(String, String)>) -> bool {
    forall|i: int, j: int| 0 <= i < j < s.len() ==> pair_le(#[trigger] s[i], #[trigger] s[j])
}

/// Inserting an element anywhere adds it to the multiset.
proof fn lemma_insert_to_multiset(s: Seq<(String, String)>, p: int, v: (String, String))
    requires
        0 <= p <= s.len(),
    ensures
        s.insert(p, v).to_multiset() == s.to_multiset().insert(v),
{
    broadcast use vstd::seq_lib::group_to_multiset_ensures;

    let l = s.subrange(0, p);
    let r = s.subrange(p, s.len() as int);
    assert(s =~= l + r);
    assert(s.insert(p, v) =~= l.push(v) + r);
    lemma_multiset_commutative(l, r);
    lemma_multiset_commutative(l.push(v), r);
    assert(l.push(v).to_multiset() =~= l.to_multiset().insert(v));
    assert forall|x: (String, String)|
        s.insert(p, v).to_multiset().count(x) == s.to_multiset().insert(v).count(x) by {
        assert(s.insert(p, v).to_multiset().count(x) == l.push(v).to_multiset().count(x)
            + r.to_multiset().count(x));
        assert(s.to_multiset().count(x) == l.to_multiset().count(x) + r.to_multiset().count(x));
    }
    assert(s.insert(p, v).to_multiset() =~= s.to_multiset().insert(v));
}

/// Decides the order on two pairs.
fn pair_le_exec(a: &(String, String), b: &(String, String)) -> (r: bool)
    ensures
        r == pair_le(*a, *b),
{
    if str_eq(a.1.as_str(), b.1.as_str()) {
        str_le(a.0.as_str(), b.0.as_str())
    } else {
        str_le(a.1.as_str(), b.1.as_str())
    }
}

/// Sorts (language, kata) pairs by kata name, then by language: the
/// result is ordered and holds exactly the given pairs.
pub fn sort_kata_pairs(katas: &Vec<(String, String)>) -> (r: Vec<(String, String)>)
    ensures
        pairs_sorted(r@),
        r@.to_multiset() == katas@.to_multiset(),
        r@.len() == katas@.len(),
{
    broadcast use vstd::seq_lib::group_to_multiset_ensures;

    let mut out: Vec<(String, String)> = Vec::new();
    let mut i: usize = 0;
    proof {
        assert(katas@.subrange(0, 0) =~= Seq::<(String, String)>::empty());
        assert(out@.to_multiset() =~= katas@.subrange(0, 0).to_multiset());
    }
    while i < katas.len()
        invariant
            0 <= i <= katas.len(),
            pairs_sorted(out@),
            out@.to_multiset() == katas@.subrange(0, i as int).to_multiset(),
            out@.len() == i,
        decreases katas.len() - i,
    {
        let x = (katas[i].0.clone(), katas[i].1.clone());
        assert(x == katas@[i as int]);
        let ghost out0 = out@;
        let mut p: usize = 0;
        while p < out.len() && pair_le_exec(&out[p], &x)
            invariant
                0 <= p <= out.len(),
                out@ == out0,
                forall|j: int| 0 <= j < p ==> pair_le(#[trigger] out@[j], x),
            decreases out.len() - p,
        {
            p = p + 1;
        }
        out.insert(p, x);
        proof {
            out0.insert_ensures(p as int, x);
            assert forall|a: int, b: int|
                0 <= a < b < out@.len() implies pair_le(out@[a], out@[b]) by {
                if p < out0.len() {
                    lemma_pair_le_total(out0[p as int], x);
                }
                if a < p && b < p {
                    assert(out@[a] == out0[a] && out@[b] == out0[b]);
                } else if a < p && b == p {
                    assert(out@[a] == out0[a] && out@[b] == x);
                } else if a < p && b > p {
                    assert(out@[a] == out0[a] && out@[b] == out0[b - 1]);
                } else if a == p && b > p {
                    assert(out@[a] == x && out@[b] == out0[b - 1]);
                    if p < out0.len() {
                        assert(pair_le(x, out0[p as int]));
                        if b - 1 > p {
                            assert(pair_le(out0[p as int], out0[b - 1]));
                            lemma_pair_le_trans(x, out0[p as int], out0[b - 1]);
                        }
                    }
                } else {
                    assert(a > p && b > p);
                    assert(out@[a] == out0[a - 1] && out@[b] == out0[b - 1]);
                }
            }
            lemma_insert_to_multiset(out0, p as int, x);
            let pre = katas@.subrange(0, i as int);
            pre.to_multiset_ensures();
            assert(pre.push(katas@[i as int]).to_multiset() =~= pre.to_multiset().insert(
                katas@[i as int],
            ));
            assert(katas@.subrange(0, i + 1) =~= pre.push(katas@[i as int]));
            assert(katas@.subrange(0, i + 1).to_multiset() == pre.push(
                katas@[i as int],
            ).to_multiset());
        }
        i = i + 1;
    }
    proof {
        assert(katas@.subrange(0, katas@.len() as int) =~= katas@);
    }
    out
}

/// The first pair carrying the kata name, if any: whether the name is one
/// of the example katas.
pub fn is_embedded_kata(katas: &Vec<(String, String)>, kata_name: &str) -> (r: Option<
    (String, String),
>)
    ensures
        r is Some <==> exists|i: int|
            0 <= i < katas@.len() && (#[trigger] katas@[i]).1@ == kata_name@,
        r matches Some(p) ==> exists|i: int|
            0 <= i < katas@.len() && #[trigger] katas@[i] == p && p.1@ == kata_name@ && forall|
                j: int,
            | 0 <= j < i ==> (#[trigger] katas@[j]).1@ != kata_name@,
{
    let mut i: usize = 0;
    while i < katas.len()
        invariant
            0 <= i <= katas.len(),
            forall|j: int| 0 <= j < i ==> (#[trigger] katas@[j]).1@ != kata_name@,
        decreases katas.len() - i,
    {
        if str_eq(katas[i].1.as_str(), kata_name) {
            let p = (katas[i].0.clone(), katas[i].1.clone());
            assert(p == katas@[i as int]);
            return Some(p);
        }
        i = i + 1;
    }
    None
}

/// The katas of one language, in order.
pub open spec fn katas_of_language(pairs: Seq<(String, String)>, lang: Seq<char>) -> Seq<String>
    decreases pairs.len(),
{
    if pairs.len() == 0 {
        Seq::<String>::empty()
    } else {
        let rest = katas_of_language(pairs.drop_last(), lang);
        if pairs.last().0@ == lang {
            rest.push(pairs.last().1)
        } else {
            rest
        }
    }
}

/// The kata names of the pairs whose language is the given one, in order.
pub fn filter_katas_by_language(all_katas: &Vec<(String, String)>, language: &str) -> (r: Vec<
    String,
>)
    ensures
        r@ == katas_of_language(all_katas@, language@),
{
    let mut r: Vec<String> = Vec::new();
    let mut i: usize = 0;
    proof {
        assert(all_katas@.subrange(0, 0) =~= Seq::<(String, String)>::empty());
    }
    while i < all_katas.len()
        invariant
            0 <= i <= all_katas.len(),
            r@ == katas_of_language(all_katas@.subrange(0, i as int), language@),
        decreases all_katas.len() - i,
    {
        proof {
            let ext = all_katas@.subrange(0, i + 1);
            assert(ext.drop_last() =~= all_katas@.subrange(0, i as int));
            assert(ext.last() == all_katas@[i as int]);
        }
        if str_eq(all_katas[i].0.as_str(), language) {
            r.push(all_katas[i].1.clone());
        }
        i = i + 1;
    }
    proof {
        assert(all_katas@.subrange(0, all_katas@.len() as int) =~= all_katas@);
    }
    r
}

/// Some pair carries this language.
pub open spec fn is_language_of(katas: Seq<(String, String)>, s: Seq<char>) -> bool {
    exists|k: int| 0 <= k < katas.len() && (#[trigger] katas[k]).0@ == s
}

/// The languages occurring among the pairs, each once, in order.
pub fn get_available_languages(katas: &Vec<(String, String)>) -> (r: Vec<String>)
    ensures
        forall|a: int, b: int|
            0 <= a < b < r@.len() ==> lex_le(#[trigger] r@[a]@, #[trigger] r@[b]@) && r@[a]@
                != r@[b]@,
        forall|j: int| 0 <= j < r@.len() ==> is_language_of(katas@, (#[trigger] r@[j])@),
        forall|k: int|
            0 <= k < katas@.len() ==> has_string(r@, (#[trigger] katas@[k]).0@),
{
    let mut out: Vec<String> = Vec::new();
    let mut i: usize = 0;
    while i < katas.len()
        invariant
            0 <= i <= katas.len(),
            forall|a: int, b: int|
                0 <= a < b < out@.len() ==> lex_le(#[trigger] out@[a]@, #[trigger] out@[b]@)
                    && out@[a]@ != out@[b]@,
            forall|j: int| 0 <= j < out@.len() ==> is_language_of(katas@, (#[trigger] out@[j])@),
            forall|k: int| 0 <= k < i ==> has_string(out@, (#[trigger] katas@[k]).0@),
        decreases katas.len() - i,
    {
        let lang: &String = &katas[i].0;
        let ghost out0 = out@;
        let mut p: usize = 0;
        let mut seen = false;
        while p < out.len() && !seen && str_le(out[p].as_str(), lang.as_str())
            invariant
                0 <= p <= out.len(),
                out@ == out0,
                !seen ==> forall|j: int|
                    0 <= j < p ==> lex_le(#[trigger] out@[j]@, lang@) && out@[j]@ != lang@,
                seen ==> p < out.len() && out@[p as int]@ == lang@,
            decreases out.len() - p + (if seen {
                0int
            } else {
                1int
            }),
        {
            if str_eq(out[p].as_str(), lang.as_str()) {
                seen = true;
            } else {
                proof {
                    lemma_lex_le_total(out@[p as int]@, lang@);
                }
                p = p + 1;
            }
        }
        if !seen {
            proof {
                out0.insert_ensures(p as int, *lang);
                if p < out0.len() {
                    lemma_lex_le_total(out0[p as int]@, lang@);
                }
            }
            out.insert(p, lang.clone());
            proof {
                let cur = out@;
                assert(cur == out0.insert(p as int, *lang));
                assert forall|a: int, b: int|
                    0 <= a < b < cur.len() implies lex_le(cur[a]@, cur[b]@) && cur[a]@
                    != cur[b]@ by {
                    if a < p && b < p {
                        assert(cur[a] == out0[a] && cur[b] == out0[b]);
                    } else if a < p && b == p {
                        assert(cur[a] == out0[a] && cur[b]@ == lang@);
                    } else if a < p && b > p {
                        assert(cur[a] == out0[a] && cur[b] == out0[b - 1]);
                    } else if a == p && b > p {
                        assert(cur[a]@ == lang@ && cur[b] == out0[b - 1]);
                        assert(lex_le(lang@, out0[p as int]@));
                        if b - 1 > p {
                            lemma_lex_le_trans(lang@, out0[p as int]@, out0[b - 1]@);
                            if lang@ == out0[b - 1]@ {
                                lemma_lex_le_antisym(lang@, out0[p as int]@);
                            }
                        }
                    } else {
                        assert(a > p && b > p);
                        assert(cur[a] == out0[a - 1] && cur[b] == out0[b - 1]);
                    }
                }
                assert forall|j: int|
                    0 <= j < cur.len() implies is_language_of(katas@, (#[trigger] cur[j])@) by {
                    if j == p {
                        assert((#[trigger] katas@[i as int]).0@ == cur[j]@);
                    } else if j < p {
                        assert(cur[j] == out0[j]);
                    } else {
                        assert(cur[j] == out0[j - 1]);
                    }
                }
                assert forall|k: int| 0 <= k < i + 1 implies has_string(
                    out@,
                    (#[trigger] katas@[k]).0@,
                ) by {
                    if k < i {
                        let w = choose|j: int| 0 <= j < out0.len() && #[trigger] out0[j]@
                            == katas@[k].0@;
                        if w < p {
                            assert(out@[w]@ == katas@[k].0@);
                        } else {
                            assert(out@[w + 1]@ == katas@[k].0@);
                        }
                    } else {
                        assert(out@[p as int]@ == katas@[k].0@);
                    }
                }
            }
        } else {
            proof {
                assert forall|k: int| 0 <= k < i + 1 implies has_string(
                    out@,
                    (#[trigger] katas@[k]).0@,
                ) by {
                    if k == i {
                        assert(out@[p as int]@ == katas@[k].0@);
                    }
                }
            }
        }
        i = i + 1;
    }
    out
}

/// The line the chooser shows for one pair.
pub open spec fn option_line(lang: Seq<char>, kata: Seq<char>) -> Seq<char> {
    "["@ + lang + "] "@ + kata
}

/// Builds the line the chooser shows for one pair.
pub fn format_option(language: &str, kata: &str) -> (r: String)
    ensures
        r@ == option_line(language@, kata@),
{
    let mut r = String::from_str("[");
    r.append(language);
    r.append("] ");
    r.append(kata);
    proof {
        assert(r@ =~= option_line(language@, kata@));
    }
    r
}

/// The comma-separated pieces of a selection, each trimmed.
pub open spec fn selection_names(select: Seq<char>) -> Seq<Seq<char>> {
    split_spec(select, ',').map_values(|p: Seq<char>| trim_spec(p))
}

/// The line matches the selection: it contains one of its names.
pub open spec fn line_selected(line: Seq<char>, names: Seq<Seq<char>>) -> bool {
    exists|k: int| 0 <= k < names.len() && contains_sub(line, #[trigger] names[k])
}

/// The indices of the lines that the selection names, in increasing
/// order: a line counts as selected when it contains one of the
/// comma-separated, trimmed pieces of `select`.
pub fn select_indices(options: &Vec<String>, select: &str) -> (r: Vec<usize>)
    ensures
        forall|a: int, b: int| 0 <= a < b < r@.len() ==> r@[a] < r@[b],
        forall|j: int|
            0 <= j < r@.len() ==> #[trigger] r@[j] < options@.len() && line_selected(
                options@[r@[j] as int]@,
                selection_names(select@),
            ),
        forall|i: int|
            0 <= i < options@.len() && line_selected(#[trigger] options@[i]@, selection_names(select@))
                ==> r@.contains(i as usize),
{
    let ghost names = selection_names(select@);
    let raw = split_char(select, ',');
    let mut trimmed: Vec<String> = Vec::new();
    let mut t: usize = 0;
    proof {
        assert(views_of(trimmed@) =~= views_of(raw@).subrange(0, 0).map_values(
            |p: Seq<char>| trim_spec(p),
        ));
    }
    while t < raw.len()
        invariant
            0 <= t <= raw.len(),
            views_of(raw@) == split_spec(select@, ','),
            views_of(trimmed@) == views_of(raw@).subrange(0, t as int).map_values(
                |p: Seq<char>| trim_spec(p),
            ),
        decreases raw.len() - t,
    {
        let ghost tr0 = trimmed@;
        trimmed.push(trim(raw[t].as_str()));
        proof {
            let f = |p: Seq<char>| trim_spec(p);
            let ext = views_of(raw@).subrange(0, t + 1);
            let mapped = ext.map_values(f);
            assert(views_of(tr0).len() == t as int);
            assert(tr0.len() == t as int);
            assert(views_of(trimmed@).len() == t + 1);
            assert(mapped.len() == t + 1);
            assert forall|j: int| 0 <= j < t + 1 implies views_of(trimmed@)[j] == mapped[j] by {
                assert(views_of(trimmed@)[j] == trimmed@[j]@);
                assert(mapped[j] == f(ext[j]));
                assert(ext[j] == views_of(raw@)[j]);
                if j < t {
                    assert(trimmed@[j] == tr0[j]);
                    assert(tr0[j]@ == views_of(tr0)[j]);
                } else {
                    assert(trimmed@[j]@ == trim_spec(views_of(raw@)[j]));
                }
            }
            assert(views_of(trimmed@) =~= mapped);
        }
        t = t + 1;
    }
    proof {
        assert(views_of(raw@).subrange(0, views_of(raw@).len() as int) =~= views_of(raw@));
        assert(views_of(trimmed@) == names);
    }
    let mut r: Vec<usize> = Vec::new();
    let mut i: usize = 0;
    while i < options.len()
        invariant
            0 <= i <= options.len(),
            views_of(trimmed@) == names,
            forall|a: int, b: int| 0 <= a < b < r@.len() ==> r@[a] < r@[b],
            forall|j: int| 0 <= j < r@.len() ==> #[trigger] r@[j] < i,
            forall|j: int|
                0 <= j < r@.len() ==> #[trigger] r@[j] < options@.len() && line_selected(
                    options@[r@[j] as int]@,
                    names,
                ),
            forall|k: int|
                0 <= k < i && line_selected(#[trigger] options@[k]@, names) ==> r@.contains(
                    k as usize,
                ),
        decreases options.len() - i,
    {
        let ghost r0 = r@;
        let mut hit = false;
        let mut k: usize = 0;
        while k < trimmed.len() && !hit
            invariant
                0 <= k <= trimmed.len(),
                views_of(trimmed@) == names,
                i < options@.len(),
                hit ==> line_selected(options@[i as int]@, names),
                !hit ==> forall|m: int|
                    0 <= m < k ==> !contains_sub(options@[i as int]@, #[trigger] names[m]),
            decreases trimmed.len() - k + (if hit {
                0int
            } else {
                1int
            }),
        {
            if str_contains(options[i].as_str(), trimmed[k].as_str()) {
                assert(contains_sub(options@[i as int]@, names[k as int]));
                hit = true;
            } else {
                k = k + 1;
            }
        }
        if hit {
            r.push(i);
            proof {
                assert forall|a: int, b: int| 0 <= a < b < r@.len() implies r@[a] < r@[b] by {
                    if b < r0.len() {
                        assert(r@[a] == r0[a] && r@[b] == r0[b]);
                    } else {
                        assert(r@[b] == i as usize);
                        assert(r@[a] == r0[a]);
                    }
                }
            }
        } else {
            assert(!line_selected(options@[i as int]@, names));
        }
        proof {
            assert forall|k2: int|
                0 <= k2 < i + 1 && line_selected(#[trigger] options@[k2]@, names) implies r@.contains(
                k2 as usize,
            ) by {
                if k2 < i {
                    let w = choose|j: int| 0 <= j < r0.len() && r0[j] == k2 as usize;
                    assert(r@[w] == k2 as usize);
                } else {
                    assert(r@[r@.len() - 1] == k2 as usize);
                }
            }
        }
        i = i + 1;
    }
    r
}

/// The destination name a selection gets: a kata name already used gets
/// the language put in front.
pub open spec fn dest_name_spec(seen: Seq<String>, lang: Seq<char>, kata: Seq<char>) -> Seq<char> {
    if has_string(seen, kata) {
        lang + "_"@ + kata
    } else {
        kata
    }
}

/// The destination name for a selected kata: a name already used gets the
/// language put in front.
pub fn init_dest_name(seen_names: &Vec<String>, language: &str, kata_name: &str) -> (r: String)
    ensures
        r@ == dest_name_spec(seen_names@, language@, kata_name@),
{
    if contains_string(seen_names, kata_name) {
        let mut r = String::from_str(language);
        r.append("_");
        r.append(kata_name);
        proof {
            assert(r@ =~= language@ + "_"@ + kata_name@);
        }
        r
    } else {
        String::from_str(kata_name)
    }
}

/// One selection of the init run: what happens for one chosen
/// (language, kata) pair.
pub enum InitStep {
    /// The destination already exists: print the note, copy nothing, and
    /// go on with the next selection.
    SkipExisting { message: String },
    /// Copy the kata to the destination name; print the note first when
    /// the name was already used, and the message once the copy is done.
    CopyTo { dest_name: String, note: Option<String>, copied_message: String },
}

/// Decides one selection: a kata whose destination exists is skipped with
/// a note; any other is copied under its destination name, with a rename
/// note when the plain name was already taken.
pub fn init_step(
    seen_names: &Vec<String>,
    language: &str,
    kata_name: &str,
    katas_path: &str,
    dest_exists: bool,
) -> (r: InitStep)
    ensures
        r is SkipExisting <==> dest_exists,
        r is CopyTo <==> !dest_exists,
        r matches InitStep::SkipExisting { message } ==> message@ == "Note: "@ + dest_name_spec(
            seen_names@,
            language@,
            kata_name@,
        ) + " already exists, skipping ["@ + language@ + "] "@ + kata_name@,
        r matches InitStep::CopyTo { dest_name, note, copied_message } ==> {
            &&& dest_name@ == dest_name_spec(seen_names@, language@, kata_name@)
            &&& (note is Some <==> has_string(seen_names@, kata_name@))
            &&& (note matches Some(n) ==> n@ == "Note: "@ + kata_name@
                + " was already selected, creating ["@ + language@ + "] "@ + kata_name@ + " as "@
                + dest_name_spec(seen_names@, language@, kata_name@))
            &&& copied_message@ == "Copied ["@ + language@ + "] "@ + kata_name@ + " to "@
                + katas_path@ + "/"@ + dest_name_spec(seen_names@, language@, kata_name@)
        },
{
    let dest_name = init_dest_name(seen_names, language, kata_name);
    if dest_exists {
        let mut message = String::from_str("Note: ");
        message.append(dest_name.as_str());
        message.append(" already exists, skipping [");
        message.append(language);
        message.append("] ");
        message.append(kata_name);
        proof {
            assert(message@ =~= "Note: "@ + dest_name_spec(seen_names@, language@, kata_name@)
                + " already exists, skipping ["@ + language@ + "] "@ + kata_name@);
        }
        return InitStep::SkipExisting { message };
    }
    let note = if contains_string(seen_names, kata_name) {
        let mut n = String::from_str("Note: ");
        n.append(kata_name);
        n.append(" was already selected, creating [");
        n.append(language);
        n.append("] ");
        n.append(kata_name);
        n.append(" as ");
        n.append(dest_name.as_str());
        proof {
            assert(n@ =~= "Note: "@ + kata_name@ + " was already selected, creating ["@ + language@
                + "] "@ + kata_name@ + " as "@ + dest_name_spec(seen_names@, language@, kata_name@));
        }
        Some(n)
    } else {
        None
    };
    let mut copied_message = String::from_str("Copied [");
    copied_message.append(language);
    copied_message.append("] ");
    copied_message.append(kata_name);
    copied_message.append(" to ");
    copied_message.append(katas_path);
    copied_message.append("/");
    copied_message.append(dest_name.as_str());
    proof {
        assert(copied_message@ =~= "Copied ["@ + language@ + "] "@ + kata_name@ + " to "@
            + katas_path@ + "/"@ + dest_name_spec(seen_names@, language@, kata_name@));
    }
    InitStep::CopyTo { dest_name, note, copied_message }
}

/// The line printed after the copies: how many katas were set up.
pub fn init_summary_message(copied_count: u32) -> (r: String)
    ensures
        r@ == "\nSuccessfully initialized "@ + crate::text::dec_rep(copied_count as nat)
            + " kata(s)!"@,
{
    let mut r = String::from_str("\nSuccessfully initialized ");
    r.append(crate::text::u32_to_string(copied_count).as_str());
    r.append(" kata(s)!");
    proof {
        assert(r@ =~= "\nSuccessfully initialized "@ + crate::text::dec_rep(copied_count as nat)
            + " kata(s)!"@);
    }
    r
}

} // verus!
