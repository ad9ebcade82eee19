//! Layout templates and the slot names their bodies mark.
use vstd::prelude::*;

use crate::manifest::{spec_editable_paths, spec_template_definitions, strs_of, template_definitions};
use crate::order::{insert_sorted_string, lemma_sorted_set, sorted_set, strictly_sorted, strings_view};
use crate::text::{chars_of, string_from_chars};
use crate::types::SlideTemplate;

verus! {

/// Whether `t` occurs in `s` starting at `i`.
pub open spec fn occurs_at(s: Seq<char>, t: Seq<char>, i: int) -> bool {
    0 <= i && i + t.len() <= s.len() && s.subrange(i, i + t.len()) == t
}

/// The first position at or after `i` where `t` occurs in `s`.
pub open spec fn find_from(s: Seq<char>, t: Seq<char>, i: int) -> Option<int>
    decreases s.len() + 1 - i,
{
    if i < 0 || i + t.len() > s.len() {
        None
    } else if occurs_at(s, t, i) {
        Some(i)
    } else {
        find_from(s, t, i + 1)
    }
}

pub proof fn lemma_find_from(s: Seq<char>, t: Seq<char>, i: int)
    requires
        0 <= i,
    ensures
        match find_from(s, t, i) {
            Some(k) => i <= k && k + t.len() <= s.len() && occurs_at(s, t, k) && forall|m: int|
                i <= m < k ==> !occurs_at(s, t, m),
            None => forall|m: int| i <= m ==> !occurs_at(s, t, m),
        },
    decreases s.len() + 1 - i,
{
    if i + t.len() > s.len() {
    } else if occurs_at(s, t, i) {
    } else {
        lemma_find_from(s, t, i + 1);
    }
}

/// The marker that opens a slot name in a template body.
pub open spec fn slot_marker() -> Seq<char> {
    seq!['d', 'a', 't', 'a', '-', 's', 'l', 'o', 't', '=', '"']
}

/// The slot names a template body marks from position `pos` on, in order
/// of appearance: each is the text between the marker and the next `"`.
pub open spec fn slot_scan(s: Seq<char>, pos: int) -> Seq<Seq<char>>
    decreases s.len() - pos,
{
    if pos < 0 || pos > s.len() {
        Seq::empty()
    } else {
        match find_from(s, slot_marker(), pos) {
            None => Seq::empty(),
            Some(i) => {
                let start = i + slot_marker().len();
                match find_from(s, seq!['"'], start) {
                    None => Seq::empty(),
                    Some(j) => {
                        proof {
                            lemma_find_from(s, slot_marker(), pos);
                            lemma_find_from(s, seq!['"'], start);
                        }
                        seq![s.subrange(start, j)] + slot_scan(s, j + 1)
                    },
                }
            },
        }
    }
}

/// Finds the first occurrence of `t` in `s` at or after `start`.
pub fn find_chars(s: &Vec<char>, t: &Vec<char>, start: usize) -> (r: Option<usize>)
    ensures
        match r {
            Some(k) => find_from(s@, t@, start as int) == Some(k as int),
            None => find_from(s@, t@, start as int) is None,
        },
{
    let n = s.len();
    let mut i: usize = start;
    while i <= n && t.len() <= n - i
        invariant
            n == s@.len(),
            start <= i,
            find_from(s@, t@, start as int) == find_from(s@, t@, i as int),
        decreases s@.len() + 1 - i,
    {
        let mut k: usize = 0;
        while k < t.len()
            invariant_except_break
                n == s@.len(),
                i + t@.len() <= s@.len(),
                k <= t@.len(),
                forall|m: int| 0 <= m < k ==> s@[i + m] == t@[m],
            ensures
                k <= t@.len(),
                forall|m: int| 0 <= m < k ==> s@[i + m] == t@[m],
                k < t@.len() ==> s@[i + k] != t@[k as int],
            decreases t@.len() - k,
        {
            assert(i + k < s@.len());
            let idx: usize = i + k;
            if s[idx] != t[k] {
                break;
            }
            k = k + 1;
        }
        if k == t.len() {
            assert(s@.subrange(i as int, i + t@.len()) =~= t@);
            return Some(i);
        }
        assert(s@.subrange(i as int, i + t@.len())[k as int] != t@[k as int]);
        i = i + 1;
    }
    None
}

/// The slot names a template body marks, sorted and without repeats.
pub open spec fn spec_slot_names(body: Seq<char>) -> Seq<Seq<char>> {
    sorted_set(slot_scan(body, 0).to_set())
}

/// The slot names a template body marks, sorted and without repeats.
pub fn collect_slot_names(template_body: &str) -> (r: Vec<String>)
    ensures
        strictly_sorted(strings_view(r@)),
        strings_view(r@).to_set() == slot_scan(template_body@, 0).to_set(),
        strings_view(r@) == spec_slot_names(template_body@),
{
    let s = chars_of(template_body);
    let needle: Vec<char> = vec!['d', 'a', 't', 'a', '-', 's', 'l', 'o', 't', '=', '"'];
    let quote: Vec<char> = vec!['"'];
    assert(needle@ =~= slot_marker());
    assert(quote@ =~= seq!['"']);
    let mut names: Vec<String> = Vec::new();
    let mut cursor: usize = 0;
    proof {
        assert(strings_view(names@) =~= Seq::<Seq<char>>::empty());
        assert(strings_view(names@).to_set() =~= Set::empty());
    }
    while cursor <= s.len()
        invariant
            s@ == template_body@,
            needle@ == slot_marker(),
            quote@ == seq!['"'],
            strictly_sorted(strings_view(names@)),
            strings_view(names@).to_set() + slot_scan(s@, cursor as int).to_set() == slot_scan(
                s@,
                0,
            ).to_set(),
        ensures
            strictly_sorted(strings_view(names@)),
            strings_view(names@).to_set() == slot_scan(s@, 0).to_set(),
        decreases s@.len() + 1 - cursor,
    {
        let ghost before = strings_view(names@).to_set();
        let ghost rest = slot_scan(s@, cursor as int);
        let start_idx = match find_chars(&s, &needle, cursor) {
            Some(i) => i,
            None => {
                assert(rest.to_set() =~= Set::empty());
                assert(before + rest.to_set() =~= before);
                break;
            },
        };
        proof {
            lemma_find_from(s@, needle@, cursor as int);
        }
        let after = start_idx + needle.len();
        let end_idx = match find_chars(&s, &quote, after) {
            Some(j) => j,
            None => {
                assert(rest.to_set() =~= Set::empty());
                assert(before + rest.to_set() =~= before);
                break;
            },
        };
        proof {
            lemma_find_from(s@, quote@, after as int);
        }
        let name = string_from_chars(&s.as_slice()[after..end_idx]);
        let ghost nm = s@.subrange(after as int, end_idx as int);
        assert(name@ == nm);
        let ghost tail = slot_scan(s@, end_idx + 1);
        assert(rest == seq![nm] + tail);
        insert_sorted_string(&mut names, name);
        assert((seq![nm] + tail).to_set() =~= tail.to_set().insert(nm)) by {
            assert forall|y: Seq<char>| (seq![nm] + tail).contains(y) <==> tail.to_set().insert(nm).contains(y) by {
                if (seq![nm] + tail).contains(y) {
                    let k = choose|k: int| 0 <= k < (seq![nm] + tail).len() && (seq![nm] + tail)[k] == y;
                    if k > 0 {
                        assert(tail[k - 1] == y);
                    }
                }
                if tail.contains(y) {
                    let k = choose|k: int| 0 <= k < tail.len() && tail[k] == y;
                    assert((seq![nm] + tail)[k + 1] == y);
                }
                if y == nm {
                    assert((seq![nm] + tail)[0] == y);
                }
            }
        }
        assert(strings_view(names@).to_set() + tail.to_set() =~= before + rest.to_set());
        cursor = end_idx + 1;
    }
    proof {
        if cursor > s@.len() {
            assert(slot_scan(s@, cursor as int).to_set() =~= Set::empty());
        }
        lemma_sorted_set(strings_view(names@));
    }
    names
}

/// The registry entry of each layout template: the template with the slot
/// names its body marks, in the order of the definitions (sorted by layout).
pub open spec fn registry_matches(r: Seq<(&'static str, SlideTemplate)>) -> bool {
    let defs = spec_template_definitions();
    &&& r.len() == defs.len()
    &&& forall|i: int|
        0 <= i < r.len() ==> {
            &&& (#[trigger] r[i]).0@ == defs[i].0
            &&& r[i].1.body@ == defs[i].1
            &&& strings_view(r[i].1.slot_names@) == spec_slot_names(defs[i].1)
        }
}

/// Each layout's template with the slot names its body marks.
pub fn template_registry() -> (r: Vec<(&'static str, SlideTemplate)>)
    ensures
        registry_matches(r@),
{
    let defs = template_definitions();
    let mut r: Vec<(&'static str, SlideTemplate)> = Vec::new();
    let mut i: usize = 0;
    while i < defs.len()
        invariant
            i <= defs@.len(),
            defs@.map_values(|t: crate::manifest::TemplateDefinition| (t.layout@, t.body@))
                == spec_template_definitions(),
            r@.len() == i,
            forall|k: int|
                0 <= k < i ==> {
                    &&& (#[trigger] r@[k]).0@ == spec_template_definitions()[k].0
                    &&& r@[k].1.body@ == spec_template_definitions()[k].1
                    &&& strings_view(r@[k].1.slot_names@) == spec_slot_names(
                        spec_template_definitions()[k].1,
                    )
                },
        decreases defs@.len() - i,
    {
        let entry = &defs[i];
        assert(spec_template_definitions()[i as int] == (entry.layout@, entry.body@));
        let names = collect_slot_names(entry.body);
        r.push((entry.layout, SlideTemplate { body: entry.body, slot_names: names }));
        i = i + 1;
    }
    r
}

/// Every editable path the templates declare, sorted and without repeats.
pub fn all_editable_paths() -> (r: Vec<&'static str>)
    ensures
        strictly_sorted(strs_of(r@)),
        strs_of(r@).to_set() == spec_editable_paths().to_set(),
{
    crate::operations::all_editable_paths()
}

/// Whether `path` is an editable path.
pub fn supports_path(path: &str) -> (r: bool)
    ensures
        r == spec_editable_paths().contains(path@),
{
    crate::operations::supports_path(path)
}

} // verus!
