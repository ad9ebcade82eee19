//! Introspection of the editable paths and the operations on them.
use vstd::prelude::*;

use crate::manifest::{
    ops_view, spec_editable_paths, spec_operation_specs, strs_of, template_editable_paths,
    template_operation_specs, OpSpecV, TemplateOperationSpec,
};
use crate::order::{insert_sorted, lemma_sorted_set, sorted_set, strictly_sorted};
use crate::schema::{replace_first, replace_first_exec};
use crate::text::{concat3, decimal, push_decimal, push_str, str_eq, to_string};
use crate::types::{OperationExample, OperationExplanation, OperationSpec, OperationSpecV};

verus! {

/// Every editable path the templates declare, sorted and without repeats.
pub fn all_editable_paths() -> (r: Vec<&'static str>)
    ensures
        strictly_sorted(strs_of(r@)),
        strs_of(r@).to_set() == spec_editable_paths().to_set(),
{
    let table = template_editable_paths();
    let ghost t = strs_of(table@);
    let mut r: Vec<&'static str> = Vec::new();
    let mut i: usize = 0;
    proof {
        assert(strs_of(r@) =~= Seq::<Seq<char>>::empty());
        assert(t.take(0).to_set() =~= Set::empty());
        assert(strs_of(r@).to_set() =~= Set::empty());
    }
    while i < table.len()
        invariant
            i <= table@.len(),
            t == strs_of(table@),
            t == spec_editable_paths(),
            strictly_sorted(strs_of(r@)),
            strs_of(r@).to_set() == t.take(i as int).to_set(),
        decreases table@.len() - i,
    {
        insert_sorted(&mut r, table[i]);
        assert(t.take(i + 1) =~= t.take(i as int).push(t[i as int]));
        assert(t.take(i + 1).to_set() =~= t.take(i as int).to_set().insert(t[i as int])) by {
            t.take(i as int).lemma_push_to_set_commute(t[i as int]);
        }
        i = i + 1;
    }
    assert(t.take(i as int) =~= t);
    r
}

/// Whether `path` is an editable path.
pub fn supports_path(path: &str) -> (r: bool)
    ensures
        r == spec_editable_paths().contains(path@),
{
    let paths = all_editable_paths();
    let ghost ps = strs_of(paths@);
    let mut i: usize = 0;
    while i < paths.len()
        invariant
            i <= paths@.len(),
            ps == strs_of(paths@),
            ps.to_set() == spec_editable_paths().to_set(),
            forall|j: int| 0 <= j < i ==> ps[j] != path@,
        decreases paths@.len() - i,
    {
        if str_eq(paths[i], path) {
            assert(ps[i as int] == path@);
            assert(ps.contains(path@));
            assert(ps.to_set().contains(path@));
            assert(spec_editable_paths().to_set().contains(path@));
            return true;
        }
        i = i + 1;
    }
    proof {
        if spec_editable_paths().contains(path@) {
            assert(spec_editable_paths().to_set().contains(path@));
            assert(ps.to_set().contains(path@));
            let k = choose|k: int| 0 <= k < ps.len() && ps[k] == path@;
        }
    }
    false
}

/// The operations the templates declare for `path`, in manifest order.
pub open spec fn ops_for(ops: Seq<OpSpecV>, path: Seq<char>) -> Seq<OpSpecV>
    decreases ops.len(),
{
    if ops.len() == 0 {
        Seq::empty()
    } else {
        let r = ops_for(ops.drop_last(), path);
        if ops.last().path == path {
            r.push(ops.last())
        } else {
            r
        }
    }
}

/// A manifest operation as offered for a wildcard path.
pub open spec fn offered(o: OpSpecV) -> OperationSpecV {
    OperationSpecV {
        path: None,
        name: o.name,
        description: o.description,
        params: o.params,
        bounds: o.bounds,
    }
}

pub open spec fn spec_operation_specs_for(path: Seq<char>) -> Seq<OperationSpecV> {
    ops_for(spec_operation_specs(), path).map_values(|o: OpSpecV| offered(o))
}

fn offered_exec(o: &TemplateOperationSpec) -> (r: OperationSpec)
    ensures
        r@ == offered(o@),
{
    let params = o.params.clone();
    assert(params@ == o.params@);
    OperationSpec {
        path: None,
        name: o.name,
        description: o.description,
        params: params,
        bounds: o.bounds,
    }
}

/// The operations on `path`; `None` when the path has none.
pub fn operation_specs_for(path: &str) -> (r: Option<Vec<OperationSpec>>)
    ensures
        match r {
            Some(v) => v@.map_values(|o: OperationSpec| o@) == spec_operation_specs_for(path@)
                && v@.len() > 0,
            None => spec_operation_specs_for(path@).len() == 0,
        },
{
    let table = template_operation_specs();
    let ghost t = ops_view(table@);
    let mut out: Vec<OperationSpec> = Vec::new();
    let mut i: usize = 0;
    proof {
        assert(t.take(0) =~= Seq::<OpSpecV>::empty());
        assert(out@.map_values(|o: OperationSpec| o@) =~= ops_for(t.take(0), path@).map_values(
            |o: OpSpecV| offered(o),
        ));
    }
    while i < table.len()
        invariant
            i <= table@.len(),
            t == ops_view(table@),
            t == spec_operation_specs(),
            out@.map_values(|o: OperationSpec| o@) == ops_for(t.take(i as int), path@).map_values(
                |o: OpSpecV| offered(o),
            ),
        decreases table@.len() - i,
    {
        assert(t.take(i + 1).drop_last() =~= t.take(i as int));
        assert(t.take(i + 1).last() == table@[i as int]@);
        let ghost before = out@;
        if str_eq(table[i].path, path) {
            out.push(offered_exec(&table[i]));
            assert(out@.map_values(|o: OperationSpec| o@) =~= before.map_values(
                |o: OperationSpec| o@,
            ).push(offered(table@[i as int]@)));
        }
        assert(out@.map_values(|o: OperationSpec| o@) =~= ops_for(t.take(i + 1), path@).map_values(
            |o: OpSpecV| offered(o),
        ));
        i = i + 1;
    }
    assert(t.take(i as int) =~= t);
    if out.len() == 0 {
        None
    } else {
        Some(out)
    }
}

pub open spec fn unsupported_path(path: Seq<char>) -> Seq<char> {
    "Unsupported editable path: "@ + path
}

pub open spec fn unsupported_operation(path: Seq<char>, operation: Seq<char>) -> Seq<char> {
    "Unsupported operation '"@ + operation + "' for path '"@ + path + "'"@
}

fn unsupported_operation_msg(path: &str, operation: &str) -> (r: String)
    ensures
        r@ == unsupported_operation(path@, operation@),
{
    let mut m = concat3("Unsupported operation '", operation, "' for path '");
    push_str(&mut m, path);
    push_str(&mut m, "'");
    m
}

/// The index of the first operation named `name`, or -1.
pub open spec fn first_named(ops: Seq<OperationSpecV>, name: Seq<char>) -> int
    decreases ops.len(),
{
    if ops.len() == 0 {
        -1
    } else {
        let p = first_named(ops.drop_last(), name);
        if p >= 0 {
            p
        } else if ops.last().name == name {
            ops.len() - 1
        } else {
            -1
        }
    }
}

proof fn lemma_first_named_prefix(ops: Seq<OperationSpecV>, name: Seq<char>, k: int)
    requires
        0 <= k <= ops.len(),
        first_named(ops.take(k), name) >= 0,
    ensures
        first_named(ops, name) == first_named(ops.take(k), name),
    decreases ops.len() - k,
{
    if k == ops.len() {
        assert(ops.take(k) =~= ops);
    } else {
        assert(ops.drop_last().take(k) =~= ops.take(k));
        lemma_first_named_prefix(ops.drop_last(), name, k);
    }
}

fn find_named(ops: &Vec<OperationSpec>, name: &str) -> (r: Option<usize>)
    ensures
        match r {
            Some(i) => i < ops@.len() && first_named(ops@.map_values(|o: OperationSpec| o@), name@) == i,
            None => first_named(ops@.map_values(|o: OperationSpec| o@), name@) < 0,
        },
{
    let ghost v = ops@.map_values(|o: OperationSpec| o@);
    let mut i: usize = 0;
    proof {
        assert(v.take(0) =~= Seq::<OperationSpecV>::empty());
    }
    while i < ops.len()
        invariant
            i <= ops@.len(),
            v == ops@.map_values(|o: OperationSpec| o@),
            first_named(v.take(i as int), name@) == -1,
        decreases ops@.len() - i,
    {
        assert(v.take(i + 1).drop_last() =~= v.take(i as int));
        assert(v.take(i + 1).last() == ops@[i as int]@);
        if str_eq(ops[i].name, name) {
            proof {
                lemma_first_named_prefix(v, name@, i + 1);
            }
            return Some(i);
        }
        i = i + 1;
    }
    assert(v.take(i as int) =~= v);
    None
}

pub open spec fn side_effects_text() -> Seq<Seq<char>> {
    seq![
        "May trigger text reflow inside the resolved layout box."@,
        "May require overflow checks before render emitters run."@,
    ]
}

/// Explains the operation `operation` on `path`.
pub fn explain_operation(path: &str, operation: &str) -> (r: Result<OperationExplanation, String>)
    ensures
        ({
            let ops = spec_operation_specs_for(path@);
            let k = first_named(ops, operation@);
            match r {
                Ok(e) => ops.len() > 0 && k >= 0 && e.path@ == path@ && e.operation@ == operation@
                    && e.semantics@ == ops[k].description
                    && e.side_effects@.map_values(|s: &'static str| s@) == side_effects_text()
                    && e.constraints@.map_values(|s: &'static str| s@) == seq![ops[k].bounds],
                Err(m) => (ops.len() == 0 && m@ == unsupported_path(path@)) || (ops.len() > 0 && k
                    < 0 && m@ == unsupported_operation(path@, operation@)),
            }
        }),
{
    let operations = match operation_specs_for(path) {
        Some(ops) => ops,
        None => {
            let mut m = to_string("Unsupported editable path: ");
            push_str(&mut m, path);
            return Err(m);
        },
    };
    let idx = match find_named(&operations, operation) {
        Some(i) => i,
        None => return Err(unsupported_operation_msg(path, operation)),
    };
    let op = &operations[idx];
    let side_effects = vec![
        "May trigger text reflow inside the resolved layout box.",
        "May require overflow checks before render emitters run.",
    ];
    let constraints = vec![op.bounds];
    assert(side_effects@.map_values(|s: &'static str| s@) =~= side_effects_text());
    assert(constraints@.map_values(|s: &'static str| s@) =~= seq![op.bounds@]);
    Ok(
        OperationExplanation {
            path: to_string(path),
            operation: to_string(operation),
            semantics: op.description,
            side_effects: side_effects,
            constraints: constraints,
        },
    )
}

/// The sample request and effect for an operation name, when there is one.
pub open spec fn example_for(operation: Seq<char>) -> Option<(Seq<char>, Seq<char>)> {
    if operation == "increase"@ {
        Some(("{\"path\":\"slides[id=slide_123].style.body.font_size\",\"op\":\"increase\",\"step\":1}"@, "Increases body font size for the referenced slide by one point, clamped to configured bounds."@))
    } else if operation == "decrease"@ {
        Some(("{\"path\":\"slides[id=slide_123].style.body.font_size\",\"op\":\"decrease\",\"step\":2}"@, "Decreases body font size for the referenced slide by two points, clamped to configured bounds."@))
    } else if operation == "set_alignment"@ {
        Some(("{\"path\":\"slides[id=slide_123].style.alignment\",\"op\":\"set_alignment\",\"alignment\":\"left\"}"@, "Aligns text in the targeted style scope to left alignment."@))
    } else if operation == "set_text"@ {
        Some(("{\"path\":\"slides[id=slide_123].slots.title\",\"op\":\"set_text\",\"text\":\"Q3 Rollout Update\"}"@, "Replaces the target slot text with the provided string."@))
    } else if operation == "set_layout"@ {
        Some(("{\"path\":\"slides[id=slide_123].layout\",\"op\":\"set_layout\",\"layout\":\"comparison\"}"@, "Changes slide layout and triggers layout-specific required-slot checks."@))
    } else {
        None
    }
}

pub open spec fn example_request(operation: Seq<char>) -> Seq<char> {
    match example_for(operation) {
        Some((req, _)) => req,
        None => Seq::empty(),
    }
}

pub open spec fn example_effect(operation: Seq<char>) -> Seq<char> {
    match example_for(operation) {
        Some((_, eff)) => eff,
        None => Seq::empty(),
    }
}

/// Sample requests for `operation` on `path`.
pub fn get_examples(path: &str, operation: &str) -> (r: Result<Vec<OperationExample>, String>)
    ensures
        ({
            let ops = spec_operation_specs_for(path@);
            match r {
                Ok(v) => spec_editable_paths().contains(path@) && ops.len() > 0 && first_named(ops, operation@) >= 0
                    && example_for(operation@) is Some && v@.len() == 1
                    && v@[0].request@ == example_request(operation@)
                    && v@[0].effect@ == example_effect(operation@),
                Err(m) => if !spec_editable_paths().contains(path@) || ops.len() == 0 {
                    m@ == unsupported_path(path@)
                } else {
                    (first_named(ops, operation@) < 0 || example_for(operation@) is None) && m@
                        == unsupported_operation(path@, operation@)
                },
            }
        }),
{
    if !supports_path(path) {
        let mut m = to_string("Unsupported editable path: ");
        push_str(&mut m, path);
        return Err(m);
    }
    let supported = match operation_specs_for(path) {
        Some(ops) => ops,
        None => {
            let mut m = to_string("Unsupported editable path: ");
            push_str(&mut m, path);
            return Err(m);
        },
    };
    if find_named(&supported, operation).is_none() {
        return Err(unsupported_operation_msg(path, operation));
    }
    if str_eq(operation, "increase") {
        return Ok(vec![OperationExample { request: "{\"path\":\"slides[id=slide_123].style.body.font_size\",\"op\":\"increase\",\"step\":1}", effect: "Increases body font size for the referenced slide by one point, clamped to configured bounds." }]);
    }
    if str_eq(operation, "decrease") {
        return Ok(vec![OperationExample { request: "{\"path\":\"slides[id=slide_123].style.body.font_size\",\"op\":\"decrease\",\"step\":2}", effect: "Decreases body font size for the referenced slide by two points, clamped to configured bounds." }]);
    }
    if str_eq(operation, "set_alignment") {
        return Ok(vec![OperationExample { request: "{\"path\":\"slides[id=slide_123].style.alignment\",\"op\":\"set_alignment\",\"alignment\":\"left\"}", effect: "Aligns text in the targeted style scope to left alignment." }]);
    }
    if str_eq(operation, "set_text") {
        return Ok(vec![OperationExample { request: "{\"path\":\"slides[id=slide_123].slots.title\",\"op\":\"set_text\",\"text\":\"Q3 Rollout Update\"}", effect: "Replaces the target slot text with the provided string." }]);
    }
    if str_eq(operation, "set_layout") {
        return Ok(vec![OperationExample { request: "{\"path\":\"slides[id=slide_123].layout\",\"op\":\"set_layout\",\"layout\":\"comparison\"}", effect: "Changes slide layout and triggers layout-specific required-slot checks." }]);
    }
    Err(unsupported_operation_msg(path, operation))
}

/// A path listing: each editable path, bound to slide `id` when one is given.
pub open spec fn spec_list_paths(paths: Seq<Seq<char>>, slide_id: Option<u64>) -> Seq<Seq<char>> {
    match slide_id {
        None => paths,
        Some(id) => paths.map_values(
            |p: Seq<char>| replace_first(p, "slides[*]"@, "slides["@ + decimal(id as nat) + "]"@),
        ),
    }
}

/// The editable paths, sorted, each bound to slide `slide_id` when one is
/// given (its `slides[*]` replaced by `slides[id]`).
pub fn list_paths(slide_id: Option<u64>) -> (r: Vec<String>)
    ensures
        ({
            let paths = sorted_set(spec_editable_paths().to_set());
            r@.map_values(|s: String| s@) == spec_list_paths(paths, slide_id)
        }),
{
    let paths = all_editable_paths();
    proof {
        lemma_sorted_set(strs_of(paths@));
    }
    let ghost pv = strs_of(paths@);
    let mut rep = to_string("slides[");
    match slide_id {
        Some(id) => push_decimal(&mut rep, id),
        None => {},
    }
    push_str(&mut rep, "]");
    let mut out: Vec<String> = Vec::new();
    let mut i: usize = 0;
    while i < paths.len()
        invariant
            i <= paths@.len(),
            pv == strs_of(paths@),
            slide_id matches Some(id) ==> rep@ == "slides["@ + decimal(id as nat) + "]"@,
            out@.map_values(|s: String| s@) == spec_list_paths(pv, slide_id).take(i as int),
        decreases paths@.len() - i,
    {
        let item = match slide_id {
            Some(_) => replace_first_exec(paths[i], "slides[*]", rep.as_str()),
            None => to_string(paths[i]),
        };
        assert(item@ == spec_list_paths(pv, slide_id)[i as int]);
        let ghost before = out@.map_values(|s: String| s@);
        let ghost iv = item@;
        out.push(item);
        assert(out@.map_values(|s: String| s@) =~= before.push(iv));
        assert(spec_list_paths(pv, slide_id).take(i + 1) =~= spec_list_paths(pv, slide_id).take(i as int).push(iv));
        i = i + 1;
    }
    assert(spec_list_paths(pv, slide_id).take(i as int) =~= spec_list_paths(pv, slide_id));
    out
}

} // verus!
