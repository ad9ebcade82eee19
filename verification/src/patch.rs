//! Applying tweak requests (edits an agent asks for) to a slide IR document.
use vstd::prelude::*;

use crate::json::{
    empty_object, empty_object_value, entries_find, entries_set, entries_view, int_value,
    json_int, json_seq_view, json_string, json_view, lemma_entries_view, lemma_json_seq_view,
    obj_get, obj_set, Json, JsonEntry, JsonValue,
};
use crate::schema::{json_text_value, parse_json};
use crate::text::{
    chars_of, concat3, decimal, push_decimal, push_str, str_eq, string_from_chars, to_string,
};

verus! {

/// One requested edit: an operation, the path it targets (path-based
/// operations only) and its parameters.
pub struct TweakRequest {
    pub path: Option<String>,
    pub operation: String,
    pub params: Vec<JsonEntry>,
}

pub struct TweakV {
    pub path: Option<Seq<char>>,
    pub operation: Seq<char>,
    pub params: Seq<(Seq<char>, Json)>,
}

impl View for TweakRequest {
    type V = TweakV;

    open spec fn view(&self) -> TweakV {
        TweakV {
            path: match self.path {
                Some(p) => Some(p@),
                None => None,
            },
            operation: self.operation@,
            params: entries_view(self.params@),
        }
    }
}

pub open spec fn param_str(t: TweakV, k: Seq<char>) -> Option<Seq<char>> {
    match obj_get(t.params, k) {
        Some(Json::Str(s)) => Some(s),
        _ => None,
    }
}

pub open spec fn param_int(t: TweakV, k: Seq<char>) -> Option<i64> {
    match obj_get(t.params, k) {
        Some(j) => j.int_of(),
        None => None,
    }
}

/// Whether a slide's `id` member is the string `id`.
pub open spec fn slide_has_id(s: Json, id: Seq<char>) -> bool {
    match s.field("id"@) {
        Some(Json::Str(x)) => x == id,
        _ => false,
    }
}

/// The `slides` array of the document.
pub open spec fn slides_of(root: Json) -> Option<Seq<Json>> {
    match root.field("slides"@) {
        Some(Json::Array(a)) => Some(a),
        _ => None,
    }
}

/// The document with its `slides` array replaced.
pub open spec fn with_slides(root: Json, a: Seq<Json>) -> Json {
    match root {
        Json::Object(m) => Json::Object(obj_set(m, "slides"@, Json::Array(a))),
        _ => root,
    }
}

/// The slides whose id is not `id`, in order.
pub open spec fn without_id(a: Seq<Json>, id: Seq<char>) -> Seq<Json>
    decreases a.len(),
{
    if a.len() == 0 {
        Seq::empty()
    } else {
        let r = without_id(a.drop_last(), id);
        if slide_has_id(a.last(), id) {
            r
        } else {
            r.push(a.last())
        }
    }
}

/// The index of the first slide whose id is `id`, or -1.
pub open spec fn id_position(a: Seq<Json>, id: Seq<char>) -> int
    decreases a.len(),
{
    if a.len() == 0 {
        -1
    } else {
        let p = id_position(a.drop_last(), id);
        if p >= 0 {
            p
        } else if slide_has_id(a.last(), id) {
            a.len() - 1
        } else {
            -1
        }
    }
}

/// The slide that `add_slide` appends.
pub open spec fn new_slide(now_millis: u64, layout: Seq<char>) -> Json {
    Json::Object(
        seq![
            ("id"@, Json::Str("slide_"@ + decimal(now_millis as nat))),
            ("layout"@, Json::Str(layout)),
            ("slots"@, empty_object()),
        ],
    )
}

pub open spec fn not_found(id: Seq<char>) -> Seq<char> {
    "Slide '"@ + id + "' not found"@
}

/// The pieces of `s` between dots (as `str::split('.')` yields them).
pub open spec fn split_dot(s: Seq<char>) -> Seq<Seq<char>>
    decreases s.len(),
{
    if s.len() == 0 {
        seq![Seq::empty()]
    } else {
        let r = split_dot(s.drop_last());
        if s.last() == '.' {
            r.push(Seq::empty())
        } else {
            r.update(r.len() - 1, r.last().push(s.last()))
        }
    }
}

/// The index of the first `]` of `p` at or after `i`, or -1.
pub open spec fn first_bracket(p: Seq<char>, i: int) -> int
    decreases p.len() - i,
{
    if i < 0 || i >= p.len() {
        -1
    } else if p[i] == ']' {
        i
    } else {
        first_bracket(p, i + 1)
    }
}

/// Splits `slides[id=ID].REST` into `ID` and `REST`.
pub open spec fn spec_parse_slide_path(p: Seq<char>) -> Result<(Seq<char>, Seq<char>), Seq<char>> {
    if !(p.len() >= 10 && p.take(10) == "slides[id="@) {
        Err("Path must start with slides[id="@)
    } else {
        let e = first_bracket(p, 10);
        if e < 0 {
            Err("Invalid path format"@)
        } else if e + 2 < p.len() && p[e + 1] == '.' {
            Ok((p.subrange(10, e), p.skip(e + 2)))
        } else {
            Err("Path must continue after slides[id=...]"@)
        }
    }
}

/// The default a size starts from when the target holds no integer.
pub open spec fn current_size(cur: Json, part: Seq<char>) -> i64 {
    match cur.field(part) {
        Some(v) => match v.int_of() {
            Some(n) => n,
            None => 24,
        },
        None => 24,
    }
}

pub open spec fn step_of(t: TweakV) -> i64 {
    match param_int(t, "step"@) {
        Some(n) => n,
        None => 1,
    }
}

pub open spec fn wrapping_sum(a: i64, b: i64) -> i64 {
    let s = a + b;
    if s > i64::MAX {
        (s - 18446744073709551616) as i64
    } else if s < i64::MIN {
        (s + 18446744073709551616) as i64
    } else {
        s as i64
    }
}

pub open spec fn wrapping_diff(a: i64, b: i64) -> i64 {
    let s = a - b;
    if s > i64::MAX {
        (s - 18446744073709551616) as i64
    } else if s < i64::MIN {
        (s + 18446744073709551616) as i64
    } else {
        s as i64
    }
}

/// A requested font size forced into the allowed range 10..=72.
pub open spec fn clamp_font_size(n: i64) -> i64 {
    if n < 10 {
        10
    } else if n > 72 {
        72
    } else {
        n
    }
}

/// The value a path operation writes at the member `part` of `cur`.
pub open spec fn leaf_value(cur: Json, part: Seq<char>, t: TweakV) -> Result<Json, Seq<char>> {
    let op = t.operation;
    if op == "set_layout"@ {
        if part != "layout"@ {
            Err("set_layout must target .layout"@)
        } else {
            match param_str(t, "layout"@) {
                Some(l) => Ok(Json::Str(l)),
                None => Err("Missing 'layout'"@),
            }
        }
    } else if op == "set_alignment"@ {
        if part != "alignment"@ {
            Err("set_alignment must target .alignment"@)
        } else {
            match param_str(t, "alignment"@) {
                Some(a) => Ok(Json::Str(a)),
                None => Err("Missing 'alignment'"@),
            }
        }
    } else if op == "set_font_size"@ {
        match param_int(t, "size"@) {
            Some(n) => Ok(json_int(clamp_font_size(n))),
            None => Err("Missing 'size'"@),
        }
    } else if op == "increase"@ {
        Ok(json_int(wrapping_sum(current_size(cur, part), step_of(t))))
    } else if op == "decrease"@ {
        let d = wrapping_diff(current_size(cur, part), step_of(t));
        Ok(json_int(if d < 10 { 10 } else { d }))
    } else if op == "set_text"@ {
        match param_str(t, "text"@) {
            Some(s) => Ok(Json::Str(s)),
            None => Err("Missing 'text'"@),
        }
    } else {
        Err("Unknown path operation: "@ + op)
    }
}

/// What writing a member into a value that is neither an object nor null
/// reports.
pub open spec fn scalar_target(part: Seq<char>) -> Seq<char> {
    "cannot set member '"@ + part + "' of a JSON scalar"@
}

/// Writes the leaf value at `part` of `cur`; null becomes an object.
pub open spec fn leaf_write(cur: Json, part: Seq<char>, t: TweakV) -> Result<Json, Seq<char>> {
    match leaf_value(cur, part, t) {
        Err(e) => Err(e),
        Ok(v) => match cur {
            Json::Object(m) => Ok(Json::Object(obj_set(m, part, v))),
            Json::Null => Ok(Json::Object(seq![(part, v)])),
            _ => Err(scalar_target(part)),
        },
    }
}

/// Walks `parts` from `cur`, turning non-objects on the way into empty
/// objects and creating missing members, then writes the leaf.
pub open spec fn patch_at(cur: Json, parts: Seq<Seq<char>>, t: TweakV) -> Result<Json, Seq<char>>
    decreases parts.len(),
{
    if parts.len() <= 1 {
        leaf_write(cur, parts[0], t)
    } else {
        let m = match cur {
            Json::Object(m) => m,
            _ => Seq::empty(),
        };
        let child = match obj_get(m, parts[0]) {
            Some(x) => x,
            None => empty_object(),
        };
        match patch_at(child, parts.drop_first(), t) {
            Ok(nc) => Ok(Json::Object(obj_set(m, parts[0], nc))),
            Err(e) => Err(e),
        }
    }
}

pub open spec fn missing_slides() -> Seq<char> {
    "Missing $.slides array"@
}

pub open spec fn spec_apply_path_tweak(root: Json, t: TweakV) -> Result<Json, Seq<char>> {
    match t.path {
        None => Err("Operation '"@ + t.operation + "' requires a 'path'"@),
        Some(p) => match spec_parse_slide_path(p) {
            Err(e) => Err(e),
            Ok((id, rest)) => match slides_of(root) {
                None => Err(missing_slides()),
                Some(a) => {
                    let pos = id_position(a, id);
                    if pos < 0 {
                        Err(not_found(id))
                    } else {
                        match patch_at(a[pos], split_dot(rest), t) {
                            Err(e) => Err(e),
                            Ok(ns) => Ok(with_slides(root, a.update(pos, ns))),
                        }
                    }
                },
            },
        },
    }
}

/// The document after one tweak, or the error it is refused with.
pub open spec fn spec_apply_tweak(root: Json, t: TweakV, now_millis: u64) -> Result<Json, Seq<char>> {
    if t.operation == "add_slide"@ {
        match param_str(t, "layout"@) {
            None => Err("Missing 'layout' param for add_slide"@),
            Some(layout) => match slides_of(root) {
                None => Err(missing_slides()),
                Some(a) => Ok(with_slides(root, a.push(new_slide(now_millis, layout)))),
            },
        }
    } else if t.operation == "remove_slide"@ {
        match param_str(t, "id"@) {
            None => Err("Missing 'id' param for remove_slide"@),
            Some(id) => match slides_of(root) {
                None => Err(missing_slides()),
                Some(a) => Ok(with_slides(root, without_id(a, id))),
            },
        }
    } else if t.operation == "reorder_slide"@ {
        match param_str(t, "id"@) {
            None => Err("Missing 'id' param for reorder_slide"@),
            Some(id) => match param_int(t, "to_index"@) {
                None => Err("Missing 'to_index' param"@),
                Some(ti) => match slides_of(root) {
                    None => Err(missing_slides()),
                    Some(a) => {
                        let cur = id_position(a, id);
                        let to = ti as usize;
                        if cur < 0 {
                            Err(not_found(id))
                        } else if to >= a.len() {
                            Err("to_index "@ + decimal(to as nat) + " out of bounds"@)
                        } else {
                            Ok(with_slides(root, a.remove(cur).insert(to as int, a[cur])))
                        }
                    },
                },
            },
        }
    } else {
        spec_apply_path_tweak(root, t)
    }
}

/// The document after a list of tweaks applied in order; the first
/// refusal stops the list.
pub open spec fn spec_apply_tweaks(root: Json, ts: Seq<TweakV>, now_millis: u64) -> Result<Json, Seq<char>>
    decreases ts.len(),
{
    if ts.len() == 0 {
        Ok(root)
    } else {
        match spec_apply_tweak(root, ts[0], now_millis) {
            Err(e) => Err(e),
            Ok(r) => spec_apply_tweaks(r, ts.drop_first(), now_millis),
        }
    }
}

pub open spec fn strs_view(v: Seq<String>) -> Seq<Seq<char>> {
    v.map_values(|x: String| x@)
}

fn chars_range(cs: &Vec<char>, a: usize, b: usize) -> (r: String)
    requires
        a <= b <= cs@.len(),
    ensures
        r@ == cs@.subrange(a as int, b as int),
{
    let mut r = String::new();
    let mut i = a;
    while i < b
        invariant
            a <= i <= b,
            b <= cs@.len(),
            r@ == cs@.subrange(a as int, i as int),
        decreases b - i,
    {
        crate::text::push_char(&mut r, cs[i]);
        assert(cs@.subrange(a as int, i + 1) =~= cs@.subrange(a as int, i as int).push(cs@[i as int]));
        i = i + 1;
    }
    r
}

/// Splits a tweak path of the form `slides[id=ID].REST` into `ID` and `REST`.
pub fn parse_slide_id_from_path(path: &str) -> (r: Result<(String, String), String>)
    ensures
        match r {
            Ok((id, rest)) => spec_parse_slide_path(path@) == Ok::<(Seq<char>, Seq<char>), Seq<char>>((id@, rest@)),
            Err(e) => spec_parse_slide_path(path@) == Err::<(Seq<char>, Seq<char>), Seq<char>>(e@),
        },
{
    let cs = chars_of(path);
    let prefix = chars_of("slides[id=");
    proof {
        reveal_strlit("slides[id=");
    }
    let mut ok = cs.len() >= 10;
    let mut j: usize = 0;
    while ok && j < 10
        invariant
            prefix@ == "slides[id="@,
            prefix@.len() == 10,
            cs@ == path@,
            j <= 10,
            ok ==> cs@.len() >= 10,
            ok ==> forall|k: int| 0 <= k < j ==> cs@[k] == prefix@[k],
            !ok ==> !(cs@.len() >= 10 && cs@.take(10) == "slides[id="@),
        decreases 10 - j,
    {
        if cs[j] != prefix[j] {
            ok = false;
            assert(cs@.take(10)[j as int] != prefix@[j as int]);
        }
        j = j + 1;
    }
    if !ok {
        return Err(to_string("Path must start with slides[id="));
    }
    assert(cs@.take(10) =~= "slides[id="@);
    let mut e: usize = 10;
    while e < cs.len() && cs[e] != ']'
        invariant
            10 <= e <= cs@.len(),
            first_bracket(cs@, 10) == first_bracket(cs@, e as int),
        decreases cs@.len() - e,
    {
        e = e + 1;
    }
    if e == cs.len() {
        return Err(to_string("Invalid path format"));
    }
    if cs.len() - e > 2 && cs[e + 1] == '.' {
        let id = chars_range(&cs, 10, e);
        let rest = chars_range(&cs, e + 2, cs.len());
        assert(cs@.skip(e + 2) =~= cs@.subrange(e + 2, cs@.len() as int));
        Ok((id, rest))
    } else {
        Err(to_string("Path must continue after slides[id=...]"))
    }
}

proof fn lemma_split_dot_nonempty(s: Seq<char>)
    ensures
        split_dot(s).len() >= 1,
    decreases s.len(),
{
    if s.len() > 0 {
        lemma_split_dot_nonempty(s.drop_last());
    }
}

/// The pieces of `s` between dots.
fn split_dots(s: &str) -> (r: Vec<String>)
    ensures
        strs_view(r@) == split_dot(s@),
        r@.len() > 0,
{
    proof {
        lemma_split_dot_nonempty(s@);
    }
    let cs = chars_of(s);
    let mut pieces: Vec<Vec<char>> = Vec::new();
    pieces.push(Vec::new());
    let mut i: usize = 0;
    proof {
        assert(cs@.take(0) =~= Seq::<char>::empty());
        assert(pieces@.map_values(|p: Vec<char>| p@) =~= split_dot(Seq::empty()));
    }
    while i < cs.len()
        invariant
            i <= cs@.len(),
            cs@ == s@,
            pieces@.len() > 0,
            pieces@.map_values(|p: Vec<char>| p@) == split_dot(cs@.take(i as int)),
        decreases cs@.len() - i,
    {
        let ghost before = pieces@.map_values(|p: Vec<char>| p@);
        assert(cs@.take(i + 1).drop_last() =~= cs@.take(i as int));
        if cs[i] == '.' {
            pieces.push(Vec::new());
            assert(pieces@.map_values(|p: Vec<char>| p@) =~= before.push(Seq::empty()));
        } else {
            let mut last = pieces.pop().unwrap();
            last.push(cs[i]);
            pieces.push(last);
            assert(pieces@.map_values(|p: Vec<char>| p@) =~= before.update(
                before.len() - 1,
                before.last().push(cs@[i as int]),
            ));
        }
        i = i + 1;
    }
    assert(cs@.take(i as int) =~= cs@);
    let ghost pv = pieces@.map_values(|p: Vec<char>| p@);
    let mut out: Vec<String> = Vec::new();
    let mut k: usize = 0;
    while k < pieces.len()
        invariant
            k <= pieces@.len(),
            pv == pieces@.map_values(|p: Vec<char>| p@),
            strs_view(out@) == pv.take(k as int),
        decreases pieces@.len() - k,
    {
        let piece = string_from_chars(pieces[k].as_slice());
        let ghost old_out = out@;
        out.push(piece);
        assert(pv[k as int] == pieces@[k as int]@);
        assert(strs_view(out@) =~= strs_view(old_out).push(pv[k as int]));
        assert(strs_view(out@) =~= pv.take(k + 1));
        k = k + 1;
    }
    assert(pv.take(k as int) =~= pv);
    out
}

fn param<'a>(t: &'a TweakRequest, key: &str) -> (r: Option<&'a JsonValue>)
    ensures
        match r {
            Some(v) => obj_get(t@.params, key@) == Some(v@),
            None => obj_get(t@.params, key@) is None,
        },
{
    match entries_find(&t.params, key) {
        Some(i) => Some(&t.params[i].value),
        None => None,
    }
}

fn param_string<'a>(t: &'a TweakRequest, key: &str) -> (r: Option<&'a String>)
    ensures
        match r {
            Some(v) => param_str(t@, key@) == Some(v@),
            None => param_str(t@, key@) is None,
        },
{
    match param(t, key) {
        Some(v) => v.as_str(),
        None => None,
    }
}

fn param_i64(t: &TweakRequest, key: &str) -> (r: Option<i64>)
    ensures
        r == param_int(t@, key@),
{
    match param(t, key) {
        Some(v) => v.as_i64(),
        None => None,
    }
}

fn wrapping_add_i64(a: i64, b: i64) -> (r: i64)
    ensures
        r == wrapping_sum(a, b),
{
    let s = a as i128 + b as i128;
    if s > i64::MAX as i128 {
        (s - 18446744073709551616i128) as i64
    } else if s < i64::MIN as i128 {
        (s + 18446744073709551616i128) as i64
    } else {
        s as i64
    }
}

fn wrapping_sub_i64(a: i64, b: i64) -> (r: i64)
    ensures
        r == wrapping_diff(a, b),
{
    let s = a as i128 - b as i128;
    if s > i64::MAX as i128 {
        (s - 18446744073709551616i128) as i64
    } else if s < i64::MIN as i128 {
        (s + 18446744073709551616i128) as i64
    } else {
        s as i64
    }
}

fn size_at(cur: &JsonValue, part: &str) -> (r: i64)
    ensures
        r == current_size(cur@, part@),
{
    match cur.get(part) {
        Some(v) => match v.as_i64() {
            Some(n) => n,
            None => 24,
        },
        None => 24,
    }
}

fn leaf_value_exec(cur: &JsonValue, part: &str, t: &TweakRequest) -> (r: Result<JsonValue, String>)
    ensures
        match r {
            Ok(v) => leaf_value(cur@, part@, t@) == Ok::<Json, Seq<char>>(v@),
            Err(e) => leaf_value(cur@, part@, t@) == Err::<Json, Seq<char>>(e@),
        },
{
    let op = t.operation.as_str();
    if str_eq(op, "set_layout") {
        if !str_eq(part, "layout") {
            Err(to_string("set_layout must target .layout"))
        } else {
            match param_string(t, "layout") {
                Some(l) => Ok(json_string(l.as_str())),
                None => Err(to_string("Missing 'layout'")),
            }
        }
    } else if str_eq(op, "set_alignment") {
        if !str_eq(part, "alignment") {
            Err(to_string("set_alignment must target .alignment"))
        } else {
            match param_string(t, "alignment") {
                Some(a) => Ok(json_string(a.as_str())),
                None => Err(to_string("Missing 'alignment'")),
            }
        }
    } else if str_eq(op, "set_font_size") {
        match param_i64(t, "size") {
            Some(n) => Ok(int_value(if n < 10 {
                10
            } else if n > 72 {
                72
            } else {
                n
            })),
            None => Err(to_string("Missing 'size'")),
        }
    } else if str_eq(op, "increase") {
        let step = match param_i64(t, "step") {
            Some(n) => n,
            None => 1,
        };
        Ok(int_value(wrapping_add_i64(size_at(cur, part), step)))
    } else if str_eq(op, "decrease") {
        let step = match param_i64(t, "step") {
            Some(n) => n,
            None => 1,
        };
        let d = wrapping_sub_i64(size_at(cur, part), step);
        Ok(int_value(if d < 10 { 10 } else { d }))
    } else if str_eq(op, "set_text") {
        match param_string(t, "text") {
            Some(s) => Ok(json_string(s.as_str())),
            None => Err(to_string("Missing 'text'")),
        }
    } else {
        let mut m = to_string("Unknown path operation: ");
        push_str(&mut m, op);
        Err(m)
    }
}

fn leaf_write_exec(cur: JsonValue, part: &str, t: &TweakRequest) -> (r: Result<JsonValue, String>)
    ensures
        match r {
            Ok(v) => leaf_write(cur@, part@, t@) == Ok::<Json, Seq<char>>(v@),
            Err(e) => leaf_write(cur@, part@, t@) == Err::<Json, Seq<char>>(e@),
        },
{
    let v = match leaf_value_exec(&cur, part, t) {
        Ok(v) => v,
        Err(e) => return Err(e),
    };
    match cur {
        JsonValue::Object(entries) => {
            let mut entries = entries;
            entries_set(&mut entries, part, v);
            Ok(JsonValue::Object(entries))
        },
        JsonValue::Null => {
            let mut entries: Vec<JsonEntry> = Vec::new();
            let ghost vv = v@;
            entries.push(JsonEntry { key: to_string(part), value: v });
            proof {
                lemma_entries_view(entries@);
                assert(entries_view(entries@) =~= seq![(part@, vv)]);
            }
            Ok(JsonValue::Object(entries))
        },
        _ => Err(concat3("cannot set member '", part, "' of a JSON scalar")),
    }
}

fn patch_at_exec(cur: JsonValue, parts: &Vec<String>, idx: usize, t: &TweakRequest) -> (r: Result<JsonValue, String>)
    requires
        idx < parts@.len(),
    ensures
        match r {
            Ok(v) => patch_at(cur@, strs_view(parts@).skip(idx as int), t@) == Ok::<Json, Seq<char>>(v@),
            Err(e) => patch_at(cur@, strs_view(parts@).skip(idx as int), t@) == Err::<Json, Seq<char>>(e@),
        },
    decreases parts@.len() - idx,
{
    let ghost ps = strs_view(parts@).skip(idx as int);
    assert(ps[0] == parts@[idx as int]@);
    if idx >= parts.len() - 1 {
        return leaf_write_exec(cur, parts[idx].as_str(), t);
    }
    assert(ps.drop_first() =~= strs_view(parts@).skip(idx + 1));
    let mut entries: Vec<JsonEntry> = match cur {
        JsonValue::Object(m) => m,
        _ => {
            let e: Vec<JsonEntry> = Vec::new();
            assert(entries_view(e@) =~= Seq::empty());
            e
        },
    };
    let key = parts[idx].as_str();
    let child = match entries_find(&entries, key) {
        Some(i) => clone_json_at(&entries, i),
        None => empty_object_value(),
    };
    match patch_at_exec(child, parts, idx + 1, t) {
        Ok(nc) => {
            entries_set(&mut entries, key, nc);
            Ok(JsonValue::Object(entries))
        },
        Err(e) => Err(e),
    }
}

fn clone_json_at(entries: &Vec<JsonEntry>, i: usize) -> (r: JsonValue)
    requires
        i < entries@.len(),
    ensures
        r@ == json_view(entries@[i as int].value),
{
    crate::json::clone_json(&entries[i].value)
}

proof fn lemma_id_position_prefix(a: Seq<Json>, id: Seq<char>, k: int)
    requires
        0 <= k <= a.len(),
        id_position(a.take(k), id) >= 0,
    ensures
        id_position(a, id) == id_position(a.take(k), id),
    decreases a.len() - k,
{
    if k == a.len() {
        assert(a.take(k) =~= a);
    } else {
        assert(a.drop_last().take(k) =~= a.take(k));
        lemma_id_position_prefix(a.drop_last(), id, k);
    }
}

pub proof fn lemma_id_position_range(a: Seq<Json>, id: Seq<char>)
    ensures
        -1 <= id_position(a, id) < a.len(),
        id_position(a, id) >= 0 ==> slide_has_id(a[id_position(a, id)], id),
    decreases a.len(),
{
    if a.len() > 0 {
        lemma_id_position_range(a.drop_last(), id);
    }
}

fn slide_matches(s: &JsonValue, id: &str) -> (r: bool)
    ensures
        r == slide_has_id(s@, id@),
{
    match s.get("id") {
        Some(v) => match v.as_str() {
            Some(x) => str_eq(x.as_str(), id),
            None => false,
        },
        None => false,
    }
}

fn find_slide(slides: &Vec<JsonValue>, id: &str) -> (r: Option<usize>)
    ensures
        match r {
            Some(i) => id_position(json_seq_view(slides@), id@) == i as int && i < slides@.len(),
            None => id_position(json_seq_view(slides@), id@) < 0,
        },
{
    let ghost a = json_seq_view(slides@);
    proof {
        lemma_json_seq_view(slides@);
        assert(a.take(0) =~= Seq::<Json>::empty());
    }
    let mut i: usize = 0;
    while i < slides.len()
        invariant
            i <= slides@.len(),
            a == json_seq_view(slides@),
            a.len() == slides@.len(),
            forall|j: int| 0 <= j < slides@.len() ==> #[trigger] a[j] == json_view(slides@[j]),
            id_position(a.take(i as int), id@) == -1,
        decreases slides@.len() - i,
    {
        assert(a.take(i + 1).drop_last() =~= a.take(i as int));
        if slide_matches(&slides[i], id) {
            proof {
                lemma_id_position_prefix(a, id@, i + 1);
            }
            return Some(i);
        }
        i = i + 1;
    }
    assert(a.take(i as int) =~= a);
    None
}

fn slides_ref(root: &JsonValue) -> (r: Option<&Vec<JsonValue>>)
    ensures
        match r {
            Some(a) => slides_of(root@) == Some(json_seq_view(a@)),
            None => slides_of(root@) is None,
        },
{
    match root.get("slides") {
        Some(v) => v.as_array(),
        None => None,
    }
}

fn put_slides(root: JsonValue, a: Vec<JsonValue>) -> (r: JsonValue)
    requires
        root@ is Object,
    ensures
        r@ == with_slides(root@, json_seq_view(a@)),
{
    match root {
        JsonValue::Object(entries) => {
            let mut entries = entries;
            entries_set(&mut entries, "slides", JsonValue::Array(a));
            JsonValue::Object(entries)
        },
        _ => root,
    }
}

fn clone_slides(a: &Vec<JsonValue>) -> (r: Vec<JsonValue>)
    ensures
        json_seq_view(r@) == json_seq_view(a@),
        r@.len() == a@.len(),
{
    let mut out: Vec<JsonValue> = Vec::new();
    let mut i: usize = 0;
    while i < a.len()
        invariant
            i <= a@.len(),
            out@.len() == i,
            forall|j: int| 0 <= j < i ==> #[trigger] json_view(out@[j]) == json_view(a@[j]),
        decreases a@.len() - i,
    {
        out.push(crate::json::clone_json(&a[i]));
        i = i + 1;
    }
    proof {
        lemma_json_seq_view(out@);
        lemma_json_seq_view(a@);
        assert(json_seq_view(out@) =~= json_seq_view(a@));
    }
    out
}

fn new_slide_value(now_millis: u64, layout: &str) -> (r: JsonValue)
    ensures
        r@ == new_slide(now_millis, layout@),
{
    let mut id = to_string("slide_");
    push_decimal(&mut id, now_millis);
    let mut entries: Vec<JsonEntry> = Vec::new();
    let v1 = JsonValue::String(id);
    let v2 = json_string(layout);
    let v3 = empty_object_value();
    let ghost (j1, j2, j3) = (v1@, v2@, v3@);
    entries.push(JsonEntry { key: to_string("id"), value: v1 });
    entries.push(JsonEntry { key: to_string("layout"), value: v2 });
    entries.push(JsonEntry { key: to_string("slots"), value: v3 });
    proof {
        lemma_entries_view(entries@);
        assert(entries_view(entries@) =~= seq![("id"@, j1), ("layout"@, j2), ("slots"@, j3)]);
    }
    JsonValue::Object(entries)
}

fn without_id_exec(a: &Vec<JsonValue>, id: &str) -> (r: Vec<JsonValue>)
    ensures
        json_seq_view(r@) == without_id(json_seq_view(a@), id@),
{
    let ghost av = json_seq_view(a@);
    proof {
        lemma_json_seq_view(a@);
        assert(av.take(0) =~= Seq::<Json>::empty());
    }
    let mut out: Vec<JsonValue> = Vec::new();
    let mut i: usize = 0;
    while i < a.len()
        invariant
            i <= a@.len(),
            av == json_seq_view(a@),
            av.len() == a@.len(),
            forall|j: int| 0 <= j < a@.len() ==> #[trigger] av[j] == json_view(a@[j]),
            json_seq_view(out@) == without_id(av.take(i as int), id@),
        decreases a@.len() - i,
    {
        assert(av.take(i + 1).drop_last() =~= av.take(i as int));
        if !slide_matches(&a[i], id) {
            let ghost before = out@;
            out.push(crate::json::clone_json(&a[i]));
            assert(out@.drop_last() =~= before);
        }
        i = i + 1;
    }
    assert(av.take(i as int) =~= av);
    out
}

/// Applies one tweak to the document; an `Err` carries the message the
/// tweak is refused with.
pub fn apply_single_tweak(root: JsonValue, tweak: &TweakRequest, now_millis: u64) -> (r: Result<JsonValue, String>)
    ensures
        match r {
            Ok(v) => spec_apply_tweak(root@, tweak@, now_millis) == Ok::<Json, Seq<char>>(v@),
            Err(e) => spec_apply_tweak(root@, tweak@, now_millis) == Err::<Json, Seq<char>>(e@),
        },
{
    let op = tweak.operation.as_str();
    if str_eq(op, "add_slide") {
        let layout = match param_string(tweak, "layout") {
            Some(l) => l,
            None => return Err(to_string("Missing 'layout' param for add_slide")),
        };
        let mut slides = match slides_ref(&root) {
            Some(a) => clone_slides(a),
            None => return Err(to_string("Missing $.slides array")),
        };
        let ghost before = slides@;
        slides.push(new_slide_value(now_millis, layout.as_str()));
        assert(slides@.drop_last() =~= before);
        return Ok(put_slides(root, slides));
    } else if str_eq(op, "remove_slide") {
        let id = match param_string(tweak, "id") {
            Some(i) => i,
            None => return Err(to_string("Missing 'id' param for remove_slide")),
        };
        let kept = match slides_ref(&root) {
            Some(a) => without_id_exec(a, id.as_str()),
            None => return Err(to_string("Missing $.slides array")),
        };
        return Ok(put_slides(root, kept));
    } else if str_eq(op, "reorder_slide") {
        let id = match param_string(tweak, "id") {
            Some(i) => i,
            None => return Err(to_string("Missing 'id' param for reorder_slide")),
        };
        let to_index = match param_i64(tweak, "to_index") {
            Some(n) => #[verifier::truncate] (n as usize),
            None => return Err(to_string("Missing 'to_index' param")),
        };
        let mut slides = match slides_ref(&root) {
            Some(a) => clone_slides(a),
            None => return Err(to_string("Missing $.slides array")),
        };
        proof {
            lemma_json_seq_view(slides@);
        }
        let cur = match find_slide(&slides, id.as_str()) {
            Some(c) => c,
            None => return Err(concat3("Slide '", id.as_str(), "' not found")),
        };
        if to_index >= slides.len() {
            let mut m = to_string("to_index ");
            push_decimal(&mut m, to_index as u64);
            push_str(&mut m, " out of bounds");
            return Err(m);
        }
        let ghost a0 = slides@;
        let moved = slides.remove(cur);
        slides.insert(to_index, moved);
        proof {
            lemma_json_seq_view(a0);
            lemma_json_seq_view(slides@);
            assert(json_seq_view(slides@) =~= json_seq_view(a0).remove(cur as int).insert(
                to_index as int,
                json_seq_view(a0)[cur as int],
            ));
        }
        return Ok(put_slides(root, slides));
    }
    let path = match &tweak.path {
        Some(p) => p,
        None => return Err(concat3("Operation '", op, "' requires a 'path'")),
    };
    let (slide_id, rest) = match parse_slide_id_from_path(path.as_str()) {
        Ok(pr) => pr,
        Err(e) => return Err(e),
    };
    let mut slides = match slides_ref(&root) {
        Some(a) => clone_slides(a),
        None => return Err(to_string("Missing $.slides array")),
    };
    let pos = match find_slide(&slides, slide_id.as_str()) {
        Some(p) => p,
        None => return Err(concat3("Slide '", slide_id.as_str(), "' not found")),
    };
    let parts = split_dots(rest.as_str());
    proof {
        assert(strs_view(parts@).skip(0) =~= strs_view(parts@));
        lemma_json_seq_view(slides@);
    }
    let target = crate::json::clone_json(&slides[pos]);
    let patched = match patch_at_exec(target, &parts, 0, tweak) {
        Ok(v) => v,
        Err(e) => return Err(e),
    };
    let ghost a0 = slides@;
    let ghost pv = patched@;
    slides.set(pos, patched);
    proof {
        lemma_json_seq_view(a0);
        lemma_json_seq_view(slides@);
        assert(json_seq_view(slides@) =~= json_seq_view(a0).update(pos as int, pv));
    }
    Ok(put_slides(root, slides))
}

/// Applies tweaks in order to a document; the first refused tweak stops
/// the list with its message.
pub fn apply_tweaks(root: JsonValue, tweaks: &Vec<TweakRequest>, now_millis: u64) -> (r: Result<JsonValue, String>)
    ensures
        match r {
            Ok(v) => spec_apply_tweaks(root@, tweaks@.map_values(|t: TweakRequest| t@), now_millis)
                == Ok::<Json, Seq<char>>(v@),
            Err(e) => spec_apply_tweaks(root@, tweaks@.map_values(|t: TweakRequest| t@), now_millis)
                == Err::<Json, Seq<char>>(e@),
        },
{
    let ghost ts = tweaks@.map_values(|t: TweakRequest| t@);
    let ghost r0 = root@;
    let mut cur = root;
    let mut i: usize = 0;
    proof {
        assert(ts.skip(0) =~= ts);
    }
    while i < tweaks.len()
        invariant
            i <= tweaks@.len(),
            ts == tweaks@.map_values(|t: TweakRequest| t@),
            r0 == root@,
            spec_apply_tweaks(r0, ts, now_millis) == spec_apply_tweaks(cur@, ts.skip(i as int), now_millis),
        decreases tweaks@.len() - i,
    {
        assert(ts.len() == tweaks@.len());
        assert(ts.skip(i as int).len() > 0);
        assert(ts.skip(i as int)[0] == tweaks@[i as int]@);
        assert(ts.skip(i as int).drop_first() =~= ts.skip(i + 1));
        let ghost cv = cur@;
        match apply_single_tweak(cur, &tweaks[i], now_millis) {
            Ok(v) => {
                cur = v;
            },
            Err(e) => {
                assert(spec_apply_tweaks(cv, ts.skip(i as int), now_millis) == Err::<Json, Seq<char>>(e@));
                return Err(e);
            },
        }
        i = i + 1;
    }
    assert(ts.skip(i as int).len() == 0);
    Ok(cur)
}

/// What reading a document's text gives: its value, or the parser's
/// message after `Invalid IR JSON: `.
pub open spec fn spec_read_ir_document(text: Seq<char>) -> Result<Json, Seq<char>> {
    match json_text_value(text) {
        Ok(v) => Ok(v),
        Err(e) => Err("Invalid IR JSON: "@ + e),
    }
}

/// Reads the text of a document to tweak.
pub fn read_ir_document(ir_json: &str) -> (r: Result<JsonValue, String>)
    ensures
        match r {
            Ok(v) => spec_read_ir_document(ir_json@) == Ok::<Json, Seq<char>>(v@),
            Err(e) => spec_read_ir_document(ir_json@) == Err::<Json, Seq<char>>(e@),
        },
{
    match parse_json(ir_json) {
        Ok(v) => Ok(v),
        Err(e) => {
            let mut m = to_string("Invalid IR JSON: ");
            push_str(&mut m, e.as_str());
            Err(m)
        },
    }
}

} // verus!
