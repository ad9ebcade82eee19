//! The names of a PPTX package's parts: all distinct and short enough for a
//! zip entry name.
use vstd::prelude::*;

use crate::model::{ElementV, ImageV};
use crate::pptx::{
    all_images, media_entries, media_ext, media_name, parts_fit, pptx_entries, slide_entries, slide_images,
    slide_part_name, slide_rels_part_name, utf8,
};
use crate::text::{decimal, digit_char};

verus! {

/// `10` to the power `k`.
pub open spec fn pow10(k: nat) -> nat
    decreases k,
{
    if k == 0 {
        1
    } else {
        10 * pow10((k - 1) as nat)
    }
}

/// Whether `c` is an ASCII decimal digit.
pub open spec fn is_digit(c: char) -> bool {
    '0' <= c && c <= '9'
}

/// The UTF-8 encoding of a string takes at most four bytes per character.
pub proof fn lemma_utf8_len_bound(s: Seq<char>)
    ensures
        vstd::utf8::encode_utf8(s).len() <= 4 * s.len(),
    decreases s.len(),
{
    if s.len() > 0 {
        lemma_utf8_len_bound(s.drop_first());
        assert(vstd::utf8::encode_scalar(s[0] as u32).len() <= 4);
    }
}

/// A number below `10^k` (for `k >= 1`) has at most `k` decimal digits.
pub proof fn lemma_decimal_len(n: nat, k: nat)
    requires
        k >= 1,
        n < pow10(k),
    ensures
        1 <= decimal(n).len() <= k,
    decreases n,
{
    if n >= 10 {
        let p = pow10((k - 1) as nat);
        if k == 1 {
            assert(pow10(0) == 1);
            assert(false);
        }
        assert(n / 10 < p) by (nonlinear_arith)
            requires
                n < 10 * p,
        ;
        lemma_decimal_len(n / 10, (k - 1) as nat);
    }
}

/// A `u64` has at most twenty decimal digits.
pub proof fn lemma_decimal_len_u64(n: nat)
    requires
        n <= u64::MAX,
    ensures
        1 <= decimal(n).len() <= 20,
{
    reveal_with_fuel(pow10, 21);
    assert(pow10(20) == 100000000000000000000);
    lemma_decimal_len(n, 20);
}

/// Every character of a decimal numeral is a digit.
pub proof fn lemma_decimal_digits(n: nat)
    ensures
        decimal(n).len() >= 1,
        forall|i: int| 0 <= i < decimal(n).len() ==> is_digit(#[trigger] decimal(n)[i]),
    decreases n,
{
    if n >= 10 {
        lemma_decimal_digits(n / 10);
    }
}

/// Different numbers have different numerals.
pub proof fn lemma_decimal_injective(a: nat, b: nat)
    requires
        decimal(a) == decimal(b),
    ensures
        a == b,
    decreases a,
{
    lemma_decimal_digits(a / 10);
    lemma_decimal_digits(b / 10);
    if a >= 10 && b >= 10 {
        assert(decimal(a / 10) == decimal(a).drop_last());
        assert(decimal(b / 10) == decimal(b).drop_last());
        lemma_decimal_injective(a / 10, b / 10);
        assert(digit_char(a % 10) == decimal(a).last());
        assert(digit_char(b % 10) == decimal(b).last());
        lemma_digit_injective(a % 10, b % 10);
    } else if a < 10 && b < 10 {
        assert(decimal(a)[0] == digit_char(a));
        assert(decimal(b)[0] == digit_char(b));
        lemma_digit_injective(a, b);
    } else if a < 10 {
        assert(decimal(a).len() == 1);
        assert(decimal(b).len() == decimal(b / 10).len() + 1);
    } else {
        assert(decimal(b).len() == 1);
        assert(decimal(a).len() == decimal(a / 10).len() + 1);
    }
}

/// Different digits are different characters.
pub proof fn lemma_digit_injective(x: nat, y: nat)
    requires
        x < 10,
        y < 10,
        digit_char(x) == digit_char(y),
    ensures
        x == y,
{
}

/// Two names made of the same prefix, a numeral, and a rest that starts
/// with a non-digit are equal only for equal numbers.
pub proof fn lemma_numbered_name(p: Seq<char>, a: nat, x: Seq<char>, b: nat, y: Seq<char>)
    requires
        x.len() > 0,
        y.len() > 0,
        !is_digit(x[0]),
        !is_digit(y[0]),
        p + decimal(a) + x == p + decimal(b) + y,
    ensures
        a == b,
{
    let s = p + decimal(a) + x;
    let t = p + decimal(b) + y;
    let la = decimal(a).len() as int;
    let lb = decimal(b).len() as int;
    lemma_decimal_digits(a);
    lemma_decimal_digits(b);
    if la < lb {
        assert(s[p.len() + la] == x[0]);
        assert(t[p.len() + la] == decimal(b)[la]);
        assert(false);
    }
    if lb < la {
        assert(t[p.len() + lb] == y[0]);
        assert(s[p.len() + lb] == decimal(a)[lb]);
        assert(false);
    }
    assert(decimal(a) =~= s.subrange(p.len() as int, p.len() + la));
    assert(decimal(b) =~= t.subrange(p.len() as int, p.len() + lb));
    lemma_decimal_injective(a, b);
}

/// No two parts share a name.
pub open spec fn names_distinct(es: Seq<(Seq<char>, Seq<u8>)>) -> bool {
    forall|a: int, b: int| 0 <= a < b < es.len() ==> es[a].0 != es[b].0
}

/// Every part name fits a zip entry name: at most 65535 bytes of UTF-8.
pub open spec fn names_short(es: Seq<(Seq<char>, Seq<u8>)>) -> bool {
    forall|a: int| 0 <= a < es.len() ==> utf8(#[trigger] es[a].0).len() <= 65535
}

/// Whether `s` names the slide part or the slide relationship part of one
/// of the slides `1..=j`.
pub open spec fn slide_family(s: Seq<char>, j: nat) -> bool {
    exists|n: nat|
        #![trigger slide_part_name(n)]
        #![trigger slide_rels_part_name(n)]
        1 <= n <= j && (s == slide_part_name(n) || s == slide_rels_part_name(n))
}

/// A slide part name and a slide relationship part name never coincide,
/// and each kind determines its slide number.
pub proof fn lemma_slide_names_differ(n: nat, m: nat)
    ensures
        slide_part_name(n) != slide_rels_part_name(m),
        slide_part_name(n) == slide_part_name(m) ==> n == m,
        slide_rels_part_name(n) == slide_rels_part_name(m) ==> n == m,
        slide_part_name(n).len() > 4 && slide_part_name(n)[0] == 'p' && slide_part_name(n)[4] == 's',
        slide_rels_part_name(n).len() > 4 && slide_rels_part_name(n)[0] == 'p' && slide_rels_part_name(n)[4]
            == 's',
{
    reveal_strlit("ppt/slides/slide");
    reveal_strlit("ppt/slides/_rels/slide");
    reveal_strlit(".xml");
    reveal_strlit(".xml.rels");
    assert(slide_part_name(n)[11] == 's');
    assert(slide_rels_part_name(m)[11] == '_');
    if slide_part_name(n) == slide_part_name(m) {
        lemma_numbered_name("ppt/slides/slide"@, n, ".xml"@, m, ".xml"@);
    }
    if slide_rels_part_name(n) == slide_rels_part_name(m) {
        lemma_numbered_name("ppt/slides/_rels/slide"@, n, ".xml.rels"@, m, ".xml.rels"@);
    }
}

/// The slide part names are short.
pub proof fn lemma_slide_names_short(n: nat)
    requires
        n <= u64::MAX,
    ensures
        utf8(slide_part_name(n)).len() <= 65535,
        utf8(slide_rels_part_name(n)).len() <= 65535,
{
    reveal_strlit("ppt/slides/slide");
    reveal_strlit("ppt/slides/_rels/slide");
    reveal_strlit(".xml");
    reveal_strlit(".xml.rels");
    lemma_decimal_len_u64(n);
    lemma_utf8_len_bound(slide_part_name(n));
    lemma_utf8_len_bound(slide_rels_part_name(n));
}

/// The parts written for the slides have distinct, short names, each
/// naming one of the slides.
pub proof fn lemma_slide_entry_names(slides: Seq<Seq<ElementV>>)
    requires
        slides.len() <= u64::MAX,
    ensures
        names_distinct(slide_entries(slides)),
        names_short(slide_entries(slides)),
        forall|a: int|
            0 <= a < slide_entries(slides).len() ==> slide_family(
                #[trigger] slide_entries(slides)[a].0,
                slides.len(),
            ),
    decreases slides.len(),
{
    if slides.len() > 0 {
        let init = slides.drop_last();
        let n = slides.len();
        let es = slides.last();
        let prev = slide_entries(init);
        lemma_slide_entry_names(init);
        lemma_slide_names_short(n);
        let p = prev.push((slide_part_name(n), utf8(crate::pptx::spec_slide_xml(es))));
        assert forall|a: int| 0 <= a < prev.len() implies slide_family(#[trigger] prev[a].0, n) by {
            let k = choose|k: nat|
                #![trigger slide_part_name(k)]
                #![trigger slide_rels_part_name(k)]
                1 <= k <= n - 1 && (prev[a].0 == slide_part_name(k) || prev[a].0 == slide_rels_part_name(
                    k,
                ));
            assert(slide_part_name(k) == slide_part_name(k));
            assert(slide_rels_part_name(k) == slide_rels_part_name(k));
        }
        assert forall|a: int| 0 <= a < prev.len() implies #[trigger] prev[a].0 != slide_part_name(n)
            && prev[a].0 != slide_rels_part_name(n) by {
            let k = choose|k: nat|
                #![trigger slide_part_name(k)]
                #![trigger slide_rels_part_name(k)]
                1 <= k <= n - 1 && (prev[a].0 == slide_part_name(k) || prev[a].0 == slide_rels_part_name(
                    k,
                ));
            lemma_slide_names_differ(k, n);
            lemma_slide_names_differ(n, k);
        }
        lemma_slide_names_differ(n, n);
        assert(slide_part_name(n) == slide_part_name(n));
        assert(slide_rels_part_name(n) == slide_rels_part_name(n));
        assert(names_distinct(p));
        assert(slide_images(es).len() > 0 ==> names_distinct(
            p.push((slide_rels_part_name(n), utf8(crate::pptx::spec_slide_rels_xml(es, all_images(init).len())))),
        ));
    }
}

/// The `k`-th media part of a package holds the `k`-th image.
pub proof fn lemma_media_entry(imgs: Seq<ImageV>)
    ensures
        media_entries(imgs).len() == imgs.len(),
        forall|k: int|
            0 <= k < imgs.len() ==> #[trigger] media_entries(imgs)[k] == ("ppt/media/"@ + media_name(
                k as nat,
                imgs[k],
            ), imgs[k].data),
    decreases imgs.len(),
{
    if imgs.len() > 0 {
        lemma_media_entry(imgs.drop_last());
    }
}

/// Media part names start with `ppt/m`, determine the image's number, and
/// are short.
pub proof fn lemma_media_names(a: nat, ia: ImageV, b: nat, ib: ImageV)
    requires
        a < u64::MAX,
    ensures
        ("ppt/media/"@ + media_name(a, ia)) == ("ppt/media/"@ + media_name(b, ib)) ==> a == b,
        ("ppt/media/"@ + media_name(a, ia)).len() > 4,
        ("ppt/media/"@ + media_name(a, ia))[0] == 'p',
        ("ppt/media/"@ + media_name(a, ia))[4] == 'm',
        utf8("ppt/media/"@ + media_name(a, ia)).len() <= 65535,
{
    reveal_strlit("ppt/media/");
    reveal_strlit("image");
    reveal_strlit(".");
    reveal_strlit("png");
    reveal_strlit("jpg");
    reveal_strlit("gif");
    reveal_strlit("bin");
    let p = "ppt/media/"@ + "image"@;
    assert("ppt/media/"@ + media_name(a, ia) =~= p + decimal(a + 1) + ("."@ + media_ext(ia)));
    assert("ppt/media/"@ + media_name(b, ib) =~= p + decimal(b + 1) + ("."@ + media_ext(ib)));
    if ("ppt/media/"@ + media_name(a, ia)) == ("ppt/media/"@ + media_name(b, ib)) {
        lemma_numbered_name(p, a + 1, "."@ + media_ext(ia), b + 1, "."@ + media_ext(ib));
    }
    lemma_decimal_len_u64(a + 1);
    assert(media_ext(ia).len() == 3);
    lemma_utf8_len_bound("ppt/media/"@ + media_name(a, ia));
}

/// The kind of a part name by its first and fifth characters: slide parts
/// (`ppt/s`), media parts (`ppt/m`), and the package's other parts.
pub open spec fn name_kind(s: Seq<char>) -> int {
    if s.len() > 4 && s[0] == 'p' && s[4] == 's' {
        0
    } else if s.len() > 4 && s[0] == 'p' && s[4] == 'm' {
        1
    } else {
        2
    }
}

/// The names of the package's fixed parts, in the order they are written.
pub open spec fn fixed_part_names() -> Seq<Seq<char>> {
    seq![
        "[Content_Types].xml"@,
        "_rels/.rels"@,
        "docProps/app.xml"@,
        "docProps/core.xml"@,
        "ppt/presentation.xml"@,
        "ppt/_rels/presentation.xml.rels"@,
    ]
}

/// The fixed part names are distinct, short, and of the third kind.
pub proof fn lemma_fixed_part_names()
    ensures
        fixed_part_names().len() == 6,
        forall|a: int, b: int| 0 <= a < b < 6 ==> fixed_part_names()[a] != fixed_part_names()[b],
        forall|a: int|
            0 <= a < 6 ==> name_kind(#[trigger] fixed_part_names()[a]) == 2 && utf8(
                fixed_part_names()[a],
            ).len() <= 65535,
{
    reveal_strlit("[Content_Types].xml");
    reveal_strlit("_rels/.rels");
    reveal_strlit("docProps/app.xml");
    reveal_strlit("docProps/core.xml");
    reveal_strlit("ppt/presentation.xml");
    reveal_strlit("ppt/_rels/presentation.xml.rels");
    let f = fixed_part_names();
    assert forall|a: int, b: int| 0 <= a < b < 6 implies f[a] != f[b] by {
        assert(f[a][0] != f[b][0] || f[a][4] != f[b][4] || f[a][9] != f[b][9]);
    }
    assert forall|a: int| 0 <= a < 6 implies name_kind(#[trigger] f[a]) == 2 && utf8(f[a]).len() <= 65535 by {
        lemma_utf8_len_bound(f[a]);
    }
}

/// The last six parts of a package are its fixed parts.
pub proof fn lemma_pptx_tail(slides: Seq<Seq<ElementV>>)
    ensures
        ({
            let es = pptx_entries(slides);
            let h = slide_entries(slides).len() + media_entries(all_images(slides)).len();
            let tail = es.skip(h as int);
            &&& es == slide_entries(slides) + media_entries(all_images(slides)) + tail
            &&& tail.len() == 6
            &&& forall|f: int| 0 <= f < 6 ==> #[trigger] tail[f].0 == fixed_part_names()[f]
        }),
{
    let es = pptx_entries(slides);
    let h = slide_entries(slides).len() + media_entries(all_images(slides)).len();
    assert(es == slide_entries(slides) + media_entries(all_images(slides)) + es.skip(h as int));
}

/// Names of three kinds, distinct within each group, are distinct together.
pub proof fn lemma_kinds_distinct(x: Seq<(Seq<char>, Seq<u8>)>, y: Seq<(Seq<char>, Seq<u8>)>, z: Seq<(Seq<char>, Seq<u8>)>)
    requires
        names_distinct(x),
        names_distinct(y),
        names_distinct(z),
        forall|a: int| 0 <= a < x.len() ==> name_kind(#[trigger] x[a].0) == 0,
        forall|a: int| 0 <= a < y.len() ==> name_kind(#[trigger] y[a].0) == 1,
        forall|a: int| 0 <= a < z.len() ==> name_kind(#[trigger] z[a].0) == 2,
    ensures
        names_distinct(x + y + z),
{
    let es = x + y + z;
    assert forall|a: int, b: int| 0 <= a < b < es.len() implies es[a].0 != es[b].0 by {
        if a < x.len() {
            assert(es[a] == x[a]);
        } else if a < x.len() + y.len() {
            assert(es[a] == y[a - x.len()]);
        } else {
            assert(es[a] == z[a - x.len() - y.len()]);
        }
        if b < x.len() {
            assert(es[b] == x[b]);
        } else if b < x.len() + y.len() {
            assert(es[b] == y[b - x.len()]);
        } else {
            assert(es[b] == z[b - x.len() - y.len()]);
        }
    }
}

/// Names short in each group are short together.
pub proof fn lemma_concat_short(x: Seq<(Seq<char>, Seq<u8>)>, y: Seq<(Seq<char>, Seq<u8>)>, z: Seq<(Seq<char>, Seq<u8>)>)
    requires
        names_short(x),
        names_short(y),
        names_short(z),
    ensures
        names_short(x + y + z),
{
    let es = x + y + z;
    assert forall|a: int| 0 <= a < es.len() implies utf8(#[trigger] es[a].0).len() <= 65535 by {
        if a < x.len() {
            assert(es[a] == x[a]);
        } else if a < x.len() + y.len() {
            assert(es[a] == y[a - x.len()]);
        } else {
            assert(es[a] == z[a - x.len() - y.len()]);
        }
    }
}

/// Slide part names are of the first kind.
pub proof fn lemma_slide_kinds(slides: Seq<Seq<ElementV>>)
    requires
        slides.len() < u64::MAX,
    ensures
        names_distinct(slide_entries(slides)),
        names_short(slide_entries(slides)),
        forall|a: int| 0 <= a < slide_entries(slides).len() ==> name_kind(#[trigger] slide_entries(slides)[a].0) == 0,
{
    let sa = slide_entries(slides);
    lemma_slide_entry_names(slides);
    assert forall|a: int| 0 <= a < sa.len() implies name_kind(#[trigger] sa[a].0) == 0 by {
        assert(slide_family(sa[a].0, slides.len()));
        let k = choose|k: nat|
            #![trigger slide_part_name(k)]
            #![trigger slide_rels_part_name(k)]
            1 <= k <= slides.len() && (sa[a].0 == slide_part_name(k) || sa[a].0 == slide_rels_part_name(k));
        lemma_slide_names_differ(k, k);
    }
}

/// Media part names are distinct, short, and of the second kind.
pub proof fn lemma_media_kinds(imgs: Seq<ImageV>)
    requires
        imgs.len() < u64::MAX,
    ensures
        names_distinct(media_entries(imgs)),
        names_short(media_entries(imgs)),
        forall|a: int| 0 <= a < media_entries(imgs).len() ==> name_kind(#[trigger] media_entries(imgs)[a].0) == 1,
{
    let ma = media_entries(imgs);
    lemma_media_entry(imgs);
    assert forall|a: int| 0 <= a < ma.len() implies name_kind(#[trigger] ma[a].0) == 1 && utf8(ma[a].0).len()
        <= 65535 by {
        lemma_media_names(a as nat, imgs[a], a as nat, imgs[a]);
    }
    assert forall|a: int, b: int| 0 <= a < b < ma.len() implies ma[a].0 != ma[b].0 by {
        lemma_media_names(a as nat, imgs[a], b as nat, imgs[b]);
    }
}

/// Fixed part names, as a list of parts, are distinct, short, and of the
/// third kind.
pub proof fn lemma_tail_kinds(tail: Seq<(Seq<char>, Seq<u8>)>)
    requires
        tail.len() == 6,
        forall|f: int| 0 <= f < 6 ==> #[trigger] tail[f].0 == fixed_part_names()[f],
    ensures
        names_distinct(tail),
        names_short(tail),
        forall|a: int| 0 <= a < tail.len() ==> name_kind(#[trigger] tail[a].0) == 2,
{
    lemma_fixed_part_names();
    assert forall|a: int| 0 <= a < tail.len() implies name_kind(#[trigger] tail[a].0) == 2 && utf8(tail[a].0).len()
        <= 65535 by {
        assert(tail[a].0 == fixed_part_names()[a]);
    }
    assert forall|a: int, b: int| 0 <= a < b < tail.len() implies tail[a].0 != tail[b].0 by {
        assert(tail[a].0 == fixed_part_names()[a]);
        assert(tail[b].0 == fixed_part_names()[b]);
    }
}

/// The parts of a package have distinct names, each short enough for a zip
/// entry.
pub proof fn lemma_pptx_names(slides: Seq<Seq<ElementV>>)
    requires
        slides.len() < u64::MAX,
        all_images(slides).len() < u64::MAX,
    ensures
        names_distinct(pptx_entries(slides)),
        names_short(pptx_entries(slides)),
{
    let sa = slide_entries(slides);
    let ma = media_entries(all_images(slides));
    let tail = pptx_entries(slides).skip((sa.len() + ma.len()) as int);
    lemma_pptx_tail(slides);
    lemma_slide_kinds(slides);
    lemma_media_kinds(all_images(slides));
    lemma_tail_kinds(tail);
    lemma_kinds_distinct(sa, ma, tail);
    lemma_concat_short(sa, ma, tail);
}

/// Being a prefix is transitive.
pub proof fn lemma_prefix_trans<A>(a: Seq<A>, b: Seq<A>, c: Seq<A>)
    requires
        a.is_prefix_of(b),
        b.is_prefix_of(c),
    ensures
        a.is_prefix_of(c),
{
    assert(a =~= c.subrange(0, a.len() as int));
}

/// The parts of all slides but the last begin those of all slides.
pub proof fn lemma_slide_entries_step(u: Seq<Seq<ElementV>>)
    requires
        u.len() > 0,
    ensures
        slide_entries(u.drop_last()).is_prefix_of(slide_entries(u)),
{
    let a = slide_entries(u.drop_last());
    assert(a =~= slide_entries(u).subrange(0, a.len() as int));
}

/// The parts written for the first `j` slides begin those of all slides.
pub proof fn lemma_slide_entries_prefix(slides: Seq<Seq<ElementV>>, j: int)
    requires
        0 <= j <= slides.len(),
    ensures
        slide_entries(slides.take(j)).is_prefix_of(slide_entries(slides)),
    decreases slides.len() - j,
{
    if j < slides.len() {
        lemma_slide_entries_prefix(slides, j + 1);
        let u = slides.take(j + 1);
        assert(u.drop_last() =~= slides.take(j));
        lemma_slide_entries_step(u);
        lemma_prefix_trans(slide_entries(slides.take(j)), slide_entries(u), slide_entries(slides));
    } else {
        assert(slides.take(j) =~= slides);
        assert(slide_entries(slides) =~= slide_entries(slides).subrange(0, slide_entries(slides).len() as int));
    }
}

/// The parts written for the first `k` images begin those of all images.
pub proof fn lemma_media_entries_prefix(imgs: Seq<ImageV>, k: int)
    requires
        0 <= k <= imgs.len(),
    ensures
        media_entries(imgs.take(k)).is_prefix_of(media_entries(imgs)),
    decreases imgs.len() - k,
{
    if k < imgs.len() {
        lemma_media_entries_prefix(imgs, k + 1);
        let u = imgs.take(k + 1);
        assert(u.drop_last() =~= imgs.take(k));
        let a = media_entries(imgs.take(k));
        assert(a =~= media_entries(u).subrange(0, a.len() as int));
        lemma_prefix_trans(a, media_entries(u), media_entries(imgs));
    } else {
        assert(imgs.take(k) =~= imgs);
        assert(media_entries(imgs) =~= media_entries(imgs).subrange(0, media_entries(imgs).len() as int));
    }
}

/// A prefix of `x` is a prefix of `x + y`, and `x` followed by a prefix of
/// `y` is a prefix of `x + y`.
pub proof fn lemma_prefix_concat<A>(x: Seq<A>, y: Seq<A>, t: Seq<A>)
    ensures
        t.is_prefix_of(x) ==> t.is_prefix_of(x + y),
        t.is_prefix_of(y) ==> (x + t).is_prefix_of(x + y),
{
    if t.is_prefix_of(x) {
        assert(t =~= (x + y).subrange(0, t.len() as int));
    }
    if t.is_prefix_of(y) {
        assert(x + t =~= (x + y).subrange(0, (x + t).len() as int));
    }
}

/// In a prefix `t` of the package's parts, the part at `d`, written after
/// the first `d` parts, has a name none of those has and short enough for a
/// zip entry, and it fits when all parts do.
pub proof fn lemma_next_part(es: Seq<(Seq<char>, Seq<u8>)>, t: Seq<(Seq<char>, Seq<u8>)>, d: int)
    requires
        t.is_prefix_of(es),
        0 <= d < t.len(),
        names_distinct(es),
        names_short(es),
    ensures
        forall|k: int| 0 <= k < d ==> (#[trigger] t.take(d)[k]).0 != t[d].0,
        utf8(t[d].0).len() <= 65535,
        parts_fit(es) ==> t[d].1.len() <= u32::MAX,
{
    assert(t[d] == es.subrange(0, t.len() as int)[d]);
    assert forall|k: int| 0 <= k < d implies (#[trigger] t.take(d)[k]).0 != t[d].0 by {
        assert(t.take(d)[k] == t[k]);
        assert(t[k] == es.subrange(0, t.len() as int)[k]);
    }
}

/// Adding a part that fits keeps all parts fitting.
pub proof fn lemma_parts_fit_push(es: Seq<(Seq<char>, Seq<u8>)>, e: (Seq<char>, Seq<u8>))
    requires
        parts_fit(es),
        e.1.len() <= u32::MAX,
    ensures
        parts_fit(es.push(e)),
{
    assert forall|a: int| 0 <= a < es.push(e).len() implies (#[trigger] es.push(e)[a]).1.len() <= u32::MAX by {
        if a < es.len() {
            assert(es.push(e)[a] == es[a]);
        }
    }
}

} // verus!
