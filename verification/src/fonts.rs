//! The font family list offered in the settings: the installed family
//! names sorted by their lower-cased form, each name kept once up to ASCII
//! case.

use vstd::prelude::*;
use crate::text::{chars_eq_ignore_ascii_case, chars_of, eq_ignore_ascii_case};

verus! {

broadcast use vstd::seq_lib::to_multiset_update;

/// Code-point lexicographic order on texts, which is the order `String`'s
/// `Ord` gives them (UTF-8 preserves code-point order).
pub open spec fn text_le(a: Seq<char>, b: Seq<char>) -> bool
    decreases a.len(),
{
    if a.len() == 0 {
        true
    } else if b.len() == 0 {
        false
    } else if (a[0] as u32) < (b[0] as u32) {
        true
    } else if (a[0] as u32) == (b[0] as u32) {
        text_le(a.drop_first(), b.drop_first())
    } else {
        false
    }
}

pub proof fn lemma_text_le_total(a: Seq<char>, b: Seq<char>)
    ensures
        text_le(a, b) || text_le(b, a),
    decreases a.len(),
{
    if a.len() > 0 && b.len() > 0 && (a[0] as u32) == (b[0] as u32) {
        lemma_text_le_total(a.drop_first(), b.drop_first());
    }
}

pub proof fn lemma_text_le_transitive(a: Seq<char>, b: Seq<char>, c: Seq<char>)
    requires
        text_le(a, b),
        text_le(b, c),
    ensures
        text_le(a, c),
    decreases a.len(),
{
    if a.len() > 0 && b.len() > 0 && c.len() > 0 && (a[0] as u32) == (b[0] as u32) && (b[0] as u32) == (c[0] as u32) {
        lemma_text_le_transitive(a.drop_first(), b.drop_first(), c.drop_first());
    }
}

/// The lower-cased form of a text, as `str::to_lowercase` gives it (full
/// Unicode case mapping).
pub uninterp spec fn lowercase_of(s: Seq<char>) -> Seq<char>;

/// Calls `str::to_lowercase`, whose result depends on the text alone and is
/// named `lowercase_of`; nothing more of it is claimed.
#[verifier::external_body]
fn unicode_lowercase(s: &str) -> (r: String)
    ensures
        r@ == lowercase_of(s@),
{
    s.to_lowercase()
}

/// Whether some text of `d` is equal to `s` up to ASCII case.
pub open spec fn has_case_twin(d: Seq<Seq<char>>, s: Seq<char>) -> bool {
    exists|i: int| 0 <= i < d.len() && eq_ignore_ascii_case(#[trigger] d[i], s)
}

/// `p` with every element dropped that is equal up to ASCII case to an
/// element kept before it: the first of each such group stays.
pub open spec fn dedup_ascii(p: Seq<Seq<char>>) -> Seq<Seq<char>>
    decreases p.len(),
{
    if p.len() == 0 {
        p
    } else {
        let d = dedup_ascii(p.drop_last());
        if has_case_twin(d, p.last()) {
            d
        } else {
            d.push(p.last())
        }
    }
}

/// The texts of a list of strings.
pub open spec fn texts(v: Seq<String>) -> Seq<Seq<char>> {
    v.map_values(|s: String| s@)
}

/// The lower-cased forms of the texts of `p` are in order.
pub open spec fn lowercase_sorted(p: Seq<Seq<char>>) -> bool {
    forall|x: int, y: int| 0 <= x < y < p.len() ==> text_le(lowercase_of(#[trigger] p[x]), lowercase_of(#[trigger] p[y]))
}

/// `out` is `p` deduplicated, where `p` is `raw` reordered so that the
/// lower-cased forms are in order.
pub open spec fn normalized_from(raw: Seq<Seq<char>>, p: Seq<Seq<char>>, out: Seq<Seq<char>>) -> bool {
    &&& p.to_multiset() == raw.to_multiset()
    &&& lowercase_sorted(p)
    &&& out == dedup_ascii(p)
}

fn text_le_exec(a: &[char], b: &[char]) -> (r: bool)
    ensures
        r == text_le(a@, b@),
{
    let mut i: usize = 0;
    assert(a@.skip(0) =~= a@ && b@.skip(0) =~= b@);
    while i < a.len() && i < b.len()
        invariant
            i <= a@.len(),
            i <= b@.len(),
            text_le(a@, b@) == text_le(a@.skip(i as int), b@.skip(i as int)),
        decreases a.len() - i,
    {
        let x = a[i] as u32;
        let y = b[i] as u32;
        assert(a@.skip(i as int)[0] as u32 == x && b@.skip(i as int)[0] as u32 == y);
        if x != y {
            return x < y;
        }
        assert(a@.skip(i as int).drop_first() =~= a@.skip(i + 1));
        assert(b@.skip(i as int).drop_first() =~= b@.skip(i + 1));
        i = i + 1;
    }
    a.len() <= b.len()
}

/// The font families to offer, from the family names the system reported:
/// sorted by their lower-cased names, each name kept once up to ASCII case
/// (the first of a group, in that order).
pub fn installed_font_families(families: Vec<String>) -> (r: Vec<String>)
    ensures
        exists|p: Seq<Seq<char>>| #[trigger] normalized_from(texts(families@), p, texts(r@)),
        lowercase_sorted(texts(r@)),
        forall|i: int, j: int| 0 <= i < j < r@.len() ==> !eq_ignore_ascii_case(
            #[trigger] texts(r@)[i],
            #[trigger] texts(r@)[j],
        ),
        forall|i: int| 0 <= i < r@.len() ==> #[trigger] texts(families@).contains(texts(r@)[i]),
        forall|k: int| 0 <= k < families@.len() ==> #[trigger] has_case_twin(texts(r@), texts(families@)[k]),
{
    let n = families.len();
    let ghost raw = texts(families@);
    let mut keys: Vec<Vec<char>> = Vec::new();
    let mut idx: Vec<usize> = Vec::new();
    let mut k: usize = 0;
    while k < n
        invariant
            n == families@.len(),
            raw == texts(families@),
            k <= n,
            keys@.len() == k,
            idx@.len() == k,
            forall|q: int| 0 <= q < k ==> #[trigger] keys@[q]@ == lowercase_of(raw[q]),
            forall|q: int| 0 <= q < k ==> #[trigger] idx@[q] == q,
        decreases n - k,
    {
        let lower = unicode_lowercase(families[k].as_str());
        keys.push(chars_of(lower.as_str()));
        idx.push(k);
        k = k + 1;
    }
    let ghost mut p: Seq<Seq<char>> = raw;
    assert(raw.len() == n);
    let mut i: usize = 1;
    while i < n
        invariant
            n == families@.len(),
            raw == texts(families@),
            raw.len() == n,
            keys@.len() == n,
            idx@.len() == n,
            p.len() == n,
            1 <= i || n == 0,
            forall|q: int| 0 <= q < n ==> #[trigger] keys@[q]@ == lowercase_of(raw[q]),
            forall|q: int| 0 <= q < n ==> #[trigger] idx@[q] < n,
            forall|q: int| 0 <= q < n ==> #[trigger] p[q] == raw[idx@[q] as int],
            p.to_multiset() == raw.to_multiset(),
            forall|x: int, y: int| 0 <= x < y < i && y < n ==> text_le(
                #[trigger] keys@[idx@[x] as int]@,
                #[trigger] keys@[idx@[y] as int]@,
            ),
        decreases n - i,
    {
        let mut j: usize = i;
        while j > 0 && !text_le_exec(keys[idx[j - 1]].as_slice(), keys[idx[j]].as_slice())
            invariant
                n == families@.len(),
                raw == texts(families@),
                raw.len() == n,
                keys@.len() == n,
                idx@.len() == n,
                p.len() == n,
                0 <= j <= i < n,
                forall|q: int| 0 <= q < n ==> #[trigger] keys@[q]@ == lowercase_of(raw[q]),
                forall|q: int| 0 <= q < n ==> #[trigger] idx@[q] < n,
                forall|q: int| 0 <= q < n ==> #[trigger] p[q] == raw[idx@[q] as int],
                p.to_multiset() == raw.to_multiset(),
                forall|x: int, y: int| 0 <= x < y <= i && x != j && y != j ==> text_le(
                    #[trigger] keys@[idx@[x] as int]@,
                    #[trigger] keys@[idx@[y] as int]@,
                ),
                forall|y: int| j < y <= i ==> text_le(keys@[idx@[j as int] as int]@, #[trigger] keys@[idx@[y] as int]@),
            decreases j,
        {
            let a = idx[j - 1];
            let b = idx[j];
            proof {
                lemma_text_le_total(keys@[a as int]@, keys@[b as int]@);
                let p1 = p.update(j - 1, p[j as int]);
                assert(p1.to_multiset() == p.to_multiset().insert(p[j as int]).remove(p[j - 1]));
                assert(p1[j as int] == p[j as int]);
                let p2 = p1.update(j as int, p[j - 1]);
                broadcast use vstd::multiset::group_multiset_properties;
                broadcast use vstd::multiset::group_multiset_axioms;
                broadcast use vstd::seq_lib::to_multiset_contains;
                assert(p.contains(p[j - 1]));
                assert(p1.contains(p1[j as int]));
                assert(p2.to_multiset() == p1.to_multiset().insert(p[j - 1]).remove(p1[j as int]));
                assert(p2.to_multiset() =~= p.to_multiset());
                p = p2;
            }
            idx.set(j - 1, b);
            idx.set(j, a);
            proof {
                assert forall|x: int, y: int| 0 <= x < y <= i && x != j - 1 && y != j - 1 implies text_le(
                    #[trigger] keys@[idx@[x] as int]@,
                    #[trigger] keys@[idx@[y] as int]@,
                ) by {
                    if x == j as int {
                        assert(idx@[x] == a);
                        assert(text_le(keys@[a as int]@, keys@[idx@[y] as int]@));
                    } else if y == j as int {
                        assert(idx@[y] == a);
                    }
                }
                assert forall|y: int| j - 1 < y <= i implies text_le(keys@[idx@[j - 1] as int]@, #[trigger] keys@[idx@[y] as int]@) by {
                    assert(idx@[j - 1] == b);
                    if y == j as int {
                        assert(idx@[y] == a);
                    } else {
                        assert(text_le(keys@[b as int]@, keys@[idx@[y] as int]@));
                    }
                }
            }
            j = j - 1;
        }
        proof {
            assert forall|x: int, y: int| 0 <= x < y < i + 1 && y < n implies text_le(
                #[trigger] keys@[idx@[x] as int]@,
                #[trigger] keys@[idx@[y] as int]@,
            ) by {
                if y == j as int {
                    if x < j - 1 {
                        lemma_text_le_transitive(
                            keys@[idx@[x] as int]@,
                            keys@[idx@[j - 1] as int]@,
                            keys@[idx@[j as int] as int]@,
                        );
                    }
                } else if x == j as int {
                } else {
                }
            }
        }
        i = i + 1;
    }
    assert(lowercase_sorted(p)) by {
        assert forall|x: int, y: int| 0 <= x < y < p.len() implies text_le(lowercase_of(#[trigger] p[x]), lowercase_of(#[trigger] p[y])) by {
            assert(keys@[idx@[x] as int]@ == lowercase_of(p[x]));
            assert(keys@[idx@[y] as int]@ == lowercase_of(p[y]));
        }
    }
    let mut out: Vec<String> = Vec::new();
    let mut kept: Vec<Vec<char>> = Vec::new();
    let mut m: usize = 0;
    assert(p.take(0) =~= Seq::<Seq<char>>::empty());
    while m < n
        invariant
            n == families@.len(),
            raw == texts(families@),
            idx@.len() == n,
            p.len() == n,
            forall|q: int| 0 <= q < n ==> #[trigger] idx@[q] < n,
            forall|q: int| 0 <= q < n ==> #[trigger] p[q] == raw[idx@[q] as int],
            m <= n,
            texts(out@) == dedup_ascii(p.take(m as int)),
            kept@.len() == out@.len(),
            forall|q: int| 0 <= q < kept@.len() ==> #[trigger] kept@[q]@ == texts(out@)[q],
        decreases n - m,
    {
        let name = &families[idx[m]];
        let cs = chars_of(name.as_str());
        assert(cs@ == p[m as int]);
        assert(p.take(m + 1).drop_last() =~= p.take(m as int));
        assert(p.take(m + 1).last() == p[m as int]);
        let dup = any_case_twin(kept.as_slice(), cs.as_slice());
        assert(dup == has_case_twin(texts(out@), cs@)) by {
            if dup {
                let i = choose|i: int| 0 <= i < kept@.len() && eq_ignore_ascii_case(#[trigger] kept@[i]@, cs@);
                assert(eq_ignore_ascii_case(texts(out@)[i], cs@));
            }
            if has_case_twin(texts(out@), cs@) {
                let i = choose|i: int| 0 <= i < texts(out@).len() && eq_ignore_ascii_case(#[trigger] texts(out@)[i], cs@);
                assert(eq_ignore_ascii_case(kept@[i]@, cs@));
            }
        }
        if !dup {
            out.push(name.clone());
            assert(texts(out@) =~= dedup_ascii(p.take(m as int)).push(p[m as int]));
            kept.push(cs);
        }
        m = m + 1;
    }
    assert(p.take(n as int) =~= p);
    assert(normalized_from(raw, p, texts(out@)));
    proof {
        law_no_case_duplicates(p);
        law_offered_families_are_sorted(p);
        law_offered_families_are_reported(p);
        law_every_family_is_offered(p);
        broadcast use vstd::seq_lib::to_multiset_contains;
        assert forall|i: int| 0 <= i < out@.len() implies #[trigger] raw.contains(texts(out@)[i]) by {
            assert(p.contains(texts(out@)[i]));
            assert(p.to_multiset().count(texts(out@)[i]) > 0);
        }
        assert forall|k: int| 0 <= k < raw.len() implies #[trigger] has_case_twin(texts(out@), raw[k]) by {
            assert(raw.contains(raw[k]));
            assert(raw.to_multiset().count(raw[k]) > 0);
            assert(p.contains(raw[k]));
            let j = choose|j: int| 0 <= j < p.len() && p[j] == raw[k];
            assert(has_case_twin(dedup_ascii(p), p[j]));
        }
    }
    out
}

/// Whether some text of `kept` is equal to `cs` up to ASCII case.
fn any_case_twin(kept: &[Vec<char>], cs: &[char]) -> (r: bool)
    ensures
        r == exists|i: int| 0 <= i < kept@.len() && eq_ignore_ascii_case(#[trigger] kept@[i]@, cs@),
{
    let mut i: usize = 0;
    while i < kept.len()
        invariant
            i <= kept@.len(),
            forall|q: int| 0 <= q < i ==> !eq_ignore_ascii_case(#[trigger] kept@[q]@, cs@),
        decreases kept.len() - i,
    {
        if chars_eq_ignore_ascii_case(kept[i].as_slice(), cs) {
            return true;
        }
        i = i + 1;
    }
    false
}

/// `dedup_ascii(p.drop_last())` is the start of `dedup_ascii(p)`.
proof fn lemma_dedup_extends(p: Seq<Seq<char>>)
    requires
        p.len() > 0,
    ensures
        dedup_ascii(p.drop_last()).len() <= dedup_ascii(p).len(),
        forall|i: int| 0 <= i < dedup_ascii(p.drop_last()).len() ==> #[trigger] dedup_ascii(p)[i]
            == dedup_ascii(p.drop_last())[i],
{
}

/// No two offered families are equal up to ASCII case.
pub proof fn law_no_case_duplicates(p: Seq<Seq<char>>)
    ensures
        forall|i: int, j: int| 0 <= i < j < dedup_ascii(p).len() ==> !eq_ignore_ascii_case(
            #[trigger] dedup_ascii(p)[i],
            #[trigger] dedup_ascii(p)[j],
        ),
    decreases p.len(),
{
    if p.len() > 0 {
        law_no_case_duplicates(p.drop_last());
        let d = dedup_ascii(p.drop_last());
        if !has_case_twin(d, p.last()) {
            let e = d.push(p.last());
            assert forall|i: int, j: int| 0 <= i < j < e.len() implies !eq_ignore_ascii_case(#[trigger] e[i], #[trigger] e[j]) by {
                assert(e[i] == d[i]);
                if j == e.len() - 1 {
                    assert(e[j] == p.last());
                } else {
                    assert(e[j] == d[j]);
                }
            }
        }
    }
}

/// Every offered family is one of the reported names.
pub proof fn law_offered_families_are_reported(p: Seq<Seq<char>>)
    ensures
        forall|i: int| 0 <= i < dedup_ascii(p).len() ==> #[trigger] p.contains(dedup_ascii(p)[i]),
    decreases p.len(),
{
    if p.len() > 0 {
        law_offered_families_are_reported(p.drop_last());
        let d = dedup_ascii(p.drop_last());
        assert forall|i: int| 0 <= i < dedup_ascii(p).len() implies #[trigger] p.contains(dedup_ascii(p)[i]) by {
            if i < d.len() {
                assert(p.drop_last().contains(d[i]));
                let j = choose|j: int| 0 <= j < p.drop_last().len() && p.drop_last()[j] == d[i];
                assert(p[j] == d[i]);
            } else {
                assert(dedup_ascii(p)[i] == p[p.len() - 1]);
            }
        }
    }
}

/// Every reported name is offered, itself or a name equal to it up to ASCII
/// case.
pub proof fn law_every_family_is_offered(p: Seq<Seq<char>>)
    ensures
        forall|k: int| 0 <= k < p.len() ==> #[trigger] has_case_twin(dedup_ascii(p), p[k]),
    decreases p.len(),
{
    if p.len() > 0 {
        let q = p.drop_last();
        law_every_family_is_offered(q);
        lemma_dedup_extends(p);
        let d = dedup_ascii(q);
        let e = dedup_ascii(p);
        assert forall|k: int| 0 <= k < p.len() implies #[trigger] has_case_twin(e, p[k]) by {
            if k < q.len() {
                assert(q[k] == p[k]);
                assert(has_case_twin(d, q[k]));
                let i = choose|i: int| 0 <= i < d.len() && eq_ignore_ascii_case(#[trigger] d[i], q[k]);
                assert(e[i] == d[i]);
            } else if has_case_twin(d, p.last()) {
                let i = choose|i: int| 0 <= i < d.len() && eq_ignore_ascii_case(#[trigger] d[i], p.last());
                assert(e[i] == d[i]);
            } else {
                assert(e[e.len() - 1] == p.last());
                assert(eq_ignore_ascii_case(e[e.len() - 1], p[k]));
            }
        }
    }
}

/// Keeping the first of each group of ASCII-case duplicates keeps the list
/// in order: the offered families are sorted by their lower-cased names.
pub proof fn law_offered_families_are_sorted(p: Seq<Seq<char>>)
    requires
        lowercase_sorted(p),
    ensures
        lowercase_sorted(dedup_ascii(p)),
    decreases p.len(),
{
    if p.len() > 0 {
        let q = p.drop_last();
        assert(lowercase_sorted(q)) by {
            assert forall|x: int, y: int| 0 <= x < y < q.len() implies text_le(lowercase_of(#[trigger] q[x]), lowercase_of(#[trigger] q[y])) by {
                assert(q[x] == p[x] && q[y] == p[y]);
            }
        }
        law_offered_families_are_sorted(q);
        law_offered_families_are_reported(q);
        let d = dedup_ascii(q);
        if !has_case_twin(d, p.last()) {
            let e = d.push(p.last());
            assert forall|x: int, y: int| 0 <= x < y < e.len() implies text_le(lowercase_of(#[trigger] e[x]), lowercase_of(#[trigger] e[y])) by {
                if y == e.len() - 1 {
                    assert(q.contains(d[x]));
                    let j = choose|j: int| 0 <= j < q.len() && q[j] == d[x];
                    assert(p[j] == d[x]);
                    assert(e[y] == p[p.len() - 1]);
                    assert(text_le(lowercase_of(p[j]), lowercase_of(p[p.len() - 1])));
                } else {
                    assert(e[x] == d[x] && e[y] == d[y]);
                }
            }
        }
    }
}

} // verus!
