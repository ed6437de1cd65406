use vstd::prelude::*;
use crate::order::{lex_lt, lemma_lex_irreflexive, lemma_lex_transitive, lemma_lex_asymmetric, compare_strs};
use crate::photo::{Coord, Image, label_of, format_location};

verus! {

/// One place of the index: a label and the coordinate that stands for it.
#[derive(Debug, PartialEq)]
pub struct PlaceEntry {
    pub label: String,
    pub coord: Coord,
}

/// The coordinate of the last photo of `imgs` whose label is `l`, if any.
pub open spec fn last_coord(imgs: Seq<Image>, l: Seq<char>) -> Option<Coord>
    decreases imgs.len(),
{
    if imgs.len() == 0 {
        None
    } else if label_of(imgs.last()) == l {
        Some(imgs.last().coord)
    } else {
        last_coord(imgs.drop_last(), l)
    }
}

/// The labels of `es` strictly ascend, so no label occurs twice.
pub open spec fn sorted_by_label(es: Seq<PlaceEntry>) -> bool {
    forall|i: int, j: int|
        #![trigger es[i], es[j]]
        0 <= i < j < es.len() ==> lex_lt(es[i].label@, es[j].label@)
}

/// `es` is the place index of the catalog `imgs`: one entry per label that
/// occurs in `imgs`, with the coordinate of the last photo of that label,
/// in ascending label order.
pub open spec fn is_place_index(imgs: Seq<Image>, es: Seq<PlaceEntry>) -> bool {
    &&& sorted_by_label(es)
    &&& forall|k: int| 0 <= k < es.len() ==> last_coord(imgs, #[trigger] es[k].label@) == Some(es[k].coord)
    &&& forall|l: Seq<char>| (#[trigger] last_coord(imgs, l)) is Some ==> exists|k: int| 0 <= k < es.len() && es[k].label@ == l
}

proof fn lemma_last_coord_push(s: Seq<Image>, x: Image, l: Seq<char>)
    ensures
        last_coord(s.push(x), l) == if label_of(x) == l { Some(x.coord) } else { last_coord(s, l) },
{
    assert(s.push(x).drop_last() =~= s);
}

/// Builds the place index of a catalog: photos are grouped by their label,
/// the last photo of a label (in catalog order) gives its coordinate, and
/// the entries come in ascending label order.
pub fn places_index(images: &Vec<Image>) -> (r: Vec<PlaceEntry>)
    ensures
        is_place_index(images@, r@),
{
    let mut r: Vec<PlaceEntry> = Vec::new();
    let n = images.len();
    let mut i: usize = 0;
    proof {
        assert(images@.subrange(0, 0) =~= Seq::<Image>::empty());
    }
    while i < n
        invariant
            n == images@.len(),
            i <= n,
            is_place_index(images@.subrange(0, i as int), r@),
        decreases n - i,
    {
        let img = &images[i];
        let lbl = format_location(img);
        let ghost s = images@.subrange(0, i as int);
        let ghost s2 = images@.subrange(0, i + 1);
        proof {
            assert(s2 =~= s.push(*img));
        }
        let mut p: usize = 0;
        let mut c: i8 = 1;
        let mut stop = false;
        while !stop && p < r.len()
            invariant
                0 <= p <= r@.len(),
                forall|q: int| 0 <= q < p ==> lex_lt(#[trigger] r@[q].label@, lbl@),
                stop ==> p < r@.len() && (c == 0 <==> r@[p as int].label@ == lbl@) && (c > 0
                    <==> lex_lt(lbl@, r@[p as int].label@)) && c >= 0,
            decreases r@.len() - p + (if stop { 0int } else { 1int }),
        {
            c = compare_strs(r[p].label.as_str(), lbl.as_str());
            if c >= 0 {
                stop = true;
            } else {
                p = p + 1;
            }
        }
        let ghost old_r = r@;
        let ghost hit = p < r@.len() && c == 0;
        assert(p < r@.len() ==> stop);
        proof {
            assert forall|q: int| 0 <= q < p implies (#[trigger] old_r[q]).label@ != lbl@ by {
                lemma_lex_irreflexive(lbl@);
            }
            if p < r@.len() {
                if c != 0 {
                    assert(lex_lt(lbl@, r@[p as int].label@));
                    assert forall|q: int| p <= q < old_r.len() implies lex_lt(lbl@, (#[trigger] old_r[q]).label@) by {
                        if q > p {
                            lemma_lex_transitive(lbl@, old_r[p as int].label@, old_r[q].label@);
                        }
                    }
                } else {
                    assert forall|q: int| 0 <= q < old_r.len() && q != p implies (#[trigger] old_r[q]).label@ != lbl@ by {
                        if q > p {
                            lemma_lex_irreflexive(lbl@);
                        }
                    }
                }
            }
        }
        let entry = PlaceEntry { label: lbl, coord: img.coord };
        let ghost e = entry;
        if p < r.len() && c == 0 {
            r.set(p, entry);
        } else {
            r.insert(p, entry);
        }
        proof {
            assert forall|l: Seq<char>| true implies #[trigger] last_coord(s2, l) == if label_of(*img) == l { Some(img.coord) } else { last_coord(s, l) } by {
                lemma_last_coord_push(s, *img, l);
            }
            if hit {
                assert(r@ == old_r.update(p as int, e));
                assert forall|k: int| 0 <= k < r@.len() implies last_coord(s2, #[trigger] r@[k].label@) == Some(r@[k].coord) by {
                    if k != p {
                        assert(r@[k] == old_r[k]);
                    }
                }
                assert forall|l: Seq<char>| (#[trigger] last_coord(s2, l)) is Some implies exists|k: int| 0 <= k < r@.len() && r@[k].label@ == l by {
                    if l != lbl@ {
                        let k = choose|k: int| 0 <= k < old_r.len() && old_r[k].label@ == l;
                        assert(r@[k] == old_r[k]);
                    } else {
                        assert(r@[p as int].label@ == l);
                    }
                }
            } else {
                assert(r@ == old_r.insert(p as int, e));
                assert forall|a: int, b: int| 0 <= a < b < r@.len() implies lex_lt(#[trigger] r@[a].label@, #[trigger] r@[b].label@) by {
                    if a < p && b > p {
                        assert(r@[a] == old_r[a]);
                        assert(r@[b] == old_r[b - 1]);
                        lemma_lex_transitive(old_r[a].label@, lbl@, old_r[b - 1].label@);
                    } else if a < p && b == p {
                        assert(r@[a] == old_r[a]);
                    } else if a == p {
                        assert(r@[b] == old_r[b - 1]);
                    } else if b < p {
                        assert(r@[a] == old_r[a]);
                        assert(r@[b] == old_r[b]);
                        assert(lex_lt(old_r[a].label@, old_r[b].label@));
                    } else {
                        assert(r@[a] == old_r[a - 1]);
                        assert(r@[b] == old_r[b - 1]);
                        assert(lex_lt(old_r[a - 1].label@, old_r[b - 1].label@));
                    }
                }
                assert forall|k: int| 0 <= k < r@.len() implies last_coord(s2, #[trigger] r@[k].label@) == Some(r@[k].coord) by {
                    lemma_lex_irreflexive(lbl@);
                    if k < p {
                        assert(r@[k] == old_r[k]);
                        assert(old_r[k].label@ != lbl@);
                        assert(last_coord(s, old_r[k].label@) == Some(old_r[k].coord));
                    } else if k > p {
                        assert(r@[k] == old_r[k - 1]);
                        assert(lex_lt(lbl@, old_r[k - 1].label@));
                        assert(old_r[k - 1].label@ != lbl@);
                        assert(last_coord(s, old_r[k - 1].label@) == Some(old_r[k - 1].coord));
                    } else {
                        assert(r@[k] == e);
                        assert(last_coord(s2, lbl@) == Some(img.coord));
                    }
                }
                assert forall|l: Seq<char>| (#[trigger] last_coord(s2, l)) is Some implies exists|k: int| 0 <= k < r@.len() && r@[k].label@ == l by {
                    if l != lbl@ {
                        let k = choose|k: int| 0 <= k < old_r.len() && old_r[k].label@ == l;
                        if k < p {
                            assert(r@[k] == old_r[k]);
                        } else {
                            assert(r@[k + 1] == old_r[k]);
                        }
                    } else {
                        assert(r@[p as int].label@ == l);
                    }
                }
            }
        }
        i = i + 1;
    }
    proof {
        assert(images@.subrange(0, n as int) =~= images@);
    }
    r
}

/// The labels of `es`, in order.
pub open spec fn labels(es: Seq<PlaceEntry>) -> Seq<Seq<char>> {
    es.map_values(|e: PlaceEntry| e.label@)
}

#[verifier::opaque]
spec fn strictly_ascending(s: Seq<Seq<char>>) -> bool {
    forall|i: int, j: int| #![trigger s[i], s[j]] 0 <= i < j < s.len() ==> lex_lt(s[i], s[j])
}

#[verifier::opaque]
spec fn covered_by(a: Seq<Seq<char>>, b: Seq<Seq<char>>) -> bool {
    forall|i: int| 0 <= i < a.len() ==> b.contains(#[trigger] a[i])
}

proof fn lemma_heads_equal(a: Seq<Seq<char>>, b: Seq<Seq<char>>)
    requires
        strictly_ascending(a),
        strictly_ascending(b),
        covered_by(a, b),
        covered_by(b, a),
        a.len() > 0,
        b.len() > 0,
    ensures
        a[0] == b[0],
{
    reveal(strictly_ascending);
    reveal(covered_by);
    let _ = a[0];
    let _ = b[0];
    let m = choose|j: int| 0 <= j < b.len() && b[j] == a[0];
    let n = choose|j: int| 0 <= j < a.len() && a[j] == b[0];
    if m > 0 && n > 0 {
        assert(lex_lt(b[0], b[m]));
        assert(lex_lt(a[0], a[n]));
        lemma_lex_asymmetric(a[0], b[0]);
    } else if m > 0 {
        assert(lex_lt(b[0], b[m]));
        lemma_lex_irreflexive(a[0]);
    } else if n > 0 {
        assert(lex_lt(a[0], a[n]));
        lemma_lex_irreflexive(b[0]);
    }
}

proof fn lemma_tail_covered(a: Seq<Seq<char>>, b: Seq<Seq<char>>)
    requires
        strictly_ascending(a),
        covered_by(a, b),
        a.len() > 0,
        b.len() > 0,
        a[0] == b[0],
    ensures
        covered_by(a.drop_first(), b.drop_first()),
{
    reveal(strictly_ascending);
    reveal(covered_by);
    let a1 = a.drop_first();
    let b1 = b.drop_first();
    assert forall|i: int| 0 <= i < a1.len() implies b1.contains(#[trigger] a1[i]) by {
        let _ = a[i + 1];
        let j = choose|j: int| 0 <= j < b.len() && b[j] == a[i + 1];
        assert(lex_lt(a[0], a[i + 1]));
        lemma_lex_irreflexive(a[0]);
        assert(b1[j - 1] == b[j]);
    }
}

proof fn lemma_tail_ascending(a: Seq<Seq<char>>)
    requires
        strictly_ascending(a),
        a.len() > 0,
    ensures
        strictly_ascending(a.drop_first()),
{
    reveal(strictly_ascending);
    let a1 = a.drop_first();
    assert forall|i: int, j: int| #![trigger a1[i], a1[j]] 0 <= i < j < a1.len() implies lex_lt(a1[i], a1[j]) by {
        assert(lex_lt(a[i + 1], a[j + 1]));
    }
}

proof fn lemma_ascending_same_members(a: Seq<Seq<char>>, b: Seq<Seq<char>>)
    requires
        strictly_ascending(a),
        strictly_ascending(b),
        covered_by(a, b),
        covered_by(b, a),
    ensures
        a == b,
    decreases a.len() + b.len(),
{
    if a.len() == 0 || b.len() == 0 {
        reveal(covered_by);
        if b.len() > 0 {
            let _ = b[0];
        }
        if a.len() > 0 {
            let _ = a[0];
        }
        assert(a =~= b);
    } else {
        lemma_heads_equal(a, b);
        lemma_tail_covered(a, b);
        lemma_tail_covered(b, a);
        lemma_tail_ascending(a);
        lemma_tail_ascending(b);
        lemma_ascending_same_members(a.drop_first(), b.drop_first());
        assert(a =~= seq![a[0]] + a.drop_first());
        assert(b =~= seq![b[0]] + b.drop_first());
    }
}

/// The place index of a catalog is determined by the catalog: two indexes
/// of one catalog have the same labels and coordinates, entry by entry.
pub proof fn lemma_place_index_unique(imgs: Seq<Image>, a: Seq<PlaceEntry>, b: Seq<PlaceEntry>)
    requires
        is_place_index(imgs, a),
        is_place_index(imgs, b),
    ensures
        a.len() == b.len(),
        forall|k: int| 0 <= k < a.len() ==> (#[trigger] a[k]).label@ == b[k].label@ && a[k].coord == b[k].coord,
{
    let la = labels(a);
    let lb = labels(b);
    reveal(strictly_ascending);
    reveal(covered_by);
    assert forall|i: int, j: int| #![trigger la[i], la[j]] 0 <= i < j < la.len() implies lex_lt(la[i], la[j]) by {
        assert(lex_lt(a[i].label@, a[j].label@));
    }
    assert forall|i: int, j: int| #![trigger lb[i], lb[j]] 0 <= i < j < lb.len() implies lex_lt(lb[i], lb[j]) by {
        assert(lex_lt(b[i].label@, b[j].label@));
    }
    assert forall|i: int| 0 <= i < la.len() implies lb.contains(#[trigger] la[i]) by {
        assert(last_coord(imgs, a[i].label@) is Some);
        let j = choose|j: int| 0 <= j < b.len() && b[j].label@ == a[i].label@;
        assert(lb[j] == la[i]);
    }
    assert forall|i: int| 0 <= i < lb.len() implies la.contains(#[trigger] lb[i]) by {
        assert(last_coord(imgs, b[i].label@) is Some);
        let j = choose|j: int| 0 <= j < a.len() && a[j].label@ == b[i].label@;
        assert(la[j] == lb[i]);
    }
    lemma_ascending_same_members(la, lb);
    assert forall|k: int| 0 <= k < a.len() implies (#[trigger] a[k]).label@ == b[k].label@ && a[k].coord == b[k].coord by {
        assert(la[k] == lb[k]);
        assert(last_coord(imgs, a[k].label@) == Some(a[k].coord));
        assert(last_coord(imgs, b[k].label@) == Some(b[k].coord));
    }
}

proof fn lemma_last_coord_at(imgs: Seq<Image>, j: int)
    requires
        0 <= j < imgs.len(),
        forall|k: int| j < k < imgs.len() ==> label_of(#[trigger] imgs[k]) != label_of(imgs[j]),
    ensures
        last_coord(imgs, label_of(imgs[j])) == Some(imgs[j].coord),
    decreases imgs.len(),
{
    if j < imgs.len() - 1 {
        let s = imgs.drop_last();
        assert(label_of(imgs[imgs.len() - 1]) != label_of(imgs[j]));
        assert forall|k: int| j < k < s.len() implies label_of(#[trigger] s[k]) != label_of(s[j]) by {
            assert(s[k] == imgs[k]);
        }
        lemma_last_coord_at(s, j);
    }
}

/// Last write wins: when two photos share a label and the later one is the
/// last photo of the catalog with that label, the index gives that label
/// the later photo's coordinate.
pub proof fn lemma_last_write_wins(imgs: Seq<Image>, i: int, j: int, es: Seq<PlaceEntry>)
    requires
        0 <= i < j < imgs.len(),
        label_of(imgs[i]) == label_of(imgs[j]),
        forall|k: int| j < k < imgs.len() ==> label_of(#[trigger] imgs[k]) != label_of(imgs[j]),
        is_place_index(imgs, es),
    ensures
        exists|k: int| 0 <= k < es.len() && es[k].label@ == label_of(imgs[i]) && es[k].coord == imgs[j].coord,
{
    lemma_last_coord_at(imgs, j);
    let k = choose|k: int| 0 <= k < es.len() && es[k].label@ == label_of(imgs[j]);
    assert(last_coord(imgs, es[k].label@) == Some(es[k].coord));
}

} // verus!
