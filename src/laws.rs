//! Properties of the flat-image layout, proved over the specifications that
//! the writers' contracts use.
use vstd::prelude::*;
use crate::copy::{copy_image, copy_result, supports};
use crate::layout::{
    emitted, fill_after_first, first_missing, flat_image, flat_result, gap, is_sorted, kept, key_le, key_lt,
    lemma_min_pos, min_pos, sorted_sections,
};
use crate::model::{BinaryFormat, CopyError, KeepAll, Section, SectionFilter};

verus! {

/// Every section of the ordered sequence comes from the input, and it has as
/// many sections as the input.
pub proof fn lemma_sorted_from_input(s: Seq<Section>)
    ensures
        sorted_sections(s).len() == s.len(),
        forall|i: int|
            0 <= i < s.len() ==> exists|j: int| 0 <= j < s.len() && #[trigger] sorted_sections(s)[i] == s[j],
    decreases s.len(),
{
    if s.len() > 0 {
        lemma_min_pos(s);
        let m = min_pos(s);
        let r = s.remove(m);
        lemma_sorted_from_input(r);
        let t = sorted_sections(s);
        assert(t == seq![s[m]] + sorted_sections(r));
        assert forall|i: int| 0 <= i < s.len() implies exists|j: int|
            0 <= j < s.len() && #[trigger] t[i] == s[j] by {
            if i == 0 {
                assert(t[0] == s[m]);
            } else {
                assert(t[i] == sorted_sections(r)[i - 1]);
                let j0 = choose|j: int| 0 <= j < r.len() && sorted_sections(r)[i - 1] == r[j];
                if j0 < m {
                    assert(r[j0] == s[j0]);
                } else {
                    assert(r[j0] == s[j0 + 1]);
                }
            }
        }
    }
}

/// The ordered sequence is in ascending `(address, size)` order.
pub proof fn lemma_sorted_is_sorted(s: Seq<Section>)
    ensures
        is_sorted(sorted_sections(s)),
    decreases s.len(),
{
    if s.len() > 0 {
        lemma_min_pos(s);
        let m = min_pos(s);
        let r = s.remove(m);
        lemma_sorted_is_sorted(r);
        lemma_sorted_from_input(r);
        let t = sorted_sections(s);
        let u = sorted_sections(r);
        assert(t == seq![s[m]] + u);
        assert forall|i: int, j: int| 0 <= i < j < t.len() implies key_le(#[trigger] t[i], #[trigger] t[j]) by {
            assert(t[j] == u[j - 1]);
            if i == 0 {
                let k = choose|k: int| 0 <= k < r.len() && u[j - 1] == r[k];
                if k < m {
                    assert(r[k] == s[k]);
                } else {
                    assert(r[k] == s[k + 1]);
                }
            } else {
                assert(t[i] == u[i - 1]);
            }
        }
    }
}

/// A sequence already in `(address, size)` order is left as it is.
pub proof fn lemma_sorted_fixed(s: Seq<Section>)
    requires
        is_sorted(s),
    ensures
        sorted_sections(s) == s,
    decreases s.len(),
{
    if s.len() > 0 {
        lemma_min_pos(s);
        let m = min_pos(s);
        if m > 0 {
            assert(key_lt(s[m], s[0]));
            assert(key_le(s[0], s[m]));
        }
        assert(m == 0);
        let r = s.remove(0);
        assert(r =~= s.drop_first());
        assert(is_sorted(r)) by {
            assert forall|i: int, j: int| 0 <= i < j < r.len() implies key_le(#[trigger] r[i], #[trigger] r[j]) by {
                assert(r[i] == s[i + 1]);
                assert(r[j] == s[j + 1]);
            }
        }
        lemma_sorted_fixed(r);
        assert(seq![s[0]] + r =~= s);
    }
}

/// Ordering is idempotent: ordering the ordered sections again changes
/// nothing, so writing the same sections twice gives the same bytes.
pub proof fn lemma_ordering_idempotent<F: SectionFilter>(f: F, table: Seq<Section>)
    ensures
        is_sorted(sorted_sections(kept(f, table))),
        sorted_sections(sorted_sections(kept(f, table))) == sorted_sections(kept(f, table)),
{
    lemma_sorted_is_sorted(kept(f, table));
    lemma_sorted_fixed(sorted_sections(kept(f, table)));
}

/// The sections that `f` accepts are sections of the table that it accepts.
pub proof fn lemma_kept_accepted<F: SectionFilter>(f: F, table: Seq<Section>)
    ensures
        kept(f, table).len() <= table.len(),
        forall|i: int| 0 <= i < kept(f, table).len() ==> f.keeps(#[trigger] kept(f, table)[i]),
        forall|i: int|
            0 <= i < kept(f, table).len() ==> exists|j: int|
                0 <= j < table.len() && #[trigger] kept(f, table)[i] == table[j],
    decreases table.len(),
{
    if table.len() > 0 {
        let t = table.drop_last();
        lemma_kept_accepted(f, t);
        assert forall|i: int| 0 <= i < kept(f, table).len() implies exists|j: int|
            0 <= j < table.len() && #[trigger] kept(f, table)[i] == table[j] by {
            if i < kept(f, t).len() {
                assert(kept(f, table)[i] == kept(f, t)[i]);
                let j0 = choose|j: int| 0 <= j < t.len() && kept(f, t)[i] == t[j];
                assert(t[j0] == table[j0]);
            } else {
                assert(kept(f, table)[i] == table[table.len() - 1]);
            }
        }
    }
}

/// The sum of the data lengths of `s`.
pub open spec fn data_total(s: Seq<Section>) -> int
    decreases s.len(),
{
    if s.len() == 0 {
        0
    } else {
        match s[0].data {
            Some(d) => d@.len() + data_total(s.drop_first()),
            None => data_total(s.drop_first()),
        }
    }
}

/// The number of zero bytes between `a` and the section `b` after it.
pub open spec fn gap_len(a: Section, b: Section) -> int {
    if a.address + a.size < b.address {
        b.address - a.address - a.size
    } else {
        0
    }
}

/// The sum of the gaps between neighbouring sections of `s`.
pub open spec fn fill_total(s: Seq<Section>) -> int
    decreases s.len(),
{
    if s.len() < 2 {
        0
    } else {
        gap_len(s[0], s[1]) + fill_total(s.drop_first())
    }
}

proof fn lemma_emitted_len(s: Seq<Section>)
    requires
        first_missing(s) is None,
    ensures
        emitted(s).len() == data_total(s) + fill_total(s),
    decreases s.len(),
{
    if s.len() > 0 {
        lemma_emitted_len(s.drop_first());
        if s.len() >= 2 {
            assert(s.drop_first()[0] == s[1]);
            assert(gap(s[0], s[1]).len() == gap_len(s[0], s[1]));
        }
    }
}

/// Conservation of bytes: when every included section has its bytes, the
/// image is as long as their data plus the gaps between neighbours, and only
/// sections of the table that the filter accepts take part.
pub proof fn lemma_conservation<F: SectionFilter>(f: F, table: Seq<Section>)
    ensures
        ({
            let s = sorted_sections(kept(f, table));
            &&& first_missing(s) is None ==> flat_image(f, table).len() == data_total(s) + fill_total(s)
            &&& forall|i: int| 0 <= i < s.len() ==> f.keeps(#[trigger] s[i])
            &&& forall|i: int|
                0 <= i < s.len() ==> exists|j: int| 0 <= j < table.len() && #[trigger] s[i] == table[j]
        }),
{
    let k = kept(f, table);
    let s = sorted_sections(k);
    lemma_kept_accepted(f, table);
    lemma_sorted_from_input(k);
    if first_missing(s) is None {
        lemma_emitted_len(s);
    }
    assert forall|i: int| 0 <= i < s.len() implies f.keeps(#[trigger] s[i]) && exists|j: int|
        0 <= j < table.len() && s[i] == table[j] by {
        let q = choose|q: int| 0 <= q < k.len() && s[i] == k[q];
        assert(f.keeps(k[q]));
        let j0 = choose|j: int| 0 <= j < table.len() && k[q] == table[j];
        assert(s[i] == table[j0]);
    }
}

proof fn lemma_emitted_ends_with_last(s: Seq<Section>)
    requires
        s.len() > 0,
        first_missing(s) is None,
    ensures
        s.last().data is Some,
        emitted(s).len() >= s.last().data.unwrap()@.len(),
        emitted(s).subrange(emitted(s).len() - s.last().data.unwrap()@.len(), emitted(s).len() as int)
            == s.last().data.unwrap()@,
    decreases s.len(),
{
    let d = s[0].data.unwrap()@;
    if s.len() == 1 {
        assert(emitted(s.drop_first()) =~= seq![]);
        assert(emitted(s) =~= d);
        assert(emitted(s).subrange(0, d.len() as int) =~= d);
    } else {
        let t = s.drop_first();
        lemma_emitted_ends_with_last(t);
        assert(t.last() == s.last());
        let x = d + gap(s[0], s[1]);
        assert(emitted(s) == x + emitted(t));
        let e = s.last().data.unwrap()@;
        assert(emitted(s).subrange(emitted(s).len() - e.len(), emitted(s).len() as int)
            =~= emitted(t).subrange(emitted(t).len() - e.len(), emitted(t).len() as int));
    }
}

/// No trailing fill: when every included section has its bytes, the image
/// ends with the data of the last section in address order.
pub proof fn lemma_no_trailing_fill<F: SectionFilter>(f: F, table: Seq<Section>)
    requires
        kept(f, table).len() > 0,
        flat_result(f, table) is Ok,
    ensures
        ({
            let s = sorted_sections(kept(f, table));
            let d = s.last().data.unwrap()@;
            let img = flat_image(f, table);
            &&& s.last().data is Some
            &&& img.len() >= d.len()
            &&& img.subrange(img.len() - d.len(), img.len() as int) == d
        }),
{
    let s = sorted_sections(kept(f, table));
    lemma_sorted_from_input(kept(f, table));
    lemma_emitted_ends_with_last(s);
}

/// Two sections with a hole between them: the image is the first one's data,
/// as many zero bytes as the hole is long, and the second one's data.
pub proof fn lemma_gap_filled(a: Section, b: Section)
    requires
        a.data is Some,
        b.data is Some,
        a.address + a.size < b.address,
    ensures
        flat_image(KeepAll, seq![a, b]) == a.data.unwrap()@ + Seq::new(
            (b.address - a.address - a.size) as nat,
            |i: int| 0u8,
        ) + b.data.unwrap()@,
        flat_result(KeepAll, seq![a, b]) == Ok::<usize, CopyError>(flat_image(KeepAll, seq![a, b]).len() as usize),
{
    lemma_two_in_order(a, b);
}

/// Two sections where the second starts where the first ends: the image is
/// their data back to back, with no fill.
pub proof fn lemma_touching_concatenated(a: Section, b: Section)
    requires
        a.data is Some,
        b.data is Some,
        b.address == a.address + a.size,
    ensures
        flat_image(KeepAll, seq![a, b]) == a.data.unwrap()@ + b.data.unwrap()@,
        flat_result(KeepAll, seq![a, b]) == Ok::<usize, CopyError>(flat_image(KeepAll, seq![a, b]).len() as usize),
{
    lemma_two_in_order(a, b);
    assert(gap(a, b) =~= seq![]);
    assert(a.data.unwrap()@ + gap(a, b) =~= a.data.unwrap()@);
}

proof fn lemma_two_in_order(a: Section, b: Section)
    requires
        a.data is Some,
        b.data is Some,
        key_le(a, b),
    ensures
        flat_image(KeepAll, seq![a, b]) == a.data.unwrap()@ + gap(a, b) + b.data.unwrap()@,
        first_missing(sorted_sections(kept(KeepAll, seq![a, b]))) is None,
{
    let t = seq![a, b];
    assert(t.drop_last() =~= seq![a]);
    assert(seq![a].drop_last() =~= Seq::<Section>::empty());
    assert(seq![a].last() == a);
    assert(kept(KeepAll, Seq::<Section>::empty()) =~= Seq::<Section>::empty());
    assert(kept(KeepAll, seq![a]) =~= Seq::<Section>::empty().push(a));
    assert(kept(KeepAll, seq![a]) =~= seq![a]);
    assert(kept(KeepAll, t) =~= t);
    lemma_sorted_fixed(t);
    assert(t.drop_first() =~= seq![b]);
    assert(seq![b].drop_first() =~= Seq::<Section>::empty());
    assert(emitted(Seq::<Section>::empty()) =~= Seq::<u8>::empty());
    assert(fill_after_first(seq![b]) =~= Seq::<u8>::empty());
    assert(emitted(seq![b]) =~= b.data.unwrap()@ + Seq::<u8>::empty() + Seq::<u8>::empty());
    assert(emitted(seq![b]) =~= b.data.unwrap()@);
    assert(emitted(t) =~= a.data.unwrap()@ + gap(a, b) + b.data.unwrap()@);
    assert(first_missing(Seq::<Section>::empty()) is None);
    assert(first_missing(seq![b]) is None);
    assert(first_missing(t) is None);
}

/// Nothing included: when the filter accepts no section, nothing is written
/// and the result is `Ok(0)`.
pub proof fn lemma_nothing_included<F: SectionFilter>(f: F, table: Seq<Section>)
    requires
        forall|i: int| 0 <= i < table.len() ==> !f.keeps(#[trigger] table[i]),
    ensures
        flat_image(f, table) == Seq::<u8>::empty(),
        flat_result(f, table) == Ok::<usize, CopyError>(0),
{
    lemma_kept_accepted(f, table);
    if kept(f, table).len() > 0 {
        let j = choose|j: int| 0 <= j < table.len() && kept(f, table)[0] == table[j];
        assert(f.keeps(kept(f, table)[0]));
    }
    assert(kept(f, table) =~= Seq::<Section>::empty());
}

/// A format the input container cannot be written in fails with
/// `Unsupported`, naming the format, and writes nothing.
pub proof fn lemma_unsupported_writes_nothing<F: SectionFilter>(
    input: BinaryFormat,
    format: Option<BinaryFormat>,
    f: F,
    table: Seq<Section>,
)
    requires
        !supports(input, format),
    ensures
        copy_image(input, format, f, table) == Seq::<u8>::empty(),
        copy_result(input, format, f, table) == Err::<usize, CopyError>(CopyError::Unsupported(format)),
{
}

} // verus!
