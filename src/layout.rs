//! The flat-image layout engine.
//!
//! Included sections are ordered by `(address, size)`, ties kept in table
//! order; their bytes are written one after another, and where a section ends
//! before the next one starts the hole is filled with zero bytes.
use vstd::prelude::*;
use crate::model::{CopyError, Section, SectionFilter};

verus! {

/// `a` comes no later than `b` in `(address, size)` order.
pub open spec fn key_le(a: Section, b: Section) -> bool {
    a.address < b.address || (a.address == b.address && a.size <= b.size)
}

/// `a` comes strictly before `b` in `(address, size)` order.
pub open spec fn key_lt(a: Section, b: Section) -> bool {
    !key_le(b, a)
}

/// The sections of `s` that the filter accepts, in table order.
pub open spec fn kept<F: SectionFilter>(f: F, s: Seq<Section>) -> Seq<Section>
    decreases s.len(),
{
    if s.len() == 0 {
        seq![]
    } else if f.keeps(s.last()) {
        kept(f, s.drop_last()).push(s.last())
    } else {
        kept(f, s.drop_last())
    }
}

/// Position of the first section of `s` with the smallest `(address, size)`.
pub open spec fn min_pos(s: Seq<Section>) -> int
    decreases s.len(),
{
    if s.len() <= 1 {
        0
    } else {
        let m = min_pos(s.drop_last());
        if key_lt(s.last(), s[m]) {
            s.len() - 1
        } else {
            m
        }
    }
}

/// `s` in ascending `(address, size)` order; equal keys keep their order.
pub open spec fn sorted_sections(s: Seq<Section>) -> Seq<Section>
    decreases s.len(),
{
    let m = min_pos(s);
    if s.len() == 0 || m < 0 || m >= s.len() {
        seq![]
    } else {
        seq![s[m]] + sorted_sections(s.remove(m))
    }
}

/// Every section of `s` is no later than the next one.
pub open spec fn is_sorted(s: Seq<Section>) -> bool {
    forall|i: int, j: int| 0 <= i < j < s.len() ==> key_le(#[trigger] s[i], #[trigger] s[j])
}

/// The zero bytes written between `a` and the section `b` that follows it.
pub open spec fn gap(a: Section, b: Section) -> Seq<u8> {
    if a.address + a.size < b.address {
        Seq::new((b.address - a.address - a.size) as nat, |i: int| 0u8)
    } else {
        seq![]
    }
}

/// The fill after the first section of `s`: none after the last one.
pub open spec fn fill_after_first(s: Seq<Section>) -> Seq<u8> {
    if s.len() >= 2 {
        gap(s[0], s[1])
    } else {
        seq![]
    }
}

/// The bytes written for the already ordered sections `s`: data and fill,
/// up to the first section whose bytes cannot be retrieved.
pub open spec fn emitted(s: Seq<Section>) -> Seq<u8>
    decreases s.len(),
{
    if s.len() == 0 {
        seq![]
    } else {
        match s[0].data {
            Some(d) => d@ + fill_after_first(s) + emitted(s.drop_first()),
            None => seq![],
        }
    }
}

/// The index of the first section of `s` whose bytes cannot be retrieved.
pub open spec fn first_missing(s: Seq<Section>) -> Option<usize>
    decreases s.len(),
{
    if s.len() == 0 {
        None
    } else {
        match s[0].data {
            Some(d) => first_missing(s.drop_first()),
            None => Some(s[0].index),
        }
    }
}

/// The flat image of the sections of `table` that `f` accepts.
pub open spec fn flat_image<F: SectionFilter>(f: F, table: Seq<Section>) -> Seq<u8> {
    emitted(sorted_sections(kept(f, table)))
}

/// What writing the flat image of `table` under `f` returns.
pub open spec fn flat_result<F: SectionFilter>(f: F, table: Seq<Section>) -> Result<usize, CopyError> {
    match first_missing(sorted_sections(kept(f, table))) {
        Some(i) => Err(CopyError::Data(i)),
        None => Ok(flat_image(f, table).len() as usize),
    }
}

/// The sections of `table` at the positions `idx`.
pub open spec fn pick(table: Seq<Section>, idx: Seq<usize>) -> Seq<Section> {
    idx.map_values(|i: usize| table[i as int])
}

pub proof fn lemma_min_pos(s: Seq<Section>)
    requires
        s.len() > 0,
    ensures
        0 <= min_pos(s) < s.len(),
        forall|j: int| 0 <= j < s.len() ==> key_le(s[min_pos(s)], #[trigger] s[j]),
        forall|j: int| 0 <= j < min_pos(s) ==> key_lt(s[min_pos(s)], #[trigger] s[j]),
    decreases s.len(),
{
    if s.len() > 1 {
        let t = s.drop_last();
        lemma_min_pos(t);
        let m = min_pos(t);
        assert(t[m] == s[m]);
        if key_lt(s.last(), s[m]) {
            assert(min_pos(s) == s.len() - 1);
            assert forall|j: int| 0 <= j < s.len() implies key_le(s[min_pos(s)], #[trigger] s[j]) by {
                if j < s.len() - 1 {
                    assert(t[j] == s[j]);
                }
            }
            assert forall|j: int| 0 <= j < min_pos(s) implies key_lt(s[min_pos(s)], #[trigger] s[j]) by {
                assert(t[j] == s[j]);
            }
        } else {
            assert(min_pos(s) == m);
            assert forall|j: int| 0 <= j < s.len() implies key_le(s[min_pos(s)], #[trigger] s[j]) by {
                if j < s.len() - 1 {
                    assert(t[j] == s[j]);
                }
            }
            assert forall|j: int| 0 <= j < min_pos(s) implies key_lt(s[min_pos(s)], #[trigger] s[j]) by {
                assert(t[j] == s[j]);
            }
        }
    }
}

/// Positions in `table` of the sections that `filter` accepts, in table order.
fn select_sections<F: SectionFilter>(table: &Vec<Section>, filter: &F) -> (r: Vec<usize>)
    ensures
        pick(table@, r@) == kept(*filter, table@),
        forall|k: int| 0 <= k < r@.len() ==> r@[k] < table@.len(),
{
    let mut sel: Vec<usize> = Vec::new();
    let mut i: usize = 0;
    while i < table.len()
        invariant
            i <= table@.len(),
            pick(table@, sel@) == kept(*filter, table@.subrange(0, i as int)),
            forall|k: int| 0 <= k < sel@.len() ==> sel@[k] < table@.len(),
        decreases table@.len() - i,
    {
        let ghost pre = table@.subrange(0, i as int);
        let ghost next = table@.subrange(0, i + 1);
        assert(next.drop_last() =~= pre);
        if filter.keep(&table[i]) {
            sel.push(i);
            assert(pick(table@, sel@) =~= kept(*filter, pre).push(table@[i as int]));
        }
        i = i + 1;
    }
    assert(table@.subrange(0, table@.len() as int) =~= table@);
    sel
}

/// `sel` reordered so that the sections it points at are in `(address, size)`
/// order, equal keys keeping their order in `sel`.
fn order_sections(table: &Vec<Section>, sel: Vec<usize>) -> (r: Vec<usize>)
    requires
        forall|k: int| 0 <= k < sel@.len() ==> sel@[k] < table@.len(),
    ensures
        pick(table@, r@) == sorted_sections(pick(table@, sel@)),
        forall|k: int| 0 <= k < r@.len() ==> r@[k] < table@.len(),
{
    let ghost goal = sorted_sections(pick(table@, sel@));
    let mut remaining = sel;
    let mut order: Vec<usize> = Vec::new();
    assert(pick(table@, order@) + sorted_sections(pick(table@, remaining@)) =~= goal);
    while remaining.len() > 0
        invariant
            pick(table@, order@) + sorted_sections(pick(table@, remaining@)) == goal,
            forall|k: int| 0 <= k < remaining@.len() ==> remaining@[k] < table@.len(),
            forall|k: int| 0 <= k < order@.len() ==> order@[k] < table@.len(),
        decreases remaining@.len(),
    {
        let ghost p = pick(table@, remaining@);
        let mut m: usize = 0;
        let mut j: usize = 1;
        assert(min_pos(p.subrange(0, 1)) == 0);
        while j < remaining.len()
            invariant
                p == pick(table@, remaining@),
                1 <= j <= remaining@.len(),
                m < j,
                m as int == min_pos(p.subrange(0, j as int)),
                forall|k: int| 0 <= k < remaining@.len() ==> remaining@[k] < table@.len(),
            decreases remaining@.len() - j,
        {
            let c = &table[remaining[j]];
            let b = &table[remaining[m]];
            proof {
                let q = p.subrange(0, j + 1);
                assert(q.drop_last() =~= p.subrange(0, j as int));
                assert(q.last() == *c);
                assert(q[m as int] == *b);
            }
            if !(b.address < c.address || (b.address == c.address && b.size <= c.size)) {
                m = j;
            }
            j = j + 1;
        }
        assert(p.subrange(0, p.len() as int) =~= p);
        proof {
            lemma_min_pos(p);
        }
        let x = remaining.remove(m);
        order.push(x);
        assert(pick(table@, remaining@) =~= p.remove(m as int));
        assert(pick(table@, order@) + sorted_sections(pick(table@, remaining@)) =~= goal);
    }
    assert(pick(table@, remaining@) =~= seq![]);
    assert(pick(table@, order@) =~= goal);
    order
}

/// Writes the sections `table[order[0]]`, `table[order[1]]`, ... with zero
/// fill between them, stopping at the first one without data.
fn emit_sections(table: &Vec<Section>, order: &Vec<usize>, out: &mut Vec<u8>) -> (r: Result<usize, CopyError>)
    requires
        forall|k: int| 0 <= k < order@.len() ==> order@[k] < table@.len(),
    ensures
        final(out)@ == old(out)@ + emitted(pick(table@, order@)),
        r == (match first_missing(pick(table@, order@)) {
            Some(i) => Err(CopyError::Data(i)),
            None => Ok(emitted(pick(table@, order@)).len() as usize),
        }),
{
    let ghost s = pick(table@, order@);
    let ghost before = out@;
    let start = out.len();
    let mut k: usize = 0;
    assert(s.skip(0) =~= s);
    while k < order.len()
        invariant
            k <= order@.len(),
            s == pick(table@, order@),
            forall|q: int| 0 <= q < order@.len() ==> order@[q] < table@.len(),
            before + emitted(s) == out@ + emitted(s.skip(k as int)),
            first_missing(s) == first_missing(s.skip(k as int)),
            before == old(out)@,
            start == before.len(),
            out@.len() >= start,
        decreases order@.len() - k,
    {
        let sec = &table[order[k]];
        let ghost rest = s.skip(k as int);
        assert(rest[0] == *sec);
        assert(rest.drop_first() =~= s.skip(k + 1));
        match &sec.data {
            None => {
                assert(emitted(rest) =~= seq![]);
                assert(before + emitted(s) =~= out@);
                return Err(CopyError::Data(sec.index));
            },
            Some(d) => {
                let ghost out0 = out@;
                let mut j: usize = 0;
                while j < d.len()
                    invariant
                        j <= d@.len(),
                        out@ == out0 + d@.subrange(0, j as int),
                    decreases d@.len() - j,
                {
                    out.push(d[j]);
                    assert(out@ =~= out0 + d@.subrange(0, j + 1));
                    j = j + 1;
                }
                assert(d@.subrange(0, d@.len() as int) =~= d@);
                let ghost out1 = out@;
                if k + 1 < order.len() {
                    let next = &table[order[k + 1]];
                    assert(rest[1] == *next);
                    let end: u128 = sec.address as u128 + sec.size as u128;
                    if end < next.address as u128 {
                        let fill: u64 = (next.address as u128 - end) as u64;
                        let mut z: u64 = 0;
                        while z < fill
                            invariant
                                z <= fill,
                                out@ == out1 + Seq::new(z as nat, |i: int| 0u8),
                            decreases fill - z,
                        {
                            out.push(0u8);
                            assert(out@ =~= out1 + Seq::new((z + 1) as nat, |i: int| 0u8));
                            z = z + 1;
                        }
                        assert(Seq::new(fill as nat, |i: int| 0u8) =~= gap(*sec, *next));
                    }
                }
                assert(out@ =~= out1 + fill_after_first(rest));
                assert(emitted(rest) == d@ + fill_after_first(rest) + emitted(s.skip(k + 1)));
                assert(before + emitted(s) =~= out@ + emitted(s.skip(k + 1)));
            },
        }
        k = k + 1;
    }
    assert(s.skip(order@.len() as int) =~= seq![]);
    Ok(out.len() - start)
}

/// Writes to `out` the flat image of the sections of `table` that `filter`
/// accepts, and returns how many bytes were written.
pub fn write_flat_image<F: SectionFilter>(table: &Vec<Section>, filter: &F, out: &mut Vec<u8>) -> (r: Result<usize, CopyError>)
    ensures
        final(out)@ == old(out)@ + flat_image(*filter, table@),
        r == flat_result(*filter, table@),
{
    let sel = select_sections(table, filter);
    let order = order_sections(table, sel);
    emit_sections(table, &order, out)
}

} // verus!
