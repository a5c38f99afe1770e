//! The comma-list codec: a list of strings is written out as one string with
//! its elements joined by `,`, and read back by splitting on every `,`.
//! Elements are neither trimmed nor escaped.
use vstd::prelude::*;

use crate::text::push_char;

verus! {

/// The separator between elements.
pub const DELIMITER: char = ',';

/// The character sequences of a list of strings.
pub open spec fn views(xs: Seq<String>) -> Seq<Seq<char>> {
    xs.map_values(|x: String| x@)
}

/// The elements of `xs` with `,` between each two neighbours; empty for an
/// empty list.
pub open spec fn join_of(xs: Seq<Seq<char>>) -> Seq<char>
    decreases xs.len(),
{
    if xs.len() == 0 {
        seq![]
    } else if xs.len() == 1 {
        xs[0]
    } else {
        join_of(xs.drop_last()) + seq![DELIMITER] + xs.last()
    }
}

/// The segments of `s` between its commas, in order: one more segment than
/// `s` has commas, empty ones included (so `""` gives one empty segment).
pub open spec fn split_of(s: Seq<char>) -> Seq<Seq<char>>
    decreases s.len(),
{
    if s.len() == 0 {
        seq![seq![]]
    } else {
        let segs = split_of(s.drop_last());
        if s.last() == DELIMITER {
            segs.push(seq![])
        } else {
            segs.update(segs.len() - 1, segs.last().push(s.last()))
        }
    }
}

/// Whether `s` holds no comma.
pub open spec fn has_no_delimiter(s: Seq<char>) -> bool {
    forall|i: int| 0 <= i < s.len() ==> s[i] != DELIMITER
}

/// Splitting always gives at least one segment, and none holds a comma.
pub proof fn lemma_split_segments(s: Seq<char>)
    ensures
        split_of(s).len() >= 1,
        forall|k: int| 0 <= k < split_of(s).len() ==> has_no_delimiter(#[trigger] split_of(s)[k]),
    decreases s.len(),
{
    if s.len() > 0 {
        lemma_split_segments(s.drop_last());
    }
}

/// Appending comma-free text to a string extends its last segment.
proof fn lemma_split_append_plain(a: Seq<char>, b: Seq<char>)
    requires
        has_no_delimiter(b),
    ensures
        split_of(a + b) == split_of(a).update(
            split_of(a).len() - 1,
            split_of(a).last() + b,
        ),
    decreases b.len(),
{
    lemma_split_segments(a);
    if b.len() == 0 {
        assert(a + b =~= a);
        assert(split_of(a).last() + b =~= split_of(a).last());
        assert(split_of(a).update(split_of(a).len() - 1, split_of(a).last()) =~= split_of(a));
    } else {
        let b0 = b.drop_last();
        lemma_split_append_plain(a, b0);
        assert((a + b).drop_last() =~= a + b0);
        assert((a + b).last() == b.last());
        assert(b.last() != DELIMITER);
        let segs = split_of(a + b0);
        assert(split_of(a + b) == segs.update(segs.len() - 1, segs.last().push(b.last())));
        assert(segs.last() == split_of(a).last() + b0);
        assert((split_of(a).last() + b0).push(b.last()) =~= split_of(a).last() + b);
        assert(segs.len() == split_of(a).len());
        assert(split_of(a + b) =~= split_of(a).update(
            split_of(a).len() - 1,
            split_of(a).last() + b,
        ));
    }
}

/// Joining the segments of a split gives the string back, for every string.
pub proof fn lemma_join_split(s: Seq<char>)
    ensures
        join_of(split_of(s)) == s,
    decreases s.len(),
{
    if s.len() > 0 {
        let init = s.drop_last();
        let segs = split_of(init);
        lemma_join_split(init);
        lemma_split_segments(init);
        if s.last() == DELIMITER {
            assert(split_of(s).drop_last() =~= segs);
            assert(join_of(split_of(s)) =~= s);
        } else {
            let t = split_of(s);
            assert(t.drop_last() =~= segs.drop_last());
            if segs.len() == 1 {
                assert(t =~= seq![segs[0].push(s.last())]);
                assert(join_of(t) =~= s);
            } else {
                assert(join_of(segs) == join_of(segs.drop_last()) + seq![DELIMITER] + segs.last());
                assert(t.last() == segs.last().push(s.last()));
                assert(join_of(t) == join_of(t.drop_last()) + seq![DELIMITER] + t.last());
                assert(s =~= join_of(segs).push(s.last()));
                assert(join_of(t) =~= s);
            }
        }
    }
}

/// Splitting a joined list gives the list back, when the list is not empty
/// and no element holds a comma.
pub proof fn lemma_split_join(xs: Seq<Seq<char>>)
    requires
        xs.len() > 0,
        forall|k: int| 0 <= k < xs.len() ==> has_no_delimiter(#[trigger] xs[k]),
    ensures
        split_of(join_of(xs)) == xs,
    decreases xs.len(),
{
    if xs.len() == 1 {
        lemma_split_append_plain(seq![], xs[0]);
        assert(seq![] + xs[0] =~= xs[0]);
        assert(split_of(seq![]).last() + xs[0] =~= xs[0]);
        assert(split_of(join_of(xs)) =~= xs);
    } else {
        let init = xs.drop_last();
        let a = join_of(init) + seq![DELIMITER];
        lemma_split_join(init);
        assert(a.drop_last() =~= join_of(init));
        assert(split_of(a) == init.push(seq![]));
        lemma_split_append_plain(a, xs.last());
        assert(seq![] + xs.last() =~= xs.last());
        assert(split_of(join_of(xs)) =~= xs);
    }
}

/// Encodes a field: the elements joined by `,`; an empty list gives `""`.
pub fn serialize(value: &Vec<String>) -> (r: String)
    ensures
        r@ == join_of(views(value@)),
{
    let mut out = String::new();
    let mut i: usize = 0;
    while i < value.len()
        invariant
            i <= value@.len(),
            out@ == join_of(views(value@.take(i as int))),
        decreases value@.len() - i,
    {
        let ghost before = value@.take(i as int);
        let ghost after = value@.take(i as int + 1);
        assert(after.drop_last() =~= before);
        assert(views(after).drop_last() =~= views(before));
        if i > 0 {
            push_char(&mut out, DELIMITER);
        }
        out.append(value[i].as_str());
        if i == 0 {
            assert(views(after) =~= seq![value@[0]@]);
            assert(out@ =~= join_of(views(after)));
        } else {
            assert(out@ =~= join_of(views(after)));
        }
        i = i + 1;
    }
    assert(value@.take(value@.len() as int) =~= value@);
    out
}

/// Decodes a field: the segments of `raw` between its commas, empty
/// segments included; `""` gives one empty element.
pub fn deserialize(raw: String) -> (r: Vec<String>)
    ensures
        views(r@) == split_of(raw@),
{
    broadcast use vstd::string::axiom_spec_iter;
    let s = raw.as_str();
    let mut out: Vec<String> = Vec::new();
    let mut cur = String::new();
    for c in it: s.chars()
        invariant
            it.seq() == s@,
            views(out@).push(cur@) == split_of(s@.take(it.index() as int)),
    {
        let ghost prefix = s@.take(it.index() as int + 1);
        assert(prefix.drop_last() =~= s@.take(it.index() as int));
        assert(prefix.last() == c);
        if c == DELIMITER {
            out.push(cur);
            cur = String::new();
            assert(views(out@).push(cur@) =~= split_of(prefix));
        } else {
            let ghost segs = views(out@).push(cur@);
            push_char(&mut cur, c);
            assert(views(out@).push(cur@) =~= segs.update(segs.len() - 1, segs.last().push(c)));
        }
    }
    assert(s@.take(s@.len() as int) =~= s@);
    out.push(cur);
    assert(views(out@) =~= split_of(s@));
    out
}

} // verus!
