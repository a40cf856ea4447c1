//! Small byte-buffer helpers shared by the protocol modules.

use vstd::prelude::*;

verus! {

/// The byte sequences held by a list of byte vectors.
pub open spec fn views_of(v: Seq<Vec<u8>>) -> Seq<Seq<u8>> {
    Seq::new(v.len(), |i: int| v[i]@)
}

/// Appending one vector extends the list of views by its view.
pub proof fn lemma_views_of_push(v: Seq<Vec<u8>>, x: Vec<u8>)
    ensures
        views_of(v.push(x)) == views_of(v).push(x@),
{
    assert(views_of(v.push(x)) =~= views_of(v).push(x@));
}

/// Concatenating two lists concatenates their views.
pub proof fn lemma_views_of_add(a: Seq<Vec<u8>>, b: Seq<Vec<u8>>)
    ensures
        views_of(a + b) == views_of(a) + views_of(b),
{
    assert(views_of(a + b) =~= views_of(a) + views_of(b));
}

/// Appends every byte of `src` to `out`.
pub fn push_all(out: &mut Vec<u8>, src: &[u8])
    ensures
        final(out)@ == old(out)@ + src@,
{
    let mut i: usize = 0;
    while i < src.len()
        invariant
            i <= src@.len(),
            out@ == old(out)@ + src@.subrange(0, i as int),
        decreases src@.len() - i,
    {
        out.push(src[i]);
        i = i + 1;
        assert(src@.subrange(0, i as int) =~= src@.subrange(0, i - 1).push(src@[i - 1]));
    }
    assert(src@.subrange(0, src@.len() as int) =~= src@);
}

/// Moves every vector of `src` onto the end of `out`, keeping their order.
pub fn append_all(out: &mut Vec<Vec<u8>>, src: Vec<Vec<u8>>)
    ensures
        views_of(final(out)@) == views_of(old(out)@) + views_of(src@),
{
    let mut src = src;
    let ghost start = out@;
    let ghost whole = src@;
    out.append(&mut src);
    proof {
        lemma_views_of_add(start, whole);
    }
}

} // verus!
