//! Which of the peripherals that an adapter has seen are shown to the
//! user: those whose properties could be read.

use vstd::prelude::*;

verus! {

/// The peripherals of `found` whose properties were read and are there,
/// each with its properties, in the order of `found`.
pub open spec fn readable<I, P, E>(found: Seq<(Result<Option<P>, E>, I)>) -> Seq<(I, P)>
    decreases found.len(),
{
    if found.len() == 0 {
        Seq::empty()
    } else {
        let before = readable(found.drop_last());
        match found.last() {
            (Ok(Some(properties)), id) => before.push((id, properties)),
            _ => before,
        }
    }
}

/// Keeps the peripherals whose properties were read and are there. `found`
/// holds, for every peripheral seen, the outcome of reading its properties
/// and its identifier.
pub fn readable_devices<I, P, E>(found: Vec<(Result<Option<P>, E>, I)>) -> (r: Vec<(I, P)>)
    ensures
        r@ == readable(found@),
{
    broadcast use vstd::std_specs::vec::axiom_spec_into_iter;

    let mut kept: Vec<(I, P)> = Vec::new();
    for item in iter: found.into_iter()
        invariant
            iter.seq() == found@,
            kept@ == readable(found@.take(iter.index() as int)),
    {
        let ghost seen = found@.take(iter.index() + 1);
        assert(seen.drop_last() =~= found@.take(iter.index() as int));
        assert(seen.last() == item);
        match item {
            (Ok(Some(properties)), id) => {
                kept.push((id, properties));
            },
            _ => {},
        }
    }
    assert(found@.take(found@.len() as int) =~= found@);
    kept
}

} // verus!
