//! Gathering a request body that arrives in chunks into one buffer.

use vstd::prelude::*;

verus! {

/// The body received so far: every chunk appended in arrival order.
#[derive(Debug)]
pub struct BodyAccumulator {
    pub bytes: Vec<u8>,
}

impl BodyAccumulator {
    pub fn new() -> (r: BodyAccumulator)
        ensures
            r.bytes@ == Seq::<u8>::empty(),
    {
        BodyAccumulator { bytes: Vec::new() }
    }

    /// Appends the next chunk, unchanged.
    pub fn push(&mut self, chunk: &[u8])
        ensures
            final(self).bytes@ == old(self).bytes@ + chunk@,
    {
        let mut i: usize = 0;
        while i < chunk.len()
            invariant
                i <= chunk@.len(),
                self.bytes@ == old(self).bytes@ + chunk@.take(i as int),
            decreases chunk@.len() - i,
        {
            self.bytes.push(chunk[i]);
            i = i + 1;
            assert(self.bytes@ =~= old(self).bytes@ + chunk@.take(i as int));
        }
        assert(chunk@.take(i as int) =~= chunk@);
    }

    /// The whole body.
    pub fn finish(self) -> (r: Vec<u8>)
        ensures
            r@ == self.bytes@,
    {
        self.bytes
    }
}

/// All of `chunks`, one after another.
pub fn concat_chunks(chunks: &Vec<Vec<u8>>) -> (r: Vec<u8>)
    ensures
        r@ == chunks@.map_values(|c: Vec<u8>| c@).flatten(),
{
    let ghost views = chunks@.map_values(|c: Vec<u8>| c@);
    let mut acc = BodyAccumulator::new();
    let mut i: usize = 0;
    assert(views.skip(0) =~= views);
    assert(acc.bytes@ + views.flatten() =~= views.flatten());
    while i < chunks.len()
        invariant
            i <= chunks@.len(),
            views == chunks@.map_values(|c: Vec<u8>| c@),
            acc.bytes@ + views.skip(i as int).flatten() == views.flatten(),
        decreases chunks@.len() - i,
    {
        assert(views.skip(i as int).first() == chunks@[i as int]@);
        assert(views.skip(i as int).drop_first() =~= views.skip(i + 1));
        acc.push(chunks[i].as_slice());
        i = i + 1;
        assert(acc.bytes@ + views.skip(i as int).flatten() =~= views.flatten());
    }
    assert(views.skip(i as int) =~= Seq::<Seq<u8>>::empty());
    assert(acc.bytes@ =~= views.flatten());
    acc.finish()
}

} // verus!
