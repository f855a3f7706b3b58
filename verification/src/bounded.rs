//! The output of a handler, kept up to a limit.

use vstd::prelude::*;
use vstd::slice::*;

verus! {

/// The output so far: what was kept of it, and whether anything was dropped.
#[derive(Debug)]
pub struct BoundedOutput {
    pub bytes: Vec<u8>,
    pub exceeded_limit: bool,
}

/// The first `limit` bytes of `output`, or all of it where it is shorter.
pub open spec fn kept(output: Seq<u8>, limit: nat) -> Seq<u8> {
    if output.len() <= limit {
        output
    } else {
        output.take(limit as int)
    }
}

/// How many more bytes are kept behind `bytes`.
pub open spec fn room(bytes: Seq<u8>, limit: nat) -> nat {
    if bytes.len() < limit {
        (limit - bytes.len()) as nat
    } else {
        0
    }
}

impl BoundedOutput {
    /// Whether this is what is kept of `output` under `limit`.
    pub open spec fn keeps(self, output: Seq<u8>, limit: nat) -> bool {
        self.bytes@ == kept(output, limit) && self.exceeded_limit == (output.len() > limit)
    }

    /// Nothing so far.
    pub fn new() -> (output: BoundedOutput)
        ensures
            output.bytes@ == Seq::<u8>::empty(),
            !output.exceeded_limit,
            forall|limit: nat| output.keeps(Seq::empty(), limit),
    {
        BoundedOutput { bytes: Vec::new(), exceeded_limit: false }
    }

    /// Takes in the next piece of the output: as much of it is kept as there is room for.
    pub fn accept(&mut self, chunk: &[u8], limit: usize)
        ensures
            final(self).bytes@ == old(self).bytes@ + kept(
                chunk@,
                room(old(self).bytes@, limit as nat),
            ),
            final(self).exceeded_limit == (old(self).exceeded_limit || chunk@.len() > room(
                old(self).bytes@,
                limit as nat,
            )),
            forall|output: Seq<u8>|
                #![trigger old(self).keeps(output, limit as nat)]
                old(self).keeps(output, limit as nat) ==> final(self).keeps(
                    output + chunk@,
                    limit as nat,
                ),
    {
        let len: usize = self.bytes.len();
        let remaining: usize = if len < limit {
            limit - len
        } else {
            0
        };
        let retained: usize = if chunk.len() < remaining {
            chunk.len()
        } else {
            remaining
        };
        let piece = slice_subrange(chunk, 0, retained);
        self.bytes.extend_from_slice(piece);
        if retained < chunk.len() {
            self.exceeded_limit = true;
        }
        proof {
            assert(chunk@.subrange(0, chunk@.len() as int) =~= chunk@);
            assert(chunk@.subrange(0, retained as int) =~= kept(chunk@, remaining as nat));
            assert(self.bytes@ =~= old(self).bytes@ + kept(chunk@, remaining as nat));
            assert forall|output: Seq<u8>|
                #![trigger old(self).keeps(output, limit as nat)]
                old(self).keeps(output, limit as nat) implies self.keeps(
                output + chunk@,
                limit as nat,
            ) by {
                assert(self.bytes@ =~= kept(output + chunk@, limit as nat));
            }
        }
    }
}

/// What is kept after some pieces of output, and whether anything was dropped.
pub open spec fn collected(chunks: Seq<Seq<u8>>, limit: nat) -> (Seq<u8>, bool)
    decreases chunks.len(),
{
    if chunks.len() == 0 {
        (Seq::empty(), false)
    } else {
        let (bytes, exceeded) = collected(chunks.drop_last(), limit);
        (
            bytes + kept(chunks.last(), room(bytes, limit)),
            exceeded || chunks.last().len() > room(bytes, limit),
        )
    }
}

/// However the output is cut into pieces, its first `limit` bytes are kept, and the limit counts
/// as exceeded exactly where the output is longer.
pub proof fn law_output_is_bounded(chunks: Seq<Seq<u8>>, limit: nat)
    ensures
        collected(chunks, limit).0 == kept(chunks.flatten(), limit),
        collected(chunks, limit).0.len() <= limit,
        collected(chunks, limit).1 == (chunks.flatten().len() > limit),
    decreases chunks.len(),
{
    if chunks.len() == 0 {
        assert(chunks.flatten() =~= Seq::<u8>::empty());
    } else {
        let rest = chunks.drop_last();
        law_output_is_bounded(rest, limit);
        chunks.lemma_flatten_and_flatten_alt_are_equivalent();
        rest.lemma_flatten_and_flatten_alt_are_equivalent();
        let output = rest.flatten();
        assert(chunks.flatten() =~= output + chunks.last());
        assert(collected(chunks, limit).0 =~= kept(output + chunks.last(), limit));
    }
}

/// Whatever was written so far, another piece leaves the first bytes of everything written, as
/// many as the limit allows, and the limit counts as exceeded exactly where more was written.
pub proof fn law_first_bytes_are_kept(
    output: &mut BoundedOutput,
    written: Seq<u8>,
    chunk: &[u8],
    limit: usize,
)
    requires
        written.len() <= limit ==> old(output).bytes@ == written,
        written.len() > limit ==> old(output).bytes@ == written.take(limit as int),
        old(output).exceeded_limit == (written.len() > limit),
        call_ensures(BoundedOutput::accept, (output, chunk, limit), ()),
    ensures
        (written + chunk@).len() <= limit ==> final(output).bytes@ == written + chunk@,
        (written + chunk@).len() > limit ==> final(output).bytes@ == (written + chunk@).take(
            limit as int,
        ),
        final(output).exceeded_limit == ((written + chunk@).len() > limit),
{
    assert(old(output).keeps(written, limit as nat));
}

/// Before anything is written nothing is kept and nothing exceeds a limit.
pub proof fn law_output_begins_empty(output: BoundedOutput)
    requires
        call_ensures(BoundedOutput::new, (), output),
    ensures
        output.bytes@.len() == 0,
        !output.exceeded_limit,
{
}

/// What is kept under a limit is the beginning of the output, the whole of it exactly where the
/// limit is not exceeded, and never longer than the limit.
pub proof fn law_kept_output_is_the_beginning(
    output: BoundedOutput,
    written: Seq<u8>,
    limit: nat,
)
    requires
        output.keeps(written, limit),
    ensures
        output.bytes@.is_prefix_of(written),
        output.bytes@.len() <= limit,
        output.bytes@ == written <==> !output.exceeded_limit,
        output.exceeded_limit <==> written.len() > limit,
        output.exceeded_limit ==> output.bytes@.len() == limit,
{
    if written.len() > limit {
        assert(output.bytes@.len() != written.len());
    }
}

} // verus!
