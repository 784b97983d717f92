//! Padding of response bodies, so that their length tells an observer less.

use vstd::prelude::*;

verus! {

/// How many bytes a body of `len` bytes lacks to fill whole blocks of `block` bytes.
pub open spec fn missing(len: nat, block: nat) -> nat
    recommends
        block > 0,
{
    if len % block == 0 {
        0
    } else {
        (block - len % block) as nat
    }
}

/// The padding fills the last block and is shorter than a block.
pub proof fn lemma_missing_fills_blocks(len: nat, block: nat)
    requires
        block > 0,
    ensures
        (len + missing(len, block)) % block == 0,
        missing(len, block) < block,
{
    let r = len % block;
    if r != 0 {
        assert((len + (block - r)) % (block as int) == 0) by (nonlinear_arith)
            requires
                r == len % block,
                block > 0,
                0 < r < block,
        ;
    }
}

/// Appends spaces to `message` until its length is a multiple of `block_size`.
pub fn space_pad(message: &mut Vec<u8>, block_size: usize)
    requires
        block_size > 0,
    ensures
        final(message)@ == old(message)@ + Seq::new(
            missing(old(message)@.len(), block_size as nat),
            |i: int| 32u8,
        ),
        final(message)@.len() % (block_size as nat) == 0,
{
    let len = message.len();
    let surplus = len % block_size;
    proof {
        lemma_missing_fills_blocks(len as nat, block_size as nat);
    }
    if surplus == 0 {
        assert(message@ =~= old(message)@ + Seq::new(0, |i: int| 32u8));
        return ;
    }
    let count = block_size - surplus;
    let mut added: usize = 0;
    while added < count
        invariant
            added <= count,
            message@ == old(message)@ + Seq::new(added as nat, |i: int| 32u8),
        decreases count - added,
    {
        message.push(32u8);
        added += 1;
        assert(message@ =~= old(message)@ + Seq::new(added as nat, |i: int| 32u8));
    }
}

} // verus!
