use vstd::prelude::*;

use crate::channel::Channel;
use crate::program::Command;

verus! {

/// A 16-bit word as two bytes, high byte first.
pub open spec fn word_bytes(w: int) -> Seq<u8> {
    seq![(w / 256) as u8, (w % 256) as u8]
}

/// The program memory image of `p`: each instruction's word, big-endian, in order.
pub open spec fn program_bytes(p: Seq<Command>) -> Seq<u8>
    decreases p.len(),
{
    if p.len() == 0 {
        Seq::empty()
    } else {
        program_bytes(p.drop_last()) + word_bytes(p.last().code())
    }
}

/// Every instruction of `p` has a defined encoding.
pub open spec fn all_encodable(p: Seq<Command>) -> bool {
    forall|i: int| 0 <= i < p.len() ==> #[trigger] p[i].spec_is_encodable()
}

/// Base address of each engine's program memory.
pub const R_PROG_ADDR: u8 = 0x10;

pub const G_PROG_ADDR: u8 = 0x30;

pub const B_PROG_ADDR: u8 = 0x50;

/// The write that loads `payload` into the program memory at `base`.
pub open spec fn load_write(base: u8, payload: Seq<u8>) -> Seq<u8> {
    seq![base] + payload
}

/// The load of `payload` at `base` if `selected`, else nothing.
pub open spec fn load_if(selected: bool, base: u8, payload: Seq<u8>) -> Seq<Seq<u8>> {
    if selected {
        seq![load_write(base, payload)]
    } else {
        Seq::empty()
    }
}

/// The register writes that upload `p` to the engines `sel` selects: one per
/// selected channel, in the order R, G, B, each the channel's program base
/// address followed by the whole program image.
pub open spec fn upload_writes(sel: Channel, p: Seq<Command>) -> Seq<Seq<u8>> {
    let payload = program_bytes(p);
    load_if(sel.spec_has(Channel::R), R_PROG_ADDR, payload) + load_if(
        sel.spec_has(Channel::G),
        G_PROG_ADDR,
        payload,
    ) + load_if(sel.spec_has(Channel::B), B_PROG_ADDR, payload)
}

/// Uploading to all three engines writes R, then G, then B, each at its own
/// program base address and each with the same program image.
pub proof fn lemma_upload_order(p: Seq<Command>)
    ensures
        upload_writes(Channel::RGB, p) == seq![
            load_write(R_PROG_ADDR, program_bytes(p)),
            load_write(G_PROG_ADDR, program_bytes(p)),
            load_write(B_PROG_ADDR, program_bytes(p)),
        ],
{
    assert(7u8 & 1u8 != 0 && 7u8 & 2u8 != 0 && 7u8 & 4u8 != 0) by (bit_vector);
    let payload = program_bytes(p);
    assert(upload_writes(Channel::RGB, p) =~= seq![
        load_write(R_PROG_ADDR, payload),
        load_write(G_PROG_ADDR, payload),
        load_write(B_PROG_ADDR, payload),
    ]);
}

} // verus!
