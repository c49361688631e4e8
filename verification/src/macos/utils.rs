//! Telling linked binaries from other files.
use vstd::prelude::*;

verus! {

/// The four byte sequences that a linked binary can start with: the
/// multi-architecture and the 64-bit single-architecture header, each in
/// both byte orders.
pub open spec fn is_magic(head: Seq<u8>) -> bool {
    ||| head == seq![0xcau8, 0xfeu8, 0xbau8, 0xbeu8]
    ||| head == seq![0xbeu8, 0xbau8, 0xfeu8, 0xcau8]
    ||| head == seq![0xfeu8, 0xedu8, 0xfau8, 0xcfu8]
    ||| head == seq![0xcfu8, 0xfau8, 0xedu8, 0xfeu8]
}

/// A file is a linked binary where it looks executable, holds four bytes
/// at least and starts with one of the known headers.
pub open spec fn linked_binary(looks_executable: bool, size: u64, head: Seq<u8>) -> bool {
    &&& looks_executable
    &&& size >= 4
    &&& head.len() >= 4
    &&& is_magic(head.subrange(0, 4))
}

/// Whether the first bytes of a file have a say: they do not where the
/// file does not look executable or is too small to hold a header.
pub open spec fn header_matters(looks_executable: bool, size: u64) -> bool {
    looks_executable && size >= 4
}

/// Tests whether the first bytes of a file need to be read to classify it.
pub fn needs_header(looks_executable: bool, size: u64) -> (res: bool)
    ensures
        res == header_matters(looks_executable, size),
        !res ==> forall|head: Seq<u8>| !linked_binary(looks_executable, size, head),
{
    looks_executable && size >= 4
}

fn starts_with_bytes(head: &[u8], b0: u8, b1: u8, b2: u8, b3: u8) -> (res: bool)
    requires
        head@.len() >= 4,
    ensures
        res == (head@.subrange(0, 4) == seq![b0, b1, b2, b3]),
{
    let res = head[0] == b0 && head[1] == b1 && head[2] == b2 && head[3] == b3;
    proof {
        let h = head@.subrange(0, 4);
        if res {
            assert(h =~= seq![b0, b1, b2, b3]);
        } else {
            assert(h[0] == head@[0] && h[1] == head@[1] && h[2] == head@[2] && h[3] == head@[3]);
            assert(seq![b0, b1, b2, b3][0] == b0 && seq![b0, b1, b2, b3][1] == b1 && seq![
                b0,
                b1,
                b2,
                b3,
            ][2] == b2 && seq![b0, b1, b2, b3][3] == b3);
        }
    }
    res
}

/// Classifies a file by whether it looks executable, its size and the
/// bytes it starts with.
pub fn is_executable_binary(looks_executable: bool, size: u64, head: &[u8]) -> (res: bool)
    ensures
        res == linked_binary(looks_executable, size, head@),
{
    if !looks_executable || size < 4 || head.len() < 4 {
        return false;
    }
    starts_with_bytes(head, 0xca, 0xfe, 0xba, 0xbe) || starts_with_bytes(head, 0xbe, 0xba, 0xfe, 0xca)
        || starts_with_bytes(head, 0xfe, 0xed, 0xfa, 0xcf) || starts_with_bytes(
        head,
        0xcf,
        0xfa,
        0xed,
        0xfe,
    )
}

} // verus!
