use vstd::prelude::*;

use crate::driver::{be_bytes, page_payload, PAGE_SIZE};

verus! {

/// A memory of `mem.len()` bytes that this chip family can have: whole pages,
/// and no more bytes than a 16-bit address reaches.
pub open spec fn valid_memory(mem: Seq<u8>) -> bool {
    &&& 0 < mem.len() <= 0x10000
    &&& mem.len() % (PAGE_SIZE as nat) == 0
}

/// The memory address that the first two bytes of a transaction carry.
pub open spec fn frame_address(bytes: Seq<u8>) -> int {
    bytes[0] as int * 256 + bytes[1] as int
}

/// The address that follows `a` within its page: the chip wraps to the start
/// of the same page rather than crossing into the next one.
pub open spec fn next_in_page(a: int) -> int {
    a - a % (PAGE_SIZE as int) + (a % (PAGE_SIZE as int) + 1) % (PAGE_SIZE as int)
}

/// The memory after the chip has stored `data` from `a` on, one byte after
/// the other, wrapping within the page of `a`.
pub open spec fn fill_page(mem: Seq<u8>, a: int, data: Seq<u8>) -> Seq<u8>
    decreases data.len(),
{
    if data.len() == 0 {
        mem
    } else {
        fill_page(mem.update(a, data[0]), next_in_page(a), data.drop_first())
    }
}

/// What the chip's memory holds once it has committed the write transaction
/// `bytes`: two address bytes, high byte first, then the data. The address
/// wraps at the end of the memory.
pub open spec fn chip_write(mem: Seq<u8>, bytes: Seq<u8>) -> Seq<u8> {
    if bytes.len() < 2 {
        mem
    } else {
        fill_page(mem, frame_address(bytes) % mem.len() as int, bytes.skip(2))
    }
}

/// What the chip sends back for a write-then-read transaction whose write
/// part is `addr` and whose read part is `len` bytes long: it reads on from
/// the address, wrapping to 0 past the last byte.
pub open spec fn chip_read(mem: Seq<u8>, addr: Seq<u8>, len: nat) -> Seq<u8> {
    Seq::new(len, |i: int| mem[(frame_address(addr) + i) % mem.len() as int])
}

proof fn lemma_be_address(a: u16)
    ensures
        frame_address(be_bytes(a)) == a,
        be_bytes(a).len() == 2,
{
    assert((a / 256) as u8 == a / 256);
    assert((a % 256) as u8 == a % 256);
}

proof fn lemma_fill_in_page(mem: Seq<u8>, base: int, off: int, data: Seq<u8>)
    requires
        base % 32 == 0,
        0 <= base,
        base + 32 <= mem.len(),
        0 <= off,
        off + data.len() <= 32,
    ensures
        fill_page(mem, base + off, data).len() == mem.len(),
        forall|j: int|
            0 <= j < mem.len() ==> #[trigger] fill_page(mem, base + off, data)[j] == if base + off
                <= j < base + off + data.len() {
                data[j - base - off]
            } else {
                mem[j]
            },
    decreases data.len(),
{
    if data.len() > 0 {
        assert((base + off) % 32 == off) by {
            vstd::arithmetic::div_mod::lemma_mod_add_multiples_vanish(off, 32);
            assert(base == (base / 32) * 32) by {
                vstd::arithmetic::div_mod::lemma_fundamental_div_mod(base, 32);
            }
            vstd::arithmetic::div_mod::lemma_mod_multiples_vanish(base / 32, off, 32);
            vstd::arithmetic::div_mod::lemma_small_mod(off as nat, 32);
        }
        let m2 = mem.update(base + off, data[0]);
        let rest = data.drop_first();
        assert(fill_page(mem, base + off, data) == fill_page(m2, next_in_page(base + off), rest));
        if off + 1 < 32 {
            assert(next_in_page(base + off) == base + (off + 1));
            lemma_fill_in_page(m2, base, off + 1, rest);
            assert forall|j: int| 0 <= j < mem.len() implies #[trigger] fill_page(
                mem,
                base + off,
                data,
            )[j] == if base + off <= j < base + off + data.len() {
                data[j - base - off]
            } else {
                mem[j]
            } by {
                if base + off + 1 <= j < base + off + data.len() {
                    assert(rest[j - base - (off + 1)] == data[j - base - off]);
                }
            }
        } else {
            assert(rest.len() == 0);
            assert(fill_page(m2, next_in_page(base + off), rest) == m2);
        }
    }
}

/// A byte written at an address reads back from that address: once the chip
/// has committed `write`'s transaction, a one-byte read there returns it.
pub proof fn lemma_write_then_read(mem: Seq<u8>, a: u16, b: u8)
    requires
        valid_memory(mem),
    ensures
        chip_read(chip_write(mem, be_bytes(a).push(b)), be_bytes(a), 1) == seq![b],
{
    lemma_be_address(a);
    let bytes = be_bytes(a).push(b);
    assert(frame_address(bytes) == frame_address(be_bytes(a)));
    assert(bytes.skip(2) =~= seq![b]);
    let s = a as int % mem.len() as int;
    assert(seq![b].drop_first().len() == 0);
    assert(frame_address(bytes) == a);
    let m2 = chip_write(mem, bytes);
    assert(m2 == fill_page(mem, s, seq![b]));
    assert(fill_page(mem, s, seq![b]) == fill_page(mem.update(s, b), next_in_page(s), seq![b].drop_first()));
    assert(m2 == mem.update(s, b));
    assert(chip_read(m2, be_bytes(a), 1) =~= seq![b]);
}

/// A page write at a page boundary stores its payload from that address on
/// and leaves every other byte as it was, as a read of the whole memory from
/// address 0 shows.
pub proof fn lemma_page_write_then_read(mem: Seq<u8>, a: u16, data: Seq<u8>)
    requires
        valid_memory(mem),
        a % 32 == 0,
        data.len() <= PAGE_SIZE,
    ensures
        ({
            let all = chip_read(chip_write(mem, be_bytes(a) + page_payload(data)), be_bytes(0), mem.len());
            let s = a as int % mem.len() as int;
            &&& all.len() == mem.len()
            &&& forall|j: int|
                0 <= j < mem.len() ==> #[trigger] all[j] == if s <= j < s + data.len() {
                    data[j - s]
                } else {
                    mem[j]
                }
        }),
{
    lemma_be_address(a);
    lemma_be_address(0);
    let bytes = be_bytes(a) + page_payload(data);
    assert(frame_address(bytes) == frame_address(be_bytes(a)));
    assert(bytes.skip(2) =~= data);
    let s = a as int % mem.len() as int;
    assert(s % 32 == 0 && s + 32 <= mem.len()) by {
        let n = mem.len() as int;
        vstd::arithmetic::div_mod::lemma_mod_mod(a as int, 32, n / 32);
        assert(n == 32 * (n / 32)) by {
            vstd::arithmetic::div_mod::lemma_fundamental_div_mod(n, 32);
        }
        vstd::arithmetic::div_mod::lemma_fundamental_div_mod(a as int, n);
        vstd::arithmetic::div_mod::lemma_mod_bound(a as int, n);
        assert(s + 32 <= n) by {
            vstd::arithmetic::div_mod::lemma_fundamental_div_mod(s, 32);
            vstd::arithmetic::div_mod::lemma_fundamental_div_mod(n, 32);
            assert(s == 32 * (s / 32));
            assert(s / 32 < n / 32) by (nonlinear_arith)
                requires s == 32 * (s / 32), n == 32 * (n / 32), s < n;
            assert(32 * (s / 32) + 32 <= 32 * (n / 32)) by (nonlinear_arith)
                requires s / 32 < n / 32;
        }
    }
    lemma_fill_in_page(mem, s, 0, data);
    let m2 = chip_write(mem, bytes);
    let all = chip_read(m2, be_bytes(0), mem.len());
    assert forall|j: int| 0 <= j < mem.len() implies all[j] == m2[j] by {
        vstd::arithmetic::div_mod::lemma_small_mod(j as nat, mem.len());
    }
}

} // verus!
