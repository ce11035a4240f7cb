use vstd::prelude::*;

use crate::address::Address;

verus! {

/// The size of one page: the most bytes that one write transaction may carry.
pub const PAGE_SIZE: usize = 32;

/// A memory address as it goes on the wire: high byte first.
pub open spec fn be_bytes(n: u16) -> Seq<u8> {
    seq![(n / 256) as u8, (n % 256) as u8]
}

/// Relies on byteorder's `BigEndian::write_u16`, which stores `n` in the first
/// two bytes of the buffer, most significant byte first.
#[verifier::external_body]
fn be_u16(n: u16) -> (r: [u8; 2])
    ensures
        r@ == be_bytes(n),
{
    let mut buf = [0u8; 2];
    <byteorder::BigEndian as byteorder::ByteOrder>::write_u16(&mut buf, n);
    buf
}

/// One bus write transaction: `bytes` sent to the device at `device`.
pub struct Frame {
    pub device: u8,
    pub bytes: Vec<u8>,
}

/// One combined write-then-read transaction: `bytes` sent to `device`, then
/// `len` bytes read back without a stop in between.
pub struct ReadRequest {
    pub device: u8,
    pub bytes: [u8; 2],
    pub len: usize,
}

/// The bytes that a page write carries: the first `PAGE_SIZE` of `data` at most.
pub open spec fn page_payload(data: Seq<u8>) -> Seq<u8> {
    if data.len() <= PAGE_SIZE {
        data
    } else {
        data.take(PAGE_SIZE as int)
    }
}

/// Driver for one AT24C32/64 device on the bus.
///
/// It holds the device's bus address and nothing else; the bus itself is
/// lent for each transaction by the caller.
pub struct AT24Cx {
    pub address: Address,
}

impl AT24Cx {
    /// The bus address of the device.
    pub open spec fn device(self) -> u8 {
        self.address.spec_bits()
    }

    /// Creates a new driver with the given I2C address.
    pub fn new(address: Address) -> (r: Self)
        ensures
            r.address == address,
    {
        AT24Cx { address }
    }

    /// The transaction that writes `byte` at the memory address `address`.
    ///
    /// Once the bus accepts it, the chip starts its write cycle: drive a
    /// `WriteCycle` until it completes.
    pub fn write(&self, address: u16, byte: u8) -> (r: Frame)
        ensures
            r.device == self.device(),
            r.bytes@ == be_bytes(address).push(byte),
    {
        let addr = be_u16(address);
        let mut bytes: Vec<u8> = Vec::with_capacity(3);
        bytes.push(addr[0]);
        bytes.push(addr[1]);
        bytes.push(byte);
        assert(bytes@ =~= be_bytes(address).push(byte));
        Frame { device: self.address.bits(), bytes }
    }

    /// The transaction that writes `data` from the memory address `address`
    /// on, within one page.
    ///
    /// Only the first `PAGE_SIZE` bytes of `data` are sent; the rest are
    /// dropped. Once the bus accepts it, drive a `WriteCycle` until it
    /// completes.
    pub fn write_page(&self, address: u16, data: &[u8]) -> (r: Frame)
        ensures
            r.device == self.device(),
            r.bytes@ == be_bytes(address) + page_payload(data@),
            r.bytes@.len() == 2 + if data@.len() <= PAGE_SIZE { data@.len() } else { PAGE_SIZE as nat },
    {
        let len: usize = if data.len() < PAGE_SIZE { data.len() } else { PAGE_SIZE };
        let addr = be_u16(address);
        let mut bytes: Vec<u8> = Vec::with_capacity(2 + len);
        bytes.push(addr[0]);
        bytes.push(addr[1]);
        let mut i: usize = 0;
        while i < len
            invariant
                len <= data@.len(),
                len <= PAGE_SIZE,
                i <= len,
                bytes@ == be_bytes(address) + data@.take(i as int),
            decreases len - i,
        {
            bytes.push(data[i]);
            i = i + 1;
            assert(data@.take(i as int) =~= data@.take(i - 1 as int).push(data@[i - 1 as int]));
            assert(bytes@ =~= be_bytes(address) + data@.take(i as int));
        }
        assert(data@.take(len as int) =~= page_payload(data@));
        Frame { device: self.address.bits(), bytes }
    }

    /// The transaction that reads `len` bytes from the memory address
    /// `address` on.
    ///
    /// The chip itself goes on at address 0 past its last byte. No write
    /// cycle follows a read.
    pub fn read(&self, address: u16, len: usize) -> (r: ReadRequest)
        ensures
            r.device == self.device(),
            r.bytes@ == be_bytes(address),
            r.len == len,
    {
        ReadRequest { device: self.address.bits(), bytes: be_u16(address), len }
    }

    /// The empty write that asks whether the device has finished its write
    /// cycle: the device acknowledges it only once it has.
    pub fn probe(&self) -> (r: Frame)
        ensures
            r.device == self.device(),
            r.bytes@.len() == 0,
    {
        Frame { device: self.address.bits(), bytes: Vec::new() }
    }
}

} // verus!
