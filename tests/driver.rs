use at24cx::{AT24Cx, Action, Address, Frame, WriteCycle, PAGE_SIZE};

const CAPACITY: usize = 4096;

/// A simulated AT24C32: it answers at one bus address, stores writes with the
/// chip's page wrap, and refuses every transaction for `busy_after_write`
/// attempts after each write.
struct FakeChip {
    device: u8,
    mem: Vec<u8>,
    busy_after_write: usize,
    busy: usize,
    refuse_writes: bool,
    writes: Vec<Vec<u8>>,
    probes: usize,
    reads: Vec<(Vec<u8>, usize)>,
}

impl FakeChip {
    fn new(device: u8, busy_after_write: usize) -> FakeChip {
        FakeChip {
            device,
            mem: (0..CAPACITY).map(|i| (i % 251) as u8).collect(),
            busy_after_write,
            busy: 0,
            refuse_writes: false,
            writes: Vec::new(),
            probes: 0,
            reads: Vec::new(),
        }
    }

    fn write(&mut self, device: u8, bytes: &[u8]) -> Result<(), ()> {
        if device != self.device {
            return Err(());
        }
        if bytes.is_empty() {
            self.probes += 1;
        }
        if self.busy > 0 {
            self.busy -= 1;
            return Err(());
        }
        if bytes.is_empty() {
            return Ok(());
        }
        if self.refuse_writes {
            return Err(());
        }
        self.writes.push(bytes.to_vec());
        let start = ((bytes[0] as usize) << 8 | bytes[1] as usize) % CAPACITY;
        let base = start - start % 32;
        for (i, b) in bytes[2..].iter().enumerate() {
            self.mem[base + (start % 32 + i) % 32] = *b;
        }
        self.busy = self.busy_after_write;
        Ok(())
    }

    fn write_read(&mut self, device: u8, bytes: &[u8], buf: &mut [u8]) -> Result<(), ()> {
        if device != self.device || self.busy > 0 {
            return Err(());
        }
        self.reads.push((bytes.to_vec(), buf.len()));
        let start = (bytes[0] as usize) << 8 | bytes[1] as usize;
        for (i, b) in buf.iter_mut().enumerate() {
            *b = self.mem[(start + i) % CAPACITY];
        }
        Ok(())
    }
}

/// Issues `frame` and drives the write cycle to its end.
fn finish(drv: &AT24Cx, chip: &mut FakeChip, frame: &Frame) -> Result<(), ()> {
    let mut outcome = chip.write(frame.device, &frame.bytes);
    let mut state = WriteCycle::start();
    loop {
        let (next, action) = state.step(outcome.is_ok());
        state = next;
        match action {
            Action::Probe => {
                let probe = drv.probe();
                outcome = chip.write(probe.device, &probe.bytes);
            }
            Action::Complete => return Ok(()),
            Action::Fail => return outcome,
        }
    }
}

fn read(drv: &AT24Cx, chip: &mut FakeChip, address: u16, len: usize) -> Result<Vec<u8>, ()> {
    let req = drv.read(address, len);
    let mut buf = vec![0u8; req.len];
    chip.write_read(req.device, &req.bytes, &mut buf)?;
    Ok(buf)
}

#[test]
fn address_bits_cover_every_pin_setting() {
    let all = [
        (Address::Addr0, 0x50),
        (Address::Addr1, 0x51),
        (Address::Addr2, 0x52),
        (Address::Addr3, 0x53),
        (Address::Addr4, 0x54),
        (Address::Addr5, 0x55),
        (Address::Addr6, 0x56),
        (Address::Addr7, 0x57),
    ];
    for (a, bits) in all.iter() {
        assert_eq!(a.bits(), *bits);
    }
    for (i, (a, _)) in all.iter().enumerate() {
        for (j, (b, _)) in all.iter().enumerate() {
            assert_eq!(a.bits() == b.bits(), i == j);
        }
    }
}

#[test]
fn new_keeps_the_address() {
    let drv = AT24Cx::new(Address::Addr5);
    assert_eq!(drv.address, Address::Addr5);
    assert_eq!(drv.probe().device, 0x55);
}

#[test]
fn write_frames_address_big_endian_then_byte() {
    let drv = AT24Cx::new(Address::Addr3);
    let f = drv.write(0x1234, 0xab);
    assert_eq!(f.device, 0x53);
    assert_eq!(f.bytes, vec![0x12, 0x34, 0xab]);
    let f = drv.write(0x0042, 42);
    assert_eq!(f.bytes, vec![0x00, 0x42, 42]);
}

#[test]
fn write_page_frames_short_payload_whole() {
    let drv = AT24Cx::new(Address::Addr0);
    for len in [0usize, 1, 5, 31, 32] {
        let data: Vec<u8> = (0..len).map(|i| i as u8 + 1).collect();
        let f = drv.write_page(0x0fe0, &data);
        assert_eq!(f.device, 0x50);
        assert_eq!(f.bytes.len(), 2 + len);
        assert_eq!(&f.bytes[..2], &[0x0f, 0xe0]);
        assert_eq!(&f.bytes[2..], &data[..]);
    }
}

#[test]
fn write_page_truncates_to_one_page() {
    let drv = AT24Cx::new(Address::Addr0);
    let data: Vec<u8> = (0..100).map(|i| i as u8).collect();
    let f = drv.write_page(64, &data);
    assert_eq!(f.bytes.len(), 2 + PAGE_SIZE);
    assert_eq!(&f.bytes[..2], &[0x00, 0x40]);
    assert_eq!(&f.bytes[2..], &data[..32]);
    assert!(!f.bytes[2..].contains(&32));
}

#[test]
fn read_asks_for_the_requested_length() {
    let drv = AT24Cx::new(Address::Addr7);
    for len in [0usize, 1, 2, 33, 4096, 10000] {
        let r = drv.read(0xbeef, len);
        assert_eq!(r.device, 0x57);
        assert_eq!(r.bytes, [0xbe, 0xef]);
        assert_eq!(r.len, len);
    }
    let mut chip = FakeChip::new(0x57, 0);
    let out = read(&drv, &mut chip, 5, 7).unwrap();
    assert_eq!(out.len(), 7);
    assert_eq!(chip.reads, vec![(vec![0x00, 0x05], 7)]);
}

#[test]
fn probe_is_an_empty_write() {
    let drv = AT24Cx::new(Address::Addr2);
    let p = drv.probe();
    assert_eq!(p.device, 0x52);
    assert!(p.bytes.is_empty());
}

#[test]
fn cycle_steps() {
    assert_eq!(WriteCycle::start(), WriteCycle::Sending);
    assert_eq!(WriteCycle::Sending.step(true), (WriteCycle::Polling, Action::Probe));
    assert_eq!(WriteCycle::Sending.step(false), (WriteCycle::Failed, Action::Fail));
    assert_eq!(WriteCycle::Polling.step(false), (WriteCycle::Polling, Action::Probe));
    assert_eq!(WriteCycle::Polling.step(true), (WriteCycle::Finished, Action::Complete));
    assert_eq!(WriteCycle::Finished.step(false), (WriteCycle::Finished, Action::Complete));
    assert_eq!(WriteCycle::Failed.step(true), (WriteCycle::Failed, Action::Fail));
}

#[test]
fn busy_poll_takes_k_plus_one_probes() {
    let drv = AT24Cx::new(Address::Addr0);
    for k in [0usize, 1, 3, 50] {
        let mut chip = FakeChip::new(0x50, k);
        assert_eq!(finish(&drv, &mut chip, &drv.write(7, 9)), Ok(()));
        assert_eq!(chip.probes, k + 1);
        let mut chip = FakeChip::new(0x50, k);
        assert_eq!(finish(&drv, &mut chip, &drv.write_page(0, &[1, 2, 3])), Ok(()));
        assert_eq!(chip.probes, k + 1);
    }
}

#[test]
fn refused_write_fails_without_polling() {
    let drv = AT24Cx::new(Address::Addr0);
    let mut chip = FakeChip::new(0x50, 3);
    chip.refuse_writes = true;
    assert_eq!(finish(&drv, &mut chip, &drv.write(7, 9)), Err(()));
    assert_eq!(chip.probes, 0);
    let other = AT24Cx::new(Address::Addr1);
    let mut chip = FakeChip::new(0x50, 3);
    assert_eq!(finish(&other, &mut chip, &other.write(7, 9)), Err(()));
    assert_eq!(chip.probes, 0);
}

#[test]
fn write_then_read_returns_the_byte() {
    let drv = AT24Cx::new(Address::Addr0);
    let mut chip = FakeChip::new(0x50, 4);
    for (a, b) in [(0u16, 0u8), (0x0042, 42), (0x0fff, 0xff), (0xffff, 7), (4096 + 3, 200)] {
        assert_eq!(finish(&drv, &mut chip, &drv.write(a, b)), Ok(()));
        assert_eq!(read(&drv, &mut chip, a, 1), Ok(vec![b]));
    }
}

#[test]
fn write_0x42_then_read_gives_42() {
    let drv = AT24Cx::new(Address::Addr0);
    let mut chip = FakeChip::new(0x50, 2);
    assert_eq!(finish(&drv, &mut chip, &drv.write(0x0042, 42)), Ok(()));
    assert_eq!(chip.busy, 0);
    let out = read(&drv, &mut chip, 0x0042, 1).unwrap();
    assert_eq!(out, vec![42]);
}

#[test]
fn page_write_at_32_then_full_read() {
    let drv = AT24Cx::new(Address::Addr0);
    let mut chip = FakeChip::new(0x50, 1);
    let before = chip.mem.clone();
    assert_eq!(finish(&drv, &mut chip, &drv.write_page(32, &[0xee; 32])), Ok(()));
    assert_eq!(chip.writes.len(), 1);
    assert_eq!(chip.writes[0].len(), 34);
    let all = read(&drv, &mut chip, 0, 4096).unwrap();
    assert_eq!(all.len(), 4096);
    for (i, b) in all.iter().enumerate() {
        if (32..64).contains(&i) {
            assert_eq!(*b, 0xee);
        } else {
            assert_eq!(*b, before[i]);
        }
    }
}

#[test]
fn empty_page_write_changes_nothing() {
    let drv = AT24Cx::new(Address::Addr0);
    let mut chip = FakeChip::new(0x50, 0);
    let before = chip.mem.clone();
    let f = drv.write_page(100, &[]);
    assert_eq!(f.bytes, vec![0x00, 100]);
    assert_eq!(finish(&drv, &mut chip, &f), Ok(()));
    assert_eq!(chip.mem, before);
}

#[test]
fn oversized_page_write_stores_one_page() {
    let drv = AT24Cx::new(Address::Addr0);
    let mut chip = FakeChip::new(0x50, 0);
    let before = chip.mem.clone();
    let data: Vec<u8> = (0..40).map(|i| 0x80 | i as u8).collect();
    assert_eq!(finish(&drv, &mut chip, &drv.write_page(64, &data)), Ok(()));
    let all = read(&drv, &mut chip, 0, 4096).unwrap();
    assert_eq!(&all[64..96], &data[..32]);
    assert_eq!(&all[96..], &before[96..]);
    assert_eq!(&all[..64], &before[..64]);
}
