//! Register access over I2C: the bus and device address, and the frames that a register write
//! is split into.
use vstd::prelude::*;

verus! {

/// The I2C bus of a device and its 7-bit address.
pub struct I2cInterface<I2C> {
    /// The I2C peripheral.
    pub i2c: I2C,
    /// 7-bit address of the device.
    pub address: u8,
}

impl<I2C> I2cInterface<I2C> {
    /// An interface to the device at `i2c_address` on `i2c`.
    pub fn new(i2c: I2C, i2c_address: u8) -> (r: Self)
        ensures
            r.i2c == i2c,
            r.address == i2c_address,
    {
        Self { i2c, address: i2c_address }
    }

    /// Gives the I2C peripheral back.
    pub fn destroy(self) -> (r: I2C)
        ensures
            r == self.i2c,
    {
        self.i2c
    }
}

/// The size of the frame buffer of one I2C write.
pub const BUF_LEN: usize = 64;

/// The most register bytes that one frame carries (the first byte is the register address).
pub const MAX_DATA: usize = 63;

/// Writes the frame `reg, chunk...` to the start of `buf` and returns its length; the rest of
/// `buf` is left as it was.
pub fn build_frame(buf: &mut [u8; 64], reg: u8, chunk: &[u8]) -> (len: usize)
    requires
        chunk@.len() <= MAX_DATA,
    ensures
        len == chunk@.len() + 1,
        final(buf)@.len() == BUF_LEN,
        final(buf)@[0] == reg,
        final(buf)@.subrange(1, len as int) == chunk@,
        final(buf)@.subrange(len as int, BUF_LEN as int) == old(buf)@.subrange(
            len as int,
            BUF_LEN as int,
        ),
{
    buf[0] = reg;
    let mut i: usize = 0;
    while i < chunk.len()
        invariant
            chunk@.len() <= MAX_DATA,
            i <= chunk@.len(),
            buf@.len() == BUF_LEN,
            buf@[0] == reg,
            forall|j: int| 0 <= j < i ==> buf@[1 + j] == chunk@[j],
            forall|j: int| 1 + i <= j < BUF_LEN ==> buf@[j] == old(buf)@[j],
        decreases chunk@.len() - i,
    {
        buf[1 + i] = chunk[i];
        i += 1;
    }
    let len = chunk.len() + 1;
    assert(buf@.subrange(1, len as int) =~= chunk@);
    assert(buf@.subrange(len as int, BUF_LEN as int) =~= old(buf)@.subrange(
        len as int,
        BUF_LEN as int,
    ));
    len
}

/// The I2C frames of a write of `data` to register `reg`: `data` in chunks of at most
/// `MAX_DATA` bytes, each chunk behind the register address; no frame for empty data.
pub open spec fn write_frames(reg: u8, data: Seq<u8>) -> Seq<Seq<u8>>
    decreases data.len(),
{
    if data.len() == 0 {
        Seq::empty()
    } else if data.len() <= MAX_DATA {
        seq![seq![reg] + data]
    } else {
        seq![seq![reg] + data.take(MAX_DATA as int)] + write_frames(reg, data.skip(MAX_DATA as int))
    }
}

/// The register bytes carried by a list of frames: each frame without its leading register
/// address, one after the other.
pub open spec fn frame_payloads(frames: Seq<Seq<u8>>) -> Seq<u8>
    decreases frames.len(),
{
    if frames.len() == 0 {
        Seq::empty()
    } else {
        frames[0].drop_first() + frame_payloads(frames.drop_first())
    }
}

/// Splitting a register write into frames loses and reorders nothing: every frame starts with
/// the register address, fits the 64-byte buffer and carries at least one byte, and the frames'
/// payloads put together are exactly the data.
pub proof fn lemma_write_frames_carry_data(reg: u8, data: Seq<u8>)
    ensures
        frame_payloads(write_frames(reg, data)) == data,
        forall|i: int|
            0 <= i < write_frames(reg, data).len() ==> {
                let f = #[trigger] write_frames(reg, data)[i];
                &&& f.len() >= 2
                &&& f.len() <= BUF_LEN
                &&& f[0] == reg
            },
    decreases data.len(),
{
    let fs = write_frames(reg, data);
    if data.len() == 0 {
    } else if data.len() <= MAX_DATA {
        assert(fs == seq![seq![reg] + data]);
        assert((seq![reg] + data).drop_first() =~= data);
        assert(fs.drop_first() =~= Seq::<Seq<u8>>::empty());
        assert(frame_payloads(fs.drop_first()) =~= Seq::<u8>::empty());
        assert(frame_payloads(fs) =~= data);
    } else {
        let head = seq![reg] + data.take(MAX_DATA as int);
        let rest = data.skip(MAX_DATA as int);
        lemma_write_frames_carry_data(reg, rest);
        assert(fs == seq![head] + write_frames(reg, rest));
        assert(fs.drop_first() =~= write_frames(reg, rest));
        assert(head.drop_first() =~= data.take(MAX_DATA as int));
        assert(data.take(MAX_DATA as int) + rest =~= data);
        assert forall|i: int| 0 <= i < fs.len() implies {
            let f = #[trigger] fs[i];
            &&& f.len() >= 2
            &&& f.len() <= BUF_LEN
            &&& f[0] == reg
        } by {
            if i > 0 {
                assert(fs[i] == write_frames(reg, rest)[i - 1]);
            }
        }
    }
}

/// The frames that write `data` to register `reg`, in the order they are sent.
pub fn register_write_frames(reg: u8, data: &[u8]) -> (frames: Vec<Vec<u8>>)
    ensures
        frames@.map_values(|f: Vec<u8>| f@) == write_frames(reg, data@),
{
    let mut frames: Vec<Vec<u8>> = Vec::new();
    let mut buf = [0u8; 64];
    let mut start: usize = 0;
    let n = data.len();
    assert(data@.skip(0) =~= data@);
    assert(frames@.map_values(|f: Vec<u8>| f@) + write_frames(reg, data@) =~= write_frames(
        reg,
        data@,
    ));
    while start < n
        invariant
            n == data@.len(),
            start <= n,
            buf@.len() == BUF_LEN,
            frames@.map_values(|f: Vec<u8>| f@) + write_frames(reg, data@.skip(start as int))
                == write_frames(reg, data@),
        decreases n - start,
    {
        let ghost rest = data@.skip(start as int);
        let end: usize = if n - start <= MAX_DATA {
            n
        } else {
            start + MAX_DATA
        };
        let chunk = vstd::slice::slice_subrange(data, start, end);
        let len = build_frame(&mut buf, reg, chunk);
        let frame = vstd::slice::slice_to_vec(vstd::slice::slice_subrange(buf.as_slice(), 0, len));
        proof {
            assert(frame@ =~= seq![reg] + chunk@);
            if n - start <= MAX_DATA {
                assert(chunk@ =~= rest);
                assert(data@.skip(end as int) =~= Seq::<u8>::empty());
            } else {
                assert(chunk@ =~= rest.take(MAX_DATA as int));
                assert(rest.skip(MAX_DATA as int) =~= data@.skip(end as int));
            }
        }
        let ghost before = frames@.map_values(|f: Vec<u8>| f@);
        frames.push(frame);
        assert(frames@.map_values(|f: Vec<u8>| f@) =~= before.push(frame@));
        assert(frames@.map_values(|f: Vec<u8>| f@) + write_frames(reg, data@.skip(end as int))
            =~= before + write_frames(reg, rest));
        start = end;
    }
    assert(data@.skip(n as int) =~= Seq::<u8>::empty());
    assert(frames@.map_values(|f: Vec<u8>| f@) + Seq::<Seq<u8>>::empty() =~= frames@.map_values(
        |f: Vec<u8>| f@,
    ));
    frames
}

} // verus!
