//! Framing of trace messages for the system trace macrocell.
//!
//! A message is a sequence of byte writes to one port: the first byte marks
//! the start of a message with a timestamp, the following bytes are plain
//! data, and a flag write closes the message.
use vstd::prelude::*;
use vstd::string::StringSliceAdditionalSpecFns;

verus! {

/// The kinds of writes to a trace port.
#[allow(non_camel_case_types)]
#[derive(Clone, Copy, Debug, PartialEq, Eq, Structural)]
pub enum StmType {
    /// Data with a timestamp, which opens a message.
    G_DTS,
    /// Plain data.
    G_D,
    /// A flag, which closes a message.
    G_FLAG,
}

/// One byte written to a port as one kind of write.
#[derive(Clone, Copy, Debug, PartialEq, Eq, Structural)]
pub struct StmWrite {
    pub port: u16,
    pub typ: StmType,
    pub data: u8,
}

/// The writes that send `buf` as one message on `port`.
pub open spec fn spec_frame(port: u16, buf: Seq<u8>) -> Seq<StmWrite> {
    if buf.len() == 0 {
        seq![]
    } else {
        Seq::new(
            buf.len(),
            |i: int|
                StmWrite { port, typ: if i == 0 { StmType::G_DTS } else { StmType::G_D }, data: buf[i] },
        ).push(StmWrite { port, typ: StmType::G_FLAG, data: 0 })
    }
}

/// A writer of trace messages to one port.
pub struct StmWriter {
    pub port: u16,
}

impl StmWriter {
    /// A writer to `port`.
    pub fn new(port: u16) -> (w: Self)
        ensures
            w.port == port,
    {
        StmWriter { port }
    }

    /// The writes that send `buf` as one message, and the number of bytes
    /// taken: nothing is written for an empty buffer; otherwise every byte is
    /// written, the first one opening the message, and a flag closes it.
    pub fn write(&self, buf: &[u8]) -> (res: (Vec<StmWrite>, usize))
        ensures
            res.0@ == spec_frame(self.port, buf@),
            res.1 == buf@.len(),
    {
        let mut writes: Vec<StmWrite> = Vec::new();
        if buf.len() == 0 {
            assert(writes@ =~= spec_frame(self.port, buf@));
            return (writes, 0);
        }
        let mut i: usize = 0;
        while i < buf.len()
            invariant
                i <= buf@.len(),
                buf@.len() > 0,
                writes@.len() == i,
                forall|k: int|
                    0 <= k < i ==> #[trigger] writes@[k] == (StmWrite {
                        port: self.port,
                        typ: if k == 0 { StmType::G_DTS } else { StmType::G_D },
                        data: buf@[k],
                    }),
            decreases buf@.len() - i,
        {
            let typ = if i == 0 { StmType::G_DTS } else { StmType::G_D };
            writes.push(StmWrite { port: self.port, typ, data: buf[i] });
            i = i + 1;
        }
        writes.push(StmWrite { port: self.port, typ: StmType::G_FLAG, data: 0 });
        assert(writes@ =~= spec_frame(self.port, buf@));
        (writes, buf.len())
    }
}

/// The base address of the trace macrocell's stimulus ports.
pub const STM_BASE: usize = 0xF800_0000;

/// The address of write kind `typ` on `port` of channel `ch`.
pub open spec fn spec_stm_address(ch: int, port: int, typ: int) -> int {
    STM_BASE + 0x1000 * ch + port * 0x100 + typ
}

/// The address of write kind `typ` on `port` of channel `ch`.
pub fn stm_address(ch: usize, port: usize, typ: usize) -> (addr: usize)
    requires
        spec_stm_address(ch as int, port as int, typ as int) <= usize::MAX,
    ensures
        addr == spec_stm_address(ch as int, port as int, typ as int),
{
    STM_BASE + 0x1000 * ch + port * 0x100 + typ
}

/// The offset of a timestamped data write.
pub const STM_DATA_TS: usize = 0x10;

/// The offset of a plain data write.
pub const STM_DATA: usize = 0x18;

/// The offset of the write that closes a string.
pub const STM_CLOSE: usize = 0x68;

/// The byte written to close a string.
pub const STM_CLOSE_DATA: u8 = 123;

/// The (address, byte) writes that send the bytes of a string on `port` of
/// channel `ch`: the first byte timestamped, the rest plain, then the closing
/// write.
pub open spec fn spec_str_writes(ch: int, port: int, bytes: Seq<u8>) -> Seq<(int, u8)> {
    Seq::new(
        bytes.len(),
        |i: int|
            (spec_stm_address(ch, port, if i == 0 { STM_DATA_TS as int } else { STM_DATA as int }), bytes[i]),
    ).push((spec_stm_address(ch, port, STM_CLOSE as int), STM_CLOSE_DATA))
}

/// The writes that send string `s` on `port` of channel `ch`; the string must
/// not be empty.
pub fn stm_write_str(ch: usize, port: usize, s: &str) -> (writes: Vec<(usize, u8)>)
    requires
        s.spec_bytes().len() > 0,
        spec_stm_address(ch as int, port as int, STM_CLOSE as int) <= usize::MAX,
    ensures
        writes@.map_values(|w: (usize, u8)| (w.0 as int, w.1)) == spec_str_writes(
            ch as int,
            port as int,
            s.spec_bytes(),
        ),
{
    let bytes = s.as_bytes();
    let mut writes: Vec<(usize, u8)> = Vec::new();
    writes.push((stm_address(ch, port, STM_DATA_TS), bytes[0]));
    let mut i: usize = 1;
    while i < bytes.len()
        invariant
            1 <= i <= bytes@.len(),
            bytes@ == s.spec_bytes(),
            spec_stm_address(ch as int, port as int, STM_CLOSE as int) <= usize::MAX,
            writes@.len() == i,
            forall|k: int|
                0 <= k < i ==> (#[trigger] writes@[k]).0 == spec_stm_address(
                    ch as int,
                    port as int,
                    if k == 0 { STM_DATA_TS as int } else { STM_DATA as int },
                ) && writes@[k].1 == bytes@[k],
        decreases bytes@.len() - i,
    {
        writes.push((stm_address(ch, port, STM_DATA), bytes[i]));
        i = i + 1;
    }
    writes.push((stm_address(ch, port, STM_CLOSE), STM_CLOSE_DATA));
    assert(writes@.map_values(|w: (usize, u8)| (w.0 as int, w.1)) =~= spec_str_writes(
        ch as int,
        port as int,
        s.spec_bytes(),
    ));
    writes
}

} // verus!
