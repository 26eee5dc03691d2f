//! The data section: bytes that initialise the module's memory.
use vstd::prelude::*;
use crate::wasm::leb::{leb, write_unsigned, append_bytes};
use crate::wasm::opcode::Instruction;
use crate::wasm::section::code::instrs_bytes;

verus! {

/// The encoding of one data segment: its offset, the instructions that
/// compute where it is placed (closed with `end` when there are any), then its
/// bytes preceded by their number.
pub open spec fn segment_bytes(offset: u32, instructions: Seq<Instruction>, data: Seq<u8>) -> Seq<u8> {
    leb(offset as u64) + instrs_bytes(instructions) + (if instructions.len() == 0 {
        Seq::<u8>::empty()
    } else {
        seq![0x0bu8]
    }) + leb(data.len() as u64) + data
}

/// The encodings of some segments, one after the other.
pub open spec fn segments_bytes(s: Seq<Segment>) -> Seq<u8>
    decreases s.len(),
{
    if s.len() == 0 {
        Seq::empty()
    } else {
        segments_bytes(s.drop_last()) + segment_bytes(s.last()@.0, s.last()@.1, s.last()@.2)
    }
}

/// The encoding of a data section holding `segments`.
pub open spec fn data_bytes(segments: Seq<Segment>) -> Seq<u8> {
    seq![0x0bu8] + leb((segments_bytes(segments).len() + 1) as u64) + leb(segments.len() as u64)
        + segments_bytes(segments)
}

/// The data section of a module.
#[derive(Debug, Clone, PartialEq)]
pub struct Data {
    data: Vec<Segment>,
}

/// One segment of the data section.
#[derive(Debug, Clone, PartialEq)]
pub struct Segment {
    offset: u32,
    instructions: Vec<Instruction>,
    data: Vec<u8>,
}

impl View for Segment {
    type V = (u32, Seq<Instruction>, Seq<u8>);

    closed spec fn view(&self) -> (u32, Seq<Instruction>, Seq<u8>) {
        (self.offset, self.instructions@, self.data@)
    }
}

impl Default for Segment {
    fn default() -> (r: Self)
        ensures
            r@ == (0u32, Seq::<Instruction>::empty(), Seq::<u8>::empty()),
    {
        Segment { offset: 0, instructions: Vec::new(), data: Vec::new() }
    }
}

impl Segment {
    /// This segment at another offset.
    pub fn with_offset(self, offset: u32) -> (r: Self)
        ensures
            r@ == (offset, self@.1, self@.2),
    {
        let mut s = self;
        s.offset = offset;
        s
    }

    /// This segment with one more placement instruction.
    pub fn with_instruction(self, instruction: Instruction) -> (r: Self)
        ensures
            r@ == (self@.0, self@.1.push(instruction), self@.2),
    {
        let mut s = self;
        s.instructions.push(instruction);
        s
    }

    /// This segment with `data` appended to its bytes.
    pub fn with_data(self, data: Vec<u8>) -> (r: Self)
        ensures
            r@ == (self@.0, self@.1, self@.2 + data@),
    {
        let mut s = self;
        let mut d = data;
        s.data.append(&mut d);
        s
    }

    /// Appends `data` to this segment's bytes and returns where it starts
    /// (the former length, as a `u32`).
    pub fn push_data(&mut self, data: Vec<u8>) -> (r: u32)
        ensures
            final(self)@ == (old(self)@.0, old(self)@.1, old(self)@.2 + data@),
            r == old(self)@.2.len() as u32,
    {
        let offset = self.data.len() as u32;
        let mut d = data;
        self.data.append(&mut d);
        offset
    }

    /// Encodes this segment.
    pub fn to_bytes(&self) -> (r: Vec<u8>)
        ensures
            r@ == segment_bytes(self@.0, self@.1, self@.2),
    {
        let mut bytes: Vec<u8> = Vec::new();
        write_unsigned(&mut bytes, self.offset as u64);
        let ghost head = bytes@;
        let mut i: usize = 0;
        while i < self.instructions.len()
            invariant
                i <= self@.1.len(),
                bytes@ == head + instrs_bytes(self@.1.subrange(0, i as int)),
            decreases self@.1.len() - i,
        {
            let b = self.instructions[i].to_bytes();
            append_bytes(&mut bytes, b.as_slice());
            assert(self@.1.subrange(0, i + 1).drop_last() =~= self@.1.subrange(0, i as int));
            i = i + 1;
        }
        assert(self@.1.subrange(0, i as int) =~= self@.1);
        if self.instructions.len() != 0 {
            bytes.push(0x0b);
        }
        write_unsigned(&mut bytes, self.data.len() as u64);
        append_bytes(&mut bytes, self.data.as_slice());
        assert(bytes@ =~= segment_bytes(self@.0, self@.1, self@.2));
        bytes
    }
}

impl View for Data {
    type V = Seq<Segment>;

    closed spec fn view(&self) -> Seq<Segment> {
        self.data@
    }
}

impl Default for Data {
    fn default() -> (r: Self)
        ensures
            r@ == Seq::<Segment>::empty(),
    {
        Data { data: Vec::new() }
    }
}

impl Data {
    /// Appends a segment.
    pub fn push(&mut self, segment: Segment)
        ensures
            final(self)@ == old(self)@.push(segment),
    {
        self.data.push(segment);
    }

    /// This section with a segment appended.
    pub fn with(self, segment: Segment) -> (r: Self)
        ensures
            r@ == self@.push(segment),
    {
        let mut s = self;
        s.data.push(segment);
        s
    }

    /// Appends `data` to the last segment (to a new segment if there is none)
    /// and returns where it starts in that segment.
    pub fn push_data(&mut self, data: Vec<u8>) -> (r: u32)
        ensures
            old(self)@.len() == 0 ==> {
                &&& final(self)@.len() == 1
                &&& final(self)@[0]@ == (0u32, Seq::<Instruction>::empty(), data@)
                &&& r == 0
            },
            old(self)@.len() > 0 ==> {
                let last = old(self)@.last();
                &&& final(self)@.len() == old(self)@.len()
                &&& final(self)@.drop_last() == old(self)@.drop_last()
                &&& final(self)@.last()@ == (last@.0, last@.1, last@.2 + data@)
                &&& r == last@.2.len() as u32
            },
    {
        match self.data.pop() {
            Some(segment) => {
                let mut segment = segment;
                let r = segment.push_data(data);
                self.data.push(segment);
                assert(self.data@.drop_last() =~= old(self)@.drop_last());
                r
            },
            None => {
                let mut segment = Segment::default();
                let mut d = data;
                segment.data.append(&mut d);
                self.data.push(segment);
                0
            },
        }
    }

    /// Encodes this section: its id, its size, the number of segments, then
    /// the segments.
    pub fn to_bytes(&self) -> (r: Vec<u8>)
        requires
            segments_bytes(self@).len() + 1 <= usize::MAX,
        ensures
            r@ == data_bytes(self@),
    {
        let mut bytes: Vec<u8> = Vec::new();
        bytes.push(0x0b);
        let mut segment_bytes: Vec<u8> = Vec::new();
        let mut i: usize = 0;
        while i < self.data.len()
            invariant
                i <= self@.len(),
                segment_bytes@ == segments_bytes(self@.subrange(0, i as int)),
            decreases self@.len() - i,
        {
            let b = self.data[i].to_bytes();
            append_bytes(&mut segment_bytes, b.as_slice());
            assert(self@.subrange(0, i + 1).drop_last() =~= self@.subrange(0, i as int));
            i = i + 1;
        }
        assert(self@.subrange(0, i as int) =~= self@);
        // one more byte for the count
        let length = 1 + segment_bytes.len();
        write_unsigned(&mut bytes, length as u64);
        write_unsigned(&mut bytes, self.data.len() as u64);
        append_bytes(&mut bytes, segment_bytes.as_slice());
        assert(bytes@ =~= data_bytes(self@));
        bytes
    }
}

} // verus!
