//! The code section: the bodies of the module's functions.
use vstd::prelude::*;
use crate::wasm::leb::{leb, write_unsigned, append_bytes, lemma_leb_len};
use crate::wasm::opcode::Instruction;

verus! {

/// The encodings of a sequence of instructions, one after the other.
pub open spec fn instrs_bytes(s: Seq<Instruction>) -> Seq<u8>
    decreases s.len(),
{
    if s.len() == 0 {
        Seq::empty()
    } else {
        instrs_bytes(s.drop_last()) + s.last().spec_bytes()
    }
}

/// The size that a function body declares: its instructions, the byte for its
/// local declarations and the closing `end`.
pub open spec fn block_len(s: Seq<Instruction>) -> int {
    instrs_bytes(s).len() + 2int
}

/// The encoding of a function body: its size, an empty list of locals, its
/// instructions and `end` (0x0b).
pub open spec fn block_bytes(s: Seq<Instruction>) -> Seq<u8> {
    leb(block_len(s) as u64) + seq![0x00u8] + instrs_bytes(s) + seq![0x0bu8]
}

/// The sum of the declared sizes of some bodies.
pub open spec fn blocks_len(s: Seq<Block>) -> int
    decreases s.len(),
{
    if s.len() == 0 {
        0
    } else {
        blocks_len(s.drop_last()) + block_len(s.last()@)
    }
}

/// The encodings of some bodies, one after the other.
pub open spec fn blocks_bytes(s: Seq<Block>) -> Seq<u8>
    decreases s.len(),
{
    if s.len() == 0 {
        Seq::empty()
    } else {
        blocks_bytes(s.drop_last()) + block_bytes(s.last()@)
    }
}

/// The encoding of a code section holding `blocks`.
pub open spec fn code_bytes(blocks: Seq<Block>) -> Seq<u8> {
    seq![0x0au8] + leb((blocks_len(blocks) + 1 + blocks.len()) as u64) + leb(blocks.len() as u64)
        + blocks_bytes(blocks)
}

/// A prefix of a sequence of instructions encodes to a prefix of its encoding.
pub proof fn lemma_instrs_bytes_prefix(s: Seq<Instruction>, i: int)
    requires
        0 <= i <= s.len(),
    ensures
        instrs_bytes(s.subrange(0, i)).len() <= instrs_bytes(s).len(),
    decreases s.len() - i,
{
    if i < s.len() {
        lemma_instrs_bytes_prefix(s, i + 1);
        assert(s.subrange(0, i + 1).drop_last() =~= s.subrange(0, i));
    } else {
        assert(s.subrange(0, i) =~= s);
    }
}

/// The code section of a module.
#[derive(Debug, Clone, PartialEq)]
pub struct Code {
    length: usize,
    blocks: Vec<Block>,
}

/// The body of one function.
#[derive(Debug, Clone, PartialEq)]
pub struct Block {
    instructions: Vec<Instruction>,
}

impl View for Block {
    type V = Seq<Instruction>;

    closed spec fn view(&self) -> Seq<Instruction> {
        self.instructions@
    }
}

impl Default for Block {
    fn default() -> (r: Self)
        ensures
            r@ == Seq::<Instruction>::empty(),
    {
        Block { instructions: Vec::new() }
    }
}

impl Block {
    /// A body with the given instructions.
    pub fn new(instructions: Vec<Instruction>) -> (r: Self)
        ensures
            r@ == instructions@,
    {
        Self { instructions }
    }

    /// The size that this body declares.
    pub fn len(&self) -> (r: usize)
        requires
            block_len(self@) <= usize::MAX,
        ensures
            r == block_len(self@),
    {
        let mut length: usize = 0;
        let mut i: usize = 0;
        while i < self.instructions.len()
            invariant
                i <= self@.len(),
                length == instrs_bytes(self@.subrange(0, i as int)).len(),
                block_len(self@) <= usize::MAX,
            decreases self@.len() - i,
        {
            proof {
                lemma_instrs_bytes_prefix(self@, i + 1);
                assert(self@.subrange(0, i + 1).drop_last() =~= self@.subrange(0, i as int));
            }
            length = length + self.instructions[i].len();
            i = i + 1;
        }
        assert(self@.subrange(0, i as int) =~= self@);
        // one byte for the empty list of locals, one for the closing `end`
        length = length + 1;
        length = length + 1;
        length
    }

    /// This body with `instruction` appended.
    pub fn with(self, instruction: Instruction) -> (r: Self)
        ensures
            r@ == self@.push(instruction),
    {
        let mut s = self;
        s.instructions.push(instruction);
        s
    }

    /// Encodes this body.
    pub fn to_bytes(&self) -> (r: Vec<u8>)
        requires
            block_len(self@) <= usize::MAX,
        ensures
            r@ == block_bytes(self@),
    {
        let mut bytes: Vec<u8> = Vec::new();
        let length = self.len();
        write_unsigned(&mut bytes, length as u64);
        bytes.push(0x00);
        let ghost head = bytes@;
        let mut i: usize = 0;
        while i < self.instructions.len()
            invariant
                i <= self@.len(),
                bytes@ == head + instrs_bytes(self@.subrange(0, i as int)),
            decreases self@.len() - i,
        {
            let b = self.instructions[i].to_bytes();
            append_bytes(&mut bytes, b.as_slice());
            assert(self@.subrange(0, i + 1).drop_last() =~= self@.subrange(0, i as int));
            i = i + 1;
        }
        assert(self@.subrange(0, i as int) =~= self@);
        bytes.push(0x0b);
        assert(bytes@ =~= block_bytes(self@));
        bytes
    }
}

impl View for Code {
    type V = Seq<Block>;

    closed spec fn view(&self) -> Seq<Block> {
        self.blocks@
    }
}

impl Default for Code {
    fn default() -> (r: Self)
        ensures
            r.wf(),
            r@ == Seq::<Block>::empty(),
    {
        Code { length: 0, blocks: Vec::new() }
    }
}

impl Code {
    /// The recorded size agrees with the bodies held.
    pub closed spec fn wf(&self) -> bool {
        self.length == blocks_len(self.blocks@)
    }

    /// Appends a function body.
    pub fn push(&mut self, block: Block)
        requires
            old(self).wf(),
            blocks_len(old(self)@) + block_len(block@) <= usize::MAX,
        ensures
            final(self).wf(),
            final(self)@ == old(self)@.push(block),
    {
        let n = block.len();
        self.length = self.length + n;
        self.blocks.push(block);
        assert(self.blocks@.drop_last() =~= old(self).blocks@);
    }

    /// This section with a function body appended.
    pub fn with(self, block: Block) -> (r: Self)
        requires
            self.wf(),
            blocks_len(self@) + block_len(block@) <= usize::MAX,
        ensures
            r.wf(),
            r@ == self@.push(block),
    {
        let mut s = self;
        s.push(block);
        s
    }

    /// Encodes this section: its id, its declared size, the number of bodies,
    /// then the bodies.
    pub fn to_bytes(&self) -> (r: Vec<u8>)
        requires
            self.wf(),
            blocks_len(self@) + 1 + self@.len() <= usize::MAX,
        ensures
            r@ == code_bytes(self@),
    {
        let mut bytes: Vec<u8> = Vec::new();
        bytes.push(0x0a);
        let length = self.length + 1 + self.blocks.len();
        write_unsigned(&mut bytes, length as u64);
        let count = self.blocks.len();
        write_unsigned(&mut bytes, count as u64);
        let ghost head = bytes@;
        let mut i: usize = 0;
        while i < self.blocks.len()
            invariant
                i <= self@.len(),
                self.wf(),
                blocks_len(self@) + 1 + self@.len() <= usize::MAX,
                bytes@ == head + blocks_bytes(self@.subrange(0, i as int)),
            decreases self@.len() - i,
        {
            proof {
                lemma_blocks_len_prefix(self@, i + 1);
                lemma_blocks_len_prefix(self@, i as int);
                assert(self@.subrange(0, i + 1).drop_last() =~= self@.subrange(0, i as int));
            }
            let b = self.blocks[i].to_bytes();
            append_bytes(&mut bytes, b.as_slice());
            i = i + 1;
        }
        assert(self@.subrange(0, i as int) =~= self@);
        assert(bytes@ =~= code_bytes(self@));
        bytes
    }
}

/// The declared sizes of a prefix of some bodies add up to at most those of all
/// of them, and each body's size is at most that sum.
pub proof fn lemma_blocks_len_prefix(s: Seq<Block>, i: int)
    requires
        0 <= i <= s.len(),
    ensures
        0 <= blocks_len(s.subrange(0, i)) <= blocks_len(s),
        i < s.len() ==> block_len(s[i]@) <= blocks_len(s),
    decreases s.len() - i,
{
    if i < s.len() {
        lemma_blocks_len_prefix(s, i + 1);
        assert(s.subrange(0, i + 1).drop_last() =~= s.subrange(0, i));
        lemma_blocks_len_nonneg(s.subrange(0, i));
    } else {
        assert(s.subrange(0, i) =~= s);
        lemma_blocks_len_nonneg(s);
    }
}

proof fn lemma_blocks_len_nonneg(s: Seq<Block>)
    ensures
        blocks_len(s) >= 0,
    decreases s.len(),
{
    if s.len() > 0 {
        lemma_blocks_len_nonneg(s.drop_last());
    }
}

} // verus!
