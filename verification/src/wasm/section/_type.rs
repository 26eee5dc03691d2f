//! The type section: the signatures of the module's functions.
use vstd::prelude::*;
use crate::wasm::leb::{leb, write_unsigned, append_bytes};
use crate::wasm::section::DataType;

verus! {

/// A parameter type, with or without the parameter's name.
#[derive(Debug, Clone, PartialEq)]
pub enum ValueType {
    WithName(String, DataType),
    Data(DataType),
}

impl ValueType {
    /// The byte that encodes this type (the name, if any, is not encoded).
    pub open spec fn spec_byte(&self) -> u8 {
        match self {
            ValueType::WithName(_, data) => data.spec_byte(),
            ValueType::Data(data) => data.spec_byte(),
        }
    }

    /// The byte that encodes this type.
    pub fn to_byte(&self) -> (r: u8)
        ensures
            r == self.spec_byte(),
    {
        match self {
            ValueType::WithName(_, data) => data.to_byte(),
            ValueType::Data(data) => data.to_byte(),
        }
    }
}

/// The bytes of some parameter types, one per type.
pub open spec fn params_bytes(s: Seq<ValueType>) -> Seq<u8> {
    Seq::new(s.len(), |i: int| s[i].spec_byte())
}

/// The bytes of some result types, one per type.
pub open spec fn results_bytes(s: Seq<DataType>) -> Seq<u8> {
    Seq::new(s.len(), |i: int| s[i].spec_byte())
}

/// The encoding of a function signature: 0x60, then the parameters and the
/// results, each list preceded by its length.
pub open spec fn function_type_bytes(params: Seq<ValueType>, results: Seq<DataType>) -> Seq<u8> {
    seq![0x60u8] + leb(params.len() as u64) + params_bytes(params) + leb(results.len() as u64)
        + results_bytes(results)
}

/// A function signature.
#[derive(Debug, Clone, PartialEq)]
pub struct FunctionType {
    params: Vec<ValueType>,
    /// The values left on the stack.
    results: Vec<DataType>,
}

impl View for FunctionType {
    type V = (Seq<ValueType>, Seq<DataType>);

    closed spec fn view(&self) -> (Seq<ValueType>, Seq<DataType>) {
        (self.params@, self.results@)
    }
}

impl Default for FunctionType {
    fn default() -> (r: Self)
        ensures
            r@ == (Seq::<ValueType>::empty(), Seq::<DataType>::empty()),
    {
        FunctionType { params: Vec::new(), results: Vec::new() }
    }
}

impl FunctionType {
    /// This signature with one more parameter.
    pub fn with_param(self, type_: ValueType) -> (r: Self)
        ensures
            r@ == (self@.0.push(type_), self@.1),
    {
        let mut s = self;
        s.params.push(type_);
        s
    }

    /// This signature with one more result.
    pub fn with_result(self, type_: DataType) -> (r: Self)
        ensures
            r@ == (self@.0, self@.1.push(type_)),
    {
        let mut s = self;
        s.results.push(type_);
        s
    }

    /// Encodes the parameters: their number, then one byte each.
    pub fn params_to_bytes(&self) -> (r: Vec<u8>)
        ensures
            r@ == leb(self@.0.len() as u64) + params_bytes(self@.0),
    {
        let mut bytes: Vec<u8> = Vec::new();
        let count = self.params.len();
        write_unsigned(&mut bytes, count as u64);
        let ghost head = bytes@;
        let mut i: usize = 0;
        while i < self.params.len()
            invariant
                i <= self@.0.len(),
                bytes@ == head + params_bytes(self@.0.subrange(0, i as int)),
            decreases self@.0.len() - i,
        {
            bytes.push(self.params[i].to_byte());
            i = i + 1;
            assert(params_bytes(self@.0.subrange(0, i as int)) =~= params_bytes(
                self@.0.subrange(0, i - 1 as int),
            ).push(self@.0[i - 1].spec_byte()));
        }
        assert(self@.0.subrange(0, i as int) =~= self@.0);
        bytes
    }

    /// Encodes the results: their number, then one byte each.
    pub fn results_to_bytes(&self) -> (r: Vec<u8>)
        ensures
            r@ == leb(self@.1.len() as u64) + results_bytes(self@.1),
    {
        let mut bytes: Vec<u8> = Vec::new();
        let count = self.results.len();
        write_unsigned(&mut bytes, count as u64);
        let ghost head = bytes@;
        let mut i: usize = 0;
        while i < self.results.len()
            invariant
                i <= self@.1.len(),
                bytes@ == head + results_bytes(self@.1.subrange(0, i as int)),
            decreases self@.1.len() - i,
        {
            bytes.push(self.results[i].to_byte());
            i = i + 1;
            assert(results_bytes(self@.1.subrange(0, i as int)) =~= results_bytes(
                self@.1.subrange(0, i - 1 as int),
            ).push(self@.1[i - 1].spec_byte()));
        }
        assert(self@.1.subrange(0, i as int) =~= self@.1);
        bytes
    }

    /// Encodes this signature.
    pub fn to_bytes(&self) -> (r: Vec<u8>)
        ensures
            r@ == function_type_bytes(self@.0, self@.1),
    {
        let mut bytes: Vec<u8> = Vec::new();
        bytes.push(0x60);
        let p = self.params_to_bytes();
        append_bytes(&mut bytes, p.as_slice());
        let q = self.results_to_bytes();
        append_bytes(&mut bytes, q.as_slice());
        assert(bytes@ =~= function_type_bytes(self@.0, self@.1));
        bytes
    }
}

/// An entry of the type section.
#[derive(Debug, Clone, PartialEq)]
pub enum Kind {
    Function(FunctionType),
}

impl Kind {
    /// The bytes that encode this entry.
    pub open spec fn spec_bytes(&self) -> Seq<u8> {
        match self {
            Kind::Function(f) => function_type_bytes(f@.0, f@.1),
        }
    }

    /// Encodes this entry.
    pub fn to_bytes(&self) -> (r: Vec<u8>)
        ensures
            r@ == self.spec_bytes(),
    {
        match self {
            Kind::Function(function) => function.to_bytes(),
        }
    }
}

impl From<FunctionType> for Kind {
    fn from(function: FunctionType) -> (r: Self) {
        Kind::Function(function)
    }
}

impl vstd::std_specs::convert::FromSpecImpl<FunctionType> for Kind {
    open spec fn obeys_from_spec() -> bool {
        true
    }

    open spec fn from_spec(v: FunctionType) -> Self {
        Kind::Function(v)
    }
}

/// The encodings of some entries, one after the other.
pub open spec fn kinds_bytes(s: Seq<Kind>) -> Seq<u8>
    decreases s.len(),
{
    if s.len() == 0 {
        Seq::empty()
    } else {
        kinds_bytes(s.drop_last()) + s.last().spec_bytes()
    }
}

/// The encoding of a type section holding `types`.
pub open spec fn type_bytes(types: Seq<Kind>) -> Seq<u8> {
    seq![0x01u8] + leb((kinds_bytes(types).len() + 1) as u64) + leb(types.len() as u64)
        + kinds_bytes(types)
}

/// The type section of a module.
#[derive(Debug, Clone, PartialEq)]
pub struct Type {
    length: usize,
    types: Vec<Kind>,
}

impl View for Type {
    type V = Seq<Kind>;

    closed spec fn view(&self) -> Seq<Kind> {
        self.types@
    }
}

impl Default for Type {
    fn default() -> (r: Self)
        ensures
            r.wf(),
            r@ == Seq::<Kind>::empty(),
    {
        Type { length: 0, types: Vec::new() }
    }
}

impl Type {
    /// The recorded size is that of the entries held.
    pub closed spec fn wf(&self) -> bool {
        self.length == kinds_bytes(self.types@).len()
    }

    /// Appends an entry.
    pub fn push(&mut self, kind: Kind)
        requires
            old(self).wf(),
            kinds_bytes(old(self)@).len() + kind.spec_bytes().len() <= usize::MAX,
        ensures
            final(self).wf(),
            final(self)@ == old(self)@.push(kind),
    {
        let n = kind.to_bytes().len();
        self.length = self.length + n;
        self.types.push(kind);
        assert(self.types@.drop_last() =~= old(self).types@);
    }

    /// This section with an entry appended.
    pub fn with(self, kind: Kind) -> (r: Self)
        requires
            self.wf(),
            kinds_bytes(self@).len() + kind.spec_bytes().len() <= usize::MAX,
        ensures
            r.wf(),
            r@ == self@.push(kind),
    {
        let mut s = self;
        s.push(kind);
        s
    }

    /// Encodes this section: its id, its size, the number of entries, then the
    /// entries.
    pub fn to_bytes(&self) -> (r: Vec<u8>)
        requires
            self.wf(),
            kinds_bytes(self@).len() + 1 <= usize::MAX,
        ensures
            r@ == type_bytes(self@),
    {
        let mut bytes: Vec<u8> = Vec::new();
        bytes.push(0x01);
        // one more byte for the count
        let length = self.length + 1;
        write_unsigned(&mut bytes, length as u64);
        write_unsigned(&mut bytes, self.types.len() as u64);
        let ghost head = bytes@;
        let mut i: usize = 0;
        while i < self.types.len()
            invariant
                i <= self@.len(),
                bytes@ == head + kinds_bytes(self@.subrange(0, i as int)),
            decreases self@.len() - i,
        {
            let b = self.types[i].to_bytes();
            append_bytes(&mut bytes, b.as_slice());
            assert(self@.subrange(0, i + 1).drop_last() =~= self@.subrange(0, i as int));
            i = i + 1;
        }
        assert(self@.subrange(0, i as int) =~= self@);
        assert(bytes@ =~= type_bytes(self@));
        bytes
    }
}

} // verus!
