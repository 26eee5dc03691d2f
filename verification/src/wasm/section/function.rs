//! The function section: the module's functions, by name and index.
use vstd::prelude::*;
use crate::wasm::leb::{leb, write_unsigned};

verus! {

/// The index of the first string in `s` equal to `name`, if any.
pub open spec fn first_index(s: Seq<Seq<char>>, name: Seq<char>) -> Option<int>
    decreases s.len(),
{
    if s.len() == 0 {
        None
    } else {
        match first_index(s.drop_last(), name) {
            Some(i) => Some(i),
            None => if s.last() == name {
                Some(s.len() - 1)
            } else {
                None
            },
        }
    }
}

/// The index that a module gives the function `name`: imported functions come
/// first, then the module's own.
pub open spec fn function_id(imported: Seq<Seq<char>>, functions: Seq<Seq<char>>, name: Seq<char>) -> Option<u32> {
    match first_index(imported, name) {
        Some(i) => Some(i as u32),
        None => match first_index(functions, name) {
            Some(i) => Some((i + imported.len()) as u32),
            None => None,
        },
    }
}

/// The LEB128 encodings of the `n` indices `start`, `start + 1`, ...
pub open spec fn ids_bytes(start: u64, n: nat) -> Seq<u8>
    decreases n,
{
    if n == 0 {
        Seq::empty()
    } else {
        ids_bytes(start, (n - 1) as nat) + leb((start + n - 1) as u64)
    }
}

/// The encoding of a function section with `imports` imported functions and
/// `count` functions of its own: the indices of its own functions.
pub open spec fn function_section_bytes(imports: nat, count: nat) -> Seq<u8> {
    seq![0x03u8] + leb((count + 1) as u64) + leb(count as u64) + ids_bytes(imports as u64, count)
}

/// The names of some functions.
pub open spec fn names(s: Seq<String>) -> Seq<Seq<char>> {
    s.map_values(|f: String| f@)
}

/// The function section of a module.
#[derive(Debug, Clone, PartialEq)]
pub struct Function {
    imported_functions: Vec<String>,
    functions: Vec<String>,
}

impl View for Function {
    /// The names of the imported functions, then those of the module's own.
    type V = (Seq<Seq<char>>, Seq<Seq<char>>);

    closed spec fn view(&self) -> (Seq<Seq<char>>, Seq<Seq<char>>) {
        (names(self.imported_functions@), names(self.functions@))
    }
}

impl Default for Function {
    fn default() -> (r: Self)
        ensures
            r@ == (Seq::<Seq<char>>::empty(), Seq::<Seq<char>>::empty()),
    {
        let r = Function { imported_functions: Vec::new(), functions: Vec::new() };
        assert(r@.0 =~= Seq::<Seq<char>>::empty());
        assert(r@.1 =~= Seq::<Seq<char>>::empty());
        r
    }
}

impl Function {
    /// Records an imported function.
    pub fn add_imported_function(&mut self, name: String)
        ensures
            final(self)@ == (old(self)@.0.push(name@), old(self)@.1),
    {
        self.imported_functions.push(name);
        assert(names(self.imported_functions@) =~= names(old(self).imported_functions@).push(name@));
    }

    /// This section with one more function of the module's own.
    pub fn with_function(self, name: String) -> (r: Self)
        ensures
            r@ == (self@.0, self@.1.push(name@)),
    {
        let mut s = self;
        s.add_function(name);
        s
    }

    /// Records a function of the module's own.
    pub fn add_function(&mut self, name: String)
        ensures
            final(self)@ == (old(self)@.0, old(self)@.1.push(name@)),
    {
        self.functions.push(name);
        assert(names(self.functions@) =~= names(old(self).functions@).push(name@));
    }

    /// The index of the function `name`, imported functions first.
    pub fn get_id(&self, name: &str) -> (r: Option<u32>)
        ensures
            r == function_id(self@.0, self@.1, name@),
    {
        let name_string: String = name.to_owned();
        assert(name_string@ == name@);
        let import_id = position(&self.imported_functions, &name_string);
        match import_id {
            Some(id) => {
                assert(first_index(self@.0, name@) == Some(id as int));
                Some(id as u32)
            },
            None => {
                let imports = self.imported_functions.len();
                match position(&self.functions, &name_string) {
                    Some(id) => {
                        let sum = id as u128 + imports as u128;
                        Some(sum as u32)
                    },
                    None => None,
                }
            },
        }
    }

    /// Encodes this section: its id, its size (one byte per function plus one
    /// for the count), the count, then the index of each of the module's own
    /// functions.
    pub fn to_bytes(&self) -> (r: Vec<u8>)
        requires
            self@.0.len() + self@.1.len() + 1 <= u64::MAX,
        ensures
            r@ == function_section_bytes(self@.0.len(), self@.1.len()),
    {
        let mut bytes: Vec<u8> = Vec::new();
        bytes.push(0x03);
        // one more byte for the count
        let length = self.functions.len() as u64 + 1;
        write_unsigned(&mut bytes, length);
        write_unsigned(&mut bytes, self.functions.len() as u64);
        let ghost head = bytes@;
        let start = self.imported_functions.len() as u64;
        let end = self.functions.len() as u64 + start;
        let mut function_id = start;
        while function_id < end
            invariant
                start <= function_id <= end,
                start == self@.0.len(),
                end == self@.0.len() + self@.1.len(),
                bytes@ == head + ids_bytes(start, (function_id - start) as nat),
            decreases end - function_id,
        {
            write_unsigned(&mut bytes, function_id);
            function_id = function_id + 1;
        }
        assert(bytes@ =~= function_section_bytes(self@.0.len(), self@.1.len()));
        bytes
    }
}

/// The index of the first string in `s` equal to `name`.
fn position(s: &Vec<String>, name: &String) -> (r: Option<usize>)
    ensures
        match r {
            Some(k) => first_index(names(s@), name@) == Some(k as int),
            None => first_index(names(s@), name@) is None,
        },
{
    let ghost all = names(s@);
    let mut i: usize = 0;
    while i < s.len()
        invariant
            i <= s@.len(),
            all == names(s@),
            first_index(all.subrange(0, i as int), name@) is None,
        decreases s@.len() - i,
    {
        proof {
            lemma_first_index_push(all.subrange(0, i as int), all[i as int], name@);
            assert(all.subrange(0, i as int).push(all[i as int]) =~= all.subrange(0, i + 1));
        }
        if s[i] == *name {
            proof {
                lemma_first_index_prefix(all, i + 1, name@);
            }
            return Some(i);
        }
        i = i + 1;
    }
    assert(all.subrange(0, i as int) =~= all);
    None
}

/// Appending an element keeps an earlier match, and otherwise matches the new
/// element if it equals `name`.
pub proof fn lemma_first_index_push(s: Seq<Seq<char>>, x: Seq<char>, name: Seq<char>)
    ensures
        first_index(s.push(x), name) == match first_index(s, name) {
            Some(i) => Some(i),
            None => if x == name {
                Some(s.len() as int)
            } else {
                None
            },
        },
{
    assert(s.push(x).drop_last() =~= s);
}

/// A match in a prefix is the first match of the whole sequence.
pub proof fn lemma_first_index_prefix(s: Seq<Seq<char>>, k: int, name: Seq<char>)
    requires
        0 <= k <= s.len(),
        first_index(s.subrange(0, k), name) is Some,
    ensures
        first_index(s, name) == first_index(s.subrange(0, k), name),
    decreases s.len() - k,
{
    if k < s.len() {
        lemma_first_index_push(s.subrange(0, k), s[k], name);
        assert(s.subrange(0, k).push(s[k]) =~= s.subrange(0, k + 1));
        lemma_first_index_prefix(s, k + 1, name);
    } else {
        assert(s.subrange(0, k) =~= s);
    }
}

/// Nothing is found in an empty sequence.
pub proof fn lemma_first_index_empty(name: Seq<char>)
    ensures
        first_index(Seq::<Seq<char>>::empty(), name) is None,
        function_id(Seq::<Seq<char>>::empty(), Seq::<Seq<char>>::empty(), name) is None,
{
}

} // verus!
