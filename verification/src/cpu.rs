//! A toy controller: digital inputs and outputs, symbolic addresses for
//! their bits, and an evaluation pass that copies inputs to outputs.

use vstd::prelude::*;
use vstd::string::*;

verus! {

/// The level of a digital bit that is off.
pub const DIGITAL_OFF: bool = false;

/// The level of a digital bit that is on.
pub const DIGITAL_ON: bool = true;

/// Whether `c` is one of the letters `A` to `Z` or `a` to `z`.
pub open spec fn is_letter(c: char) -> bool {
    ('a' <= c <= 'z') || ('A' <= c <= 'Z')
}

/// Whether `c` is one of the digits `0` to `9`.
pub open spec fn is_digit(c: char) -> bool {
    '0' <= c <= '9'
}

/// Whether `s` holds letters only.
pub open spec fn all_letters(s: Seq<char>) -> bool {
    forall|i: int| 0 <= i < s.len() ==> is_letter(#[trigger] s[i])
}

/// Whether `s` holds digits only.
pub open spec fn all_digits(s: Seq<char>) -> bool {
    forall|i: int| 0 <= i < s.len() ==> is_digit(#[trigger] s[i])
}

/// Whether `s` is one or more letters up to position `k`, and one or more
/// digits from there to its end.
pub open spec fn splits_at(s: Seq<char>, k: int) -> bool {
    &&& 0 < k < s.len()
    &&& all_letters(s.take(k))
    &&& all_digits(s.skip(k))
}

/// Whether `s` is an address: one or more letters followed by one or more
/// digits, and nothing else.
pub open spec fn is_address(s: Seq<char>) -> bool {
    exists|k: int| splits_at(s, k)
}

/// The number that the decimal digits `s` write.
pub open spec fn digits_value(s: Seq<char>) -> nat
    decreases s.len(),
{
    if s.len() == 0 {
        0
    } else {
        (digits_value(s.drop_last()) * 10 + (s.last() as u32 - '0' as u32)) as nat
    }
}

/// An address splits in one way only.
pub proof fn lemma_split_unique(s: Seq<char>, j: int, k: int)
    requires
        splits_at(s, j),
        splits_at(s, k),
    ensures
        j == k,
{
    if j < k {
        assert(s.take(k)[j] == s[j]);
        assert(s.skip(j)[0] == s[j]);
    } else if k < j {
        assert(s.take(j)[k] == s[k]);
        assert(s.skip(k)[0] == s[k]);
    }
}

/// The digits of a number that fits 64 bits begin with the digits of a
/// number that fits 64 bits.
pub proof fn lemma_digits_value_grows(s: Seq<char>, i: int)
    requires
        0 <= i <= s.len(),
        all_digits(s),
    ensures
        digits_value(s.take(i)) <= digits_value(s),
    decreases s.len() - i,
{
    if i == s.len() {
        assert(s.take(i) =~= s);
    } else {
        let longer = s.take(i + 1);
        assert(longer.drop_last() =~= s.take(i));
        assert(is_digit(s[i]));
        assert(longer.last() == s[i]);
        lemma_digits_value_grows(s, i + 1);
    }
}

/// The address was not made of letters followed by digits.
#[derive(Clone, Copy, Debug, PartialEq, Eq, Structural)]
pub struct AddressError;

impl AddressError {
    /// The error in words.
    pub fn to_string(&self) -> (message: String)
        ensures
            message@ == "invalid address"@,
    {
        "invalid address".to_owned()
    }
}

/// The two parts of an address: the letters that name a group of bits, and
/// the digits that number the bit in its group, both as they were written.
#[derive(Clone, Debug, PartialEq, Eq)]
pub struct BitRef {
    pub(crate) prefix: String,
    pub(crate) digits: String,
}

impl BitRef {
    /// The letters of the address.
    pub open(crate) spec fn spec_prefix(&self) -> Seq<char> {
        self.prefix@
    }

    /// The digits of the address.
    pub open(crate) spec fn spec_digits(&self) -> Seq<char> {
        self.digits@
    }

    /// Both parts are of the right kind and not empty.
    pub open spec fn wf(&self) -> bool {
        &&& self.spec_prefix().len() > 0
        &&& all_letters(self.spec_prefix())
        &&& self.spec_digits().len() > 0
        &&& all_digits(self.spec_digits())
    }

    /// The letters of the address.
    pub fn prefix(&self) -> (prefix: &str)
        ensures
            prefix@ == self.spec_prefix(),
    {
        self.prefix.as_str()
    }

    /// The digits of the address.
    pub fn digits(&self) -> (digits: &str)
        ensures
            digits@ == self.spec_digits(),
    {
        self.digits.as_str()
    }

    /// The number of the bit in its group, if it fits 64 bits.
    pub fn index(&self) -> (index: Option<u64>)
        requires
            self.wf(),
        ensures
            index == (if digits_value(self.spec_digits()) <= u64::MAX {
                Some(digits_value(self.spec_digits()) as u64)
            } else {
                None::<u64>
            }),
    {
        let digits = self.digits.as_str();
        proof {
            assert(is_ascii(digits)) by {
                assert forall|i: int| 0 <= i < digits@.len() implies '\0' <= #[trigger] digits@[i] <= '\u{7f}' by {
                    assert(is_digit(digits@[i]));
                }
            }
        }
        let n = digits.unicode_len();
        let mut value: u64 = 0;
        let mut i: usize = 0;
        while i < n
            invariant
                i <= n,
                n == digits@.len(),
                digits@ == self.spec_digits(),
                is_ascii(digits),
                all_digits(digits@),
                value == digits_value(digits@.take(i as int)),
            decreases n - i,
        {
            let digit: u8 = digits.get_ascii(i);
            proof {
                let longer = digits@.take(i + 1);
                assert(longer.drop_last() =~= digits@.take(i as int));
                assert(longer.last() == digits@[i as int]);
                assert(is_digit(digits@[i as int]));
                assert(digits@[i as int] as u32 - '0' as u32 == digit - 48);
                assert(digits_value(longer) == value * 10 + (digit - 48));
                lemma_digits_value_grows(digits@, i + 1);
            }
            let next = match value.checked_mul(10) {
                Some(shifted) => shifted.checked_add((digit - 48) as u64),
                None => None,
            };
            match next {
                Some(next) => {
                    value = next;
                },
                None => {
                    return None;
                },
            }
            i += 1;
        }
        proof {
            assert(digits@.take(i as int) =~= digits@);
        }
        Some(value)
    }
}

/// Splits an address into its letters and its digits. An address is one or
/// more of the letters `A` to `Z` and `a` to `z` followed by one or more of
/// the digits `0` to `9`; any other string is refused.
pub fn resolve_address(address: &str) -> (bit: Result<BitRef, AddressError>)
    ensures
        bit is Ok <==> is_address(address@),
        bit matches Ok(bit_ref) ==> bit_ref.wf() && bit_ref.spec_prefix() + bit_ref.spec_digits() == address@,
{
    let ghost s = address@;
    if !address.is_ascii() {
        proof {
            let i = choose|i: int| 0 <= i < s.len() && !('\0' <= #[trigger] s[i] <= '\u{7f}');
            assert forall|k: int| !splits_at(s, k) by {
                if splits_at(s, k) {
                    if i < k {
                        assert(s.take(k)[i] == s[i]);
                    } else {
                        assert(s.skip(k)[i - k] == s[i]);
                    }
                }
            }
        }
        return Err(AddressError);
    }
    let n = address.unicode_len();
    let mut k: usize = 0;
    while k < n && is_letter_byte(address.get_ascii(k))
        invariant
            k <= n,
            n == s.len(),
            s == address@,
            is_ascii(address),
            forall|i: int| 0 <= i < k ==> is_letter(#[trigger] s[i]),
        decreases n - k,
    {
        k += 1;
    }
    let mut j: usize = k;
    while j < n && is_digit_byte(address.get_ascii(j))
        invariant
            k <= j <= n,
            n == s.len(),
            s == address@,
            is_ascii(address),
            forall|i: int| k <= i < j ==> is_digit(#[trigger] s[i]),
        decreases n - j,
    {
        j += 1;
    }
    if k == 0 || j == k || j < n {
        proof {
            assert forall|m: int| !splits_at(s, m) by {
                if splits_at(s, m) {
                    if k == 0 {
                        assert(s.take(m)[0] == s[0]);
                    } else if j == k {
                        if k as int == n {
                            assert(s.skip(m)[0] == s[m]);
                            assert(is_letter(s[m]));
                        } else if m <= k {
                            assert(s.skip(m)[k - m] == s[k as int]);
                        } else {
                            assert(s.take(m)[k as int] == s[k as int]);
                        }
                    } else {
                        if m <= j {
                            assert(s.skip(m)[j - m] == s[j as int]);
                        } else {
                            assert(s.take(m)[k as int] == s[k as int]);
                            assert(is_digit(s[k as int]));
                        }
                    }
                }
            }
        }
        return Err(AddressError);
    }
    let prefix = address.substring_ascii(0, k).to_owned();
    let digits = address.substring_ascii(k, n).to_owned();
    proof {
        assert(s.take(k as int) =~= s.subrange(0, k as int));
        assert(s.skip(k as int) =~= s.subrange(k as int, n as int));
        assert(s.subrange(0, k as int) + s.subrange(k as int, n as int) =~= s);
        assert(splits_at(s, k as int));
    }
    Ok(BitRef { prefix, digits })
}

/// Whether the ASCII byte is a letter.
fn is_letter_byte(byte: u8) -> (b: bool)
    ensures
        b == ((97 <= byte <= 122) || (65 <= byte <= 90)),
{
    (97 <= byte && byte <= 122) || (65 <= byte && byte <= 90)
}

/// Whether the ASCII byte is a digit.
fn is_digit_byte(byte: u8) -> (b: bool)
    ensures
        b == (48 <= byte <= 57),
{
    48 <= byte && byte <= 57
}

/// The digital inputs of the controller, in order.
#[derive(Clone, Debug, PartialEq, Eq)]
pub struct InputModule {
    pub digital: Vec<bool>,
}

/// The digital outputs of the controller, in order.
#[derive(Clone, Debug, PartialEq, Eq)]
pub struct OutputModule {
    pub digital: Vec<bool>,
}

/// `count` digital bits, all off.
fn digital_bits(count: usize) -> (bits: Vec<bool>)
    ensures
        bits@ == Seq::new(count as nat, |i: int| DIGITAL_OFF),
{
    let mut bits: Vec<bool> = Vec::new();
    let mut i: usize = 0;
    while i < count
        invariant
            i <= count,
            bits@ == Seq::new(i as nat, |k: int| DIGITAL_OFF),
        decreases count - i,
    {
        bits.push(DIGITAL_OFF);
        assert(bits@ =~= Seq::new((i + 1) as nat, |k: int| DIGITAL_OFF));
        i += 1;
    }
    bits
}

/// The evaluation pass: every output takes the level of the input with the
/// same number. There must be an input for every output; inputs beyond the
/// last output are not read.
pub fn debug_cpu_system(inputs: &InputModule, outputs: &mut OutputModule)
    requires
        old(outputs).digital@.len() <= inputs.digital@.len(),
    ensures
        final(outputs).digital@ == inputs.digital@.take(old(outputs).digital@.len() as int),
{
    let n = outputs.digital.len();
    let mut i: usize = 0;
    while i < n
        invariant
            i <= n,
            n == outputs.digital@.len(),
            n <= inputs.digital@.len(),
            forall|k: int| 0 <= k < i ==> outputs.digital@[k] == inputs.digital@[k],
        decreases n - i,
    {
        outputs.digital[i] = inputs.digital[i];
        i += 1;
    }
    assert(outputs.digital@ =~= inputs.digital@.take(n as int));
}

/// The controller itself: the table that binds addresses to I/O modules.
pub struct DebugCpuModule {
    pub(crate) mappings: Vec<Mapping>,
}

/// One entry of the controller's table.
pub struct Mapping {
    pub(crate) address: String,
    pub(crate) io_module: usize,
}

/// A controller with its inputs and outputs.
pub struct DebugCpuBundle {
    pub debug_cpu: DebugCpuModule,
    pub input_module: InputModule,
    pub output_module: OutputModule,
}

impl Default for DebugCpuModule {
    fn default() -> (debug_cpu: DebugCpuModule)
        ensures
            debug_cpu@ == Map::<Seq<char>, usize>::empty(),
            debug_cpu.wf(),
    {
        let debug_cpu = DebugCpuModule { mappings: Vec::new() };
        assert(debug_cpu@ =~= Map::<Seq<char>, usize>::empty());
        debug_cpu
    }
}

impl DebugCpuModule {
    /// The addresses of the table, in the order of its entries.
    pub open(crate) spec fn addresses(&self) -> Seq<Seq<char>> {
        Seq::new(self.mappings@.len(), |i: int| self.mappings@[i].address@)
    }

    /// The I/O modules of the table, in the order of its entries.
    pub open(crate) spec fn modules(&self) -> Seq<usize> {
        Seq::new(self.mappings@.len(), |i: int| self.mappings@[i].io_module)
    }

    /// No address stands in the table twice.
    pub open(crate) spec fn wf(&self) -> bool {
        forall|i: int, j: int|
            0 <= i < j < self.mappings@.len() ==> self.mappings@[i].address@ != self.mappings@[j].address@
    }

    /// The table as a map from addresses to I/O modules.
    pub open(crate) spec fn view(&self) -> Map<Seq<char>, usize> {
        Map::new(
            |address: Seq<char>| self.addresses().contains(address),
            |address: Seq<char>| self.modules()[self.addresses().index_of(address)],
        )
    }

    /// Where `address` stands in a table without duplicates.
    proof fn lemma_index_of(&self, i: int)
        requires
            self.wf(),
            0 <= i < self.mappings@.len(),
        ensures
            self.addresses().contains(self.mappings@[i].address@),
            self.addresses().index_of(self.mappings@[i].address@) == i,
    {
        let addresses = self.addresses();
        let address = self.mappings@[i].address@;
        assert(addresses[i] == address);
        let found = addresses.index_of(address);
        assert(0 <= found < addresses.len() && addresses[found] == address);
        if found < i {
            assert(self.mappings@[found].address@ != self.mappings@[i].address@);
        } else if i < found {
            assert(self.mappings@[i].address@ != self.mappings@[found].address@);
        }
    }

    /// Binds `address` to the I/O module `io_module`. An address that was
    /// bound before is bound anew.
    pub fn create_mapping(&mut self, address: String, io_module: usize)
        requires
            old(self).wf(),
        ensures
            final(self).wf(),
            final(self)@ == old(self)@.insert(address@, io_module),
    {
        let ghost before = *self;
        let mut i: usize = 0;
        while i < self.mappings.len()
            invariant
                *self == before,
                before == *old(self),
                before.wf(),
                i <= self.mappings@.len(),
                forall|k: int| 0 <= k < i ==> self.mappings@[k].address@ != address@,
            decreases self.mappings@.len() - i,
        {
            if self.mappings[i].address == address {
                self.mappings[i].io_module = io_module;
                proof {
                    assert(self.addresses() =~= before.addresses());
                    assert(self.wf()) by {
                        assert forall|a: int, b: int| 0 <= a < b < self.mappings@.len() implies self.mappings@[a].address@
                            != self.mappings@[b].address@ by {
                            assert(before.mappings@[a].address@ != before.mappings@[b].address@);
                        }
                    }
                    before.lemma_index_of(i as int);
                    assert forall|key: Seq<char>| #[trigger] self@.dom().contains(key) implies self@[key]
                        == before@.insert(address@, io_module)[key] by {
                        let found = self.addresses().index_of(key);
                        assert(0 <= found < self.addresses().len() && self.addresses()[found] == key);
                        if key != address@ {
                            assert(found != i);
                            assert(self.modules()[found] == before.modules()[found]);
                        }
                    }
                    assert(self@ =~= before@.insert(address@, io_module));
                }
                return ;
            }
            i += 1;
        }
        self.mappings.push(Mapping { address, io_module });
        proof {
            let n = before.mappings@.len() as int;
            assert(self.addresses() =~= before.addresses().push(address@));
            assert(self.wf()) by {
                assert forall|a: int, b: int| 0 <= a < b < self.mappings@.len() implies self.mappings@[a].address@
                    != self.mappings@[b].address@ by {
                    if b < n {
                        assert(before.mappings@[a].address@ != before.mappings@[b].address@);
                    }
                }
            }
            assert forall|key: Seq<char>| self@.dom().contains(key) <==> before@.insert(
                address@,
                io_module,
            ).dom().contains(key) by {
                if before.addresses().contains(key) {
                    let at = before.addresses().index_of(key);
                    assert(self.addresses()[at] == key);
                }
                if key == address@ {
                    assert(self.addresses()[n] == key);
                }
            }
            assert forall|key: Seq<char>| #[trigger] self@.dom().contains(key) implies self@[key] == before@.insert(
                address@,
                io_module,
            )[key] by {
                let found = self.addresses().index_of(key);
                assert(0 <= found < self.addresses().len() && self.addresses()[found] == key);
                self.lemma_index_of(found);
                if key != address@ {
                    assert(found < n);
                    before.lemma_index_of(found);
                    assert(self.modules()[found] == before.modules()[found]);
                }
            }
            assert(self@ =~= before@.insert(address@, io_module));
        }
    }

    /// The I/O module that `address` is bound to, if it is bound.
    pub fn mapping(&self, address: &String) -> (io_module: Option<usize>)
        requires
            self.wf(),
        ensures
            io_module == (if self@.dom().contains(address@) {
                Some(self@[address@])
            } else {
                None::<usize>
            }),
    {
        let mut i: usize = 0;
        while i < self.mappings.len()
            invariant
                self.wf(),
                i <= self.mappings@.len(),
                forall|k: int| 0 <= k < i ==> self.mappings@[k].address@ != address@,
            decreases self.mappings@.len() - i,
        {
            if self.mappings[i].address == *address {
                proof {
                    self.lemma_index_of(i as int);
                }
                return Some(self.mappings[i].io_module);
            }
            i += 1;
        }
        proof {
            if self.addresses().contains(address@) {
                let at = self.addresses().index_of(address@);
                assert(self.mappings@[at].address@ == address@);
            }
        }
        None
    }

    /// A controller with the given numbers of digital inputs and outputs, all
    /// off, and an empty table.
    pub fn new(digital_input_num: usize, digital_output_num: usize) -> (bundle: DebugCpuBundle)
        ensures
            bundle.input_module.digital@ == Seq::new(digital_input_num as nat, |i: int| DIGITAL_OFF),
            bundle.output_module.digital@ == Seq::new(digital_output_num as nat, |i: int| DIGITAL_OFF),
            bundle.debug_cpu@ == Map::<Seq<char>, usize>::empty(),
            bundle.debug_cpu.wf(),
    {
        DebugCpuBundle {
            debug_cpu: DebugCpuModule::default(),
            input_module: InputModule { digital: digital_bits(digital_input_num) },
            output_module: OutputModule { digital: digital_bits(digital_output_num) },
        }
    }

    /// Reads the digital bit at `address`. Every bit of a well-formed address
    /// reads as on; any other string is refused.
    pub fn digital(&self, address: String) -> (level: Result<bool, AddressError>)
        ensures
            level == (if is_address(address@) {
                Ok::<bool, AddressError>(DIGITAL_ON)
            } else {
                Err::<bool, AddressError>(AddressError)
            }),
    {
        match resolve_address(address.as_str()) {
            Ok(_) => Ok(DIGITAL_ON),
            Err(error) => Err(error),
        }
    }
}

} // verus!
