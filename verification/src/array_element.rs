//! Elements of tensors that are read into memory, and the bytes they are made of.

use vstd::prelude::*;

verus! {

/// How many bytes a 32-bit element takes.
pub const WORD_SIZE: usize = 4;

/// The number that bytes stand for, the lowest first.
pub open spec fn little_endian(bytes: Seq<u8>) -> int
    decreases bytes.len(),
{
    if bytes.len() == 0 {
        0
    } else {
        bytes.first() + 0x100 * little_endian(bytes.drop_first())
    }
}

/// The number that bytes stand for, the highest first.
pub open spec fn big_endian(bytes: Seq<u8>) -> int
    decreases bytes.len(),
{
    if bytes.len() == 0 {
        0
    } else {
        bytes.last() + 0x100 * big_endian(bytes.drop_last())
    }
}

/// The bytes of the element with a number, where each element takes `size` of them.
pub open spec fn bytes_of(bytes: Seq<u8>, size: int, number: int) -> Seq<u8> {
    bytes.subrange(number * size, (number + 1) * size)
}

/// Whether numbers are the given bytes taken `size` by `size`, all of them in the one
/// byte order or all in the other.
pub open spec fn are_numbers_of(numbers: Seq<int>, size: int, bytes: Seq<u8>) -> bool {
    &&& bytes.len() == numbers.len() * size
    &&& {
        ||| forall|i: int|
            0 <= i < numbers.len() ==> #[trigger] numbers[i] == little_endian(bytes_of(bytes, size, i))
        ||| forall|i: int|
            0 <= i < numbers.len() ==> #[trigger] numbers[i] == big_endian(bytes_of(bytes, size, i))
    }
}

/// An element as it lies in memory. Elements of any type are held as their bits: a
/// single-precision number, say, as an unsigned one of the same size.
pub trait ArrayElement: Copy {
    /// How many bytes an element takes.
    spec fn spec_size() -> int;

    /// The bits, as a number.
    spec fn spec_bits(self) -> int;

    /// How many bytes an element takes.
    fn size() -> (res: usize)
        ensures
            res == Self::spec_size(),
            res > 0,
    ;

    /// The element without a bit set.
    fn zeroed() -> (res: Self)
        ensures
            res.spec_bits() == 0,
    ;

    /// Overwrites the memory of `elements` with `bytes`.
    fn overwrite(elements: &mut Vec<Self>, bytes: &[u8])
        requires
            bytes@.len() == old(elements)@.len() * Self::spec_size(),
        ensures
            final(elements)@.len() == old(elements)@.len(),
            are_numbers_of(
                final(elements)@.map_values(|element: Self| element.spec_bits()),
                Self::spec_size(),
                bytes@,
            ),
    ;
}

/// Overwrites the memory of 16-bit elements with `bytes`.
///
/// The memory is reached through `bytemuck::cast_slice_mut`. Trusted: that it shows the
/// elements as their bytes in memory, so that each of them is afterwards made of its
/// own two bytes, in the byte order of the machine.
#[verifier::external_body]
fn overwrite_halves(elements: &mut Vec<u16>, bytes: &[u8])
    requires
        bytes@.len() == old(elements)@.len() * u16::spec_size(),
    ensures
        final(elements)@.len() == old(elements)@.len(),
        are_numbers_of(
            final(elements)@.map_values(|element: u16| element.spec_bits()),
            u16::spec_size(),
            bytes@,
        ),
{
    bytemuck::cast_slice_mut::<u16, u8>(elements.as_mut_slice()).copy_from_slice(bytes)
}

/// Overwrites the memory of 32-bit elements with `bytes`.
///
/// The memory is reached through `bytemuck::cast_slice_mut`. Trusted: that it shows the
/// elements as their bytes in memory, so that each of them is afterwards made of its
/// own four bytes, in the byte order of the machine.
#[verifier::external_body]
fn overwrite_words(elements: &mut Vec<u32>, bytes: &[u8])
    requires
        bytes@.len() == old(elements)@.len() * u32::spec_size(),
    ensures
        final(elements)@.len() == old(elements)@.len(),
        are_numbers_of(
            final(elements)@.map_values(|element: u32| element.spec_bits()),
            u32::spec_size(),
            bytes@,
        ),
{
    bytemuck::cast_slice_mut::<u32, u8>(elements.as_mut_slice()).copy_from_slice(bytes)
}

/// Overwrites the memory of 64-bit elements with `bytes`.
///
/// The memory is reached through `bytemuck::cast_slice_mut`. Trusted: that it shows the
/// elements as their bytes in memory, so that each of them is afterwards made of its
/// own eight bytes, in the byte order of the machine.
#[verifier::external_body]
fn overwrite_doubles(elements: &mut Vec<u64>, bytes: &[u8])
    requires
        bytes@.len() == old(elements)@.len() * u64::spec_size(),
    ensures
        final(elements)@.len() == old(elements)@.len(),
        are_numbers_of(
            final(elements)@.map_values(|element: u64| element.spec_bits()),
            u64::spec_size(),
            bytes@,
        ),
{
    bytemuck::cast_slice_mut::<u64, u8>(elements.as_mut_slice()).copy_from_slice(bytes)
}

impl ArrayElement for u8 {
    open spec fn spec_size() -> int {
        1
    }

    open spec fn spec_bits(self) -> int {
        self as int
    }

    fn size() -> usize {
        1
    }

    fn zeroed() -> u8 {
        0
    }

    fn overwrite(elements: &mut Vec<u8>, bytes: &[u8]) {
        let ghost count = elements@.len();
        let mut i: usize = 0;
        while i < bytes.len()
            invariant
                i <= bytes@.len(),
                bytes@.len() == count,
                elements@.len() == count,
                forall|j: int| 0 <= j < i ==> #[trigger] elements@[j] == bytes@[j],
            decreases bytes@.len() - i,
        {
            elements.set(i, bytes[i]);
            i += 1;
        }
        let ghost numbers = elements@.map_values(|element: u8| element.spec_bits());
        assert forall|j: int| 0 <= j < numbers.len() implies #[trigger] numbers[j] == little_endian(
            bytes_of(bytes@, 1, j),
        ) by {
            reveal_with_fuel(little_endian, 2);
            assert(numbers[j] == elements@[j]);
        }
    }
}

impl ArrayElement for u16 {
    open spec fn spec_size() -> int {
        2
    }

    open spec fn spec_bits(self) -> int {
        self as int
    }

    fn size() -> usize {
        2
    }

    fn zeroed() -> u16 {
        0
    }

    fn overwrite(elements: &mut Vec<u16>, bytes: &[u8]) {
        overwrite_halves(elements, bytes)
    }
}

impl ArrayElement for u32 {
    open spec fn spec_size() -> int {
        WORD_SIZE as int
    }

    open spec fn spec_bits(self) -> int {
        self as int
    }

    fn size() -> usize {
        WORD_SIZE
    }

    fn zeroed() -> u32 {
        0
    }

    fn overwrite(elements: &mut Vec<u32>, bytes: &[u8]) {
        overwrite_words(elements, bytes)
    }
}

impl ArrayElement for u64 {
    open spec fn spec_size() -> int {
        8
    }

    open spec fn spec_bits(self) -> int {
        self as int
    }

    fn size() -> usize {
        8
    }

    fn zeroed() -> u64 {
        0
    }

    fn overwrite(elements: &mut Vec<u64>, bytes: &[u8]) {
        overwrite_doubles(elements, bytes)
    }
}

/// Whether `elements` are the given bytes, as many for each as it takes in memory, all of
/// them in the one byte order or all in the other.
pub open spec fn are_elements_of<T: ArrayElement>(elements: Seq<T>, bytes: Seq<u8>) -> bool {
    are_numbers_of(elements.map_values(|element: T| element.spec_bits()), T::spec_size(), bytes)
}

} // verus!
