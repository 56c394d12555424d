//! The types that expressions have.

use vstd::prelude::*;

use crate::errors::{failure, CheckError, CheckErrors};

verus! {

/// The largest size, in bytes, that a value may have.
pub const MAX_VALUE_SIZE: u32 = 1024 * 1024;

/// The number of bytes that one character of a Unicode string may take.
pub const MAX_UTF8_CHAR_SIZE: u32 = 4;

/// The greatest length of a buffer or of an ASCII string: at most `MAX_VALUE_SIZE`.
#[derive(Debug, PartialEq, Eq, Clone, Copy)]
pub struct BufferLength(u32);

impl BufferLength {
    /// The number itself.
    pub closed spec fn value(self) -> u32 {
        self.0
    }

    /// The length that is `n`.
    pub closed spec fn of(n: u32) -> BufferLength {
        BufferLength(n)
    }

    /// Whether a length may be `n`.
    pub open spec fn fits(n: u32) -> bool {
        n <= MAX_VALUE_SIZE
    }

    #[verifier::type_invariant]
    spec fn within_limit(self) -> bool {
        Self::fits(self.0)
    }

    /// The length that is `n`, if a length may be `n`.
    pub fn new(n: u32) -> (r: Result<BufferLength, CheckErrors>)
        ensures
            r == (if BufferLength::fits(n) {
                Ok(BufferLength::of(n))
            } else {
                Err(CheckErrors::ValueTooLarge)
            }),
    {
        if n > MAX_VALUE_SIZE {
            Err(CheckErrors::ValueTooLarge)
        } else {
            Ok(BufferLength(n))
        }
    }

    /// The number itself.
    pub fn get(&self) -> (r: u32)
        ensures
            r == self.value(),
            BufferLength::fits(r),
    {
        proof {
            use_type_invariant(self);
        }
        self.0
    }
}

/// The length that is `n` has the number `n`.
pub broadcast proof fn lemma_buffer_length(n: u32)
    ensures
        (#[trigger] BufferLength::of(n)).value() == n,
{
}

/// A length is known by its number.
pub broadcast proof fn lemma_buffer_length_by_value(len: BufferLength)
    ensures
        BufferLength::of(#[trigger] len.value()) == len,
{
}

/// The greatest length, in characters, of a Unicode string: at most `MAX_VALUE_SIZE` bytes.
#[derive(Debug, PartialEq, Eq, Clone, Copy)]
pub struct StringUTF8Length(u32);

impl StringUTF8Length {
    /// The number itself.
    pub closed spec fn value(self) -> u32 {
        self.0
    }

    /// The length that is `n`.
    pub closed spec fn of(n: u32) -> StringUTF8Length {
        StringUTF8Length(n)
    }

    /// Whether a length may be `n`.
    pub open spec fn fits(n: u32) -> bool {
        n * MAX_UTF8_CHAR_SIZE <= MAX_VALUE_SIZE
    }

    #[verifier::type_invariant]
    spec fn within_limit(self) -> bool {
        Self::fits(self.0)
    }

    /// The length that is `n`, if a length may be `n`.
    pub fn new(n: u32) -> (r: Result<StringUTF8Length, CheckErrors>)
        ensures
            r == (if StringUTF8Length::fits(n) {
                Ok(StringUTF8Length::of(n))
            } else {
                Err(CheckErrors::ValueTooLarge)
            }),
    {
        match n.checked_mul(MAX_UTF8_CHAR_SIZE) {
            Some(bytes) => if bytes > MAX_VALUE_SIZE {
                Err(CheckErrors::ValueTooLarge)
            } else {
                Ok(StringUTF8Length(n))
            },
            None => Err(CheckErrors::ValueTooLarge),
        }
    }

    /// The number itself.
    pub fn get(&self) -> (r: u32)
        ensures
            r == self.value(),
            StringUTF8Length::fits(r),
    {
        proof {
            use_type_invariant(self);
        }
        self.0
    }
}

/// The length that is `n` has the number `n`.
pub broadcast proof fn lemma_utf8_length(n: u32)
    ensures
        (#[trigger] StringUTF8Length::of(n)).value() == n,
{
}

/// A length is known by its number.
pub broadcast proof fn lemma_utf8_length_by_value(len: StringUTF8Length)
    ensures
        StringUTF8Length::of(#[trigger] len.value()) == len,
{
}

/// The type of a list: what its items are, and how many there may be.
#[derive(Debug, PartialEq, Eq)]
pub struct ListTypeData {
    pub entry_type: Box<TypeSignature>,
    pub max_len: u32,
}

/// The character sets of strings.
#[derive(Debug, PartialEq, Eq)]
pub enum StringSubtype {
    ASCII(BufferLength),
    UTF8(StringUTF8Length),
}

/// The kinds of sequences.
#[derive(Debug, PartialEq, Eq)]
pub enum SequenceSubtype {
    BufferType(BufferLength),
    ListType(ListTypeData),
    StringType(StringSubtype),
}

/// The type of an expression.
///
/// The types whose parts no rule here looks into are known by the number under which the
/// surrounding analysis keeps them.
#[derive(Debug, PartialEq, Eq)]
pub enum TypeSignature {
    NoType,
    IntType,
    UIntType,
    BoolType,
    PrincipalType,
    SequenceType(SequenceSubtype),
    OptionalType(Box<TypeSignature>),
    ResponseType(Box<(TypeSignature, TypeSignature)>),
    TupleType(u64),
    CallableType(u64),
    ListUnionType(u64),
    TraitReferenceType(u64),
}

impl Clone for SequenceSubtype {
    fn clone(&self) -> (r: Self)
        ensures
            r == *self,
        decreases self,
    {
        match self {
            SequenceSubtype::BufferType(len) => SequenceSubtype::BufferType(*len),
            SequenceSubtype::ListType(list) => SequenceSubtype::ListType(
                ListTypeData {
                    entry_type: Box::new((*list.entry_type).clone()),
                    max_len: list.max_len,
                },
            ),
            SequenceSubtype::StringType(StringSubtype::ASCII(len)) => SequenceSubtype::StringType(
                StringSubtype::ASCII(*len),
            ),
            SequenceSubtype::StringType(StringSubtype::UTF8(len)) => SequenceSubtype::StringType(
                StringSubtype::UTF8(*len),
            ),
        }
    }
}

impl Clone for TypeSignature {
    fn clone(&self) -> (r: Self)
        ensures
            r == *self,
        decreases self,
    {
        match self {
            TypeSignature::NoType => TypeSignature::NoType,
            TypeSignature::IntType => TypeSignature::IntType,
            TypeSignature::UIntType => TypeSignature::UIntType,
            TypeSignature::BoolType => TypeSignature::BoolType,
            TypeSignature::PrincipalType => TypeSignature::PrincipalType,
            TypeSignature::SequenceType(sequence) => TypeSignature::SequenceType(sequence.clone()),
            TypeSignature::OptionalType(inner) => TypeSignature::OptionalType(
                Box::new((**inner).clone()),
            ),
            TypeSignature::ResponseType(both) => {
                let ok = both.0.clone();
                let err = both.1.clone();
                TypeSignature::ResponseType(Box::new((ok, err)))
            },
            TypeSignature::TupleType(number) => TypeSignature::TupleType(*number),
            TypeSignature::CallableType(number) => TypeSignature::CallableType(*number),
            TypeSignature::ListUnionType(number) => TypeSignature::ListUnionType(*number),
            TypeSignature::TraitReferenceType(number) => TypeSignature::TraitReferenceType(
                *number,
            ),
        }
    }
}

/// The type of buffers of up to `n` bytes.
pub open spec fn buffer_type(n: u32) -> TypeSignature {
    TypeSignature::SequenceType(SequenceSubtype::BufferType(BufferLength::of(n)))
}

/// The type of ASCII strings of up to `n` characters.
pub open spec fn ascii_type(n: u32) -> TypeSignature {
    TypeSignature::SequenceType(
        SequenceSubtype::StringType(StringSubtype::ASCII(BufferLength::of(n))),
    )
}

/// The type of Unicode strings of up to `n` characters.
pub open spec fn utf8_type(n: u32) -> TypeSignature {
    TypeSignature::SequenceType(
        SequenceSubtype::StringType(StringSubtype::UTF8(StringUTF8Length::of(n))),
    )
}

/// The type of lists of up to `n` items of type `entry`.
pub open spec fn list_type(entry: TypeSignature, n: u32) -> TypeSignature {
    TypeSignature::SequenceType(
        SequenceSubtype::ListType(ListTypeData { entry_type: Box::new(entry), max_len: n }),
    )
}

/// The type of values that are absent or of type `inner`.
pub open spec fn optional_type(inner: TypeSignature) -> TypeSignature {
    TypeSignature::OptionalType(Box::new(inner))
}

/// The type of one item of a sequence, itself a sequence where the items are bytes or characters.
pub open spec fn unit_of(sequence: SequenceSubtype) -> TypeSignature {
    match sequence {
        SequenceSubtype::ListType(list) => *list.entry_type,
        SequenceSubtype::BufferType(_) => buffer_type(1),
        SequenceSubtype::StringType(StringSubtype::ASCII(_)) => ascii_type(1),
        SequenceSubtype::StringType(StringSubtype::UTF8(_)) => utf8_type(1),
    }
}

/// The greatest number of items of a sequence.
pub open spec fn length_of(sequence: SequenceSubtype) -> u32 {
    match sequence {
        SequenceSubtype::ListType(list) => list.max_len,
        SequenceSubtype::BufferType(len) => len.value(),
        SequenceSubtype::StringType(StringSubtype::ASCII(len)) => len.value(),
        SequenceSubtype::StringType(StringSubtype::UTF8(len)) => len.value(),
    }
}

impl TypeSignature {
    /// The type of single bytes.
    pub fn min_buffer() -> (r: TypeSignature)
        ensures
            r == buffer_type(1),
    {
        TypeSignature::SequenceType(SequenceSubtype::BufferType(BufferLength(1)))
    }

    /// The type of buffers of any length.
    pub fn max_buffer() -> (r: TypeSignature)
        ensures
            r == buffer_type(MAX_VALUE_SIZE),
    {
        TypeSignature::SequenceType(SequenceSubtype::BufferType(BufferLength(MAX_VALUE_SIZE)))
    }

    /// The type of buffers of up to `n` bytes, if there may be that many.
    pub fn buffer_of(n: u32) -> (r: Result<TypeSignature, CheckError>)
        ensures
            r == (if BufferLength::fits(n) {
                Ok(buffer_type(n))
            } else {
                Err(failure(CheckErrors::ValueTooLarge))
            }),
    {
        match BufferLength::new(n) {
            Ok(len) => Ok(TypeSignature::SequenceType(SequenceSubtype::BufferType(len))),
            Err(reason) => Err(CheckError::from(reason)),
        }
    }

    /// The type of ASCII strings of up to `n` characters, if there may be that many.
    pub fn ascii_of(n: u32) -> (r: Result<TypeSignature, CheckError>)
        ensures
            r == (if BufferLength::fits(n) {
                Ok(ascii_type(n))
            } else {
                Err(failure(CheckErrors::ValueTooLarge))
            }),
    {
        match BufferLength::new(n) {
            Ok(len) => Ok(
                TypeSignature::SequenceType(
                    SequenceSubtype::StringType(StringSubtype::ASCII(len)),
                ),
            ),
            Err(reason) => Err(CheckError::from(reason)),
        }
    }

    /// The type of Unicode strings of up to `n` characters, if there may be that many.
    pub fn utf8_of(n: u32) -> (r: Result<TypeSignature, CheckError>)
        ensures
            r == (if StringUTF8Length::fits(n) {
                Ok(utf8_type(n))
            } else {
                Err(failure(CheckErrors::ValueTooLarge))
            }),
    {
        match StringUTF8Length::new(n) {
            Ok(len) => Ok(
                TypeSignature::SequenceType(
                    SequenceSubtype::StringType(StringSubtype::UTF8(len)),
                ),
            ),
            Err(reason) => Err(CheckError::from(reason)),
        }
    }

    /// The type of single ASCII characters.
    pub fn min_string_ascii() -> (r: TypeSignature)
        ensures
            r == ascii_type(1),
    {
        TypeSignature::SequenceType(
            SequenceSubtype::StringType(StringSubtype::ASCII(BufferLength(1))),
        )
    }

    /// The type of single Unicode characters.
    pub fn min_string_utf8() -> (r: TypeSignature)
        ensures
            r == utf8_type(1),
    {
        TypeSignature::SequenceType(
            SequenceSubtype::StringType(StringSubtype::UTF8(StringUTF8Length(1))),
        )
    }
}

impl SequenceSubtype {
    /// The type of one item.
    pub fn unit_type(&self) -> (r: TypeSignature)
        ensures
            r == unit_of(*self),
    {
        match self {
            SequenceSubtype::ListType(list) => (*list.entry_type).clone(),
            SequenceSubtype::BufferType(_) => TypeSignature::min_buffer(),
            SequenceSubtype::StringType(StringSubtype::ASCII(_)) => {
                TypeSignature::min_string_ascii()
            },
            SequenceSubtype::StringType(StringSubtype::UTF8(_)) => {
                TypeSignature::min_string_utf8()
            },
        }
    }
}

impl ListTypeData {
    /// The type of the items, and how many there may be.
    pub fn destruct(self) -> (r: (TypeSignature, u32))
        ensures
            r == (*self.entry_type, self.max_len),
    {
        (*self.entry_type, self.max_len)
    }

    /// The type of the items.
    pub fn get_list_item_type(&self) -> (r: &TypeSignature)
        ensures
            *r == *self.entry_type,
    {
        &self.entry_type
    }

    /// How many items there may be.
    pub fn get_max_len(&self) -> (r: u32)
        ensures
            r == self.max_len,
    {
        self.max_len
    }
}

} // verus!
