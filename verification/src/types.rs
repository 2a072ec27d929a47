//! The static type model: primitive and composite type values, their
//! canonical textual forms, and the coercion engine that decides whether
//! a value of one type may be used where another is expected.
//!
//! The canonical text of a type is not cosmetic: it is embedded verbatim
//! in `TypeError` messages, so each `display` method carries the exact
//! text as its contract.
use vstd::prelude::*;

use crate::error::{Error, ErrorType};
use crate::span::Span;
use crate::text::{dec_rep, dec_rep_signed, push_char, push_dec_i64, push_dec_u64, push_dec_usize};
use vstd::string::StringExecFns;

verus! {

/// Access to a pointer type's layout and base type.
pub trait PointerInfo {
    spec fn spec_align(&self) -> usize;

    spec fn spec_offset(&self) -> usize;

    spec fn spec_references(&self) -> usize;

    spec fn spec_base_type(&self) -> SimpleType;

    fn get_align(&self) -> (r: usize)
        ensures
            r == self.spec_align(),
    ;

    fn get_offset(&self) -> (r: usize)
        ensures
            r == self.spec_offset(),
    ;

    fn get_references(&self) -> (r: usize)
        ensures
            r == self.spec_references(),
    ;

    fn get_base_type(&self) -> (r: &SimpleType)
        ensures
            *r == self.spec_base_type(),
    ;
}

/// Access to an array type's element count and base type.
pub trait ArrayInfo {
    spec fn spec_size(&self) -> usize;

    spec fn spec_base_type(&self) -> SimpleType;

    fn get_size(&self) -> (r: usize)
        ensures
            r == self.spec_size(),
    ;

    fn get_base_type(&self) -> (r: &SimpleType)
        ensures
            *r == self.spec_base_type(),
    ;
}

/// The widths of signed integer types.
#[derive(Debug, Copy, Clone, PartialEq, Eq, Structural)]
pub enum SignedIntegerTypes {
    Int8,
    Int16,
    Int32,
    Int64,
}

impl SignedIntegerTypes {
    /// The width tag rendered in canonical type text.
    pub open spec fn spec_display(self) -> Seq<char> {
        match self {
            SignedIntegerTypes::Int8 => "i8"@,
            SignedIntegerTypes::Int16 => "i16"@,
            SignedIntegerTypes::Int32 => "i32"@,
            SignedIntegerTypes::Int64 => "i64"@,
        }
    }

    /// The width in bits, used for the widening rule of the coercion
    /// engine.
    pub open spec fn spec_width(self) -> int {
        match self {
            SignedIntegerTypes::Int8 => 8,
            SignedIntegerTypes::Int16 => 16,
            SignedIntegerTypes::Int32 => 32,
            SignedIntegerTypes::Int64 => 64,
        }
    }

    pub fn display(&self) -> (r: String)
        ensures
            r@ == self.spec_display(),
    {
        match self {
            SignedIntegerTypes::Int8 => "i8".to_owned(),
            SignedIntegerTypes::Int16 => "i16".to_owned(),
            SignedIntegerTypes::Int32 => "i32".to_owned(),
            SignedIntegerTypes::Int64 => "i64".to_owned(),
        }
    }

    pub fn width(&self) -> (w: u32)
        ensures
            w == self.spec_width(),
    {
        match self {
            SignedIntegerTypes::Int8 => 8,
            SignedIntegerTypes::Int16 => 16,
            SignedIntegerTypes::Int32 => 32,
            SignedIntegerTypes::Int64 => 64,
        }
    }
}

/// The widths of unsigned integer types.
#[derive(Debug, Copy, Clone, PartialEq, Eq, Structural)]
pub enum UnsignedIntegerTypes {
    Uint8,
    Uint16,
    Uint32,
    Uint64,
}

impl UnsignedIntegerTypes {
    /// The width tag rendered in canonical type text.
    pub open spec fn spec_display(self) -> Seq<char> {
        match self {
            UnsignedIntegerTypes::Uint8 => "u8"@,
            UnsignedIntegerTypes::Uint16 => "u16"@,
            UnsignedIntegerTypes::Uint32 => "u32"@,
            UnsignedIntegerTypes::Uint64 => "u64"@,
        }
    }

    /// The width in bits, used for the widening rule of the coercion
    /// engine.
    pub open spec fn spec_width(self) -> int {
        match self {
            UnsignedIntegerTypes::Uint8 => 8,
            UnsignedIntegerTypes::Uint16 => 16,
            UnsignedIntegerTypes::Uint32 => 32,
            UnsignedIntegerTypes::Uint64 => 64,
        }
    }

    pub fn display(&self) -> (r: String)
        ensures
            r@ == self.spec_display(),
    {
        match self {
            UnsignedIntegerTypes::Uint8 => "u8".to_owned(),
            UnsignedIntegerTypes::Uint16 => "u16".to_owned(),
            UnsignedIntegerTypes::Uint32 => "u32".to_owned(),
            UnsignedIntegerTypes::Uint64 => "u64".to_owned(),
        }
    }

    pub fn width(&self) -> (w: u32)
        ensures
            w == self.spec_width(),
    {
        match self {
            UnsignedIntegerTypes::Uint8 => 8,
            UnsignedIntegerTypes::Uint16 => 16,
            UnsignedIntegerTypes::Uint32 => 32,
            UnsignedIntegerTypes::Uint64 => 64,
        }
    }
}

/// The widths of floating-point types. These are bare type tags: the
/// core carries no floating-point values.
#[derive(Debug, Copy, Clone, PartialEq, Eq, Structural)]
pub enum FloatingPointTypes {
    FP16,
    FP32,
    FP64,
}

impl FloatingPointTypes {
    /// The width tag rendered in canonical type text.
    pub open spec fn spec_display(self) -> Seq<char> {
        match self {
            FloatingPointTypes::FP16 => "f16"@,
            FloatingPointTypes::FP32 => "f32"@,
            FloatingPointTypes::FP64 => "f64"@,
        }
    }

    /// The width in bits, used for the widening rule of the coercion
    /// engine.
    pub open spec fn spec_width(self) -> int {
        match self {
            FloatingPointTypes::FP16 => 16,
            FloatingPointTypes::FP32 => 32,
            FloatingPointTypes::FP64 => 64,
        }
    }

    pub fn display(&self) -> (r: String)
        ensures
            r@ == self.spec_display(),
    {
        match self {
            FloatingPointTypes::FP16 => "f16".to_owned(),
            FloatingPointTypes::FP32 => "f32".to_owned(),
            FloatingPointTypes::FP64 => "f64".to_owned(),
        }
    }

    pub fn width(&self) -> (w: u32)
        ensures
            w == self.spec_width(),
    {
        match self {
            FloatingPointTypes::FP16 => 16,
            FloatingPointTypes::FP32 => 32,
            FloatingPointTypes::FP64 => 64,
        }
    }
}

/// A typed signed integer literal: a width tag together with the
/// literal's value.
#[derive(Debug, Copy, Clone, PartialEq, Eq, Structural)]
pub struct SignedInteger {
    pub base_type: SignedIntegerTypes,
    pub value: i64,
}

impl SignedInteger {
    pub fn new(base_type: SignedIntegerTypes, value: i64) -> (r: Self)
        ensures
            r.base_type == base_type,
            r.value == value,
    {
        Self { base_type, value }
    }

    /// Width tag followed by the literal value: `"i8 (5)"`.
    pub open spec fn spec_display(self) -> Seq<char> {
        self.base_type.spec_display() + " ("@ + dec_rep_signed(self.value as int) + ")"@
    }

    pub fn display(&self) -> (r: String)
        ensures
            r@ == self.spec_display(),
    {
        let mut out = self.base_type.display();
        out.append(" (");
        push_dec_i64(&mut out, self.value);
        out.append(")");
        out
    }
}

/// A typed unsigned integer literal: a width tag together with the
/// literal's value.
#[derive(Debug, Copy, Clone, PartialEq, Eq, Structural)]
pub struct UnsignedInteger {
    pub base_type: UnsignedIntegerTypes,
    pub value: u64,
}

impl UnsignedInteger {
    pub fn new(base_type: UnsignedIntegerTypes, value: u64) -> (r: Self)
        ensures
            r.base_type == base_type,
            r.value == value,
    {
        Self { base_type, value }
    }

    /// Width tag followed by the literal value: `"u8 (5)"`.
    pub open spec fn spec_display(self) -> Seq<char> {
        self.base_type.spec_display() + " ("@ + dec_rep(self.value as nat) + ")"@
    }

    pub fn display(&self) -> (r: String)
        ensures
            r@ == self.spec_display(),
    {
        let mut out = self.base_type.display();
        out.append(" (");
        push_dec_u64(&mut out, self.value);
        out.append(")");
        out
    }
}

/// A nominal user-defined type, identified by the file that declares it
/// and its name.
#[derive(Debug, Clone, PartialEq)]
pub struct UserDefinedType {
    pub file: String,
    pub name: String,
}

impl UserDefinedType {
    pub fn new(file: &str, name: &str) -> (r: Self)
        ensures
            r.file@ == file@,
            r.name@ == name@,
    {
        Self { file: file.to_owned(), name: name.to_owned() }
    }

    /// The canonical text `"<file>.<name>"`.
    pub open spec fn spec_display(self) -> Seq<char> {
        self.file@ + "."@ + self.name@
    }

    pub fn display(&self) -> (r: String)
        ensures
            r@ == self.spec_display(),
    {
        let mut out = self.file.clone();
        out.append(".");
        out.append(self.name.as_str());
        out
    }
}

/// A primitive type, or a typed numeric literal, or a nominal user type.
#[derive(Debug, Clone, PartialEq)]
pub enum SimpleType {
    Int(SignedInteger),
    Uint(UnsignedInteger),
    Fp(FloatingPointTypes),
    Char,
    Bool,
    String,
    Void,
    Varargs,
    UserType(UserDefinedType),
}

impl SimpleType {
    /// The canonical text of the type, embedded verbatim in diagnostics.
    pub open spec fn spec_display(self) -> Seq<char> {
        match self {
            SimpleType::Int(v) => v.spec_display(),
            SimpleType::Uint(v) => v.spec_display(),
            SimpleType::Fp(k) => k.spec_display(),
            SimpleType::Char => "char"@,
            SimpleType::Bool => "bool"@,
            SimpleType::String => "string"@,
            SimpleType::Void => "void"@,
            SimpleType::Varargs => "..."@,
            SimpleType::UserType(u) => u.spec_display(),
        }
    }

    pub fn display(&self) -> (r: String)
        ensures
            r@ == self.spec_display(),
    {
        match self {
            SimpleType::Int(v) => v.display(),
            SimpleType::Uint(v) => v.display(),
            SimpleType::Fp(k) => k.display(),
            SimpleType::Char => "char".to_owned(),
            SimpleType::Bool => "bool".to_owned(),
            SimpleType::String => "string".to_owned(),
            SimpleType::Void => "void".to_owned(),
            SimpleType::Varargs => "...".to_owned(),
            SimpleType::UserType(u) => u.display(),
        }
    }
}

/// A pointer type: indirection depth `references >= 1` over a base type.
#[derive(Debug, Clone, PartialEq)]
pub struct Pointer {
    pub alignment: usize,
    pub offset: usize,
    pub references: usize,
    pub base_type: SimpleType,
}

impl Pointer {
    pub fn new(alignment: usize, offset: usize, references: usize, base_type: SimpleType) -> (r:
        Self)
        requires
            references >= 1,
        ensures
            r.alignment == alignment,
            r.offset == offset,
            r.references == references,
            r.base_type == base_type,
    {
        Self { alignment, offset, references, base_type }
    }

    /// Exactly `references` `'*'` characters immediately followed by the
    /// base type's text, with no separator. Alignment and offset do not
    /// appear.
    pub open spec fn spec_display(self) -> Seq<char> {
        Seq::new(self.references as nat, |i: int| '*') + self.base_type.spec_display()
    }

    pub fn display(&self) -> (r: String)
        ensures
            r@ == self.spec_display(),
    {
        let mut out = String::new();
        let mut k: usize = 0;
        while k < self.references
            invariant
                k <= self.references,
                out@ == Seq::new(k as nat, |i: int| '*'),
            decreases self.references - k,
        {
            push_char(&mut out, '*');
            k = k + 1;
            proof {
                assert(out@ =~= Seq::new(k as nat, |i: int| '*'));
            }
        }
        out.append(self.base_type.display().as_str());
        out
    }
}

impl PointerInfo for Pointer {
    open spec fn spec_align(&self) -> usize {
        self.alignment
    }

    open spec fn spec_offset(&self) -> usize {
        self.offset
    }

    open spec fn spec_references(&self) -> usize {
        self.references
    }

    open spec fn spec_base_type(&self) -> SimpleType {
        self.base_type
    }

    fn get_align(&self) -> (r: usize) {
        self.alignment
    }

    fn get_offset(&self) -> (r: usize) {
        self.offset
    }

    fn get_references(&self) -> (r: usize) {
        self.references
    }

    fn get_base_type(&self) -> (r: &SimpleType) {
        &self.base_type
    }
}

/// An array type: a fixed or runtime-determined element count over a
/// base type. Constructed only through [`Array::new`], which enforces
/// that the base type is never `Void` or `Varargs`.
#[derive(Debug, Clone, PartialEq)]
pub struct Array {
    pub size: usize,
    pub is_runtime_sized: bool,
    pub base_type: SimpleType,
}

impl Array {
    /// True of base types an array may range over: everything but `Void`
    /// and `Varargs`.
    pub open spec fn valid_base(base_type: SimpleType) -> bool {
        !(base_type == SimpleType::Void || base_type == SimpleType::Varargs)
    }

    /// Constructs the array type, or returns a structured
    /// `InternalError` when the base type is `Void` or `Varargs`. Never
    /// aborts the process.
    pub fn new(size: usize, is_runtime_sized: bool, base_type: SimpleType) -> (r: Result<
        Self,
        Error,
    >)
        ensures
            r is Ok <==> Self::valid_base(base_type),
            r matches Ok(a) ==> a.size == size && a.is_runtime_sized == is_runtime_sized
                && a.base_type == base_type,
            r matches Err(e) ==> e.error_type == ErrorType::InternalError && e.message@ == (
            if base_type == SimpleType::Varargs {
                "array cannot have type '...'"@
            } else {
                "array cannot have type 'void'"@
            }),
    {
        match base_type {
            SimpleType::Varargs => Err(
                Error::new(
                    0,
                    0,
                    ErrorType::InternalError,
                    "array cannot have type '...'".to_owned(),
                ),
            ),
            SimpleType::Void => Err(
                Error::new(
                    0,
                    0,
                    ErrorType::InternalError,
                    "array cannot have type 'void'".to_owned(),
                ),
            ),
            _ => Ok(Self { size, is_runtime_sized, base_type }),
        }
    }

    /// `"[?]" + base` when runtime-sized, else `"[" + size + "]" + base`.
    pub open spec fn spec_display(self) -> Seq<char> {
        if self.is_runtime_sized {
            "[?]"@ + self.base_type.spec_display()
        } else {
            "["@ + dec_rep(self.size as nat) + "]"@ + self.base_type.spec_display()
        }
    }

    pub fn display(&self) -> (r: String)
        ensures
            r@ == self.spec_display(),
    {
        if self.is_runtime_sized {
            let mut out = "[?]".to_owned();
            out.append(self.base_type.display().as_str());
            out
        } else {
            let mut out = "[".to_owned();
            push_dec_usize(&mut out, self.size);
            out.append("]");
            out.append(self.base_type.display().as_str());
            out
        }
    }
}

impl ArrayInfo for Array {
    open spec fn spec_size(&self) -> usize {
        self.size
    }

    open spec fn spec_base_type(&self) -> SimpleType {
        self.base_type
    }

    fn get_size(&self) -> (r: usize) {
        self.size
    }

    fn get_base_type(&self) -> (r: &SimpleType) {
        &self.base_type
    }
}

/// A composite type.
#[derive(Debug, Clone, PartialEq)]
pub enum ComplexType {
    Pointer(Pointer),
    Array(Array),
}

impl ComplexType {
    pub open spec fn spec_display(self) -> Seq<char> {
        match self {
            ComplexType::Pointer(p) => p.spec_display(),
            ComplexType::Array(a) => a.spec_display(),
        }
    }

    pub fn display(&self) -> (r: String)
        ensures
            r@ == self.spec_display(),
    {
        match self {
            ComplexType::Pointer(p) => p.display(),
            ComplexType::Array(a) => a.display(),
        }
    }
}

/// Any type of the language.
#[derive(Debug, Clone, PartialEq)]
pub enum Type {
    Simple(SimpleType),
    Complex(ComplexType),
}

impl Type {
    pub open spec fn spec_display(self) -> Seq<char> {
        match self {
            Type::Simple(s) => s.spec_display(),
            Type::Complex(c) => c.spec_display(),
        }
    }

    pub fn display(&self) -> (r: String)
        ensures
            r@ == self.spec_display(),
    {
        match self {
            Type::Simple(s) => s.display(),
            Type::Complex(c) => c.display(),
        }
    }
}

/// Whether a value of type `source` may be used where `target` is
/// expected. The rules, in order:
/// 1. Coercion to `Void` or `Varargs` always fails.
/// 2. Coercion of `Void` or `Varargs` as a source always fails.
/// 3. An array of `u8` (any size, fixed or runtime-sized) coerces to
///    `string`.
/// 4. Numeric coercion is same-signedness (and same-kind) widening only:
///    a signed, unsigned, or floating-point type coerces to the same
///    kind of at least its width. Narrowing and sign or kind changes
///    require an explicit cast and fail here.
/// 5. `char`, `bool` and `string` coerce only to themselves.
/// 6. Two user types coerce only under nominal equality of file and
///    name.
/// 7. Every other array or pointer combination is unsupported and fails.
pub open spec fn coercible(source: Type, target: Type) -> bool {
    if target == Type::Simple(SimpleType::Void) || target == Type::Simple(SimpleType::Varargs)
        || source == Type::Simple(SimpleType::Void) || source == Type::Simple(
        SimpleType::Varargs,
    ) {
        false
    } else {
        match (source, target) {
            (Type::Simple(SimpleType::Int(a)), Type::Simple(SimpleType::Int(b))) => a
                .base_type.spec_width() <= b.base_type.spec_width(),
            (Type::Simple(SimpleType::Uint(a)), Type::Simple(SimpleType::Uint(b))) => a
                .base_type.spec_width() <= b.base_type.spec_width(),
            (Type::Simple(SimpleType::Fp(a)), Type::Simple(SimpleType::Fp(b))) => a.spec_width()
                <= b.spec_width(),
            (Type::Simple(SimpleType::Char), Type::Simple(SimpleType::Char)) => true,
            (Type::Simple(SimpleType::Bool), Type::Simple(SimpleType::Bool)) => true,
            (Type::Simple(SimpleType::String), Type::Simple(SimpleType::String)) => true,
            (
                Type::Simple(SimpleType::UserType(a)),
                Type::Simple(SimpleType::UserType(b)),
            ) => a.file@ == b.file@ && a.name@ == b.name@,
            (Type::Complex(ComplexType::Array(arr)), Type::Simple(SimpleType::String)) => arr
                .base_type matches SimpleType::Uint(u) && u.base_type
                == UnsignedIntegerTypes::Uint8,
            _ => false,
        }
    }
}

/// The message carried by every coercion failure: both types' canonical
/// text.
pub open spec fn coerce_error_message(source: Type, target: Type) -> Seq<char> {
    "cannot coerce type `"@ + source.spec_display() + "` to `"@ + target.spec_display() + "`!"@
}

/// The coercion engine.
pub struct Typechecker;

impl Typechecker {
    /// Decides [`coercible`] by closed-set dispatch over the type
    /// lattice.
    pub fn can_coerce(source: &Type, target: &Type) -> (b: bool)
        ensures
            b == coercible(*source, *target),
    {
        match (source, target) {
            (Type::Simple(SimpleType::Void), _) => false,
            (Type::Simple(SimpleType::Varargs), _) => false,
            (_, Type::Simple(SimpleType::Void)) => false,
            (_, Type::Simple(SimpleType::Varargs)) => false,
            (Type::Simple(SimpleType::Int(a)), Type::Simple(SimpleType::Int(b))) => a
                .base_type.width() <= b.base_type.width(),
            (Type::Simple(SimpleType::Uint(a)), Type::Simple(SimpleType::Uint(b))) => a
                .base_type.width() <= b.base_type.width(),
            (Type::Simple(SimpleType::Fp(a)), Type::Simple(SimpleType::Fp(b))) => a.width()
                <= b.width(),
            (Type::Simple(SimpleType::Char), Type::Simple(SimpleType::Char)) => true,
            (Type::Simple(SimpleType::Bool), Type::Simple(SimpleType::Bool)) => true,
            (Type::Simple(SimpleType::String), Type::Simple(SimpleType::String)) => true,
            (
                Type::Simple(SimpleType::UserType(a)),
                Type::Simple(SimpleType::UserType(b)),
            ) => a.file == b.file && a.name == b.name,
            (Type::Complex(ComplexType::Array(arr)), Type::Simple(SimpleType::String)) => {
                match &arr.base_type {
                    SimpleType::Uint(u) => u.base_type.width() == 8,
                    _ => false,
                }
            },
            _ => false,
        }
    }

    /// Applies the coercion rules; on failure the returned `TypeError`
    /// carries both types' canonical text.
    pub fn coerce_types(type1: Type, type2: Type) -> (r: Result<(), Error>)
        ensures
            r is Ok <==> coercible(type1, type2),
            r matches Err(e) ==> e.error_type == ErrorType::TypeError && e.message@
                == coerce_error_message(type1, type2) && e.location == (Span {
                start: 0,
                end: 0,
            }),
    {
        if Self::can_coerce(&type1, &type2) {
            Ok(())
        } else {
            let mut msg = "cannot coerce type `".to_owned();
            msg.append(type1.display().as_str());
            msg.append("` to `");
            msg.append(type2.display().as_str());
            msg.append("`!");
            Err(Error::new(0, 0, ErrorType::TypeError, msg))
        }
    }
}

/// Any array of `u8` coerces to `string`, whatever its declared size and
/// whether or not it is runtime-sized.
pub proof fn lemma_u8_array_coerces_to_string(size: usize, is_runtime_sized: bool, value: u64)
    ensures
        coercible(
            Type::Complex(
                ComplexType::Array(
                    Array {
                        size,
                        is_runtime_sized,
                        base_type: SimpleType::Uint(
                            UnsignedInteger { base_type: UnsignedIntegerTypes::Uint8, value },
                        ),
                    },
                ),
            ),
            Type::Simple(SimpleType::String),
        ),
{
}

/// Coercion to `void` fails for every source type.
pub proof fn lemma_coerce_to_void_fails(source: Type)
    ensures
        !coercible(source, Type::Simple(SimpleType::Void)),
{
}

} // verus!
