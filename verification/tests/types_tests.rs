use frontcore::error::{Error, ErrorType};
use frontcore::types::{
    Array, ArrayInfo, ComplexType, FloatingPointTypes, Pointer, PointerInfo, SignedInteger,
    SignedIntegerTypes, SimpleType, Type, Typechecker, UnsignedInteger, UnsignedIntegerTypes,
    UserDefinedType,
};

fn u8_array(size: usize, is_runtime_sized: bool) -> Type {
    Type::Complex(ComplexType::Array(
        Array::new(
            size,
            is_runtime_sized,
            SimpleType::Uint(UnsignedInteger::new(UnsignedIntegerTypes::Uint8, 0)),
        )
        .unwrap(),
    ))
}

#[test]
fn coerce_u8_arr_to_str() {
    let u8_arr = Type::Complex(ComplexType::Array(
        Array::new(
            0,
            true,
            SimpleType::Uint(UnsignedInteger::new(UnsignedIntegerTypes::Uint8, 0)),
        )
        .unwrap(),
    ));
    let str = Type::Simple(SimpleType::String);

    assert!(Typechecker::coerce_types(u8_arr, str).is_ok() == true);
}

#[test]
fn coerce_u8_arr_to_str_any_size() {
    for (size, rts) in [(0, false), (1, true), (7, false), (1024, true)] {
        let target = Type::Simple(SimpleType::String);
        assert!(Typechecker::coerce_types(u8_array(size, rts), target).is_ok());
    }
}

#[test]
fn coerce_to_void_always_fails() {
    let sources = [
        Type::Simple(SimpleType::Char),
        Type::Simple(SimpleType::Bool),
        Type::Simple(SimpleType::Void),
        Type::Simple(SimpleType::Int(SignedInteger::new(SignedIntegerTypes::Int8, 1))),
        u8_array(0, true),
        Type::Complex(ComplexType::Pointer(Pointer::new(8, 0, 1, SimpleType::Char))),
    ];
    for src in sources {
        let r = Typechecker::coerce_types(src, Type::Simple(SimpleType::Void));
        let e = r.unwrap_err();
        assert_eq!(e.get_error_type(), ErrorType::TypeError);
    }
}

#[test]
fn coerce_from_void_or_varargs_fails() {
    let target = Type::Simple(SimpleType::Bool);
    assert!(Typechecker::coerce_types(Type::Simple(SimpleType::Void), target.clone()).is_err());
    assert!(Typechecker::coerce_types(Type::Simple(SimpleType::Varargs), target).is_err());
}

#[test]
fn coerce_same_signedness_widening_only() {
    let i8_t = Type::Simple(SimpleType::Int(SignedInteger::new(SignedIntegerTypes::Int8, 0)));
    let i64_t = Type::Simple(SimpleType::Int(SignedInteger::new(SignedIntegerTypes::Int64, 0)));
    let u8_t = Type::Simple(SimpleType::Uint(UnsignedInteger::new(UnsignedIntegerTypes::Uint8, 0)));
    let u16_t =
        Type::Simple(SimpleType::Uint(UnsignedInteger::new(UnsignedIntegerTypes::Uint16, 0)));
    let f32_t = Type::Simple(SimpleType::Fp(FloatingPointTypes::FP32));
    let f64_t = Type::Simple(SimpleType::Fp(FloatingPointTypes::FP64));

    assert!(Typechecker::coerce_types(i8_t.clone(), i8_t.clone()).is_ok());
    assert!(Typechecker::coerce_types(i8_t.clone(), i64_t.clone()).is_ok());
    assert!(Typechecker::coerce_types(i64_t, i8_t.clone()).is_err());
    assert!(Typechecker::coerce_types(u8_t.clone(), u16_t).is_ok());
    assert!(Typechecker::coerce_types(i8_t, u8_t.clone()).is_err());
    assert!(Typechecker::coerce_types(u8_t, f32_t.clone()).is_err());
    assert!(Typechecker::coerce_types(f32_t.clone(), f64_t.clone()).is_ok());
    assert!(Typechecker::coerce_types(f64_t, f32_t).is_err());
}

#[test]
fn coerce_identity_primitives() {
    let char_t = Type::Simple(SimpleType::Char);
    let bool_t = Type::Simple(SimpleType::Bool);
    let string_t = Type::Simple(SimpleType::String);
    assert!(Typechecker::coerce_types(char_t.clone(), char_t.clone()).is_ok());
    assert!(Typechecker::coerce_types(bool_t.clone(), bool_t).is_ok());
    assert!(Typechecker::coerce_types(string_t.clone(), string_t).is_ok());
    assert!(Typechecker::coerce_types(char_t, Type::Simple(SimpleType::Bool)).is_err());
}

#[test]
fn coerce_user_types_nominal() {
    let a = Type::Simple(SimpleType::UserType(UserDefinedType::new("lib.x", "Point")));
    let b = Type::Simple(SimpleType::UserType(UserDefinedType::new("lib.x", "Point")));
    let c = Type::Simple(SimpleType::UserType(UserDefinedType::new("lib.y", "Point")));
    let d = Type::Simple(SimpleType::UserType(UserDefinedType::new("lib.x", "Rect")));
    assert!(Typechecker::coerce_types(a.clone(), b).is_ok());
    assert!(Typechecker::coerce_types(a.clone(), c).is_err());
    assert!(Typechecker::coerce_types(a, d).is_err());
}

#[test]
fn coerce_error_carries_canonical_text() {
    let src = u8_array(0, true);
    let e = Typechecker::coerce_types(src, Type::Simple(SimpleType::Void)).unwrap_err();
    assert_eq!(e.get_message(), "cannot coerce type `[?]u8 (0)` to `void`!");
    let e2 = Typechecker::coerce_types(
        Type::Complex(ComplexType::Pointer(Pointer::new(8, 8, 1, SimpleType::Void))),
        Type::Simple(SimpleType::String),
    )
    .unwrap_err();
    assert_eq!(e2.get_message(), "cannot coerce type `*void` to `string`!");
}

#[test]
fn coerce_other_arrays_and_pointers_fail() {
    let u16_arr = Type::Complex(ComplexType::Array(
        Array::new(
            4,
            false,
            SimpleType::Uint(UnsignedInteger::new(UnsignedIntegerTypes::Uint16, 0)),
        )
        .unwrap(),
    ));
    assert!(Typechecker::coerce_types(u16_arr, Type::Simple(SimpleType::String)).is_err());
    let ptr = Type::Complex(ComplexType::Pointer(Pointer::new(8, 0, 1, SimpleType::Char)));
    assert!(Typechecker::coerce_types(ptr.clone(), Type::Simple(SimpleType::Char)).is_err());
    assert!(Typechecker::coerce_types(Type::Simple(SimpleType::Char), ptr).is_err());
}

#[test]
fn array_of_void_is_structured_error() {
    let r = Array::new(0, true, SimpleType::Void);
    let e = r.unwrap_err();
    assert_eq!(e.get_error_type(), ErrorType::InternalError);
    assert_eq!(e.get_message(), "array cannot have type 'void'");

    let r2 = Array::new(3, false, SimpleType::Varargs);
    let e2 = r2.unwrap_err();
    assert_eq!(e2.get_error_type(), ErrorType::InternalError);
    assert_eq!(e2.get_message(), "array cannot have type '...'");
}

#[test]
fn pointer_display_two_refs_char() {
    let ptr = Pointer::new(8, 8, 2, SimpleType::Char);
    assert_eq!(ptr.display(), "**char");
    let t = Type::Complex(ComplexType::Pointer(Pointer::new(8, 8, 2, SimpleType::Char)));
    assert_eq!(t.display(), "**char");
}

#[test]
fn pointer_display_star_count() {
    for n in 1..6usize {
        let ptr = Pointer::new(8, 0, n, SimpleType::Bool);
        let text = ptr.display();
        assert_eq!(text, format!("{}bool", "*".repeat(n)));
    }
}

#[test]
fn array_display_forms() {
    let rts = Array::new(0, true, SimpleType::Char).unwrap();
    assert_eq!(rts.display(), "[?]char");
    let fixed = Array::new(12, false, SimpleType::Char).unwrap();
    assert_eq!(fixed.display(), "[12]char");
    let valid_arr = Type::Complex(ComplexType::Array(Array::new(0, true, SimpleType::String).unwrap()));
    assert_eq!(valid_arr.display(), "[?]string");
}

#[test]
fn numeric_literal_display() {
    assert_eq!(SignedInteger::new(SignedIntegerTypes::Int8, 5).display(), "i8 (5)");
    assert_eq!(SignedInteger::new(SignedIntegerTypes::Int64, -17).display(), "i64 (-17)");
    assert_eq!(
        SignedInteger::new(SignedIntegerTypes::Int64, i64::MIN).display(),
        "i64 (-9223372036854775808)"
    );
    assert_eq!(UnsignedInteger::new(UnsignedIntegerTypes::Uint64, 0).display(), "u64 (0)");
    assert_eq!(
        UnsignedInteger::new(UnsignedIntegerTypes::Uint64, u64::MAX).display(),
        "u64 (18446744073709551615)"
    );
    assert_eq!(SimpleType::Fp(FloatingPointTypes::FP16).display(), "f16");
}

#[test]
fn user_type_display() {
    let u = UserDefinedType::new("geometry", "Point");
    assert_eq!(u.display(), "geometry.Point");
    assert_eq!(SimpleType::UserType(u).display(), "geometry.Point");
}

#[test]
fn type_getters() {
    let p = Pointer::new(16, 4, 3, SimpleType::Bool);
    assert_eq!(p.get_align(), 16);
    assert_eq!(p.get_offset(), 4);
    assert_eq!(p.get_references(), 3);
    assert_eq!(*p.get_base_type(), SimpleType::Bool);
    let a = Array::new(9, false, SimpleType::Char).unwrap();
    assert_eq!(a.get_size(), 9);
    assert_eq!(*a.get_base_type(), SimpleType::Char);
}

#[test]
fn error_display_format() {
    let err = Error::new(
        1,
        1,
        ErrorType::TypeError,
        "cannot coerce type `Array<u8>` to `*void`!".to_string(),
    );
    assert_eq!(
        err.display(),
        "[TypeError] at 1:1 : cannot coerce type `Array<u8>` to `*void`!"
    );
}

#[test]
fn error_kind_display_and_getters() {
    assert_eq!(ErrorType::InternalError.display(), "[InternalError]");
    assert_eq!(ErrorType::TypeError.display(), "[TypeError]");
    assert_eq!(ErrorType::LexError.display(), "[LexError]");
    assert_eq!(ErrorType::ParseError.display(), "[ParseError]");
    let e = Error::new(3, 9, ErrorType::LexError, "bad".to_string());
    assert_eq!(e.get_location().get_start(), 3);
    assert_eq!(e.get_location().get_end(), 9);
    assert_eq!(e.get_error_type(), ErrorType::LexError);
    assert_eq!(e.get_message(), "bad");
    assert_eq!(e.display(), "[LexError] at 3:9 : bad");
}
