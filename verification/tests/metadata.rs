use ketox::metadata::{Function, Module, Parameter, SCHEMA_VERSION, Type};
use ketox::validate::{validate_function, validate_module, validate_type_position};

fn function(rust: &str, kotlin: &str, parameters: Vec<(&str, Type)>, return_type: Type) -> Function {
    Function {
        rust_name: rust.to_string(),
        kotlin_name: kotlin.to_string(),
        parameters: parameters
            .into_iter()
            .map(|(name, ty)| Parameter {
                name: name.to_string(),
                ty,
            })
            .collect(),
        return_type,
    }
}

fn module(functions: Vec<Function>) -> Module {
    Module {
        schema_version: SCHEMA_VERSION,
        package: "dev.ketox.example".to_string(),
        class_name: "RustApi".to_string(),
        library_name: "ketox_hello".to_string(),
        functions,
    }
}

#[test]
fn rich_types_map_to_kotlin_and_jvm() {
    let cases = [
        (Type::ByteArray, "ByteArray", "[B"),
        (Type::IntSlice, "IntArray", "[I"),
        (Type::LongArray, "LongArray", "[J"),
        (Type::FloatSlice, "FloatArray", "[F"),
        (Type::DoubleArray, "DoubleArray", "[D"),
        (Type::BooleanSlice, "BooleanArray", "[Z"),
        (Type::Option(Box::new(Type::I32)), "Int?", "Ljava/lang/Integer;"),
        (Type::Option(Box::new(Type::Bool)), "Boolean?", "Ljava/lang/Boolean;"),
        (Type::Option(Box::new(Type::Str)), "String?", "Ljava/lang/String;"),
        (Type::Option(Box::new(Type::ByteSlice)), "ByteArray?", "[B"),
        (Type::Option(Box::new(Type::Unit)), "Unit?", "Ljava/lang/Object;"),
        (
            Type::Result {
                ok: Box::new(Type::I64),
                err: "MyError".to_string(),
            },
            "Long",
            "J",
        ),
        (
            Type::Result {
                ok: Box::new(Type::Option(Box::new(Type::F64))),
                err: "E".to_string(),
            },
            "Double?",
            "Ljava/lang/Double;",
        ),
    ];
    for (ty, kotlin, jvm) in cases {
        assert_eq!(ty.kotlin_type(), kotlin);
        assert_eq!(ty.jni_signature(), jvm);
    }
}

#[test]
fn method_descriptor_wraps_parameters_in_parentheses() {
    let f = function(
        "mix",
        "mix",
        vec![("a", Type::I8), ("b", Type::String), ("c", Type::Option(Box::new(Type::I16)))],
        Type::DoubleArray,
    );
    assert_eq!(f.jni_signature(), "(BLjava/lang/String;Ljava/lang/Short;)[D");
    assert_eq!(function("noop", "noop", vec![], Type::Unit).jni_signature(), "()V");
}

#[test]
fn type_positions_are_checked() {
    assert_eq!(
        validate_type_position(&Type::Unit, false, "f").unwrap_err(),
        "unit parameters are unsupported in `f`"
    );
    assert!(validate_type_position(&Type::Unit, true, "f").is_ok());
    assert_eq!(
        validate_type_position(&Type::Str, true, "f").unwrap_err(),
        "borrowed string returns are unsupported in `f`; return String instead"
    );
    assert_eq!(
        validate_type_position(&Type::IntSlice, true, "f").unwrap_err(),
        "borrowed slice returns are unsupported in `f`; return Vec instead"
    );
    assert_eq!(
        validate_type_position(&Type::Option(Box::new(Type::Unit)), true, "f").unwrap_err(),
        "Option<Unit> is unsupported in `f`"
    );
    assert_eq!(
        validate_type_position(
            &Type::Option(Box::new(Type::Option(Box::new(Type::I32)))),
            false,
            "f"
        )
        .unwrap_err(),
        "nested Option<Option<T>> is unsupported in `f`"
    );
    let result = Type::Result {
        ok: Box::new(Type::I32),
        err: "E".to_string(),
    };
    assert_eq!(
        validate_type_position(&result, false, "f").unwrap_err(),
        "Result is only supported as a return type in `f`"
    );
    assert!(validate_type_position(&result, true, "f").is_ok());
    assert_eq!(
        validate_type_position(&Type::Option(Box::new(result.clone())), true, "f").unwrap_err(),
        "Option<Result<T, E>> is unsupported in `f`"
    );
    let nested = Type::Result {
        ok: Box::new(result),
        err: "E".to_string(),
    };
    assert_eq!(
        validate_type_position(&nested, true, "f").unwrap_err(),
        "nested Result<Result<T, E>, E2> is unsupported in `f`"
    );
    assert!(validate_type_position(&Type::Option(Box::new(Type::Str)), false, "f").is_ok());
}

#[test]
fn function_metadata_is_checked_in_order() {
    assert_eq!(
        validate_function(&function("text_length", "textlength", vec![], Type::I32)).unwrap_err(),
        "Kotlin name `textlength` for Rust function `text_length` must be `textLength`"
    );
    assert_eq!(
        validate_function(&function(
            "pair",
            "pair",
            vec![("a", Type::I32), ("a", Type::Unit)],
            Type::Unit
        ))
        .unwrap_err(),
        "duplicate parameter `a` in `pair`"
    );
    assert_eq!(
        validate_function(&function("f", "f", vec![("when", Type::I32)], Type::Unit)).unwrap_err(),
        "parameter `when` is a reserved Kotlin keyword"
    );
    assert_eq!(
        validate_function(&function("f", "f", vec![("type", Type::I32)], Type::Unit)).unwrap_err(),
        "invalid parameter `type`: Rust keywords are unsupported"
    );
    assert!(validate_function(&function("f", "f", vec![("value", Type::Str)], Type::String)).is_ok());
}

#[test]
fn module_metadata_is_checked_in_order() {
    let mut m = module(vec![]);
    m.schema_version = 999;
    assert_eq!(
        validate_module(&m).unwrap_err(),
        "unsupported metadata schema version 999; expected 1 or 2"
    );
    m.schema_version = 1;
    assert!(validate_module(&m).is_ok());
    m.package = "dev..demo".to_string();
    assert_eq!(
        validate_module(&m).unwrap_err(),
        "invalid package segment ``: use ASCII letters, digits, and underscores, starting with a letter or underscore; raw identifiers are unsupported"
    );
    m.package = "dev.ketox".to_string();
    m.library_name = "lib-name".to_string();
    assert!(validate_module(&m).unwrap_err().starts_with("invalid library name `lib-name`"));
    let twice = module(vec![
        function("a", "a", vec![], Type::Unit),
        function("a", "a", vec![], Type::Unit),
    ]);
    assert_eq!(
        validate_module(&twice).unwrap_err(),
        "duplicate exported Rust function `a`"
    );
    let collide = module(vec![
        function("foo_bar", "fooBar", vec![], Type::Unit),
        function("fooBar", "fooBar", vec![], Type::Unit),
    ]);
    assert_eq!(
        validate_module(&collide).unwrap_err(),
        "exported functions collide on Kotlin name `fooBar`"
    );
}

#[test]
fn validation_does_not_depend_on_function_order() {
    let zeta = function("zeta", "zeta", vec![("value", Type::I32)], Type::I32);
    let alpha = function("alpha_beta", "alphaBeta", vec![("text", Type::Str)], Type::Unit);
    assert!(validate_module(&module(vec![zeta.clone(), alpha.clone()])).is_ok());
    assert!(validate_module(&module(vec![alpha.clone(), zeta.clone()])).is_ok());
    let clash = function("alphaBeta", "alphaBeta", vec![], Type::Unit);
    assert!(validate_module(&module(vec![alpha.clone(), clash.clone(), zeta.clone()])).is_err());
    assert!(validate_module(&module(vec![clash, zeta, alpha])).is_err());
}
