use codegen::{Bound, CodegenError, Field, Scope, Struct, Type, Variant, Vis};

#[test]
fn empty_scope() -> Result<(), CodegenError> {
    let scope = Scope::new();

    assert_eq!(scope.to_string()?, "");
    Ok(())
}

#[test]
fn single_struct() -> Result<(), CodegenError> {
    let mut scope = Scope::new();

    scope
        .new_struct("Foo")
        .field("one", "usize")?
        .field("two", "String")?;

    let expected = "struct Foo {\n    one: usize,\n    two: String,\n}";

    assert_eq!(scope.to_string()?, expected);
    Ok(())
}

#[test]
fn struct_with_pushed_field() -> Result<(), CodegenError> {
    let mut scope = Scope::new();
    let mut struct_ = Struct::new("Foo");
    let field = Field::new_named("one", "usize");
    struct_.push_field(field)?;
    scope.push_struct(struct_);

    let expected = "struct Foo {\n    one: usize,\n}";

    assert_eq!(scope.to_string()?, expected);
    Ok(())
}

#[test]
fn single_struct_documented_field() -> Result<(), CodegenError> {
    let mut scope = Scope::new();

    let doc = vec!["Field's documentation", "Second line"];

    let mut struct_ = Struct::new("Foo");

    let mut field1 = Field::new_named("one", "usize");
    field1.push_docs(&doc);
    struct_.push_field(field1)?;

    let mut field2 = Field::new_named("two", "usize");
    field2.push_attr(r#"#[serde(rename = "bar")]"#);
    struct_.push_field(field2)?;

    let mut field3 = Field::new_named("three", "usize");
    field3.push_docs(&doc).extend_attrs(&[
        r#"#[serde(skip_serializing)]"#,
        r#"#[serde(skip_deserializing)]"#,
    ]);
    struct_.push_field(field3)?;

    scope.push_struct(struct_);

    let expected = r#"struct Foo {
    /// Field's documentation
    /// Second line
    one: usize,
    #[serde(rename = "bar")]
    two: usize,
    /// Field's documentation
    /// Second line
    #[serde(skip_serializing)]
    #[serde(skip_deserializing)]
    three: usize,
}"#;

    assert_eq!(scope.to_string()?, expected);
    Ok(())
}

#[test]
fn single_fn() -> Result<(), CodegenError> {
    let mut scope = Scope::new();
    scope
        .new_fn("my_fn")
        .set_vis(Vis::Pub)
        .arg("foo", "uint")
        .ret("uint")
        .line("let res = foo + 1;")
        .line("res");

    let expected = "pub fn my_fn(foo: uint) -> uint {\n    let res = foo + 1;\n    res\n}";

    assert_eq!(scope.to_string()?, expected);
    Ok(())
}

#[test]
fn documented_enum() -> Result<(), CodegenError> {
    let mut scope = Scope::new();

    let new_enum = scope.new_enum("AnEnum")
        .set_doc("An enum that has enum-level docs")
        .set_vis(Vis::PubCrate)
        .push_attr("#[serde(rename_all = \"camelCase\")]")
        .push_generic("T")
        .push_bound(Bound::new_with_bound("T", "Clone"))
        .derive_many(&["Debug", "Clone", "PartialEq", "Eq", "serde::Deserialize"]);

    new_enum.new_variant("VariantA")
        .push_doc("Variant A docs")
        .push_doc("Some more docs")
        .named("inner", "T")?
        .push_attr("#[serde(rename = \"aDifferentName\")]");

    new_enum.new_variant("VariantB")
        .push_doc("Variant B docs")
        .push_attr("#[serde(skip_serializing)]")
        .tuple("Option<T>")?;

    let expected = r#"/// An enum that has enum-level docs
#[derive(Debug, Clone, PartialEq, Eq, serde::Deserialize)]
#[serde(rename_all = "camelCase")]
pub(crate) enum AnEnum<T>
where
T: Clone,
{
    /// Variant A docs
    /// Some more docs
    #[serde(rename = "aDifferentName")]
    VariantA {
        inner: T,
    }
    ,
    /// Variant B docs
    #[serde(skip_serializing)]
    VariantB(Option<T>),
}"#;

    assert_eq!(scope.to_string()?, expected);
    Ok(())
}

#[test]
fn empty_struct() -> Result<(), CodegenError> {
    let mut scope = Scope::new();

    scope.new_struct("Foo");

    assert_eq!(scope.to_string()?, "struct Foo;");
    Ok(())
}

#[test]
fn two_structs() -> Result<(), CodegenError> {
    let mut scope = Scope::new();

    scope.new_struct("Foo")
        .field("one", "usize")?
        .field("two", "String")?;

    scope.new_struct("Bar")
        .field("hello", "World")?;

    let expected = r#"struct Foo {
    one: usize,
    two: String,
}

struct Bar {
    hello: World,
}"#;

    assert_eq!(scope.to_string()?, expected);
    Ok(())
}

#[test]
fn struct_with_derive() -> Result<(), CodegenError> {
    let mut scope = Scope::new();

    scope.new_struct("Foo")
        .derive("Debug")
        .derive("Clone")
        .field("one", "usize")?
        .field("two", "String")?;

    let expected = "#[derive(Debug, Clone)]\nstruct Foo {\n    one: usize,\n    two: String,\n}";

    assert_eq!(scope.to_string()?, expected);
    Ok(())
}

#[test]
fn struct_with_repr() -> Result<(), CodegenError> {
    let mut scope = Scope::new();

    scope.new_struct("Foo")
        .repr("C")
        .field("one", "u8")?
        .field("two", "u8")?;

    let expected = "#[repr(C)]\nstruct Foo {\n    one: u8,\n    two: u8,\n}";

    assert_eq!(scope.to_string()?, expected);
    Ok(())
}

#[test]
fn struct_with_allow() -> Result<(), CodegenError> {
    let mut scope = Scope::new();

    scope.new_struct("Foo")
        .allow("dead_code")
        .field("one", "u8")?
        .field("two", "u8")?;

    let expected = "#[allow(dead_code)]\nstruct Foo {\n    one: u8,\n    two: u8,\n}";

    assert_eq!(scope.to_string()?, expected);
    Ok(())
}

#[test]
fn struct_with_generics_1() -> Result<(), CodegenError> {
    let mut scope = Scope::new();

    scope.new_struct("Foo")
        .extend_generics(&["T", "U"])
        .field("one", "T")?
        .field("two", "U")?;

    let expected = "struct Foo<T, U> {\n    one: T,\n    two: U,\n}";

    assert_eq!(scope.to_string()?, expected);
    Ok(())
}

#[test]
fn struct_with_generics_2() -> Result<(), CodegenError> {
    let mut scope = Scope::new();

    scope.new_struct("Foo")
        .extend_generics(&["T", "U"])
        .field("one", "T")?
        .field("two", "U")?;

    let expected = "struct Foo<T, U> {\n    one: T,\n    two: U,\n}";

    assert_eq!(scope.to_string()?, expected);
    Ok(())
}

#[test]
fn struct_with_generics_3() -> Result<(), CodegenError> {
    let mut scope = Scope::new();

    scope.new_struct("Foo")
        .extend_generics(&["T: Win", "U"])
        .field("one", "T")?
        .field("two", "U")?;

    let expected = "struct Foo<T: Win, U> {\n    one: T,\n    two: U,\n}";

    assert_eq!(scope.to_string()?, expected);
    Ok(())
}

#[test]
fn struct_where_clause_1() -> Result<(), CodegenError> {
    let mut scope = Scope::new();

    scope
        .new_struct("Foo")
        .push_generic("T")
        .push_bound(Bound::new_with_bound("T", "Foo"))
        .field("one", "T")?;

    let expected = "struct Foo<T>\nwhere\nT: Foo,\n{\n    one: T,\n}";

    assert_eq!(scope.to_string()?, expected);
    Ok(())
}

#[test]
fn struct_where_clause_2() -> Result<(), CodegenError> {
    let mut scope = Scope::new();

    scope.new_struct("Foo")
        .extend_generics(&["T", "U"])
        .extend_bounds(vec![Bound::new_with_bound("T", "Foo"), Bound::new_with_bound("U", "Baz")])
        .field("one", "T")?
        .field("two", "U")?;

    let expected = "struct Foo<T, U>\nwhere\nT: Foo,\nU: Baz,\n{\n    one: T,\n    two: U,\n}";

    assert_eq!(scope.to_string()?, expected);
    Ok(())
}

#[test]
fn struct_doc() -> Result<(), CodegenError> {
    let mut scope = Scope::new();

    scope.new_struct("Foo")
        .push_doc(
            "Hello, this is a doc string\n\
              that continues on another line.",
        )
        .field("one", "T")?;

    let expected = r#"/// Hello, this is a doc string
/// that continues on another line.
struct Foo {
    one: T,
}"#;

    assert_eq!(scope.to_string()?, expected);
    Ok(())
}

#[test]
fn struct_in_mod() -> Result<(), CodegenError> {
    let mut scope = Scope::new();

    {
        let module = scope.new_module("foo");

        module.new_struct("Foo")
            .push_doc("Hello some docs")
            .derive("Debug")
            .extend_generics(&["T", "U"])
            .push_bound(Bound::new_with_bound("T", "SomeBound"))
            .push_bound(Bound::new_with_bound("U", "SomeOtherBound"))
            .field("one", "T")?
            .field("two", "U")?;
    }

    let expected = r#"mod foo {
    /// Hello some docs
    #[derive(Debug)]
    struct Foo<T, U>
    where
    T: SomeBound,
    U: SomeOtherBound,
    {
        one: T,
        two: U,
    }
}"#;

    assert_eq!(scope.to_string()?, expected);
    Ok(())
}

#[test]
fn struct_mod_import() -> Result<(), CodegenError> {
    let mut scope = Scope::new();

    scope.new_module("foo")
        .import("bar", "Bar")
        .new_struct("Foo")
        .field("bar", "Bar")?;

    let expected = "mod foo {\n    use bar::Bar;\n\n    struct Foo {\n        bar: Bar,\n    }\n}";

    assert_eq!(scope.to_string()?, expected);
    Ok(())
}

#[test]
fn enum_with_repr() -> Result<(), CodegenError> {
    let mut scope = Scope::new();

    scope.new_enum("IpAddrKind")
        .repr("u8")
        .push_variant(Variant::new("V4"))
        .push_variant(Variant::new("V6"));

    let expected = "#[repr(u8)]\nenum IpAddrKind {\n    V4,\n    V6,\n}";

    assert_eq!(scope.to_string()?, expected);
    Ok(())
}

#[test]
fn enum_with_allow() -> Result<(), CodegenError> {
    let mut scope = Scope::new();

    scope.new_enum("IpAddrKind")
        .allow("dead_code")
        .push_variant(Variant::new("V4"))
        .push_variant(Variant::new("V6"));

    let expected = "#[allow(dead_code)]\nenum IpAddrKind {\n    V4,\n    V6,\n}";

    assert_eq!(scope.to_string()?, expected);
    Ok(())
}

#[test]
fn scoped_imports() -> Result<(), CodegenError> {
    let mut scope = Scope::new();
    scope.new_module("foo")
        .import("bar", "Bar")
        .import("bar", "baz::Baz")
        .import("bar::quux", "quuux::Quuuux")
        .new_struct("Foo")
        .field("bar", "Bar")?
        .field("baz", "baz::Baz")?
        .field("quuuux", "quuux::Quuuux")?;

    let expected = r#"mod foo {
    use bar::{Bar, baz};
    use bar::quux::quuux;

    struct Foo {
        bar: Bar,
        baz: baz::Baz,
        quuuux: quuux::Quuuux,
    }
}"#;

    assert_eq!(scope.to_string()?, expected);
    Ok(())
}

#[test]
fn module_mut() -> Result<(), CodegenError> {
    let mut scope = Scope::new();
    scope.new_module("foo").import("bar", "Bar");

    scope.get_module_mut("foo")
        .expect("module_mut")
        .new_struct("Foo")
        .field("bar", "Bar")?;

    let expected = "mod foo {\n    use bar::Bar;\n\n    struct Foo {\n        bar: Bar,\n    }\n}";

    assert_eq!(scope.to_string()?, expected);
    Ok(())
}

#[test]
fn get_or_new_module() -> Result<(), CodegenError> {
    let mut scope = Scope::new();
    assert!(scope.get_module("foo").is_none());

    scope.get_or_new_module("foo").import("bar", "Bar");

    scope.get_or_new_module("foo")
        .new_struct("Foo")
        .field("bar", "Bar")?;

    let expected = "mod foo {\n    use bar::Bar;\n\n    struct Foo {\n        bar: Bar,\n    }\n}";

    assert_eq!(scope.to_string()?, expected);
    Ok(())
}

#[test]
fn function_with_async() -> Result<(), CodegenError> {
    let mut scope = Scope::new();
    let trt = scope.new_trait("Foo");

    let f = trt.new_fn("pet_toby");
    f.set_async(true);
    f.line("println!(\"petting toby because he is a good boi\");");

    let expected = r#"trait Foo {
    async fn pet_toby() {
        println!("petting toby because he is a good boi");
    }
}"#;

    assert_eq!(scope.to_string()?, expected);
    Ok(())
}

#[test]
fn trait_with_macros() -> Result<(), CodegenError> {
    let mut scope = Scope::new();
    let trt = scope.new_trait("Foo");
    trt.push_attr("#[async_trait]");
    trt.push_attr("#[toby_is_cute]");

    let f = trt.new_fn("pet_toby");
    f.set_async(true);
    f.line("println!(\"petting toby because he is a good boi\");");

    let expected = r#"#[async_trait]
#[toby_is_cute]
trait Foo {
    async fn pet_toby() {
        println!("petting toby because he is a good boi");
    }
}"#;

    assert_eq!(scope.to_string()?, expected);
    Ok(())
}

#[test]
fn impl_with_macros() -> Result<(), CodegenError> {
    let mut scope = Scope::new();
    scope.new_struct("Bar");
    let imp = scope.new_impl("Bar");
    imp.impl_trait("Foo");
    imp.push_attr("#[async_trait]");
    imp.push_attr("#[toby_is_cute]");

    let f = imp.new_fn("pet_toby");
    f.set_async(true);
    f.line("println!(\"petting Toby many times because he is such a good boi\");");

    let expected = r#"struct Bar;

#[async_trait]
#[toby_is_cute]
impl Foo for Bar {
    async fn pet_toby() {
        println!("petting Toby many times because he is such a good boi");
    }
}"#;

    assert_eq!(scope.to_string()?, expected);
    Ok(())
}

#[test]
fn struct_with_multiple_allow() -> Result<(), CodegenError> {
    let mut scope = Scope::new();

    scope.new_struct("Foo")
        .allow("dead_code")
        .allow("clippy::all")
        .field("one", "u8")?
        .field("two", "u8")?;

    let expected = "#[allow(dead_code)]\n#[allow(clippy::all)]\nstruct Foo {\n    one: u8,\n    two: u8,\n}";

    assert_eq!(scope.to_string()?, expected);
    Ok(())
}

#[test]
fn enum_with_multiple_allow() -> Result<(), CodegenError> {
    let mut scope = Scope::new();

    scope.new_enum("IpAddrKind")
        .allow("dead_code")
        .allow("clippy::all")
        .push_variant(Variant::new("V4"))
        .push_variant(Variant::new("V6"));

    let expected = "#[allow(dead_code)]\n#[allow(clippy::all)]\nenum IpAddrKind {\n    V4,\n    V6,\n}";

    assert_eq!(scope.to_string()?, expected);
    Ok(())
}

#[test]
fn type_path_prefixes_name() {
    let ty = Type::new("Bar");
    let qualified = ty.path("foo").expect("unqualified name");
    assert_eq!(qualified.name(), "foo::Bar");
}
