use codegen::{Bound, CodegenError, Docs, Field, Fields, Formatter, Function, Impl, Scope, Struct, Trait, Type, Vis};

fn written(parts: &[&str], indent: bool) -> String {
    let mut fmt = Formatter::new();
    if indent {
        fmt.indent();
    }
    for p in parts {
        fmt.write_str(p);
    }
    fmt.contents()
}

#[test]
fn split_writes_match_one_write() {
    let whole = "fn a() {\n\nlet x = 1;\n}\n";
    for cut in 0..whole.len() {
        let (a, b) = whole.split_at(cut);
        assert_eq!(written(&[a, b], true), written(&[whole], true));
        assert_eq!(written(&[a, b], false), written(&[whole], false));
    }
    assert_eq!(written(&[whole], true), "    fn a() {\n\n    let x = 1;\n    }\n");
}

#[test]
fn empty_write_changes_nothing() {
    assert_eq!(written(&["ab", "", "c"], true), "    abc");
    assert_eq!(written(&[""], true), "");
}

#[test]
fn block_opens_and_closes_at_the_right_depth() {
    let mut fmt = Formatter::new();
    fmt.write_str("impl X");
    let saved = fmt.block();
    fmt.write_str("fn f()");
    let inner = fmt.block();
    fmt.write_str("body\n");
    fmt.end_block(inner);
    fmt.end_block(saved);
    assert_eq!(fmt.contents(), "impl X {\n    fn f() {\n        body\n    }\n}\n");
}

#[test]
fn rendering_twice_gives_same_text() -> Result<(), CodegenError> {
    let mut scope = Scope::new();
    scope.new_struct("Foo").derive("Debug").field("a", "u8")?;
    scope.new_fn("f").line("todo()");
    let first = scope.to_string()?;
    let second = scope.to_string()?;
    assert_eq!(first, second);
    assert_eq!(first, "#[derive(Debug)]\nstruct Foo {\n    a: u8,\n}\n\nfn f() {\n    todo()\n}");
    Ok(())
}

#[test]
fn positional_after_named_is_rejected() {
    let mut fields = Fields::Empty;
    assert!(fields.named("a", "u8").is_ok());
    assert!(fields.named("b", "u16").is_ok());
    assert_eq!(fields.tuple("u32").err(), Some(CodegenError::InvalidShape));
    match &fields {
        Fields::Named(v) => {
            assert_eq!(v.len(), 2);
            assert_eq!(v[0].name.as_deref(), Some("a"));
            assert_eq!(v[1].name.as_deref(), Some("b"));
        }
        _ => panic!("fields should stay named"),
    }
}

#[test]
fn named_after_positional_is_rejected() {
    let mut s = Struct::new("P");
    assert!(s.tuple_field("u8").is_ok());
    assert!(s.tuple_field("u16").is_ok());
    assert_eq!(s.field("x", "u8").err(), Some(CodegenError::InvalidShape));
    assert_eq!(s.push_field(Field::new_named("y", "u8")).err(), Some(CodegenError::InvalidShape));
    let mut scope = Scope::new();
    scope.push_struct(s);
    assert_eq!(scope.to_string(), Ok("struct P(u8, u16);".to_string()));
}

#[test]
fn add_named_hands_out_the_new_field() {
    let mut fields = Fields::Empty;
    fields.add_named("a", "u8").expect("empty fields take a named one").push_attr("serde(skip)");
    assert!(fields.add_tuple("u8").is_err());
    let mut positional = Fields::Empty;
    assert!(positional.add_tuple("u8").is_ok());
    assert_eq!(positional.add_named("a", "u8").err(), Some(CodegenError::InvalidShape));
}

#[test]
fn header_order_is_fixed() -> Result<(), CodegenError> {
    let mut a = Scope::new();
    a.new_struct("Foo")
        .set_vis(Vis::Pub)
        .push_attr("must_use")
        .repr("C")
        .derive("Clone")
        .push_doc("Docs")
        .field("x", "u8")?;
    let mut b = Scope::new();
    b.new_struct("Foo")
        .push_doc("Docs")
        .derive("Clone")
        .repr("C")
        .push_attr("must_use")
        .set_vis(Vis::Pub)
        .field("x", "u8")?;
    let expected = "/// Docs\n#[derive(Clone)]\n#[repr(C)]\n#[must_use]\npub struct Foo {\n    x: u8,\n}";
    assert_eq!(a.to_string()?, expected);
    assert_eq!(b.to_string()?, expected);
    Ok(())
}

#[test]
fn import_consolidation() -> Result<(), CodegenError> {
    let mut scope = Scope::new();
    scope.import("bar", "Bar").import("bar", "Baz").import("bar::quux", "Quuuux");
    assert_eq!(scope.to_string()?, "use bar::{Bar, Baz};\nuse bar::quux::Quuuux;\n");
    Ok(())
}

#[test]
fn repeated_import_is_written_once() -> Result<(), CodegenError> {
    let mut scope = Scope::new();
    scope.import("a", "B").import("a", "B::C").import("x", "Y");
    scope.raw("// end");
    assert_eq!(scope.to_string()?, "use a::B;\nuse x::Y;\n\n// end");
    Ok(())
}

#[test]
fn empty_document_is_empty() -> Result<(), CodegenError> {
    assert_eq!(Scope::new().to_string()?, "");
    Ok(())
}

#[test]
fn unit_struct_gets_terminator() -> Result<(), CodegenError> {
    let mut scope = Scope::new();
    scope.push_struct(Struct::new("Unit"));
    assert_eq!(scope.to_string()?, "struct Unit;");
    Ok(())
}

#[test]
fn nested_module_struct_indentation() -> Result<(), CodegenError> {
    let mut scope = Scope::new();
    scope
        .new_module("outer")
        .new_struct("Rec")
        .field("a", "u8")?
        .field("b", "u16")?
        .field("c", "u32")?;
    let expected = "mod outer {\n    struct Rec {\n        a: u8,\n        b: u16,\n        c: u32,\n    }\n}";
    assert_eq!(scope.to_string()?, expected);
    Ok(())
}

#[test]
fn impl_function_without_body_is_missing_body() {
    let mut scope = Scope::new();
    let mut imp = Impl::new("S");
    imp.push_fn(Function::new_trait_fn("f"));
    scope.push_impl(imp);
    assert_eq!(scope.to_string(), Err(CodegenError::MissingBody));
}

#[test]
fn free_function_without_body_is_missing_body() {
    let mut scope = Scope::new();
    scope.push_fn(Function::new_trait_fn("f"));
    assert_eq!(scope.to_string(), Err(CodegenError::MissingBody));
}

#[test]
fn trait_function_with_visibility_is_rejected() {
    let mut scope = Scope::new();
    let mut t = Trait::new("T");
    t.new_fn("f").set_vis(Vis::Pub);
    scope.push_trait(t);
    assert_eq!(scope.to_string(), Err(CodegenError::InvalidVisibility));
}

#[test]
fn error_inside_module_is_reported() {
    let mut scope = Scope::new();
    scope.new_module("m").push_fn(Function::new_trait_fn("f"));
    assert_eq!(scope.to_string(), Err(CodegenError::MissingBody));
}

#[test]
fn qualified_name_cannot_take_a_path() {
    let ty = Type::new("a::B");
    assert_eq!(ty.path("c").err(), Some(CodegenError::InvalidIdentity));
    let mut generic = Type::new("Vec");
    generic.push_generic("T");
    let q = generic.path("std::vec").expect("unqualified");
    let mut scope = Scope::new();
    scope.new_fn("f").ret(q.name()).line("todo!()");
    assert_eq!(scope.to_string(), Ok("fn f() -> std::vec::Vec {\n    todo!()\n}".to_string()));
}

#[test]
fn trait_declarations_and_associated_types() -> Result<(), CodegenError> {
    let mut scope = Scope::new();
    let t = scope.new_trait("Shape");
    t.parent("Clone").parent("Send");
    t.associated_type("Unit").push_bound("Copy");
    t.new_fn("area").arg_ref_self().ret("f64");
    t.new_fn("scale").arg_mut_self().arg("by", "f64");
    let expected = "trait Shape: Clone + Send {\n    type Unit: Copy;\n\n    fn area(&self) -> f64;\n\n    fn scale(&mut self, by: f64);\n}";
    assert_eq!(scope.to_string()?, expected);
    Ok(())
}

#[test]
fn impl_with_associated_type_and_generics() -> Result<(), CodegenError> {
    let mut scope = Scope::new();
    let imp = scope.new_impl("Wrapper");
    imp.push_generic("T")
        .target_generic("T")
        .impl_trait("Iterator")
        .associate_type("Item", "T")
        .push_bound(Bound::new_with_bound("T", "Clone"));
    imp.new_fn("next").arg_mut_self().ret("Option<T>").line("None");
    let expected = "impl<T> Iterator for Wrapper<T>\nwhere\nT: Clone,\n{\n    type Item = T;\n\n    fn next(&mut self) -> Option<T> {\n        None\n    }\n}";
    assert_eq!(scope.to_string()?, expected);
    Ok(())
}

#[test]
fn function_signature_parts() -> Result<(), CodegenError> {
    let mut scope = Scope::new();
    let f = scope.new_fn("run");
    f.push_doc("Runs it.")
        .allow("unused")
        .push_attr("no_mangle")
        .set_vis(Vis::PubCrate)
        .extern_abi("C")
        .set_async(true)
        .push_generic("T")
        .arg_self()
        .arg("a", "T")
        .arg("b", "u8")
        .push_bound(Bound::new_with_bounds("T", &["Send", "Sync"]));
    let mut inner = codegen::Block::new("loop");
    inner.line("break;").after(";");
    f.push_block(inner);
    let expected = "/// Runs it.\n#[allow(unused)]\n#[no_mangle]\npub(crate) extern \"C\" async fn run<T>(self, a: T, b: u8)\nwhere\nT: Send + Sync,\n{\n    loop {\n        break;\n    };\n}";
    assert_eq!(scope.to_string()?, expected);
    Ok(())
}

#[test]
fn doc_lines_split_like_lines() {
    let d = Docs::new("one\r\ntwo\n\nthree\n");
    let lines: Vec<&str> = d.lines.iter().map(|s| s.as_str()).collect();
    assert_eq!(lines, vec!["one", "two", "", "three"]);
    assert_eq!(Docs::new("").doc_line_count(), 0);
    assert_eq!(Docs::new("tail\r").lines, vec!["tail\r".to_string()]);
}

#[test]
fn multi_line_body_is_indented_per_line() -> Result<(), CodegenError> {
    let mut scope = Scope::new();
    scope.new_fn("f").line("let a = 1;\n\nlet b = 2;");
    assert_eq!(scope.to_string()?, "fn f() {\n    let a = 1;\n\n    let b = 2;\n}");
    Ok(())
}

#[test]
fn attributes_get_brackets_when_missing() {
    let a = codegen::Attributes::new_with_attrs(&["inline", "#[cold]", "#[test"]);
    assert!(a.has_attr("inline"));
    assert!(!a.has_attr("#[inline]"));
    let mut fmt = Formatter::new();
    a.fmt_attrs(&mut fmt);
    assert_eq!(fmt.contents(), "#[inline]\n#[cold]\n#[test]\n");
}

#[test]
fn visibility_words() {
    assert_eq!(Vis::Private.vis_string(), None);
    assert_eq!(Vis::Pub.vis_string(), Some("pub"));
    assert_eq!(Vis::PubCrate.vis_string(), Some("pub(crate)"));
    assert_eq!(Vis::PubSuper.vis_string(), Some("pub(super)"));
}

#[test]
fn lookup_returns_first_module_of_a_name() -> Result<(), CodegenError> {
    let mut scope = Scope::new();
    scope.new_module("m").new_struct("First");
    scope.new_module("m").new_struct("Second");
    let m = scope.get_module("m").expect("present");
    assert!(m.get_module("m").is_none());
    scope.get_or_new_module("m").new_struct("Third");
    let text = scope.to_string()?;
    assert_eq!(text, "mod m {\n    struct First;\n\n    struct Third;\n}\n\nmod m {\n    struct Second;\n}");
    Ok(())
}

#[test]
fn enum_variants_with_fields() -> Result<(), CodegenError> {
    let mut scope = Scope::new();
    let e = scope.new_enum("E");
    e.new_variant("A").tuple("u8")?.tuple("u16")?;
    assert_eq!(e.new_variant("B").named("x", "u8")?.tuple("u8").err(), Some(CodegenError::InvalidShape));
    assert_eq!(scope.to_string()?, "enum E {\n    A(u8, u16),\n    B {\n        x: u8,\n    }\n    ,\n}");
    Ok(())
}
