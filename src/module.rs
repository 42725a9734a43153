use vstd::prelude::*;
use crate::attributes::{Attributes, attrs_text};
use crate::docs::{Docs, text_lines};
use crate::enum_gen::{Enum, is_new_enum};
use crate::error::CodegenError;
use crate::formatter::{Formatter, lemma_put_concat};
use crate::function::{Function, is_new_fn};
use crate::impl_gen::{Impl, is_new_impl};
use crate::item::Item;
use crate::scope::{
    Scope, module_out, scope_error, imports_after, first_segment, module_index_from,
};
use crate::struct_gen::{Struct, is_new_struct};
use crate::text::{owned, pushed, views};
use crate::trait_gen::Trait;
use crate::vis::{Vis, vis_text};

verus! {

/// `m` is an empty private module named `name`.
pub open spec fn is_new_module(m: Module, name: Seq<char>) -> bool {
    &&& m.name@ == name
    &&& m.scope.imports@.len() == 0 && m.scope.items@.len() == 0
    &&& m.attrs.attrs@.len() == 0 && m.docs.lines@.len() == 0
    &&& m.vis == Vis::Private
}

/// A module: a name, its visibility, documentation and attributes, and a scope.
#[derive(Debug)]
pub struct Module {
    pub name: String,
    pub vis: Vis,
    pub docs: Docs,
    pub scope: Scope,
    pub attrs: Attributes,
}

impl Module {
    /// An empty private module with the given name.
    pub fn new(name: &str) -> (r: Self)
        ensures
            is_new_module(r, name@),
    {
        Module { name: owned(name), vis: Vis::Private, docs: Docs::empty(), scope: Scope::new(), attrs: Attributes::new() }
    }

    /// The module's scope, for changes.
    pub fn scope(&mut self) -> (r: &mut Scope)
        ensures
            *r == old(self).scope,
            *final(self) == (Module { scope: *final(r), ..*old(self) }),
    {
        &mut self.scope
    }

    /// The name.
    pub fn name(&self) -> (r: &str)
        ensures
            r@ == self.name@,
    {
        self.name.as_str()
    }

    /// Imports `ty` from `path` into the module's scope.
    pub fn import(&mut self, path: &str, ty: &str) -> (r: &mut Self)
        ensures
            imports_after(old(self).scope.imports@, path@, first_segment(ty@), r.scope.imports@),
            r.scope.items == old(self).scope.items,
            *r == (Module { scope: r.scope, ..*old(self) }),
            *final(self) == *final(r),
    {
        self.scope.import(path, ty);
        self
    }

    /// Adds a module with the given name and hands it out for further changes.
    pub fn new_module(&mut self, name: &str) -> (r: &mut Module)
        ensures
            is_new_module(*r, name@),
            final(self).scope.items@ == old(self).scope.items@.push(Item::Module(*final(r))),
            final(self).scope.imports == old(self).scope.imports,
            *final(self) == (Module { scope: final(self).scope, ..*old(self) }),
    {
        self.scope.new_module(name)
    }

    /// The first module with the given name in this module's scope, if any.
    pub fn get_module(&self, name: &str) -> (r: Option<&Module>)
        ensures
            r is Some <==> module_index_from(self.scope.items@, name@, 0) >= 0,
            r is Some ==> Item::Module(*r.unwrap()) == self.scope.items@[module_index_from(
                self.scope.items@,
                name@,
                0,
            )],
    {
        self.scope.get_module(name)
    }

    /// The first module with the given name in this module's scope, if any, for changes.
    pub fn get_module_mut(&mut self, name: &str) -> (r: Option<&mut Module>)
        ensures
            r is Some <==> module_index_from(old(self).scope.items@, name@, 0) >= 0,
            r is None ==> *final(self) == *old(self),
            r is Some ==> {
                let i = module_index_from(old(self).scope.items@, name@, 0);
                &&& Item::Module(*r.unwrap()) == old(self).scope.items@[i]
                &&& final(self).scope.items@ == old(self).scope.items@.update(i, Item::Module(*final(r.unwrap())))
                &&& final(self).scope.imports == old(self).scope.imports
                &&& *final(self) == (Module { scope: final(self).scope, ..*old(self) })
            },
    {
        self.scope.get_module_mut(name)
    }

    /// The first module with the given name, added if there is none, for changes.
    pub fn get_or_new_module(&mut self, name: &str) -> (r: &mut Module)
        ensures
            *final(self) == (Module { scope: final(self).scope, ..*old(self) }),
            final(self).scope.imports == old(self).scope.imports,
            module_index_from(old(self).scope.items@, name@, 0) >= 0 ==> {
                let i = module_index_from(old(self).scope.items@, name@, 0);
                &&& Item::Module(*r) == old(self).scope.items@[i]
                &&& final(self).scope.items@ == old(self).scope.items@.update(i, Item::Module(*final(r)))
            },
            module_index_from(old(self).scope.items@, name@, 0) < 0 ==> {
                &&& is_new_module(*r, name@)
                &&& final(self).scope.items@ == old(self).scope.items@.push(Item::Module(*final(r)))
            },
    {
        self.scope.get_or_new_module(name)
    }

    /// Adds a module.
    pub fn push_module(&mut self, item: Module) -> (r: &mut Self)
        ensures
            r.scope.items@ == old(self).scope.items@.push(Item::Module(item)),
            r.scope.imports == old(self).scope.imports,
            *r == (Module { scope: r.scope, ..*old(self) }),
            *final(self) == *final(r),
    {
        self.scope.push_module(item);
        self
    }

    /// Adds a struct with the given name and hands it out for further changes.
    pub fn new_struct(&mut self, name: &str) -> (r: &mut Struct)
        ensures
            is_new_struct(*r, name@),
            final(self).scope.items@ == old(self).scope.items@.push(Item::Struct(*final(r))),
            final(self).scope.imports == old(self).scope.imports,
            *final(self) == (Module { scope: final(self).scope, ..*old(self) }),
    {
        self.scope.new_struct(name)
    }

    /// Adds a struct.
    pub fn push_struct(&mut self, item: Struct) -> (r: &mut Self)
        ensures
            r.scope.items@ == old(self).scope.items@.push(Item::Struct(item)),
            r.scope.imports == old(self).scope.imports,
            *r == (Module { scope: r.scope, ..*old(self) }),
            *final(self) == *final(r),
    {
        self.scope.push_struct(item);
        self
    }

    /// Adds a function with an empty body and hands it out for further changes.
    pub fn new_fn(&mut self, name: &str) -> (r: &mut Function)
        ensures
            is_new_fn(*r, name@),
            r.body is Some,
            final(self).scope.items@ == old(self).scope.items@.push(Item::Function(*final(r))),
            final(self).scope.imports == old(self).scope.imports,
            *final(self) == (Module { scope: final(self).scope, ..*old(self) }),
    {
        self.scope.new_fn(name)
    }

    /// Adds a function.
    pub fn push_fn(&mut self, item: Function) -> (r: &mut Self)
        ensures
            r.scope.items@ == old(self).scope.items@.push(Item::Function(item)),
            r.scope.imports == old(self).scope.imports,
            *r == (Module { scope: r.scope, ..*old(self) }),
            *final(self) == *final(r),
    {
        self.scope.push_fn(item);
        self
    }

    /// Adds an enum with the given name and hands it out for further changes.
    pub fn new_enum(&mut self, name: &str) -> (r: &mut Enum)
        ensures
            is_new_enum(*r, name@),
            final(self).scope.items@ == old(self).scope.items@.push(Item::Enum(*final(r))),
            final(self).scope.imports == old(self).scope.imports,
            *final(self) == (Module { scope: final(self).scope, ..*old(self) }),
    {
        self.scope.new_enum(name)
    }

    /// Adds an enum.
    pub fn push_enum(&mut self, item: Enum) -> (r: &mut Self)
        ensures
            r.scope.items@ == old(self).scope.items@.push(Item::Enum(item)),
            r.scope.imports == old(self).scope.imports,
            *r == (Module { scope: r.scope, ..*old(self) }),
            *final(self) == *final(r),
    {
        self.scope.push_enum(item);
        self
    }

    /// Adds an impl block for the named type and hands it out for further changes.
    pub fn new_impl(&mut self, target: &str) -> (r: &mut Impl)
        ensures
            is_new_impl(*r, target@),
            final(self).scope.items@ == old(self).scope.items@.push(Item::Impl(*final(r))),
            final(self).scope.imports == old(self).scope.imports,
            *final(self) == (Module { scope: final(self).scope, ..*old(self) }),
    {
        self.scope.new_impl(target)
    }

    /// Adds an impl block.
    pub fn push_impl(&mut self, item: Impl) -> (r: &mut Self)
        ensures
            r.scope.items@ == old(self).scope.items@.push(Item::Impl(item)),
            r.scope.imports == old(self).scope.imports,
            *r == (Module { scope: r.scope, ..*old(self) }),
            *final(self) == *final(r),
    {
        self.scope.push_impl(item);
        self
    }

    /// Adds a trait.
    pub fn push_trait(&mut self, item: Trait) -> (r: &mut Self)
        ensures
            r.scope.items@ == old(self).scope.items@.push(Item::Trait(item)),
            r.scope.imports == old(self).scope.imports,
            *r == (Module { scope: r.scope, ..*old(self) }),
            *final(self) == *final(r),
    {
        self.scope.push_trait(item);
        self
    }

    /// Adds an attribute.
    pub fn push_attr(&mut self, attr: &str) -> (r: &mut Self)
        ensures
            pushed(r.attrs.attrs@, old(self).attrs.attrs@, attr@),
            *r == (Module { attrs: r.attrs, ..*old(self) }),
            *final(self) == *final(r),
    {
        self.attrs.push_attr(attr);
        self
    }

    /// Adds documentation lines.
    pub fn push_doc(&mut self, doc: &str) -> (r: &mut Self)
        ensures
            views(r.docs.lines@) == views(old(self).docs.lines@) + text_lines(doc@),
            *r == (Module { docs: r.docs, ..*old(self) }),
            *final(self) == *final(r),
    {
        self.docs.push_doc(doc);
        self
    }

    /// Sets the visibility.
    pub fn set_vis(&mut self, vis: Vis) -> (r: &mut Self)
        ensures
            *r == (Module { vis, ..*old(self) }),
            *final(self) == *final(r),
    {
        self.vis = vis;
        self
    }

    /// Writes the module: attributes, visibility, `mod` and its name, then its scope
    /// in a block.
    pub fn render(&self, fmt: &mut Formatter)
        requires
            scope_error(self.scope) is None,
        ensures
            final(fmt).indentation() == old(fmt).indentation(),
            final(fmt).text() == module_out(*self, old(fmt).text(), old(fmt).indentation()),
        decreases self,
    {
        let ghost b0 = fmt.text();
        let ghost ind = fmt.indentation();
        self.attrs.fmt_attrs(fmt);
        self.vis.fmt(fmt);
        fmt.write_str("mod ");
        fmt.write_str(self.name.as_str());
        proof {
            lemma_put_concat(b0, ind, attrs_text(self.attrs.attrs@), vis_text(self.vis));
            lemma_put_concat(b0, ind, attrs_text(self.attrs.attrs@) + vis_text(self.vis), "mod "@);
            lemma_put_concat(b0, ind, attrs_text(self.attrs.attrs@) + vis_text(self.vis) + "mod "@, self.name@);
        }
        let saved = fmt.block();
        self.scope.render(fmt);
        fmt.end_block(saved);
    }

    /// Writes the module, or fails, writing nothing, with the first failure in its scope.
    pub fn fmt(&self, fmt: &mut Formatter) -> (r: Result<(), CodegenError>)
        ensures
            final(fmt).indentation() == old(fmt).indentation(),
            r is Err <==> scope_error(self.scope) is Some,
            r is Err ==> r == Err::<(), CodegenError>(scope_error(self.scope).unwrap()) && final(fmt).text()
                == old(fmt).text(),
            r is Ok ==> final(fmt).text() == module_out(*self, old(fmt).text(), old(fmt).indentation()),
    {
        match self.scope.check() {
            Some(e) => Err(e),
            None => {
                self.render(fmt);
                Ok(())
            },
        }
    }
}

} // verus!
