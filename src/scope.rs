use vstd::prelude::*;
use crate::attributes::attrs_text;
use crate::docs::docs_text;
use crate::enum_gen::{Enum, enum_out, is_new_enum};
use crate::error::CodegenError;
use crate::field::{Field, field_text};
use crate::fields::{named_of, field_lines};
use crate::formatter::{
    put, deeper, spaces, at_line_start, open_block, close_block, strip_newline, Formatter, chars_of,
    lemma_put_concat, lemma_put_zero, lemma_put_line, lemma_put_line_nl,
};
use crate::function::{Function, fn_out, fn_error, is_new_fn};
use crate::generics::type_text;
use crate::impl_gen::{Impl, impl_out, impl_error, is_new_impl};
use crate::item::Item;
use crate::module::{Module, is_new_module};
use crate::struct_gen::{Struct, struct_out, is_new_struct};
use crate::text::{join, views, owned, string_from_chars};
use crate::trait_gen::{Trait, trait_out, trait_error, is_new_trait};
use crate::type_def::{TypeDef, head_text};
use crate::vis::{Vis, vis_text};

verus! {

/// The names imported from one path, in the order they were first imported.
#[derive(Debug)]
pub struct ImportGroup {
    pub path: String,
    pub names: Vec<String>,
}

/// How one path's imports are written: nothing without names, `use path::Name;` for
/// one name, `use path::{A, B};` for more.
pub open spec fn group_text(g: ImportGroup) -> Seq<char> {
    if g.names@.len() == 0 {
        Seq::empty()
    } else {
        "use "@ + g.path@ + "::"@ + (if g.names@.len() > 1 {
            "{"@ + join(views(g.names@), ", "@) + "}"@
        } else {
            g.names@[0]@
        }) + ";\n"@
    }
}

/// The import statements, one per path, in the order the paths were first imported.
pub open spec fn imports_text(gs: Seq<ImportGroup>) -> Seq<char>
    decreases gs.len(),
{
    if gs.len() == 0 {
        Seq::empty()
    } else {
        imports_text(gs.drop_last()) + group_text(gs.last())
    }
}

/// The index of the first `::` in `s` at or after `i`, or the length of `s`.
pub open spec fn sep_from(s: Seq<char>, i: int) -> int
    decreases s.len() - i,
{
    if i < 0 || i + 1 >= s.len() {
        s.len() as int
    } else if s[i] == ':' && s[i + 1] == ':' {
        i
    } else {
        sep_from(s, i + 1)
    }
}

/// The part of `s` before its first `::`: what an import of a nested path brings in.
pub open spec fn first_segment(s: Seq<char>) -> Seq<char> {
    s.subrange(0, sep_from(s, 0))
}

/// The index of the first group at or after `i` whose path is `p`, or -1.
pub open spec fn group_index_from(gs: Seq<ImportGroup>, p: Seq<char>, i: int) -> int
    decreases gs.len() - i,
{
    if i < 0 || i >= gs.len() {
        -1
    } else if gs[i].path@ == p {
        i
    } else {
        group_index_from(gs, p, i + 1)
    }
}

/// The index of the first item at or after `i` that is a module named `name`, or -1.
pub open spec fn module_index_from(items: Seq<Item>, name: Seq<char>, i: int) -> int
    decreases items.len() - i,
{
    if i < 0 || i >= items.len() {
        -1
    } else if items[i] is Module && items[i]->Module_0.name@ == name {
        i
    } else {
        module_index_from(items, name, i + 1)
    }
}

/// The buffer after writing the module at indentation `ind`: attributes, visibility,
/// `mod` and its name, then a block holding its scope.
pub open spec fn module_out(m: Module, buf: Seq<char>, ind: nat) -> Seq<char>
    decreases m,
{
    let head = attrs_text(m.attrs.attrs@) + vis_text(m.vis) + "mod "@ + m.name@;
    close_block(scope_out(m.scope, open_block(put(buf, ind, head), ind), deeper(ind)), ind)
}

/// The buffer after writing the scope at indentation `ind`: its imports, an empty
/// line if there were any, then its items with an empty line between each two.
pub open spec fn scope_out(s: Scope, buf: Seq<char>, ind: nat) -> Seq<char>
    decreases s,
{
    let b = put(buf, ind, imports_text(s.imports@));
    let b1 = if s.imports@.len() > 0 {
        put(b, ind, "\n"@)
    } else {
        b
    };
    items_out(s.items@, b1, ind)
}

/// The buffer after writing the items in order, with an empty line between each two.
pub open spec fn items_out(items: Seq<Item>, buf: Seq<char>, ind: nat) -> Seq<char>
    decreases items,
{
    if items.len() == 0 {
        buf
    } else {
        let b = items_out(items.drop_last(), buf, ind);
        let b1 = if items.len() > 1 {
            put(b, ind, "\n"@)
        } else {
            b
        };
        item_out(items.last(), b1, ind)
    }
}

/// The buffer after writing one item at indentation `ind`.
pub open spec fn item_out(it: Item, buf: Seq<char>, ind: nat) -> Seq<char>
    decreases it,
{
    match it {
        Item::Module(m) => module_out(m, buf, ind),
        Item::Struct(s) => struct_out(s, buf, ind),
        Item::Function(f) => fn_out(f, buf, ind),
        Item::Trait(t) => trait_out(t, buf, ind),
        Item::Enum(e) => enum_out(e, buf, ind),
        Item::Impl(i) => impl_out(i, buf, ind),
        Item::Raw(s) => put(buf, ind, s@ + "\n"@),
    }
}

/// What rendering the scope fails with, if anything: the first failure among its
/// items, in order.
pub open spec fn scope_error(s: Scope) -> Option<CodegenError>
    decreases s,
{
    items_error(s.items@)
}

/// The first failure among the items, in order, if any.
pub open spec fn items_error(items: Seq<Item>) -> Option<CodegenError>
    decreases items,
{
    if items.len() == 0 {
        None
    } else {
        match items_error(items.drop_last()) {
            Some(e) => Some(e),
            None => item_error(items.last()),
        }
    }
}

/// What rendering one item fails with, if anything.
pub open spec fn item_error(it: Item) -> Option<CodegenError>
    decreases it,
{
    match it {
        Item::Module(m) => scope_error(m.scope),
        Item::Function(f) => fn_error(f, false),
        Item::Trait(t) => trait_error(t),
        Item::Impl(i) => impl_error(i),
        _ => None,
    }
}

/// The text of a whole scope: written from an empty buffer at indentation zero,
/// without its final newline.
pub open spec fn scope_text(s: Scope) -> Seq<char> {
    strip_newline(scope_out(s, Seq::empty(), 0))
}

/// What `to_string` returns for the scope: the first failure among its items, or its
/// text.
pub open spec fn renders_to(s: Scope, r: Result<String, CodegenError>) -> bool {
    &&& r is Err <==> scope_error(s) is Some
    &&& r is Err ==> r == Err::<String, CodegenError>(scope_error(s).unwrap())
    &&& r is Ok ==> r.unwrap()@ == scope_text(s)
}

/// Rendering the same tree twice gives the same outcome: the same failure, or
/// character for character the same text.
pub proof fn lemma_render_twice(s: Scope, a: Result<String, CodegenError>, b: Result<String, CodegenError>)
    requires
        renders_to(s, a),
        renders_to(s, b),
    ensures
        a is Ok <==> b is Ok,
        a is Ok ==> a.unwrap()@ == b.unwrap()@,
        a is Err ==> a == b,
{
}

/// The import groups after importing `name` from `path`: the name joins the first
/// group of that path unless already there, or a new group is added at the end.
pub open spec fn imports_after(gs: Seq<ImportGroup>, path: Seq<char>, name: Seq<char>, new: Seq<ImportGroup>) -> bool {
    let gi = group_index_from(gs, path, 0);
    if gi >= 0 {
        let old_names = views(gs[gi].names@);
        &&& new.len() == gs.len()
        &&& forall|j: int| 0 <= j < gs.len() && j != gi ==> #[trigger] new[j] == gs[j]
        &&& new[gi].path == gs[gi].path
        &&& views(new[gi].names@) == if old_names.contains(name) {
            old_names
        } else {
            old_names.push(name)
        }
    } else {
        &&& new.len() == gs.len() + 1
        &&& new.drop_last() == gs
        &&& new.last().path@ == path
        &&& views(new.last().names@) == seq![name]
    }
}

/// A scope: import statements and items, rendered in insertion order.
#[derive(Debug)]
pub struct Scope {
    pub imports: Vec<ImportGroup>,
    pub items: Vec<Item>,
}

proof fn lemma_items_error_extends(items: Seq<Item>, k: int)
    requires
        0 < k <= items.len(),
        items_error(items.subrange(0, k - 1)) is None,
        item_error(items[k - 1]) is Some,
    ensures
        items_error(items) == item_error(items[k - 1]),
{
    assert(items.subrange(0, k).drop_last() =~= items.subrange(0, k - 1));
    lemma_items_error_prefix(items, k);
}

proof fn lemma_items_error_prefix(items: Seq<Item>, k: int)
    requires
        0 <= k <= items.len(),
        items_error(items.subrange(0, k)) is Some,
    ensures
        items_error(items) == items_error(items.subrange(0, k)),
    decreases items.len() - k,
{
    if k == items.len() {
        assert(items.subrange(0, k) =~= items);
    } else {
        assert(items.subrange(0, k + 1).drop_last() =~= items.subrange(0, k));
        lemma_items_error_prefix(items, k + 1);
    }
}

proof fn lemma_items_error_none(items: Seq<Item>, k: int)
    requires
        0 <= k < items.len(),
        items_error(items) is None,
    ensures
        item_error(items[k]) is None,
    decreases items.len(),
{
    if k < items.len() - 1 {
        assert(items.drop_last()[k] == items[k]);
        lemma_items_error_none(items.drop_last(), k);
    }
}

/// The part of `s` before its first `::`.
fn first_segment_of(s: &str) -> (r: String)
    ensures
        r@ == first_segment(s@),
{
    let cs = chars_of(s);
    let mut end: usize = cs.len();
    let mut i: usize = 0;
    while i < cs.len() && i < cs.len() - 1
        invariant
            cs@ == s@,
            0 <= i <= cs@.len(),
            end <= cs@.len(),
            end == cs@.len() ==> sep_from(cs@, 0) == sep_from(cs@, i as int),
            end < cs@.len() ==> end == sep_from(cs@, 0),
        decreases cs.len() - i,
    {
        if end == cs.len() && cs[i] == ':' && cs[i + 1] == ':' {
            end = i;
        }
        i = i + 1;
    }
    let mut out: Vec<char> = Vec::new();
    let mut k: usize = 0;
    while k < end
        invariant
            0 <= k <= end <= cs@.len(),
            out@ == cs@.subrange(0, k as int),
        decreases end - k,
    {
        out.push(cs[k]);
        assert(out@ =~= cs@.subrange(0, k + 1));
        k = k + 1;
    }
    string_from_chars(&out)
}

impl Scope {
    /// An empty scope.
    pub fn new() -> (r: Self)
        ensures
            r.imports@.len() == 0,
            r.items@.len() == 0,
    {
        Scope { imports: Vec::new(), items: Vec::new() }
    }

    /// Imports `ty` from `path`. Only the part of `ty` before its first `::` is
    /// imported; imports from one path are written as one statement.
    #[verifier::rlimit(40)]
    pub fn import(&mut self, path: &str, ty: &str) -> (r: &mut Self)
        ensures
            imports_after(old(self).imports@, path@, first_segment(ty@), r.imports@),
            r.items == old(self).items,
            *final(self) == *final(r),
    {
        let name = first_segment_of(ty);
        let p = owned(path);
        let n = self.imports.len();
        let mut gi: usize = n;
        let mut j: usize = 0;
        while j < n
            invariant
                0 <= j <= n,
                n == self.imports@.len(),
                gi <= n,
                p@ == path@,
                self.imports == old(self).imports,
                self.items == old(self).items,
                gi == n ==> group_index_from(self.imports@, path@, 0) == group_index_from(
                    self.imports@,
                    path@,
                    j as int,
                ),
                gi < n ==> gi == group_index_from(self.imports@, path@, 0),
            decreases n - j,
        {
            if gi == n && self.imports[j].path == p {
                gi = j;
            }
            j = j + 1;
        }
        if gi < n {
            let ghost olds = views(self.imports@[gi as int].names@);
            let len = self.imports[gi].names.len();
            let mut at: usize = len;
            let mut k: usize = 0;
            while k < len
                invariant
                    gi < self.imports@.len(),
                    self.imports == old(self).imports,
                    olds == views(self.imports@[gi as int].names@),
                    len == olds.len(),
                    0 <= k <= len,
                    at <= len,
                    at == len ==> forall|m: int| 0 <= m < k ==> olds[m] != name@,
                    at < len ==> olds[at as int] == name@,
                decreases len - k,
            {
                if at == len && self.imports[gi].names[k] == name {
                    at = k;
                }
                k = k + 1;
            }
            let found = at < len;
            if !found {
                assert(!olds.contains(name@));
                let group = &mut self.imports[gi];
                group.names.push(name);
                proof {
                    assert(views(self.imports@[gi as int].names@) =~= olds.push(name@));
                }
            } else {
                assert(olds[at as int] == name@);
                assert(olds.contains(name@));
            }
        } else {
            let mut names = Vec::new();
            names.push(name);
            self.imports.push(ImportGroup { path: p, names });
            proof {
                assert(self.imports@.drop_last() =~= old(self).imports@);
                assert(views(self.imports@.last().names@) =~= seq![name@]);
            }
        }
        self
    }

    /// Adds a module with the given name and hands it out for further changes.
    pub fn new_module(&mut self, name: &str) -> (r: &mut Module)
        ensures
            is_new_module(*r, name@),
            final(self).items@ == old(self).items@.push(Item::Module(*final(r))),
            final(self).imports == old(self).imports,
    {
        self.items.push(Item::Module(Module::new(name)));
        let n = self.items.len() - 1;
        let r = match &mut self.items[n] {
            Item::Module(m) => Some(m),
            _ => None,
        };
        r.unwrap()
    }

    /// The first module with the given name, if any.
    pub fn get_module(&self, name: &str) -> (r: Option<&Module>)
        ensures
            r is Some <==> module_index_from(self.items@, name@, 0) >= 0,
            r is Some ==> Item::Module(*r.unwrap()) == self.items@[module_index_from(self.items@, name@, 0)],
    {
        match self.module_position(name) {
            Some(i) => match &self.items[i] {
                Item::Module(m) => Some(m),
                _ => None,
            },
            None => None,
        }
    }

    /// The first module with the given name, if any, for changes.
    pub fn get_module_mut(&mut self, name: &str) -> (r: Option<&mut Module>)
        ensures
            r is Some <==> module_index_from(old(self).items@, name@, 0) >= 0,
            r is None ==> *final(self) == *old(self),
            r is Some ==> {
                let i = module_index_from(old(self).items@, name@, 0);
                &&& Item::Module(*r.unwrap()) == old(self).items@[i]
                &&& final(self).items@ == old(self).items@.update(i, Item::Module(*final(r.unwrap())))
                &&& final(self).imports == old(self).imports
            },
    {
        match self.module_position(name) {
            Some(i) => match &mut self.items[i] {
                Item::Module(m) => Some(m),
                _ => None,
            },
            None => None,
        }
    }

    /// The first module with the given name, added if there is none, for changes.
    pub fn get_or_new_module(&mut self, name: &str) -> (r: &mut Module)
        ensures
            module_index_from(old(self).items@, name@, 0) >= 0 ==> {
                let i = module_index_from(old(self).items@, name@, 0);
                &&& Item::Module(*r) == old(self).items@[i]
                &&& final(self).items@ == old(self).items@.update(i, Item::Module(*final(r)))
                &&& final(self).imports == old(self).imports
            },
            module_index_from(old(self).items@, name@, 0) < 0 ==> {
                &&& is_new_module(*r, name@)
                &&& final(self).items@ == old(self).items@.push(Item::Module(*final(r)))
                &&& final(self).imports == old(self).imports
            },
    {
        if self.module_position(name).is_some() {
            self.get_module_mut(name).unwrap()
        } else {
            self.new_module(name)
        }
    }

    fn module_position(&self, name: &str) -> (r: Option<usize>)
        ensures
            r is Some <==> module_index_from(self.items@, name@, 0) >= 0,
            r is Some ==> r.unwrap() == module_index_from(self.items@, name@, 0),
            r is Some ==> r.unwrap() < self.items@.len(),
            r is Some ==> self.items@[r.unwrap() as int] is Module,
    {
        let n = owned(name);
        let mut i: usize = 0;
        while i < self.items.len()
            invariant
                0 <= i <= self.items@.len(),
                n@ == name@,
                module_index_from(self.items@, name@, 0) == module_index_from(self.items@, name@, i as int),
            decreases self.items.len() - i,
        {
            match &self.items[i] {
                Item::Module(m) => {
                    if m.name == n {
                        return Some(i);
                    }
                },
                _ => {},
            }
            i = i + 1;
        }
        None
    }

    /// Adds a module.
    pub fn push_module(&mut self, item: Module) -> (r: &mut Self)
        ensures
            r.items@ == old(self).items@.push(Item::Module(item)),
            r.imports == old(self).imports,
            *final(self) == *final(r),
    {
        self.items.push(Item::Module(item));
        self
    }

    /// Adds a struct with the given name and hands it out for further changes.
    pub fn new_struct(&mut self, name: &str) -> (r: &mut Struct)
        ensures
            is_new_struct(*r, name@),
            final(self).items@ == old(self).items@.push(Item::Struct(*final(r))),
            final(self).imports == old(self).imports,
    {
        self.items.push(Item::Struct(Struct::new(name)));
        let n = self.items.len() - 1;
        let r = match &mut self.items[n] {
            Item::Struct(s) => Some(s),
            _ => None,
        };
        r.unwrap()
    }

    /// Adds a struct.
    pub fn push_struct(&mut self, item: Struct) -> (r: &mut Self)
        ensures
            r.items@ == old(self).items@.push(Item::Struct(item)),
            r.imports == old(self).imports,
            *final(self) == *final(r),
    {
        self.items.push(Item::Struct(item));
        self
    }

    /// Adds a function with an empty body and hands it out for further changes.
    pub fn new_fn(&mut self, name: &str) -> (r: &mut Function)
        ensures
            is_new_fn(*r, name@),
            r.body is Some,
            final(self).items@ == old(self).items@.push(Item::Function(*final(r))),
            final(self).imports == old(self).imports,
    {
        self.items.push(Item::Function(Function::new(name)));
        let n = self.items.len() - 1;
        let r = match &mut self.items[n] {
            Item::Function(f) => Some(f),
            _ => None,
        };
        r.unwrap()
    }

    /// Adds a function.
    pub fn push_fn(&mut self, item: Function) -> (r: &mut Self)
        ensures
            r.items@ == old(self).items@.push(Item::Function(item)),
            r.imports == old(self).imports,
            *final(self) == *final(r),
    {
        self.items.push(Item::Function(item));
        self
    }

    /// Adds a trait with the given name and hands it out for further changes.
    pub fn new_trait(&mut self, name: &str) -> (r: &mut Trait)
        ensures
            is_new_trait(*r, name@),
            final(self).items@ == old(self).items@.push(Item::Trait(*final(r))),
            final(self).imports == old(self).imports,
    {
        self.items.push(Item::Trait(Trait::new(name)));
        let n = self.items.len() - 1;
        let r = match &mut self.items[n] {
            Item::Trait(t) => Some(t),
            _ => None,
        };
        r.unwrap()
    }

    /// Adds a trait.
    pub fn push_trait(&mut self, item: Trait) -> (r: &mut Self)
        ensures
            r.items@ == old(self).items@.push(Item::Trait(item)),
            r.imports == old(self).imports,
            *final(self) == *final(r),
    {
        self.items.push(Item::Trait(item));
        self
    }

    /// Adds an enum with the given name and hands it out for further changes.
    pub fn new_enum(&mut self, name: &str) -> (r: &mut Enum)
        ensures
            is_new_enum(*r, name@),
            final(self).items@ == old(self).items@.push(Item::Enum(*final(r))),
            final(self).imports == old(self).imports,
    {
        self.items.push(Item::Enum(Enum::new(name)));
        let n = self.items.len() - 1;
        let r = match &mut self.items[n] {
            Item::Enum(e) => Some(e),
            _ => None,
        };
        r.unwrap()
    }

    /// Adds an enum.
    pub fn push_enum(&mut self, item: Enum) -> (r: &mut Self)
        ensures
            r.items@ == old(self).items@.push(Item::Enum(item)),
            r.imports == old(self).imports,
            *final(self) == *final(r),
    {
        self.items.push(Item::Enum(item));
        self
    }

    /// Adds an impl block for the named type and hands it out for further changes.
    pub fn new_impl(&mut self, target: &str) -> (r: &mut Impl)
        ensures
            is_new_impl(*r, target@),
            final(self).items@ == old(self).items@.push(Item::Impl(*final(r))),
            final(self).imports == old(self).imports,
    {
        self.items.push(Item::Impl(Impl::new(target)));
        let n = self.items.len() - 1;
        let r = match &mut self.items[n] {
            Item::Impl(i) => Some(i),
            _ => None,
        };
        r.unwrap()
    }

    /// Adds an impl block.
    pub fn push_impl(&mut self, item: Impl) -> (r: &mut Self)
        ensures
            r.items@ == old(self).items@.push(Item::Impl(item)),
            r.imports == old(self).imports,
            *final(self) == *final(r),
    {
        self.items.push(Item::Impl(item));
        self
    }

    /// Adds text that is written as it is, followed by a newline.
    pub fn raw(&mut self, text: &str) -> (r: &mut Self)
        ensures
            r.items@.len() == old(self).items@.len() + 1,
            r.items@.drop_last() == old(self).items@,
            r.items@.last() is Raw,
            r.items@.last()->Raw_0@ == text@,
            r.imports == old(self).imports,
            *final(self) == *final(r),
    {
        self.items.push(Item::Raw(owned(text)));
        assert(self.items@.drop_last() =~= old(self).items@);
        self
    }

    /// What rendering the scope fails with, if anything.
    pub fn check(&self) -> (r: Option<CodegenError>)
        ensures
            r == scope_error(*self),
        decreases self,
    {
        let mut k: usize = 0;
        while k < self.items.len()
            invariant
                0 <= k <= self.items@.len(),
                items_error(self.items@.subrange(0, k as int)) is None,
            decreases self.items.len() - k,
        {
            assert(self.items@.subrange(0, k + 1).drop_last() =~= self.items@.subrange(0, k as int));
            assert(self.items@.subrange(0, k + 1).last() == self.items@[k as int]);
            let e = match &self.items[k] {
                Item::Module(m) => m.scope.check(),
                Item::Function(f) => f.error(false),
                Item::Trait(t) => crate::function::fns_check(&t.fns, true),
                Item::Impl(i) => crate::function::fns_check(&i.fns, false),
                _ => None,
            };
            assert(e == item_error(self.items@[k as int]));
            match e {
                Some(err) => {
                    proof {
                        lemma_items_error_extends(self.items@, k + 1);
                    }
                    return Some(err);
                },
                None => {},
            }
            k = k + 1;
        }
        assert(self.items@.subrange(0, self.items@.len() as int) =~= self.items@);
        None
    }

    /// Writes the scope: imports, an empty line if there were any, then the items
    /// with an empty line between each two.
    #[verifier::rlimit(40)]
    pub fn render(&self, fmt: &mut Formatter)
        requires
            scope_error(*self) is None,
        ensures
            final(fmt).indentation() == old(fmt).indentation(),
            final(fmt).text() == scope_out(*self, old(fmt).text(), old(fmt).indentation()),
        decreases self,
    {
        let ghost b0 = fmt.text();
        let ghost ind = fmt.indentation();
        let mut g: usize = 0;
        while g < self.imports.len()
            invariant
                0 <= g <= self.imports@.len(),
                fmt.indentation() == ind,
                fmt.text() == put(b0, ind, imports_text(self.imports@.subrange(0, g as int))),
            decreases self.imports.len() - g,
        {
            let ghost pre = self.imports@.subrange(0, g as int);
            assert(self.imports@.subrange(0, g + 1).drop_last() =~= pre);
            self.imports[g].fmt(fmt);
            proof { lemma_put_concat(b0, ind, imports_text(pre), group_text(self.imports@[g as int])); }
            g = g + 1;
        }
        assert(self.imports@.subrange(0, self.imports@.len() as int) =~= self.imports@);
        if self.imports.len() > 0 {
            fmt.write_str("\n");
        }
        let ghost b1 = fmt.text();
        let mut i: usize = 0;
        while i < self.items.len()
            invariant
                0 <= i <= self.items@.len(),
                fmt.indentation() == ind,
                items_error(self.items@) is None,
                fmt.text() == items_out(self.items@.subrange(0, i as int), b1, ind),
            decreases self.items.len() - i,
        {
            assert(self.items@.subrange(0, i + 1).drop_last() =~= self.items@.subrange(0, i as int));
            assert(self.items@.subrange(0, i + 1).last() == self.items@[i as int]);
            proof { lemma_items_error_none(self.items@, i as int); }
            if i != 0 {
                fmt.write_str("\n");
            }
            let ghost bi = fmt.text();
            match &self.items[i] {
                Item::Module(m) => m.render(fmt),
                Item::Struct(s) => s.fmt(fmt),
                Item::Function(f) => {
                    let _ = f.fmt(false, fmt);
                },
                Item::Trait(t) => {
                    let _ = t.fmt(fmt);
                },
                Item::Enum(e) => e.fmt(fmt),
                Item::Impl(im) => {
                    let _ = im.fmt(fmt);
                },
                Item::Raw(s) => {
                    let ghost b = fmt.text();
                    fmt.write_str(s.as_str());
                    fmt.write_str("\n");
                    proof { lemma_put_concat(b, ind, s@, "\n"@); }
                },
            }
            assert(fmt.text() == item_out(self.items@[i as int], bi, ind));
            i = i + 1;
        }
        assert(self.items@.subrange(0, self.items@.len() as int) =~= self.items@);
    }

    /// Writes the scope, or fails, writing nothing, with the first failure among its
    /// items.
    pub fn fmt(&self, fmt: &mut Formatter) -> (r: Result<(), CodegenError>)
        ensures
            final(fmt).indentation() == old(fmt).indentation(),
            r is Err <==> scope_error(*self) is Some,
            r is Err ==> r == Err::<(), CodegenError>(scope_error(*self).unwrap()) && final(fmt).text()
                == old(fmt).text(),
            r is Ok ==> final(fmt).text() == scope_out(*self, old(fmt).text(), old(fmt).indentation()),
    {
        match self.check() {
            Some(e) => Err(e),
            None => {
                self.render(fmt);
                Ok(())
            },
        }
    }

    /// The source text of the scope, without a final newline; or the first failure
    /// among its items.
    pub fn to_string(&self) -> (r: Result<String, CodegenError>)
        ensures
            renders_to(*self, r),
    {
        let mut fmt = Formatter::new();
        match self.fmt(&mut fmt) {
            Ok(()) => {
                fmt.trim_trailing_newline();
                Ok(fmt.contents())
            },
            Err(e) => Err(e),
        }
    }
}

impl ImportGroup {
    /// Writes the import statement of this path.
    pub fn fmt(&self, fmt: &mut Formatter)
        ensures
            final(fmt).indentation() == old(fmt).indentation(),
            final(fmt).text() == put(old(fmt).text(), old(fmt).indentation(), group_text(*self)),
    {
        if self.names.len() == 0 {
            return;
        }
        let ghost b0 = fmt.text();
        let ghost ind = fmt.indentation();
        fmt.write_str("use ");
        fmt.write_str(self.path.as_str());
        fmt.write_str("::");
        let ghost t0 = "use "@ + self.path@ + "::"@;
        proof {
            lemma_put_concat(b0, ind, "use "@, self.path@);
            lemma_put_concat(b0, ind, "use "@ + self.path@, "::"@);
        }
        let ghost body = if self.names@.len() > 1 {
            "{"@ + join(views(self.names@), ", "@) + "}"@
        } else {
            self.names@[0]@
        };
        if self.names.len() > 1 {
            fmt.write_str("{");
            proof { lemma_put_concat(b0, ind, t0, "{"@); }
            let mut i: usize = 0;
            while i < self.names.len()
                invariant
                    0 <= i <= self.names@.len(),
                    fmt.indentation() == ind,
                    fmt.text() == put(b0, ind, t0 + "{"@ + join(views(self.names@.subrange(0, i as int)), ", "@)),
                decreases self.names.len() - i,
            {
                let ghost sofar = t0 + "{"@ + join(views(self.names@.subrange(0, i as int)), ", "@);
                let ghost ns = views(self.names@.subrange(0, i + 1));
                assert(ns.drop_last() =~= views(self.names@.subrange(0, i as int)));
                if i > 0 {
                    fmt.write_str(", ");
                    proof { lemma_put_concat(b0, ind, sofar, ", "@); }
                }
                let ghost mid = if i > 0 { sofar + ", "@ } else { sofar };
                fmt.write_str(self.names[i].as_str());
                proof {
                    lemma_put_concat(b0, ind, mid, self.names@[i as int]@);
                    if i == 0 {
                        assert(join(views(self.names@.subrange(0, i as int)), ", "@) =~= Seq::<char>::empty());
                        assert(sofar + self.names@[0]@ =~= t0 + "{"@ + join(ns, ", "@));
                    } else {
                        assert(mid + self.names@[i as int]@ =~= t0 + "{"@ + join(ns, ", "@));
                    }
                }
                i = i + 1;
            }
            assert(self.names@.subrange(0, self.names@.len() as int) =~= self.names@);
            fmt.write_str("}");
            proof {
                lemma_put_concat(b0, ind, t0 + "{"@ + join(views(self.names@), ", "@), "}"@);
                assert(t0 + "{"@ + join(views(self.names@), ", "@) + "}"@ =~= t0 + body);
            }
        } else {
            fmt.write_str(self.names[0].as_str());
            proof { lemma_put_concat(b0, ind, t0, body); }
        }
        fmt.write_str(";\n");
        proof {
            lemma_put_concat(b0, ind, t0 + body, ";\n"@);
            assert(t0 + body + ";\n"@ =~= group_text(*self));
        }
    }
}

/// The type definition is private and has nothing set but its type.
pub open spec fn plain_header(td: TypeDef) -> bool {
    &&& td.vis == Vis::Private
    &&& td.docs.lines@.len() == 0
    &&& td.derive@.len() == 0
    &&& td.allow@.len() == 0
    &&& td.repr is None
    &&& td.bounds.bounds@.len() == 0
    &&& td.attrs.attrs@.len() == 0
}

/// The fields are named and carry no documentation or attributes.
pub open spec fn plain_fields(fs: Seq<Field>) -> bool {
    forall|i: int|
        0 <= i < fs.len() ==> {
            &&& (#[trigger] fs[i]).name is Some
            &&& fs[i].docs.lines@.len() == 0
            &&& fs[i].attrs.attrs@.len() == 0
        }
}

/// Neither the field names nor their types hold a newline.
pub open spec fn fields_one_line(fs: Seq<Field>) -> bool {
    forall|i: int|
        0 <= i < fs.len() ==> !(#[trigger] fs[i]).name.unwrap()@.contains('\n') && !type_text(
            fs[i].ty,
        ).contains('\n')
}

/// One line per field, `name: T,`, each after `ind` spaces.
pub open spec fn indented_fields(fs: Seq<Field>, ind: nat) -> Seq<char>
    decreases fs.len(),
{
    if fs.len() == 0 {
        Seq::empty()
    } else {
        indented_fields(fs.drop_last(), ind) + spaces(ind) + fs.last().name.unwrap()@ + ": "@ + type_text(
            fs.last().ty,
        ) + ",\n"@
    }
}

proof fn lemma_field_lines(buf: Seq<char>, ind: nat, fs: Seq<Field>)
    requires
        at_line_start(buf),
        plain_fields(fs),
        fields_one_line(fs),
    ensures
        put(buf, ind, field_lines(fs)) == buf + indented_fields(fs, ind),
        at_line_start(buf + indented_fields(fs, ind)),
    decreases fs.len(),
{
    reveal_strlit(": ");
    reveal_strlit(",\n");
    if fs.len() == 0 {
        assert(buf + indented_fields(fs, ind) =~= buf);
    } else {
        let pre = fs.drop_last();
        let f = fs.last();
        assert forall|i: int| 0 <= i < pre.len() implies {
            &&& (#[trigger] pre[i]).name is Some
            &&& pre[i].docs.lines@.len() == 0
            &&& pre[i].attrs.attrs@.len() == 0
        } by {
            assert(pre[i] == fs[i]);
        }
        assert forall|i: int| 0 <= i < pre.len() implies !(#[trigger] pre[i]).name.unwrap()@.contains('\n')
            && !type_text(pre[i].ty).contains('\n') by {
            assert(pre[i] == fs[i]);
        }
        lemma_field_lines(buf, ind, pre);
        let b1 = buf + indented_fields(pre, ind);
        lemma_put_concat(buf, ind, field_lines(pre), field_text(f));
        assert(f == fs[fs.len() - 1]);
        let n = f.name.unwrap()@;
        let t = type_text(f.ty);
        let p = n + ": "@ + t + seq![','];
        assert(docs_text(f.docs.lines@) =~= Seq::<char>::empty());
        assert(crate::attributes::attrs_text(f.attrs.attrs@) =~= Seq::<char>::empty());
        assert(field_text(f) =~= p.push('\n'));
        assert(!p.contains('\n')) by {
            if p.contains('\n') {
                let k = choose|k: int| 0 <= k < p.len() && p[k] == '\n';
                if k < n.len() {
                    assert(n[k] == '\n');
                } else if k < n.len() + 2 {
                } else if k < n.len() + 2 + t.len() {
                    assert(t[k - n.len() - 2] == '\n');
                }
            }
        }
        lemma_put_line_nl(b1, ind, p);
        assert(b1 + spaces(ind) + p + seq!['\n'] =~= buf + indented_fields(fs, ind));
    }
}

/// A struct without fields is written as `struct Name;`.
pub proof fn lemma_unit_struct(top: Scope, s: Struct)
    requires
        top.imports@.len() == 0,
        top.items@ == seq![Item::Struct(s)],
        plain_header(s.type_def),
        s.fields is Empty,
    ensures
        scope_text(top) == "struct "@ + type_text(s.type_def.ty) + ";"@,
{
    reveal_strlit("struct");
    reveal_strlit(" ");
    reveal_strlit("struct ");
    reveal_strlit(";\n");
    reveal_strlit(";");
    let e = Seq::<char>::empty();
    let td = s.type_def;
    assert(imports_text(top.imports@) =~= e);
    lemma_put_zero(e, e);
    assert(top.items@.drop_last() =~= Seq::<Item>::empty());
    assert(items_out(top.items@.drop_last(), e, 0) == e);
    assert(scope_out(top, e, 0) == struct_out(s, e, 0));
    let h = head_text(td, "struct"@, Seq::empty());
    assert(h =~= "struct "@ + type_text(td.ty));
    lemma_put_zero(e, h);
    lemma_put_zero(h, ";\n"@);
    assert(e + h =~= h);
    assert(struct_out(s, e, 0) == h + ";\n"@);
    assert(strip_newline(h + ";\n"@) =~= h + ";"@);
}

/// A plain struct with named fields, written where a line starts at indentation
/// `ind`: its header one line, its fields one step deeper, its closing brace back
/// at `ind`.
#[verifier::rlimit(40)]
pub proof fn lemma_named_struct(s: Struct, buf: Seq<char>, ind: nat)
    requires
        at_line_start(buf),
        plain_header(s.type_def),
        s.fields is Named,
        plain_fields(named_of(s.fields)),
        fields_one_line(named_of(s.fields)),
        !type_text(s.type_def.ty).contains('\n'),
    ensures
        struct_out(s, buf, ind) == buf + spaces(ind) + "struct "@ + type_text(s.type_def.ty) + " {\n"@
            + indented_fields(named_of(s.fields), deeper(ind)) + spaces(ind) + "}\n"@,
{
    reveal_strlit("struct");
    reveal_strlit(" ");
    reveal_strlit("struct ");
    reveal_strlit(" {\n");
    reveal_strlit("}\n");
    let td = s.type_def;
    let sn = type_text(td.ty);
    let fs = named_of(s.fields);
    let h = head_text(td, "struct"@, Seq::empty());
    assert(h =~= "struct "@ + sn);
    assert(!h.contains('\n')) by {
        if h.contains('\n') {
            let k = choose|k: int| 0 <= k < h.len() && h[k] == '\n';
            if k >= 7 {
                assert(sn[k - 7] == '\n');
            }
        }
    }
    lemma_put_line(buf, ind, h);
    let h1 = buf + spaces(ind) + h;
    assert(!at_line_start(h1)) by {
        assert(h1.last() == h[h.len() - 1]);
    }
    lemma_put_line(h1, ind, seq![' ']);
    let h2 = h1 + seq![' '];
    assert(!at_line_start(h2));
    lemma_put_line_nl(h2, ind, seq!['{']);
    assert(seq!['{'].push('\n') =~= seq!['{', '\n']);
    let h3 = h2 + seq!['{'] + seq!['\n'];
    assert(open_block(h1, ind) == h3);
    lemma_field_lines(h3, deeper(ind), fs);
    let h4 = h3 + indented_fields(fs, deeper(ind));
    lemma_put_line_nl(h4, ind, seq!['}']);
    assert(seq!['}'].push('\n') =~= seq!['}', '\n']);
    assert(struct_out(s, buf, ind) == h4 + spaces(ind) + seq!['}'] + seq!['\n']);
    assert(h4 + spaces(ind) + seq!['}'] + seq!['\n'] =~= buf + spaces(ind) + "struct "@ + sn + " {\n"@
        + indented_fields(fs, deeper(ind)) + spaces(ind) + "}\n"@);
}

/// Nested blocks indent one step each: in a module holding a struct with named
/// fields, the struct is written one step in and its fields two steps in.
#[verifier::rlimit(40)]
pub proof fn lemma_nested_indentation(top: Scope, m: Module, s: Struct)
    requires
        top.imports@.len() == 0,
        top.items@ == seq![Item::Module(m)],
        m.attrs.attrs@.len() == 0,
        m.vis == Vis::Private,
        m.scope.imports@.len() == 0,
        m.scope.items@ == seq![Item::Struct(s)],
        plain_header(s.type_def),
        s.fields is Named,
        plain_fields(named_of(s.fields)),
        fields_one_line(named_of(s.fields)),
        !m.name@.contains('\n'),
        !type_text(s.type_def.ty).contains('\n'),
    ensures
        scope_text(top) == "mod "@ + m.name@ + " {\n"@ + spaces(4) + "struct "@ + type_text(s.type_def.ty)
            + " {\n"@ + indented_fields(named_of(s.fields), 8) + spaces(4) + "}\n"@ + "}"@,
{
    reveal_strlit("mod ");
    reveal_strlit(" {\n");
    reveal_strlit("}\n");
    reveal_strlit("}");
    let e = Seq::<char>::empty();
    let mn = m.name@;
    // the outer scope holds just the module
    assert(imports_text(top.imports@) =~= e);
    lemma_put_zero(e, e);
    assert(top.items@.drop_last() =~= Seq::<Item>::empty());
    assert(items_out(top.items@.drop_last(), e, 0) == e);
    assert(scope_out(top, e, 0) == module_out(m, e, 0));
    // the module header and its opening brace, at indentation zero
    let head = crate::attributes::attrs_text(m.attrs.attrs@) + vis_text(m.vis) + "mod "@ + mn;
    assert(head =~= "mod "@ + mn);
    lemma_put_zero(e, head);
    assert(e + head =~= head);
    assert(!at_line_start(head)) by {
        assert(head.len() > 0);
        if mn.len() > 0 {
            assert(head.last() == mn[mn.len() - 1]);
        } else {
            assert(head.last() == ' ');
        }
    }
    lemma_put_zero(head, seq![' ']);
    lemma_put_zero(head + seq![' '], seq!['{', '\n']);
    let o1 = head + seq![' '] + seq!['{', '\n'];
    assert(open_block(head, 0) == o1);
    // the module's scope holds just the struct, one step in
    assert(imports_text(m.scope.imports@) =~= e);
    lemma_put_zero(o1, e);
    assert(o1 + e =~= o1);
    assert(m.scope.items@.drop_last() =~= Seq::<Item>::empty());
    assert(items_out(m.scope.items@.drop_last(), o1, 4) == o1);
    assert(scope_out(m.scope, o1, 4) == struct_out(s, o1, 4));
    lemma_named_struct(s, o1, 4);
    let h5 = struct_out(s, o1, 4);
    // the module's closing brace
    lemma_put_zero(h5, seq!['}', '\n']);
    assert(module_out(m, e, 0) == h5 + seq!['}', '\n']);
    assert(strip_newline(h5 + seq!['}', '\n']) =~= h5 + seq!['}']);
    assert(h5 + seq!['}'] =~= "mod "@ + mn + " {\n"@ + spaces(4) + "struct "@ + type_text(s.type_def.ty)
        + " {\n"@ + indented_fields(named_of(s.fields), 8) + spaces(4) + "}\n"@ + "}"@);
}

} // verus!
