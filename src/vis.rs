use vstd::prelude::*;
use crate::formatter::{put, Formatter, lemma_put_concat};

verus! {

/// Visibility of an item.
#[derive(Debug, Clone, Copy, PartialEq, Eq, Structural)]
pub enum Vis {
    /// No modifier.
    Private,
    /// `pub`
    Pub,
    /// `pub(crate)`
    PubCrate,
    /// `pub(super)`
    PubSuper,
}

/// The modifier's word, if any.
pub open spec fn vis_word(v: Vis) -> Option<Seq<char>> {
    match v {
        Vis::Private => None,
        Vis::Pub => Some("pub"@),
        Vis::PubCrate => Some("pub(crate)"@),
        Vis::PubSuper => Some("pub(super)"@),
    }
}

/// How the modifier is written before an item: its word and a space, or nothing.
pub open spec fn vis_text(v: Vis) -> Seq<char> {
    match vis_word(v) {
        None => Seq::empty(),
        Some(w) => w + " "@,
    }
}

impl Default for Vis {
    /// The private visibility.
    fn default() -> (r: Vis)
        ensures
            r == Vis::Private,
    {
        Vis::Private
    }
}

impl Vis {
    /// The modifier's word, or `None` for a private item.
    pub fn vis_string(&self) -> (r: Option<&'static str>)
        ensures
            r.is_some() == vis_word(*self).is_some(),
            r.is_some() ==> r.unwrap()@ == vis_word(*self).unwrap(),
    {
        match self {
            Vis::Private => None,
            Vis::Pub => Some("pub"),
            Vis::PubCrate => Some("pub(crate)"),
            Vis::PubSuper => Some("pub(super)"),
        }
    }

    /// Writes the modifier and a space, or nothing for a private item.
    pub fn fmt(&self, fmt: &mut Formatter)
        ensures
            final(fmt).indentation() == old(fmt).indentation(),
            final(fmt).text() == put(old(fmt).text(), old(fmt).indentation(), vis_text(*self)),
    {
        let ghost b0 = fmt.text();
        let ghost ind = fmt.indentation();
        match self.vis_string() {
            Some(w) => {
                fmt.write_str(w);
                fmt.write_str(" ");
                proof {
                    lemma_put_concat(b0, ind, w@, " "@);
                }
            }
            None => {}
        }
    }
}

} // verus!
