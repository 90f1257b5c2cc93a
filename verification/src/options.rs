//! Embedding options and the module-loading mode they select.
//!
//! How the compiled module is fetched is environment policy, not marshaling
//! logic; the only decision made here is which loader the generated
//! preamble uses, and that the two explicit choices exclude each other.

use vstd::prelude::*;
use crate::errors::GenError;

verus! {

/// The generation options of the embedding.
#[derive(Clone, Copy, Debug, PartialEq, Eq, Structural, Default)]
pub struct Opts {
    /// Load the compiled module through the QuickJS `std` module instead
    /// of `fetch`.
    pub qjs: bool,
    /// Load the compiled module through the node.js `fs` module instead of
    /// `fetch`.
    pub node: bool,
}

/// Which loader preamble the generated source begins with.
#[derive(Clone, Copy, Debug, PartialEq, Eq, Structural)]
pub enum LoaderKind {
    /// The default: fetch the module relative to the generated source.
    Browser,
    /// Read the module from the filesystem with node.js.
    Node,
    /// Read the module from the filesystem with QuickJS.
    QuickJs,
}

impl Opts {
    /// Select the loader: the two explicit choices conflict; node.js wins
    /// over the default, QuickJS wins over the default, and neither set
    /// means the browser loader.
    pub fn select_loader(&self) -> (r: Result<LoaderKind, GenError>)
        ensures
            match r {
                Ok(l) => {
                    &&& !(self.qjs && self.node)
                    &&& l == LoaderKind::Node <==> (self.node && !self.qjs)
                    &&& l == LoaderKind::QuickJs <==> (self.qjs && !self.node)
                    &&& l == LoaderKind::Browser <==> (!self.qjs && !self.node)
                },
                Err(e) => {
                    &&& e == GenError::ConflictingOptions
                    &&& self.qjs && self.node
                },
            },
    {
        if self.qjs && self.node {
            Err(GenError::ConflictingOptions)
        } else if self.node {
            Ok(LoaderKind::Node)
        } else if self.qjs {
            Ok(LoaderKind::QuickJs)
        } else {
            Ok(LoaderKind::Browser)
        }
    }
}

} // verus!
