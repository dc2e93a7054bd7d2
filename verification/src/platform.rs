//! The operating systems that the tools are installed and started on.

use vstd::prelude::*;

verus! {

/// The operating system the program runs on. Everything that is not Windows
/// or macOS is treated as Linux.
#[derive(Debug, Clone, Copy, PartialEq, Eq, Structural)]
pub enum Platform {
    Windows,
    MacOs,
    Linux,
}

/// Where a tool is looked for.
#[derive(Debug, Clone, PartialEq, Eq)]
pub enum ToolPath {
    /// The file of this name inside the application's own data directory.
    InAppDir(String),
    /// The file at this path.
    At(String),
    /// Whatever the system finds under this name on its search path.
    OnSearchPath(String),
}

/// A `ToolPath` as a mathematical value.
pub enum ToolPathView {
    InAppDir(Seq<char>),
    At(Seq<char>),
    OnSearchPath(Seq<char>),
}

impl View for ToolPath {
    type V = ToolPathView;

    open spec fn view(&self) -> ToolPathView {
        match self {
            ToolPath::InAppDir(name) => ToolPathView::InAppDir(name@),
            ToolPath::At(path) => ToolPathView::At(path@),
            ToolPath::OnSearchPath(name) => ToolPathView::OnSearchPath(name@),
        }
    }
}

} // verus!
