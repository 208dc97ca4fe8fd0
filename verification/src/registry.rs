//! The registry: the extracted blocks in their order, looked up by file name.

use vstd::prelude::*;
use crate::block::{CodeBlock, CodeBlockView};

verus! {

/// No block of the registry has the file name that was asked for.
#[derive(Debug, PartialEq, Eq)]
pub struct BlockNotFound {
    /// The file name that was asked for.
    pub filename: String,
}

/// Whether `block` declares the file name `name`.
pub open spec fn is_named(block: CodeBlockView, name: Seq<char>) -> bool {
    block.filename == Some(name)
}

/// Whether some block of `blocks` declares the file name `name`.
pub open spec fn has_named(blocks: Seq<CodeBlockView>, name: Seq<char>) -> bool {
    exists|i: int| 0 <= i < blocks.len() && is_named(#[trigger] blocks[i], name)
}

/// Whether the block at `i` is the first of `blocks` that declares the file
/// name `name`.
pub open spec fn is_first_named(blocks: Seq<CodeBlockView>, name: Seq<char>, i: int) -> bool {
    &&& 0 <= i < blocks.len()
    &&& is_named(blocks[i], name)
    &&& forall|j: int| 0 <= j < i ==> !is_named(#[trigger] blocks[j], name)
}

/// The blocks of one or more documents, in the order of their extraction.
pub struct BlockRegistry {
    blocks: Vec<CodeBlock>,
}

impl View for BlockRegistry {
    type V = Seq<CodeBlockView>;

    closed spec fn view(&self) -> Seq<CodeBlockView> {
        self.blocks.deep_view()
    }
}

impl BlockRegistry {
    /// The registry of `blocks`, in their order.
    pub fn new(blocks: Vec<CodeBlock>) -> (registry: Self)
        ensures
            registry@ == blocks.deep_view(),
    {
        BlockRegistry { blocks }
    }

    /// The number of blocks.
    pub fn len(&self) -> (n: usize)
        ensures
            n == self@.len(),
    {
        self.blocks.len()
    }

    /// The blocks, in their order.
    pub fn blocks(&self) -> (blocks: &Vec<CodeBlock>)
        ensures
            blocks.deep_view() == self@,
    {
        &self.blocks
    }

    /// The first block that declares the file name `name`. Where no block
    /// declares it, the lookup fails, and no block is handed out in its
    /// place.
    pub fn find_by_filename(&self, name: &str) -> (found: Result<&CodeBlock, BlockNotFound>)
        ensures
            found is Ok <==> has_named(self@, name@),
            found matches Ok(block) ==> exists|i: int|
                is_first_named(self@, name@, i) && block@ == self@[i],
            found matches Err(error) ==> error.filename@ == name@,
    {
        let wanted = name.to_owned();
        let mut i: usize = 0;
        while i < self.blocks.len()
            invariant
                i <= self.blocks.len(),
                wanted@ == name@,
                forall|j: int| 0 <= j < i ==> !is_named(#[trigger] self@[j], name@),
            decreases self.blocks.len() - i,
        {
            let block = &self.blocks[i];
            let hit = match &block.filename {
                Some(filename) => *filename == wanted,
                None => false,
            };
            if hit {
                assert(is_first_named(self@, name@, i as int));
                return Ok(block);
            }
            i += 1;
        }
        Err(BlockNotFound { filename: wanted })
    }
}

} // verus!
