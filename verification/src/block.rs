use vstd::prelude::*;

verus! {

/// A compiled block: the translated statements of a function body, in order.
/// The scope engine only stores and hands these back; producing them is the
/// translation layer's work.
#[derive(Debug)]
pub struct Block {
    pub statements: Vec<String>,
}

/// The statements of `v` as character sequences, in order.
pub open spec fn strings_view(v: Seq<String>) -> Seq<Seq<char>> {
    v.map_values(|s: String| s@)
}

impl View for Block {
    type V = Seq<Seq<char>>;

    open spec fn view(&self) -> Seq<Seq<char>> {
        strings_view(self.statements@)
    }
}

impl Clone for Block {
    fn clone(&self) -> (r: Block)
        ensures
            r@ == self@,
    {
        let mut statements: Vec<String> = Vec::new();
        let mut i: usize = 0;
        while i < self.statements.len()
            invariant
                i <= self.statements.len(),
                statements@.len() == i,
                forall|j: int| 0 <= j < i ==> statements@[j]@ == self.statements@[j]@,
            decreases self.statements.len() - i,
        {
            statements.push(self.statements[i].clone());
            i = i + 1;
        }
        let r = Block { statements };
        proof {
            assert(r@ =~= self@);
        }
        r
    }
}

impl Block {
    /// An empty compiled block.
    pub fn new() -> (r: Block)
        ensures
            r@ == Seq::<Seq<char>>::empty(),
    {
        let r = Block { statements: Vec::new() };
        proof {
            assert(r@ =~= Seq::<Seq<char>>::empty());
        }
        r
    }
}

} // verus!
