use vstd::prelude::*;

verus! {

/// A UI node that holds a text box.
pub struct TextBoxNode<TextBox> {
    tbox: TextBox,
}

impl<TextBox> TextBoxNode<TextBox> {
    /// The text box this node holds.
    pub closed spec fn text_box(&self) -> TextBox {
        self.tbox
    }

    /// A node that holds `tbox`.
    pub fn new(tbox: TextBox) -> (node: Self)
        ensures
            node.text_box() == tbox,
    {
        Self { tbox }
    }
}

} // verus!
