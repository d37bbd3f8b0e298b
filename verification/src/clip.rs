//! The in-app clipboard: a stack of cut or copied items.

use vstd::prelude::*;

use crate::data::TodoItem;

verus! {

/// Cut and copied items; the last one in is the first pasted.
pub struct Clipboard {
    items: Vec<TodoItem>,
}

impl View for Clipboard {
    type V = Seq<TodoItem>;

    closed spec fn view(&self) -> Seq<TodoItem> {
        self.items@
    }
}

impl Default for Clipboard {
    fn default() -> (r: Self)
        ensures
            r@ == Seq::<TodoItem>::empty(),
    {
        Clipboard::new()
    }
}

impl Clipboard {
    /// An empty clipboard.
    pub fn new() -> (r: Self)
        ensures
            r@ == Seq::<TodoItem>::empty(),
    {
        Clipboard { items: Vec::new() }
    }

    /// Keeps a cut item.
    pub fn cut(&mut self, item: TodoItem)
        ensures
            final(self)@ == old(self)@.push(item),
    {
        self.items.push(item);
    }

    /// Keeps a copied item.
    pub fn copy(&mut self, item: TodoItem)
        ensures
            final(self)@ == old(self)@.push(item),
    {
        self.items.push(item);
    }

    /// Hands back the item kept last.
    pub fn paste(&mut self) -> (r: Option<TodoItem>)
        ensures
            old(self)@.len() == 0 ==> r is None && final(self)@ == old(self)@,
            old(self)@.len() > 0 ==> r == Some(old(self)@.last()) && final(self)@ == old(
                self,
            )@.drop_last(),
    {
        self.items.pop()
    }

    /// Whether anything is kept.
    pub fn has_items(&self) -> (r: bool)
        ensures
            r == (self@.len() > 0),
    {
        !self.items.is_empty()
    }

    /// Forgets every kept item.
    pub fn clear(&mut self)
        ensures
            final(self)@ == Seq::<TodoItem>::empty(),
    {
        self.items.clear();
    }
}

/// The last item cut or copied is the first pasted, and the clipboard is
/// then as it was before.
pub proof fn law_clipboard_last_in_first_out(before: Seq<TodoItem>, item: TodoItem, after: Seq<TodoItem>, r: Option<TodoItem>)
    requires
        after.len() > 0 ==> r == Some(after.last()),
        after == before.push(item),
    ensures
        r == Some(item),
        after.drop_last() == before,
{
    assert(after.drop_last() =~= before);
}

} // verus!
