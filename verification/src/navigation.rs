//! The stack of pages the user has navigated through.

use vstd::prelude::*;

verus! {

/// The stack after `page` is pushed onto `pages`.
pub open spec fn pushed<P>(pages: Seq<P>, page: P) -> Seq<P> {
    pages.push(page)
}

/// The stack after a pop, and the page popped (none from an empty stack).
pub open spec fn popped<P>(pages: Seq<P>) -> (Seq<P>, Option<P>) {
    if pages.len() == 0 {
        (pages, None)
    } else {
        (pages.drop_last(), Some(pages.last()))
    }
}

/// The pages of a navigation history, the current one on top.
pub struct NavigationController<P> {
    pages: Vec<P>,
}

impl<P> View for NavigationController<P> {
    type V = Seq<P>;

    /// The pages, oldest first; the last is the current page.
    closed spec fn view(&self) -> Seq<P> {
        self.pages@
    }
}

impl<P> NavigationController<P> {
    /// A history holding only `init_page`.
    pub fn new(init_page: P) -> (nav: Self)
        ensures
            nav@ == seq![init_page],
    {
        let mut pages: Vec<P> = Vec::new();
        pages.push(init_page);
        assert(pages@ =~= seq![init_page]);
        NavigationController { pages }
    }

    /// Leaves every page, most recent first, and makes `page` the only one. Returns the
    /// pages left, in the order they were left.
    pub fn set_current_page(&mut self, page: P) -> (left: Vec<P>)
        ensures
            final(self)@ == seq![page],
            left@ == old(self)@.reverse(),
    {
        let mut left: Vec<P> = Vec::new();
        while self.pages.len() > 0
            invariant
                left@ + self.pages@.reverse() == old(self)@.reverse(),
            decreases self.pages@.len(),
        {
            let ghost before = self.pages@;
            let p = self.pages.pop().unwrap();
            proof {
                assert(before.reverse() =~= seq![p] + self.pages@.reverse());
            }
            left.push(p);
            assert(left@ + self.pages@.reverse() =~= old(self)@.reverse());
        }
        assert(self.pages@.reverse() =~= Seq::<P>::empty());
        assert(left@ =~= old(self)@.reverse());
        self.pages.push(page);
        assert(self.pages@ =~= seq![page]);
        left
    }

    /// Enters `page`, on top of the current one.
    pub fn push(&mut self, page: P)
        ensures
            final(self)@ == pushed(old(self)@, page),
    {
        self.pages.push(page);
    }

    /// Leaves the current page, returning it; nothing happens to an empty history.
    pub fn pop(&mut self) -> (page: Option<P>)
        ensures
            (final(self)@, page) == popped(old(self)@),
    {
        self.pages.pop()
    }

    /// The number of pages.
    pub fn len(&self) -> (n: usize)
        ensures
            n == self@.len(),
    {
        self.pages.len()
    }

    /// The current page.
    pub fn current_page(&self) -> (page: &P)
        requires
            self@.len() > 0,
        ensures
            *page == self@.last(),
    {
        let n = self.pages.len();
        &self.pages[n - 1]
    }

    /// All pages, oldest first, for changing them in place.
    pub fn pages_mut(&mut self) -> (pages: &mut Vec<P>)
        ensures
            pages@ == old(self)@,
            final(self)@ == final(pages)@,
    {
        &mut self.pages
    }
}

/// Popping undoes pushing: after `page` is pushed onto a history, a pop returns
/// `page` and leaves the history as it was.
pub proof fn law_pop_undoes_push<P>(pages: Seq<P>, page: P)
    ensures
        popped(pushed(pages, page)) == (pages, Some(page)),
{
    assert(pushed(pages, page).drop_last() =~= pages);
}

/// Pushing and then popping changes the number of pages by one each way.
pub proof fn law_push_pop_lengths<P>(pages: Seq<P>, page: P)
    ensures
        pushed(pages, page).len() == pages.len() + 1,
        pages.len() > 0 ==> popped(pages).0.len() == pages.len() - 1,
        pages.len() == 0 ==> popped(pages).0.len() == 0,
{
}

} // verus!
