//! Ways to name the columns that an operation works on.

use vstd::prelude::*;

verus! {

/// The names as sequences of characters.
pub open spec fn names_view(names: Seq<&str>) -> Seq<Seq<char>> {
    Seq::new(names.len(), |k: int| names[k]@)
}

/// A selection of columns by name: one name, or several in a vector or a
/// tuple.
pub trait Selection<'a> {
    /// The names of the selection, in order.
    spec fn names(self) -> Seq<Seq<char>>;

    fn to_selection_vec(self) -> (r: Vec<&'a str>)
        ensures
            names_view(r@) == self.names(),
    ;
}

impl<'a> Selection<'a> for &'a str {
    open spec fn names(self) -> Seq<Seq<char>> {
        seq![self@]
    }

    fn to_selection_vec(self) -> (r: Vec<&'a str>) {
        let mut r: Vec<&'a str> = Vec::new();
        r.push(self);
        assert(names_view(r@) =~= seq![self@]);
        r
    }
}

impl<'a> Selection<'a> for &'a String {
    open spec fn names(self) -> Seq<Seq<char>> {
        seq![self@]
    }

    fn to_selection_vec(self) -> (r: Vec<&'a str>) {
        let mut r: Vec<&'a str> = Vec::new();
        r.push(self.as_str());
        assert(names_view(r@) =~= seq![self@]);
        r
    }
}

impl<'a> Selection<'a> for Vec<&'a str> {
    open spec fn names(self) -> Seq<Seq<char>> {
        names_view(self@)
    }

    fn to_selection_vec(self) -> (r: Vec<&'a str>) {
        self
    }
}

impl<'a> Selection<'a> for &'a Vec<String> {
    open spec fn names(self) -> Seq<Seq<char>> {
        Seq::new(self@.len(), |k: int| self@[k]@)
    }

    fn to_selection_vec(self) -> (r: Vec<&'a str>) {
        let mut r: Vec<&'a str> = Vec::with_capacity(self.len());
        let mut k: usize = 0;
        while k < self.len()
            invariant
                k <= self.len(),
                r.len() == k,
                forall|j: int| 0 <= j < k ==> (#[trigger] r[j])@ == self@[j]@,
            decreases self.len() - k,
        {
            r.push(self[k].as_str());
            k += 1;
        }
        assert(names_view(r@) =~= self.names());
        r
    }
}

impl<'a> Selection<'a> for (&'a str, &'a str) {
    open spec fn names(self) -> Seq<Seq<char>> {
        seq![self.0@, self.1@]
    }

    fn to_selection_vec(self) -> (r: Vec<&'a str>) {
        let mut r: Vec<&'a str> = Vec::new();
        r.push(self.0);
        r.push(self.1);
        assert(names_view(r@) =~= seq![self.0@, self.1@]);
        r
    }
}

impl<'a> Selection<'a> for (&'a str, &'a str, &'a str) {
    open spec fn names(self) -> Seq<Seq<char>> {
        seq![self.0@, self.1@, self.2@]
    }

    fn to_selection_vec(self) -> (r: Vec<&'a str>) {
        let mut r: Vec<&'a str> = Vec::new();
        r.push(self.0);
        r.push(self.1);
        r.push(self.2);
        assert(names_view(r@) =~= seq![self.0@, self.1@, self.2@]);
        r
    }
}

} // verus!
