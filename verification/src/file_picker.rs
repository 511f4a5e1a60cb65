//! Picking folders: a path typed in, with `~` for the home directory.
use crate::text::{copy_string, owned, str_eq, views};
use vstd::prelude::*;

verus! {

/// The components of a path, with each `~` component standing for the home directory.
pub open spec fn home_expanded(components: Seq<Seq<char>>, home: Seq<char>) -> Seq<Seq<char>> {
    components.map_values(|c: Seq<char>| if c == "~"@ { home } else { c })
}

/// The components of a picked path with every `~` component replaced by the
/// home directory, before the path is made canonical.
pub fn expand_home(components: &Vec<String>, home: &str) -> (r: Vec<String>)
    ensures
        views(r@) == home_expanded(views(components@), home@),
{
    let ghost cv = views(components@);
    let mut r: Vec<String> = Vec::new();
    let mut i: usize = 0;
    while i < components.len()
        invariant
            i <= components.len(),
            cv == views(components@),
            views(r@) == home_expanded(cv.take(i as int), home@),
        decreases components.len() - i,
    {
        let part = if str_eq(components[i].as_str(), "~") {
            owned(home)
        } else {
            copy_string(&components[i])
        };
        let ghost before = r@;
        r.push(part);
        assert(views(r@) =~= views(before).push(part@));
        assert(home_expanded(cv.take(i + 1), home@) =~= home_expanded(cv.take(i as int), home@).push(
            if cv[i as int] == "~"@ { home@ } else { cv[i as int] },
        ));
        i = i + 1;
    }
    assert(cv.take(components.len() as int) =~= cv);
    r
}

} // verus!
