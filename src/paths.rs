//! Paths as sequences of components.
//!
//! A path is held as the list of its components (`["home", "me", ".bashrc"]`),
//! so that two paths are equal exactly when their components are, with no
//! normalisation of any kind.
use vstd::prelude::*;

verus! {

/// The components of a path, as character sequences.
pub open spec fn comps(p: Seq<String>) -> Seq<Seq<char>> {
    p.map_values(|s: String| s@)
}

/// A copy of a path.
pub fn copy_path(p: &Vec<String>) -> (r: Vec<String>)
    ensures
        comps(r@) == comps(p@),
{
    let mut r: Vec<String> = Vec::new();
    let mut i: usize = 0;
    while i < p.len()
        invariant
            i <= p.len(),
            r@.len() == i,
            forall|k: int| 0 <= k < i ==> r@[k]@ == p@[k]@,
        decreases p.len() - i,
    {
        r.push(p[i].clone());
        i = i + 1;
    }
    assert(comps(r@) =~= comps(p@));
    r
}

/// The path `a` followed by the components of `b`.
pub fn join_path(a: &Vec<String>, b: &Vec<String>) -> (r: Vec<String>)
    ensures
        comps(r@) == comps(a@) + comps(b@),
{
    let mut r = copy_path(a);
    let mut i: usize = 0;
    while i < b.len()
        invariant
            i <= b.len(),
            comps(r@) == comps(a@) + comps(b@).take(i as int),
        decreases b.len() - i,
    {
        r.push(b[i].clone());
        assert(comps(a@) + comps(b@).take(i + 1) =~= (comps(a@) + comps(b@).take(i as int)).push(
            b@[i as int]@,
        ));
        assert(comps(r@) =~= comps(a@) + comps(b@).take(i + 1));
        i = i + 1;
    }
    assert(comps(b@).take(b@.len() as int) =~= comps(b@));
    r
}

/// The path `a` with one more component at its end.
pub fn child_path(a: &Vec<String>, name: &String) -> (r: Vec<String>)
    ensures
        comps(r@) == comps(a@).push(name@),
{
    let mut r = copy_path(a);
    r.push(name.clone());
    assert(comps(r@) =~= comps(a@).push(name@));
    r
}

/// Whether two paths have the same components.
pub fn same_path(a: &Vec<String>, b: &Vec<String>) -> (r: bool)
    ensures
        r == (comps(a@) == comps(b@)),
{
    if a.len() != b.len() {
        assert(comps(a@).len() != comps(b@).len());
        return false;
    }
    let mut i: usize = 0;
    while i < a.len()
        invariant
            i <= a.len(),
            a@.len() == b@.len(),
            forall|k: int| 0 <= k < i ==> a@[k]@ == b@[k]@,
        decreases a.len() - i,
    {
        if a[i] != b[i] {
            assert(comps(a@)[i as int] != comps(b@)[i as int]);
            return false;
        }
        i = i + 1;
    }
    assert(comps(a@) =~= comps(b@));
    true
}

} // verus!
