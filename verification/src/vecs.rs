//! Vector edits stated over the vectors' deep views.
use vstd::prelude::*;

verus! {

/// `v.push(x)`.
pub fn push_deep<T: DeepView>(v: &mut Vec<T>, x: T)
    ensures
        final(v).deep_view() == old(v).deep_view().push(x.deep_view()),
        final(v)@.len() == old(v)@.len() + 1,
{
    let ghost xv = x.deep_view();
    let ghost ov = v.deep_view();
    v.push(x);
    assert(v.deep_view() =~= ov.push(xv)) by {
        assert forall|j: int| 0 <= j < v@.len() implies v.deep_view()[j] == ov.push(xv)[j] by {
            if j < ov.len() {
                assert(v.deep_view()[j] == v@[j].deep_view());
            }
        }
    }
}

/// `v.insert(i, x)`.
pub fn insert_deep<T: DeepView>(v: &mut Vec<T>, i: usize, x: T)
    requires
        i <= old(v).len(),
    ensures
        final(v).deep_view() == old(v).deep_view().insert(i as int, x.deep_view()),
        final(v)@.len() == old(v)@.len() + 1,
{
    let ghost xv = x.deep_view();
    let ghost ov = v.deep_view();
    v.insert(i, x);
    assert(v.deep_view() =~= ov.insert(i as int, xv)) by {
        assert forall|j: int| 0 <= j < v@.len() implies v.deep_view()[j] == ov.insert(i as int, xv)[j] by {
            if j < i {
                assert(v.deep_view()[j] == v@[j].deep_view());
            } else if j > i {
                assert(v.deep_view()[j] == v@[j].deep_view());
                assert(ov[j - 1] == old(v)@[j - 1].deep_view());
            }
        }
    }
}

/// `v.remove(i)`.
pub fn remove_deep<T: DeepView>(v: &mut Vec<T>, i: usize) -> (x: T)
    requires
        i < old(v).len(),
    ensures
        x.deep_view() == old(v).deep_view()[i as int],
        final(v).deep_view() == old(v).deep_view().remove(i as int),
        final(v)@.len() == old(v)@.len() - 1,
{
    let ghost ov = v.deep_view();
    let x = v.remove(i);
    assert(v.deep_view() =~= ov.remove(i as int)) by {
        assert forall|j: int| 0 <= j < v@.len() implies v.deep_view()[j] == ov.remove(i as int)[j] by {
            if j < i {
                assert(v.deep_view()[j] == v@[j].deep_view());
            } else {
                assert(v.deep_view()[j] == v@[j].deep_view());
                assert(ov[j + 1] == old(v)@[j + 1].deep_view());
            }
        }
    }
    x
}

/// Replaces element `i` of `v` by `x` and returns the element that was there.
pub fn replace_deep<T: DeepView>(v: &mut Vec<T>, i: usize, x: T) -> (old_x: T)
    requires
        i < old(v).len(),
    ensures
        old_x.deep_view() == old(v).deep_view()[i as int],
        final(v).deep_view() == old(v).deep_view().update(i as int, x.deep_view()),
        final(v)@.len() == old(v)@.len(),
{
    let ghost ov = v.deep_view();
    let ghost xv = x.deep_view();
    let old_x = remove_deep(v, i);
    insert_deep(v, i, x);
    assert(ov.remove(i as int).insert(i as int, xv) =~= ov.update(i as int, xv));
    old_x
}

} // verus!
