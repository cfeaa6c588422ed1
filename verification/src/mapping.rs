use vstd::prelude::*;

verus! {

/// Applies `f` to every element of `vec`, in order, and collects the results.
pub fn process_vector<F>(vec: Vec<i32>, f: F) -> (result: Vec<i32>)
    where
        F: Fn(i32) -> i32,
    requires
        forall|i: int| 0 <= i < vec.len() ==> f.requires((#[trigger] vec@[i],)),
    ensures
        result.len() == vec.len(),
        forall|i: int| 0 <= i < vec.len() ==> f.ensures((vec@[i],), #[trigger] result@[i]),
{
    let mut result: Vec<i32> = Vec::new();
    let mut k: usize = 0;
    while k < vec.len()
        invariant
            k <= vec.len(),
            result.len() == k,
            forall|i: int| 0 <= i < vec.len() ==> f.requires((#[trigger] vec@[i],)),
            forall|i: int| 0 <= i < k ==> f.ensures((vec@[i],), #[trigger] result@[i]),
        decreases vec.len() - k,
    {
        let value = vec[k];
        result.push(f(value));
        k = k + 1;
    }
    result
}

} // verus!
