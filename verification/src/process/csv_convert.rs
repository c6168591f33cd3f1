//! The rows of a table, field by field.

use vstd::prelude::*;

verus! {

/// Whether `pairs` join each header with the field below it, as far as
/// both lists reach.
pub open spec fn pairs_up(
    pairs: Seq<(String, String)>,
    headers: Seq<String>,
    record: Seq<String>,
) -> bool {
    &&& pairs.len() <= headers.len()
    &&& pairs.len() <= record.len()
    &&& pairs.len() == headers.len() || pairs.len() == record.len()
    &&& forall|i: int|
        0 <= i < pairs.len() ==> (#[trigger] pairs[i]).0@ == headers[i]@ && pairs[i].1@
            == record[i]@
}

/// Joins each header with the field of a record that stands below it. A
/// header without a field, or a field without a header, is left out.
pub fn pair_fields(headers: &Vec<String>, record: &Vec<String>) -> (pairs: Vec<(String, String)>)
    ensures
        pairs_up(pairs@, headers@, record@),
{
    let n: usize = if headers.len() <= record.len() {
        headers.len()
    } else {
        record.len()
    };
    let mut pairs: Vec<(String, String)> = Vec::new();
    let mut i: usize = 0;
    while i < n
        invariant
            i <= n,
            n <= headers.len(),
            n <= record.len(),
            pairs@.len() == i,
            forall|j: int|
                0 <= j < i ==> (#[trigger] pairs@[j]).0@ == headers@[j]@ && pairs@[j].1@
                    == record@[j]@,
        decreases n - i,
    {
        pairs.push((headers[i].clone(), record[i].clone()));
        i = i + 1;
    }
    pairs
}

} // verus!
