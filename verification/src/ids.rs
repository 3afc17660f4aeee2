//! Lists of application IDs.
use vstd::prelude::*;

verus! {

/// The list without any occurrence of `id`, the others in their order.
pub open spec fn retain_other(s: Seq<Seq<char>>, id: Seq<char>) -> Seq<Seq<char>>
    decreases s.len(),
{
    if s.len() == 0 {
        Seq::empty()
    } else if s.last() == id {
        retain_other(s.drop_last(), id)
    } else {
        retain_other(s.drop_last(), id).push(s.last())
    }
}

/// `id` occurs in the list.
pub open spec fn has_id(s: Seq<Seq<char>>, id: Seq<char>) -> bool {
    exists|i: int| 0 <= i < s.len() && s[i] == id
}

/// The list with `id` appended unless it already occurs.
pub open spec fn push_absent(s: Seq<Seq<char>>, id: Seq<char>) -> Seq<Seq<char>> {
    if has_id(s, id) { s } else { s.push(id) }
}

/// The abstract value of a list of IDs.
pub open spec fn id_list(v: Seq<String>) -> Seq<Seq<char>> {
    Seq::new(v.len(), |i: int| v[i]@)
}

pub proof fn lemma_retain_other(s: Seq<Seq<char>>, id: Seq<char>)
    ensures
        !has_id(retain_other(s, id), id),
        forall|x: Seq<char>| x != id ==> (has_id(retain_other(s, id), x) <==> has_id(s, x)),
        retain_other(s, id).len() <= s.len(),
    decreases s.len(),
{
    if s.len() > 0 {
        let r = retain_other(s.drop_last(), id);
        lemma_retain_other(s.drop_last(), id);
        assert forall|x: Seq<char>| has_id(s, x) <==> (has_id(s.drop_last(), x) || s.last() == x) by {
            if has_id(s, x) {
                let i = choose|i: int| 0 <= i < s.len() && s[i] == x;
                if i < s.len() - 1 {
                    assert(s.drop_last()[i] == x);
                }
            }
            if has_id(s.drop_last(), x) {
                let i = choose|i: int| 0 <= i < s.drop_last().len() && s.drop_last()[i] == x;
                assert(s[i] == x);
            }
            if s.last() == x {
                assert(s[s.len() - 1] == x);
            }
        }
        if s.last() != id {
            assert forall|x: Seq<char>| has_id(r.push(s.last()), x) <==> (has_id(r, x) || s.last() == x) by {
                if has_id(r.push(s.last()), x) {
                    let i = choose|i: int| 0 <= i < r.len() + 1 && r.push(s.last())[i] == x;
                    if i < r.len() {
                        assert(r[i] == x);
                    }
                }
                if has_id(r, x) {
                    let i = choose|i: int| 0 <= i < r.len() && r[i] == x;
                    assert(r.push(s.last())[i] == x);
                }
                if s.last() == x {
                    assert(r.push(s.last())[r.len() as int] == x);
                }
            }
        }
    }
}

/// Whether `id` occurs in `v`.
pub fn contains_id(v: &Vec<String>, id: &String) -> (r: bool)
    ensures
        r == has_id(id_list(v@), id@),
{
    let n = v.len();
    let mut i: usize = 0;
    while i < n
        invariant
            n == v.len(),
            i <= n,
            forall|j: int| 0 <= j < i ==> v@[j]@ != id@,
        decreases n - i,
    {
        if v[i] == *id {
            assert(id_list(v@)[i as int] == id@);
            return true;
        }
        i = i + 1;
    }
    proof {
        if has_id(id_list(v@), id@) {
            let j = choose|j: int| 0 <= j < id_list(v@).len() && id_list(v@)[j] == id@;
            assert(v@[j]@ == id@);
        }
    }
    false
}

/// `v` without any occurrence of `id`; the others keep their order.
pub fn retain_other_ids(v: Vec<String>, id: &String) -> (r: Vec<String>)
    ensures
        id_list(r@) == retain_other(id_list(v@), id@),
{
    let mut r: Vec<String> = Vec::new();
    let n = v.len();
    let mut i: usize = 0;
    while i < n
        invariant
            n == v.len(),
            i <= n,
            id_list(r@) == retain_other(id_list(v@).take(i as int), id@),
        decreases n - i,
    {
        let ghost before = id_list(r@);
        assert(id_list(v@).take(i + 1).drop_last() =~= id_list(v@).take(i as int));
        if !(v[i] == *id) {
            r.push(v[i].clone());
            assert(id_list(r@) =~= before.push(v@[i as int]@));
        }
        i = i + 1;
    }
    assert(id_list(v@).take(n as int) =~= id_list(v@));
    r
}

} // verus!
