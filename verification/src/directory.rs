//! The investment directory: the records the remote service lists, and
//! resolving a user-supplied code to the service's numeric id.

use vstd::prelude::*;
use crate::numbers::{spec_dec_digits, u32_to_string};

verus! {

/// One custom investment as the remote directory lists it.
pub struct CustomInvestment {
    /// The service-assigned numeric id.
    pub id: u32,
    /// The user-chosen short code.
    pub code: String,
    /// The display name.
    pub name: String,
}

/// The id of the first record whose code is exactly `code`, scanning the
/// directory in order; `None` when no record matches.
pub open spec fn spec_resolve(list: Seq<CustomInvestment>, code: Seq<char>) -> Option<u32>
    decreases list.len(),
{
    if list.len() == 0 {
        None
    } else if list[0].code@ == code {
        Some(list[0].id)
    } else {
        spec_resolve(list.skip(1), code)
    }
}

/// Resolves `code` to the id of the first directory entry whose code
/// equals it exactly (case-sensitive); `None` when no entry matches.
pub fn resolve_id_by_code(list: &Vec<CustomInvestment>, code: &str) -> (r: Option<u32>)
    ensures
        r == spec_resolve(list@, code@),
{
    let wanted: String = code.to_owned();
    let n = list.len();
    let mut i: usize = 0;
    proof {
        assert(list@.skip(0) =~= list@);
    }
    while i < n
        invariant
            0 <= i <= n == list@.len(),
            wanted@ == code@,
            spec_resolve(list@.skip(i as int), code@) == spec_resolve(list@, code@),
        decreases n - i,
    {
        proof {
            assert(list@.skip(i as int).skip(1) =~= list@.skip(i as int + 1));
            assert(list@.skip(i as int)[0] == list@[i as int]);
        }
        if list[i].code == wanted {
            return Some(list[i].id);
        }
        i = i + 1;
    }
    proof {
        assert(list@.skip(n as int) =~= Seq::<CustomInvestment>::empty());
    }
    None
}

/// Resolution finds exactly the first match: it returns `None` when no
/// entry's code equals the wanted one, and otherwise the id of the
/// matching entry all of whose predecessors do not match.
pub proof fn lemma_resolve_first_match(list: Seq<CustomInvestment>, code: Seq<char>)
    ensures
        (spec_resolve(list, code) is None) <==> (forall|i: int|
            0 <= i < list.len() ==> list[i].code@ != code),
        (spec_resolve(list, code) is Some) ==> exists|i: int|
            {
                &&& 0 <= i < list.len()
                &&& list[i].code@ == code
                &&& list[i].id == spec_resolve(list, code)->Some_0
                &&& forall|j: int| 0 <= j < i ==> list[j].code@ != code
            },
    decreases list.len(),
{
    if list.len() == 0 {
    } else if list[0].code@ == code {
        assert({
            &&& 0 <= 0 < list.len()
            &&& list[0].code@ == code
            &&& list[0].id == spec_resolve(list, code)->Some_0
            &&& forall|j: int| 0 <= j < 0 ==> list[j].code@ != code
        });
    } else {
        lemma_resolve_first_match(list.skip(1), code);
        assert forall|i: int| 0 <= i < list.skip(1).len() implies list.skip(1)[i]
            == list[i + 1] by {}
        if spec_resolve(list, code) is None {
            assert forall|i: int| 0 <= i < list.len() implies list[i].code@ != code by {
                if i > 0 {
                    assert(list.skip(1)[i - 1] == list[i]);
                    assert(list.skip(1)[i - 1].code@ != code);
                }
            }
        } else {
            let id = spec_resolve(list, code)->Some_0;
            let i0 = choose|i: int|
                {
                    &&& 0 <= i < list.skip(1).len()
                    &&& list.skip(1)[i].code@ == code
                    &&& list.skip(1)[i].id == id
                    &&& forall|j: int| 0 <= j < i ==> list.skip(1)[j].code@ != code
                };
            assert forall|j: int| 0 <= j < i0 + 1 implies list[j].code@ != code by {
                if j > 0 {
                    assert(list.skip(1)[j - 1].code@ != code);
                }
            }
            assert({
                &&& 0 <= i0 + 1 < list.len()
                &&& list[i0 + 1].code@ == code
                &&& list[i0 + 1].id == id
                &&& forall|j: int| 0 <= j < i0 + 1 ==> list[j].code@ != code
            });
        }
    }
}

/// One line of the `list` output: the id, code and name of an investment,
/// separated by tabs.
pub fn investment_line(ci: &CustomInvestment) -> (r: String)
    ensures
        r@ == spec_dec_digits(ci.id as nat) + "\t"@ + ci.code@ + "\t"@ + ci.name@,
{
    let mut line = u32_to_string(ci.id);
    line.append("\t");
    line.append(ci.code.as_str());
    line.append("\t");
    line.append(ci.name.as_str());
    line
}

} // verus!
