use vstd::prelude::*;
use crate::text::{chars_of, is_digit, all_digits};

verus! {

/// A phone number holds a character that is not a digit.
#[derive(Debug, PartialEq, Eq)]
pub struct PhoneError {
    /// The first such character.
    pub ch: char,
    /// Its position, counted in characters.
    pub index: usize,
}

/// The position of the first character of `s` that is not a digit, if any.
pub open spec fn first_non_digit(s: Seq<char>) -> Option<int>
    decreases s.len(),
{
    if s.len() == 0 {
        None
    } else if !is_digit(s[0]) {
        Some(0)
    } else {
        match first_non_digit(s.drop_first()) {
            Some(k) => Some(k + 1),
            None => None,
        }
    }
}

proof fn lemma_first_non_digit(s: Seq<char>, k: int)
    requires
        0 <= k <= s.len(),
        forall|i: int| 0 <= i < k ==> #[trigger] is_digit(s[i]),
        k < s.len() ==> !is_digit(s[k]),
    ensures
        first_non_digit(s) == (if k < s.len() { Some(k) } else { None::<int> }),
    decreases k,
{
    if k > 0 {
        assert(is_digit(s[0]));
        assert forall|i: int| 0 <= i < k - 1 implies #[trigger] is_digit(s.drop_first()[i]) by {
            assert(s.drop_first()[i] == s[i + 1]);
        }
        lemma_first_non_digit(s.drop_first(), k - 1);
    }
}

/// Accepts a phone number made of ASCII digits only, and names the first
/// character that is not one.
pub fn phone_validator(value: String) -> (r: Result<String, PhoneError>)
    ensures
        match first_non_digit(value@) {
            None => r matches Ok(v) && v@ == value@,
            Some(k) => r matches Err(e) && e.index == k && e.ch == value@[k],
        },
        r is Ok <==> all_digits(value@),
{
    let v = chars_of(value.as_str());
    let mut i: usize = 0;
    while i < v.len()
        invariant
            i <= v@.len(),
            v@ == value@,
            forall|k: int| 0 <= k < i ==> #[trigger] is_digit(v@[k]),
        decreases v.len() - i,
    {
        let c = v[i];
        let u: u32 = c as u32;
        if !(48 <= u && u <= 57) {
            proof {
                lemma_first_non_digit(value@, i as int);
            }
            return Err(PhoneError { ch: c, index: i });
        }
        i = i + 1;
    }
    proof {
        lemma_first_non_digit(value@, i as int);
    }
    Ok(value)
}

} // verus!
