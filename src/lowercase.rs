//! Strings without uppercase characters.

use vstd::prelude::*;

verus! {

/// Whether `c` is an uppercase character, as Unicode's `Uppercase` property
/// says.
pub uninterp spec fn is_uppercase(c: char) -> bool;

/// Relies on `char::is_uppercase`: whether the character has Unicode's
/// `Uppercase` property, which ASCII `A`..=`Z` have and `a`..=`z` do not.
#[verifier::external_body]
fn char_is_uppercase(c: char) -> (r: bool)
    ensures
        r == is_uppercase(c),
        ('A' <= c && c <= 'Z') ==> r,
        ('a' <= c && c <= 'z') ==> !r,
{
    c.is_uppercase()
}

/// Why a string is not accepted.
#[derive(Debug, PartialEq, Eq)]
pub enum LowercaseParsingError {
    /// The string has `len` characters, which its kind does not allow.
    BadLength { len: usize },
    /// The character at position `idx` of `value` is uppercase.
    IsNotLowercase { value: String, idx: usize },
}

/// A string with no uppercase character.
#[derive(Debug, Hash, PartialEq, Eq, PartialOrd, Ord)]
pub struct Lowercase {
    value: String,
}

impl View for Lowercase {
    type V = Seq<char>;

    closed spec fn view(&self) -> Seq<char> {
        self.value@
    }
}

impl Lowercase {
    /// `value`, which must not hold an uppercase character; the error names
    /// the first one.
    pub fn try_from(value: &str) -> (r: Result<Lowercase, LowercaseParsingError>)
        ensures
            r matches Ok(l) ==> l@ == value@,
            r is Ok <==> forall|i: int| 0 <= i < value@.len() ==> !is_uppercase(value@[i]),
            r matches Err(LowercaseParsingError::IsNotLowercase { value: v, idx }) ==> {
                &&& v@ == value@
                &&& idx < value@.len()
                &&& is_uppercase(value@[idx as int])
                &&& forall|i: int| 0 <= i < idx ==> !is_uppercase(value@[i])
            },
            !(r matches Err(LowercaseParsingError::BadLength { .. })),
    {
        let n = value.unicode_len();
        let mut i: usize = 0;
        while i < n
            invariant
                n == value@.len(),
                i <= n,
                forall|j: int| 0 <= j < i ==> !is_uppercase(value@[j]),
            decreases n - i,
        {
            if char_is_uppercase(value.get_char(i)) {
                return Err(LowercaseParsingError::IsNotLowercase { value: value.to_owned(), idx: i });
            }
            i += 1;
        }
        Ok(Lowercase { value: value.to_owned() })
    }

    pub fn as_str(&self) -> (r: &str)
        ensures
            r@ == self@,
    {
        self.value.as_str()
    }
}

} // verus!
