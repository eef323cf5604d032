//! Legacy axis names: a string of distinct letters among `c`, `z`, `y`, `x`.

use vstd::prelude::*;

verus! {

/// One legacy axis letter.
#[derive(Clone, Copy, Debug, PartialEq, Eq, Structural, PartialOrd, Ord, Hash)]
pub enum AxisLetterName {
    C,
    Z,
    Y,
    X,
}

/// Why a string is not a list of legacy axis letters.
#[derive(Clone, Copy, Debug, PartialEq, Eq, Structural)]
pub enum LegacyAxisIdParsingError {
    /// The character is not an axis letter.
    Invalid { character: char },
    /// The letter appears more than once.
    Repeated(AxisLetterName),
}

/// The letter that `c` names, if any.
pub open spec fn letter_of(c: char) -> Option<AxisLetterName> {
    if c == 'c' {
        Some(AxisLetterName::C)
    } else if c == 'z' {
        Some(AxisLetterName::Z)
    } else if c == 'y' {
        Some(AxisLetterName::Y)
    } else if c == 'x' {
        Some(AxisLetterName::X)
    } else {
        None
    }
}

pub open spec fn char_of(l: AxisLetterName) -> char {
    match l {
        AxisLetterName::C => 'c',
        AxisLetterName::Z => 'z',
        AxisLetterName::Y => 'y',
        AxisLetterName::X => 'x',
    }
}

impl TryFrom<char> for AxisLetterName {
    type Error = LegacyAxisIdParsingError;

    fn try_from(c: char) -> (r: Result<AxisLetterName, LegacyAxisIdParsingError>) {
        if c == 'c' {
            Ok(AxisLetterName::C)
        } else if c == 'z' {
            Ok(AxisLetterName::Z)
        } else if c == 'y' {
            Ok(AxisLetterName::Y)
        } else if c == 'x' {
            Ok(AxisLetterName::X)
        } else {
            Err(LegacyAxisIdParsingError::Invalid { character: c })
        }
    }
}

impl vstd::std_specs::convert::TryFromSpecImpl<char> for AxisLetterName {
    open spec fn obeys_try_from_spec() -> bool {
        true
    }

    open spec fn try_from_spec(c: char) -> Result<AxisLetterName, LegacyAxisIdParsingError> {
        match letter_of(c) {
            Some(l) => Ok(l),
            None => Err(LegacyAxisIdParsingError::Invalid { character: c }),
        }
    }
}

impl AxisLetterName {
    /// The letter as a one-character string.
    pub fn to_text(&self) -> (r: String)
        ensures
            r@ == seq![char_of(*self)],
    {
        let r = match self {
            AxisLetterName::C => "c".to_owned(),
            AxisLetterName::Z => "z".to_owned(),
            AxisLetterName::Y => "y".to_owned(),
            AxisLetterName::X => "x".to_owned(),
        };
        proof {
            reveal_strlit("c");
            reveal_strlit("z");
            reveal_strlit("y");
            reveal_strlit("x");
            assert(r@ =~= seq![char_of(*self)]);
        }
        r
    }
}

/// Reading the first `k` characters of `s`: the letters seen so far, or the
/// first character that is no letter or repeats one.
pub open spec fn parse_prefix(s: Seq<char>, k: nat) -> Result<Set<AxisLetterName>, LegacyAxisIdParsingError>
    decreases k,
{
    if k == 0 {
        Ok(Set::empty())
    } else {
        match parse_prefix(s, (k - 1) as nat) {
            Err(e) => Err(e),
            Ok(seen) => match letter_of(s[k - 1]) {
                None => Err(LegacyAxisIdParsingError::Invalid { character: s[k - 1] }),
                Some(l) => if seen.contains(l) {
                    Err(LegacyAxisIdParsingError::Repeated(l))
                } else {
                    Ok(seen.insert(l))
                },
            },
        }
    }
}

/// Once reading fails, reading more characters gives the same failure.
proof fn lemma_failure_sticks(s: Seq<char>, k: nat, n: nat)
    requires
        k <= n,
        parse_prefix(s, k) is Err,
    ensures
        parse_prefix(s, n) == parse_prefix(s, k),
    decreases n,
{
    if n > k {
        lemma_failure_sticks(s, k, (n - 1) as nat);
    }
}

/// A set of distinct legacy axis letters.
#[derive(Clone, Debug)]
pub struct LegacyAxisIds {
    letters: Vec<AxisLetterName>,
}

impl View for LegacyAxisIds {
    type V = Set<AxisLetterName>;

    closed spec fn view(&self) -> Set<AxisLetterName> {
        self.letters@.to_set()
    }
}

impl LegacyAxisIds {
    /// Reads `value` letter by letter; fails on the first character that is
    /// not `c`, `z`, `y` or `x`, or that repeats an earlier one.
    pub fn try_from(value: String) -> (r: Result<LegacyAxisIds, LegacyAxisIdParsingError>)
        ensures
            r matches Ok(ids) ==> parse_prefix(value@, value@.len()) == Ok::<
                Set<AxisLetterName>,
                LegacyAxisIdParsingError,
            >(ids@),
            r matches Err(e) ==> parse_prefix(value@, value@.len()) == Err::<
                Set<AxisLetterName>,
                LegacyAxisIdParsingError,
            >(e),
    {
        let s = value.as_str();
        let n = s.unicode_len();
        let mut letters: Vec<AxisLetterName> = Vec::new();
        proof {
            assert(letters@.to_set() =~= Set::empty());
        }
        let mut k: usize = 0;
        while k < n
            invariant
                s@ == value@,
                n == s@.len(),
                k <= n,
                parse_prefix(s@, k as nat) == Ok::<Set<AxisLetterName>, LegacyAxisIdParsingError>(
                    letters@.to_set(),
                ),
            decreases n - k,
        {
            let c = s.get_char(k);
            let letter = match AxisLetterName::try_from(c) {
                Ok(l) => l,
                Err(e) => {
                    proof {
                        lemma_failure_sticks(s@, (k + 1) as nat, n as nat);
                    }
                    return Err(e);
                },
            };
            let mut i: usize = 0;
            while i < letters.len()
                invariant
                    s@ == value@,
                    n == s@.len(),
                    k < n,
                    c == s@[k as int],
                    letter_of(c) == Some(letter),
                    parse_prefix(s@, k as nat) == Ok::<Set<AxisLetterName>, LegacyAxisIdParsingError>(
                        letters@.to_set(),
                    ),
                    i <= letters.len(),
                    forall|j: int| 0 <= j < i ==> letters[j] != letter,
                decreases letters.len() - i,
            {
                if letters[i] == letter {
                    proof {
                        assert(letters@.contains(letter));
                        assert(letters@.to_set().contains(letter));
                        lemma_failure_sticks(s@, (k + 1) as nat, n as nat);
                    }
                    return Err(LegacyAxisIdParsingError::Repeated(letter));
                }
                i += 1;
            }
            let ghost before = letters@;
            letters.push(letter);
            proof {
                assert(letters@ == before.push(letter));
                assert forall|x: AxisLetterName| #[trigger] letters@.to_set().contains(x) == before.to_set().insert(
                    letter,
                ).contains(x) by {
                    if before.contains(x) {
                        let j = choose|j: int| 0 <= j < before.len() && before[j] == x;
                        assert(letters@[j] == x);
                    }
                    if letters@.contains(x) {
                        let j = choose|j: int| 0 <= j < letters@.len() && letters@[j] == x;
                        if j < before.len() {
                            assert(before[j] == x);
                        }
                    }
                    if x == letter {
                        assert(letters@[before.len() as int] == x);
                    }
                }
                assert(letters@.to_set() =~= before.to_set().insert(letter));
            }
            k += 1;
        }
        Ok(LegacyAxisIds { letters })
    }

    /// Whether `letter` is among the ids.
    pub fn contains(&self, letter: AxisLetterName) -> (r: bool)
        ensures
            r == self@.contains(letter),
    {
        let mut i: usize = 0;
        while i < self.letters.len()
            invariant
                i <= self.letters.len(),
                forall|j: int| 0 <= j < i ==> self.letters[j] != letter,
            decreases self.letters.len() - i,
        {
            if self.letters[i] == letter {
                proof {
                    assert(self.letters@.to_set().contains(letter));
                }
                return true;
            }
            i += 1;
        }
        false
    }

    /// The letters in the order `c`, `z`, `y`, `x`.
    pub fn to_text(&self) -> (r: String)
        ensures
            r@ == (if self@.contains(AxisLetterName::C) { seq!['c'] } else { Seq::empty() }) + (
            if self@.contains(AxisLetterName::Z) {
                seq!['z']
            } else {
                Seq::empty()
            }) + (if self@.contains(AxisLetterName::Y) {
                seq!['y']
            } else {
                Seq::empty()
            }) + (if self@.contains(AxisLetterName::X) {
                seq!['x']
            } else {
                Seq::empty()
            }),
    {
        proof {
            reveal_strlit("c");
            reveal_strlit("z");
            reveal_strlit("y");
            reveal_strlit("x");
        }
        let mut out = String::new();
        if self.contains(AxisLetterName::C) {
            out.append("c");
        }
        let ghost after_c = out@;
        if self.contains(AxisLetterName::Z) {
            out.append("z");
        }
        let ghost after_z = out@;
        if self.contains(AxisLetterName::Y) {
            out.append("y");
        }
        let ghost after_y = out@;
        if self.contains(AxisLetterName::X) {
            out.append("x");
        }
        proof {
            assert(after_c =~= (if self@.contains(AxisLetterName::C) { seq!['c'] } else { Seq::empty() }));
        }
        out
    }
}

} // verus!
