//! The state of a searchable picker: a current value, a search text, and the
//! entries to pick from.

use vstd::prelude::*;
use vstd::std_specs::cmp::PartialEqSpec;

verus! {

/// What `str::to_lowercase` makes of a string.
pub uninterp spec fn lower_of(s: Seq<char>) -> Seq<char>;

/// Relies on `str::to_lowercase`: the lowercase form of the characters, a
/// function of them alone; the empty string stays empty.
#[verifier::external_body]
fn to_lowercase(s: &str) -> (r: String)
    ensures
        r@ == lower_of(s@),
        s@.len() == 0 ==> r@.len() == 0,
{
    s.to_lowercase()
}

/// Whether `needle` occurs in `hay` as a run of consecutive characters.
pub open spec fn occurs_in(needle: Seq<char>, hay: Seq<char>) -> bool {
    exists|i: int|
        0 <= i && i + needle.len() <= hay.len() && #[trigger] hay.subrange(i, i + needle.len()) == needle
}

/// Whether `needle` occurs in `hay`.
pub fn str_contains(hay: &str, needle: &str) -> (r: bool)
    ensures
        r == occurs_in(needle@, hay@),
{
    let h = hay.unicode_len();
    let n = needle.unicode_len();
    if n > h {
        return false;
    }
    let mut i: usize = 0;
    while i <= h - n
        invariant
            h == hay@.len(),
            n == needle@.len(),
            n <= h,
            i <= h - n + 1,
            forall|k: int| 0 <= k < i ==> #[trigger] hay@.subrange(k, k + n) != needle@,
        decreases h - i,
    {
        let mut j: usize = 0;
        while j < n && hay.get_char(i + j) == needle.get_char(j)
            invariant
                h == hay@.len(),
                n == needle@.len(),
                i + n <= h,
                j <= n,
                forall|m: int| 0 <= m < j ==> hay@[i + m] == needle@[m],
            decreases n - j,
        {
            j += 1;
        }
        if j == n {
            proof {
                assert(hay@.subrange(i as int, i + n) =~= needle@);
            }
            return true;
        }
        proof {
            assert(hay@[i + j] != needle@[j as int]);
            assert(hay@.subrange(i as int, i + n)[j as int] == hay@[i + j]);
        }
        i += 1;
    }
    proof {
        assert forall|k: int| 0 <= k && k + n <= h implies #[trigger] hay@.subrange(k, k + n) != needle@ by {
            assert(k < i);
        }
    }
    false
}

/// One entry of a picker: how it is shown, that text in lowercase, and its
/// value.
#[derive(Debug)]
pub struct SearchableEntry<T> {
    lowercase_display: String,
    display: String,
    value: T,
}

impl<T> SearchableEntry<T> {
    pub closed spec fn display_view(&self) -> Seq<char> {
        self.display@
    }

    pub closed spec fn display_string(&self) -> String {
        self.display
    }

    pub closed spec fn lowercase_view(&self) -> Seq<char> {
        self.lowercase_display@
    }

    pub closed spec fn value_view(&self) -> T {
        self.value
    }

    pub fn display(&self) -> (r: &String)
        ensures
            r@ == self.display_view(),
    {
        &self.display
    }

    pub fn value(&self) -> (r: &T)
        ensures
            *r == self.value_view(),
    {
        &self.value
    }
}

/// A picker: the value picked, the search text, whether its list is open,
/// and the entries.
#[derive(Debug)]
pub struct SearchAndPickWidget<T> {
    pub value: T,
    pub search: String,
    pub popup_open: bool,
    pub entries: Vec<SearchableEntry<T>>,
}

impl<T> SearchAndPickWidget<T> {
    /// A picker showing `value`, with one entry for each of `entries`, shown
    /// as its text form and searched by that text in lowercase.
    pub fn new(value: T, entries: Vec<T>) -> (r: SearchAndPickWidget<T>)
        where
            T: std::fmt::Display,
        ensures
            r.value == value,
            r.search@.len() == 0,
            !r.popup_open,
            r.entries.len() == entries.len(),
            forall|i: int|
                0 <= i < entries.len() ==> {
                    &&& (#[trigger] r.entries[i]).value_view() == entries[i]
                    &&& vstd::string::to_string_from_display_ensures(
                        &entries[i],
                        r.entries[i].display_string(),
                    )
                    &&& r.entries[i].lowercase_view() == lower_of(r.entries[i].display_view())
                },
    {
        let mut out: Vec<SearchableEntry<T>> = Vec::new();
        let ghost given = entries@;
        let mut rest = entries;
        let n = rest.len();
        let mut k: usize = 0;
        while k < n
            invariant
                n == given.len(),
                k <= n,
                rest@ == given.subrange(k as int, n as int),
                out.len() == k,
                forall|i: int|
                    0 <= i < k ==> {
                        &&& (#[trigger] out[i]).value_view() == given[i]
                        &&& vstd::string::to_string_from_display_ensures(
                            &given[i],
                            out[i].display_string(),
                        )
                        &&& out[i].lowercase_view() == lower_of(out[i].display_view())
                    },
            decreases n - k,
        {
            let e = rest.remove(0);
            let display = e.to_string();
            let lowercase_display = to_lowercase(display.as_str());
            out.push(SearchableEntry { lowercase_display, display, value: e });
            k += 1;
            proof {
                assert(rest@ =~= given.subrange(k as int, n as int));
            }
        }
        SearchAndPickWidget { value, search: String::new(), popup_open: false, entries: out }
    }

    /// Whether some entry's value equals `value`.
    pub fn contains(&self, value: &T) -> (r: bool)
        where
            T: PartialEq,
        ensures
            T::obeys_eq_spec() ==> (r <==> exists|i: int|
                0 <= i < self.entries.len() && self.entries[i].value_view().eq_spec(value)),
    {
        let mut i: usize = 0;
        while i < self.entries.len()
            invariant
                i <= self.entries.len(),
                T::obeys_eq_spec() ==> forall|j: int|
                    0 <= j < i ==> !self.entries[j].value_view().eq_spec(value),
            decreases self.entries.len() - i,
        {
            if self.entries[i].value() == value {
                return true;
            }
            i += 1;
        }
        false
    }

    /// The positions of the entries whose lowercase text holds the search
    /// text in lowercase, in order.
    pub fn visible_entries(&self) -> (r: Vec<usize>)
        ensures
            forall|k: int| 0 <= k < r.len() ==> r[k] < self.entries.len(),
            forall|k: int, m: int| 0 <= k < m < r.len() ==> r[k] < r[m],
            forall|i: int|
                0 <= i < self.entries.len() ==> (r@.contains(i as usize) <==> occurs_in(
                    lower_of(self.search@),
                    self.entries[i].lowercase_view(),
                )),
    {
        let lower_search = to_lowercase(self.search.as_str());
        let mut out: Vec<usize> = Vec::new();
        let mut i: usize = 0;
        while i < self.entries.len()
            invariant
                lower_search@ == lower_of(self.search@),
                i <= self.entries.len(),
                forall|k: int| 0 <= k < out.len() ==> out[k] < i,
                forall|k: int, m: int| 0 <= k < m < out.len() ==> out[k] < out[m],
                forall|j: int|
                    0 <= j < i ==> (out@.contains(j as usize) <==> occurs_in(
                        lower_of(self.search@),
                        self.entries[j].lowercase_view(),
                    )),
            decreases self.entries.len() - i,
        {
            let ghost before = out@;
            if str_contains(self.entries[i].lowercase_display.as_str(), lower_search.as_str()) {
                out.push(i);
            }
            proof {
                assert forall|j: int|
                    0 <= j < i + 1 implies (out@.contains(j as usize) <==> occurs_in(
                        lower_of(self.search@),
                        self.entries[j].lowercase_view(),
                    )) by {
                    if j < i {
                        if before.contains(j as usize) {
                            let k = choose|k: int| 0 <= k < before.len() && before[k] == j as usize;
                            assert(out@[k] == j as usize);
                        }
                        if out@.contains(j as usize) {
                            let k = choose|k: int| 0 <= k < out@.len() && out@[k] == j as usize;
                            if k < before.len() {
                                assert(before[k] == j as usize);
                            }
                        }
                    } else {
                        if out@.contains(j as usize) {
                            let k = choose|k: int| 0 <= k < out@.len() && out@[k] == j as usize;
                            if k < before.len() {
                                assert(before[k] < i);
                            }
                        }
                        if out.len() > before.len() {
                            assert(out@[before.len() as int] == i);
                        }
                    }
                }
            }
            i += 1;
        }
        out
    }
}

} // verus!
