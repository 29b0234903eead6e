use vstd::prelude::*;
use vstd::string::{StrSliceExecFns, StringExecFns};
use crate::text::{char_is_whitespace, chars_of, is_white, lower_of, string_from_chars, to_lowercase_str,
    to_uppercase_str, upper_of};

verus! {

/// A string value with character-based operations: lengths and positions
/// count characters, never bytes.
#[derive(Clone, Debug, PartialEq)]
pub struct AetherString {
    value: String,
}

impl View for AetherString {
    type V = Seq<char>;

    closed spec fn view(&self) -> Seq<char> {
        self.value@
    }
}

/// The substring a start position and an optional end position denote:
/// a missing end means the end of the string, an end past the string is
/// clamped to it, and a start at or past the string, or past the end,
/// yields the empty string.
pub open spec fn spec_substring(s: Seq<char>, start: int, end: Option<usize>) -> Seq<char> {
    let limit = match end {
        Some(e) => if e <= s.len() {
            e as int
        } else {
            s.len() as int
        },
        None => s.len() as int,
    };
    if start >= s.len() || start > limit {
        Seq::empty()
    } else {
        s.subrange(start, limit)
    }
}

/// The cursor after the leading run of whitespace from `i`.
pub open spec fn spec_ws_from(s: Seq<char>, i: nat) -> nat
    decreases s.len() - i,
{
    if i < s.len() && is_white(s[i as int]) {
        spec_ws_from(s, i + 1)
    } else {
        i
    }
}

/// The cursor before the trailing run of whitespace ending at `j`.
pub open spec fn spec_ws_back(s: Seq<char>, j: nat) -> nat
    decreases j,
{
    if j > 0 && j <= s.len() && is_white(s[j - 1]) {
        spec_ws_back(s, (j - 1) as nat)
    } else {
        j
    }
}

/// The string without its leading and trailing whitespace, where
/// whitespace is the Unicode `White_Space` property.
pub open spec fn spec_trim(s: Seq<char>) -> Seq<char> {
    let a = spec_ws_from(s, 0);
    let b = spec_ws_back(s, s.len());
    if a <= b {
        s.subrange(a as int, b as int)
    } else {
        Seq::empty()
    }
}

/// The backward whitespace scan never moves the cursor forward.
proof fn lemma_ws_back_le(s: Seq<char>, j: nat)
    ensures
        spec_ws_back(s, j) <= j,
    decreases j,
{
    if j > 0 && j <= s.len() && is_white(s[j - 1]) {
        lemma_ws_back_le(s, (j - 1) as nat);
    }
}

impl AetherString {
    /// A string value holding the given text.
    pub fn new(value: &str) -> (r: AetherString)
        ensures
            r@ == value@,
    {
        AetherString { value: String::from_str(value) }
    }

    /// This text followed by the other.
    pub fn concat(&self, other: &AetherString) -> (r: AetherString)
        ensures
            r@ == self@ + other@,
    {
        AetherString { value: self.value.clone().concat(other.value.as_str()) }
    }

    /// The number of characters (not bytes).
    pub fn length(&self) -> (r: usize)
        ensures
            r == self@.len(),
    {
        self.value.as_str().unicode_len()
    }

    /// The characters from `start` up to `end` (or the end of the string),
    /// with an out-of-range start or a crossed range yielding the empty
    /// string.
    pub fn substring(&self, start: usize, end: Option<usize>) -> (r: AetherString)
        ensures
            r@ == spec_substring(self@, start as int, end),
    {
        let n = self.value.as_str().unicode_len();
        let limit = match end {
            Some(e) => if e <= n {
                e
            } else {
                n
            },
            None => n,
        };
        if start >= n || start > limit {
            AetherString { value: String::new() }
        } else {
            AetherString { value: self.value.as_str().substring_char(start, limit) .to_owned() }
        }
    }

    /// The Unicode uppercase mapping of the text.
    pub fn to_uppercase(&self) -> (r: AetherString)
        ensures
            r@ == upper_of(self@),
    {
        AetherString { value: to_uppercase_str(self.value.as_str()) }
    }

    /// The Unicode lowercase mapping of the text.
    pub fn to_lowercase(&self) -> (r: AetherString)
        ensures
            r@ == lower_of(self@),
    {
        AetherString { value: to_lowercase_str(self.value.as_str()) }
    }

    /// The text without leading and trailing whitespace.
    pub fn trim(&self) -> (r: AetherString)
        ensures
            r@ == spec_trim(self@),
    {
        let cs = chars_of(self.value.as_str());
        let n = cs.len();
        let mut a: usize = 0;
        while a < n && char_is_whitespace(cs[a])
            invariant
                a <= n,
                n == cs@.len(),
                cs@ == self@,
                spec_ws_from(self@, a as nat) == spec_ws_from(self@, 0),
            decreases n - a,
        {
            a = a + 1;
        }
        let mut b: usize = n;
        while b > a && char_is_whitespace(cs[b - 1])
            invariant
                a <= b <= n,
                n == cs@.len(),
                cs@ == self@,
                a == spec_ws_from(self@, 0),
                spec_ws_back(self@, b as nat) == spec_ws_back(self@, self@.len()),
            decreases b,
        {
            b = b - 1;
        }
        proof {
            if b > a {
                assert(spec_ws_back(self@, b as nat) == b);
            } else {
                // Everything from `a` on was whitespace, so the backward
                // scan from the end stops no later than `a`.
                assert(b == a);
                lemma_ws_back_le(self@, b as nat);
                assert(spec_ws_back(self@, b as nat) <= a);
            }
        }
        let mut out: Vec<char> = Vec::new();
        let mut i: usize = a;
        while i < b
            invariant
                a <= i <= b <= n,
                n == cs@.len(),
                cs@ == self@,
                out@ == self@.subrange(a as int, i as int),
            decreases b - i,
        {
            out.push(cs[i]);
            proof {
                assert(out@ =~= self@.subrange(a as int, i as int + 1));
            }
            i = i + 1;
        }
        let ghost sa = spec_ws_from(self@, 0);
        let ghost sb = spec_ws_back(self@, self@.len());
        proof {
            if sa <= sb {
                assert(out@ =~= self@.subrange(sa as int, sb as int));
            } else {
                assert(out@ =~= Seq::<char>::empty());
            }
        }
        AetherString { value: string_from_chars(&out) }
    }

    /// The held text.
    pub fn to_string(&self) -> (r: String)
        ensures
            r@ == self@,
    {
        self.value.clone()
    }
}

} // verus!
