//! Character-sequence scanning: first-occurrence searches and ASCII case
//! folding, as spec functions with executable counterparts.

use vstd::prelude::*;

verus! {

/// Index of the first occurrence of `c` in `s`.
pub open spec fn find_ch(s: Seq<char>, c: char) -> Option<int>
    decreases s.len(),
{
    if s.len() == 0 {
        None
    } else if s[0] == c {
        Some(0int)
    } else {
        match find_ch(s.drop_first(), c) {
            None => None,
            Some(i) => Some(i + 1),
        }
    }
}

/// `find_ch` returns the first occurrence: the hit is in range, and no
/// earlier position holds `c`.
pub proof fn lemma_find_ch(s: Seq<char>, c: char)
    ensures
        match find_ch(s, c) {
            None => forall|j: int| 0 <= j < s.len() ==> s[j] != c,
            Some(i) => 0 <= i < s.len() && s[i] == c && (forall|j: int| 0 <= j < i ==> s[j] != c),
        },
    decreases s.len(),
{
    if s.len() > 0 && s[0] != c {
        lemma_find_ch(s.drop_first(), c);
        assert(forall|j: int| 1 <= j < s.len() ==> #[trigger] s[j] == s.drop_first()[j - 1]);
    }
}

/// How a first-occurrence search distributes over concatenation.
pub proof fn lemma_find_ch_append(s: Seq<char>, t: Seq<char>, c: char)
    ensures
        find_ch(s + t, c) == (match find_ch(s, c) {
            Some(i) => Some(i),
            None => match find_ch(t, c) {
                None => None::<int>,
                Some(j) => Some(s.len() + j),
            },
        }),
    decreases s.len(),
{
    if s.len() == 0 {
        assert(s + t =~= t);
    } else {
        assert((s + t).drop_first() =~= s.drop_first() + t);
        if s[0] != c {
            lemma_find_ch_append(s.drop_first(), t, c);
        }
    }
}

/// No space in `s` is immediately followed by a colon.
pub open spec fn no_sp_colon(s: Seq<char>) -> bool {
    forall|j: int| 0 <= j && j + 1 < s.len() ==> !(#[trigger] s[j] == ' ' && s[j + 1] == ':')
}

/// A position holding `c`, with none earlier, is what `find_ch` returns.
pub proof fn lemma_find_ch_at(s: Seq<char>, c: char, i: int)
    requires
        0 <= i < s.len(),
        s[i] == c,
        forall|j: int| 0 <= j < i ==> s[j] != c,
    ensures
        find_ch(s, c) == Some(i),
{
    lemma_find_ch(s, c);
}

/// A sequence without `c` is one where `find_ch` finds nothing.
pub proof fn lemma_find_ch_none(s: Seq<char>, c: char)
    requires
        forall|j: int| 0 <= j < s.len() ==> s[j] != c,
    ensures
        find_ch(s, c) is None,
{
    lemma_find_ch(s, c);
}

/// Index of the first position where a space is immediately followed by a
/// colon.
pub open spec fn find_sp_colon(s: Seq<char>) -> Option<int>
    decreases s.len(),
{
    if s.len() < 2 {
        None
    } else if s[0] == ' ' && s[1] == ':' {
        Some(0int)
    } else {
        match find_sp_colon(s.drop_first()) {
            None => None,
            Some(i) => Some(i + 1),
        }
    }
}

/// `find_sp_colon` returns the first space-colon pair: the hit is in range
/// and no earlier position starts such a pair.
pub proof fn lemma_find_sp_colon(s: Seq<char>)
    ensures
        match find_sp_colon(s) {
            None => forall|j: int| 0 <= j && j + 1 < s.len() ==> !(#[trigger] s[j] == ' ' && s[j + 1] == ':'),
            Some(i) => 0 <= i && i + 1 < s.len() && s[i] == ' ' && s[i + 1] == ':' && (forall|
                j: int,
            |
                0 <= j < i ==> !(#[trigger] s[j] == ' ' && s[j + 1] == ':')),
        },
    decreases s.len(),
{
    if s.len() >= 2 && !(s[0] == ' ' && s[1] == ':') {
        lemma_find_sp_colon(s.drop_first());
        assert(forall|j: int| 1 <= j < s.len() ==> #[trigger] s[j] == s.drop_first()[j - 1]);
    }
}

/// Index of the first position where a carriage return is immediately
/// followed by a line feed.
pub open spec fn find_crlf(s: Seq<char>) -> Option<int>
    decreases s.len(),
{
    if s.len() < 2 {
        None
    } else if s[0] == '\r' && s[1] == '\n' {
        Some(0int)
    } else {
        match find_crlf(s.drop_first()) {
            None => None,
            Some(i) => Some(i + 1),
        }
    }
}

/// `find_crlf` returns the first CRLF pair: the hit is in range and no
/// earlier position starts such a pair.
pub proof fn lemma_find_crlf(s: Seq<char>)
    ensures
        match find_crlf(s) {
            None => forall|j: int|
                0 <= j && j + 1 < s.len() ==> !(#[trigger] s[j] == '\r' && s[j + 1] == '\n'),
            Some(i) => 0 <= i && i + 1 < s.len() && s[i] == '\r' && s[i + 1] == '\n' && (forall|
                j: int,
            |
                0 <= j < i ==> !(#[trigger] s[j] == '\r' && s[j + 1] == '\n')),
        },
    decreases s.len(),
{
    if s.len() >= 2 && !(s[0] == '\r' && s[1] == '\n') {
        lemma_find_crlf(s.drop_first());
        assert(forall|j: int| 1 <= j < s.len() ==> #[trigger] s[j] == s.drop_first()[j - 1]);
    }
}

/// First CRLF pair in `s`.
pub fn str_find_crlf(s: &str) -> (r: Option<usize>)
    ensures
        match find_crlf(s@) {
            None => r is None,
            Some(i) => r == Some(i as usize),
        },
{
    let n = s.unicode_len();
    proof {
        lemma_find_crlf(s@);
    }
    if n < 2 {
        return None;
    }
    let mut k: usize = 0;
    while k < n - 1
        invariant
            n == s@.len(),
            2 <= n,
            0 <= k <= n - 1,
            forall|j: int| 0 <= j < k ==> !(#[trigger] s@[j] == '\r' && s@[j + 1] == '\n'),
            match find_crlf(s@) {
                None => forall|j: int|
                    0 <= j && j + 1 < s@.len() ==> !(#[trigger] s@[j] == '\r' && s@[j + 1]
                        == '\n'),
                Some(i) => 0 <= i && i + 1 < s@.len() && s@[i] == '\r' && s@[i + 1] == '\n' && (
                forall|j: int| 0 <= j < i ==> !(#[trigger] s@[j] == '\r' && s@[j + 1] == '\n')),
            },
        decreases n - k,
    {
        if s.get_char(k) == '\r' && s.get_char(k + 1) == '\n' {
            return Some(k);
        }
        k = k + 1;
    }
    None
}

/// Pointwise description of a vector's deep view.
pub proof fn lemma_vec_deep_view<T: DeepView>(v: &Vec<T>)
    ensures
        v.deep_view().len() == v@.len(),
        forall|i: int| 0 <= i < v@.len() ==> #[trigger] v.deep_view()[i] == v@[i].deep_view(),
{
}

/// A space-colon pair, with none earlier, is what `find_sp_colon` returns.
pub proof fn lemma_sp_colon_at(s: Seq<char>, i: int)
    requires
        0 <= i,
        i + 1 < s.len(),
        s[i] == ' ',
        s[i + 1] == ':',
        forall|j: int| 0 <= j < i ==> !(#[trigger] s[j] == ' ' && s[j + 1] == ':'),
    ensures
        find_sp_colon(s) == Some(i),
{
    lemma_find_sp_colon(s);
}

/// A sequence without a space-colon pair is one where `find_sp_colon`
/// finds nothing.
pub proof fn lemma_sp_colon_none(s: Seq<char>)
    requires
        no_sp_colon(s),
    ensures
        find_sp_colon(s) is None,
{
    lemma_find_sp_colon(s);
}

/// ASCII upper-casing of one character; other characters are unchanged.
pub open spec fn upper_char(c: char) -> char {
    match c {
        'a' => 'A',
        'b' => 'B',
        'c' => 'C',
        'd' => 'D',
        'e' => 'E',
        'f' => 'F',
        'g' => 'G',
        'h' => 'H',
        'i' => 'I',
        'j' => 'J',
        'k' => 'K',
        'l' => 'L',
        'm' => 'M',
        'n' => 'N',
        'o' => 'O',
        'p' => 'P',
        'q' => 'Q',
        'r' => 'R',
        's' => 'S',
        't' => 'T',
        'u' => 'U',
        'v' => 'V',
        'w' => 'W',
        'x' => 'X',
        'y' => 'Y',
        'z' => 'Z',
        _ => c,
    }
}

/// ASCII upper-casing of a character sequence.
pub open spec fn upper_seq(s: Seq<char>) -> Seq<char> {
    s.map_values(|c: char| upper_char(c))
}

/// Executable ASCII upper-casing of one character.
pub fn to_upper_char(c: char) -> (r: char)
    ensures
        r == upper_char(c),
{
    match c {
        'a' => 'A',
        'b' => 'B',
        'c' => 'C',
        'd' => 'D',
        'e' => 'E',
        'f' => 'F',
        'g' => 'G',
        'h' => 'H',
        'i' => 'I',
        'j' => 'J',
        'k' => 'K',
        'l' => 'L',
        'm' => 'M',
        'n' => 'N',
        'o' => 'O',
        'p' => 'P',
        'q' => 'Q',
        'r' => 'R',
        's' => 'S',
        't' => 'T',
        'u' => 'U',
        'v' => 'V',
        'w' => 'W',
        'x' => 'X',
        'y' => 'Y',
        'z' => 'Z',
        _ => c,
    }
}

/// First occurrence of `c` in `s`, as a byte-free character scan.
pub fn str_find_char(s: &str, c: char) -> (r: Option<usize>)
    ensures
        match find_ch(s@, c) {
            None => r is None,
            Some(i) => r == Some(i as usize),
        },
{
    let n = s.unicode_len();
    let mut k: usize = 0;
    proof {
        lemma_find_ch(s@, c);
    }
    while k < n
        invariant
            n == s@.len(),
            0 <= k <= n,
            forall|j: int| 0 <= j < k ==> s@[j] != c,
            match find_ch(s@, c) {
                None => forall|j: int| 0 <= j < s@.len() ==> s@[j] != c,
                Some(i) => 0 <= i < s@.len() && s@[i] == c && (forall|j: int| 0 <= j < i ==> s@[j]
                    != c),
            },
        decreases n - k,
    {
        if s.get_char(k) == c {
            return Some(k);
        }
        k = k + 1;
    }
    None
}

/// First space-colon pair in `s`.
pub fn str_find_sp_colon(s: &str) -> (r: Option<usize>)
    ensures
        match find_sp_colon(s@) {
            None => r is None,
            Some(i) => r == Some(i as usize),
        },
{
    let n = s.unicode_len();
    proof {
        lemma_find_sp_colon(s@);
    }
    if n < 2 {
        return None;
    }
    let mut k: usize = 0;
    while k < n - 1
        invariant
            n == s@.len(),
            2 <= n,
            0 <= k <= n - 1,
            forall|j: int| 0 <= j < k ==> !(#[trigger] s@[j] == ' ' && s@[j + 1] == ':'),
            match find_sp_colon(s@) {
                None => forall|j: int| 0 <= j && j + 1 < s@.len() ==> !(#[trigger] s@[j] == ' ' && s@[j
                    + 1] == ':'),
                Some(i) => 0 <= i && i + 1 < s@.len() && s@[i] == ' ' && s@[i + 1] == ':' && (
                forall|j: int| 0 <= j < i ==> !(#[trigger] s@[j] == ' ' && s@[j + 1] == ':')),
            },
        decreases n - k,
    {
        if s.get_char(k) == ' ' && s.get_char(k + 1) == ':' {
            return Some(k);
        }
        k = k + 1;
    }
    None
}

/// Case-insensitive (ASCII) comparison of `verb` against an upper-case
/// pattern: true exactly when upper-casing `verb` yields `target`.
pub fn verb_matches(verb: &str, target: &str) -> (r: bool)
    ensures
        r == (upper_seq(verb@) == target@),
{
    let n = verb.unicode_len();
    let m = target.unicode_len();
    if n != m {
        proof {
            assert(upper_seq(verb@).len() == verb@.len());
        }
        return false;
    }
    let mut k: usize = 0;
    while k < n
        invariant
            n == verb@.len(),
            n == target@.len(),
            0 <= k <= n,
            forall|j: int| 0 <= j < k ==> upper_char(verb@[j]) == target@[j],
        decreases n - k,
    {
        if to_upper_char(verb.get_char(k)) != target.get_char(k) {
            proof {
                assert(upper_seq(verb@)[k as int] != target@[k as int]);
            }
            return false;
        }
        k = k + 1;
    }
    proof {
        assert(upper_seq(verb@) =~= target@);
    }
    true
}

} // verus!
