use vstd::prelude::*;

verus! {

/// The whitespace characters that surrounding-trim removes.
pub open spec fn is_space_char(c: char) -> bool {
    c == ' ' || c == '\t' || c == '\n' || c == '\r' || c == '\u{000B}' || c == '\u{000C}'
}

pub open spec fn trim_front(s: Seq<char>) -> Seq<char>
    decreases s.len(),
{
    if s.len() > 0 && is_space_char(s[0]) {
        trim_front(s.drop_first())
    } else {
        s
    }
}

pub open spec fn trim_back(s: Seq<char>) -> Seq<char>
    decreases s.len(),
{
    if s.len() > 0 && is_space_char(s.last()) {
        trim_back(s.drop_last())
    } else {
        s
    }
}

/// A version text with surrounding whitespace removed.
pub open spec fn spec_trim(s: Seq<char>) -> Seq<char> {
    trim_back(trim_front(s))
}

proof fn lemma_trim_front_skip(s: Seq<char>, i: int)
    requires
        0 <= i <= s.len(),
        forall|k: int| 0 <= k < i ==> is_space_char(s[k]),
        i == s.len() || !is_space_char(s[i]),
    ensures
        trim_front(s) == s.skip(i),
    decreases i,
{
    if i == 0 {
        assert(s.skip(0) =~= s);
    } else {
        assert(is_space_char(s[0]));
        let t = s.drop_first();
        assert(forall|k: int| 0 <= k < i - 1 ==> is_space_char(t[k]));
        lemma_trim_front_skip(t, i - 1);
        assert(t.skip(i - 1) =~= s.skip(i));
    }
}

proof fn lemma_trim_back_take(s: Seq<char>, j: int)
    requires
        0 <= j <= s.len(),
        forall|k: int| j <= k < s.len() ==> is_space_char(s[k]),
        j == 0 || !is_space_char(s[j - 1]),
    ensures
        trim_back(s) == s.take(j),
    decreases s.len() - j,
{
    if j == s.len() {
        assert(s.take(j) =~= s);
    } else {
        assert(is_space_char(s.last()));
        let t = s.drop_last();
        assert(forall|k: int| j <= k < t.len() ==> is_space_char(t[k]));
        lemma_trim_back_take(t, j);
        assert(t.take(j) =~= s.take(j));
    }
}

/// The trimmed text is exactly the subrange between the outermost
/// non-whitespace characters.
pub proof fn lemma_trim_subrange(s: Seq<char>, i: int, j: int)
    requires
        0 <= i <= j <= s.len(),
        forall|k: int| 0 <= k < i ==> is_space_char(s[k]),
        forall|k: int| j <= k < s.len() ==> is_space_char(s[k]),
        i == s.len() || !is_space_char(s[i]),
        i == j || !is_space_char(s[j - 1]),
    ensures
        spec_trim(s) == s.subrange(i, j),
{
    if i == j {
        // everything is whitespace
        lemma_trim_front_skip(s, s.len() as int);
        assert(s.skip(s.len() as int) =~= Seq::<char>::empty());
        assert(trim_back(Seq::<char>::empty()) =~= Seq::<char>::empty());
        assert(s.subrange(i, j) =~= Seq::<char>::empty());
    } else {
        lemma_trim_front_skip(s, i);
        let t = s.skip(i);
        assert(forall|k: int| j - i <= k < t.len() ==> is_space_char(t[k]));
        assert(!is_space_char(t[j - i - 1]));
        lemma_trim_back_take(t, j - i);
        assert(t.take(j - i) =~= s.subrange(i, j));
    }
}

/// A text without any whitespace character trims to itself.
pub proof fn lemma_trim_identity(s: Seq<char>)
    requires
        forall|k: int| 0 <= k < s.len() ==> !is_space_char(#[trigger] s[k]),
    ensures
        spec_trim(s) == s,
{
    lemma_trim_subrange(s, 0, s.len() as int);
    assert(s.subrange(0, s.len() as int) =~= s);
}

pub fn is_space(c: char) -> (r: bool)
    ensures
        r == is_space_char(c),
{
    c == ' ' || c == '\t' || c == '\n' || c == '\r' || c == '\u{000B}' || c == '\u{000C}'
}

/// Remove surrounding whitespace from a version text.
pub fn trim_text(s: &str) -> (r: String)
    ensures
        r@ == spec_trim(s@),
{
    let len: usize = s.unicode_len();
    let mut i: usize = 0;
    while i < len && is_space(s.get_char(i))
        invariant
            0 <= i <= len,
            len == s@.len(),
            forall|k: int| 0 <= k < i ==> is_space_char(s@[k]),
        decreases len - i,
    {
        i = i + 1;
    }
    let mut j: usize = len;
    while j > i && is_space(s.get_char(j - 1))
        invariant
            i <= j <= len,
            len == s@.len(),
            forall|k: int| j <= k < len ==> is_space_char(s@[k]),
        decreases j,
    {
        j = j - 1;
    }
    proof {
        lemma_trim_subrange(s@, i as int, j as int);
    }
    let sub = s.substring_char(i, j);
    sub.to_owned()
}

pub open spec fn contains_char(s: Seq<char>, c: char) -> bool {
    exists|k: int| 0 <= k < s.len() && s[k] == c
}

/// The index of the last occurrence of `c`, or -1 when there is none.
pub open spec fn last_index_of_char(s: Seq<char>, c: char) -> int
    decreases s.len(),
{
    if s.len() == 0 {
        -1
    } else if s.last() == c {
        s.len() - 1
    } else {
        last_index_of_char(s.drop_last(), c)
    }
}

pub proof fn lemma_last_index_of_char(s: Seq<char>, c: char, d: int)
    requires
        0 <= d < s.len(),
        s[d] == c,
        forall|t: int| d < t < s.len() ==> s[t] != c,
    ensures
        last_index_of_char(s, c) == d,
    decreases s.len(),
{
    if s.last() == c {
        assert(d == s.len() - 1);
    } else {
        assert(d < s.len() - 1);
        let t = s.drop_last();
        assert(t[d] == c);
        lemma_last_index_of_char(t, c, d);
    }
}

/// Find the last occurrence of `c` in `s`.
pub fn rfind_char(s: &str, c: char) -> (r: Option<usize>)
    ensures
        match r {
            Some(j) => contains_char(s@, c) && last_index_of_char(s@, c) == j && 0 <= j < s@.len(),
            None => !contains_char(s@, c),
        },
{
    let len: usize = s.unicode_len();
    let mut j: usize = len;
    while j > 0 && s.get_char(j - 1) != c
        invariant
            0 <= j <= len,
            len == s@.len(),
            forall|t: int| j <= t < len ==> s@[t] != c,
        decreases j,
    {
        j = j - 1;
    }
    if j == 0 {
        None
    } else {
        proof {
            lemma_last_index_of_char(s@, c, j as int - 1);
        }
        Some(j - 1)
    }
}

/// Equality of two string slices, stated over their character views.
pub fn str_eq(a: &str, b: &str) -> (r: bool)
    ensures
        r == (a@ == b@),
{
    let sa = a.to_owned();
    let sb = b.to_owned();
    sa == sb
}

} // verus!
