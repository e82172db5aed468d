//! Verified text helpers over `Seq<char>` models.

use vstd::prelude::*;
use vstd::string::StrSliceExecFns;

verus! {

/// Whitespace as the layout rules understand it.
pub open spec fn is_ws(c: char) -> bool {
    c == ' ' || c == '\t' || c == '\n' || c == '\r'
}

/// `s` without leading whitespace.
pub open spec fn trim_front(s: Seq<char>) -> Seq<char>
    decreases s.len(),
{
    if s.len() == 0 {
        s
    } else if is_ws(s[0]) {
        trim_front(s.subrange(1, s.len() as int))
    } else {
        s
    }
}

/// `s` without trailing whitespace.
pub open spec fn trim_back(s: Seq<char>) -> Seq<char>
    decreases s.len(),
{
    if s.len() == 0 {
        s
    } else if is_ws(s.last()) {
        trim_back(s.drop_last())
    } else {
        s
    }
}

/// `s` without leading or trailing whitespace.
pub open spec fn trim(s: Seq<char>) -> Seq<char> {
    trim_back(trim_front(s))
}

/// `s` without trailing newline characters.
pub open spec fn trim_end_newlines(s: Seq<char>) -> Seq<char>
    decreases s.len(),
{
    if s.len() > 0 && s.last() == '\n' {
        trim_end_newlines(s.drop_last())
    } else {
        s
    }
}

/// `s` without a final `", "`, if it ends with one.
pub open spec fn strip_comma_space(s: Seq<char>) -> Seq<char> {
    if s.len() >= 2 && s[s.len() - 2] == ',' && s[s.len() - 1] == ' ' {
        s.subrange(0, s.len() - 2)
    } else {
        s
    }
}

/// `s` without a final space character, if it ends with one.
pub open spec fn strip_one_space(s: Seq<char>) -> Seq<char> {
    if s.len() >= 1 && s.last() == ' ' {
        s.drop_last()
    } else {
        s
    }
}

proof fn lemma_trim_front_skip(s: Seq<char>, i: int)
    requires
        0 <= i <= s.len(),
        forall|k: int| 0 <= k < i ==> is_ws(s[k]),
    ensures
        trim_front(s) == trim_front(s.subrange(i, s.len() as int)),
    decreases i,
{
    if i > 0 {
        assert(is_ws(s[0]));
        let t = s.subrange(1, s.len() as int);
        lemma_trim_front_skip(t, i - 1);
        assert(t.subrange(i - 1, t.len() as int) =~= s.subrange(i, s.len() as int));
    } else {
        assert(s.subrange(0, s.len() as int) =~= s);
    }
}

proof fn lemma_trim_back_skip(s: Seq<char>, j: int)
    requires
        0 <= j <= s.len(),
        forall|k: int| j <= k < s.len() ==> is_ws(s[k]),
    ensures
        trim_back(s) == trim_back(s.subrange(0, j)),
    decreases s.len() - j,
{
    if j < s.len() {
        assert(is_ws(s.last()));
        let t = s.drop_last();
        assert(t =~= s.subrange(0, s.len() - 1));
        lemma_trim_back_skip(t, j);
        assert(t.subrange(0, j) =~= s.subrange(0, j));
    } else {
        assert(s.subrange(0, s.len() as int) =~= s);
    }
}

/// When no whitespace borders `s`, trimming keeps it.
proof fn lemma_trim_front_solid(s: Seq<char>)
    requires
        s.len() == 0 || !is_ws(s[0]),
    ensures
        trim_front(s) == s,
{
}

proof fn lemma_trim_back_solid(s: Seq<char>)
    requires
        s.len() == 0 || !is_ws(s.last()),
    ensures
        trim_back(s) == s,
{
}

/// Trimming equals cutting at the first and last non-whitespace positions.
pub proof fn lemma_trim_bounds(s: Seq<char>, i: int, j: int)
    requires
        0 <= i <= j <= s.len(),
        forall|k: int| 0 <= k < i ==> is_ws(s[k]),
        forall|k: int| j <= k < s.len() ==> is_ws(s[k]),
        i < j ==> !is_ws(s[i]),
        i < j ==> !is_ws(s[j - 1]),
    ensures
        trim(s) == s.subrange(i, j),
    decreases s.len(),
{
    lemma_trim_front_skip(s, i);
    let t = s.subrange(i, s.len() as int);
    if i < j {
        lemma_trim_front_solid(t);
        lemma_trim_back_skip(t, j - i);
        let u = t.subrange(0, j - i);
        assert(u =~= s.subrange(i, j));
        lemma_trim_back_solid(u);
    } else {
        assert(forall|k: int| 0 <= k < t.len() ==> is_ws(t[k]));
        lemma_trim_all_ws(t);
        assert(s.subrange(i, j) =~= Seq::<char>::empty());
    }
}

proof fn lemma_trim_all_ws(s: Seq<char>)
    requires
        forall|k: int| 0 <= k < s.len() ==> is_ws(s[k]),
    ensures
        trim_front(s) == Seq::<char>::empty(),
        trim_back(trim_front(s)) == Seq::<char>::empty(),
    decreases s.len(),
{
    if s.len() > 0 {
        let t = s.subrange(1, s.len() as int);
        lemma_trim_all_ws(t);
    } else {
        assert(s =~= Seq::<char>::empty());
    }
}

/// Whether `c` is layout whitespace.
pub fn is_ws_char(c: char) -> (b: bool)
    ensures
        b == is_ws(c),
{
    c == ' ' || c == '\t' || c == '\n' || c == '\r'
}

/// `s` with leading and trailing whitespace removed.
pub fn trim_str(s: &str) -> (r: String)
    ensures
        r@ == trim(s@),
{
    let n = s.unicode_len();
    let mut i: usize = 0;
    while i < n && is_ws_char(s.get_char(i))
        invariant
            0 <= i <= n == s@.len(),
            forall|k: int| 0 <= k < i ==> is_ws(s@[k]),
        decreases n - i,
    {
        i = i + 1;
    }
    let mut j: usize = n;
    while j > i && is_ws_char(s.get_char(j - 1))
        invariant
            i <= j <= n == s@.len(),
            forall|k: int| 0 <= k < i ==> is_ws(s@[k]),
            forall|k: int| j <= k < s@.len() ==> is_ws(s@[k]),
        decreases j,
    {
        j = j - 1;
    }
    let r = s.substring_char(i, j).to_owned();
    proof {
        lemma_trim_bounds(s@, i as int, j as int);
    }
    r
}

/// `s` with leading whitespace removed.
pub fn trim_start_str(s: &str) -> (r: String)
    ensures
        r@ == trim_front(s@),
{
    let n = s.unicode_len();
    let mut i: usize = 0;
    while i < n && is_ws_char(s.get_char(i))
        invariant
            0 <= i <= n == s@.len(),
            forall|k: int| 0 <= k < i ==> is_ws(s@[k]),
        decreases n - i,
    {
        i = i + 1;
    }
    let r = s.substring_char(i, n).to_owned();
    proof {
        lemma_trim_front_skip(s@, i as int);
        if i < n {
            lemma_trim_front_solid(s@.subrange(i as int, s@.len() as int));
        } else {
            assert(s@.subrange(i as int, s@.len() as int) =~= Seq::<char>::empty());
        }
    }
    r
}

/// `s` with trailing newline characters removed.
pub fn trim_end_newlines_str(s: &str) -> (r: String)
    ensures
        r@ == trim_end_newlines(s@),
{
    let n = s.unicode_len();
    let mut j: usize = n;
    while j > 0 && s.get_char(j - 1) == '\n'
        invariant
            0 <= j <= n == s@.len(),
            forall|k: int| j <= k < s@.len() ==> s@[k] == '\n',
        decreases j,
    {
        j = j - 1;
    }
    let r = s.substring_char(0, j).to_owned();
    proof {
        lemma_trim_end_newlines_bounds(s@, j as int);
    }
    r
}

proof fn lemma_trim_end_newlines_bounds(s: Seq<char>, j: int)
    requires
        0 <= j <= s.len(),
        forall|k: int| j <= k < s.len() ==> s[k] == '\n',
        j > 0 ==> s[j - 1] != '\n',
    ensures
        trim_end_newlines(s) == s.subrange(0, j),
    decreases s.len() - j,
{
    if j < s.len() {
        let t = s.drop_last();
        assert(t =~= s.subrange(0, s.len() - 1));
        lemma_trim_end_newlines_bounds(t, j);
        assert(t.subrange(0, j) =~= s.subrange(0, j));
    } else {
        if s.len() > 0 && s.last() == '\n' {
            assert(j > 0 && s[j - 1] != '\n');
            assert(false);
        }
        assert(s.subrange(0, j) =~= s);
    }
}

/// Whether `c` occurs in `s`.
pub fn contains_char(s: &str, c: char) -> (b: bool)
    ensures
        b == s@.contains(c),
{
    let n = s.unicode_len();
    let mut i: usize = 0;
    while i < n
        invariant
            0 <= i <= n == s@.len(),
            forall|k: int| 0 <= k < i ==> s@[k] != c,
        decreases n - i,
    {
        if s.get_char(i) == c {
            return true;
        }
        i = i + 1;
    }
    false
}

/// Whether `s` ends with the character `c`.
pub fn ends_with_char(s: &str, c: char) -> (b: bool)
    ensures
        b == (s@.len() > 0 && s@.last() == c),
{
    let n = s.unicode_len();
    n > 0 && s.get_char(n - 1) == c
}

/// Whether `s` starts with the character `c`.
pub fn starts_with_char(s: &str, c: char) -> (b: bool)
    ensures
        b == (s@.len() > 0 && s@[0] == c),
{
    let n = s.unicode_len();
    n > 0 && s.get_char(0) == c
}

/// `s` without a final `", "`, if it ends with one.
pub fn strip_comma_space_str(s: &str) -> (r: String)
    ensures
        r@ == strip_comma_space(s@),
{
    let n = s.unicode_len();
    if n >= 2 && s.get_char(n - 2) == ',' && s.get_char(n - 1) == ' ' {
        s.substring_char(0, n - 2).to_owned()
    } else {
        let r = s.to_owned();
        r
    }
}

/// `s` without a final space, if it ends with one.
pub fn strip_one_space_str(s: &str) -> (r: String)
    ensures
        r@ == strip_one_space(s@),
{
    let n = s.unicode_len();
    if n >= 1 && s.get_char(n - 1) == ' ' {
        proof {
            assert(s@.drop_last() =~= s@.subrange(0, s@.len() - 1));
        }
        s.substring_char(0, n - 1).to_owned()
    } else {
        let r = s.to_owned();
        r
    }
}


/// Trimming leaves no leading whitespace.
pub proof fn lemma_trim_front_no_leading_ws(s: Seq<char>)
    ensures
        trim_front(s).len() > 0 ==> !is_ws(trim_front(s)[0]),
    decreases s.len(),
{
    if s.len() > 0 && is_ws(s[0]) {
        lemma_trim_front_no_leading_ws(s.subrange(1, s.len() as int));
    }
}

/// Trimming leaves no trailing whitespace.
pub proof fn lemma_trim_back_no_trailing_ws(s: Seq<char>)
    ensures
        trim_back(s).len() > 0 ==> !is_ws(trim_back(s).last()),
    decreases s.len(),
{
    if s.len() > 0 && is_ws(s.last()) {
        lemma_trim_back_no_trailing_ws(s.drop_last());
    }
}

/// Trimming the back keeps the front character.
pub proof fn lemma_trim_back_keeps_head(s: Seq<char>)
    ensures
        trim_back(s).len() > 0 ==> trim_back(s)[0] == s[0],
    decreases s.len(),
{
    if s.len() > 0 && is_ws(s.last()) {
        lemma_trim_back_keeps_head(s.drop_last());
    }
}

/// A trimmed text has no whitespace at either border.
pub proof fn lemma_trim_solid_borders(s: Seq<char>)
    ensures
        trim(s).len() > 0 ==> !is_ws(trim(s)[0]) && !is_ws(trim(s).last()),
{
    lemma_trim_front_no_leading_ws(s);
    lemma_trim_back_no_trailing_ws(trim_front(s));
    lemma_trim_back_keeps_head(trim_front(s));
}

} // verus!
