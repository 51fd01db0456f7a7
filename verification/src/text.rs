//! Text helpers: the Unicode `White_Space` class (what `str::trim` strips) and
//! the decimal rendering of lengths, precisions and scales in type names.

use vstd::prelude::*;

verus! {

/// The Unicode `White_Space` property, the class of characters that
/// `char::is_whitespace` accepts and `str::trim` strips.
pub open spec fn is_white_space(c: char) -> bool {
    let u = c as u32;
    ||| 0x09 <= u <= 0x0d
    ||| u == 0x20
    ||| u == 0x85
    ||| u == 0xa0
    ||| u == 0x1680
    ||| 0x2000 <= u <= 0x200a
    ||| u == 0x2028
    ||| u == 0x2029
    ||| u == 0x202f
    ||| u == 0x205f
    ||| u == 0x3000
}

/// A text is blank when trimming it leaves nothing: every character is white space.
pub open spec fn is_blank(s: Seq<char>) -> bool {
    forall|i: int| 0 <= i < s.len() ==> is_white_space(#[trigger] s[i])
}

/// Whether `c` is a Unicode white-space character.
pub fn is_white_space_char(c: char) -> (b: bool)
    ensures
        b == is_white_space(c),
{
    let u = c as u32;
    (0x09 <= u && u <= 0x0d) || u == 0x20 || u == 0x85 || u == 0xa0 || u == 0x1680 || (0x2000
        <= u && u <= 0x200a) || u == 0x2028 || u == 0x2029 || u == 0x202f || u == 0x205f || u
        == 0x3000
}

/// Whether `s.trim()` is empty, that is, whether `s` holds white space only.
pub fn is_blank_str(s: &str) -> (b: bool)
    ensures
        b == is_blank(s@),
{
    let n = s.unicode_len();
    let mut i: usize = 0;
    while i < n
        invariant
            n == s@.len(),
            i <= n,
            forall|j: int| 0 <= j < i ==> is_white_space(#[trigger] s@[j]),
        decreases n - i,
    {
        let c = s.get_char(i);
        if !is_white_space_char(c) {
            return false;
        }
        i = i + 1;
    }
    true
}

/// The decimal digit character for `d`, where `d < 10`.
pub open spec fn digit_char(d: nat) -> char {
    if d == 0 {
        '0'
    } else if d == 1 {
        '1'
    } else if d == 2 {
        '2'
    } else if d == 3 {
        '3'
    } else if d == 4 {
        '4'
    } else if d == 5 {
        '5'
    } else if d == 6 {
        '6'
    } else if d == 7 {
        '7'
    } else if d == 8 {
        '8'
    } else {
        '9'
    }
}

/// The decimal rendering of `n`, most significant digit first, without
/// leading zeros (zero itself is `"0"`).
pub open spec fn decimal(n: nat) -> Seq<char>
    decreases n,
{
    if n < 10 {
        seq![digit_char(n)]
    } else {
        decimal(n / 10).push(digit_char(n % 10))
    }
}

fn digit_str(d: u16) -> (r: &'static str)
    requires
        d < 10,
    ensures
        r@ == seq![digit_char(d as nat)],
{
    if d == 0 {
        proof {
            reveal_strlit("0");
        }
        "0"
    } else if d == 1 {
        proof {
            reveal_strlit("1");
        }
        "1"
    } else if d == 2 {
        proof {
            reveal_strlit("2");
        }
        "2"
    } else if d == 3 {
        proof {
            reveal_strlit("3");
        }
        "3"
    } else if d == 4 {
        proof {
            reveal_strlit("4");
        }
        "4"
    } else if d == 5 {
        proof {
            reveal_strlit("5");
        }
        "5"
    } else if d == 6 {
        proof {
            reveal_strlit("6");
        }
        "6"
    } else if d == 7 {
        proof {
            reveal_strlit("7");
        }
        "7"
    } else if d == 8 {
        proof {
            reveal_strlit("8");
        }
        "8"
    } else {
        proof {
            reveal_strlit("9");
        }
        "9"
    }
}

/// Renders `n` in decimal.
pub fn format_decimal(n: u16) -> (s: String)
    ensures
        s@ == decimal(n as nat),
    decreases n,
{
    if n < 10 {
        String::from_str(digit_str(n))
    } else {
        let mut s = format_decimal(n / 10);
        s.append(digit_str(n % 10));
        s
    }
}

/// The characters of `s`, in order.
pub fn chars_of(s: &str) -> (v: Vec<char>)
    ensures
        v@ == s@,
{
    let mut v: Vec<char> = Vec::new();
    for c in it: s.chars()
        invariant
            v@ == it.seq().take(it.index() as int),
    {
        v.push(c);
    }
    v
}

/// `String::from_iter` over the characters of `v`: std documents that
/// collecting characters into a `String` concatenates them in order, so the
/// result holds exactly the characters of `v`.
#[verifier::external_body]
pub(crate) fn string_from_chars(v: &[char]) -> (s: String)
    ensures
        s@ == v@,
{
    String::from_iter(v.iter())
}

/// A copy of a character vector.
pub fn copy_chars(v: &Vec<char>) -> (r: Vec<char>)
    ensures
        r@ == v@,
{
    let mut r: Vec<char> = Vec::new();
    let mut k: usize = 0;
    while k < v.len()
        invariant
            k <= v@.len(),
            r@ == v@.take(k as int),
        decreases v@.len() - k,
    {
        r.push(v[k]);
        k = k + 1;
        assert(r@ =~= v@.take(k as int));
    }
    assert(v@.take(v@.len() as int) =~= v@);
    r
}

/// A character with ASCII letters folded to upper case.
pub open spec fn fold_case(c: char) -> int {
    if 'a' as u32 <= c as u32 <= 'z' as u32 {
        c as u32 - 32
    } else {
        c as u32 as int
    }
}

/// Two names are the same up to ASCII case, as the default collation
/// compares identifiers and text.
pub open spec fn same_name(a: Seq<char>, b: Seq<char>) -> bool {
    a.len() == b.len() && forall|j: int| 0 <= j < a.len() ==> fold_case(#[trigger] a[j]) == fold_case(b[j])
}

/// `a` sorts before `b` when both are compared from position `i` on,
/// character by character up to ASCII case; a proper prefix sorts first.
pub open spec fn text_lt_from(a: Seq<char>, b: Seq<char>, i: int) -> bool
    decreases a.len() - i,
{
    if i < 0 || i >= a.len() {
        0 <= i < b.len()
    } else if i >= b.len() {
        false
    } else if fold_case(a[i]) != fold_case(b[i]) {
        fold_case(a[i]) < fold_case(b[i])
    } else {
        text_lt_from(a, b, i + 1)
    }
}

/// `a` sorts before `b` up to ASCII case.
pub open spec fn text_lt(a: Seq<char>, b: Seq<char>) -> bool {
    text_lt_from(a, b, 0)
}

pub fn fold_case_char(c: char) -> (r: u32)
    ensures
        r as int == fold_case(c),
{
    let u = c as u32;
    if 97 <= u && u <= 122 {
        u - 32
    } else {
        u
    }
}

/// Whether two character vectors are the same name up to ASCII case.
pub fn same_name_chars(a: &Vec<char>, b: &Vec<char>) -> (r: bool)
    ensures
        r == same_name(a@, b@),
{
    let n = a.len();
    if n != b.len() {
        return false;
    }
    let mut j: usize = 0;
    while j < n
        invariant
            n == a@.len(),
            n == b@.len(),
            j <= n,
            forall|k: int| 0 <= k < j ==> fold_case(#[trigger] a@[k]) == fold_case(b@[k]),
        decreases n - j,
    {
        if fold_case_char(a[j]) != fold_case_char(b[j]) {
            return false;
        }
        j = j + 1;
    }
    true
}

/// Whether a string and a character vector are the same name up to ASCII case.
pub fn same_name_str(a: &String, b: &Vec<char>) -> (r: bool)
    ensures
        r == same_name(a@, b@),
{
    let n = a.as_str().unicode_len();
    if n != b.len() {
        return false;
    }
    let mut j: usize = 0;
    while j < n
        invariant
            n == a@.len(),
            n == b@.len(),
            j <= n,
            forall|k: int| 0 <= k < j ==> fold_case(#[trigger] a@[k]) == fold_case(b@[k]),
        decreases n - j,
    {
        if fold_case_char(a.as_str().get_char(j)) != fold_case_char(b[j]) {
            return false;
        }
        j = j + 1;
    }
    true
}

/// Whether two texts are the same up to ASCII case.
pub fn same_text(a: &str, b: &str) -> (r: bool)
    ensures
        r == same_name(a@, b@),
{
    let n = a.unicode_len();
    if n != b.unicode_len() {
        return false;
    }
    let mut j: usize = 0;
    while j < n
        invariant
            n == a@.len(),
            n == b@.len(),
            j <= n,
            forall|k: int| 0 <= k < j ==> fold_case(#[trigger] a@[k]) == fold_case(b@[k]),
        decreases n - j,
    {
        if fold_case_char(a.get_char(j)) != fold_case_char(b.get_char(j)) {
            return false;
        }
        j = j + 1;
    }
    true
}

/// Whether `a` sorts before `b` up to ASCII case.
pub fn text_less(a: &str, b: &str) -> (r: bool)
    ensures
        r == text_lt(a@, b@),
{
    let n = a.unicode_len();
    let m = b.unicode_len();
    let mut i: usize = 0;
    while i < n
        invariant
            n == a@.len(),
            m == b@.len(),
            i <= n,
            text_lt(a@, b@) == text_lt_from(a@, b@, i as int),
        decreases n - i,
    {
        if i >= m {
            return false;
        }
        let x = fold_case_char(a.get_char(i));
        let y = fold_case_char(b.get_char(i));
        if x != y {
            return x < y;
        }
        i = i + 1;
    }
    i < m
}

/// The characters of a string.
pub fn string_chars(s: &String) -> (v: Vec<char>)
    ensures
        v@ == s@,
{
    chars_of(s.as_str())
}

/// `a` is the character `k` (an upper-case keyword letter) up to ASCII case.
pub open spec fn upper_eq(a: char, k: char) -> bool {
    a == k || ('a' as u32 <= a as u32 <= 'z' as u32 && a as u32 == k as u32 + 32)
}

/// The word `w` spells the upper-case keyword `kw`, in any case.
pub open spec fn word_is(w: Seq<char>, kw: Seq<char>) -> bool {
    w.len() == kw.len() && forall|j: int| 0 <= j < w.len() ==> upper_eq(#[trigger] w[j], kw[j])
}

/// Whether the word `w` spells the upper-case keyword `kw`, in any case.
pub fn word_matches(w: &Vec<char>, kw: &str) -> (b: bool)
    ensures
        b == word_is(w@, kw@),
{
    let n = kw.unicode_len();
    if w.len() != n {
        return false;
    }
    let mut j: usize = 0;
    while j < n
        invariant
            n == kw@.len(),
            n == w@.len(),
            j <= n,
            forall|k: int| 0 <= k < j ==> upper_eq(#[trigger] w@[k], kw@[k]),
        decreases n - j,
    {
        let a = w[j];
        let k = kw.get_char(j);
        let au = a as u32;
        let ku = k as u32;
        let ok = a == k || (97 <= au && au <= 122 && ku <= 0x10ffff && au == ku + 32);
        if !ok {
            return false;
        }
        j = j + 1;
    }
    true
}

/// `text_lt` is asymmetric: of two texts, at most one sorts before the other.
pub proof fn lemma_text_lt_asymmetric(a: Seq<char>, b: Seq<char>, i: int)
    requires
        0 <= i,
    ensures
        text_lt_from(a, b, i) ==> !text_lt_from(b, a, i),
    decreases a.len() - i,
{
    if i < a.len() && i < b.len() && fold_case(a[i]) == fold_case(b[i]) {
        lemma_text_lt_asymmetric(a, b, i + 1);
    }
}

/// `text_lt` is negatively transitive: if `c` sorts before `a`, then any
/// `b` sorts after `c` or before `a`.
pub proof fn lemma_text_lt_negatively_transitive(a: Seq<char>, b: Seq<char>, c: Seq<char>, i: int)
    requires
        0 <= i,
        text_lt_from(c, a, i),
    ensures
        text_lt_from(c, b, i) || text_lt_from(b, a, i),
    decreases c.len() - i,
{
    if i < c.len() && i < a.len() && i < b.len() {
        let x = fold_case(c[i]);
        let y = fold_case(b[i]);
        let z = fold_case(a[i]);
        if x == z && y == x {
            lemma_text_lt_negatively_transitive(a, b, c, i + 1);
        }
    }
}

/// `a` and `b` agree up to ASCII case on their first `n` characters.
pub open spec fn same_prefix(a: Seq<char>, b: Seq<char>, n: int) -> bool {
    forall|j: int| 0 <= j < n ==> fold_case(#[trigger] a[j]) == fold_case(b[j])
}

/// `a` sorts before `b` by the lexicographic order on case-folded
/// characters: at the first position where they differ `a` has the smaller
/// character, or `a` is a proper prefix of `b`.
pub open spec fn lexicographic_lt(a: Seq<char>, b: Seq<char>) -> bool {
    ||| exists|k: int|
        0 <= k < a.len() && k < b.len() && same_prefix(a, b, k) && #[trigger] fold_case(a[k])
            < fold_case(b[k])
    ||| a.len() < b.len() && same_prefix(a, b, a.len() as int)
}

proof fn lemma_text_lt_from_lexicographic(a: Seq<char>, b: Seq<char>, i: int)
    requires
        0 <= i <= a.len(),
        i <= b.len(),
        same_prefix(a, b, i),
    ensures
        text_lt_from(a, b, i) <==> lexicographic_lt(a, b),
    decreases a.len() - i,
{
    if i >= a.len() {
        assert forall|k: int|
            0 <= k < a.len() && k < b.len() && same_prefix(a, b, k) implies !(#[trigger] fold_case(a[k])
            < fold_case(b[k])) by {
            assert(fold_case(a[k]) == fold_case(b[k]));
        }
    } else if i >= b.len() {
        assert forall|k: int|
            0 <= k < a.len() && k < b.len() && same_prefix(a, b, k) implies !(#[trigger] fold_case(a[k])
            < fold_case(b[k])) by {
            assert(fold_case(a[k]) == fold_case(b[k]));
        }
    } else if fold_case(a[i]) != fold_case(b[i]) {
        if fold_case(a[i]) < fold_case(b[i]) {
            assert(0 <= i < a.len() && i < b.len() && same_prefix(a, b, i) && fold_case(a[i]) < fold_case(b[i]));
        } else {
            assert forall|k: int|
                0 <= k < a.len() && k < b.len() && same_prefix(a, b, k) implies !(#[trigger] fold_case(a[k])
                < fold_case(b[k])) by {
                if k > i {
                    assert(fold_case(a[i]) == fold_case(b[i]));
                } else if k < i {
                    assert(fold_case(a[k]) == fold_case(b[k]));
                }
            }
            if a.len() < b.len() && same_prefix(a, b, a.len() as int) {
                assert(fold_case(a[i]) == fold_case(b[i]));
            }
        }
    } else {
        assert(same_prefix(a, b, i + 1));
        lemma_text_lt_from_lexicographic(a, b, i + 1);
        if exists|k: int|
            0 <= k < a.len() && k < b.len() && same_prefix(a, b, k) && #[trigger] fold_case(a[k])
                < fold_case(b[k]) {
            let k = choose|k: int|
                0 <= k < a.len() && k < b.len() && same_prefix(a, b, k) && #[trigger] fold_case(a[k])
                    < fold_case(b[k]);
            if k < i {
                assert(fold_case(a[k]) == fold_case(b[k]));
            }
        }
    }
}

/// The text order is the lexicographic order on characters folded to upper
/// case: `a` sorts before `b` exactly when, at the first position where they
/// differ up to case, `a`'s character is the smaller, or when `a` is a
/// proper prefix of `b` up to case.
pub proof fn law_text_order_is_lexicographic(a: Seq<char>, b: Seq<char>)
    ensures
        text_lt(a, b) <==> lexicographic_lt(a, b),
{
    lemma_text_lt_from_lexicographic(a, b, 0);
}

/// A text sorts before every longer text it begins (up to case), never after.
pub proof fn law_prefix_sorts_first(a: Seq<char>, b: Seq<char>)
    requires
        a.len() < b.len(),
        same_prefix(a, b, a.len() as int),
    ensures
        text_lt(a, b),
        !text_lt(b, a),
{
    law_text_order_is_lexicographic(a, b);
    lemma_text_lt_asymmetric(a, b, 0);
}

/// Texts equal up to case sort before one another in neither direction.
pub proof fn law_same_text_unordered(a: Seq<char>, b: Seq<char>)
    requires
        same_name(a, b),
    ensures
        !text_lt(a, b),
        !text_lt(b, a),
{
    law_text_order_is_lexicographic(a, b);
    law_text_order_is_lexicographic(b, a);
    assert forall|k: int|
        0 <= k < a.len() && k < b.len() && same_prefix(a, b, k) implies !(#[trigger] fold_case(a[k])
        < fold_case(b[k])) by {
        assert(fold_case(a[k]) == fold_case(b[k]));
    }
    assert forall|k: int|
        0 <= k < b.len() && k < a.len() && same_prefix(b, a, k) implies !(#[trigger] fold_case(b[k])
        < fold_case(a[k])) by {
        assert(fold_case(a[k]) == fold_case(b[k]));
    }
}

} // verus!
