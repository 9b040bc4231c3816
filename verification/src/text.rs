//! Character-level text operations used by the matcher and the hotkey parser:
//! substring search, ASCII case folding, lexicographic order, and Unicode
//! whitespace trimming, each proved against a mathematical definition over
//! `Seq<char>`.
use vstd::prelude::*;

verus! {

// ── Definitions ─────────────────────────────────────────────────────

/// `pat` occurs as a contiguous run inside `text` (the empty pattern occurs in
/// every text).
pub open spec fn occurs_in(pat: Seq<char>, text: Seq<char>) -> bool {
    exists|i: int| 0 <= i <= text.len() - pat.len() && #[trigger] text.subrange(i, i + pat.len()) == pat
}

/// The code of a character with ASCII `A`..`Z` mapped to `a`..`z`.
pub open spec fn ascii_lower(c: char) -> u32 {
    if 0x41 <= (c as u32) <= 0x5A {
        ((c as u32) + 32) as u32
    } else {
        c as u32
    }
}

/// The code of a character with ASCII `a`..`z` mapped to `A`..`Z`.
pub open spec fn ascii_upper(c: char) -> u32 {
    if 0x61 <= (c as u32) <= 0x7A {
        ((c as u32) - 32) as u32
    } else {
        c as u32
    }
}

/// Equality up to ASCII case: same length, and the characters agree once
/// ASCII letters are folded to lower case.
pub open spec fn eq_ignore_ascii_case(a: Seq<char>, b: Seq<char>) -> bool {
    &&& a.len() == b.len()
    &&& forall|i: int| 0 <= i < a.len() ==> #[trigger] ascii_lower(a[i]) == ascii_lower(b[i])
}

/// Lexicographic order on character codes (the order of `str`, since UTF-8
/// preserves the order of code points): `a` comes no later than `b`.
pub open spec fn lex_le(a: Seq<char>, b: Seq<char>) -> bool
    decreases a.len(),
{
    if a.len() == 0 {
        true
    } else if b.len() == 0 {
        false
    } else if (a[0] as u32) < (b[0] as u32) {
        true
    } else if (a[0] as u32) == (b[0] as u32) {
        lex_le(a.drop_first(), b.drop_first())
    } else {
        false
    }
}

/// The Unicode `White_Space` property, which `char::is_whitespace` tests.
pub open spec fn is_white_space(c: char) -> bool {
    let u = c as u32;
    ||| 0x09 <= u <= 0x0D
    ||| u == 0x20
    ||| u == 0x85
    ||| u == 0xA0
    ||| u == 0x1680
    ||| 0x2000 <= u <= 0x200A
    ||| u == 0x2028
    ||| u == 0x2029
    ||| u == 0x202F
    ||| u == 0x205F
    ||| u == 0x3000
}

/// `s` without its leading white space.
pub open spec fn trim_start(s: Seq<char>) -> Seq<char>
    decreases s.len(),
{
    if s.len() > 0 && is_white_space(s[0]) {
        trim_start(s.drop_first())
    } else {
        s
    }
}

/// `s` without its trailing white space.
pub open spec fn trim_end(s: Seq<char>) -> Seq<char>
    decreases s.len(),
{
    if s.len() > 0 && is_white_space(s.last()) {
        trim_end(s.drop_last())
    } else {
        s
    }
}

/// `s` without leading and trailing white space (what `str::trim` returns).
pub open spec fn trim(s: Seq<char>) -> Seq<char> {
    trim_end(trim_start(s))
}

// ── Lemmas ────────────────────────────────────────────────────────

/// Upper-casing maps each ASCII lower-case letter to the code 32 below it
/// (`a` to `A`) and leaves every other character's code as it is;
/// lower-casing maps each ASCII upper-case letter to the code 32 above it
/// (`A` to `a`) and leaves every other code as it is.
pub proof fn lemma_ascii_case_codes(c: char)
    ensures
        0x61 <= (c as u32) <= 0x7A ==> ascii_upper(c) == (c as u32) - 32,
        !(0x61 <= (c as u32) <= 0x7A) ==> ascii_upper(c) == (c as u32),
        0x41 <= (c as u32) <= 0x5A ==> ascii_lower(c) == (c as u32) + 32,
        !(0x41 <= (c as u32) <= 0x5A) ==> ascii_lower(c) == (c as u32),
{
}

/// An upper-case ASCII letter and its lower-case letter (the code 32 above)
/// are equal up to ASCII case, as one-character texts and against any other
/// text.
pub proof fn lemma_letter_pair_case_equal(upper: char, lower: char, k: Seq<char>)
    requires
        0x41 <= (upper as u32) <= 0x5A,
        (lower as u32) == (upper as u32) + 32,
    ensures
        eq_ignore_ascii_case(seq![upper], seq![lower]),
        eq_ignore_ascii_case(k, seq![upper]) == eq_ignore_ascii_case(k, seq![lower]),
{
    lemma_ascii_case_codes(upper);
    lemma_ascii_case_codes(lower);
    assert(ascii_lower(upper) == ascii_lower(lower));
    assert(seq![upper][0] == upper);
    assert(seq![lower][0] == lower);
    if k.len() == 1 {
        assert(eq_ignore_ascii_case(k, seq![upper]) == (ascii_lower(k[0]) == ascii_lower(upper)));
        assert(eq_ignore_ascii_case(k, seq![lower]) == (ascii_lower(k[0]) == ascii_lower(lower)));
    }
}

/// Every sequence is in lexicographic order with itself.
pub proof fn lemma_lex_le_reflexive(a: Seq<char>)
    ensures
        lex_le(a, a),
    decreases a.len(),
{
    if a.len() > 0 {
        lemma_lex_le_reflexive(a.drop_first());
    }
}

proof fn lemma_char_code_injective(c1: char, c2: char)
    requires
        (c1 as u32) == (c2 as u32),
    ensures
        c1 == c2,
{
}

/// Two sequences that are each no later than the other are equal.
pub proof fn lemma_lex_le_antisymmetric(a: Seq<char>, b: Seq<char>)
    requires
        lex_le(a, b),
        lex_le(b, a),
    ensures
        a == b,
    decreases a.len(),
{
    if a.len() == 0 || b.len() == 0 {
        assert(a.len() == 0 && b.len() == 0);
        assert(a =~= b);
    } else {
        lemma_char_code_injective(a[0], b[0]);
        lemma_lex_le_antisymmetric(a.drop_first(), b.drop_first());
        assert(a =~= seq![a[0]] + a.drop_first());
        assert(b =~= seq![b[0]] + b.drop_first());
    }
}

/// Any two sequences are comparable.
pub proof fn lemma_lex_le_total(a: Seq<char>, b: Seq<char>)
    ensures
        lex_le(a, b) || lex_le(b, a),
    decreases a.len(),
{
    if a.len() > 0 && b.len() > 0 && (a[0] as u32) == (b[0] as u32) {
        lemma_lex_le_total(a.drop_first(), b.drop_first());
    }
}

/// The lexicographic order is transitive.
pub proof fn lemma_lex_le_transitive(a: Seq<char>, b: Seq<char>, c: Seq<char>)
    requires
        lex_le(a, b),
        lex_le(b, c),
    ensures
        lex_le(a, c),
    decreases a.len(),
{
    if a.len() > 0 && b.len() > 0 && c.len() > 0 && (a[0] as u32) == (b[0] as u32) && (b[0] as u32)
        == (c[0] as u32) {
        lemma_lex_le_transitive(a.drop_first(), b.drop_first(), c.drop_first());
    }
}

proof fn lemma_trim_start_skip(s: Seq<char>, k: int)
    requires
        0 <= k <= s.len(),
        forall|i: int| 0 <= i < k ==> is_white_space(#[trigger] s[i]),
        k == s.len() || !is_white_space(s[k]),
    ensures
        trim_start(s) == s.skip(k),
    decreases k,
{
    if k == 0 {
        assert(s.skip(0) =~= s);
    } else {
        let t = s.drop_first();
        assert forall|i: int| 0 <= i < k - 1 implies is_white_space(#[trigger] t[i]) by {
            assert(t[i] == s[i + 1]);
        }
        lemma_trim_start_skip(t, k - 1);
        assert(t.skip(k - 1) =~= s.skip(k));
    }
}

proof fn lemma_trim_end_take(s: Seq<char>, k: int)
    requires
        0 <= k <= s.len(),
        forall|i: int| k <= i < s.len() ==> is_white_space(#[trigger] s[i]),
        k == 0 || !is_white_space(s[k - 1]),
    ensures
        trim_end(s) == s.take(k),
    decreases s.len() - k,
{
    if k == s.len() {
        assert(s.take(k) =~= s);
    } else {
        let t = s.drop_last();
        assert forall|i: int| k <= i < t.len() implies is_white_space(#[trigger] t[i]) by {
            assert(t[i] == s[i]);
        }
        assert(is_white_space(s[s.len() - 1]));
        lemma_trim_end_take(t, k);
        assert(t.take(k) =~= s.take(k));
    }
}

// ── Executable operations ───────────────────────────────────────────

/// The characters of `s`, in order.
pub fn chars_of(s: &str) -> (v: Vec<char>)
    ensures
        v@ == s@,
{
    let mut v: Vec<char> = Vec::new();
    for c in it: s.chars()
        invariant
            it.seq() == s@,
            v@ == it.seq().take(it.index() as int),
    {
        v.push(c);
    }
    v
}

/// Whether `c` has the Unicode `White_Space` property.
pub fn is_white_space_char(c: char) -> (b: bool)
    ensures
        b == is_white_space(c),
{
    let u = c as u32;
    (0x09 <= u && u <= 0x0D) || u == 0x20 || u == 0x85 || u == 0xA0 || u == 0x1680 || (0x2000
        <= u && u <= 0x200A) || u == 0x2028 || u == 0x2029 || u == 0x202F || u == 0x205F || u
        == 0x3000
}

/// The code of `c` with ASCII `a`..`z` mapped to `A`..`Z`.
pub fn ascii_upper_code(c: char) -> (u: u32)
    ensures
        u == ascii_upper(c),
{
    let u = c as u32;
    if 0x61 <= u && u <= 0x7A {
        u - 32
    } else {
        u
    }
}

/// The code of `c` with ASCII `A`..`Z` mapped to `a`..`z`.
pub fn ascii_lower_code(c: char) -> (u: u32)
    ensures
        u == ascii_lower(c),
{
    let u = c as u32;
    if 0x41 <= u && u <= 0x5A {
        u + 32
    } else {
        u
    }
}

/// Whether two character sequences are equal.
pub fn chars_equal(a: &[char], b: &[char]) -> (r: bool)
    ensures
        r == (a@ == b@),
{
    if a.len() != b.len() {
        return false;
    }
    let mut i: usize = 0;
    while i < a.len()
        invariant
            i <= a.len(),
            a.len() == b.len(),
            forall|k: int| 0 <= k < i ==> a@[k] == b@[k],
        decreases a.len() - i,
    {
        if a[i] != b[i] {
            return false;
        }
        i += 1;
    }
    assert(a@ =~= b@);
    true
}

/// Whether the run of `text` starting at `start` spells `pat`.
fn occurs_at(text: &[char], pat: &[char], start: usize) -> (r: bool)
    requires
        start + pat@.len() <= text@.len(),
    ensures
        r == (text@.subrange(start as int, start + pat@.len()) == pat@),
{
    let mut k: usize = 0;
    while k < pat.len()
        invariant
            k <= pat@.len(),
            start + pat@.len() <= text@.len(),
            forall|j: int| 0 <= j < k ==> text@[start + j] == pat@[j],
        decreases pat.len() - k,
    {
        assert(text@.len() == text.len());
        if text[start + k] != pat[k] {
            assert(text@.subrange(start as int, start + pat@.len())[k as int] != pat@[k as int]);
            return false;
        }
        k += 1;
    }
    assert(text@.subrange(start as int, start + pat@.len()) =~= pat@);
    true
}

/// Whether `pat` occurs as a contiguous run inside `text`.
pub fn chars_contain(text: &[char], pat: &[char]) -> (r: bool)
    ensures
        r == occurs_in(pat@, text@),
{
    if pat.len() > text.len() {
        return false;
    }
    let last = text.len() - pat.len();
    let mut i: usize = 0;
    while i <= last
        invariant
            last == text@.len() - pat@.len(),
            i <= last + 1,
            forall|j: int| 0 <= j < i ==> #[trigger] text@.subrange(j, j + pat@.len()) != pat@,
        decreases last + 1 - i,
    {
        if occurs_at(text, pat, i) {
            return true;
        }
        if i == last {
            return false;
        }
        i += 1;
    }
    false
}

/// Whether `pat` occurs inside `text` (what `str::contains` answers for a
/// string pattern).
pub fn str_contains(text: &str, pat: &str) -> (r: bool)
    ensures
        r == occurs_in(pat@, text@),
{
    let t = chars_of(text);
    let p = chars_of(pat);
    chars_contain(t.as_slice(), p.as_slice())
}

/// Equality up to ASCII case.
pub fn chars_eq_ignore_ascii_case(a: &[char], b: &[char]) -> (r: bool)
    ensures
        r == eq_ignore_ascii_case(a@, b@),
{
    if a.len() != b.len() {
        return false;
    }
    let mut i: usize = 0;
    while i < a.len()
        invariant
            i <= a.len(),
            a.len() == b.len(),
            forall|k: int| 0 <= k < i ==> #[trigger] ascii_lower(a@[k]) == ascii_lower(b@[k]),
        decreases a.len() - i,
    {
        if ascii_lower_code(a[i]) != ascii_lower_code(b[i]) {
            return false;
        }
        i += 1;
    }
    true
}

/// Whether `a` comes no later than `b` in lexicographic order.
pub fn chars_lex_le(a: &[char], b: &[char]) -> (r: bool)
    ensures
        r == lex_le(a@, b@),
{
    let mut i: usize = 0;
    assert(a@.skip(0) =~= a@);
    assert(b@.skip(0) =~= b@);
    while i < a.len() && i < b.len() && (a[i] as u32) == (b[i] as u32)
        invariant
            i <= a@.len(),
            i <= b@.len(),
            lex_le(a@, b@) == lex_le(a@.skip(i as int), b@.skip(i as int)),
        decreases a.len() - i,
    {
        proof {
            let sa = a@.skip(i as int);
            let sb = b@.skip(i as int);
            assert(sa.drop_first() =~= a@.skip(i + 1));
            assert(sb.drop_first() =~= b@.skip(i + 1));
        }
        i += 1;
    }
    proof {
        let sa = a@.skip(i as int);
        let sb = b@.skip(i as int);
        if i < a.len() && i < b.len() {
            assert(sa[0] == a@[i as int]);
            assert(sb[0] == b@[i as int]);
        }
    }
    if i == a.len() {
        true
    } else if i == b.len() {
        false
    } else {
        (a[i] as u32) < (b[i] as u32)
    }
}

/// `s` without leading and trailing Unicode white space.
pub fn trim_chars(s: &[char]) -> (t: Vec<char>)
    ensures
        t@ == trim(s@),
{
    let n = s.len();
    let mut a: usize = 0;
    while a < n && is_white_space_char(s[a])
        invariant
            a <= n,
            n == s@.len(),
            forall|i: int| 0 <= i < a ==> is_white_space(#[trigger] s@[i]),
        decreases n - a,
    {
        a += 1;
    }
    proof {
        lemma_trim_start_skip(s@, a as int);
    }
    let mut b: usize = n;
    while b > a && is_white_space_char(s[b - 1])
        invariant
            a <= b <= n,
            n == s@.len(),
            forall|i: int| b <= i < n ==> is_white_space(#[trigger] s@[i]),
        decreases b,
    {
        b -= 1;
    }
    let mut t: Vec<char> = Vec::new();
    let mut i: usize = a;
    while i < b
        invariant
            a <= i <= b <= n,
            n == s@.len(),
            t@ == s@.subrange(a as int, i as int),
        decreases b - i,
    {
        t.push(s[i]);
        i += 1;
    }
    proof {
        let st = s@.skip(a as int);
        let k = (b - a) as int;
        assert forall|j: int| k <= j < st.len() implies is_white_space(#[trigger] st[j]) by {
            assert(st[j] == s@[a + j]);
        }
        if k > 0 {
            assert(st[k - 1] == s@[b - 1]);
        }
        lemma_trim_end_take(st, k);
        assert(st.take(k) =~= s@.subrange(a as int, b as int));
    }
    t
}

} // verus!
