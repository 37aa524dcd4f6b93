//! Character-level helpers: whitespace trimming, decimal rendering and
//! string building with specifications over `Seq<char>`.
use vstd::prelude::*;

verus! {

/// Unicode `White_Space` code points, the set that `char::is_whitespace` accepts.
pub open spec fn is_space(c: char) -> bool {
    let u = c as u32;
    ||| 0x09 <= u <= 0x0d
    ||| u == 0x20
    ||| u == 0x85
    ||| u == 0xa0
    ||| u == 0x1680
    ||| 0x2000 <= u <= 0x200a
    ||| u == 0x2028
    ||| u == 0x2029
    ||| u == 0x202f
    ||| u == 0x205f
    ||| u == 0x3000
}

/// Drops leading whitespace.
pub open spec fn trim_front(s: Seq<char>) -> Seq<char>
    decreases s.len(),
{
    if s.len() > 0 && is_space(s[0]) {
        trim_front(s.drop_first())
    } else {
        s
    }
}

/// Drops trailing whitespace.
pub open spec fn trim_back(s: Seq<char>) -> Seq<char>
    decreases s.len(),
{
    if s.len() > 0 && is_space(s.last()) {
        trim_back(s.drop_last())
    } else {
        s
    }
}

/// The text with leading and trailing whitespace removed (`str::trim`).
pub open spec fn trimmed(s: Seq<char>) -> Seq<char> {
    trim_back(trim_front(s))
}

/// Unicode lowercase mapping of a text, as `str::to_lowercase` computes it.
pub uninterp spec fn lowercase(s: Seq<char>) -> Seq<char>;

/// The ASCII digit for a value below ten.
pub open spec fn digit_char(d: nat) -> char {
    (48 + d) as char
}

/// Decimal rendering of a natural number, most significant digit first.
pub open spec fn decimal(n: nat) -> Seq<char>
    decreases n,
{
    if n < 10 {
        seq![digit_char(n)]
    } else {
        decimal(n / 10).push(digit_char(n % 10))
    }
}

/// Decimal rendering of an integer with a leading minus sign when negative.
pub open spec fn signed_decimal(n: int) -> Seq<char> {
    if n < 0 {
        seq!['-'] + decimal((-n) as nat)
    } else {
        decimal(n as nat)
    }
}

/// Whether `c` is whitespace in the sense of `is_space`.
pub fn char_is_space(c: char) -> (b: bool)
    ensures
        b == is_space(c),
{
    let u = c as u32;
    (0x09 <= u && u <= 0x0d) || u == 0x20 || u == 0x85 || u == 0xa0 || u == 0x1680 || (0x2000
        <= u && u <= 0x200a) || u == 0x2028 || u == 0x2029 || u == 0x202f || u == 0x205f || u
        == 0x3000
}

/// Appends one character (`String::push`).
#[verifier::external_body]
pub(crate) fn push_char(s: &mut String, c: char)
    ensures
        final(s)@ == old(s)@.push(c),
{
    s.push(c);
}

/// Appends a string slice.
pub fn push_str(s: &mut String, t: &str)
    ensures
        final(s)@ == old(s)@ + t@,
{
    s.append(t);
}

/// Builds an owned string from a slice.
pub fn owned(t: &str) -> (s: String)
    ensures
        s@ == t@,
{
    String::from_str(t)
}

/// Lowercases a text (`str::to_lowercase`).
#[verifier::external_body]
pub(crate) fn to_lowercase(t: &str) -> (s: String)
    ensures
        s@ == lowercase(t@),
{
    t.to_lowercase()
}

proof fn lemma_trim_front_at(s: Seq<char>, lo: int)
    requires
        0 <= lo <= s.len(),
        forall|i: int| 0 <= i < lo ==> is_space(#[trigger] s[i]),
        lo == s.len() || !is_space(s[lo]),
    ensures
        trim_front(s) == s.subrange(lo, s.len() as int),
    decreases lo,
{
    if lo == 0 {
        assert(s.subrange(0, s.len() as int) =~= s);
    } else {
        let t = s.drop_first();
        assert forall|i: int| 0 <= i < lo - 1 implies is_space(#[trigger] t[i]) by {
            assert(t[i] == s[i + 1]);
        }
        if lo - 1 < t.len() {
            assert(t[lo - 1] == s[lo]);
        }
        lemma_trim_front_at(t, lo - 1);
        assert(t.subrange(lo - 1, t.len() as int) =~= s.subrange(lo, s.len() as int));
    }
}

proof fn lemma_trim_back_at(s: Seq<char>, hi: int)
    requires
        0 <= hi <= s.len(),
        forall|i: int| hi <= i < s.len() ==> is_space(#[trigger] s[i]),
        hi == 0 || !is_space(s[hi - 1]),
    ensures
        trim_back(s) == s.subrange(0, hi),
    decreases s.len() - hi,
{
    if hi == s.len() {
        assert(s.subrange(0, hi) =~= s);
    } else {
        let t = s.drop_last();
        assert forall|i: int| hi <= i < t.len() implies is_space(#[trigger] t[i]) by {
            assert(t[i] == s[i]);
        }
        if hi > 0 {
            assert(t[hi - 1] == s[hi - 1]);
        }
        lemma_trim_back_at(t, hi);
        assert(t.subrange(0, hi) =~= s.subrange(0, hi));
    }
}

/// Removes leading and trailing whitespace (`str::trim`).
pub fn trim(t: &str) -> (s: String)
    ensures
        s@ == trimmed(t@),
{
    let n = t.unicode_len();
    let mut lo: usize = 0;
    while lo < n && char_is_space(t.get_char(lo))
        invariant
            n == t@.len(),
            lo <= n,
            forall|i: int| 0 <= i < lo ==> is_space(#[trigger] t@[i]),
        decreases n - lo,
    {
        lo = lo + 1;
    }
    proof {
        lemma_trim_front_at(t@, lo as int);
    }
    let mut hi: usize = n;
    while hi > lo && char_is_space(t.get_char(hi - 1))
        invariant
            n == t@.len(),
            lo <= hi <= n,
            forall|i: int| hi <= i < n ==> is_space(#[trigger] t@[i]),
        decreases hi,
    {
        hi = hi - 1;
    }
    proof {
        let f = t@.subrange(lo as int, n as int);
        let h = (hi - lo) as int;
        assert forall|i: int| h <= i < f.len() implies is_space(#[trigger] f[i]) by {
            assert(f[i] == t@[lo + i]);
        }
        if h > 0 {
            assert(f[h - 1] == t@[hi - 1]);
        }
        lemma_trim_back_at(f, h);
        assert(f.subrange(0, h) =~= t@.subrange(lo as int, hi as int));
    }
    String::from_str(t.substring_char(lo, hi))
}

/// Appends the decimal rendering of `n`.
pub fn push_decimal(out: &mut String, n: u64)
    ensures
        final(out)@ == old(out)@ + decimal(n as nat),
    decreases n,
{
    if n >= 10 {
        push_decimal(out, n / 10);
    }
    let d = (n % 10) as u8;
    push_char(out, (48u8 + d) as char);
    proof {
        if n >= 10 {
            assert(decimal(n as nat) == decimal((n / 10) as nat).push(digit_char((n % 10) as nat)));
        }
    }
    assert(final(out)@ =~= old(out)@ + decimal(n as nat));
}

/// Appends the decimal rendering of a signed value.
pub fn push_signed_decimal(out: &mut String, n: i64)
    ensures
        final(out)@ == old(out)@ + signed_decimal(n as int),
{
    if n < 0 {
        push_char(out, '-');
        let m: u64 = (-(n as i128)) as u64;
        push_decimal(out, m);
        assert(final(out)@ =~= old(out)@ + signed_decimal(n as int));
    } else {
        push_decimal(out, n as u64);
    }
}

/// Decimal rendering of an unsigned value.
pub fn decimal_string(n: u64) -> (s: String)
    ensures
        s@ == decimal(n as nat),
{
    let mut s = String::new();
    push_decimal(&mut s, n);
    assert(s@ =~= decimal(n as nat));
    s
}

/// Whether `t` ends with `suffix`.
pub fn ends_with(t: &str, suffix: &str) -> (b: bool)
    ensures
        b == (suffix@.len() <= t@.len() && t@.subrange(t@.len() - suffix@.len(), t@.len() as int)
            == suffix@),
{
    let n = t.unicode_len();
    let m = suffix.unicode_len();
    if m > n {
        return false;
    }
    let mut i: usize = 0;
    while i < m
        invariant
            n == t@.len(),
            m == suffix@.len(),
            m <= n,
            i <= m,
            forall|j: int| 0 <= j < i ==> t@[n - m + j] == suffix@[j],
        decreases m - i,
    {
        if t.get_char(n - m + i) != suffix.get_char(i) {
            assert(t@.subrange(n - m, n as int)[i as int] != suffix@[i as int]);
            return false;
        }
        i = i + 1;
    }
    assert(t@.subrange(n - m, n as int) =~= suffix@);
    true
}

/// ASCII lowercase of one character: `A`..`Z` map to `a`..`z`, the rest stay.
pub open spec fn ascii_lower_char(c: char) -> char {
    if 'A' <= c && c <= 'Z' {
        ((c as u32) + 32) as char
    } else {
        c
    }
}

/// ASCII lowercase of a text (`str::to_ascii_lowercase`).
pub open spec fn ascii_lower(s: Seq<char>) -> Seq<char> {
    s.map_values(|c: char| ascii_lower_char(c))
}

/// Lowercases the ASCII letters of `t`.
pub fn ascii_lowercase(t: &str) -> (s: String)
    ensures
        s@ == ascii_lower(t@),
{
    let n = t.unicode_len();
    let mut s = String::new();
    let mut i: usize = 0;
    while i < n
        invariant
            n == t@.len(),
            i <= n,
            s@ == ascii_lower(t@.take(i as int)),
        decreases n - i,
    {
        let c = t.get_char(i);
        let lower = if 'A' <= c && c <= 'Z' {
            ((c as u8) + 32) as char
        } else {
            c
        };
        push_char(&mut s, lower);
        assert(t@.take(i + 1) =~= t@.take(i as int).push(c));
        assert(s@ =~= ascii_lower(t@.take(i + 1)));
        i = i + 1;
    }
    assert(t@.take(n as int) =~= t@);
    s
}

/// Whether two texts are equal, character by character.
pub fn text_eq(a: &str, b: &str) -> (r: bool)
    ensures
        r == (a@ == b@),
{
    let n = a.unicode_len();
    if n != b.unicode_len() {
        return false;
    }
    let mut i: usize = 0;
    while i < n
        invariant
            n == a@.len(),
            n == b@.len(),
            i <= n,
            forall|j: int| 0 <= j < i ==> a@[j] == b@[j],
        decreases n - i,
    {
        if a.get_char(i) != b.get_char(i) {
            return false;
        }
        i = i + 1;
    }
    assert(a@ =~= b@);
    true
}

/// View of an optional string.
pub open spec fn opt_view(o: Option<String>) -> Option<Seq<char>> {
    match o {
        Some(s) => Some(s@),
        None => None,
    }
}

/// View of a list of strings.
pub open spec fn strs_view(v: Seq<String>) -> Seq<Seq<char>> {
    v.map_values(|s: String| s@)
}

/// An equal copy of an optional string.
pub fn copy_opt(o: &Option<String>) -> (r: Option<String>)
    ensures
        opt_view(r) == opt_view(*o),
{
    match o {
        Some(s) => Some(s.clone()),
        None => None,
    }
}

/// An equal copy of a list of strings.
pub fn copy_strs(v: &Vec<String>) -> (r: Vec<String>)
    ensures
        strs_view(r@) == strs_view(v@),
{
    let mut r: Vec<String> = Vec::new();
    let mut i: usize = 0;
    while i < v.len()
        invariant
            i <= v.len(),
            r@.len() == i,
            forall|j: int| 0 <= j < i ==> #[trigger] r@[j]@ == v@[j]@,
        decreases v.len() - i,
    {
        r.push(v[i].clone());
        i = i + 1;
    }
    assert(strs_view(r@) =~= strs_view(v@));
    r
}

/// Whether two optional strings are equal.
pub fn opt_eq(a: &Option<String>, b: &Option<String>) -> (r: bool)
    ensures
        r == (opt_view(*a) == opt_view(*b)),
{
    match (a, b) {
        (Some(x), Some(y)) => x.eq(y),
        (None, None) => true,
        _ => false,
    }
}

/// Whether two lists of strings are equal.
pub fn strs_eq(a: &Vec<String>, b: &Vec<String>) -> (r: bool)
    ensures
        r == (strs_view(a@) == strs_view(b@)),
{
    if a.len() != b.len() {
        assert(strs_view(a@).len() != strs_view(b@).len());
        return false;
    }
    let mut i: usize = 0;
    while i < a.len()
        invariant
            i <= a.len(),
            a.len() == b.len(),
            forall|j: int| 0 <= j < i ==> #[trigger] a@[j]@ == b@[j]@,
        decreases a.len() - i,
    {
        if a[i] != b[i] {
            assert(strs_view(a@)[i as int] != strs_view(b@)[i as int]);
            return false;
        }
        i = i + 1;
    }
    assert(strs_view(a@) =~= strs_view(b@));
    true
}

/// Whether `needle` occurs as a contiguous part of `hay`.
pub open spec fn contains_text(hay: Seq<char>, needle: Seq<char>) -> bool {
    exists|i: int|
        0 <= i && i + needle.len() <= hay.len() && #[trigger] hay.subrange(i, i + needle.len())
            == needle
}

/// Substring search.
pub fn text_contains(hay: &str, needle: &str) -> (b: bool)
    ensures
        b == contains_text(hay@, needle@),
{
    let n = hay.unicode_len();
    let m = needle.unicode_len();
    if m > n {
        assert forall|i: int| 0 <= i && i + m <= n implies #[trigger] hay@.subrange(i, i + m)
            != needle@ by {}
        return false;
    }
    let mut i: usize = 0;
    while i <= n - m
        invariant
            n == hay@.len(),
            m == needle@.len(),
            m <= n,
            i <= n - m + 1,
            forall|k: int| 0 <= k < i ==> #[trigger] hay@.subrange(k, k + m) != needle@,
        decreases n - i,
    {
        let mut j: usize = 0;
        let mut same = true;
        while j < m
            invariant
                n == hay@.len(),
                m == needle@.len(),
                i + m <= n,
                j <= m,
                same == forall|q: int| 0 <= q < j ==> hay@[i + q] == needle@[q],
            decreases m - j,
        {
            if hay.get_char(i + j) != needle.get_char(j) {
                same = false;
            }
            j = j + 1;
        }
        if same {
            assert(hay@.subrange(i as int, i + m) =~= needle@);
            return true;
        } else {
            assert(hay@.subrange(i as int, i + m) != needle@) by {
                let q = choose|q: int| 0 <= q < m && hay@[i + q] != needle@[q];
                assert(hay@.subrange(i as int, i + m)[q] != needle@[q]);
            }
        }
        i = i + 1;
    }
    false
}


/// `a` and `b` agree on their first `k` characters.
pub open spec fn agree_upto(a: Seq<char>, b: Seq<char>, k: int) -> bool {
    forall|j: int| 0 <= j < k ==> #[trigger] a[j] == b[j]
}

/// `a` sorts before `b` at position `k`: they agree before it, and there `a`
/// ends while `b` goes on, or `a` has the smaller character.
pub open spec fn lt_at(a: Seq<char>, b: Seq<char>, k: int) -> bool {
    &&& 0 <= k <= a.len()
    &&& k <= b.len()
    &&& agree_upto(a, b, k)
    &&& (k == a.len() && k < b.len()) || (k < a.len() && k < b.len() && a[k] < b[k])
}

/// Lexicographic order on texts by character code (the order of `str`'s `Ord`).
pub open spec fn text_lt(a: Seq<char>, b: Seq<char>) -> bool {
    exists|k: int| #[trigger] lt_at(a, b, k)
}

/// Texts in strictly increasing order.
pub open spec fn strictly_sorted(s: Seq<Seq<char>>) -> bool {
    forall|i: int, j: int| 0 <= i < j < s.len() ==> text_lt(#[trigger] s[i], #[trigger] s[j])
}

pub proof fn lemma_text_lt_irreflexive(a: Seq<char>)
    ensures
        !text_lt(a, a),
{
}

pub proof fn lemma_text_lt_transitive(a: Seq<char>, b: Seq<char>, c: Seq<char>)
    requires
        text_lt(a, b),
        text_lt(b, c),
    ensures
        text_lt(a, c),
{
    let k1 = choose|k: int| lt_at(a, b, k);
    let k2 = choose|k: int| lt_at(b, c, k);
    if k1 < k2 {
        assert(lt_at(a, c, k1));
    } else if k2 < k1 {
        assert(lt_at(a, c, k2));
    } else {
        assert(lt_at(a, c, k1));
    }
}

pub proof fn lemma_text_lt_asymmetric(a: Seq<char>, b: Seq<char>)
    requires
        text_lt(a, b),
    ensures
        !text_lt(b, a),
{
    if text_lt(b, a) {
        lemma_text_lt_transitive(a, b, a);
    }
}

proof fn lemma_text_total_from(a: Seq<char>, b: Seq<char>, i: int)
    requires
        0 <= i <= a.len(),
        i <= b.len(),
        agree_upto(a, b, i),
        a != b,
    ensures
        text_lt(a, b) || text_lt(b, a),
    decreases a.len() - i,
{
    if i == a.len() && i == b.len() {
        assert(a =~= b);
    } else if i == a.len() {
        assert(lt_at(a, b, i));
    } else if i == b.len() {
        assert(lt_at(b, a, i));
    } else if a[i] < b[i] {
        assert(lt_at(a, b, i));
    } else if b[i] < a[i] {
        assert(lt_at(b, a, i));
    } else {
        lemma_text_total_from(a, b, i + 1);
    }
}

pub proof fn lemma_text_lt_total(a: Seq<char>, b: Seq<char>)
    requires
        a != b,
    ensures
        text_lt(a, b) || text_lt(b, a),
{
    lemma_text_total_from(a, b, 0);
}

/// Whether `a` sorts before `b` by character code.
pub fn text_less(a: &str, b: &str) -> (r: bool)
    ensures
        r == text_lt(a@, b@),
{
    let na = a.unicode_len();
    let nb = b.unicode_len();
    let mut i: usize = 0;
    while i < na && i < nb
        invariant
            na == a@.len(),
            nb == b@.len(),
            i <= na,
            i <= nb,
            agree_upto(a@, b@, i as int),
        decreases na - i,
    {
        let x = a.get_char(i);
        let y = b.get_char(i);
        if x != y {
            if x < y {
                assert(lt_at(a@, b@, i as int));
                return true;
            } else {
                assert forall|k: int| !#[trigger] lt_at(a@, b@, k) by {
                    if lt_at(a@, b@, k) && k > i {
                        assert(a@[i as int] == b@[i as int]);
                    }
                }
                return false;
            }
        }
        i = i + 1;
    }
    if na < nb {
        assert(lt_at(a@, b@, na as int));
        true
    } else {
        assert forall|k: int| !#[trigger] lt_at(a@, b@, k) by {}
        false
    }
}

/// Inserts `x` into a strictly sorted list of texts unless it is already there.
pub fn insert_sorted(v: &mut Vec<String>, x: String)
    requires
        strictly_sorted(strs_view(old(v)@)),
    ensures
        strictly_sorted(strs_view(final(v)@)),
        strs_view(final(v)@).to_set() == strs_view(old(v)@).to_set().insert(x@),
{
    let ghost s0 = strs_view(v@);
    let mut i: usize = 0;
    while i < v.len() && text_less(v[i].as_str(), x.as_str())
        invariant
            s0 == strs_view(v@),
            strictly_sorted(s0),
            i <= v.len(),
            forall|j: int| 0 <= j < i ==> text_lt(#[trigger] s0[j], x@),
        decreases v.len() - i,
    {
        assert(s0[i as int] == v@[i as int]@);
        i = i + 1;
    }
    if i < v.len() && text_eq(v[i].as_str(), x.as_str()) {
        assert(s0[i as int] == x@);
        assert(s0.to_set() =~= s0.to_set().insert(x@));
        return;
    }
    proof {
        if i < v.len() {
            assert(s0[i as int] == v@[i as int]@);
            lemma_text_lt_total(s0[i as int], x@);
        }
    }
    v.insert(i, x);
    proof {
        let s1 = strs_view(v@);
        assert(s1 =~= s0.insert(i as int, x@));
        assert forall|a: int, b: int| 0 <= a < b < s1.len() implies text_lt(#[trigger] s1[a], #[trigger] s1[b]) by {
            if b < i {
                assert(s1[a] == s0[a] && s1[b] == s0[b]);
            } else if b == i {
                assert(s1[a] == s0[a]);
            } else if a == i {
                assert(s1[b] == s0[b - 1]);
                if b - 1 > i {
                    lemma_text_lt_transitive(x@, s0[i as int], s0[b - 1]);
                }
            } else if a < i {
                assert(s1[a] == s0[a]);
                assert(s1[b] == s0[b - 1]);
                if b - 1 >= i {
                    lemma_text_lt_transitive(s0[a], x@, s0[i as int]);
                    if b - 1 > i {
                        lemma_text_lt_transitive(s0[a], s0[i as int], s0[b - 1]);
                    }
                }
            } else {
                assert(s1[a] == s0[a - 1]);
                assert(s1[b] == s0[b - 1]);
            }
        }
        assert(s1.to_set() =~= s0.to_set().insert(x@)) by {
            assert forall|y: Seq<char>| s1.to_set().contains(y) implies s0.to_set().insert(x@).contains(y) by {
                let w = choose|w: int| 0 <= w < s1.len() && s1[w] == y;
                if w < i {
                    assert(s0[w] == y);
                } else if w > i {
                    assert(s0[w - 1] == y);
                }
            }
            assert forall|y: Seq<char>| s0.to_set().insert(x@).contains(y) implies s1.to_set().contains(y) by {
                if y == x@ {
                    assert(s1[i as int] == y);
                } else {
                    let w = choose|w: int| 0 <= w < s0.len() && s0[w] == y;
                    if w < i {
                        assert(s1[w] == y);
                    } else {
                        assert(s1[w + 1] == y);
                    }
                }
            }
        }
    }
}

} // verus!
