//! Character classes of the shell grammar, byte-length accounting for
//! diagnostics, and conversions between `String` and `Vec<char>` on which the
//! lexer and parser operate.

use vstd::prelude::*;

verus! {

/// Characters that may form a bare word: letters, digits and `/ _ - : . ~`.
pub open spec fn is_word_char(c: char) -> bool {
    ('a' <= c && c <= 'z') || ('A' <= c && c <= 'Z') || ('0' <= c && c <= '9') || c == '/'
        || c == '_' || c == '-' || c == ':' || c == '.' || c == '~'
}

/// Decimal digits, which form number literals.
pub open spec fn is_digit_char(c: char) -> bool {
    '0' <= c && c <= '9'
}

/// Characters allowed in a variable name: letters, digits and `_`.
pub open spec fn is_name_char(c: char) -> bool {
    ('a' <= c && c <= 'z') || ('A' <= c && c <= 'Z') || ('0' <= c && c <= '9') || c == '_'
}

pub fn word_char(c: char) -> (b: bool)
    ensures
        b == is_word_char(c),
{
    ('a' <= c && c <= 'z') || ('A' <= c && c <= 'Z') || ('0' <= c && c <= '9') || c == '/'
        || c == '_' || c == '-' || c == ':' || c == '.' || c == '~'
}

pub fn digit_char(c: char) -> (b: bool)
    ensures
        b == is_digit_char(c),
{
    '0' <= c && c <= '9'
}

pub fn name_char(c: char) -> (b: bool)
    ensures
        b == is_name_char(c),
{
    ('a' <= c && c <= 'z') || ('A' <= c && c <= 'Z') || ('0' <= c && c <= '9') || c == '_'
}

/// How many bytes the UTF-8 encoding of one character takes.
pub open spec fn char_byte_len(c: char) -> int {
    if (c as u32) < 0x80 {
        1
    } else if (c as u32) < 0x800 {
        2
    } else if (c as u32) < 0x10000 {
        3
    } else {
        4
    }
}

/// Total UTF-8 byte length of a character sequence.
pub open spec fn byte_len_of(s: Seq<char>) -> int
    decreases s.len(),
{
    if s.len() == 0 {
        0
    } else {
        byte_len_of(s.drop_last()) + char_byte_len(s.last())
    }
}

pub proof fn lemma_byte_len_nonneg(s: Seq<char>)
    ensures
        byte_len_of(s) >= s.len(),
        s.len() > 0 ==> byte_len_of(s) >= 1,
    decreases s.len(),
{
    if s.len() > 0 {
        lemma_byte_len_nonneg(s.drop_last());
    }
}

pub proof fn lemma_byte_len_take_succ(s: Seq<char>, i: int)
    requires
        0 <= i < s.len(),
    ensures
        byte_len_of(s.take(i + 1)) == byte_len_of(s.take(i)) + char_byte_len(s[i]),
{
    let t = s.take(i + 1);
    assert(t.drop_last() =~= s.take(i));
    assert(t.last() == s[i]);
}

pub proof fn lemma_byte_len_add(a: Seq<char>, b: Seq<char>)
    ensures
        byte_len_of(a + b) == byte_len_of(a) + byte_len_of(b),
    decreases b.len(),
{
    if b.len() == 0 {
        assert(a + b =~= a);
    } else {
        lemma_byte_len_add(a, b.drop_last());
        assert((a + b).drop_last() =~= a + b.drop_last());
        assert((a + b).last() == b.last());
    }
}

pub proof fn lemma_byte_len_split(s: Seq<char>, i: int, j: int)
    requires
        0 <= i <= j <= s.len(),
    ensures
        byte_len_of(s.take(j)) == byte_len_of(s.take(i)) + byte_len_of(s.subrange(i, j)),
{
    assert(s.take(i) + s.subrange(i, j) =~= s.take(j));
    lemma_byte_len_add(s.take(i), s.subrange(i, j));
}

pub proof fn lemma_byte_len_prefix_bound(s: Seq<char>, j: int)
    requires
        0 <= j <= s.len(),
    ensures
        byte_len_of(s.take(j)) <= byte_len_of(s),
{
    assert(s.take(j) + s.subrange(j, s.len() as int) =~= s);
    lemma_byte_len_add(s.take(j), s.subrange(j, s.len() as int));
    lemma_byte_len_nonneg(s.subrange(j, s.len() as int));
}

pub fn exec_char_byte_len(c: char) -> (n: usize)
    ensures
        n == char_byte_len(c),
        1 <= n <= 4,
{
    let u = c as u32;
    if u < 0x80 {
        1
    } else if u < 0x800 {
        2
    } else if u < 0x10000 {
        3
    } else {
        4
    }
}

/// Collects the characters of a string slice into a vector, so that the
/// grammar code can index them directly.
pub fn str_to_chars(s: &str) -> (v: Vec<char>)
    ensures
        v@ == s@,
{
    let n = s.unicode_len();
    let mut v: Vec<char> = Vec::new();
    let mut i: usize = 0;
    while i < n
        invariant
            n == s@.len(),
            i <= n,
            v@ =~= s@.take(i as int),
        decreases n - i,
    {
        let c = s.get_char(i);
        v.push(c);
        i = i + 1;
        proof {
            assert(v@ =~= s@.take(i as int));
        }
    }
    proof {
        assert(v@ =~= s@);
    }
    v
}

/// Relies on `String`'s `FromIterator<char>` implementation: collecting the
/// characters of a vector yields the string whose character sequence is
/// exactly that vector's contents.
#[verifier::external_body]
pub fn chars_to_string(v: &Vec<char>) -> (s: String)
    ensures
        s@ == v@,
{
    v.iter().collect()
}

/// Character-by-character string equality.
pub fn str_eq(a: &str, b: &str) -> (r: bool)
    ensures
        r == (a@ == b@),
{
    let na = a.unicode_len();
    let nb = b.unicode_len();
    if na != nb {
        proof {
            assert(a@.len() != b@.len());
        }
        return false;
    }
    let mut i: usize = 0;
    while i < na
        invariant
            na == a@.len(),
            na == b@.len(),
            i <= na,
            forall|j: int| 0 <= j < i ==> a@[j] == b@[j],
        decreases na - i,
    {
        if a.get_char(i) != b.get_char(i) {
            return false;
        }
        i = i + 1;
    }
    proof {
        assert(a@ =~= b@);
    }
    true
}

/// Whether `a` begins with `b`.
pub fn str_starts_with(a: &str, b: &str) -> (r: bool)
    ensures
        r == (a@.len() >= b@.len() && a@.take(b@.len() as int) == b@),
{
    let na = a.unicode_len();
    let nb = b.unicode_len();
    if na < nb {
        return false;
    }
    let mut i: usize = 0;
    while i < nb
        invariant
            na == a@.len(),
            nb == b@.len(),
            nb <= na,
            i <= nb,
            forall|j: int| 0 <= j < i ==> a@[j] == b@[j],
        decreases nb - i,
    {
        if a.get_char(i) != b.get_char(i) {
            proof {
                assert(a@.take(b@.len() as int)[i as int] != b@[i as int]);
            }
            return false;
        }
        i = i + 1;
    }
    proof {
        assert(a@.take(b@.len() as int) =~= b@);
    }
    true
}

/// Whether the character sequence `a` begins with `b`.
pub fn chars_start_with(a: &Vec<char>, b: &Vec<char>) -> (r: bool)
    ensures
        r == (a@.len() >= b@.len() && a@.take(b@.len() as int) == b@),
{
    let na = a.len();
    let nb = b.len();
    if na < nb {
        return false;
    }
    let mut i: usize = 0;
    while i < nb
        invariant
            na == a@.len(),
            nb == b@.len(),
            nb <= na,
            i <= nb,
            forall|j: int| 0 <= j < i ==> a@[j] == b@[j],
        decreases nb - i,
    {
        if a[i] != b[i] {
            proof {
                assert(a@.take(b@.len() as int)[i as int] != b@[i as int]);
            }
            return false;
        }
        i = i + 1;
    }
    proof {
        assert(a@.take(b@.len() as int) =~= b@);
    }
    true
}

pub open spec fn digit_char_of(d: int) -> char {
    if d == 0 {
        '0'
    } else if d == 1 {
        '1'
    } else if d == 2 {
        '2'
    } else if d == 3 {
        '3'
    } else if d == 4 {
        '4'
    } else if d == 5 {
        '5'
    } else if d == 6 {
        '6'
    } else if d == 7 {
        '7'
    } else if d == 8 {
        '8'
    } else {
        '9'
    }
}

/// The decimal notation of a number, most significant digit first.
pub open spec fn dec_str(n: nat) -> Seq<char>
    decreases n,
{
    if n < 10 {
        seq![digit_char_of(n as int)]
    } else {
        dec_str(n / 10) + seq![digit_char_of((n % 10) as int)]
    }
}

fn exec_digit_char(d: usize) -> (c: char)
    requires
        d < 10,
    ensures
        c == digit_char_of(d as int),
{
    if d == 0 {
        '0'
    } else if d == 1 {
        '1'
    } else if d == 2 {
        '2'
    } else if d == 3 {
        '3'
    } else if d == 4 {
        '4'
    } else if d == 5 {
        '5'
    } else if d == 6 {
        '6'
    } else if d == 7 {
        '7'
    } else if d == 8 {
        '8'
    } else {
        '9'
    }
}

/// Renders a number in decimal.
pub fn usize_to_string(n: usize) -> (r: String)
    ensures
        r@ == dec_str(n as nat),
{
    let mut digits: Vec<char> = Vec::new();
    let mut m: usize = n;
    loop
        invariant_except_break
            dec_str(n as nat) == dec_str(m as nat) + digits@.reverse(),
        ensures
            dec_str(n as nat) == digits@.reverse(),
        decreases m,
    {
        let ghost prev = digits@;
        let d = m % 10;
        digits.push(exec_digit_char(d));
        proof {
            assert(digits@.reverse() =~= seq![digit_char_of(d as int)] + prev.reverse());
        }
        if m < 10 {
            break ;
        }
        m = m / 10;
        proof {
            assert(dec_str(n as nat) =~= dec_str(m as nat) + digits@.reverse());
        }
    }
    let mut out: Vec<char> = Vec::new();
    let k = digits.len();
    let mut i: usize = k;
    while i > 0
        invariant
            i <= k,
            k == digits@.len(),
            out@.len() == k - i,
            forall|j: int| 0 <= j < out@.len() ==> out@[j] == digits@[k - 1 - j],
        decreases i,
    {
        i = i - 1;
        out.push(digits[i]);
    }
    proof {
        assert(out@ =~= digits@.reverse());
    }
    chars_to_string(&out)
}

/// Lexicographic order on character sequences by code point, the order in
/// which path candidates are listed.
pub open spec fn str_le(a: Seq<char>, b: Seq<char>) -> bool
    decreases a.len(),
{
    if a.len() == 0 {
        true
    } else if b.len() == 0 {
        false
    } else if (a[0] as u32) < (b[0] as u32) {
        true
    } else if (a[0] as u32) > (b[0] as u32) {
        false
    } else {
        str_le(a.skip(1), b.skip(1))
    }
}

pub proof fn lemma_str_le_total(a: Seq<char>, b: Seq<char>)
    ensures
        str_le(a, b) || str_le(b, a),
    decreases a.len(),
{
    if a.len() > 0 && b.len() > 0 && (a[0] as u32) == (b[0] as u32) {
        lemma_str_le_total(a.skip(1), b.skip(1));
    }
}

pub proof fn lemma_str_le_trans(a: Seq<char>, b: Seq<char>, c: Seq<char>)
    requires
        str_le(a, b),
        str_le(b, c),
    ensures
        str_le(a, c),
    decreases a.len(),
{
    if a.len() > 0 && b.len() > 0 && c.len() > 0 && (a[0] as u32) == (b[0] as u32) && (b[0] as u32)
        == (c[0] as u32) {
        lemma_str_le_trans(a.skip(1), b.skip(1), c.skip(1));
    }
}

/// Compares two strings in the candidate-list order.
pub fn str_le_exec(a: &str, b: &str) -> (r: bool)
    ensures
        r == str_le(a@, b@),
{
    let na = a.unicode_len();
    let nb = b.unicode_len();
    let mut i: usize = 0;
    proof {
        assert(a@.skip(0) =~= a@);
        assert(b@.skip(0) =~= b@);
    }
    loop
        invariant
            na == a@.len(),
            nb == b@.len(),
            i <= na,
            i <= nb,
            str_le(a@, b@) == str_le(a@.skip(i as int), b@.skip(i as int)),
        decreases na - i,
    {
        if i >= na {
            proof {
                assert(a@.skip(i as int).len() == 0);
            }
            return true;
        }
        if i >= nb {
            proof {
                assert(b@.skip(i as int).len() == 0);
                assert(a@.skip(i as int).len() > 0);
            }
            return false;
        }
        let ca = a.get_char(i);
        let cb = b.get_char(i);
        proof {
            assert(a@.skip(i as int)[0] == a@[i as int]);
            assert(b@.skip(i as int)[0] == b@[i as int]);
            assert(a@.skip(i as int).skip(1) =~= a@.skip(i as int + 1));
            assert(b@.skip(i as int).skip(1) =~= b@.skip(i as int + 1));
        }
        if (ca as u32) < (cb as u32) {
            return true;
        }
        if (ca as u32) > (cb as u32) {
            return false;
        }
        i = i + 1;
    }
}

/// Sorted in the candidate-list order.
pub open spec fn sorted_strs(s: Seq<Seq<char>>) -> bool {
    forall|i: int, j: int| 0 <= i < j < s.len() ==> str_le(s[i], s[j])
}

pub open spec fn views_of(s: Seq<String>) -> Seq<Seq<char>> {
    s.map_values(|x: String| x@)
}

/// Sorts strings into the candidate-list order; the result holds exactly the
/// given strings.
pub fn sort_strings(v: Vec<String>) -> (r: Vec<String>)
    ensures
        sorted_strs(views_of(r@)),
        views_of(r@).to_multiset() == views_of(v@).to_multiset(),
{
    broadcast use vstd::seq_lib::group_to_multiset_ensures;

    let n = v.len();
    let mut out: Vec<String> = Vec::new();
    let mut k: usize = 0;
    while k < n
        invariant
            n == v@.len(),
            k <= n,
            sorted_strs(views_of(out@)),
            views_of(out@).to_multiset() == views_of(v@).take(k as int).to_multiset(),
        decreases n - k,
    {
        let x = v[k].clone();
        let m = out.len();
        let mut p: usize = 0;
        while p < m && str_le_exec(out[p].as_str(), x.as_str())
            invariant
                m == out@.len(),
                p <= m,
                forall|j: int| 0 <= j < p ==> str_le(views_of(out@)[j], x@),
            decreases m - p,
        {
            p = p + 1;
        }
        proof {
            if p < m {
                lemma_str_le_total(views_of(out@)[p as int], x@);
            }
            assert(forall|j: int|
                p <= j < m ==> str_le(x@, #[trigger] views_of(out@)[j])) by {
                assert forall|j: int| p <= j < m implies str_le(
                    x@,
                    #[trigger] views_of(out@)[j],
                ) by {
                    lemma_str_le_total(views_of(out@)[p as int], x@);
                    if j > p {
                        lemma_str_le_trans(x@, views_of(out@)[p as int], views_of(out@)[j]);
                    }
                }
            }
        }
        let ghost prev = views_of(out@);
        out.insert(p, x);
        k = k + 1;
        proof {
            let cur = views_of(out@);
            assert(cur =~= prev.insert(p as int, x@));
            assert(sorted_strs(cur)) by {
                assert(forall|j: int| 0 <= j < p ==> cur[j] == prev[j]);
                assert(cur[p as int] == x@);
                assert(forall|j: int| p < j < cur.len() ==> cur[j] == prev[j - 1]);
            }
            vstd::seq_lib::to_multiset_insert(prev, p as int, x@);
            assert(cur.to_multiset() == prev.to_multiset().insert(x@));
            assert(x@ == views_of(v@)[k - 1]);
            assert(views_of(v@).take(k as int) =~= views_of(v@).take(k - 1).push(
                views_of(v@)[k - 1],
            ));
            vstd::seq_lib::to_multiset_build(views_of(v@).take(k - 1), views_of(v@)[k - 1]);
        }
    }
    proof {
        assert(views_of(v@).take(n as int) =~= views_of(v@));
    }
    out
}

/// Copies the characters `a..b` of a vector.
pub fn copy_char_range(v: &Vec<char>, a: usize, b: usize) -> (r: Vec<char>)
    requires
        a <= b <= v@.len(),
    ensures
        r@ == v@.subrange(a as int, b as int),
{
    let mut r: Vec<char> = Vec::new();
    let mut i: usize = a;
    while i < b
        invariant
            a <= i <= b <= v@.len(),
            r@ =~= v@.subrange(a as int, i as int),
        decreases b - i,
    {
        r.push(v[i]);
        i = i + 1;
        proof {
            assert(r@ =~= v@.subrange(a as int, i as int));
        }
    }
    r
}

} // verus!
