//! Small verified helpers for text: characters of a string, decimal
//! numerals, and appending characters.

use vstd::prelude::*;

verus! {

/// Appends one character to a string (`String::push`).
#[verifier::external_body]
pub fn push_char(s: &mut String, c: char)
    ensures
        final(s)@ == old(s)@.push(c),
{
    s.push(c);
}

/// The characters of a string slice, in order.
pub fn chars_of(s: &str) -> (r: Vec<char>)
    ensures
        r@ == s@,
{
    let mut r: Vec<char> = Vec::new();
    for c in it: s.chars()
        invariant
            r@ == it.seq().take(it.index() as int),
            it.seq() == s@,
    {
        r.push(c);
    }
    r
}

} // verus!

verus! {

/// The character of a decimal digit.
pub open spec fn digit_char(d: int) -> char {
    (48 + d) as char
}

/// The decimal numeral of a natural number, without leading zeros.
pub open spec fn decimal(n: nat) -> Seq<char>
    decreases n,
{
    if n < 10 {
        seq![digit_char(n as int)]
    } else {
        decimal(n / 10).push(digit_char((n % 10) as int))
    }
}

/// The character of the decimal digit `d`.
pub fn digit(d: u8) -> (c: char)
    requires
        d < 10,
    ensures
        c == digit_char(d as int),
{
    (48u8 + d) as char
}

/// Appends the decimal numeral of `n` to `out`.
pub fn push_decimal(out: &mut String, n: u128)
    ensures
        final(out)@ == old(out)@ + decimal(n as nat),
    decreases n,
{
    if n >= 10 {
        push_decimal(out, n / 10);
    }
    let d = (n % 10) as u8;
    push_char(out, digit(d));
    proof {
        if n < 10 {
            assert(old(out)@ + decimal(n as nat) =~= old(out)@.push(digit_char(n as int)));
        } else {
            assert(decimal(n as nat) == decimal((n / 10) as nat).push(digit_char((n % 10) as int)));
        }
    }
}

/// The decimal numeral of `n`, as a new string.
pub fn decimal_string(n: u128) -> (r: String)
    ensures
        r@ == decimal(n as nat),
{
    let mut r = String::new();
    push_decimal(&mut r, n);
    proof {
        assert(Seq::<char>::empty() + decimal(n as nat) =~= decimal(n as nat));
    }
    r
}

} // verus!

verus! {

/// Whether two string slices hold the same characters.
pub fn str_eq(a: &str, b: &str) -> (r: bool)
    ensures
        r == (a@ == b@),
{
    let x = chars_of(a);
    let y = chars_of(b);
    seq_eq(&x, &y)
}

/// Whether two character vectors are equal.
pub fn seq_eq(x: &Vec<char>, y: &Vec<char>) -> (r: bool)
    ensures
        r == (x@ == y@),
{
    if x.len() != y.len() {
        return false;
    }
    let mut i: usize = 0;
    while i < x.len()
        invariant
            x@.len() == y@.len(),
            i <= x@.len(),
            forall|j: int| 0 <= j < i ==> x@[j] == y@[j],
        decreases x@.len() - i,
    {
        if x[i] != y[i] {
            return false;
        }
        i = i + 1;
    }
    assert(x@ =~= y@);
    true
}

/// The ASCII lowercase of a character (other characters unchanged).
pub open spec fn ascii_lower(c: char) -> char {
    if 'A' <= c && c <= 'Z' { ((c as u32) + 32) as char } else { c }
}

/// The ASCII lowercase of a character sequence.
pub open spec fn ascii_lower_seq(s: Seq<char>) -> Seq<char> {
    Seq::new(s.len(), |i: int| ascii_lower(s[i]))
}

/// The ASCII lowercase of the characters of `s`.
pub fn lower_chars(s: &str) -> (r: Vec<char>)
    ensures
        r@ == ascii_lower_seq(s@),
{
    let cs = chars_of(s);
    let mut r: Vec<char> = Vec::new();
    let mut i: usize = 0;
    while i < cs.len()
        invariant
            cs@ == s@,
            i <= cs@.len(),
            r@ == ascii_lower_seq(s@).take(i as int),
        decreases cs@.len() - i,
    {
        let c = to_ascii_lower(cs[i]);
        r.push(c);
        assert(ascii_lower_seq(s@).take(i + 1) =~= ascii_lower_seq(s@).take(i as int).push(c));
        i = i + 1;
    }
    assert(ascii_lower_seq(s@).take(cs@.len() as int) =~= ascii_lower_seq(s@));
    r
}

/// The string of a character vector.
pub fn string_of(v: &Vec<char>) -> (r: String)
    ensures
        r@ == v@,
{
    let mut r = String::new();
    let mut i: usize = 0;
    while i < v.len()
        invariant
            i <= v@.len(),
            r@ == v@.take(i as int),
        decreases v@.len() - i,
    {
        push_char(&mut r, v[i]);
        assert(v@.take(i + 1) =~= v@.take(i as int).push(v@[i as int]));
        i = i + 1;
    }
    assert(v@.take(v@.len() as int) =~= v@);
    r
}

/// The characters of `v` from position `start` on.
pub fn chars_from(v: &Vec<char>, start: usize) -> (r: Vec<char>)
    requires
        start <= v@.len(),
    ensures
        r@ == v@.skip(start as int),
{
    let mut r: Vec<char> = Vec::new();
    let mut i = start;
    while i < v.len()
        invariant
            start <= i <= v@.len(),
            r@ == v@.subrange(start as int, i as int),
        decreases v@.len() - i,
    {
        r.push(v[i]);
        i = i + 1;
    }
    r
}

/// The ASCII lowercase of a character vector.
pub fn ascii_lower_vec(v: &Vec<char>) -> (r: Vec<char>)
    ensures
        r@ == ascii_lower_seq(v@),
{
    let mut r: Vec<char> = Vec::new();
    let mut i: usize = 0;
    while i < v.len()
        invariant
            i <= v@.len(),
            r@ == ascii_lower_seq(v@).take(i as int),
        decreases v@.len() - i,
    {
        let c = to_ascii_lower(v[i]);
        r.push(c);
        assert(ascii_lower_seq(v@).take(i + 1) =~= ascii_lower_seq(v@).take(i as int).push(c));
        i = i + 1;
    }
    assert(ascii_lower_seq(v@).take(v@.len() as int) =~= ascii_lower_seq(v@));
    r
}

/// Whether the characters `v` spell `lit`.
pub fn chars_are(v: &Vec<char>, lit: &str) -> (r: bool)
    ensures
        r == (v@ == lit@),
{
    let l = chars_of(lit);
    seq_eq(v, &l)
}

/// The ASCII lowercase of a character.
pub fn to_ascii_lower(c: char) -> (r: char)
    ensures
        r == ascii_lower(c),
{
    if 'A' <= c && c <= 'Z' {
        let b = (c as u8) + 32;
        b as char
    } else {
        c
    }
}

} // verus!

verus! {

/// Unicode White_Space, as `char::is_whitespace` decides it.
pub open spec fn is_ws(c: char) -> bool {
    let v = c as u32;
    (0x9 <= v && v <= 0xD) || v == 0x20 || v == 0x85 || v == 0xA0 || v == 0x1680
        || (0x2000 <= v && v <= 0x200A) || v == 0x2028 || v == 0x2029 || v == 0x202F
        || v == 0x205F || v == 0x3000
}

/// Whether a character is white space.
pub fn is_whitespace(c: char) -> (r: bool)
    ensures
        r == is_ws(c),
{
    let v = c as u32;
    (0x9 <= v && v <= 0xD) || v == 0x20 || v == 0x85 || v == 0xA0 || v == 0x1680
        || (0x2000 <= v && v <= 0x200A) || v == 0x2028 || v == 0x2029 || v == 0x202F
        || v == 0x205F || v == 0x3000
}

/// The number of leading characters of `s` that are not white space.
pub open spec fn word_len(s: Seq<char>) -> nat
    decreases s.len(),
{
    if s.len() == 0 || is_ws(s[0]) { 0 } else { 1 + word_len(s.drop_first()) }
}

/// The white-space separated words of `s`, in order (as `split_whitespace`).
pub open spec fn words(s: Seq<char>) -> Seq<Seq<char>>
    decreases s.len(),
{
    if s.len() == 0 {
        Seq::empty()
    } else if is_ws(s[0]) {
        words(s.drop_first())
    } else {
        proof { lemma_word_len_bound(s); }
        seq![s.take(word_len(s) as int)] + words(s.skip(word_len(s) as int))
    }
}

/// `s` without leading white space.
pub open spec fn trim_start(s: Seq<char>) -> Seq<char>
    decreases s.len(),
{
    if s.len() > 0 && is_ws(s[0]) { trim_start(s.drop_first()) } else { s }
}

/// `s` without trailing white space.
pub open spec fn trim_end(s: Seq<char>) -> Seq<char>
    decreases s.len(),
{
    if s.len() > 0 && is_ws(s.last()) { trim_end(s.drop_last()) } else { s }
}

/// `s` without leading and trailing white space (as `str::trim`).
pub open spec fn trim(s: Seq<char>) -> Seq<char> {
    trim_end(trim_start(s))
}

pub proof fn lemma_word_len_bound(s: Seq<char>)
    ensures
        word_len(s) <= s.len(),
        forall|i: int| 0 <= i < word_len(s) ==> !is_ws(#[trigger] s[i]),
        word_len(s) < s.len() ==> is_ws(s[word_len(s) as int]),
    decreases s.len(),
{
    if s.len() > 0 && !is_ws(s[0]) {
        lemma_word_len_bound(s.drop_first());
        assert forall|i: int| 0 <= i < word_len(s) implies !is_ws(#[trigger] s[i]) by {
            if i > 0 {
                assert(s[i] == s.drop_first()[i - 1]);
            }
        }
    }
}

/// The index of the first non-white-space character at or after `i`
/// (or the length).
fn skip_ws(s: &Vec<char>, i: usize) -> (j: usize)
    requires
        i <= s@.len(),
    ensures
        i <= j <= s@.len(),
        j < s@.len() ==> !is_ws(s@[j as int]),
        trim_start(s@.skip(i as int)) == s@.skip(j as int),
        words(s@.skip(i as int)) == words(s@.skip(j as int)),
{
    let mut j = i;
    while j < s.len() && is_whitespace(s[j])
        invariant
            i <= j <= s@.len(),
            trim_start(s@.skip(i as int)) == trim_start(s@.skip(j as int)),
            words(s@.skip(i as int)) == words(s@.skip(j as int)),
        decreases s@.len() - j,
    {
        assert(s@.skip(j as int).drop_first() =~= s@.skip(j + 1));
        j = j + 1;
    }
    if j < s.len() {
        assert(s@.skip(j as int)[0] == s@[j as int]);
    }
    j
}

/// The index just past the word that starts at `i`.
fn word_end(s: &Vec<char>, i: usize) -> (j: usize)
    requires
        i <= s@.len(),
    ensures
        j == i + word_len(s@.skip(i as int)),
        j <= s@.len(),
{
    let mut j = i;
    proof { lemma_word_len_bound(s@.skip(i as int)); }
    while j < s.len() && !is_whitespace(s[j])
        invariant
            i <= j <= s@.len(),
            word_len(s@.skip(i as int)) == (j - i) + word_len(s@.skip(j as int)),
        decreases s@.len() - j,
    {
        assert(s@.skip(j as int).drop_first() =~= s@.skip(j + 1));
        j = j + 1;
    }
    if j < s.len() {
        assert(s@.skip(j as int)[0] == s@[j as int]);
    } else {
        assert(s@.skip(j as int).len() == 0);
    }
    j
}

/// The white-space separated words of `s`.
pub fn split_ws(s: &Vec<char>) -> (r: Vec<Vec<char>>)
    ensures
        r@.map_values(|w: Vec<char>| w@) == words(s@),
{
    let mut r: Vec<Vec<char>> = Vec::new();
    let mut i: usize = 0;
    assert(s@.skip(0) =~= s@);
    while i < s.len()
        invariant
            i <= s@.len(),
            r@.map_values(|w: Vec<char>| w@) + words(s@.skip(i as int)) == words(s@),
        decreases s@.len() - i,
    {
        let j = skip_ws(s, i);
        if j == s.len() {
            assert(s@.skip(j as int).len() == 0);
            i = j;
        } else {
            let k = word_end(s, j);
            let ghost t = s@.skip(j as int);
            proof {
                lemma_word_len_bound(t);
                assert(t[0] == s@[j as int]);
                assert(t.take(word_len(t) as int) =~= s@.subrange(j as int, k as int));
                assert(t.skip(word_len(t) as int) =~= s@.skip(k as int));
            }
            let mut w: Vec<char> = Vec::new();
            let mut m = j;
            while m < k
                invariant
                    j <= m <= k <= s@.len(),
                    w@ == s@.subrange(j as int, m as int),
                decreases k - m,
            {
                w.push(s[m]);
                m = m + 1;
            }
            let ghost before = r@.map_values(|w: Vec<char>| w@);
            r.push(w);
            proof {
                assert(r@.map_values(|w: Vec<char>| w@) =~= before.push(s@.subrange(j as int, k as int)));
                assert(words(t) == seq![s@.subrange(j as int, k as int)] + words(s@.skip(k as int)));
            }
            i = k;
        }
    }
    assert(words(s@.skip(i as int)) =~= Seq::<Seq<char>>::empty());
    r
}

/// `s` with leading and trailing white space removed.
pub fn trim_chars(s: &Vec<char>) -> (r: Vec<char>)
    ensures
        r@ == trim(s@),
{
    let j = skip_ws(s, 0);
    assert(s@.skip(0) =~= s@);
    let mut end = s.len();
    let ghost t = s@.skip(j as int);
    assert(s@.subrange(j as int, end as int) =~= t);
    while end > j && is_whitespace(s[end - 1])
        invariant
            j <= end <= s@.len(),
            t == s@.skip(j as int),
            trim_end(t) == trim_end(s@.subrange(j as int, end as int)),
        decreases end,
    {
        assert(s@.subrange(j as int, end as int).drop_last() =~= s@.subrange(j as int, end - 1));
        end = end - 1;
    }
    let mut r: Vec<char> = Vec::new();
    let mut m = j;
    while m < end
        invariant
            j <= m <= end <= s@.len(),
            r@ == s@.subrange(j as int, m as int),
        decreases end - m,
    {
        r.push(s[m]);
        m = m + 1;
    }
    proof {
        let u = s@.subrange(j as int, end as int);
        if u.len() > 0 {
            assert(u.last() == s@[end - 1]);
        }
        assert(trim_end(u) == u);
    }
    r
}


/// The position of the first `c` in `s`, or the length of `s`.
pub open spec fn index_of_char(s: Seq<char>, c: char) -> nat
    decreases s.len(),
{
    if s.len() == 0 || s[0] == c { 0 } else { 1 + index_of_char(s.drop_first(), c) }
}

pub proof fn lemma_index_of_char(s: Seq<char>, c: char)
    ensures
        index_of_char(s, c) <= s.len(),
        forall|i: int| 0 <= i < index_of_char(s, c) ==> s[i] != c,
        index_of_char(s, c) < s.len() ==> s[index_of_char(s, c) as int] == c,
    decreases s.len(),
{
    if s.len() > 0 && s[0] != c {
        lemma_index_of_char(s.drop_first(), c);
        assert forall|i: int| 0 <= i < index_of_char(s, c) implies s[i] != c by {
            if i > 0 {
                assert(s[i] == s.drop_first()[i - 1]);
            }
        }
    }
}

pub proof fn lemma_index_of_char_exact(s: Seq<char>, c: char, n: nat)
    requires
        n <= s.len(),
        forall|k: int| 0 <= k < n ==> s[k] != c,
        n == s.len() || s[n as int] == c,
    ensures
        index_of_char(s, c) == n,
    decreases n,
{
    if n > 0 {
        assert forall|k: int| 0 <= k < n - 1 implies s.drop_first()[k] != c by {
            assert(s.drop_first()[k] == s[k + 1]);
        }
        lemma_index_of_char_exact(s.drop_first(), c, (n - 1) as nat);
    }
}

/// The pieces of `s` between occurrences of `c` (as `str::split` with a
/// character): one more piece than there are occurrences.
pub open spec fn split_char(s: Seq<char>, c: char) -> Seq<Seq<char>>
    decreases s.len(),
{
    let k = index_of_char(s, c);
    if k >= s.len() {
        seq![s]
    } else {
        seq![s.take(k as int)] + split_char(s.skip(k + 1int), c)
    }
}

/// The position of the first `c` at or after `i`, or the length.
pub fn find_char(v: &Vec<char>, i: usize, c: char) -> (j: usize)
    requires
        i <= v@.len(),
    ensures
        i <= j <= v@.len(),
        j - i == index_of_char(v@.skip(i as int), c),
{
    let mut j = i;
    while j < v.len() && v[j] != c
        invariant
            i <= j <= v@.len(),
            forall|k: int| i <= k < j ==> v@[k] != c,
        decreases v@.len() - j,
    {
        j = j + 1;
    }
    proof {
        let t = v@.skip(i as int);
        assert forall|k: int| 0 <= k < j - i implies t[k] != c by {
            assert(t[k] == v@[i + k]);
        }
        if j < v@.len() {
            assert(t[j - i] == v@[j as int]);
        }
        lemma_index_of_char_exact(t, c, (j - i) as nat);
    }
    j
}

/// The characters of `v` from `i` up to `j`.
pub fn chars_range(v: &Vec<char>, i: usize, j: usize) -> (r: Vec<char>)
    requires
        i <= j <= v@.len(),
    ensures
        r@ == v@.subrange(i as int, j as int),
{
    let mut r: Vec<char> = Vec::new();
    let mut k = i;
    while k < j
        invariant
            i <= k <= j <= v@.len(),
            r@ == v@.subrange(i as int, k as int),
        decreases j - k,
    {
        r.push(v[k]);
        k = k + 1;
    }
    r
}

/// The pieces of `v` between occurrences of `c`, each trimmed of white
/// space (as `split(c).map(str::trim)`).
pub fn split_trimmed(v: &Vec<char>, c: char) -> (r: Vec<Vec<char>>)
    ensures
        r@.len() == split_char(v@, c).len(),
        forall|i: int| 0 <= i < r@.len() ==> (#[trigger] r@[i])@ == trim(split_char(v@, c)[i]),
{
    let mut r: Vec<Vec<char>> = Vec::new();
    let ghost mut done_segs: Seq<Seq<char>> = Seq::empty();
    let mut i: usize = 0;
    let mut done = false;
    assert(v@.skip(0) =~= v@);
    while !done
        invariant
            i <= v@.len(),
            done ==> done_segs == split_char(v@, c),
            !done ==> done_segs + split_char(v@.skip(i as int), c) == split_char(v@, c),
            r@.len() == done_segs.len(),
            forall|k: int| 0 <= k < r@.len() ==> (#[trigger] r@[k])@ == trim(done_segs[k]),
        decreases v@.len() - i, if done { 0int } else { 1int },
    {
        let j = find_char(v, i, c);
        let seg = chars_range(v, i, j);
        let ghost t = v@.skip(i as int);
        proof {
            lemma_index_of_char(t, c);
            assert(t.take((j - i) as int) =~= seg@);
        }
        let piece = trim_chars(&seg);
        let ghost before = done_segs;
        r.push(piece);
        proof {
            done_segs = before.push(seg@);
        }
        if j == v.len() {
            proof {
                assert(split_char(t, c) == seq![t]);
                assert(t =~= seg@);
                assert(before + seq![seg@] =~= done_segs);
            }
            done = true;
        } else {
            proof {
                assert(t.skip((j - i) + 1) =~= v@.skip(j + 1));
                assert(split_char(t, c) == seq![seg@] + split_char(v@.skip(j + 1), c));
                assert(before + (seq![seg@] + split_char(v@.skip(j + 1), c))
                    =~= done_segs + split_char(v@.skip(j + 1), c));
            }
            i = j + 1;
        }
    }
    r
}

/// Whether `p` occurs in `s` at position `i`.
pub open spec fn occurs_at(s: Seq<char>, p: Seq<char>, i: int) -> bool {
    0 <= i && i + p.len() <= s.len() && s.subrange(i, i + p.len()) == p
}

/// The first position at or after `i` where `p` occurs in `s`.
pub open spec fn find_from(s: Seq<char>, p: Seq<char>, i: nat) -> Option<nat>
    decreases s.len() + 1 - i,
{
    if i + p.len() > s.len() {
        None
    } else if occurs_at(s, p, i as int) {
        Some(i)
    } else {
        find_from(s, p, i + 1)
    }
}

/// The first position where `p` occurs in `s` (as `str::find`, counted in
/// characters).
pub open spec fn find_text(s: Seq<char>, p: Seq<char>) -> Option<nat> {
    find_from(s, p, 0)
}

/// Whether `c` is a double or a single quote.
pub open spec fn is_quote(c: char) -> bool {
    c == '"' || c == '\''
}

/// The position of the first quote in `s`, or its length.
pub open spec fn index_of_quote(s: Seq<char>) -> nat
    decreases s.len(),
{
    if s.len() == 0 || is_quote(s[0]) { 0 } else { 1 + index_of_quote(s.drop_first()) }
}


/// Whether `p` occurs in `s` at position `i`.
pub fn occurs_in(s: &Vec<char>, p: &Vec<char>, i: usize) -> (r: bool)
    requires
        i + p@.len() <= s@.len(),
    ensures
        r == occurs_at(s@, p@, i as int),
{
    let n = s.len();
    let mut k: usize = 0;
    while k < p.len()
        invariant
            n == s@.len(),
            i + p@.len() <= s@.len(),
            k <= p@.len(),
            forall|j: int| 0 <= j < k ==> s@[i + j] == p@[j],
        decreases p@.len() - k,
    {
        if s[i + k] != p[k] {
            assert(s@.subrange(i as int, i + p@.len())[k as int] == s@[i + k]);
            return false;
        }
        k = k + 1;
    }
    assert(s@.subrange(i as int, i + p@.len()) =~= p@);
    true
}

/// The first position at or after `start` where `p` occurs in `s`.
pub fn find_from_of(s: &Vec<char>, p: &Vec<char>, start: usize) -> (r: Option<usize>)
    requires
        start <= s@.len(),
    ensures
        r is None <==> find_from(s@, p@, start as nat) is None,
        r matches Some(i) ==> find_from(s@, p@, start as nat) == Some(i as nat),
{
    let mut i: usize = start;
    while i <= s.len() && p.len() <= s.len() - i
        invariant
            i <= s@.len() + 1,
            find_from(s@, p@, start as nat) == find_from(s@, p@, i as nat),
        decreases s@.len() + 1 - i,
    {
        if occurs_in(s, p, i) {
            return Some(i);
        }
        if i == s.len() {
            assert(s@.subrange(i as int, i as int) =~= p@);
        }
        i = i + 1;
    }
    None
}

/// The first position where `p` occurs in `s`.
pub fn find_text_of(s: &Vec<char>, p: &Vec<char>) -> (r: Option<usize>)
    ensures
        r is None <==> find_text(s@, p@) is None,
        r matches Some(i) ==> find_text(s@, p@) == Some(i as nat),
{
    find_from_of(s, p, 0)
}

/// The position of the first quote at or after `i`, or the length.
pub fn find_quote(v: &Vec<char>, i: usize) -> (j: usize)
    requires
        i <= v@.len(),
    ensures
        i <= j <= v@.len(),
        j - i == index_of_quote(v@.skip(i as int)),
{
    let mut j = i;
    while j < v.len() && v[j] != '"' && v[j] != '\''
        invariant
            i <= j <= v@.len(),
            index_of_quote(v@.skip(i as int)) == (j - i) + index_of_quote(v@.skip(j as int)),
        decreases v@.len() - j,
    {
        assert(v@.skip(j as int).drop_first() =~= v@.skip(j + 1));
        j = j + 1;
    }
    if j < v.len() {
        assert(v@.skip(j as int)[0] == v@[j as int]);
    }
    j
}


pub proof fn lemma_find_from(s: Seq<char>, p: Seq<char>, i: nat)
    ensures
        find_from(s, p, i) matches Some(q) ==> i <= q && q + p.len() <= s.len() && occurs_at(s, p, q as int),
    decreases s.len() + 1 - i,
{
    if i + p.len() <= s.len() && !occurs_at(s, p, i as int) {
        lemma_find_from(s, p, i + 1);
    }
}

} // verus!
