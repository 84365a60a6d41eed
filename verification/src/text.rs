//! Character-level text helpers shared by the other modules.

use vstd::prelude::*;

verus! {

/// Appends one character to a `String` (`String::push`).
///
/// The standard library documents `push` as appending the given `char` to
/// the end of the string; the contract says exactly that of the view.
#[verifier::external_body]
pub(crate) fn push_char(s: &mut String, c: char)
    ensures
        final(s)@ == old(s)@.push(c),
{
    s.push(c);
}

/// The characters of `s`, in order.
pub fn chars_of(s: &str) -> (out: Vec<char>)
    ensures
        out@ == s@,
{
    let mut out: Vec<char> = Vec::new();
    for c in it: s.chars()
        invariant
            out@ == it.seq().take(it.index() as int),
            it.seq() == s@,
    {
        out.push(c);
    }
    out
}

/// Appends `chars[from..to]` to `s`.
pub fn push_range(s: &mut String, chars: &Vec<char>, from: usize, to: usize)
    requires
        from <= to <= chars.len(),
    ensures
        final(s)@ == old(s)@ + chars@.subrange(from as int, to as int),
{
    let mut i = from;
    while i < to
        invariant
            from <= i <= to <= chars.len(),
            s@ == old(s)@ + chars@.subrange(from as int, i as int),
        decreases to - i,
    {
        push_char(s, chars[i]);
        i += 1;
        assert(chars@.subrange(from as int, i as int) =~= chars@.subrange(from as int, (i - 1) as int).push(chars@[i - 1]));
    }
}

/// A string holding exactly the characters `chars[from..to]`.
pub fn string_of_range(chars: &Vec<char>, from: usize, to: usize) -> (out: String)
    requires
        from <= to <= chars.len(),
    ensures
        out@ == chars@.subrange(from as int, to as int),
{
    let mut out = String::new();
    push_range(&mut out, chars, from, to);
    assert(Seq::<char>::empty() + chars@.subrange(from as int, to as int) =~= chars@.subrange(from as int, to as int));
    out
}

/// Unicode `White_Space`, the property that `char::is_whitespace` reports.
pub open spec fn is_space(c: char) -> bool {
    let n = c as u32;
    ||| 0x09 <= n <= 0x0d
    ||| n == 0x20
    ||| n == 0x85
    ||| n == 0xa0
    ||| n == 0x1680
    ||| 0x2000 <= n <= 0x200a
    ||| n == 0x2028
    ||| n == 0x2029
    ||| n == 0x202f
    ||| n == 0x205f
    ||| n == 0x3000
}

/// Whether `c` is Unicode white space.
pub fn space(c: char) -> (r: bool)
    ensures
        r == is_space(c),
{
    let n = c as u32;
    (0x09 <= n && n <= 0x0d) || n == 0x20 || n == 0x85 || n == 0xa0 || n == 0x1680 || (0x2000
        <= n && n <= 0x200a) || n == 0x2028 || n == 0x2029 || n == 0x202f || n == 0x205f || n
        == 0x3000
}

/// `s` without its leading white space.
pub open spec fn trim_start(s: Seq<char>) -> Seq<char>
    decreases s.len(),
{
    if s.len() > 0 && is_space(s[0]) {
        trim_start(s.drop_first())
    } else {
        s
    }
}

/// `s` without its trailing white space.
pub open spec fn trim_end(s: Seq<char>) -> Seq<char>
    decreases s.len(),
{
    if s.len() > 0 && is_space(s.last()) {
        trim_end(s.drop_last())
    } else {
        s
    }
}

/// `s` without leading and trailing white space, as `str::trim` gives it.
pub open spec fn trim(s: Seq<char>) -> Seq<char> {
    trim_end(trim_start(s))
}

/// The bounds `(from, to)` of the trimmed part of `chars`.
pub fn trim_bounds(chars: &Vec<char>) -> (r: (usize, usize))
    ensures
        r.0 <= r.1 <= chars.len(),
        chars@.subrange(r.0 as int, r.1 as int) == trim(chars@),
{
    let n = chars.len();
    let mut i: usize = 0;
    assert(chars@.skip(0) =~= chars@);
    while i < n && space(chars[i])
        invariant
            i <= n == chars.len(),
            trim_start(chars@) == trim_start(chars@.skip(i as int)),
        decreases n - i,
    {
        assert(chars@.skip(i as int).drop_first() =~= chars@.skip(i + 1));
        i += 1;
    }
    assert(trim_start(chars@) == chars@.skip(i as int)) by {
        if i < n {
            assert(!is_space(chars@.skip(i as int)[0]));
        }
    }
    let mut j: usize = n;
    while j > i && space(chars[j - 1])
        invariant
            i <= j <= n == chars.len(),
            trim_start(chars@) == chars@.skip(i as int),
            trim(chars@) == trim_end(chars@.subrange(i as int, j as int)),
        decreases j,
    {
        assert(chars@.subrange(i as int, j as int).drop_last() =~= chars@.subrange(i as int, j - 1));
        j -= 1;
    }
    assert(chars@.skip(i as int) =~= chars@.subrange(i as int, n as int));
    (i, j)
}

/// `s` with leading and trailing white space removed (`str::trim`).
pub fn trimmed(s: &str) -> (out: String)
    ensures
        out@ == trim(s@),
{
    let chars = chars_of(s);
    let (from, to) = trim_bounds(&chars);
    string_of_range(&chars, from, to)
}

/// The decimal digit for `d < 10`.
pub open spec fn digit_char(d: nat) -> char {
    (48 + d) as char
}

/// The decimal representation of `n`, as `format!("{}", n)` prints it.
pub open spec fn decimal(n: nat) -> Seq<char>
    decreases n,
{
    if n < 10 {
        seq![digit_char(n)]
    } else {
        decimal(n / 10).push(digit_char(n % 10))
    }
}

/// Appends the decimal representation of `n` to `s`.
pub fn push_decimal(s: &mut String, n: u64)
    ensures
        final(s)@ == old(s)@ + decimal(n as nat),
    decreases n,
{
    if n >= 10 {
        push_decimal(s, n / 10);
    }
    let d: u8 = (n % 10) as u8;
    let c: char = (48u8 + d) as char;
    push_char(s, c);
}

/// Appends `t` to `s`.
pub fn push_str(s: &mut String, t: &str)
    ensures
        final(s)@ == old(s)@ + t@,
{
    s.append(t);
}

/// Strict lexicographic order of character sequences, the order in which
/// `String`'s `Ord` compares (UTF-8 byte order agrees with code point order).
pub open spec fn seq_lt(a: Seq<char>, b: Seq<char>) -> bool
    decreases a.len(),
{
    if b.len() == 0 {
        false
    } else if a.len() == 0 {
        true
    } else if a[0] < b[0] {
        true
    } else if a[0] > b[0] {
        false
    } else {
        seq_lt(a.drop_first(), b.drop_first())
    }
}

/// Whether `a` sorts strictly before `b`.
pub fn chars_lt(a: &Vec<char>, b: &Vec<char>) -> (r: bool)
    ensures
        r == seq_lt(a@, b@),
{
    let mut i: usize = 0;
    assert(a@.skip(0) =~= a@);
    assert(b@.skip(0) =~= b@);
    while i < a.len() && i < b.len()
        invariant
            i <= a.len(),
            i <= b.len(),
            seq_lt(a@, b@) == seq_lt(a@.skip(i as int), b@.skip(i as int)),
        decreases a.len() - i,
    {
        let x = a[i];
        let y = b[i];
        if x < y {
            return true;
        }
        if x > y {
            return false;
        }
        assert(a@.skip(i as int).drop_first() =~= a@.skip(i + 1));
        assert(b@.skip(i as int).drop_first() =~= b@.skip(i + 1));
        i += 1;
    }
    i < b.len()
}

} // verus!

verus! {

/// No sequence sorts before itself.
pub proof fn lemma_seq_lt_irreflexive(a: Seq<char>)
    ensures
        !seq_lt(a, a),
    decreases a.len(),
{
    if a.len() > 0 {
        lemma_seq_lt_irreflexive(a.drop_first());
    }
}

/// The order is transitive.
pub proof fn lemma_seq_lt_transitive(a: Seq<char>, b: Seq<char>, c: Seq<char>)
    requires
        seq_lt(a, b),
        seq_lt(b, c),
    ensures
        seq_lt(a, c),
    decreases a.len(),
{
    if a.len() > 0 && b.len() > 0 && c.len() > 0 && a[0] == b[0] && b[0] == c[0] {
        lemma_seq_lt_transitive(a.drop_first(), b.drop_first(), c.drop_first());
    }
}

/// Two different sequences are ordered one way or the other.
pub proof fn lemma_seq_lt_total(a: Seq<char>, b: Seq<char>)
    ensures
        a == b || seq_lt(a, b) || seq_lt(b, a),
    decreases a.len(),
{
    if a.len() > 0 && b.len() > 0 && a[0] == b[0] {
        lemma_seq_lt_total(a.drop_first(), b.drop_first());
        if a.drop_first() == b.drop_first() {
            assert(a =~= seq![a[0]] + a.drop_first());
            assert(b =~= seq![b[0]] + b.drop_first());
        }
    } else if a.len() == 0 && b.len() == 0 {
        assert(a =~= b);
    }
}

/// "Not after" is transitive.
pub proof fn lemma_seq_le_transitive(a: Seq<char>, b: Seq<char>, c: Seq<char>)
    requires
        !seq_lt(b, a),
        !seq_lt(c, b),
    ensures
        !seq_lt(c, a),
{
    lemma_seq_lt_total(a, b);
    if seq_lt(c, a) {
        if a == b {
        } else {
            lemma_seq_lt_transitive(c, a, b);
        }
    }
}

} // verus!

verus! {

/// Trimming the start drops a run of white space and stops at a character
/// that is not white space.
proof fn lemma_trim_start(s: Seq<char>) -> (k: int)
    ensures
        0 <= k <= s.len(),
        trim_start(s) == s.skip(k),
        forall|i: int| 0 <= i < k ==> is_space(#[trigger] s[i]),
        k < s.len() ==> !is_space(s[k]),
    decreases s.len(),
{
    if s.len() > 0 && is_space(s[0]) {
        let k0 = lemma_trim_start(s.drop_first());
        assert(s.drop_first().skip(k0) =~= s.skip(k0 + 1));
        assert forall|i: int| 0 <= i < k0 + 1 implies is_space(#[trigger] s[i]) by {
            if i > 0 {
                assert(s[i] == s.drop_first()[i - 1]);
            }
        }
        k0 + 1
    } else {
        assert(s.skip(0) =~= s);
        0
    }
}

/// Trimming the end drops a run of white space and stops after a character
/// that is not white space.
proof fn lemma_trim_end(s: Seq<char>) -> (k: int)
    ensures
        0 <= k <= s.len(),
        trim_end(s) == s.take(k),
        forall|i: int| k <= i < s.len() ==> is_space(#[trigger] s[i]),
        k > 0 ==> !is_space(s[k - 1]),
    decreases s.len(),
{
    if s.len() > 0 && is_space(s.last()) {
        let k0 = lemma_trim_end(s.drop_last());
        assert(s.drop_last().take(k0) =~= s.take(k0));
        assert forall|i: int| k0 <= i < s.len() implies is_space(#[trigger] s[i]) by {
            if i < s.len() - 1 {
                assert(s[i] == s.drop_last()[i]);
            }
        }
        k0
    } else {
        assert(s.take(s.len() as int) =~= s);
        s.len() as int
    }
}

/// Trimming keeps a contiguous part of the text that neither starts nor
/// ends with white space, and drops only white space around it.
pub proof fn lemma_trim(s: Seq<char>)
    ensures
        trim(s).len() > 0 ==> !is_space(trim(s)[0]) && !is_space(trim(s).last()),
        exists|a: int, b: int|
            0 <= a <= b <= s.len() && trim(s) == s.subrange(a, b) && (forall|i: int|
                0 <= i < a ==> is_space(#[trigger] s[i])) && (forall|i: int|
                b <= i < s.len() ==> is_space(#[trigger] s[i])),
{
    let a = lemma_trim_start(s);
    let t = s.skip(a);
    let k = lemma_trim_end(t);
    let b = a + k;
    assert(trim(s) =~= s.subrange(a, b));
    assert forall|i: int| b <= i < s.len() implies is_space(#[trigger] s[i]) by {
        assert(s[i] == t[i - a]);
    }
    if trim(s).len() > 0 {
        assert(trim(s)[0] == t[0]);
        if k == t.len() {
            assert(t[0] == s[a]);
        }
        assert(trim(s).last() == t[k - 1]);
    }
    assert(0 <= a <= b <= s.len() && trim(s) == s.subrange(a, b) && (forall|i: int|
        0 <= i < a ==> is_space(#[trigger] s[i])) && (forall|i: int|
        b <= i < s.len() ==> is_space(#[trigger] s[i])));
}

} // verus!

verus! {

/// The number that a string of decimal digits stands for.
pub open spec fn digits_value(s: Seq<char>) -> int
    decreases s.len(),
{
    if s.len() == 0 {
        0
    } else {
        10 * digits_value(s.drop_last()) + (s.last() as int - 48)
    }
}

/// A number printed in decimal is a non-empty string of digits that reads
/// back as the number, without leading zeros.
pub proof fn lemma_decimal(n: nat)
    ensures
        decimal(n).len() > 0,
        forall|i: int| 0 <= i < decimal(n).len() ==> '0' <= #[trigger] decimal(n)[i] <= '9',
        digits_value(decimal(n)) == n,
        decimal(n).len() > 1 ==> decimal(n)[0] != '0',
        n >= 10 ==> decimal(n).len() > 1,
    decreases n,
{
    let d = n % 10;
    assert((digit_char(d) as int) == 48 + d);
    if n >= 10 {
        lemma_decimal(n / 10);
        let s = decimal(n / 10);
        assert(decimal(n).drop_last() =~= s);
        assert(decimal(n).last() == digit_char(d));
        vstd::arithmetic::div_mod::lemma_fundamental_div_mod(n as int, 10);
        assert(digits_value(decimal(n)) == 10 * digits_value(s) + d);
        assert forall|i: int| 0 <= i < decimal(n).len() implies '0' <= #[trigger] decimal(n)[i]
            <= '9' by {
            if i < s.len() {
                assert(decimal(n)[i] == s[i]);
            }
        }
        assert(decimal(n)[0] == s[0]);
        if n / 10 < 10 {
            assert(s[0] == digit_char(n / 10));
            assert(digit_char(n / 10) != '0');
        } else {
            assert(s.len() > 1);
        }
    } else {
        assert(decimal(n).drop_last() =~= Seq::<char>::empty());
        assert(digits_value(decimal(n)) == 10 * digits_value(Seq::<char>::empty()) + d);
    }
}

} // verus!

verus! {

/// Trimming text that neither starts nor ends with white space, padded with
/// white space on both sides, gives back the text.
pub proof fn lemma_trim_padding(pre: Seq<char>, s: Seq<char>, post: Seq<char>)
    requires
        forall|i: int| 0 <= i < pre.len() ==> is_space(#[trigger] pre[i]),
        forall|i: int| 0 <= i < post.len() ==> is_space(#[trigger] post[i]),
        s.len() > 0,
        !is_space(s[0]),
        !is_space(s.last()),
    ensures
        trim(pre + s + post) == s,
    decreases pre.len() + post.len(),
{
    if pre.len() > 0 {
        assert((pre + s + post)[0] == pre[0]);
        assert((pre + s + post).drop_first() =~= pre.drop_first() + s + post);
        assert(trim_start(pre + s + post) == trim_start(pre.drop_first() + s + post));
        lemma_trim_padding(pre.drop_first(), s, post);
    } else if post.len() > 0 {
        assert(pre + s + post =~= s + post);
        assert(trim_start(s + post) == s + post) by {
            assert((s + post)[0] == s[0]);
        }
        lemma_trim_end_padding(s, post);
    } else {
        assert(pre + s + post =~= s);
        assert(trim_start(s) == s);
        assert(trim_end(s) == s);
    }
}

/// Trimming the end of text padded with white space stops at the text.
proof fn lemma_trim_end_padding(s: Seq<char>, post: Seq<char>)
    requires
        forall|i: int| 0 <= i < post.len() ==> is_space(#[trigger] post[i]),
        s.len() > 0,
        !is_space(s.last()),
    ensures
        trim_end(s + post) == s,
    decreases post.len(),
{
    if post.len() > 0 {
        assert((s + post).last() == post.last());
        assert(is_space(post[post.len() - 1]));
        assert((s + post).drop_last() =~= s + post.drop_last());
        lemma_trim_end_padding(s, post.drop_last());
    } else {
        assert(s + post =~= s);
    }
}

} // verus!

verus! {

/// `a` and `b` agree on their first `k` characters, and there `a` either
/// ends while `b` goes on, or holds a smaller character than `b`.
pub open spec fn first_difference_below(a: Seq<char>, b: Seq<char>, k: int) -> bool {
    &&& 0 <= k <= a.len()
    &&& k < b.len()
    &&& a.take(k) == b.take(k)
    &&& (k == a.len() || a[k] < b[k])
}

proof fn lemma_seq_lt_witness(a: Seq<char>, b: Seq<char>) -> (k: int)
    requires
        seq_lt(a, b),
    ensures
        first_difference_below(a, b, k),
    decreases a.len(),
{
    if a.len() == 0 || a[0] < b[0] {
        assert(a.take(0) =~= b.take(0));
        0
    } else {
        let k0 = lemma_seq_lt_witness(a.drop_first(), b.drop_first());
        assert(a.take(k0 + 1) =~= seq![a[0]] + a.drop_first().take(k0));
        assert(b.take(k0 + 1) =~= seq![b[0]] + b.drop_first().take(k0));
        if k0 < a.drop_first().len() {
            assert(a[k0 + 1] == a.drop_first()[k0]);
            assert(b[k0 + 1] == b.drop_first()[k0]);
        }
        k0 + 1
    }
}

proof fn lemma_seq_lt_from_witness(a: Seq<char>, b: Seq<char>, k: int)
    requires
        first_difference_below(a, b, k),
    ensures
        seq_lt(a, b),
    decreases a.len(),
{
    if k > 0 {
        assert(a[0] == a.take(k)[0]);
        assert(b[0] == b.take(k)[0]);
        assert(a.drop_first().take(k - 1) =~= a.take(k).drop_first());
        assert(b.drop_first().take(k - 1) =~= b.take(k).drop_first());
        if k < a.len() {
            assert(a.drop_first()[k - 1] == a[k]);
            assert(b.drop_first()[k - 1] == b[k]);
        }
        lemma_seq_lt_from_witness(a.drop_first(), b.drop_first(), k - 1);
    }
}

/// The order of strings is the lexicographic order of their characters by
/// code point: `a` sorts before `b` exactly when, at the first position where
/// they differ, `a` has the smaller character, or `a` is a proper prefix of `b`.
pub proof fn lemma_seq_lt_lexicographic(a: Seq<char>, b: Seq<char>)
    ensures
        seq_lt(a, b) <==> exists|k: int| first_difference_below(a, b, k),
{
    if seq_lt(a, b) {
        let k = lemma_seq_lt_witness(a, b);
    }
    if exists|k: int| first_difference_below(a, b, k) {
        let k = choose|k: int| first_difference_below(a, b, k);
        lemma_seq_lt_from_witness(a, b, k);
    }
}

/// In particular, two strings that share a prefix and then differ in one
/// character are ordered by that character.
pub proof fn lemma_seq_lt_by_character(p: Seq<char>, c: char, x: Seq<char>, d: char, y: Seq<char>)
    requires
        c < d,
    ensures
        seq_lt(p + seq![c] + x, p + seq![d] + y),
        !seq_lt(p + seq![d] + y, p + seq![c] + x),
{
    let a = p + seq![c] + x;
    let b = p + seq![d] + y;
    let k = p.len() as int;
    assert(a.take(k) =~= p);
    assert(b.take(k) =~= p);
    assert(a[k] == c);
    assert(b[k] == d);
    lemma_seq_lt_from_witness(a, b, k);
    if seq_lt(b, a) {
        lemma_seq_lt_transitive(a, b, a);
        lemma_seq_lt_irreflexive(a);
    }
}

} // verus!
