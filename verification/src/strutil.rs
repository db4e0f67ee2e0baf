use vstd::prelude::*;

verus! {

/// Relies on `alloc::string::String::push`: appends one character at the end.
pub assume_specification[ String::push ](s: &mut String, ch: char)
    ensures
        final(s)@ == old(s)@.push(ch),
;

/// Lexicographic order on character sequences, compared code point by code
/// point; a proper prefix comes before every extension of it.
pub open spec fn lex_le(a: Seq<char>, b: Seq<char>) -> bool
    decreases a.len(),
{
    if a.len() == 0 {
        true
    } else if b.len() == 0 {
        false
    } else if (a[0] as int) < (b[0] as int) {
        true
    } else if (a[0] as int) > (b[0] as int) {
        false
    } else {
        lex_le(a.skip(1), b.skip(1))
    }
}

/// The order is total: of two sequences one comes no later than the other.
pub proof fn lemma_lex_le_total(a: Seq<char>, b: Seq<char>)
    ensures
        lex_le(a, b) || lex_le(b, a),
    decreases a.len(),
{
    if a.len() != 0 && b.len() != 0 && a[0] == b[0] {
        lemma_lex_le_total(a.skip(1), b.skip(1));
    }
}

/// The order is transitive.
pub proof fn lemma_lex_le_trans(a: Seq<char>, b: Seq<char>, c: Seq<char>)
    requires
        lex_le(a, b),
        lex_le(b, c),
    ensures
        lex_le(a, c),
    decreases a.len(),
{
    if a.len() != 0 && b.len() != 0 && c.len() != 0 {
        if a[0] == b[0] && b[0] == c[0] {
            lemma_lex_le_trans(a.skip(1), b.skip(1), c.skip(1));
        }
    }
}

/// The order is antisymmetric: mutual `lex_le` means equality.
pub proof fn lemma_lex_le_antisym(a: Seq<char>, b: Seq<char>)
    requires
        lex_le(a, b),
        lex_le(b, a),
    ensures
        a == b,
    decreases a.len(),
{
    if a.len() == 0 {
        assert(a =~= b);
    } else {
        assert(b.len() != 0);
        assert(a[0] == b[0]);
        lemma_lex_le_antisym(a.skip(1), b.skip(1));
        assert(a =~= seq![a[0]] + a.skip(1));
        assert(b =~= seq![b[0]] + b.skip(1));
        assert(a =~= b);
    }
}

/// Decides `lex_le` on two string slices.
pub fn str_le(a: &str, b: &str) -> (r: bool)
    ensures
        r == lex_le(a@, b@),
{
    let a_len = a.unicode_len();
    let b_len = b.unicode_len();
    let mut i: usize = 0;
    proof {
        assert(a@.skip(0) =~= a@);
        assert(b@.skip(0) =~= b@);
    }
    loop
        invariant
            i <= a_len,
            i <= b_len,
            a_len == a@.len(),
            b_len == b@.len(),
            lex_le(a@, b@) == lex_le(a@.skip(i as int), b@.skip(i as int)),
        decreases a_len - i,
    {
        if i == a_len {
            assert(a@.skip(i as int).len() == 0);
            return true;
        }
        if i == b_len {
            assert(b@.skip(i as int).len() == 0);
            assert(a@.skip(i as int).len() > 0);
            return false;
        }
        let ca = a.get_char(i);
        let cb = b.get_char(i);
        assert(a@.skip(i as int)[0] == a@[i as int]);
        assert(b@.skip(i as int)[0] == b@[i as int]);
        if (ca as u32) < (cb as u32) {
            return true;
        }
        if (ca as u32) > (cb as u32) {
            return false;
        }
        proof {
            assert(a@.skip(i as int).skip(1) =~= a@.skip(i as int + 1));
            assert(b@.skip(i as int).skip(1) =~= b@.skip(i as int + 1));
        }
        i = i + 1;
    }
}

/// Decides equality of two string slices.
pub fn str_eq(a: &str, b: &str) -> (r: bool)
    ensures
        r == (a@ == b@),
{
    let a_len = a.unicode_len();
    let b_len = b.unicode_len();
    if a_len != b_len {
        return false;
    }
    let mut i: usize = 0;
    while i < a_len
        invariant
            i <= a_len,
            a_len == a@.len(),
            b_len == b@.len(),
            a_len == b_len,
            forall|j: int| 0 <= j < i ==> a@[j] == b@[j],
        decreases a_len - i,
    {
        if a.get_char(i) != b.get_char(i) {
            return false;
        }
        i = i + 1;
    }
    proof {
        assert(a@ =~= b@);
    }
    true
}

/// A decimal digit character.
pub open spec fn is_digit(c: char) -> bool {
    ('0' as int) <= (c as int) && (c as int) <= ('9' as int)
}

/// Decides `is_digit`.
pub fn is_digit_exec(c: char) -> (r: bool)
    ensures
        r == is_digit(c),
{
    ('0' as u32) <= (c as u32) && (c as u32) <= ('9' as u32)
}

/// The character expected at position `j` of a well-formed
/// `YYYY-MM-DDTHH:MM:SSZ` timestamp.
pub open spec fn timestamp_char_ok(j: int, c: char) -> bool {
    if j == 4 || j == 7 {
        c == '-'
    } else if j == 10 {
        c == 'T'
    } else if j == 13 || j == 16 {
        c == ':'
    } else if j == 19 {
        c == 'Z'
    } else {
        is_digit(c)
    }
}

/// The length of a `YYYY-MM-DDTHH:MM:SSZ` timestamp.
pub const TIMESTAMP_LEN: usize = 20;

/// A well-formed UTC timestamp with seconds precision: exactly 20 characters
/// shaped `YYYY-MM-DDTHH:MM:SSZ`.
pub open spec fn is_timestamp(s: Seq<char>) -> bool {
    &&& s.len() == TIMESTAMP_LEN
    &&& forall|j: int| 0 <= j < s.len() ==> timestamp_char_ok(j, #[trigger] s[j])
}

/// Decides `timestamp_char_ok` at position `j`.
pub fn timestamp_char_ok_exec(j: usize, c: char) -> (r: bool)
    ensures
        r == timestamp_char_ok(j as int, c),
{
    if j == 4 || j == 7 {
        c == '-'
    } else if j == 10 {
        c == 'T'
    } else if j == 13 || j == 16 {
        c == ':'
    } else if j == 19 {
        c == 'Z'
    } else {
        is_digit_exec(c)
    }
}

/// Decides whether the first 20 characters of `s` form a well-formed
/// timestamp; false when `s` is shorter than that.
pub fn has_timestamp_prefix(s: &str) -> (r: bool)
    ensures
        r == (s@.len() >= TIMESTAMP_LEN && is_timestamp(s@.subrange(0, TIMESTAMP_LEN as int))),
{
    let len = s.unicode_len();
    if len < TIMESTAMP_LEN {
        return false;
    }
    let ghost prefix = s@.subrange(0, TIMESTAMP_LEN as int);
    let mut j: usize = 0;
    while j < TIMESTAMP_LEN
        invariant
            j <= TIMESTAMP_LEN,
            s@.len() >= TIMESTAMP_LEN,
            prefix == s@.subrange(0, TIMESTAMP_LEN as int),
            forall|k: int| 0 <= k < j ==> timestamp_char_ok(k, #[trigger] prefix[k]),
        decreases TIMESTAMP_LEN - j,
    {
        let c = s.get_char(j);
        assert(prefix[j as int] == s@[j as int]);
        if !timestamp_char_ok_exec(j, c) {
            return false;
        }
        j = j + 1;
    }
    true
}

/// The decimal digit character for `d`.
pub open spec fn digit_char(d: int) -> char {
    if d == 0 {
        '0'
    } else if d == 1 {
        '1'
    } else if d == 2 {
        '2'
    } else if d == 3 {
        '3'
    } else if d == 4 {
        '4'
    } else if d == 5 {
        '5'
    } else if d == 6 {
        '6'
    } else if d == 7 {
        '7'
    } else if d == 8 {
        '8'
    } else {
        '9'
    }
}

/// The decimal rendering of `n`, most significant digit first, no sign and no
/// leading zero except for `n == 0` itself.
pub open spec fn dec_digits(n: nat) -> Seq<char>
    decreases n,
{
    if n < 10 {
        seq![digit_char(n as int)]
    } else {
        dec_digits(n / 10).push(digit_char((n % 10) as int))
    }
}

/// Maps a digit value to its character.
pub fn digit_char_exec(d: u64) -> (r: char)
    requires
        d < 10,
    ensures
        r == digit_char(d as int),
{
    if d == 0 {
        '0'
    } else if d == 1 {
        '1'
    } else if d == 2 {
        '2'
    } else if d == 3 {
        '3'
    } else if d == 4 {
        '4'
    } else if d == 5 {
        '5'
    } else if d == 6 {
        '6'
    } else if d == 7 {
        '7'
    } else if d == 8 {
        '8'
    } else {
        '9'
    }
}

/// Appends the decimal rendering of `n` to `out`.
pub fn push_decimal(out: &mut String, n: u64)
    ensures
        final(out)@ == old(out)@ + dec_digits(n as nat),
    decreases n,
{
    if n < 10 {
        out.push(digit_char_exec(n));
        assert(out@ =~= old(out)@ + dec_digits(n as nat));
    } else {
        push_decimal(out, n / 10);
        out.push(digit_char_exec(n % 10));
        assert(out@ =~= old(out)@ + dec_digits(n as nat));
    }
}

/// The decimal rendering of `n` as a `String`.
pub fn decimal_string(n: u64) -> (r: String)
    ensures
        r@ == dec_digits(n as nat),
{
    let mut out = String::new();
    push_decimal(&mut out, n);
    proof {
        assert(out@ =~= dec_digits(n as nat));
    }
    out
}

/// Where each piece of a 3-piece concatenation stands: the piece at its
/// offset, index by index.
pub proof fn lemma_concat3(c1: Seq<char>, c2: Seq<char>, c3: Seq<char>)
    ensures
        forall|k: int| 0 <= k < c1.len() ==> (c1 + c2 + c3)[0 + k] == c1[k],
        forall|k: int| 0 <= k < c2.len() ==> (c1 + c2 + c3)[c1.len() + k] == c2[k],
        forall|k: int| 0 <= k < c3.len() ==> (c1 + c2 + c3)[c1.len() + c2.len() + k] == c3[k],
{
    assert forall|k: int| 0 <= k < c1.len() implies (c1 + c2 + c3)[0 + k] == c1[k] by {
        let idx = 0 + k;
        assert((c1)[idx] == c1[k]);
        assert((c1 + c2)[idx] == (c1)[idx]);
        assert((c1 + c2 + c3)[idx] == (c1 + c2)[idx]);
    }
    assert forall|k: int| 0 <= k < c2.len() implies (c1 + c2 + c3)[c1.len() + k] == c2[k] by {
        let idx = c1.len() + k;
        assert((c1 + c2)[idx] == c2[k]);
        assert((c1 + c2 + c3)[idx] == (c1 + c2)[idx]);
    }
    assert forall|k: int| 0 <= k < c3.len() implies (c1 + c2 + c3)[c1.len() + c2.len() + k] == c3[k] by {
        let idx = c1.len() + c2.len() + k;
        assert((c1 + c2 + c3)[idx] == c3[k]);
    }
}

/// Where each piece of a 7-piece concatenation stands: the piece at its
/// offset, index by index.
pub proof fn lemma_concat7(c1: Seq<char>, c2: Seq<char>, c3: Seq<char>, c4: Seq<char>, c5: Seq<char>, c6: Seq<char>, c7: Seq<char>)
    ensures
        forall|k: int| 0 <= k < c1.len() ==> (c1 + c2 + c3 + c4 + c5 + c6 + c7)[0 + k] == c1[k],
        forall|k: int| 0 <= k < c2.len() ==> (c1 + c2 + c3 + c4 + c5 + c6 + c7)[c1.len() + k] == c2[k],
        forall|k: int| 0 <= k < c3.len() ==> (c1 + c2 + c3 + c4 + c5 + c6 + c7)[c1.len() + c2.len() + k] == c3[k],
        forall|k: int| 0 <= k < c4.len() ==> (c1 + c2 + c3 + c4 + c5 + c6 + c7)[c1.len() + c2.len() + c3.len() + k] == c4[k],
        forall|k: int| 0 <= k < c5.len() ==> (c1 + c2 + c3 + c4 + c5 + c6 + c7)[c1.len() + c2.len() + c3.len() + c4.len() + k] == c5[k],
        forall|k: int| 0 <= k < c6.len() ==> (c1 + c2 + c3 + c4 + c5 + c6 + c7)[c1.len() + c2.len() + c3.len() + c4.len() + c5.len() + k] == c6[k],
        forall|k: int| 0 <= k < c7.len() ==> (c1 + c2 + c3 + c4 + c5 + c6 + c7)[c1.len() + c2.len() + c3.len() + c4.len() + c5.len() + c6.len() + k] == c7[k],
{
    assert forall|k: int| 0 <= k < c1.len() implies (c1 + c2 + c3 + c4 + c5 + c6 + c7)[0 + k] == c1[k] by {
        let idx = 0 + k;
        assert((c1)[idx] == c1[k]);
        assert((c1 + c2)[idx] == (c1)[idx]);
        assert((c1 + c2 + c3)[idx] == (c1 + c2)[idx]);
        assert((c1 + c2 + c3 + c4)[idx] == (c1 + c2 + c3)[idx]);
        assert((c1 + c2 + c3 + c4 + c5)[idx] == (c1 + c2 + c3 + c4)[idx]);
        assert((c1 + c2 + c3 + c4 + c5 + c6)[idx] == (c1 + c2 + c3 + c4 + c5)[idx]);
        assert((c1 + c2 + c3 + c4 + c5 + c6 + c7)[idx] == (c1 + c2 + c3 + c4 + c5 + c6)[idx]);
    }
    assert forall|k: int| 0 <= k < c2.len() implies (c1 + c2 + c3 + c4 + c5 + c6 + c7)[c1.len() + k] == c2[k] by {
        let idx = c1.len() + k;
        assert((c1 + c2)[idx] == c2[k]);
        assert((c1 + c2 + c3)[idx] == (c1 + c2)[idx]);
        assert((c1 + c2 + c3 + c4)[idx] == (c1 + c2 + c3)[idx]);
        assert((c1 + c2 + c3 + c4 + c5)[idx] == (c1 + c2 + c3 + c4)[idx]);
        assert((c1 + c2 + c3 + c4 + c5 + c6)[idx] == (c1 + c2 + c3 + c4 + c5)[idx]);
        assert((c1 + c2 + c3 + c4 + c5 + c6 + c7)[idx] == (c1 + c2 + c3 + c4 + c5 + c6)[idx]);
    }
    assert forall|k: int| 0 <= k < c3.len() implies (c1 + c2 + c3 + c4 + c5 + c6 + c7)[c1.len() + c2.len() + k] == c3[k] by {
        let idx = c1.len() + c2.len() + k;
        assert((c1 + c2 + c3)[idx] == c3[k]);
        assert((c1 + c2 + c3 + c4)[idx] == (c1 + c2 + c3)[idx]);
        assert((c1 + c2 + c3 + c4 + c5)[idx] == (c1 + c2 + c3 + c4)[idx]);
        assert((c1 + c2 + c3 + c4 + c5 + c6)[idx] == (c1 + c2 + c3 + c4 + c5)[idx]);
        assert((c1 + c2 + c3 + c4 + c5 + c6 + c7)[idx] == (c1 + c2 + c3 + c4 + c5 + c6)[idx]);
    }
    assert forall|k: int| 0 <= k < c4.len() implies (c1 + c2 + c3 + c4 + c5 + c6 + c7)[c1.len() + c2.len() + c3.len() + k] == c4[k] by {
        let idx = c1.len() + c2.len() + c3.len() + k;
        assert((c1 + c2 + c3 + c4)[idx] == c4[k]);
        assert((c1 + c2 + c3 + c4 + c5)[idx] == (c1 + c2 + c3 + c4)[idx]);
        assert((c1 + c2 + c3 + c4 + c5 + c6)[idx] == (c1 + c2 + c3 + c4 + c5)[idx]);
        assert((c1 + c2 + c3 + c4 + c5 + c6 + c7)[idx] == (c1 + c2 + c3 + c4 + c5 + c6)[idx]);
    }
    assert forall|k: int| 0 <= k < c5.len() implies (c1 + c2 + c3 + c4 + c5 + c6 + c7)[c1.len() + c2.len() + c3.len() + c4.len() + k] == c5[k] by {
        let idx = c1.len() + c2.len() + c3.len() + c4.len() + k;
        assert((c1 + c2 + c3 + c4 + c5)[idx] == c5[k]);
        assert((c1 + c2 + c3 + c4 + c5 + c6)[idx] == (c1 + c2 + c3 + c4 + c5)[idx]);
        assert((c1 + c2 + c3 + c4 + c5 + c6 + c7)[idx] == (c1 + c2 + c3 + c4 + c5 + c6)[idx]);
    }
    assert forall|k: int| 0 <= k < c6.len() implies (c1 + c2 + c3 + c4 + c5 + c6 + c7)[c1.len() + c2.len() + c3.len() + c4.len() + c5.len() + k] == c6[k] by {
        let idx = c1.len() + c2.len() + c3.len() + c4.len() + c5.len() + k;
        assert((c1 + c2 + c3 + c4 + c5 + c6)[idx] == c6[k]);
        assert((c1 + c2 + c3 + c4 + c5 + c6 + c7)[idx] == (c1 + c2 + c3 + c4 + c5 + c6)[idx]);
    }
    assert forall|k: int| 0 <= k < c7.len() implies (c1 + c2 + c3 + c4 + c5 + c6 + c7)[c1.len() + c2.len() + c3.len() + c4.len() + c5.len() + c6.len() + k] == c7[k] by {
        let idx = c1.len() + c2.len() + c3.len() + c4.len() + c5.len() + c6.len() + k;
        assert((c1 + c2 + c3 + c4 + c5 + c6 + c7)[idx] == c7[k]);
    }
}

/// Where each piece of a 10-piece concatenation stands: the piece at its
/// offset, index by index.
pub proof fn lemma_concat10(c1: Seq<char>, c2: Seq<char>, c3: Seq<char>, c4: Seq<char>, c5: Seq<char>, c6: Seq<char>, c7: Seq<char>, c8: Seq<char>, c9: Seq<char>, c10: Seq<char>)
    ensures
        forall|k: int| 0 <= k < c1.len() ==> (c1 + c2 + c3 + c4 + c5 + c6 + c7 + c8 + c9 + c10)[0 + k] == c1[k],
        forall|k: int| 0 <= k < c2.len() ==> (c1 + c2 + c3 + c4 + c5 + c6 + c7 + c8 + c9 + c10)[c1.len() + k] == c2[k],
        forall|k: int| 0 <= k < c3.len() ==> (c1 + c2 + c3 + c4 + c5 + c6 + c7 + c8 + c9 + c10)[c1.len() + c2.len() + k] == c3[k],
        forall|k: int| 0 <= k < c4.len() ==> (c1 + c2 + c3 + c4 + c5 + c6 + c7 + c8 + c9 + c10)[c1.len() + c2.len() + c3.len() + k] == c4[k],
        forall|k: int| 0 <= k < c5.len() ==> (c1 + c2 + c3 + c4 + c5 + c6 + c7 + c8 + c9 + c10)[c1.len() + c2.len() + c3.len() + c4.len() + k] == c5[k],
        forall|k: int| 0 <= k < c6.len() ==> (c1 + c2 + c3 + c4 + c5 + c6 + c7 + c8 + c9 + c10)[c1.len() + c2.len() + c3.len() + c4.len() + c5.len() + k] == c6[k],
        forall|k: int| 0 <= k < c7.len() ==> (c1 + c2 + c3 + c4 + c5 + c6 + c7 + c8 + c9 + c10)[c1.len() + c2.len() + c3.len() + c4.len() + c5.len() + c6.len() + k] == c7[k],
        forall|k: int| 0 <= k < c8.len() ==> (c1 + c2 + c3 + c4 + c5 + c6 + c7 + c8 + c9 + c10)[c1.len() + c2.len() + c3.len() + c4.len() + c5.len() + c6.len() + c7.len() + k] == c8[k],
        forall|k: int| 0 <= k < c9.len() ==> (c1 + c2 + c3 + c4 + c5 + c6 + c7 + c8 + c9 + c10)[c1.len() + c2.len() + c3.len() + c4.len() + c5.len() + c6.len() + c7.len() + c8.len() + k] == c9[k],
        forall|k: int| 0 <= k < c10.len() ==> (c1 + c2 + c3 + c4 + c5 + c6 + c7 + c8 + c9 + c10)[c1.len() + c2.len() + c3.len() + c4.len() + c5.len() + c6.len() + c7.len() + c8.len() + c9.len() + k] == c10[k],
{
    assert forall|k: int| 0 <= k < c1.len() implies (c1 + c2 + c3 + c4 + c5 + c6 + c7 + c8 + c9 + c10)[0 + k] == c1[k] by {
        let idx = 0 + k;
        assert((c1)[idx] == c1[k]);
        assert((c1 + c2)[idx] == (c1)[idx]);
        assert((c1 + c2 + c3)[idx] == (c1 + c2)[idx]);
        assert((c1 + c2 + c3 + c4)[idx] == (c1 + c2 + c3)[idx]);
        assert((c1 + c2 + c3 + c4 + c5)[idx] == (c1 + c2 + c3 + c4)[idx]);
        assert((c1 + c2 + c3 + c4 + c5 + c6)[idx] == (c1 + c2 + c3 + c4 + c5)[idx]);
        assert((c1 + c2 + c3 + c4 + c5 + c6 + c7)[idx] == (c1 + c2 + c3 + c4 + c5 + c6)[idx]);
        assert((c1 + c2 + c3 + c4 + c5 + c6 + c7 + c8)[idx] == (c1 + c2 + c3 + c4 + c5 + c6 + c7)[idx]);
        assert((c1 + c2 + c3 + c4 + c5 + c6 + c7 + c8 + c9)[idx] == (c1 + c2 + c3 + c4 + c5 + c6 + c7 + c8)[idx]);
        assert((c1 + c2 + c3 + c4 + c5 + c6 + c7 + c8 + c9 + c10)[idx] == (c1 + c2 + c3 + c4 + c5 + c6 + c7 + c8 + c9)[idx]);
    }
    assert forall|k: int| 0 <= k < c2.len() implies (c1 + c2 + c3 + c4 + c5 + c6 + c7 + c8 + c9 + c10)[c1.len() + k] == c2[k] by {
        let idx = c1.len() + k;
        assert((c1 + c2)[idx] == c2[k]);
        assert((c1 + c2 + c3)[idx] == (c1 + c2)[idx]);
        assert((c1 + c2 + c3 + c4)[idx] == (c1 + c2 + c3)[idx]);
        assert((c1 + c2 + c3 + c4 + c5)[idx] == (c1 + c2 + c3 + c4)[idx]);
        assert((c1 + c2 + c3 + c4 + c5 + c6)[idx] == (c1 + c2 + c3 + c4 + c5)[idx]);
        assert((c1 + c2 + c3 + c4 + c5 + c6 + c7)[idx] == (c1 + c2 + c3 + c4 + c5 + c6)[idx]);
        assert((c1 + c2 + c3 + c4 + c5 + c6 + c7 + c8)[idx] == (c1 + c2 + c3 + c4 + c5 + c6 + c7)[idx]);
        assert((c1 + c2 + c3 + c4 + c5 + c6 + c7 + c8 + c9)[idx] == (c1 + c2 + c3 + c4 + c5 + c6 + c7 + c8)[idx]);
        assert((c1 + c2 + c3 + c4 + c5 + c6 + c7 + c8 + c9 + c10)[idx] == (c1 + c2 + c3 + c4 + c5 + c6 + c7 + c8 + c9)[idx]);
    }
    assert forall|k: int| 0 <= k < c3.len() implies (c1 + c2 + c3 + c4 + c5 + c6 + c7 + c8 + c9 + c10)[c1.len() + c2.len() + k] == c3[k] by {
        let idx = c1.len() + c2.len() + k;
        assert((c1 + c2 + c3)[idx] == c3[k]);
        assert((c1 + c2 + c3 + c4)[idx] == (c1 + c2 + c3)[idx]);
        assert((c1 + c2 + c3 + c4 + c5)[idx] == (c1 + c2 + c3 + c4)[idx]);
        assert((c1 + c2 + c3 + c4 + c5 + c6)[idx] == (c1 + c2 + c3 + c4 + c5)[idx]);
        assert((c1 + c2 + c3 + c4 + c5 + c6 + c7)[idx] == (c1 + c2 + c3 + c4 + c5 + c6)[idx]);
        assert((c1 + c2 + c3 + c4 + c5 + c6 + c7 + c8)[idx] == (c1 + c2 + c3 + c4 + c5 + c6 + c7)[idx]);
        assert((c1 + c2 + c3 + c4 + c5 + c6 + c7 + c8 + c9)[idx] == (c1 + c2 + c3 + c4 + c5 + c6 + c7 + c8)[idx]);
        assert((c1 + c2 + c3 + c4 + c5 + c6 + c7 + c8 + c9 + c10)[idx] == (c1 + c2 + c3 + c4 + c5 + c6 + c7 + c8 + c9)[idx]);
    }
    assert forall|k: int| 0 <= k < c4.len() implies (c1 + c2 + c3 + c4 + c5 + c6 + c7 + c8 + c9 + c10)[c1.len() + c2.len() + c3.len() + k] == c4[k] by {
        let idx = c1.len() + c2.len() + c3.len() + k;
        assert((c1 + c2 + c3 + c4)[idx] == c4[k]);
        assert((c1 + c2 + c3 + c4 + c5)[idx] == (c1 + c2 + c3 + c4)[idx]);
        assert((c1 + c2 + c3 + c4 + c5 + c6)[idx] == (c1 + c2 + c3 + c4 + c5)[idx]);
        assert((c1 + c2 + c3 + c4 + c5 + c6 + c7)[idx] == (c1 + c2 + c3 + c4 + c5 + c6)[idx]);
        assert((c1 + c2 + c3 + c4 + c5 + c6 + c7 + c8)[idx] == (c1 + c2 + c3 + c4 + c5 + c6 + c7)[idx]);
        assert((c1 + c2 + c3 + c4 + c5 + c6 + c7 + c8 + c9)[idx] == (c1 + c2 + c3 + c4 + c5 + c6 + c7 + c8)[idx]);
        assert((c1 + c2 + c3 + c4 + c5 + c6 + c7 + c8 + c9 + c10)[idx] == (c1 + c2 + c3 + c4 + c5 + c6 + c7 + c8 + c9)[idx]);
    }
    assert forall|k: int| 0 <= k < c5.len() implies (c1 + c2 + c3 + c4 + c5 + c6 + c7 + c8 + c9 + c10)[c1.len() + c2.len() + c3.len() + c4.len() + k] == c5[k] by {
        let idx = c1.len() + c2.len() + c3.len() + c4.len() + k;
        assert((c1 + c2 + c3 + c4 + c5)[idx] == c5[k]);
        assert((c1 + c2 + c3 + c4 + c5 + c6)[idx] == (c1 + c2 + c3 + c4 + c5)[idx]);
        assert((c1 + c2 + c3 + c4 + c5 + c6 + c7)[idx] == (c1 + c2 + c3 + c4 + c5 + c6)[idx]);
        assert((c1 + c2 + c3 + c4 + c5 + c6 + c7 + c8)[idx] == (c1 + c2 + c3 + c4 + c5 + c6 + c7)[idx]);
        assert((c1 + c2 + c3 + c4 + c5 + c6 + c7 + c8 + c9)[idx] == (c1 + c2 + c3 + c4 + c5 + c6 + c7 + c8)[idx]);
        assert((c1 + c2 + c3 + c4 + c5 + c6 + c7 + c8 + c9 + c10)[idx] == (c1 + c2 + c3 + c4 + c5 + c6 + c7 + c8 + c9)[idx]);
    }
    assert forall|k: int| 0 <= k < c6.len() implies (c1 + c2 + c3 + c4 + c5 + c6 + c7 + c8 + c9 + c10)[c1.len() + c2.len() + c3.len() + c4.len() + c5.len() + k] == c6[k] by {
        let idx = c1.len() + c2.len() + c3.len() + c4.len() + c5.len() + k;
        assert((c1 + c2 + c3 + c4 + c5 + c6)[idx] == c6[k]);
        assert((c1 + c2 + c3 + c4 + c5 + c6 + c7)[idx] == (c1 + c2 + c3 + c4 + c5 + c6)[idx]);
        assert((c1 + c2 + c3 + c4 + c5 + c6 + c7 + c8)[idx] == (c1 + c2 + c3 + c4 + c5 + c6 + c7)[idx]);
        assert((c1 + c2 + c3 + c4 + c5 + c6 + c7 + c8 + c9)[idx] == (c1 + c2 + c3 + c4 + c5 + c6 + c7 + c8)[idx]);
        assert((c1 + c2 + c3 + c4 + c5 + c6 + c7 + c8 + c9 + c10)[idx] == (c1 + c2 + c3 + c4 + c5 + c6 + c7 + c8 + c9)[idx]);
    }
    assert forall|k: int| 0 <= k < c7.len() implies (c1 + c2 + c3 + c4 + c5 + c6 + c7 + c8 + c9 + c10)[c1.len() + c2.len() + c3.len() + c4.len() + c5.len() + c6.len() + k] == c7[k] by {
        let idx = c1.len() + c2.len() + c3.len() + c4.len() + c5.len() + c6.len() + k;
        assert((c1 + c2 + c3 + c4 + c5 + c6 + c7)[idx] == c7[k]);
        assert((c1 + c2 + c3 + c4 + c5 + c6 + c7 + c8)[idx] == (c1 + c2 + c3 + c4 + c5 + c6 + c7)[idx]);
        assert((c1 + c2 + c3 + c4 + c5 + c6 + c7 + c8 + c9)[idx] == (c1 + c2 + c3 + c4 + c5 + c6 + c7 + c8)[idx]);
        assert((c1 + c2 + c3 + c4 + c5 + c6 + c7 + c8 + c9 + c10)[idx] == (c1 + c2 + c3 + c4 + c5 + c6 + c7 + c8 + c9)[idx]);
    }
    assert forall|k: int| 0 <= k < c8.len() implies (c1 + c2 + c3 + c4 + c5 + c6 + c7 + c8 + c9 + c10)[c1.len() + c2.len() + c3.len() + c4.len() + c5.len() + c6.len() + c7.len() + k] == c8[k] by {
        let idx = c1.len() + c2.len() + c3.len() + c4.len() + c5.len() + c6.len() + c7.len() + k;
        assert((c1 + c2 + c3 + c4 + c5 + c6 + c7 + c8)[idx] == c8[k]);
        assert((c1 + c2 + c3 + c4 + c5 + c6 + c7 + c8 + c9)[idx] == (c1 + c2 + c3 + c4 + c5 + c6 + c7 + c8)[idx]);
        assert((c1 + c2 + c3 + c4 + c5 + c6 + c7 + c8 + c9 + c10)[idx] == (c1 + c2 + c3 + c4 + c5 + c6 + c7 + c8 + c9)[idx]);
    }
    assert forall|k: int| 0 <= k < c9.len() implies (c1 + c2 + c3 + c4 + c5 + c6 + c7 + c8 + c9 + c10)[c1.len() + c2.len() + c3.len() + c4.len() + c5.len() + c6.len() + c7.len() + c8.len() + k] == c9[k] by {
        let idx = c1.len() + c2.len() + c3.len() + c4.len() + c5.len() + c6.len() + c7.len() + c8.len() + k;
        assert((c1 + c2 + c3 + c4 + c5 + c6 + c7 + c8 + c9)[idx] == c9[k]);
        assert((c1 + c2 + c3 + c4 + c5 + c6 + c7 + c8 + c9 + c10)[idx] == (c1 + c2 + c3 + c4 + c5 + c6 + c7 + c8 + c9)[idx]);
    }
    assert forall|k: int| 0 <= k < c10.len() implies (c1 + c2 + c3 + c4 + c5 + c6 + c7 + c8 + c9 + c10)[c1.len() + c2.len() + c3.len() + c4.len() + c5.len() + c6.len() + c7.len() + c8.len() + c9.len() + k] == c10[k] by {
        let idx = c1.len() + c2.len() + c3.len() + c4.len() + c5.len() + c6.len() + c7.len() + c8.len() + c9.len() + k;
        assert((c1 + c2 + c3 + c4 + c5 + c6 + c7 + c8 + c9 + c10)[idx] == c10[k]);
    }
}

} // verus!
