//! Verified helpers for building and comparing the strings that appear in
//! macro names, rendered tokens and diagnostic messages.

use vstd::prelude::*;

verus! {

/// Appends one character.
///
/// Relies on std's `String::push`: appends the given char to the end of the
/// string.
#[verifier::external_body]
pub fn push_char(s: &mut String, c: char)
    ensures
        final(s)@ == old(s)@.push(c),
{
    s.push(c);
}

/// What std's `str::to_lowercase` returns; it depends on the characters
/// alone.
pub uninterp spec fn lower_seq(s: Seq<char>) -> Seq<char>;

/// Lower-cases a string.
///
/// Relies on std's `str::to_lowercase`: the result is a function of the
/// characters alone (the Unicode lowercase mapping, locale-independent).
#[verifier::external_body]
pub fn to_lower(s: &str) -> (r: String)
    ensures
        r@ == lower_seq(s@),
{
    s.to_lowercase()
}

/// String equality over the character sequences.
pub fn str_eq(a: &str, b: &str) -> (r: bool)
    ensures
        r == (a@ == b@),
{
    let x: String = a.to_owned();
    let y: String = b.to_owned();
    x == y
}

pub open spec fn spec_digit_char(d: nat) -> char {
    if d == 0 {
        '0'
    } else if d == 1 {
        '1'
    } else if d == 2 {
        '2'
    } else if d == 3 {
        '3'
    } else if d == 4 {
        '4'
    } else if d == 5 {
        '5'
    } else if d == 6 {
        '6'
    } else if d == 7 {
        '7'
    } else if d == 8 {
        '8'
    } else {
        '9'
    }
}

/// The decimal rendering of a number, most significant digit first.
pub open spec fn spec_dec(n: nat) -> Seq<char>
    decreases n,
{
    if n < 10 {
        seq![spec_digit_char(n)]
    } else {
        spec_dec(n / 10).push(spec_digit_char(n % 10))
    }
}

fn digit_char(d: u64) -> (c: char)
    requires
        d < 10,
    ensures
        c == spec_digit_char(d as nat),
{
    if d == 0 {
        '0'
    } else if d == 1 {
        '1'
    } else if d == 2 {
        '2'
    } else if d == 3 {
        '3'
    } else if d == 4 {
        '4'
    } else if d == 5 {
        '5'
    } else if d == 6 {
        '6'
    } else if d == 7 {
        '7'
    } else if d == 8 {
        '8'
    } else {
        '9'
    }
}

/// Decimal rendering of `n`.
pub fn u64_to_text(n: u64) -> (s: String)
    ensures
        s@ == spec_dec(n as nat),
    decreases n,
{
    if n < 10 {
        let mut s = String::new();
        push_char(&mut s, digit_char(n));
        proof {
            assert(s@ =~= spec_dec(n as nat));
        }
        s
    } else {
        assert(n / 10 < n && n / 10 >= 1) by (nonlinear_arith)
            requires
                n >= 10,
        ;
        let mut s = u64_to_text(n / 10);
        push_char(&mut s, digit_char(n % 10));
        s
    }
}

/// The text with every newline written out as a backslash and an `n`.
pub open spec fn escape_nl(s: Seq<char>) -> Seq<char>
    decreases s.len(),
{
    if s.len() == 0 {
        Seq::empty()
    } else if s[0] == '\n' {
        "\\n"@ + escape_nl(s.skip(1))
    } else {
        seq![s[0]] + escape_nl(s.skip(1))
    }
}

/// Escaping distributes over concatenation.
proof fn lemma_escape_nl_concat(a: Seq<char>, b: Seq<char>)
    ensures
        escape_nl(a + b) == escape_nl(a) + escape_nl(b),
    decreases a.len(),
{
    if a.len() == 0 {
        assert(a + b =~= b);
        assert(escape_nl(a) + escape_nl(b) =~= escape_nl(b));
    } else {
        assert((a + b).skip(1) =~= a.skip(1) + b);
        lemma_escape_nl_concat(a.skip(1), b);
        if a[0] == '\n' {
            assert(escape_nl(a + b) =~= escape_nl(a) + escape_nl(b));
        } else {
            assert(escape_nl(a + b) =~= escape_nl(a) + escape_nl(b));
        }
    }
}

/// Writes out each newline as a backslash and an `n`.
pub fn escape_newlines(s: &str) -> (r: String)
    ensures
        r@ == escape_nl(s@),
{
    let len = s.unicode_len();
    let mut r = String::new();
    let mut i: usize = 0;
    proof {
        assert(s@.take(0) =~= Seq::<char>::empty());
    }
    while i < len
        invariant
            i <= len,
            len == s@.len(),
            r@ == escape_nl(s@.take(i as int)),
        decreases len - i,
    {
        let c = s.get_char(i);
        if c == '\n' {
            push_char(&mut r, '\\');
            push_char(&mut r, 'n');
            proof {
                reveal_strlit("\\n");
                assert(s@.take(i + 1) =~= s@.take(i as int) + seq![s@[i as int]]);
                lemma_escape_nl_concat(s@.take(i as int), seq![s@[i as int]]);
                assert(seq![s@[i as int]].skip(1) =~= Seq::<char>::empty());
                assert(escape_nl(Seq::<char>::empty()) =~= Seq::<char>::empty());
                assert(escape_nl(seq![s@[i as int]]) =~= "\\n"@);
                assert(r@ =~= escape_nl(s@.take(i + 1)));
            }
        } else {
            push_char(&mut r, c);
            proof {
                assert(s@.take(i + 1) =~= s@.take(i as int) + seq![s@[i as int]]);
                lemma_escape_nl_concat(s@.take(i as int), seq![s@[i as int]]);
                assert(seq![s@[i as int]].skip(1) =~= Seq::<char>::empty());
                assert(escape_nl(Seq::<char>::empty()) =~= Seq::<char>::empty());
                assert(escape_nl(seq![s@[i as int]]) =~= seq![s@[i as int]]);
                assert(r@ =~= escape_nl(s@.take(i + 1)));
            }
        }
        i = i + 1;
    }
    proof {
        assert(s@.take(len as int) =~= s@);
    }
    r
}

/// Strict lexicographic order over character sequences, by code point.
pub open spec fn lex_lt(a: Seq<char>, b: Seq<char>) -> bool
    decreases a.len(),
{
    if b.len() == 0 {
        false
    } else if a.len() == 0 {
        true
    } else if a[0] != b[0] {
        (a[0] as u32) < (b[0] as u32)
    } else {
        lex_lt(a.skip(1), b.skip(1))
    }
}

/// Non-strict lexicographic order.
pub open spec fn lex_le(a: Seq<char>, b: Seq<char>) -> bool {
    a == b || lex_lt(a, b)
}

/// Equal heads and equal tails make equal sequences.
proof fn lemma_heads_skip_eq(a: Seq<char>, b: Seq<char>)
    requires
        a.len() > 0,
        b.len() > 0,
        a[0] == b[0],
        a.skip(1) == b.skip(1),
    ensures
        a == b,
{
    assert(a.skip(1).len() == a.len() - 1);
    assert(b.skip(1).len() == b.len() - 1);
    assert(a.len() == b.len());
    assert forall|i: int| 0 <= i < a.len() implies a[i] == b[i] by {
        if i > 0 {
            assert(a.skip(1)[i - 1] == a[i]);
            assert(b.skip(1)[i - 1] == b[i]);
        }
    }
    assert(a =~= b);
}

/// The lexicographic order is total.
pub proof fn lemma_lex_total(a: Seq<char>, b: Seq<char>)
    ensures
        lex_le(a, b) || lex_le(b, a),
    decreases a.len(),
{
    if a.len() == 0 || b.len() == 0 {
        if a.len() == 0 && b.len() == 0 {
            assert(a =~= b);
        }
    } else if a[0] == b[0] {
        lemma_lex_total(a.skip(1), b.skip(1));
        if a.skip(1) == b.skip(1) {
            lemma_heads_skip_eq(a, b);
        }
    } else {
        if (a[0] as u32) == (b[0] as u32) {
            vstd::utf8::char_u32_cast(a[0], a[0] as u32);
            vstd::utf8::char_u32_cast(b[0], b[0] as u32);
        }
    }
}

/// The lexicographic order is transitive.
pub proof fn lemma_lex_le_trans(a: Seq<char>, b: Seq<char>, c: Seq<char>)
    requires
        lex_le(a, b),
        lex_le(b, c),
    ensures
        lex_le(a, c),
    decreases a.len(),
{
    if a == b || b == c {
    } else {
        if a.len() == 0 {
            if c.len() == 0 {
                assert(b.len() > 0);
                assert(!lex_lt(b, c));
            }
        } else {
            assert(b.len() > 0);
            assert(c.len() > 0);
            if a[0] == b[0] && b[0] == c[0] {
                lemma_lex_le_trans(a.skip(1), b.skip(1), c.skip(1));
                if a.skip(1) == c.skip(1) {
                    lemma_heads_skip_eq(a, c);
                }
            }
        }
    }
}

/// Decides `lex_le` on string slices.
pub fn str_lex_le(a: &str, b: &str) -> (r: bool)
    ensures
        r == lex_le(a@, b@),
    decreases a@.len(),
{
    let a_len = a.unicode_len();
    let b_len = b.unicode_len();
    if b_len == 0 {
        proof {
            if a@.len() == 0 {
                assert(a@ =~= b@);
            }
        }
        a_len == 0
    } else if a_len == 0 {
        true
    } else {
        let ca = a.get_char(0);
        let cb = b.get_char(0);
        if ca != cb {
            (ca as u32) < (cb as u32)
        } else {
            let ra = a.substring_char(1, a_len);
            let rb = b.substring_char(1, b_len);
            let r = str_lex_le(ra, rb);
            proof {
                assert(ra@ =~= a@.skip(1));
                assert(rb@ =~= b@.skip(1));
                if a@.skip(1) == b@.skip(1) {
                    assert(a@.len() == b@.len());
                    assert forall|i: int| 0 <= i < a@.len() implies a@[i] == b@[i] by {
                        if i > 0 {
                            assert(a@.skip(1)[i - 1] == a@[i]);
                            assert(b@.skip(1)[i - 1] == b@[i]);
                        }
                    }
                    assert(a@ =~= b@);
                }
                if a@ == b@ {
                    assert(a@.skip(1) =~= b@.skip(1));
                }
            }
            r
        }
    }
}

} // verus!
