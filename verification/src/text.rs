use vstd::prelude::*;
use vstd::string::StrSliceExecFns;
use vstd::string::StringExecFns;

verus! {

/// Whether a character counts as whitespace. Names the result of
/// `char::is_whitespace`: the Unicode `White_Space` property, a function
/// of the character alone.
pub uninterp spec fn white(c: char) -> bool;

/// Relies on `char::is_whitespace`: whether `c` has the Unicode
/// `White_Space` property.
#[verifier::external_body]
pub(crate) fn is_white(c: char) -> (r: bool)
    ensures
        r == white(c),
{
    c.is_whitespace()
}

/// How many characters at the front of `s` are whitespace.
pub open spec fn leading_white(s: Seq<char>) -> nat
    decreases s.len(),
{
    if s.len() == 0 {
        0
    } else if white(s[0]) {
        (1 + leading_white(s.drop_first())) as nat
    } else {
        0
    }
}

/// How many characters at the back of `s` are whitespace.
pub open spec fn trailing_white(s: Seq<char>) -> nat
    decreases s.len(),
{
    if s.len() == 0 {
        0
    } else if white(s[s.len() - 1]) {
        (1 + trailing_white(s.drop_last())) as nat
    } else {
        0
    }
}

/// `s` with leading and trailing whitespace removed.
pub open spec fn trim_spec(s: Seq<char>) -> Seq<char> {
    if leading_white(s) == s.len() {
        Seq::empty()
    } else {
        s.subrange(leading_white(s) as int, s.len() - trailing_white(s))
    }
}

pub proof fn lemma_leading_white(s: Seq<char>)
    ensures
        leading_white(s) <= s.len(),
        forall|j: int| 0 <= j < leading_white(s) ==> white(s[j]),
        leading_white(s) < s.len() ==> !white(s[leading_white(s) as int]),
    decreases s.len(),
{
    if s.len() == 0 {
    } else if white(s[0]) {
        lemma_leading_white(s.drop_first());
        assert forall|j: int| 0 <= j < leading_white(s) implies white(s[j]) by {
            if j > 0 {
                assert(white(s.drop_first()[j - 1]));
            }
        }
        if leading_white(s) < s.len() {
            assert(s.drop_first()[leading_white(s) as int - 1] == s[leading_white(s) as int]);
        }
    }
}

pub proof fn lemma_trailing_white(s: Seq<char>)
    ensures
        trailing_white(s) <= s.len(),
        forall|j: int| s.len() - trailing_white(s) <= j < s.len() ==> white(s[j]),
        trailing_white(s) < s.len() ==> !white(s[s.len() - 1 - trailing_white(s)]),
    decreases s.len(),
{
    if s.len() == 0 {
    } else if white(s[s.len() - 1]) {
        lemma_trailing_white(s.drop_last());
        assert forall|j: int| s.len() - trailing_white(s) <= j < s.len() implies white(s[j]) by {
            if j < s.len() - 1 {
                assert(white(s.drop_last()[j]));
            }
        }
        if trailing_white(s) < s.len() {
            assert(s.drop_last()[s.len() - 1 - trailing_white(s)] == s[s.len() - 1 - trailing_white(s)]);
        }
    }
}

/// A scan that saw whitespace at every index below `lo` and a non-whitespace
/// character at `lo` (or the end) has found exactly the leading run.
pub proof fn lemma_leading_white_unique(s: Seq<char>, lo: int)
    requires
        0 <= lo <= s.len(),
        forall|j: int| 0 <= j < lo ==> white(s[j]),
        lo == s.len() || !white(s[lo]),
    ensures
        leading_white(s) == lo,
{
    lemma_leading_white(s);
    if leading_white(s) < lo {
        assert(white(s[leading_white(s) as int]));
    } else if lo < leading_white(s) {
        assert(white(s[lo]));
    }
}

/// The mirror statement for the trailing run: whitespace everywhere at and
/// above `hi`, with a non-whitespace character just below `hi` (or `hi` at
/// the very start), pins the trailing count to `s.len() - hi`.
pub proof fn lemma_trailing_white_unique(s: Seq<char>, hi: int)
    requires
        0 <= hi <= s.len(),
        forall|j: int| hi <= j < s.len() ==> white(s[j]),
        hi == 0 || !white(s[hi - 1]),
    ensures
        trailing_white(s) == s.len() - hi,
    decreases s.len(),
{
    lemma_trailing_white(s);
    if trailing_white(s) < s.len() - hi {
        assert(white(s[s.len() - 1 - trailing_white(s)]));
    } else if s.len() - hi < trailing_white(s) {
        assert(white(s[hi - 1]));
    }
}

/// `s` with surrounding whitespace removed, as `str::trim` would leave it.
pub fn trim(s: &str) -> (r: String)
    ensures
        r@ == trim_spec(s@),
{
    let n = s.unicode_len();
    let mut lo: usize = 0;
    loop
        invariant
            lo <= n,
            n == s@.len(),
            forall|j: int| 0 <= j < lo ==> white(s@[j]),
        ensures
            lo <= n,
            n == s@.len(),
            forall|j: int| 0 <= j < lo ==> white(s@[j]),
            lo == n || !white(s@[lo as int]),
        decreases n - lo,
    {
        if lo == n {
            break ;
        }
        if !is_white(s.get_char(lo)) {
            break ;
        }
        lo = lo + 1;
    }
    if lo == n {
        proof {
            lemma_leading_white_unique(s@, lo as int);
        }
        return String::new();
    }
    let mut hi: usize = n;
    loop
        invariant
            lo < hi <= n || hi == lo,
            lo < n,
            n == s@.len(),
            !white(s@[lo as int]),
            forall|j: int| hi <= j < n ==> white(s@[j]),
        ensures
            lo < hi <= n,
            forall|j: int| hi <= j < n ==> white(s@[j]),
            !white(s@[hi - 1]),
        decreases hi,
    {
        if hi == lo {
            break ;
        }
        if !is_white(s.get_char(hi - 1)) {
            break ;
        }
        hi = hi - 1;
    }
    proof {
        lemma_leading_white_unique(s@, lo as int);
        lemma_trailing_white_unique(s@, hi as int);
    }
    let part = s.substring_char(lo, hi);
    let r = String::from_str(part);
    proof {
        assert(r@ =~= trim_spec(s@));
    }
    r
}

/// The hexadecimal digit for a value below sixteen, in lower case.
pub open spec fn hex_char(n: int) -> char {
    if n == 0 {
        '0'
    } else if n == 1 {
        '1'
    } else if n == 2 {
        '2'
    } else if n == 3 {
        '3'
    } else if n == 4 {
        '4'
    } else if n == 5 {
        '5'
    } else if n == 6 {
        '6'
    } else if n == 7 {
        '7'
    } else if n == 8 {
        '8'
    } else if n == 9 {
        '9'
    } else if n == 10 {
        'a'
    } else if n == 11 {
        'b'
    } else if n == 12 {
        'c'
    } else if n == 13 {
        'd'
    } else if n == 14 {
        'e'
    } else {
        'f'
    }
}

/// How one character appears inside a JSON string: the quote and the
/// backslash are escaped, the named control characters take their short
/// escapes, every other control character takes a `\u00XX` escape, and all
/// remaining characters stand for themselves.
pub open spec fn esc_char(c: char) -> Seq<char> {
    if c == '"' {
        seq!['\\', '"']
    } else if c == '\\' {
        seq!['\\', '\\']
    } else if c == '\u{8}' {
        seq!['\\', 'b']
    } else if c == '\t' {
        seq!['\\', 't']
    } else if c == '\n' {
        seq!['\\', 'n']
    } else if c == '\u{c}' {
        seq!['\\', 'f']
    } else if c == '\r' {
        seq!['\\', 'r']
    } else if (c as u32) < 32 {
        seq!['\\', 'u', '0', '0', hex_char((c as u32) as int / 16), hex_char((c as u32) as int % 16)]
    } else {
        seq![c]
    }
}

/// The body of a JSON string holding the characters of `s`.
pub open spec fn esc_seq(s: Seq<char>) -> Seq<char>
    decreases s.len(),
{
    if s.len() == 0 {
        Seq::empty()
    } else {
        esc_char(s[0]) + esc_seq(s.drop_first())
    }
}

pub proof fn lemma_esc_seq_concat(a: Seq<char>, b: Seq<char>)
    ensures
        esc_seq(a + b) == esc_seq(a) + esc_seq(b),
    decreases a.len(),
{
    if a.len() == 0 {
        assert(a + b =~= b);
        assert(esc_seq(a) + esc_seq(b) =~= esc_seq(b));
    } else {
        assert((a + b).drop_first() =~= a.drop_first() + b);
        lemma_esc_seq_concat(a.drop_first(), b);
        assert(esc_seq(a + b) =~= esc_seq(a) + esc_seq(b));
    }
}

proof fn lemma_esc_seq_step(s: Seq<char>, i: int)
    requires
        0 <= i < s.len(),
    ensures
        esc_seq(s.take(i + 1)) == esc_seq(s.take(i)) + esc_char(s[i]),
{
    assert(s.take(i + 1) =~= s.take(i) + seq![s[i]]);
    lemma_esc_seq_concat(s.take(i), seq![s[i]]);
    assert(seq![s[i]].drop_first() =~= Seq::<char>::empty());
    assert(esc_seq(Seq::<char>::empty()) =~= Seq::<char>::empty());
    assert(esc_seq(seq![s[i]]) =~= esc_char(s[i]) + Seq::<char>::empty());
    assert(esc_char(s[i]) + Seq::<char>::empty() =~= esc_char(s[i]));
}

pub(crate) fn append_hex_digit(out: &mut String, d: u32)
    requires
        d < 16,
    ensures
        final(out)@ == old(out)@ + seq![hex_char(d as int)],
{
    if d == 0 {
        out.append("0");
        proof {
            reveal_strlit("0");
            assert(old(out)@ + "0"@ =~= old(out)@ + seq![hex_char(0)]);
        }
    } else if d == 1 {
        out.append("1");
        proof {
            reveal_strlit("1");
            assert(old(out)@ + "1"@ =~= old(out)@ + seq![hex_char(1)]);
        }
    } else if d == 2 {
        out.append("2");
        proof {
            reveal_strlit("2");
            assert(old(out)@ + "2"@ =~= old(out)@ + seq![hex_char(2)]);
        }
    } else if d == 3 {
        out.append("3");
        proof {
            reveal_strlit("3");
            assert(old(out)@ + "3"@ =~= old(out)@ + seq![hex_char(3)]);
        }
    } else if d == 4 {
        out.append("4");
        proof {
            reveal_strlit("4");
            assert(old(out)@ + "4"@ =~= old(out)@ + seq![hex_char(4)]);
        }
    } else if d == 5 {
        out.append("5");
        proof {
            reveal_strlit("5");
            assert(old(out)@ + "5"@ =~= old(out)@ + seq![hex_char(5)]);
        }
    } else if d == 6 {
        out.append("6");
        proof {
            reveal_strlit("6");
            assert(old(out)@ + "6"@ =~= old(out)@ + seq![hex_char(6)]);
        }
    } else if d == 7 {
        out.append("7");
        proof {
            reveal_strlit("7");
            assert(old(out)@ + "7"@ =~= old(out)@ + seq![hex_char(7)]);
        }
    } else if d == 8 {
        out.append("8");
        proof {
            reveal_strlit("8");
            assert(old(out)@ + "8"@ =~= old(out)@ + seq![hex_char(8)]);
        }
    } else if d == 9 {
        out.append("9");
        proof {
            reveal_strlit("9");
            assert(old(out)@ + "9"@ =~= old(out)@ + seq![hex_char(9)]);
        }
    } else if d == 10 {
        out.append("a");
        proof {
            reveal_strlit("a");
            assert(old(out)@ + "a"@ =~= old(out)@ + seq![hex_char(10)]);
        }
    } else if d == 11 {
        out.append("b");
        proof {
            reveal_strlit("b");
            assert(old(out)@ + "b"@ =~= old(out)@ + seq![hex_char(11)]);
        }
    } else if d == 12 {
        out.append("c");
        proof {
            reveal_strlit("c");
            assert(old(out)@ + "c"@ =~= old(out)@ + seq![hex_char(12)]);
        }
    } else if d == 13 {
        out.append("d");
        proof {
            reveal_strlit("d");
            assert(old(out)@ + "d"@ =~= old(out)@ + seq![hex_char(13)]);
        }
    } else if d == 14 {
        out.append("e");
        proof {
            reveal_strlit("e");
            assert(old(out)@ + "e"@ =~= old(out)@ + seq![hex_char(14)]);
        }
    } else {
        out.append("f");
        proof {
            reveal_strlit("f");
            assert(old(out)@ + "f"@ =~= old(out)@ + seq![hex_char(d as int)]);
        }
    }
}

/// Appends the characters of `s`, escaped for a JSON string body.
pub fn append_escaped(out: &mut String, s: &str)
    ensures
        final(out)@ == old(out)@ + esc_seq(s@),
{
    let n = s.unicode_len();
    let mut i: usize = 0;
    while i < n
        invariant
            i <= n,
            n == s@.len(),
            out@ == old(out)@ + esc_seq(s@.take(i as int)),
        decreases n - i,
    {
        let c = s.get_char(i);
        proof {
            lemma_esc_seq_step(s@, i as int);
        }
        if c == '"' {
            out.append("\\\"");
            proof {
                reveal_strlit("\\\"");
                assert("\\\""@ =~= esc_char(c));
            }
        } else if c == '\\' {
            out.append("\\\\");
            proof {
                reveal_strlit("\\\\");
                assert("\\\\"@ =~= esc_char(c));
            }
        } else if c == '\u{8}' {
            out.append("\\b");
            proof {
                reveal_strlit("\\b");
                assert("\\b"@ =~= esc_char(c));
            }
        } else if c == '\t' {
            out.append("\\t");
            proof {
                reveal_strlit("\\t");
                assert("\\t"@ =~= esc_char(c));
            }
        } else if c == '\n' {
            out.append("\\n");
            proof {
                reveal_strlit("\\n");
                assert("\\n"@ =~= esc_char(c));
            }
        } else if c == '\u{c}' {
            out.append("\\f");
            proof {
                reveal_strlit("\\f");
                assert("\\f"@ =~= esc_char(c));
            }
        } else if c == '\r' {
            out.append("\\r");
            proof {
                reveal_strlit("\\r");
                assert("\\r"@ =~= esc_char(c));
            }
        } else if (c as u32) < 32 {
            out.append("\\u00");
            proof {
                reveal_strlit("\\u00");
            }
            let d: u32 = c as u32;
            append_hex_digit(out, d / 16);
            append_hex_digit(out, d % 16);
            proof {
                assert("\\u00"@ + seq![hex_char(d as int / 16)] + seq![hex_char(d as int % 16)]
                    =~= esc_char(c));
            }
        } else {
            let part = s.substring_char(i, i + 1);
            out.append(part);
            proof {
                assert(part@ =~= seq![s@[i as int]]);
                assert(part@ =~= esc_char(c));
            }
        }
        i = i + 1;
        proof {
            assert(out@ =~= old(out)@ + esc_seq(s@.take(i as int)));
        }
    }
    proof {
        assert(s@.take(n as int) =~= s@);
    }
}

/// No character of an escaped string body is a line break: the escapes keep
/// every message inside the single line that carries it.
pub proof fn lemma_esc_char_clean(c: char)
    ensures
        forall|i: int| 0 <= i < esc_char(c).len() ==> esc_char(c)[i] != '\n',
{
}

pub proof fn lemma_esc_seq_clean(s: Seq<char>)
    ensures
        forall|i: int| 0 <= i < esc_seq(s).len() ==> esc_seq(s)[i] != '\n',
    decreases s.len(),
{
    if s.len() > 0 {
        lemma_esc_char_clean(s[0]);
        lemma_esc_seq_clean(s.drop_first());
        assert forall|i: int| 0 <= i < esc_seq(s).len() implies esc_seq(s)[i] != '\n' by {
            if i < esc_char(s[0]).len() {
                assert(esc_seq(s)[i] == esc_char(s[0])[i]);
            } else {
                assert(esc_seq(s)[i] == esc_seq(s.drop_first())[i - esc_char(s[0]).len()]);
            }
        }
    }
}

} // verus!
