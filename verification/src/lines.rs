//! A sequence model of line-oriented text, with verified example filters.
//!
//! A text is split into lines at `'\n'` characters; a line terminated by
//! `"\r\n"` loses its carriage return, and a final line terminator is
//! optional, so a text that ends in `'\n'` has the same lines as one that
//! does not.  This matches how the standard library's `str::lines` splits.

use vstd::prelude::*;

verus! {

use vstd::string::StringExecFns;

/// Index of the first `'\n'` in `s`, or `s.len()` when there is none.
pub open spec fn first_nl(s: Seq<char>) -> nat
    decreases s.len(),
{
    if s.len() == 0 {
        0
    } else if s[0] == '\n' {
        0
    } else {
        1 + first_nl(s.drop_first())
    }
}

/// `first_nl` is a position in `s`, no `'\n'` stands before it, and it
/// holds `'\n'` when it is a proper position.
pub proof fn lemma_first_nl(s: Seq<char>)
    ensures
        first_nl(s) <= s.len(),
        forall|i: int| 0 <= i < first_nl(s) ==> s[i] != '\n',
        first_nl(s) < s.len() ==> s[first_nl(s) as int] == '\n',
    decreases s.len(),
{
    if s.len() > 0 && s[0] != '\n' {
        lemma_first_nl(s.drop_first());
        assert forall|i: int| 0 <= i < first_nl(s) implies s[i] != '\n' by {
            if i > 0 {
                assert(s.drop_first()[i - 1] != '\n');
            }
        }
    }
}

/// Removes a single trailing carriage return, if present.
pub open spec fn chomp_cr(l: Seq<char>) -> Seq<char> {
    if l.len() > 0 && l[l.len() - 1] == '\r' {
        l.drop_last()
    } else {
        l
    }
}

/// The lines of a text: segments between `'\n'` characters, each
/// `'\n'`-terminated segment stripped of one trailing `'\r'`, with no empty
/// line produced by a final terminator.
pub open spec fn spec_lines(s: Seq<char>) -> Seq<Seq<char>>
    decreases s.len(),
{
    if s.len() == 0 {
        Seq::empty()
    } else if first_nl(s) >= s.len() {
        seq![s]
    } else {
        seq![chomp_cr(s.take(first_nl(s) as int))] + spec_lines(s.skip(first_nl(s) + 1 as int))
    }
}

/// A text with no `'\n'` is a single line.
pub proof fn lemma_lines_single(b: Seq<char>)
    requires
        b.len() > 0,
        forall|i: int| 0 <= i < b.len() ==> b[i] != '\n',
    ensures
        spec_lines(b) == seq![b],
{
    lemma_first_nl(b);
}

proof fn lemma_first_nl_concat(b: Seq<char>, rest: Seq<char>)
    requires
        forall|i: int| 0 <= i < b.len() ==> b[i] != '\n',
    ensures
        first_nl(b + seq!['\n'] + rest) == b.len(),
    decreases b.len(),
{
    let s = b + seq!['\n'] + rest;
    if b.len() == 0 {
        assert(s[0] == '\n');
    } else {
        assert(s[0] == b[0]);
        assert(s.drop_first() =~= b.drop_first() + seq!['\n'] + rest);
        lemma_first_nl_concat(b.drop_first(), rest);
    }
}

/// Splitting off the first `'\n'`-terminated segment of a text.
pub proof fn lemma_lines_step(b: Seq<char>, rest: Seq<char>)
    requires
        forall|i: int| 0 <= i < b.len() ==> b[i] != '\n',
    ensures
        spec_lines(b + seq!['\n'] + rest) == seq![chomp_cr(b)] + spec_lines(rest),
{
    let s = b + seq!['\n'] + rest;
    lemma_first_nl_concat(b, rest);
    assert(s.len() > 0);
    assert(first_nl(s) < s.len());
    assert(s.take(first_nl(s) as int) =~= b);
    assert(s.skip(first_nl(s) + 1 as int) =~= rest);
}

/// The views of a sequence of strings.
pub open spec fn str_views(v: Seq<String>) -> Seq<Seq<char>> {
    v.map_values(|t: String| t@)
}

/// Splits a text into its lines.
pub fn split_lines(s: &str) -> (r: Vec<String>)
    ensures
        str_views(r@) == spec_lines(s@),
{
    let cs = crate::text::chars_of(s);
    let mut out: Vec<String> = Vec::new();
    let mut buf: Vec<char> = Vec::new();
    let mut i: usize = 0;
    proof {
        assert(buf@ + cs@.skip(0) =~= s@);
        assert(str_views(out@) + spec_lines(s@) =~= spec_lines(s@));
    }
    while i < cs.len()
        invariant
            cs@ == s@,
            i <= cs@.len(),
            forall|k: int| 0 <= k < buf@.len() ==> buf@[k] != '\n',
            spec_lines(s@) == str_views(out@) + spec_lines(buf@ + cs@.skip(i as int)),
        decreases cs@.len() - i,
    {
        let c = cs[i];
        let ghost out0 = out@;
        if c == '\n' {
            let ghost b0 = buf@;
            if buf.len() > 0 && buf[buf.len() - 1] == '\r' {
                buf.pop();
            }
            assert(buf@ == chomp_cr(b0));
            let line = crate::text::string_of(&buf);
            out.push(line);
            buf.clear();
            proof {
                let rest = cs@.skip(i + 1);
                assert(b0 + cs@.skip(i as int) =~= b0 + seq!['\n'] + rest);
                lemma_lines_step(b0, rest);
                assert(str_views(out@) =~= str_views(out0) + seq![chomp_cr(b0)]);
                assert(str_views(out0) + (seq![chomp_cr(b0)] + spec_lines(rest)) =~= (str_views(
                    out0,
                ) + seq![chomp_cr(b0)]) + spec_lines(rest));
                assert(buf@ + rest =~= rest);
            }
        } else {
            proof {
                let b0 = buf@;
                assert(b0.push(c) + cs@.skip(i + 1) =~= b0 + cs@.skip(i as int));
            }
            buf.push(c);
        }
        i = i + 1;
    }
    proof {
        assert(buf@ + cs@.skip(i as int) =~= buf@);
    }
    if buf.len() > 0 {
        let ghost out0 = out@;
        let line = crate::text::string_of(&buf);
        out.push(line);
        proof {
            lemma_lines_single(buf@);
            assert(str_views(out@) =~= str_views(out0) + seq![buf@]);
        }
    }
    out
}

/// The number of lines in a text.
pub fn line_count(s: &str) -> (r: usize)
    ensures
        r == spec_lines(s@).len(),
{
    let ls = split_lines(s);
    ls.len()
}

/// Joins a sequence of lines with `'\n'` separators, adding no final
/// terminator.
pub open spec fn join_lines(ls: Seq<Seq<char>>) -> Seq<char>
    decreases ls.len(),
{
    if ls.len() == 0 {
        Seq::empty()
    } else if ls.len() == 1 {
        ls[0]
    } else {
        ls[0] + seq!['\n'] + join_lines(ls.drop_first())
    }
}

/// Appending one more line extends the joined text by a separator and that
/// line.
pub proof fn lemma_join_snoc(ls: Seq<Seq<char>>, x: Seq<char>)
    requires
        ls.len() > 0,
    ensures
        join_lines(ls.push(x)) == join_lines(ls) + seq!['\n'] + x,
    decreases ls.len(),
{
    if ls.len() == 1 {
        assert(ls.push(x).drop_first() =~= seq![x]);
        assert(join_lines(seq![x]) == x);
        assert(ls.push(x)[0] == ls[0]);
        assert(join_lines(ls.push(x)) == ls.push(x)[0] + seq!['\n'] + join_lines(
            ls.push(x).drop_first(),
        ));
        assert(join_lines(ls.push(x)) == ls[0] + seq!['\n'] + x);
    } else {
        assert(ls.push(x).drop_first() =~= ls.drop_first().push(x));
        lemma_join_snoc(ls.drop_first(), x);
        assert(ls[0] + seq!['\n'] + (join_lines(ls.drop_first()) + seq!['\n'] + x) =~= (ls[0]
            + seq!['\n'] + join_lines(ls.drop_first())) + seq!['\n'] + x);
    }
}

/// The decimal digit character for a value below ten.
pub open spec fn digit_char(d: nat) -> char {
    ((d + 48) as u8) as char
}

/// The decimal numeral of `n`, most significant digit first, with no sign
/// and no leading zero (a single `'0'` for zero).
pub open spec fn dec_digits(n: nat) -> Seq<char>
    decreases n,
{
    if n < 10 {
        seq![digit_char(n)]
    } else {
        dec_digits(n / 10) + seq![digit_char(n % 10)]
    }
}

/// The decimal numeral of `n` as a string.
pub fn usize_to_decimal(n: usize) -> (r: String)
    ensures
        r@ == dec_digits(n as nat),
{
    let mut digits: Vec<char> = Vec::new();
    let mut m: usize = n;
    proof {
        assert(dec_digits(n as nat) =~= dec_digits(n as nat) + digits@.reverse());
    }
    while m >= 10
        invariant
            dec_digits(n as nat) == dec_digits(m as nat) + digits@.reverse(),
        decreases m,
    {
        let ghost d0 = digits@;
        let d: u8 = (m % 10) as u8 + 48;
        digits.push(d as char);
        proof {
            assert(d as char == digit_char((m % 10) as nat));
            assert(d0.push(d as char).reverse() =~= seq![d as char] + d0.reverse());
            assert(dec_digits((m / 10) as nat) + (seq![digit_char((m % 10) as nat)]
                + d0.reverse()) =~= (dec_digits((m / 10) as nat) + seq![digit_char(
                (m % 10) as nat,
            )]) + d0.reverse());
        }
        m = m / 10;
    }
    let ghost d0 = digits@;
    let d: u8 = m as u8 + 48;
    digits.push(d as char);
    proof {
        assert(d as char == digit_char(m as nat));
        assert(d0.push(d as char).reverse() =~= seq![d as char] + d0.reverse());
        assert(dec_digits(n as nat) =~= digits@.reverse());
    }
    let mut r = String::new();
    let mut j: usize = digits.len();
    while j > 0
        invariant
            j <= digits@.len(),
            r@ == digits@.reverse().take(digits@.len() - j),
        decreases j,
    {
        j = j - 1;
        crate::text::push_char(&mut r, digits[j]);
        proof {
            assert(r@ =~= digits@.reverse().take(digits@.len() - j));
        }
    }
    proof {
        assert(r@ =~= digits@.reverse());
    }
    r
}

/// The "count lines" filter: replaces the text with the decimal count of its
/// lines, followed by a newline.
pub fn count_lines(s: String) -> (r: String)
    ensures
        r@ == dec_digits(spec_lines(s@).len()).push('\n'),
{
    let n: usize = line_count(s.as_str());
    let mut r = usize_to_decimal(n);
    crate::text::push_char(&mut r, '\n');
    r
}

/// The characters of `v` in reverse order, as a string.
fn reversed_string(v: &Vec<char>) -> (r: String)
    ensures
        r@ == v@.reverse(),
{
    let mut r = String::new();
    let mut j: usize = v.len();
    while j > 0
        invariant
            j <= v@.len(),
            r@ == v@.reverse().take(v@.len() - j),
        decreases j,
    {
        j = j - 1;
        crate::text::push_char(&mut r, v[j]);
        proof {
            assert(r@ =~= v@.reverse().take(v@.len() - j));
        }
    }
    proof {
        assert(r@ =~= v@.reverse());
    }
    r
}

/// The "reverse each line" filter: reverses the character order within each
/// line, keeps the line order, and rejoins with `'\n'` separators.
pub fn rev_lines(s: String) -> (r: String)
    ensures
        r@ == join_lines(spec_lines(s@).map_values(|l: Seq<char>| l.reverse())),
{
    let ghost revd = spec_lines(s@).map_values(|l: Seq<char>| l.reverse());
    let ls = split_lines(s.as_str());
    let mut r = String::new();
    let mut i: usize = 0;
    while i < ls.len()
        invariant
            str_views(ls@) == spec_lines(s@),
            revd == spec_lines(s@).map_values(|l: Seq<char>| l.reverse()),
            i <= ls@.len(),
            r@ == join_lines(revd.take(i as int)),
        decreases ls@.len() - i,
    {
        if i > 0 {
            crate::text::push_char(&mut r, '\n');
        }
        let cs = crate::text::chars_of(ls[i].as_str());
        let rl = reversed_string(&cs);
        r.append(rl.as_str());
        proof {
            assert(rl@ == revd[i as int]);
            assert(revd.take(i + 1) =~= revd.take(i as int).push(revd[i as int]));
            if i > 0 {
                lemma_join_snoc(revd.take(i as int), revd[i as int]);
            }
        }
        i = i + 1;
    }
    proof {
        assert(revd.take(i as int) =~= revd);
    }
    r
}

} // verus!
