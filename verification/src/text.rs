//! Splitting tab text into lines and whitespace-delimited tokens, and the
//! small string utilities the transposer builds its output with.

use vstd::prelude::*;

verus! {

/// A character that separates tokens within one line of a tab: the Unicode
/// white-space characters.
pub open spec fn is_space(c: char) -> bool {
    c == ' ' || c == '\t' || c == '\n' || c == '\u{000B}' || c == '\u{000C}' || c == '\r'
        || c == '\u{0085}' || c == '\u{00A0}' || c == '\u{1680}' || c == '\u{2000}'
        || c == '\u{2001}' || c == '\u{2002}' || c == '\u{2003}' || c == '\u{2004}'
        || c == '\u{2005}' || c == '\u{2006}' || c == '\u{2007}' || c == '\u{2008}'
        || c == '\u{2009}' || c == '\u{200A}' || c == '\u{2028}' || c == '\u{2029}'
        || c == '\u{202F}' || c == '\u{205F}' || c == '\u{3000}'
}

/// Whether `c` separates tokens within one line of a tab.
pub fn is_space_char(c: char) -> (r: bool)
    ensures
        r == is_space(c),
{
    c == ' ' || c == '\t' || c == '\n' || c == '\u{000B}' || c == '\u{000C}' || c == '\r'
        || c == '\u{0085}' || c == '\u{00A0}' || c == '\u{1680}' || c == '\u{2000}'
        || c == '\u{2001}' || c == '\u{2002}' || c == '\u{2003}' || c == '\u{2004}'
        || c == '\u{2005}' || c == '\u{2006}' || c == '\u{2007}' || c == '\u{2008}'
        || c == '\u{2009}' || c == '\u{200A}' || c == '\u{2028}' || c == '\u{2029}'
        || c == '\u{202F}' || c == '\u{205F}' || c == '\u{3000}'
}

/// Index of the first occurrence of `c` in `s`, or `s.len()` when `s` does
/// not contain `c`.
pub open spec fn find_ch(s: Seq<char>, c: char) -> nat
    decreases s.len(),
{
    if s.len() == 0 {
        0
    } else if s[0] == c {
        0
    } else {
        1 + find_ch(s.drop_first(), c)
    }
}

pub proof fn lemma_find_ch_is(s: Seq<char>, c: char, m: int)
    requires
        0 <= m <= s.len(),
        forall|k: int| 0 <= k < m ==> s[k] != c,
        m < s.len() ==> s[m] == c,
    ensures
        find_ch(s, c) == m,
    decreases s.len(),
{
    if s.len() != 0 && s[0] != c {
        assert(forall|k: int| 0 <= k < m - 1 ==> s.drop_first()[k] == s[k + 1]);
        lemma_find_ch_is(s.drop_first(), c, m - 1);
    }
}

/// The lines of a tab: segments separated by `'\n'`, where a trailing
/// newline closes the last line rather than opening an empty one.
pub open spec fn split_lines_spec(s: Seq<char>) -> Seq<Seq<char>>
    decreases s.len(),
{
    if s.len() == 0 {
        Seq::empty()
    } else {
        let i = find_ch(s, '\n') as int;
        if i < s.len() {
            seq![s.take(i)] + split_lines_spec(s.skip(i + 1))
        } else {
            seq![s]
        }
    }
}

/// Prepending one newline-free line and its terminator to a text prepends
/// exactly one line to the split.
pub proof fn lemma_split_lines_step(a: Seq<char>, b: Seq<char>)
    requires
        !a.contains('\n'),
    ensures
        split_lines_spec(a + seq!['\n'] + b) == seq![a] + split_lines_spec(b),
{
    let s = a + seq!['\n'] + b;
    assert forall|k: int| 0 <= k < a.len() implies s[k] != '\n' by {
        assert(s[k] == a[k]);
    }
    assert(s[a.len() as int] == '\n');
    lemma_find_ch_is(s, '\n', a.len() as int);
    assert(s.take(a.len() as int) =~= a);
    assert(s.skip(a.len() as int + 1) =~= b);
}

/// Index of the first whitespace character in `s`, or `s.len()`.
pub open spec fn first_space(s: Seq<char>) -> nat
    decreases s.len(),
{
    if s.len() == 0 {
        0
    } else if is_space(s[0]) {
        0
    } else {
        1 + first_space(s.drop_first())
    }
}

pub proof fn lemma_first_space_is(s: Seq<char>, m: int)
    requires
        0 <= m <= s.len(),
        forall|k: int| 0 <= k < m ==> !is_space(s[k]),
        m < s.len() ==> is_space(s[m]),
    ensures
        first_space(s) == m,
    decreases s.len(),
{
    if s.len() != 0 && !is_space(s[0]) {
        assert(forall|k: int| 0 <= k < m - 1 ==> s.drop_first()[k] == s[k + 1]);
        lemma_first_space_is(s.drop_first(), m - 1);
    }
}

/// The whitespace-delimited tokens of one line, in order.
pub open spec fn tokens_spec(line: Seq<char>) -> Seq<Seq<char>>
    decreases line.len(),
{
    if line.len() == 0 {
        Seq::empty()
    } else if is_space(line[0]) {
        tokens_spec(line.drop_first())
    } else {
        let k = first_space(line) as int;
        if 0 < k < line.len() {
            seq![line.take(k)] + tokens_spec(line.skip(k))
        } else {
            seq![line]
        }
    }
}

/// The character sequences of a sequence of character vectors.
pub open spec fn lines_view(ls: Seq<Vec<char>>) -> Seq<Seq<char>> {
    ls.map_values(|l: Vec<char>| l@)
}

/// The character sequences of a sequence of strings.
pub open spec fn strs_view(v: Seq<String>) -> Seq<Seq<char>> {
    v.map_values(|s: String| s@)
}

/// The characters of `s`, in order, as a vector.
pub fn chars_of(s: &str) -> (r: Vec<char>)
    ensures
        r@ == s@,
{
    let mut r: Vec<char> = Vec::new();
    for c in it: s.chars()
        invariant
            it.seq() == s@,
            r@ == it.seq().take(it.index() as int),
    {
        r.push(c);
    }
    proof {
        assert(r@ =~= s@);
    }
    r
}

/// Relies on std's `String::push`: appending one character to a string
/// appends exactly that character to its character sequence.
#[verifier::external_body]
fn push_char(s: &mut String, c: char)
    ensures
        final(s)@ == old(s)@ + seq![c],
{
    s.push(c)
}

/// A string holding exactly the characters of `v[lo..hi]`.
pub fn string_of_range(v: &Vec<char>, lo: usize, hi: usize) -> (r: String)
    requires
        lo <= hi <= v.len(),
    ensures
        r@ == v@.subrange(lo as int, hi as int),
{
    let mut r = String::new();
    let mut k: usize = lo;
    while k < hi
        invariant
            lo <= k <= hi <= v.len(),
            r@ == v@.subrange(lo as int, k as int),
        decreases hi - k,
    {
        push_char(&mut r, v[k]);
        proof {
            assert(r@ =~= v@.subrange(lo as int, (k + 1) as int));
        }
        k += 1;
    }
    r
}

/// A copy of `v[lo..hi]`.
pub fn copy_range(v: &Vec<char>, lo: usize, hi: usize) -> (r: Vec<char>)
    requires
        lo <= hi <= v.len(),
    ensures
        r@ == v@.subrange(lo as int, hi as int),
{
    let mut r: Vec<char> = Vec::new();
    let mut k: usize = lo;
    while k < hi
        invariant
            lo <= k <= hi <= v.len(),
            r@ == v@.subrange(lo as int, k as int),
        decreases hi - k,
    {
        r.push(v[k]);
        proof {
            assert(r@ =~= v@.subrange(lo as int, (k + 1) as int));
        }
        k += 1;
    }
    r
}

/// Splits `chars` into its lines, as `split_lines_spec` describes.
pub fn split_lines(chars: &Vec<char>) -> (lines: Vec<Vec<char>>)
    ensures
        lines_view(lines@) == split_lines_spec(chars@),
{
    let mut lines: Vec<Vec<char>> = Vec::new();
    let mut i: usize = 0;
    proof {
        assert(chars@.skip(0) =~= chars@);
        assert(lines_view(lines@) =~= Seq::<Seq<char>>::empty());
        assert(Seq::<Seq<char>>::empty() + split_lines_spec(chars@) =~= split_lines_spec(chars@));
    }
    while i < chars.len()
        invariant
            i <= chars.len(),
            split_lines_spec(chars@) == lines_view(lines@) + split_lines_spec(
                chars@.skip(i as int),
            ),
        decreases chars.len() - i,
    {
        let ghost prev = lines_view(lines@);
        let mut j: usize = i;
        while j < chars.len() && chars[j] != '\n'
            invariant
                i <= j <= chars.len(),
                forall|k: int| i <= k < j ==> chars@[k] != '\n',
            decreases chars.len() - j,
        {
            j += 1;
        }
        let line = copy_range(chars, i, j);
        proof {
            let s = chars@.skip(i as int);
            assert(forall|k: int| 0 <= k < j - i ==> s[k] == chars@[k + i] && s[k] != '\n');
            if j < chars.len() {
                assert(s[j - i] == chars@[j as int]);
            }
            lemma_find_ch_is(s, '\n', j - i);
            if j < chars.len() {
                assert(s.take(j - i) =~= line@);
                assert(s.skip(j - i + 1) =~= chars@.skip(j + 1));
                assert(split_lines_spec(s) == seq![line@] + split_lines_spec(chars@.skip(j + 1)));
            } else {
                assert(s =~= line@);
                assert(split_lines_spec(s) == seq![line@] + split_lines_spec(chars@.skip(j as int)));
                assert(split_lines_spec(chars@.skip(j as int)) =~= Seq::<Seq<char>>::empty());
            }
        }
        lines.push(line);
        let next: usize = if j < chars.len() {
            j + 1
        } else {
            j
        };
        proof {
            assert(lines_view(lines@) =~= prev + seq![line@]);
            assert((prev + seq![line@]) + split_lines_spec(chars@.skip(next as int)) =~= prev + (
            seq![line@] + split_lines_spec(chars@.skip(next as int))));
        }
        i = next;
    }
    proof {
        assert(split_lines_spec(chars@.skip(i as int)) =~= Seq::<Seq<char>>::empty());
        assert(lines_view(lines@) + Seq::<Seq<char>>::empty() =~= lines_view(lines@));
    }
    lines
}

/// Splits one line into its whitespace-delimited tokens, as `tokens_spec`
/// describes.
pub fn split_tokens(line: &Vec<char>) -> (toks: Vec<String>)
    ensures
        strs_view(toks@) == tokens_spec(line@),
{
    let mut toks: Vec<String> = Vec::new();
    let mut i: usize = 0;
    proof {
        assert(line@.skip(0) =~= line@);
        assert(strs_view(toks@) =~= Seq::<Seq<char>>::empty());
        assert(Seq::<Seq<char>>::empty() + tokens_spec(line@) =~= tokens_spec(line@));
    }
    while i < line.len()
        invariant
            i <= line.len(),
            tokens_spec(line@) == strs_view(toks@) + tokens_spec(line@.skip(i as int)),
        decreases line.len() - i,
    {
        if is_space_char(line[i]) {
            proof {
                let s = line@.skip(i as int);
                assert(is_space(s[0]));
                assert(s.drop_first() =~= line@.skip(i as int + 1));
            }
            i += 1;
        } else {
            let ghost prev = strs_view(toks@);
            let mut j: usize = i + 1;
            while j < line.len() && !is_space_char(line[j])
                invariant
                    i < j <= line.len(),
                    forall|k: int| i <= k < j ==> !is_space(line@[k]),
                decreases line.len() - j,
            {
                j += 1;
            }
            let tok = string_of_range(line, i, j);
            proof {
                let s = line@.skip(i as int);
                assert(forall|k: int| 0 <= k < j - i ==> s[k] == line@[k + i] && !is_space(s[k]));
                if j < line.len() {
                    assert(s[j - i] == line@[j as int]);
                }
                lemma_first_space_is(s, j - i);
                if j < line.len() {
                    assert(s.take(j - i) =~= tok@);
                    assert(s.skip(j - i) =~= line@.skip(j as int));
                    assert(tokens_spec(s) == seq![tok@] + tokens_spec(line@.skip(j as int)));
                } else {
                    assert(s =~= tok@);
                    assert(tokens_spec(s) == seq![tok@] + tokens_spec(line@.skip(j as int)));
                    assert(tokens_spec(line@.skip(j as int)) =~= Seq::<Seq<char>>::empty());
                }
            }
            toks.push(tok);
            proof {
                assert(strs_view(toks@) =~= prev + seq![tok@]);
                assert((prev + seq![tok@]) + tokens_spec(line@.skip(j as int)) =~= prev + (
                seq![tok@] + tokens_spec(line@.skip(j as int))));
            }
            i = j;
        }
    }
    proof {
        assert(tokens_spec(line@.skip(i as int)) =~= Seq::<Seq<char>>::empty());
        assert(strs_view(toks@) + Seq::<Seq<char>>::empty() =~= strs_view(toks@));
    }
    toks
}

/// What follows the first part when parts are joined with single spaces.
pub open spec fn join_rest_spec(parts: Seq<Seq<char>>) -> Seq<char>
    decreases parts.len(),
{
    if parts.len() == 0 {
        Seq::empty()
    } else {
        seq![' '] + parts[0] + join_rest_spec(parts.drop_first())
    }
}

/// The parts joined with a single space between neighbours.
pub open spec fn join_spec(parts: Seq<Seq<char>>) -> Seq<char> {
    if parts.len() == 0 {
        Seq::empty()
    } else {
        parts[0] + join_rest_spec(parts.drop_first())
    }
}

/// Joins strings with a single space between neighbours.
pub fn join_with_spaces(parts: &Vec<String>) -> (r: String)
    ensures
        r@ == join_spec(strs_view(parts@)),
{
    let ghost pv = strs_view(parts@);
    if parts.len() == 0 {
        return String::new();
    }
    let mut r = parts[0].clone();
    let mut k: usize = 1;
    proof {
        assert(pv.drop_first() =~= pv.skip(1));
    }
    while k < parts.len()
        invariant
            1 <= k <= parts.len(),
            pv == strs_view(parts@),
            pv.len() == parts.len(),
            join_spec(pv) == r@ + join_rest_spec(pv.skip(k as int)),
        decreases parts.len() - k,
    {
        let ghost r0 = r@;
        let ghost rest = pv.skip(k as int);
        proof {
            assert(rest[0] == pv[k as int]);
            assert(rest.drop_first() =~= pv.skip(k as int + 1));
        }
        r.append(" ");
        r.append(parts[k].as_str());
        proof {
            reveal_strlit(" ");
            assert(" "@ =~= seq![' ']);
            assert(r@ =~= r0 + (seq![' '] + pv[k as int]));
            assert(join_rest_spec(rest) == seq![' '] + pv[k as int] + join_rest_spec(
                rest.drop_first(),
            ));
            assert(r0 + (seq![' '] + pv[k as int] + join_rest_spec(rest.drop_first())) =~= (r0 + (
            seq![' '] + pv[k as int])) + join_rest_spec(rest.drop_first()));
        }
        k += 1;
    }
    proof {
        assert(join_rest_spec(pv.skip(k as int)) =~= Seq::<char>::empty());
        assert(r@ + Seq::<char>::empty() =~= r@);
    }
    r
}

/// Whether `s` contains the character `c`.
pub fn contains_char(s: &String, c: char) -> (r: bool)
    ensures
        r == s@.contains(c),
{
    let v = chars_of(s.as_str());
    let mut k: usize = 0;
    while k < v.len()
        invariant
            k <= v.len(),
            v@ == s@,
            forall|j: int| 0 <= j < k ==> s@[j] != c,
        decreases v.len() - k,
    {
        if v[k] == c {
            return true;
        }
        k += 1;
    }
    false
}

} // verus!
