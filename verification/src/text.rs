//! Text primitives on `char` sequences with their specifications.

use vstd::prelude::*;
use vstd::utf8::{decode_utf8, valid_utf8};

verus! {

broadcast use vstd::string::group_string_axioms;

/// The Unicode `White_Space` property, as `char::is_whitespace`, `str::trim`
/// and `str::split_whitespace` use it.
pub open spec fn is_white_space(c: char) -> bool {
    let u = c as u32;
    ||| 0x9 <= u <= 0xD
    ||| u == 0x20
    ||| u == 0x85
    ||| u == 0xA0
    ||| u == 0x1680
    ||| 0x2000 <= u <= 0x200A
    ||| u == 0x2028
    ||| u == 0x2029
    ||| u == 0x202F
    ||| u == 0x205F
    ||| u == 0x3000
}

/// Whether `c` is Unicode white space.
pub fn is_whitespace(c: char) -> (b: bool)
    ensures
        b == is_white_space(c),
{
    let u = c as u32;
    (0x9 <= u && u <= 0xD) || u == 0x20 || u == 0x85 || u == 0xA0 || u == 0x1680 || (0x2000 <= u
        && u <= 0x200A) || u == 0x2028 || u == 0x2029 || u == 0x202F || u == 0x205F || u == 0x3000
}

/// The characters of `s`, in order.
pub fn chars_of(s: &str) -> (v: Vec<char>)
    ensures
        v@ == s@,
{
    let mut v: Vec<char> = Vec::new();
    for c in it: s.chars()
        invariant
            v@ == it.seq().take(it.index()),
    {
        v.push(c);
    }
    v
}

/// `String::push`: appends one character.
#[verifier::external_body]
pub(crate) fn push_char(s: &mut String, c: char)
    ensures
        final(s)@ == old(s)@.push(c),
{
    s.push(c)
}

/// `String::pop`: removes and returns the last character, or `None` when the
/// string is empty (which it then leaves unchanged).
#[verifier::external_body]
pub(crate) fn pop_char(s: &mut String) -> (r: Option<char>)
    ensures
        old(s)@.len() == 0 ==> r is None && final(s)@ == old(s)@,
        old(s)@.len() > 0 ==> r == Some(old(s)@.last()) && final(s)@ == old(s)@.drop_last(),
{
    s.pop()
}

/// The string made of the characters of `v`.
pub fn string_from_chars(v: &[char]) -> (s: String)
    ensures
        s@ == v@,
{
    let mut s = String::new();
    let mut i: usize = 0;
    while i < v.len()
        invariant
            i <= v@.len(),
            s@ == v@.take(i as int),
        decreases v.len() - i,
    {
        push_char(&mut s, v[i]);
        assert(v@.take(i + 1) =~= v@.take(i as int).push(v@[i as int]));
        i = i + 1;
    }
    assert(v@.take(v@.len() as int) =~= v@);
    s
}

/// The string made of the characters `v[from..to]`.
pub fn string_from_range(v: &[char], from: usize, to: usize) -> (s: String)
    requires
        from <= to <= v@.len(),
    ensures
        s@ == v@.subrange(from as int, to as int),
{
    let mut s = String::new();
    let mut i: usize = from;
    while i < to
        invariant
            from <= i <= to <= v@.len(),
            s@ == v@.subrange(from as int, i as int),
        decreases to - i,
    {
        push_char(&mut s, v[i]);
        assert(v@.subrange(from as int, i + 1) =~= v@.subrange(from as int, i as int).push(
            v@[i as int],
        ));
        i = i + 1;
    }
    s
}

/// What `String::from_utf8_lossy` makes of `bytes`: the UTF-8 decoding, with
/// each maximal invalid sequence replaced by U+FFFD.
pub uninterp spec fn utf8_lossy(bytes: Seq<u8>) -> Seq<char>;

/// `String::from_utf8_lossy`. Its result is named `utf8_lossy`; on valid
/// UTF-8 it is the plain decoding of the bytes, as the documentation says.
#[verifier::external_body]
pub(crate) fn decode_lossy(bytes: &[u8]) -> (s: String)
    ensures
        s@ == utf8_lossy(bytes@),
        valid_utf8(bytes@) ==> s@ == decode_utf8(bytes@),
{
    String::from_utf8_lossy(bytes).into_owned()
}

/// `s` without its leading white space.
pub open spec fn trim_start(s: Seq<char>) -> Seq<char>
    decreases s.len(),
{
    if s.len() > 0 && is_white_space(s[0]) {
        trim_start(s.drop_first())
    } else {
        s
    }
}

/// `s` without its trailing white space.
pub open spec fn trim_end(s: Seq<char>) -> Seq<char>
    decreases s.len(),
{
    if s.len() > 0 && is_white_space(s.last()) {
        trim_end(s.drop_last())
    } else {
        s
    }
}

/// `s` without leading and trailing white space, as `str::trim` gives it.
pub open spec fn trimmed(s: Seq<char>) -> Seq<char> {
    trim_end(trim_start(s))
}

/// `str::trim`: the string without leading and trailing white space.
pub fn trim(s: &str) -> (r: String)
    ensures
        r@ == trimmed(s@),
{
    let v = chars_of(s);
    let n = v.len();
    let mut i: usize = 0;
    assert(v@.skip(0) =~= v@);
    while i < n && is_whitespace(v[i])
        invariant
            n == v@.len(),
            i <= n,
            trim_start(v@) == trim_start(v@.skip(i as int)),
        decreases n - i,
    {
        assert(v@.skip(i as int).drop_first() =~= v@.skip(i + 1));
        i = i + 1;
    }
    assert(trim_start(v@) == v@.subrange(i as int, n as int)) by {
        assert(v@.skip(i as int) =~= v@.subrange(i as int, n as int));
    }
    let mut j: usize = n;
    while j > i && is_whitespace(v[j - 1])
        invariant
            n == v@.len(),
            i <= j <= n,
            trim_end(v@.subrange(i as int, n as int)) == trim_end(v@.subrange(i as int, j as int)),
        decreases j - i,
    {
        assert(v@.subrange(i as int, j as int).drop_last() =~= v@.subrange(i as int, j - 1));
        j = j - 1;
    }
    string_from_range(&v, i, j)
}

/// Whether a line holds only white space.
pub open spec fn is_blank(l: Seq<char>) -> bool {
    forall|i: int| 0 <= i < l.len() ==> is_white_space(#[trigger] l[i])
}

proof fn lemma_trim_start_blank(l: Seq<char>)
    ensures
        trim_start(l).len() == 0 <==> is_blank(l),
        trim_start(l).len() > 0 ==> !is_white_space(trim_start(l)[0]),
    decreases l.len(),
{
    if l.len() > 0 && is_white_space(l[0]) {
        lemma_trim_start_blank(l.drop_first());
        if is_blank(l.drop_first()) {
            assert forall|i: int| 0 <= i < l.len() implies is_white_space(#[trigger] l[i]) by {
                if i > 0 {
                    assert(l[i] == l.drop_first()[i - 1]);
                }
            }
        }
        if is_blank(l) {
            assert forall|i: int| 0 <= i < l.drop_first().len() implies is_white_space(
                #[trigger] l.drop_first()[i],
            ) by {
                assert(l.drop_first()[i] == l[i + 1]);
            }
        }
    } else if l.len() > 0 {
        assert(!is_blank(l)) by {
            assert(!is_white_space(l[0]));
        }
    }
}

proof fn lemma_trim_end_empty(l: Seq<char>)
    requires
        l.len() > 0 ==> !is_white_space(l[0]),
    ensures
        trim_end(l).len() == 0 <==> l.len() == 0,
    decreases l.len(),
{
    if l.len() > 0 && is_white_space(l.last()) {
        if l.len() > 1 {
            assert(l.drop_last()[0] == l[0]);
        }
        lemma_trim_end_empty(l.drop_last());
    }
}

/// A line trims to nothing exactly when it is blank.
pub proof fn lemma_trimmed_empty_iff_blank(l: Seq<char>)
    ensures
        trimmed(l).len() == 0 <==> is_blank(l),
{
    lemma_trim_start_blank(l);
    lemma_trim_end_empty(trim_start(l));
}

/// The number of leading characters of `s` that are not white space.
pub open spec fn word_len(s: Seq<char>) -> nat
    decreases s.len(),
{
    if s.len() == 0 || is_white_space(s[0]) {
        0
    } else {
        1 + word_len(s.drop_first())
    }
}

/// A word is no longer than the text it starts.
pub proof fn lemma_word_len_bound(s: Seq<char>)
    ensures
        word_len(s) <= s.len(),
    decreases s.len(),
{
    if s.len() > 0 && !is_white_space(s[0]) {
        lemma_word_len_bound(s.drop_first());
    }
}

/// The maximal runs of non-white-space characters of `s`, in order, as
/// `str::split_whitespace` yields them.
pub open spec fn words(s: Seq<char>) -> Seq<Seq<char>>
    decreases s.len(),
{
    if s.len() == 0 {
        seq![]
    } else if is_white_space(s[0]) {
        words(s.drop_first())
    } else {
        proof {
            lemma_word_len_bound(s);
        }
        seq![s.take(word_len(s) as int)] + words(s.skip(word_len(s) as int))
    }
}

/// Every word is non-empty and holds no white space.
pub proof fn lemma_words_nonempty(s: Seq<char>)
    ensures
        forall|i: int| 0 <= i < words(s).len() ==> #[trigger] words(s)[i].len() > 0,
        forall|i: int, k: int|
            0 <= i < words(s).len() && 0 <= k < words(s)[i].len() ==> !is_white_space(
                #[trigger] words(s)[i][k],
            ),
    decreases s.len(),
{
    if s.len() == 0 {
        assert(words(s).len() == 0);
    } else if is_white_space(s[0]) {
        lemma_words_nonempty(s.drop_first());
        assert(words(s) == words(s.drop_first()));
    } else {
        lemma_word_len_bound(s);
        let k = word_len(s) as int;
        lemma_words_nonempty(s.skip(k));
        lemma_word_prefix(s);
        assert(words(s) == seq![s.take(k)] + words(s.skip(k)));
        assert(words(s)[0] == s.take(k));
        assert forall|i: int| 0 <= i < words(s).len() implies #[trigger] words(s)[i].len() > 0 by {
            if i > 0 {
                assert(words(s)[i] == words(s.skip(k))[i - 1]);
                assert(words(s.skip(k))[i - 1].len() > 0);
            }
        }
        assert forall|i: int, j: int|
            0 <= i < words(s).len() && 0 <= j < words(s)[i].len() implies !is_white_space(
                #[trigger] words(s)[i][j],
            ) by {
            if i > 0 {
                assert(words(s)[i] == words(s.skip(k))[i - 1]);
                assert(!is_white_space(words(s.skip(k))[i - 1][j]));
            } else {
                assert(words(s)[0] == s.take(k));
                assert(s.take(k)[j] == s[j]);
            }
        }
    }
}

proof fn lemma_word_prefix(s: Seq<char>)
    requires
        s.len() > 0,
        !is_white_space(s[0]),
    ensures
        word_len(s) > 0,
        forall|k: int| 0 <= k < word_len(s) ==> !is_white_space(#[trigger] s[k]),
    decreases s.len(),
{
    let t = s.drop_first();
    lemma_word_len_bound(s);
    lemma_word_len_bound(t);
    if t.len() > 0 && !is_white_space(t[0]) {
        lemma_word_prefix(t);
    }
    assert forall|k: int| 0 <= k < word_len(s) implies !is_white_space(#[trigger] s[k]) by {
        if k > 0 {
            assert(s[k] == t[k - 1]);
        }
    }
}

proof fn lemma_word_len_exact(s: Seq<char>, m: int)
    requires
        0 <= m <= s.len(),
        forall|k: int| 0 <= k < m ==> !is_white_space(#[trigger] s[k]),
        m == s.len() || is_white_space(s[m]),
    ensures
        word_len(s) == m,
    decreases m,
{
    if m > 0 {
        lemma_word_len_exact(s.drop_first(), m - 1);
    }
}

/// The views of a vector of strings.
pub open spec fn views(v: Seq<String>) -> Seq<Seq<char>> {
    v.map_values(|w: String| w@)
}

/// `str::split_whitespace`, collected: the words of `s`.
pub fn split_whitespace(s: &str) -> (r: Vec<String>)
    ensures
        views(r@) == words(s@),
{
    let v = chars_of(s);
    let n = v.len();
    let mut r: Vec<String> = Vec::new();
    let mut i: usize = 0;
    assert(v@.skip(0) =~= v@);
    assert(views(r@) + words(v@) =~= words(v@));
    while i < n
        invariant
            n == v@.len(),
            i <= n,
            words(v@) == views(r@) + words(v@.skip(i as int)),
        decreases n - i,
    {
        let ghost rest = v@.skip(i as int);
        if is_whitespace(v[i]) {
            assert(rest.drop_first() =~= v@.skip(i + 1));
            i = i + 1;
        } else {
            let mut j: usize = i;
            while j < n && !is_whitespace(v[j])
                invariant
                    n == v@.len(),
                    i <= j <= n,
                    forall|k: int| i <= k < j ==> !is_white_space(#[trigger] v@[k]),
                decreases n - j,
            {
                j = j + 1;
            }
            let w = string_from_range(&v, i, j);
            proof {
                lemma_word_len_exact(rest, (j - i) as int);
                assert(rest.take((j - i) as int) =~= v@.subrange(i as int, j as int));
                assert(rest.skip((j - i) as int) =~= v@.skip(j as int));
            }
            let ghost before = views(r@);
            r.push(w);
            assert(views(r@) =~= before.push(w@));
            assert(words(v@) =~= views(r@) + words(v@.skip(j as int)));
            i = j;
        }
    }
    assert(v@.skip(n as int) =~= Seq::<char>::empty());
    assert(views(r@) + Seq::<Seq<char>>::empty() =~= views(r@));
    r
}

/// The number of leading characters of `s` before its first line feed.
pub open spec fn line_len(s: Seq<char>) -> nat
    decreases s.len(),
{
    if s.len() == 0 || s[0] == '\n' {
        0
    } else {
        1 + line_len(s.drop_first())
    }
}

proof fn lemma_line_len_exact(s: Seq<char>, m: int)
    requires
        0 <= m <= s.len(),
        forall|k: int| 0 <= k < m ==> #[trigger] s[k] != '\n',
        m == s.len() || s[m] == '\n',
    ensures
        line_len(s) == m,
    decreases m,
{
    if m > 0 {
        lemma_line_len_exact(s.drop_first(), m - 1);
    }
}

/// A line ended by a line feed loses a carriage return just before it.
pub open spec fn strip_cr(l: Seq<char>) -> Seq<char> {
    if l.len() > 0 && l.last() == '\r' {
        l.drop_last()
    } else {
        l
    }
}

/// The lines of `s`, as `str::lines` yields them: split at `\n` or `\r\n`,
/// with no empty line after a final line ending.
pub open spec fn lines_of(s: Seq<char>) -> Seq<Seq<char>>
    decreases s.len(),
{
    if s.len() == 0 {
        seq![]
    } else if line_len(s) >= s.len() {
        seq![s]
    } else {
        seq![strip_cr(s.take(line_len(s) as int))] + lines_of(s.skip(line_len(s) as int + 1))
    }
}

/// `str::lines`, collected.
pub fn lines(s: &str) -> (r: Vec<String>)
    ensures
        views(r@) == lines_of(s@),
{
    let v = chars_of(s);
    let n = v.len();
    let mut r: Vec<String> = Vec::new();
    let mut i: usize = 0;
    assert(v@.skip(0) =~= v@);
    assert(views(r@) + lines_of(v@) =~= lines_of(v@));
    while i < n
        invariant
            n == v@.len(),
            i <= n,
            lines_of(v@) == views(r@) + lines_of(v@.skip(i as int)),
        decreases n - i,
    {
        let ghost rest = v@.skip(i as int);
        let mut j: usize = i;
        while j < n && v[j] != '\n'
            invariant
                n == v@.len(),
                i <= j <= n,
                forall|k: int| i <= k < j ==> #[trigger] v@[k] != '\n',
            decreases n - j,
        {
            j = j + 1;
        }
        proof {
            lemma_line_len_exact(rest, (j - i) as int);
        }
        let ghost before = views(r@);
        if j == n {
            let w = string_from_range(&v, i, n);
            assert(rest =~= v@.subrange(i as int, n as int));
            r.push(w);
            assert(views(r@) =~= before.push(w@));
            assert(v@.skip(n as int) =~= Seq::<char>::empty());
            assert(lines_of(v@) =~= views(r@) + lines_of(v@.skip(n as int)));
            i = n;
        } else {
            let end: usize = if j > i && v[j - 1] == '\r' {
                j - 1
            } else {
                j
            };
            let w = string_from_range(&v, i, end);
            assert(rest.take((j - i) as int) =~= v@.subrange(i as int, j as int));
            assert(strip_cr(v@.subrange(i as int, j as int)) =~= v@.subrange(i as int, end as int));
            assert(rest.skip((j - i) + 1) =~= v@.skip(j + 1));
            r.push(w);
            assert(views(r@) =~= before.push(w@));
            assert(lines_of(v@) =~= views(r@) + lines_of(v@.skip(j + 1)));
            i = j + 1;
        }
    }
    assert(v@.skip(n as int) =~= Seq::<char>::empty());
    assert(views(r@) + Seq::<Seq<char>>::empty() =~= views(r@));
    r
}

/// The character of the decimal digit `d`.
pub open spec fn digit_char(d: nat) -> char {
    (d + 48) as char
}

/// The decimal representation of `n`, without leading zeros.
pub open spec fn decimal(n: nat) -> Seq<char>
    decreases n,
{
    if n < 10 {
        seq![digit_char(n)]
    } else {
        decimal(n / 10).push(digit_char(n % 10))
    }
}

fn digit(d: u64) -> (c: char)
    requires
        d < 10,
    ensures
        c == digit_char(d as nat),
{
    if d == 0 {
        '0'
    } else if d == 1 {
        '1'
    } else if d == 2 {
        '2'
    } else if d == 3 {
        '3'
    } else if d == 4 {
        '4'
    } else if d == 5 {
        '5'
    } else if d == 6 {
        '6'
    } else if d == 7 {
        '7'
    } else if d == 8 {
        '8'
    } else {
        '9'
    }
}

/// Appends the decimal representation of `n` to `s`.
pub fn push_decimal(s: &mut String, n: u64)
    ensures
        final(s)@ == old(s)@ + decimal(n as nat),
    decreases n,
{
    if n >= 10 {
        push_decimal(s, n / 10);
    }
    let c = digit(n % 10);
    push_char(s, c);
}

} // verus!
