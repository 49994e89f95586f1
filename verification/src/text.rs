//! Small operations on strings that the rest of the library is built from.

use vstd::prelude::*;
use vstd::string::StrSliceExecFns;
use vstd::string::StringExecFns;
use vstd::utf8::encode_utf8;

verus! {

/// `str::starts_with` with a string pattern: whether `prefix` is a prefix of
/// `s`. Both are valid UTF-8, so a prefix in bytes is a prefix in characters.
#[verifier::external_body]
pub(crate) fn starts_with(s: &str, prefix: &str) -> (b: bool)
    ensures
        b == prefix@.is_prefix_of(s@),
{
    s.starts_with(prefix)
}

/// `str::ends_with` with a string pattern: whether `suffix` is a suffix of
/// `s`. Both are valid UTF-8, so a suffix in bytes is a suffix in characters.
#[verifier::external_body]
pub(crate) fn ends_with(s: &str, suffix: &str) -> (b: bool)
    ensures
        b == suffix@.is_suffix_of(s@),
{
    s.ends_with(suffix)
}

/// Whether the two slices hold the same characters.
pub(crate) fn str_eq(a: &str, b: &str) -> (same: bool)
    ensures
        same == (a@ == b@),
{
    String::from_str(a) == String::from_str(b)
}

/// Where the final path segment of `s` begins: just behind its last `/`, or
/// at 0 when it has none.
pub open spec fn final_segment_start(s: Seq<char>) -> int
    decreases s.len(),
{
    if s.len() == 0 {
        0
    } else if s.last() == '/' {
        s.len() as int
    } else {
        final_segment_start(s.drop_last())
    }
}

/// The final path segment of `s`: what follows its last `/`, or all of `s`
/// when it has none.
pub open spec fn final_segment(s: Seq<char>) -> Seq<char> {
    s.subrange(final_segment_start(s), s.len() as int)
}

/// The final segment ends `s`, holds no `/`, and is either all of `s` or
/// stands directly behind a `/`.
pub proof fn lemma_final_segment(s: Seq<char>)
    ensures
        0 <= final_segment_start(s) <= s.len(),
        final_segment(s).is_suffix_of(s),
        forall|i: int| 0 <= i < final_segment(s).len() ==> final_segment(s)[i] != '/',
        final_segment_start(s) == 0 || s[final_segment_start(s) - 1] == '/',
    decreases s.len(),
{
    if s.len() > 0 && s.last() != '/' {
        let front = s.drop_last();
        lemma_final_segment(front);
        assert forall|i: int| 0 <= i < final_segment(s).len() implies final_segment(s)[i]
            != '/' by {
            if i < final_segment(front).len() {
                assert(final_segment(s)[i] == final_segment(front)[i]);
            }
        }
    }
}

/// `s` without what stands behind its last real component: the `/` that end
/// it, and the components `.` that follow.
pub open spec fn trimmed(s: Seq<char>) -> Seq<char>
    decreases s.len(),
{
    if s.len() == 0 {
        s
    } else if s.last() == '/' {
        trimmed(s.drop_last())
    } else if s.last() == '.' && (s.len() == 1 || s[s.len() - 2] == '/') {
        trimmed(s.drop_last())
    } else {
        s
    }
}

/// The file name of a path: its last component, where empty components and
/// components `.` do not count. A path without such a component has no file
/// name, and neither has one whose last component is `..`.
pub open spec fn file_name(s: Seq<char>) -> Option<Seq<char>> {
    let t = trimmed(s);
    if t.len() == 0 || final_segment(t) == ".."@ {
        None
    } else {
        Some(final_segment(t))
    }
}

/// What is left of a trimmed path begins the path and does not end in `/`.
pub proof fn lemma_trimmed(s: Seq<char>)
    ensures
        trimmed(s).is_prefix_of(s),
        trimmed(s).len() > 0 ==> trimmed(s).last() != '/',
    decreases s.len(),
{
    if s.len() > 0 {
        if s.last() == '/' || (s.last() == '.' && (s.len() == 1 || s[s.len() - 2] == '/')) {
            lemma_trimmed(s.drop_last());
        }
    }
}

/// A file name is not empty and holds no `/`.
pub proof fn lemma_file_name(s: Seq<char>)
    ensures
        file_name(s) matches Some(name) ==> {
            &&& name.len() > 0
            &&& name != ".."@
            &&& forall|i: int| 0 <= i < name.len() ==> name[i] != '/'
        },
{
    let t = trimmed(s);
    lemma_trimmed(s);
    lemma_final_segment(t);
    if t.len() > 0 {
        assert(final_segment_start(t) == final_segment_start(t.drop_last()));
        lemma_final_segment(t.drop_last());
    }
}

/// The file name of the path `name`, if it has one (see [`file_name`]).
pub fn file_name_of(name: &str) -> (r: Option<String>)
    ensures
        match r {
            Some(text) => file_name(name@) == Some(text@),
            None => file_name(name@) is None,
        },
{
    let total: usize = name.unicode_len();
    let mut segment: usize = 0;
    let mut start: usize = 0;
    let mut end: usize = 0;
    let mut after_slash: bool = true;
    let mut n: usize = 0;
    assert(name@.take(0) =~= Seq::<char>::empty());
    for c in it: name.chars()
        invariant
            n == it.index(),
            it.seq() == name@,
            name@.len() == total,
            segment == final_segment_start(name@.take(n as int)),
            trimmed(name@.take(n as int)) == name@.take(end as int),
            start == final_segment_start(name@.take(end as int)),
            after_slash == (n == 0 || name@[n - 1] == '/'),
            segment <= n <= total,
            start <= end <= n,
    {
        let ghost seen = name@.take(n + 1);
        assert(seen.drop_last() =~= name@.take(n as int));
        assert(seen.last() == c);
        assert(n > 0 ==> seen[seen.len() - 2] == name@[n - 1]);
        if c == '/' {
            segment = n + 1;
        } else if !(c == '.' && after_slash) {
            start = segment;
            end = n + 1;
        }
        after_slash = c == '/';
        n = n + 1;
    }
    assert(name@.take(n as int) =~= name@);
    if end == 0 {
        return None;
    }
    let last = name.substring_char(start, end);
    assert(last@ =~= final_segment(name@.take(end as int)));
    if str_eq(last, "..") {
        None
    } else {
        Some(String::from_str(last))
    }
}

/// The character for a decimal digit.
pub open spec fn digit(d: int) -> char {
    if d == 0 {
        '0'
    } else if d == 1 {
        '1'
    } else if d == 2 {
        '2'
    } else if d == 3 {
        '3'
    } else if d == 4 {
        '4'
    } else if d == 5 {
        '5'
    } else if d == 6 {
        '6'
    } else if d == 7 {
        '7'
    } else if d == 8 {
        '8'
    } else {
        '9'
    }
}

/// `n` written in decimal, without leading zeros.
pub open spec fn decimal(n: nat) -> Seq<char>
    decreases n,
{
    if n < 10 {
        seq![digit(n as int)]
    } else {
        decimal(n / 10).push(digit((n % 10) as int))
    }
}

fn digit_str(d: usize) -> (r: &'static str)
    requires
        d < 10,
    ensures
        r@ == seq![digit(d as int)],
{
    proof {
        reveal_strlit("0");
        reveal_strlit("1");
        reveal_strlit("2");
        reveal_strlit("3");
        reveal_strlit("4");
        reveal_strlit("5");
        reveal_strlit("6");
        reveal_strlit("7");
        reveal_strlit("8");
        reveal_strlit("9");
    }
    let r = if d == 0 {
        "0"
    } else if d == 1 {
        "1"
    } else if d == 2 {
        "2"
    } else if d == 3 {
        "3"
    } else if d == 4 {
        "4"
    } else if d == 5 {
        "5"
    } else if d == 6 {
        "6"
    } else if d == 7 {
        "7"
    } else if d == 8 {
        "8"
    } else {
        "9"
    };
    assert(r@ =~= seq![digit(d as int)]);
    r
}

/// `n` as decimal text.
pub fn decimal_string(n: usize) -> (r: String)
    ensures
        r@ == decimal(n as nat),
{
    let mut out = String::from_str(digit_str(n % 10));
    let mut rest: usize = n / 10;
    assert(n >= 10 ==> decimal(n as nat) =~= decimal(rest as nat) + out@);
    while rest > 0
        invariant
            rest > 0 ==> decimal(n as nat) == decimal(rest as nat) + out@,
            rest == 0 ==> decimal(n as nat) == out@,
        decreases rest,
    {
        let lower = out;
        out = String::from_str(digit_str(rest % 10)).concat(lower.as_str());
        assert(decimal(rest as nat) + lower@ =~= if rest < 10 {
            out@
        } else {
            decimal((rest / 10) as nat) + out@
        });
        rest = rest / 10;
    }
    out
}

/// `n` spaces.
pub open spec fn spaces(n: nat) -> Seq<char> {
    Seq::new(n, |i: int| ' ')
}

/// `s`, followed by as many spaces as it takes to reach `width` characters.
pub open spec fn padded(s: Seq<char>, width: nat) -> Seq<char> {
    if s.len() >= width {
        s
    } else {
        s + spaces((width - s.len()) as nat)
    }
}

/// `s` padded with spaces on the right to `width` characters.
pub fn pad_right(s: &str, width: usize) -> (r: String)
    ensures
        r@ == padded(s@, width as nat),
{
    let mut out = String::from_str(s);
    let mut n: usize = s.unicode_len();
    proof {
        reveal_strlit(" ");
    }
    assert(out@ =~= s@ + spaces(0));
    while n < width
        invariant
            n >= s@.len(),
            n <= width || n == s@.len(),
            out@ == s@ + spaces((n - s@.len()) as nat),
            " "@ == seq![' '],
        decreases width - n,
    {
        out.append(" ");
        n = n + 1;
        assert(out@ =~= s@ + spaces((n - s@.len()) as nat));
    }
    assert(out@ =~= padded(s@, width as nat));
    out
}

/// Encoding as UTF-8 goes through concatenation.
pub proof fn lemma_encode_utf8_concat(a: Seq<char>, b: Seq<char>)
    ensures
        encode_utf8(a + b) == encode_utf8(a) + encode_utf8(b),
    decreases a.len(),
{
    if a.len() == 0 {
        assert(a + b =~= b);
        assert(encode_utf8(a) + encode_utf8(b) =~= encode_utf8(b));
    } else {
        lemma_encode_utf8_concat(a.drop_first(), b);
        assert((a + b).drop_first() =~= a.drop_first() + b);
        assert(encode_utf8(a + b) =~= encode_utf8(a) + encode_utf8(b));
    }
}

} // verus!
