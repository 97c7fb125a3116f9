use vstd::prelude::*;
use vstd::string::*;

verus! {

/// `s` ends in `suffix`.
pub open spec fn ends_with(s: Seq<char>, suffix: Seq<char>) -> bool {
    suffix.len() <= s.len() && s.subrange(s.len() - suffix.len(), s.len() as int) == suffix
}

/// Index of the first occurrence of `c` in `s`, or `s.len()` when there
/// is none.
pub open spec fn first_pos(s: Seq<char>, c: char) -> int
    decreases s.len(),
{
    if s.len() == 0 {
        0
    } else if s[0] == c {
        0
    } else {
        1 + first_pos(s.drop_first(), c)
    }
}

pub proof fn lemma_first_pos(s: Seq<char>, c: char)
    ensures
        0 <= first_pos(s, c) <= s.len(),
        forall|j: int| 0 <= j < first_pos(s, c) ==> s[j] != c,
        first_pos(s, c) < s.len() ==> s[first_pos(s, c)] == c,
    decreases s.len(),
{
    if s.len() == 0 {
    } else if s[0] == c {
    } else {
        lemma_first_pos(s.drop_first(), c);
        assert forall|j: int| 0 <= j < first_pos(s, c) implies s[j] != c by {
            if j > 0 {
                assert(s.drop_first()[j - 1] == s[j]);
            }
        }
        if first_pos(s, c) < s.len() {
            assert(s.drop_first()[first_pos(s, c) - 1] == s[first_pos(s, c)]);
        }
    }
}

/// `first_pos` is the only index that a scan can stop at.
pub proof fn lemma_first_pos_at(s: Seq<char>, c: char, i: int)
    requires
        0 <= i <= s.len(),
        forall|j: int| 0 <= j < i ==> s[j] != c,
        i < s.len() ==> s[i] == c,
    ensures
        first_pos(s, c) == i,
    decreases s.len(),
{
    if s.len() == 0 {
    } else if s[0] == c {
        if i > 0 {
            assert(s[0] != c);
        }
    } else {
        assert(i >= 1) by {
            if i == 0 {
                assert(s[0] == c);
            }
        }
        assert forall|j: int| 0 <= j < i - 1 implies s.drop_first()[j] != c by {
            assert(s.drop_first()[j] == s[j + 1]);
        }
        if i - 1 < s.drop_first().len() {
            assert(s.drop_first()[i - 1] == s[i]);
        }
        lemma_first_pos_at(s.drop_first(), c, i - 1);
    }
}

/// Index of the first '/' in `s`, or `s.len()` when there is none.
pub open spec fn first_slash(s: Seq<char>) -> int {
    first_pos(s, '/')
}

pub proof fn lemma_first_slash(s: Seq<char>)
    ensures
        0 <= first_slash(s) <= s.len(),
        forall|j: int| 0 <= j < first_slash(s) ==> s[j] != '/',
        first_slash(s) < s.len() ==> s[first_slash(s)] == '/',
{
    lemma_first_pos(s, '/');
}

/// `first_slash` is the only index that a scan can stop at.
pub proof fn lemma_first_slash_at(s: Seq<char>, i: int)
    requires
        0 <= i <= s.len(),
        forall|j: int| 0 <= j < i ==> s[j] != '/',
        i < s.len() ==> s[i] == '/',
    ensures
        first_slash(s) == i,
{
    lemma_first_pos_at(s, '/', i);
}

/// Everything before the first '/': the conversation identifier of an
/// archive path, or the whole path when it has no directory part.
pub open spec fn first_segment(s: Seq<char>) -> Seq<char> {
    s.take(first_slash(s))
}

/// Everything after the last '/': the base name of an archive path.
pub open spec fn basename(s: Seq<char>) -> Seq<char>
    decreases s.len(),
{
    if s.len() == 0 {
        s
    } else if s.last() == '/' {
        Seq::empty()
    } else {
        basename(s.drop_last()).push(s.last())
    }
}

pub proof fn lemma_basename_no_slash(s: Seq<char>)
    requires
        forall|j: int| 0 <= j < s.len() ==> s[j] != '/',
    ensures
        basename(s) == s,
    decreases s.len(),
{
    if s.len() == 0 {
    } else {
        lemma_basename_no_slash(s.drop_last());
        assert(basename(s) =~= s);
    }
}

pub proof fn lemma_basename_after(s: Seq<char>, i: int)
    requires
        0 <= i < s.len(),
        s[i] == '/',
        forall|j: int| i < j < s.len() ==> s[j] != '/',
    ensures
        basename(s) == s.subrange(i + 1, s.len() as int),
    decreases s.len(),
{
    if i == s.len() - 1 {
        assert(basename(s) =~= s.subrange(i + 1, s.len() as int));
    } else {
        lemma_basename_after(s.drop_last(), i);
        assert(basename(s) =~= s.subrange(i + 1, s.len() as int));
    }
}

/// Compare two string slices by their character sequences.
pub fn str_eq(a: &str, b: &str) -> (r: bool)
    ensures
        r == (a@ == b@),
{
    let alen = a.unicode_len();
    let blen = b.unicode_len();
    if alen != blen {
        return false;
    }
    let mut i: usize = 0;
    while i < alen
        invariant
            alen == a@.len(),
            alen == b@.len(),
            i <= alen,
            forall|j: int| 0 <= j < i ==> a@[j] == b@[j],
        decreases alen - i,
    {
        if a.get_char(i) != b.get_char(i) {
            return false;
        }
        i += 1;
    }
    proof {
        assert(a@ =~= b@);
    }
    true
}

/// Whether `s` ends in `suffix`, by characters.
pub fn str_ends_with(s: &str, suffix: &str) -> (r: bool)
    ensures
        r == ends_with(s@, suffix@),
{
    let n = s.unicode_len();
    let m = suffix.unicode_len();
    if m > n {
        return false;
    }
    let mut i: usize = 0;
    while i < m
        invariant
            n == s@.len(),
            m == suffix@.len(),
            m <= n,
            i <= m,
            forall|j: int| 0 <= j < i ==> s@[n - m + j] == suffix@[j],
        decreases m - i,
    {
        if s.get_char(n - m + i) != suffix.get_char(i) {
            proof {
                if ends_with(s@, suffix@) {
                    assert(s@.subrange(n - m, n as int)[i as int] == suffix@[i as int]);
                }
            }
            return false;
        }
        i += 1;
    }
    proof {
        assert(s@.subrange(n - m, n as int) =~= suffix@);
    }
    true
}

/// Position of the first occurrence of `c` in `s`, or its length when it
/// has none.
pub fn find_first(s: &str, c: char) -> (r: usize)
    ensures
        r as int == first_pos(s@, c),
{
    let n = s.unicode_len();
    let mut i: usize = 0;
    while i < n
        invariant
            n == s@.len(),
            i <= n,
            forall|j: int| 0 <= j < i ==> s@[j] != c,
        decreases n - i,
    {
        if s.get_char(i) == c {
            proof {
                lemma_first_pos_at(s@, c, i as int);
            }
            return i;
        }
        i += 1;
    }
    proof {
        lemma_first_pos_at(s@, c, n as int);
    }
    n
}

/// The conversation identifier of `s`: its first path segment.
pub fn first_segment_str(s: &str) -> (r: String)
    ensures
        r@ == first_segment(s@),
{
    let i = find_first(s, '/');
    proof {
        lemma_first_slash(s@);
        assert(s@.subrange(0, i as int) =~= s@.take(first_slash(s@)));
    }
    let seg = s.substring_char(0, i);
    String::from_str(seg)
}

/// The base name of `s`: everything after its last '/'.
pub fn basename_str<'a>(s: &'a str) -> (r: &'a str)
    ensures
        r@ == basename(s@),
{
    let n = s.unicode_len();
    let mut i: usize = n;
    while i > 0
        invariant
            n == s@.len(),
            i <= n,
            forall|j: int| i <= j < n ==> s@[j] != '/',
        decreases i,
    {
        if s.get_char(i - 1) == '/' {
            proof {
                lemma_basename_after(s@, i - 1);
            }
            return s.substring_char(i, n);
        }
        i -= 1;
    }
    proof {
        lemma_basename_no_slash(s@);
    }
    s
}

pub open spec fn spec_digit(d: int) -> char {
    if d == 0 {
        '0'
    } else if d == 1 {
        '1'
    } else if d == 2 {
        '2'
    } else if d == 3 {
        '3'
    } else if d == 4 {
        '4'
    } else if d == 5 {
        '5'
    } else if d == 6 {
        '6'
    } else if d == 7 {
        '7'
    } else if d == 8 {
        '8'
    } else {
        '9'
    }
}

/// The decimal digits of `n`, most significant first.
pub open spec fn spec_decimal(n: int) -> Seq<char>
    decreases n,
{
    if n < 10 {
        seq![spec_digit(n)]
    } else {
        spec_decimal(n / 10).push(spec_digit(n % 10))
    }
}

/// The decimal digits of `n`, left-padded with '0' to three places.
pub open spec fn spec_padded3(n: int) -> Seq<char> {
    if n < 10 {
        seq!['0', '0'] + spec_decimal(n)
    } else if n < 100 {
        seq!['0'] + spec_decimal(n)
    } else {
        spec_decimal(n)
    }
}

fn digit_str(d: usize) -> (r: &'static str)
    requires
        d < 10,
    ensures
        r@ == seq![spec_digit(d as int)],
{
    if d == 0 {
        proof {
            reveal_strlit("0");
            assert("0"@ =~= seq![spec_digit(0)]);
        }
        "0"
    } else if d == 1 {
        proof {
            reveal_strlit("1");
            assert("1"@ =~= seq![spec_digit(1)]);
        }
        "1"
    } else if d == 2 {
        proof {
            reveal_strlit("2");
            assert("2"@ =~= seq![spec_digit(2)]);
        }
        "2"
    } else if d == 3 {
        proof {
            reveal_strlit("3");
            assert("3"@ =~= seq![spec_digit(3)]);
        }
        "3"
    } else if d == 4 {
        proof {
            reveal_strlit("4");
            assert("4"@ =~= seq![spec_digit(4)]);
        }
        "4"
    } else if d == 5 {
        proof {
            reveal_strlit("5");
            assert("5"@ =~= seq![spec_digit(5)]);
        }
        "5"
    } else if d == 6 {
        proof {
            reveal_strlit("6");
            assert("6"@ =~= seq![spec_digit(6)]);
        }
        "6"
    } else if d == 7 {
        proof {
            reveal_strlit("7");
            assert("7"@ =~= seq![spec_digit(7)]);
        }
        "7"
    } else if d == 8 {
        proof {
            reveal_strlit("8");
            assert("8"@ =~= seq![spec_digit(8)]);
        }
        "8"
    } else {
        proof {
            reveal_strlit("9");
            assert("9"@ =~= seq![spec_digit(9)]);
        }
        "9"
    }
}

/// Render `n` in decimal.
pub fn decimal_string(n: usize) -> (r: String)
    ensures
        r@ == spec_decimal(n as int),
    decreases n,
{
    if n < 10 {
        String::from_str(digit_str(n))
    } else {
        let high = decimal_string(n / 10);
        let r = high.concat(digit_str(n % 10));
        proof {
            assert(r@ =~= spec_decimal(n as int));
        }
        r
    }
}

/// Render `n` in decimal, left-padded with '0' to three places.
pub fn padded3_string(n: usize) -> (r: String)
    ensures
        r@ == spec_padded3(n as int),
{
    let d = decimal_string(n);
    if n < 10 {
        let mut r = String::from_str("00");
        proof {
            reveal_strlit("00");
        }
        r.append(d.as_str());
        proof {
            assert(r@ =~= spec_padded3(n as int));
        }
        r
    } else if n < 100 {
        let mut r = String::from_str("0");
        proof {
            reveal_strlit("0");
        }
        r.append(d.as_str());
        proof {
            assert(r@ =~= spec_padded3(n as int));
        }
        r
    } else {
        d
    }
}

/// `{prefix}_{ordinal padded to three places}_{archive}`: the file name of
/// one output chunk.
pub open spec fn spec_output_name(prefix: Seq<char>, idx: int, archive: Seq<char>) -> Seq<char> {
    prefix + "_"@ + spec_padded3(idx) + "_"@ + archive
}

pub fn output_name(prefix: &str, idx: usize, archive: &str) -> (r: String)
    ensures
        r@ == spec_output_name(prefix@, idx as int, archive@),
{
    let mut r = String::from_str(prefix);
    r.append("_");
    let pad = padded3_string(idx);
    r.append(pad.as_str());
    r.append("_");
    r.append(archive);
    proof {
        assert(r@ =~= spec_output_name(prefix@, idx as int, archive@));
    }
    r
}

/// `__uploads/{id}/{name}`: the staging path and in-archive entry name of
/// one downloaded attachment.
pub open spec fn spec_upload_path(id: Seq<char>, name: Seq<char>) -> Seq<char> {
    "__uploads/"@ + id + "/"@ + name
}

pub fn upload_path(id: &str, name: &str) -> (r: String)
    ensures
        r@ == spec_upload_path(id@, name@),
{
    let mut r = String::from_str("__uploads/");
    r.append(id);
    r.append("/");
    r.append(name);
    proof {
        assert(r@ =~= spec_upload_path(id@, name@));
    }
    r
}

/// The base name of the source archive path, or `fallback` when the path
/// ends in a separator.
pub open spec fn spec_archive_name(path: Seq<char>, fallback: Seq<char>) -> Seq<char> {
    if basename(path).len() == 0 {
        fallback
    } else {
        basename(path)
    }
}

pub fn archive_file_name(path: &str, fallback: &str) -> (r: String)
    ensures
        r@ == spec_archive_name(path@, fallback@),
{
    let b = basename_str(path);
    if b.unicode_len() == 0 {
        String::from_str(fallback)
    } else {
        String::from_str(b)
    }
}

} // verus!
