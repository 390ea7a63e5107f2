//! Character and string helpers shared by the classification and planning
//! modules: ASCII lowercasing, substring search, splitting at the last
//! occurrence of a separator, and decimal rendering of counts.

use vstd::prelude::*;

verus! {

/// Relies on std's `String::push`: appends the given `char` to the end of
/// the string.
pub assume_specification[ String::push ](s: &mut String, c: char)
    ensures
        final(s)@ == old(s)@.push(c),
;

/// ASCII lowercasing of one character: 'A' through 'Z' map to 'a' through
/// 'z', every other character is unchanged.
pub open spec fn lower_char(c: char) -> char {
    if 65 <= c as u32 && c as u32 <= 90 {
        (((c as u32) + 32) as u32) as char
    } else {
        c
    }
}

/// ASCII lowercasing of a whole character sequence.
pub open spec fn lower(s: Seq<char>) -> Seq<char> {
    Seq::new(s.len(), |i: int| lower_char(s[i]))
}

/// `needle` occurs somewhere in `hay` as a contiguous run of characters.
pub open spec fn contains_seq(hay: Seq<char>, needle: Seq<char>) -> bool {
    exists|i: int|
        0 <= i && i + needle.len() <= hay.len() && #[trigger] hay.subrange(i, i + needle.len())
            == needle
}

/// A sequence contains itself.
pub proof fn lemma_contains_self(m: Seq<char>)
    ensures
        contains_seq(m, m),
{
    assert(m.subrange(0, 0 + m.len() as int) =~= m);
}

/// Containment survives prefixing.
pub proof fn lemma_contains_concat_left(a: Seq<char>, b: Seq<char>, m: Seq<char>)
    requires
        contains_seq(b, m),
    ensures
        contains_seq(a + b, m),
{
    let i = choose|i: int|
        0 <= i && i + m.len() <= b.len() && #[trigger] b.subrange(i, i + m.len()) == m;
    assert((a + b).subrange(a.len() + i, a.len() + i + m.len()) =~= b.subrange(i, i + m.len()));
}

/// Containment survives suffixing.
pub proof fn lemma_contains_concat_right(a: Seq<char>, b: Seq<char>, m: Seq<char>)
    requires
        contains_seq(a, m),
    ensures
        contains_seq(a + b, m),
{
    let i = choose|i: int|
        0 <= i && i + m.len() <= a.len() && #[trigger] a.subrange(i, i + m.len()) == m;
    assert((a + b).subrange(i, i + m.len()) =~= a.subrange(i, i + m.len()));
}

/// Some character of `s` equals `c`.
pub open spec fn has_char(s: Seq<char>, c: char) -> bool {
    exists|i: int| 0 <= i < s.len() && s[i] == c
}

/// The characters after the last occurrence of `c` in `s`; the whole of
/// `s` when `c` does not occur.
pub open spec fn after_last(s: Seq<char>, c: char) -> Seq<char>
    decreases s.len(),
{
    if s.len() == 0 {
        Seq::empty()
    } else if s.last() == c {
        Seq::empty()
    } else {
        after_last(s.drop_last(), c).push(s.last())
    }
}

/// The characters before the last occurrence of `c` in `s`; empty when
/// `c` does not occur.
pub open spec fn before_last(s: Seq<char>, c: char) -> Seq<char>
    decreases s.len(),
{
    if s.len() == 0 {
        Seq::empty()
    } else if s.last() == c {
        s.drop_last()
    } else {
        before_last(s.drop_last(), c)
    }
}

fn lower_char_exec(c: char) -> (r: char)
    ensures
        r == lower_char(c),
{
    let u = c as u32;
    if 65 <= u && u <= 90 {
        ((u + 32) as u8) as char
    } else {
        c
    }
}

/// Whether `hay`, lowercased, contains `needle` as a substring. `needle`
/// is expected to be lowercase already (the keyword tables are).
pub fn contains_lower(hay: &str, needle: &str) -> (b: bool)
    ensures
        b == contains_seq(lower(hay@), needle@),
{
    let hlen = hay.unicode_len();
    let nlen = needle.unicode_len();
    if nlen > hlen {
        return false;
    }
    let mut i: usize = 0;
    while i <= hlen - nlen
        invariant
            nlen <= hlen,
            hlen == hay@.len(),
            nlen == needle@.len(),
            i <= hlen - nlen + 1,
            forall|k: int|
                0 <= k < i ==> #[trigger] lower(hay@).subrange(k, k + needle@.len() as int)
                    != needle@,
        decreases hlen - nlen + 1 - i,
    {
        let mut j: usize = 0;
        let mut ok = true;
        while j < nlen && ok
            invariant
                i + nlen <= hlen,
                hlen == hay@.len(),
                nlen == needle@.len(),
                j <= nlen,
                ok ==> forall|t: int| 0 <= t < j ==> lower_char(hay@[i + t]) == needle@[t],
                !ok ==> j < nlen && lower_char(hay@[i + j]) != needle@[j as int],
            decreases nlen - j, (if ok { 1int } else { 0int }),
        {
            if lower_char_exec(hay.get_char(i + j)) == needle.get_char(j) {
                j = j + 1;
            } else {
                ok = false;
            }
        }
        if ok {
            proof {
                assert(lower(hay@).subrange(i as int, i + needle@.len() as int) =~= needle@);
            }
            return true;
        }
        proof {
            assert(lower(hay@).subrange(i as int, i + needle@.len() as int)[j as int]
                != needle@[j as int]);
        }
        i = i + 1;
    }
    proof {
        assert forall|k: int|
            0 <= k && k + needle@.len() <= lower(hay@).len() implies #[trigger] lower(
            hay@,
        ).subrange(k, k + needle@.len() as int) != needle@ by {
            assert(k < i);
        }
    }
    false
}

/// Whether `a` and `b` hold the same characters.
pub fn str_eq(a: &str, b: &str) -> (r: bool)
    ensures
        r == (a@ == b@),
{
    let alen = a.unicode_len();
    let blen = b.unicode_len();
    if alen != blen {
        return false;
    }
    let mut i: usize = 0;
    while i < alen
        invariant
            alen == a@.len(),
            alen == b@.len(),
            i <= alen,
            forall|t: int| 0 <= t < i ==> a@[t] == b@[t],
        decreases alen - i,
    {
        if a.get_char(i) != b.get_char(i) {
            return false;
        }
        i = i + 1;
    }
    proof {
        assert(a@ =~= b@);
    }
    true
}

/// Whether `a`, lowercased, equals `lit` (expected lowercase already).
pub fn str_eq_lower(a: &str, lit: &str) -> (r: bool)
    ensures
        r == (lower(a@) == lit@),
{
    let alen = a.unicode_len();
    let llen = lit.unicode_len();
    if alen != llen {
        proof {
            assert(lower(a@).len() != lit@.len());
        }
        return false;
    }
    let mut i: usize = 0;
    while i < alen
        invariant
            alen == a@.len(),
            alen == lit@.len(),
            i <= alen,
            forall|t: int| 0 <= t < i ==> lower_char(a@[t]) == lit@[t],
        decreases alen - i,
    {
        if lower_char_exec(a.get_char(i)) != lit.get_char(i) {
            proof {
                assert(lower(a@)[i as int] != lit@[i as int]);
            }
            return false;
        }
        i = i + 1;
    }
    proof {
        assert(lower(a@) =~= lit@);
    }
    true
}

/// The index of the last occurrence of `c` in `s`, if any.
pub fn rfind_char(s: &str, c: char) -> (r: Option<usize>)
    ensures
        s@.len() <= usize::MAX,
        match r {
            Some(d) => d < s@.len() && s@[d as int] == c && forall|j: int|
                d < j < s@.len() ==> s@[j] != c,
            None => !has_char(s@, c),
        },
{
    let len = s.unicode_len();
    let mut i: usize = len;
    while i > 0
        invariant
            len == s@.len(),
            i <= len,
            forall|j: int| i <= j < s@.len() ==> s@[j] != c,
        decreases i,
    {
        i = i - 1;
        if s.get_char(i) == c {
            return Some(i);
        }
    }
    None
}

/// When `d` is the last occurrence of `c` in `s`, `after_last` is the
/// suffix past `d` and `before_last` is the prefix up to `d`.
pub proof fn lemma_split_at_last(s: Seq<char>, c: char, d: int)
    requires
        0 <= d < s.len(),
        s[d] == c,
        forall|j: int| d < j < s.len() ==> s[j] != c,
    ensures
        has_char(s, c),
        after_last(s, c) == s.subrange(d + 1, s.len() as int),
        before_last(s, c) == s.subrange(0, d),
    decreases s.len(),
{
    if d == s.len() - 1 {
        assert(after_last(s, c) =~= s.subrange(d + 1, s.len() as int));
        assert(before_last(s, c) =~= s.subrange(0, d));
    } else {
        assert(s.last() != c);
        assert(forall|j: int| d < j < s.drop_last().len() ==> s.drop_last()[j] != c);
        lemma_split_at_last(s.drop_last(), c, d);
        assert(after_last(s, c) == after_last(s.drop_last(), c).push(s.last()));
        assert(after_last(s.drop_last(), c) == s.drop_last().subrange(
            d + 1,
            s.len() - 1,
        ));
        assert(s.drop_last().subrange(d + 1, s.len() - 1).push(s.last()) =~= s.subrange(
            d + 1,
            s.len() as int,
        ));
        assert(s.drop_last().subrange(0, d) =~= s.subrange(0, d));
    }
}

/// Joining a directory path and a name: a '/' separator unless the
/// directory already ends with one.
pub open spec fn spec_join(dir: Seq<char>, name: Seq<char>) -> Seq<char> {
    if dir.len() > 0 && dir.last() == '/' {
        dir + name
    } else {
        dir + "/"@ + name
    }
}

/// Joins a directory path and a name with a '/' separator, not doubling
/// a separator the directory already ends with.
pub fn join_path(dir: &str, name: &str) -> (r: String)
    ensures
        r@ == spec_join(dir@, name@),
{
    let dlen = dir.unicode_len();
    let mut out = dir.to_owned();
    if dlen == 0 || dir.get_char(dlen - 1) != '/' {
        out.push('/');
        proof {
            reveal_strlit("/");
            assert(dir@.push('/') =~= dir@ + "/"@);
        }
    }
    out.append(name);
    out
}

/// The base name of a path: the text after the last '/', or the whole
/// path when it has none; absent when that text is empty.
pub open spec fn spec_base_name(p: Seq<char>) -> Option<Seq<char>> {
    if p.len() == 0 {
        None
    } else if !has_char(p, '/') {
        Some(p)
    } else if after_last(p, '/').len() == 0 {
        None
    } else {
        Some(after_last(p, '/'))
    }
}

/// The base name of a path, when it has one.
pub fn base_name(p: &str) -> (r: Option<String>)
    ensures
        match r {
            Some(b) => spec_base_name(p@) == Some(b@),
            None => spec_base_name(p@) is None,
        },
{
    let len = p.unicode_len();
    if len == 0 {
        return None;
    }
    match rfind_char(p, '/') {
        None => Some(p.to_owned()),
        Some(d) => {
            proof {
                lemma_split_at_last(p@, '/', d as int);
            }
            if d + 1 == len {
                None
            } else {
                Some(p.substring_char(d + 1, len).to_owned())
            }
        },
    }
}

/// The parent of a path: the text before the last '/', when it has one.
pub open spec fn spec_parent(p: Seq<char>) -> Option<Seq<char>> {
    if has_char(p, '/') {
        Some(before_last(p, '/'))
    } else {
        None
    }
}

/// The parent directory of a path, when the path has a '/' at all.
pub fn parent_dir(p: &str) -> (r: Option<String>)
    ensures
        match r {
            Some(d) => spec_parent(p@) == Some(d@),
            None => spec_parent(p@) is None,
        },
{
    match rfind_char(p, '/') {
        None => None,
        Some(d) => {
            proof {
                lemma_split_at_last(p@, '/', d as int);
            }
            Some(p.substring_char(0, d).to_owned())
        },
    }
}

/// Whether some element of `v` holds the same characters as `s`.
pub fn contains_string(v: &Vec<String>, s: &str) -> (b: bool)
    ensures
        b == exists|k: int| 0 <= k < v@.len() && (#[trigger] v@[k])@ == s@,
{
    let n = v.len();
    let mut i: usize = 0;
    while i < n
        invariant
            i <= n,
            n == v@.len(),
            forall|k: int| 0 <= k < i ==> (#[trigger] v@[k])@ != s@,
        decreases n - i,
    {
        if str_eq(v[i].as_str(), s) {
            return true;
        }
        i = i + 1;
    }
    false
}

/// The character of one decimal digit.
pub open spec fn digit_char(d: nat) -> char {
    if d == 0 {
        '0'
    } else if d == 1 {
        '1'
    } else if d == 2 {
        '2'
    } else if d == 3 {
        '3'
    } else if d == 4 {
        '4'
    } else if d == 5 {
        '5'
    } else if d == 6 {
        '6'
    } else if d == 7 {
        '7'
    } else if d == 8 {
        '8'
    } else {
        '9'
    }
}

/// The decimal digits of `n`, most significant first.
pub open spec fn dec_digits(n: nat) -> Seq<char>
    decreases n,
{
    if n < 10 {
        seq![digit_char(n)]
    } else {
        dec_digits(n / 10).push(digit_char(n % 10))
    }
}

fn digit_char_exec(d: usize) -> (c: char)
    requires
        d < 10,
    ensures
        c == digit_char(d as nat),
{
    if d == 0 {
        '0'
    } else if d == 1 {
        '1'
    } else if d == 2 {
        '2'
    } else if d == 3 {
        '3'
    } else if d == 4 {
        '4'
    } else if d == 5 {
        '5'
    } else if d == 6 {
        '6'
    } else if d == 7 {
        '7'
    } else if d == 8 {
        '8'
    } else {
        '9'
    }
}

/// Renders `n` in decimal.
pub fn usize_to_string(n: usize) -> (s: String)
    ensures
        s@ == dec_digits(n as nat),
    decreases n,
{
    if n < 10 {
        let mut s = String::new();
        s.push(digit_char_exec(n));
        proof {
            assert(Seq::<char>::empty().push(digit_char(n as nat)) =~= seq![
                digit_char(n as nat),
            ]);
        }
        s
    } else {
        proof {
            assert(n / 10 < n) by (nonlinear_arith)
                requires
                    10 <= n,
            ;
        }
        let mut s = usize_to_string(n / 10);
        s.push(digit_char_exec(n % 10));
        s
    }
}

/// The extension of a file name: the lowercased text after the last dot,
/// with no leading dot, and empty when the name has no dot.
pub open spec fn extension_of_name(name: Seq<char>) -> Seq<char> {
    if has_char(name, '.') {
        lower(after_last(name, '.'))
    } else {
        Seq::empty()
    }
}

/// Extracts the extension of `file_name`: the lowercased text after the
/// last dot, empty when there is none.
pub fn get_file_extension(file_name: &str) -> (ext: String)
    ensures
        ext@ == extension_of_name(file_name@),
{
    match rfind_char(file_name, '.') {
        Some(d) => {
            proof {
                lemma_split_at_last(file_name@, '.', d as int);
            }
            lowered_suffix(file_name, d + 1)
        },
        None => String::new(),
    }
}

/// Copies the suffix of `s` past index `from`, lowercased.
pub fn lowered_suffix(s: &str, from: usize) -> (r: String)
    requires
        from <= s@.len(),
    ensures
        r@ == lower(s@.subrange(from as int, s@.len() as int)),
{
    let len = s.unicode_len();
    let mut out = String::new();
    let mut i: usize = from;
    while i < len
        invariant
            from <= i <= len,
            len == s@.len(),
            out@ == lower(s@.subrange(from as int, i as int)),
        decreases len - i,
    {
        let c = lower_char_exec(s.get_char(i));
        out.push(c);
        i = i + 1;
        proof {
            assert(lower(s@.subrange(from as int, i - 1)).push(lower_char(s@[i - 1])) =~= lower(
                s@.subrange(from as int, i as int),
            ));
        }
    }
    out
}

} // verus!
