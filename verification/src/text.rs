//! Verified string utilities: substring search, decimal rendering,
//! joining, and prefix/suffix tests over `Seq<char>` views.

use vstd::prelude::*;

verus! {

/// `needle` occurs in `hay` starting at position `i`.
pub open spec fn matches_at(hay: Seq<char>, needle: Seq<char>, i: int) -> bool {
    &&& 0 <= i
    &&& i + needle.len() <= hay.len()
    &&& hay.subrange(i, i + needle.len() as int) == needle
}

/// `needle` occurs somewhere in `hay`.
pub open spec fn has_substring(hay: Seq<char>, needle: Seq<char>) -> bool {
    exists|i: int| matches_at(hay, needle, i)
}

/// Whether `needle` occurs in `hay` starting exactly at `i`.
pub(crate) fn matches_at_exec(hay: &str, needle: &str, i: usize, hay_len: usize, needle_len: usize) -> (r: bool)
    requires
        hay_len == hay@.len(),
        needle_len == needle@.len(),
        i + needle_len <= hay_len,
    ensures
        r == matches_at(hay@, needle@, i as int),
{
    let mut j: usize = 0;
    while j < needle_len
        invariant
            hay_len == hay@.len(),
            needle_len == needle@.len(),
            i + needle_len <= hay_len,
            0 <= j <= needle_len,
            forall|k: int| 0 <= k < j ==> hay@[i + k] == needle@[k],
        decreases needle_len - j,
    {
        if hay.get_char(i + j) != needle.get_char(j) {
            assert(hay@.subrange(i as int, i + needle_len as int)[j as int] != needle@[j as int]);
            return false;
        }
        j = j + 1;
    }
    assert(hay@.subrange(i as int, i + needle_len as int) =~= needle@);
    true
}

/// Character-wise string equality.
pub fn str_eq(a: &str, b: &str) -> (r: bool)
    ensures
        r == (a@ == b@),
{
    let a_len = a.unicode_len();
    let b_len = b.unicode_len();
    if a_len != b_len {
        return false;
    }
    let mut i: usize = 0;
    while i < a_len
        invariant
            a_len == a@.len(),
            a_len == b@.len(),
            0 <= i <= a_len,
            forall|k: int| 0 <= k < i ==> a@[k] == b@[k],
        decreases a_len - i,
    {
        if a.get_char(i) != b.get_char(i) {
            return false;
        }
        i = i + 1;
    }
    assert(a@ =~= b@);
    true
}

/// Substring search: whether `needle` occurs anywhere in `hay`.
pub fn contains_sub(hay: &str, needle: &str) -> (r: bool)
    ensures
        r == has_substring(hay@, needle@),
{
    let hay_len = hay.unicode_len();
    let needle_len = needle.unicode_len();
    if needle_len > hay_len {
        assert(forall|i: int| !matches_at(hay@, needle@, i));
        return false;
    }
    if needle_len == 0 {
        assert(matches_at(hay@, needle@, 0)) by {
            assert(hay@.subrange(0, 0) =~= needle@);
        }
        return true;
    }
    let mut i: usize = 0;
    while i <= hay_len - needle_len
        invariant
            hay_len == hay@.len(),
            needle_len == needle@.len(),
            1 <= needle_len <= hay_len,
            0 <= i <= hay_len - needle_len + 1,
            forall|k: int| 0 <= k < i ==> !matches_at(hay@, needle@, k),
        decreases hay_len - needle_len - i + 1,
    {
        if matches_at_exec(hay, needle, i, hay_len, needle_len) {
            return true;
        }
        i = i + 1;
    }
    assert(forall|k: int| matches_at(hay@, needle@, k) ==> 0 <= k <= hay_len - needle_len);
    false
}

/// The character for one decimal digit.
pub open spec fn digit_char(d: nat) -> char {
    if d == 0 {
        '0'
    } else if d == 1 {
        '1'
    } else if d == 2 {
        '2'
    } else if d == 3 {
        '3'
    } else if d == 4 {
        '4'
    } else if d == 5 {
        '5'
    } else if d == 6 {
        '6'
    } else if d == 7 {
        '7'
    } else if d == 8 {
        '8'
    } else {
        '9'
    }
}

/// The decimal rendering of a natural number.
pub open spec fn dec_str(n: nat) -> Seq<char>
    decreases n,
{
    if n < 10 {
        seq![digit_char(n)]
    } else {
        dec_str(n / 10) + seq![digit_char(n % 10)]
    }
}

fn push_digit(d: u64, out: &mut String)
    requires
        d < 10,
    ensures
        final(out)@ == old(out)@ + seq![digit_char(d as nat)],
{
    let lit: &str = if d == 0 {
        "0"
    } else if d == 1 {
        "1"
    } else if d == 2 {
        "2"
    } else if d == 3 {
        "3"
    } else if d == 4 {
        "4"
    } else if d == 5 {
        "5"
    } else if d == 6 {
        "6"
    } else if d == 7 {
        "7"
    } else if d == 8 {
        "8"
    } else {
        "9"
    };
    proof {
        reveal_strlit("0");
        reveal_strlit("1");
        reveal_strlit("2");
        reveal_strlit("3");
        reveal_strlit("4");
        reveal_strlit("5");
        reveal_strlit("6");
        reveal_strlit("7");
        reveal_strlit("8");
        reveal_strlit("9");
        assert(lit@ =~= seq![digit_char(d as nat)]);
    }
    out.append(lit);
}

fn push_dec(n: u64, out: &mut String)
    ensures
        final(out)@ == old(out)@ + dec_str(n as nat),
    decreases n,
{
    if n >= 10 {
        push_dec(n / 10, out);
        push_digit(n % 10, out);
        proof {
            assert(final(out)@ == old(out)@ + (dec_str((n / 10) as nat) + seq![
                digit_char((n % 10) as nat),
            ]));
            assert(old(out)@ + (dec_str((n / 10) as nat) + seq![digit_char((n % 10) as nat)])
                =~= old(out)@ + dec_str(n as nat));
        }
    } else {
        push_digit(n, out);
    }
}

/// The decimal rendering of `n`.
pub fn u64_to_string(n: u64) -> (r: String)
    ensures
        r@ == dec_str(n as nat),
{
    let mut out = String::new();
    push_dec(n, &mut out);
    assert(out@ =~= dec_str(n as nat));
    out
}

/// The text with every occurrence of `pat` replaced by `repl`,
/// leftmost first, non-overlapping; an empty pattern replaces nothing.
pub open spec fn replace_spec(s: Seq<char>, pat: Seq<char>, repl: Seq<char>) -> Seq<char>
    decreases s.len(),
{
    if pat.len() == 0 {
        s
    } else if s.len() < pat.len() {
        s
    } else if s.take(pat.len() as int) == pat {
        repl + replace_spec(s.skip(pat.len() as int), pat, repl)
    } else {
        seq![s[0]] + replace_spec(s.drop_first(), pat, repl)
    }
}

/// Replace every occurrence of `pat` in `s` by `repl`.
#[verifier::loop_isolation(false)]
pub fn replace_sub(s: &str, pat: &str, repl: &str) -> (r: String)
    ensures
        r@ == replace_spec(s@, pat@, repl@),
{
    let s_len = s.unicode_len();
    let pat_len = pat.unicode_len();
    if pat_len == 0 {
        return s.to_owned();
    }
    let mut out = String::new();
    let mut i: usize = 0;
    proof {
        assert(s@.skip(0) =~= s@);
    }
    while i < s_len
        invariant
            0 <= i <= s_len,
            replace_spec(s@, pat@, repl@) == out@ + replace_spec(s@.skip(i as int), pat@, repl@),
        decreases s_len - i,
    {
        if pat_len <= s_len - i && matches_at_exec(s, pat, i, s_len, pat_len) {
            out.append(repl);
            proof {
                assert(s@.skip(i as int).take(pat_len as int) =~= s@.subrange(
                    i as int,
                    i + pat_len,
                ));
                assert(s@.skip(i as int).skip(pat_len as int) =~= s@.skip(i + pat_len));
            }
            i = i + pat_len;
        } else {
            let c = s.substring_char(i, i + 1);
            out.append(c);
            proof {
                if i + pat_len <= s_len {
                    assert(s@.skip(i as int).take(pat_len as int) =~= s@.subrange(
                        i as int,
                        i + pat_len,
                    ));
                }
                assert(c@ =~= seq![s@.skip(i as int)[0]]);
                assert(s@.skip(i as int).drop_first() =~= s@.skip(i as int + 1));
            }
            i = i + 1;
        }
    }
    proof {
        assert(s@.skip(s_len as int) =~= Seq::<char>::empty());
        assert(s@.skip(0) =~= s@);
    }
    out
}

/// The views of a sequence of strings.
pub open spec fn str_views(v: Seq<String>) -> Seq<Seq<char>> {
    Seq::new(v.len(), |i: int| v[i]@)
}

/// The items joined with a comma and a space between them.
pub open spec fn join_comma_spec(items: Seq<Seq<char>>) -> Seq<char>
    decreases items.len(),
{
    if items.len() == 0 {
        Seq::empty()
    } else if items.len() == 1 {
        items[0]
    } else {
        join_comma_spec(items.drop_last()) + ", "@ + items.last()
    }
}

/// Join the items with `", "` between them.
#[verifier::loop_isolation(false)]
pub fn join_comma(items: &Vec<String>) -> (r: String)
    ensures
        r@ == join_comma_spec(str_views(items@)),
{
    let ghost views = str_views(items@);
    let mut out = String::new();
    let mut i: usize = 0;
    proof {
        assert(views.take(0) =~= Seq::<Seq<char>>::empty());
    }
    while i < items.len()
        invariant
            0 <= i <= items@.len(),
            out@ == join_comma_spec(views.take(i as int)),
        decreases items@.len() - i,
    {
        if i > 0 {
            out.append(", ");
        }
        out.append(items[i].as_str());
        i = i + 1;
        proof {
            assert(views.take(i as int).drop_last() =~= views.take(i - 1));
            assert(views.take(i as int).last() == views[i - 1]);
            if i > 1 {
                assert(out@ =~= join_comma_spec(views.take(i as int)));
            } else {
                assert(views.take(1)[0] == views[0]);
                assert(out@ =~= views[0]);
            }
        }
    }
    proof {
        assert(views.take(items@.len() as int) =~= views);
    }
    out
}

} // verus!
