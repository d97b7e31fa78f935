//! Character-level operations on line text: splicing and removing single
//! characters, slicing, joining and splitting on newlines. Text is modelled
//! as a `Seq<char>`; columns are Unicode-scalar offsets.

use vstd::prelude::*;

verus! {

use vstd::string::StrSliceExecFns;
use vstd::string::StringExecFns;

/// `s` with `c` spliced in before position `i`.
pub open spec fn seq_insert_at(s: Seq<char>, i: int, c: char) -> Seq<char> {
    s.subrange(0, i) + seq![c] + s.subrange(i, s.len() as int)
}

/// `s` with the character at position `i` removed.
pub open spec fn seq_remove_at(s: Seq<char>, i: int) -> Seq<char> {
    s.subrange(0, i) + s.subrange(i + 1, s.len() as int)
}

/// Removing a character at the position where it was just spliced in gives
/// back the original text: the cursor marker never leaks into content.
pub proof fn lemma_insert_then_remove(s: Seq<char>, i: int, c: char)
    requires
        0 <= i <= s.len(),
    ensures
        seq_remove_at(seq_insert_at(s, i, c), i) =~= s,
{
}

/// `i` clamped into `[0, n]`.
pub open spec fn clamp(i: int, n: int) -> int {
    if i <= n {
        i
    } else {
        n
    }
}

/// Relies on `String::push`: appends one character to the buffer.
#[verifier::external_body]
pub fn push_char(s: &mut String, c: char)
    ensures
        final(s)@ == old(s)@.push(c),
{
    s.push(c);
}

/// A new string holding the characters of `s` from `from` up to `to`,
/// clamped to the length of `s`.
pub fn substring_clamped(s: &str, from: usize, to: usize) -> (r: String)
    requires
        from <= to,
    ensures
        r@ == s@.subrange(clamp(from as int, s@.len() as int), clamp(to as int, s@.len() as int)),
{
    let n = s.unicode_len();
    let f = if from <= n {
        from
    } else {
        n
    };
    let t = if to <= n {
        to
    } else {
        n
    };
    s.substring_char(f, t).to_owned()
}

/// `s` with `c` spliced in before column `i`.
pub fn insert_char_at(s: &str, i: usize, c: char) -> (r: String)
    requires
        i <= s@.len(),
    ensures
        r@ == seq_insert_at(s@, i as int, c),
{
    let n = s.unicode_len();
    let mut r = s.substring_char(0, i).to_owned();
    push_char(&mut r, c);
    let r = r.concat(s.substring_char(i, n));
    proof {
        assert(r@ =~= seq_insert_at(s@, i as int, c));
    }
    r
}

/// `s` without the character at column `i`.
pub fn remove_char_at(s: &str, i: usize) -> (r: String)
    requires
        i < s@.len(),
    ensures
        r@ == seq_remove_at(s@, i as int),
{
    let n = s.unicode_len();
    let r = s.substring_char(0, i).to_owned().concat(s.substring_char(i + 1, n));
    proof {
        assert(r@ =~= seq_remove_at(s@, i as int));
    }
    r
}

/// Whether `pat` occurs in `s` starting at position `i`.
pub open spec fn is_match_at(s: Seq<char>, pat: Seq<char>, i: int) -> bool {
    0 <= i && i + pat.len() <= s.len() && s.subrange(i, i + pat.len() as int) == pat
}

/// The first position at or after `i` where `pat` occurs in `s`; -1 when
/// it does not.
pub open spec fn first_match_from(s: Seq<char>, pat: Seq<char>, i: int) -> int
    decreases s.len() + 1 - i,
{
    if i < 0 || i + pat.len() > s.len() {
        -1
    } else if s.subrange(i, i + pat.len() as int) == pat {
        i
    } else {
        first_match_from(s, pat, i + 1)
    }
}

/// `s` with every occurrence of `pat` replaced by `to`: occurrences are
/// found left to right and do not overlap. `s` itself when `pat` does not
/// occur or is empty.
pub open spec fn spec_replace_all(s: Seq<char>, pat: Seq<char>, to: Seq<char>) -> Seq<char>
    decreases s.len(),
{
    if pat.len() == 0 {
        s
    } else {
        let i = first_match_from(s, pat, 0);
        if i < 0 || i + pat.len() > s.len() {
            s
        } else {
            s.subrange(0, i) + to + spec_replace_all(
                s.subrange(i + pat.len() as int, s.len() as int),
                pat,
                to,
            )
        }
    }
}

proof fn lemma_first_match_from_step(s: Seq<char>, pat: Seq<char>, k: int, i: int)
    requires
        0 <= k <= i,
        is_match_at(s, pat, i),
        forall|j: int| k <= j < i ==> !is_match_at(s, pat, j),
    ensures
        first_match_from(s, pat, k) == i,
    decreases i - k,
{
    assert(i + pat.len() <= s.len());
    if k < i {
        assert(!is_match_at(s, pat, k));
        lemma_first_match_from_step(s, pat, k + 1, i);
    }
}

proof fn lemma_first_match_from_none(s: Seq<char>, pat: Seq<char>, k: int)
    requires
        k >= 0,
        forall|j: int| k <= j < s.len() + 1 ==> !is_match_at(s, pat, j),
    ensures
        first_match_from(s, pat, k) == -1,
    decreases s.len() + 1 - k,
{
    if k + pat.len() <= s.len() {
        assert(!is_match_at(s, pat, k));
        lemma_first_match_from_none(s, pat, k + 1);
    }
}

/// Whether `pat` matches `s` at position `i`, checked character by
/// character.
fn match_at(s: &str, pat: &str, i: usize, n: usize, m: usize) -> (r: bool)
    requires
        n == s@.len(),
        m == pat@.len(),
        i + m <= n,
    ensures
        r == is_match_at(s@, pat@, i as int),
{
    let mut k: usize = 0;
    while k < m
        invariant
            k <= m,
            i + m <= n,
            n == s@.len(),
            m == pat@.len(),
            forall|j: int| 0 <= j < k ==> s@[i + j] == pat@[j],
        decreases m - k,
    {
        if s.get_char(i + k) != pat.get_char(k) {
            proof {
                assert(s@.subrange(i as int, i + m as int)[k as int] != pat@[k as int]);
            }
            return false;
        }
        k = k + 1;
    }
    proof {
        assert(s@.subrange(i as int, i + m as int) =~= pat@);
    }
    true
}

/// The position of the first occurrence of `pat` in `s`, if any.
pub fn find_first_match(s: &str, pat: &str) -> (r: Option<usize>)
    ensures
        match r {
            Some(i) => i as int == first_match_from(s@, pat@, 0) && is_match_at(
                s@,
                pat@,
                i as int,
            ),
            None => first_match_from(s@, pat@, 0) < 0,
        },
{
    let n = s.unicode_len();
    let m = pat.unicode_len();
    if m > n {
        proof {
            assert forall|j: int| 0 <= j < s@.len() + 1 implies !is_match_at(s@, pat@, j) by {}
            lemma_first_match_from_none(s@, pat@, 0);
        }
        return None;
    }
    if m == 0 {
        proof {
            assert(s@.subrange(0, 0) =~= pat@);
            assert(is_match_at(s@, pat@, 0));
            lemma_first_match_from_step(s@, pat@, 0, 0);
        }
        return Some(0);
    }
    let mut i: usize = 0;
    while i <= n - m
        invariant
            0 < m <= n,
            i <= n - m + 1,
            n == s@.len(),
            m == pat@.len(),
            forall|j: int| 0 <= j < i ==> !is_match_at(s@, pat@, j),
        decreases n - i,
    {
        if match_at(s, pat, i, n, m) {
            proof {
                lemma_first_match_from_step(s@, pat@, 0, i as int);
            }
            return Some(i);
        }
        i = i + 1;
    }
    proof {
        assert forall|j: int| 0 <= j < s@.len() + 1 implies !is_match_at(s@, pat@, j) by {}
        lemma_first_match_from_none(s@, pat@, 0);
    }
    None
}

/// `s` with every occurrence of `pat` replaced by `to`, left to right and
/// without overlap; a copy of `s` when `pat` does not occur or is empty.
pub fn replace_all(s: &str, pat: &str, to: &str) -> (r: String)
    ensures
        r@ == spec_replace_all(s@, pat@, to@),
    decreases s@.len(),
{
    let n = s.unicode_len();
    let m = pat.unicode_len();
    if m == 0 {
        return s.to_owned();
    }
    match find_first_match(s, pat) {
        Some(i) => {
            let suffix = s.substring_char(i + m, n);
            let rest = replace_all(suffix, pat, to);
            let r = s.substring_char(0, i).to_owned().concat(to).concat(rest.as_str());
            proof {
                assert(r@ =~= spec_replace_all(s@, pat@, to@));
            }
            r
        },
        None => s.to_owned(),
    }
}

/// The segments of `s` between newline characters, in order. A text without
/// a newline is one segment; each newline closes a segment, so a trailing
/// newline yields a final empty segment.
pub open spec fn split_newlines(s: Seq<char>) -> Seq<Seq<char>>
    decreases s.len(),
{
    if s.len() == 0 {
        seq![Seq::<char>::empty()]
    } else if s[0] == '\n' {
        seq![Seq::<char>::empty()] + split_newlines(s.drop_first())
    } else {
        let r = split_newlines(s.drop_first());
        seq![seq![s[0]] + r[0]] + r.drop_first()
    }
}

pub proof fn lemma_split_newlines_len(s: Seq<char>)
    ensures
        split_newlines(s).len() >= 1,
    decreases s.len(),
{
    if s.len() != 0 {
        lemma_split_newlines_len(s.drop_first());
    }
}

/// The segments of `s` between newline characters, as owned strings.
pub fn split_newlines_exec(s: &str) -> (r: Vec<String>)
    ensures
        r.deep_view() == split_newlines(s@),
        r.len() >= 1,
{
    let n = s.unicode_len();
    let mut r: Vec<String> = Vec::new();
    r.push(String::new());
    let mut i = n;
    proof {
        assert(s@.subrange(n as int, n as int) =~= Seq::<char>::empty());
        assert(r.deep_view() =~= split_newlines(s@.subrange(n as int, n as int)));
    }
    while i > 0
        invariant
            i <= n,
            n as int == s@.len(),
            r.len() >= 1,
            r.deep_view() == split_newlines(s@.subrange(i as int, n as int)),
        decreases i,
    {
        i = i - 1;
        let c = s.get_char(i);
        let ghost tail = s@.subrange(i as int + 1, n as int);
        let ghost cur = s@.subrange(i as int, n as int);
        proof {
            assert(cur[0] == s@[i as int]);
            assert(cur.drop_first() =~= tail);
            lemma_split_newlines_len(tail);
        }
        if c == '\n' {
            r.insert(0, String::new());
            proof {
                assert(r.deep_view() =~= split_newlines(cur));
            }
        } else {
            let mut f = String::new();
            push_char(&mut f, c);
            let f = f.concat(r[0].as_str());
            r.set(0, f);
            proof {
                assert(r.deep_view()[0] =~= seq![s@[i as int]] + split_newlines(tail)[0]);
                assert(r.deep_view() =~= split_newlines(cur));
            }
        }
    }
    proof {
        assert(s@.subrange(0, n as int) =~= s@);
    }
    r
}

/// The texts of `parts`, joined with a newline between consecutive parts.
pub open spec fn join_newlines(parts: Seq<Seq<char>>) -> Seq<char>
    decreases parts.len(),
{
    if parts.len() == 0 {
        Seq::empty()
    } else if parts.len() == 1 {
        parts[0]
    } else {
        parts[0] + seq!['\n'] + join_newlines(parts.drop_first())
    }
}

/// The strings of `parts`, joined with a newline between consecutive parts.
pub fn join_newlines_exec(parts: &Vec<String>) -> (r: String)
    ensures
        r@ == join_newlines(parts.deep_view()),
{
    let mut r = String::new();
    let n = parts.len();
    if n == 0 {
        return r;
    }
    let mut i: usize = 0;
    proof {
        assert(parts.deep_view().subrange(0, n as int) =~= parts.deep_view());
    }
    while i < n
        invariant
            i <= n,
            n == parts.len(),
            i < n ==> r@ + join_newlines(parts.deep_view().subrange(i as int, n as int))
                == join_newlines(parts.deep_view()),
            i == n ==> r@ == join_newlines(parts.deep_view()),
        decreases n - i,
    {
        let ghost rest = parts.deep_view().subrange(i as int, n as int);
        r.append(parts[i].as_str());
        if i + 1 < n {
            push_char(&mut r, '\n');
        }
        proof {
            assert(rest[0] == parts.deep_view()[i as int]);
            if i + 1 < n {
                assert(rest.drop_first() =~= parts.deep_view().subrange(i as int + 1, n as int));
                assert(rest.len() >= 2);
                assert(join_newlines(rest) == rest[0] + seq!['\n'] + join_newlines(
                    rest.drop_first(),
                ));
            } else {
                assert(rest.len() == 1);
            }
        }
        i = i + 1;
    }
    r
}

} // verus!
