//! Verified helpers on paths and strings: comparison, suffix/prefix tests,
//! file-name extraction, path join, and decimal rendering of integers.

use vstd::prelude::*;

verus! {

/// Character-wise equality of two string slices.
pub fn str_eq(a: &str, b: &str) -> (r: bool)
    ensures
        r == (a@ == b@),
{
    let alen: usize = a.unicode_len();
    let blen: usize = b.unicode_len();
    if alen != blen {
        assert(a@ != b@) by {
            assert(a@.len() != b@.len());
        }
        return false;
    }
    let mut i: usize = 0;
    while i < alen
        invariant
            alen == a@.len(),
            alen == b@.len(),
            i <= alen,
            forall|j: int| 0 <= j < i ==> a@[j] == b@[j],
        decreases alen - i,
    {
        if a.get_char(i) != b.get_char(i) {
            return false;
        }
        i = i + 1;
    }
    proof {
        assert(a@ =~= b@);
    }
    true
}

/// Does `s` start with the prefix `p`?
pub open spec fn spec_starts_with(s: Seq<char>, p: Seq<char>) -> bool {
    s.len() >= p.len() && s.subrange(0, p.len() as int) == p
}

pub fn starts_with(s: &str, p: &str) -> (r: bool)
    ensures
        r == spec_starts_with(s@, p@),
{
    let slen: usize = s.unicode_len();
    let plen: usize = p.unicode_len();
    if slen < plen {
        return false;
    }
    let mut i: usize = 0;
    while i < plen
        invariant
            slen == s@.len(),
            plen == p@.len(),
            plen <= slen,
            i <= plen,
            forall|j: int| 0 <= j < i ==> s@[j] == p@[j],
        decreases plen - i,
    {
        if s.get_char(i) != p.get_char(i) {
            assert(s@.subrange(0, plen as int)[i as int] != p@[i as int]);
            return false;
        }
        i = i + 1;
    }
    proof {
        assert(s@.subrange(0, plen as int) =~= p@);
    }
    true
}

/// `s` with every trailing `/` removed.
pub open spec fn spec_trim_end_slashes(s: Seq<char>) -> Seq<char>
    decreases s.len(),
{
    if s.len() > 0 && s.last() == '/' {
        spec_trim_end_slashes(s.drop_last())
    } else {
        s
    }
}

pub fn trim_end_slashes(s: &str) -> (r: String)
    ensures
        r@ == spec_trim_end_slashes(s@),
{
    let len: usize = s.unicode_len();
    let mut e: usize = len;
    proof {
        assert(s@.subrange(0, len as int) =~= s@);
    }
    while e > 0 && s.get_char(e - 1) == '/'
        invariant
            len == s@.len(),
            e <= len,
            spec_trim_end_slashes(s@) == spec_trim_end_slashes(s@.subrange(0, e as int)),
        decreases e,
    {
        proof {
            let q = s@.subrange(0, e as int);
            assert(q.drop_last() =~= s@.subrange(0, e - 1));
        }
        e = e - 1;
    }
    proof {
        let q = s@.subrange(0, e as int);
        if e > 0 {
            assert(q.last() != '/');
        }
    }
    let r = s.substring_char(0, e);
    r.to_owned()
}

/// The suffix of `q` after its last `/`; all of `q` when it has none.
pub open spec fn spec_after_last_slash(q: Seq<char>) -> Seq<char>
    decreases q.len(),
{
    if q.len() == 0 {
        q
    } else if q.last() == '/' {
        Seq::empty()
    } else {
        spec_after_last_slash(q.drop_last()).push(q.last())
    }
}

/// The final path component: trailing slashes are ignored, so `/a/b` and
/// `/a/b/` both yield `b`, and `/` yields the empty string.
pub open spec fn spec_file_name(p: Seq<char>) -> Seq<char> {
    spec_after_last_slash(spec_trim_end_slashes(p))
}

pub fn file_name(path: &str) -> (r: String)
    ensures
        r@ == spec_file_name(path@),
{
    let t = trim_end_slashes(path);
    let tlen: usize = t.as_str().unicode_len();
    let mut i: usize = tlen;
    proof {
        assert(t@.subrange(0, tlen as int) =~= t@);
        assert(t@.subrange(tlen as int, tlen as int) =~= Seq::<char>::empty());
        assert(spec_after_last_slash(t@) =~= spec_after_last_slash(t@) + t@.subrange(
            tlen as int,
            tlen as int,
        ));
    }
    while i > 0 && t.as_str().get_char(i - 1) != '/'
        invariant
            tlen == t@.len(),
            i <= tlen,
            forall|j: int| i <= j < tlen ==> t@[j] != '/',
            spec_after_last_slash(t@) == spec_after_last_slash(t@.subrange(0, i as int)) + t@.subrange(
                i as int,
                tlen as int,
            ),
        decreases i,
    {
        proof {
            let q = t@.subrange(0, i as int);
            assert(q.drop_last() =~= t@.subrange(0, i - 1));
            assert(spec_after_last_slash(q) == spec_after_last_slash(q.drop_last()).push(q.last()));
            assert(spec_after_last_slash(q.drop_last()) + t@.subrange(i - 1, tlen as int)
                =~= spec_after_last_slash(q) + t@.subrange(i as int, tlen as int));
        }
        i = i - 1;
    }
    proof {
        let q = t@.subrange(0, i as int);
        if i > 0 {
            assert(q.last() == '/');
            assert(spec_after_last_slash(q) == Seq::<char>::empty());
        } else {
            assert(q =~= Seq::<char>::empty());
        }
        assert(spec_after_last_slash(t@) =~= t@.subrange(i as int, tlen as int));
    }
    let r = t.as_str().substring_char(i, tlen);
    r.to_owned()
}

/// Join a directory path and a child name with exactly one `/` between them.
pub open spec fn spec_join_path(parent: Seq<char>, name: Seq<char>) -> Seq<char> {
    if parent.len() > 0 && parent.last() == '/' {
        parent + name
    } else {
        parent + seq!['/'] + name
    }
}

pub fn join_path(parent: &str, name: &str) -> (r: String)
    ensures
        r@ == spec_join_path(parent@, name@),
{
    let plen: usize = parent.unicode_len();
    let mut out = parent.to_owned();
    if plen == 0 || parent.get_char(plen - 1) != '/' {
        out.append("/");
        proof {
            reveal_strlit("/");
            assert(out@ =~= parent@ + seq!['/']);
        }
    }
    out.append(name);
    proof {
        if parent@.len() > 0 && parent@.last() == '/' {
            assert(out@ =~= parent@ + name@);
        } else {
            assert(out@ =~= parent@ + seq!['/'] + name@);
        }
    }
    out
}

/// Is there a `/` anywhere in `s`?
pub fn contains_slash(s: &str) -> (r: bool)
    ensures
        r == (exists|j: int| 0 <= j < s@.len() && s@[j] == '/'),
{
    let len: usize = s.unicode_len();
    let mut i: usize = 0;
    while i < len
        invariant
            len == s@.len(),
            i <= len,
            forall|j: int| 0 <= j < i ==> s@[j] != '/',
        decreases len - i,
    {
        if s.get_char(i) == '/' {
            return true;
        }
        i = i + 1;
    }
    false
}

/// The decimal digit character for `d`.
pub open spec fn spec_digit_char(d: nat) -> char {
    if d == 0 { '0' }
    else if d == 1 { '1' }
    else if d == 2 { '2' }
    else if d == 3 { '3' }
    else if d == 4 { '4' }
    else if d == 5 { '5' }
    else if d == 6 { '6' }
    else if d == 7 { '7' }
    else if d == 8 { '8' }
    else { '9' }
}

/// The usual decimal rendering of `n`, with no leading zeros.
pub open spec fn spec_dec(n: nat) -> Seq<char>
    decreases n,
{
    if n < 10 {
        seq![spec_digit_char(n)]
    } else {
        spec_dec(n / 10).push(spec_digit_char(n % 10))
    }
}

fn digit_str(d: u64) -> (r: &'static str)
    requires
        d < 10,
    ensures
        r@ == seq![spec_digit_char(d as nat)],
{
    proof {
        reveal_strlit("0");
        reveal_strlit("1");
        reveal_strlit("2");
        reveal_strlit("3");
        reveal_strlit("4");
        reveal_strlit("5");
        reveal_strlit("6");
        reveal_strlit("7");
        reveal_strlit("8");
        reveal_strlit("9");
    }
    let r = if d == 0 { "0" }
        else if d == 1 { "1" }
        else if d == 2 { "2" }
        else if d == 3 { "3" }
        else if d == 4 { "4" }
        else if d == 5 { "5" }
        else if d == 6 { "6" }
        else if d == 7 { "7" }
        else if d == 8 { "8" }
        else { "9" };
    proof {
        assert(r@ =~= seq![spec_digit_char(d as nat)]);
    }
    r
}

/// Render `n` in decimal.
pub fn u64_to_dec(n: u64) -> (r: String)
    ensures
        r@ == spec_dec(n as nat),
    decreases n,
{
    if n < 10 {
        digit_str(n).to_owned()
    } else {
        let mut s = u64_to_dec(n / 10);
        s.append(digit_str(n % 10));
        proof {
            assert(s@ =~= spec_dec((n / 10) as nat).push(spec_digit_char((n % 10) as nat)));
        }
        s
    }
}

} // verus!
