use vstd::prelude::*;

verus! {

/// The characters with Unicode's White_Space property.
pub open spec fn white_space(c: char) -> bool {
    let u = c as u32;
    (0x9 <= u && u <= 0xd) || u == 0x20 || u == 0x85 || u == 0xa0 || u == 0x1680 || (0x2000 <= u
        && u <= 0x200a) || u == 0x2028 || u == 0x2029 || u == 0x202f || u == 0x205f || u == 0x3000
}

/// The characters trimmed: white space when `ws`, else the slash.
pub open spec fn trimmed(c: char, ws: bool) -> bool {
    if ws {
        white_space(c)
    } else {
        c == '/'
    }
}

/// `s` without its leading trimmed characters.
pub open spec fn strip_front(s: Seq<char>, ws: bool) -> Seq<char>
    decreases s.len(),
{
    if s.len() > 0 && trimmed(s[0], ws) {
        strip_front(s.drop_first(), ws)
    } else {
        s
    }
}

/// `s` without its trailing trimmed characters.
pub open spec fn strip_back(s: Seq<char>, ws: bool) -> Seq<char>
    decreases s.len(),
{
    if s.len() > 0 && trimmed(s.last(), ws) {
        strip_back(s.drop_last(), ws)
    } else {
        s
    }
}

/// `s` without its leading and trailing trimmed characters.
pub open spec fn trim_by(s: Seq<char>, ws: bool) -> Seq<char> {
    strip_back(strip_front(s, ws), ws)
}

/// The key under which a path given at creation is stored: white space
/// trimmed first, then slashes.
pub open spec fn path_key(s: Seq<char>) -> Seq<char> {
    trim_by(trim_by(s, true), false)
}

/// The key that a request path resolves: slashes trimmed.
pub open spec fn request_key(s: Seq<char>) -> Seq<char> {
    trim_by(s, false)
}

/// Splits `s` at its first colon.
pub open spec fn credentials(s: Seq<char>) -> Option<(Seq<char>, Seq<char>)>
    decreases s.len(),
{
    if s.len() == 0 {
        None
    } else if s[0] == ':' {
        Some((Seq::empty(), s.drop_first()))
    } else {
        match credentials(s.drop_first()) {
            Some((u, p)) => Some((seq![s[0]] + u, p)),
            None => None,
        }
    }
}

pub open spec fn has_colon(s: Seq<char>) -> bool {
    exists|i: int| 0 <= i < s.len() && s[i] == ':'
}

/// The scheme prefix of a basic credential header.
pub open spec fn basic_prefix() -> Seq<char> {
    seq!['B', 'a', 's', 'i', 'c', ' ']
}

pub open spec fn has_basic_prefix(s: Seq<char>) -> bool {
    s.len() >= 6 && s.subrange(0, 6) == basic_prefix()
}

pub fn is_white_space(c: char) -> (r: bool)
    ensures
        r == white_space(c),
{
    let u = c as u32;
    (0x9 <= u && u <= 0xd) || u == 0x20 || u == 0x85 || u == 0xa0 || u == 0x1680 || (0x2000 <= u
        && u <= 0x200a) || u == 0x2028 || u == 0x2029 || u == 0x202f || u == 0x205f || u == 0x3000
}

fn is_trimmed(c: char, ws: bool) -> (r: bool)
    ensures
        r == trimmed(c, ws),
{
    if ws {
        is_white_space(c)
    } else {
        c == '/'
    }
}

/// Removes the trimmed characters at both ends of `s`.
pub fn trim_chars(s: &str, ws: bool) -> (r: String)
    ensures
        r@ == trim_by(s@, ws),
{
    let n = s.unicode_len();
    let mut lo: usize = 0;
    assert(s@.subrange(0, n as int) =~= s@);
    while lo < n && is_trimmed(s.get_char(lo), ws)
        invariant
            n == s@.len(),
            lo <= n,
            strip_front(s@, ws) == strip_front(s@.subrange(lo as int, n as int), ws),
        decreases n - lo,
    {
        assert(s@.subrange(lo as int, n as int).drop_first() =~= s@.subrange(
            lo as int + 1,
            n as int,
        ));
        lo = lo + 1;
    }
    assert(strip_front(s@, ws) == s@.subrange(lo as int, n as int));
    let mut hi: usize = n;
    assert(trim_by(s@, ws) == strip_back(s@.subrange(lo as int, n as int), ws));
    while hi > lo && is_trimmed(s.get_char(hi - 1), ws)
        invariant
            n == s@.len(),
            lo <= hi <= n,
            trim_by(s@, ws) == strip_back(s@.subrange(lo as int, hi as int), ws),
        decreases hi,
    {
        assert(s@.subrange(lo as int, hi as int).drop_last() =~= s@.subrange(
            lo as int,
            hi as int - 1,
        ));
        hi = hi - 1;
    }
    String::from_str(s.substring_char(lo, hi))
}

/// Normalises a path given at creation into its stored key.
pub fn normalize_path(path: &str) -> (r: String)
    ensures
        r@ == path_key(path@),
{
    let t = trim_chars(path, true);
    trim_chars(t.as_str(), false)
}

/// The key that a request path resolves.
pub fn request_path_key(full_path: &str) -> (r: String)
    ensures
        r@ == request_key(full_path@),
{
    trim_chars(full_path, false)
}

pub proof fn lemma_credentials_split(u: Seq<char>, p: Seq<char>)
    requires
        !has_colon(u),
    ensures
        credentials(u + seq![':'] + p) == Some((u, p)),
    decreases u.len(),
{
    let s = u + seq![':'] + p;
    if u.len() == 0 {
        assert(s.drop_first() =~= p);
        assert(u =~= Seq::<char>::empty());
    } else {
        assert(u[0] != ':');
        let t = u.drop_first();
        assert(!has_colon(t)) by {
            if has_colon(t) {
                let i = choose|i: int| 0 <= i < t.len() && t[i] == ':';
                assert(u[i + 1] == ':');
            }
        }
        assert(s.drop_first() =~= t + seq![':'] + p);
        lemma_credentials_split(t, p);
        assert(seq![u[0]] + t =~= u);
    }
}

pub proof fn lemma_credentials_none(s: Seq<char>)
    requires
        !has_colon(s),
    ensures
        credentials(s) is None,
    decreases s.len(),
{
    if s.len() > 0 {
        assert(s[0] != ':');
        let t = s.drop_first();
        assert(!has_colon(t)) by {
            if has_colon(t) {
                let i = choose|i: int| 0 <= i < t.len() && t[i] == ':';
                assert(s[i + 1] == ':');
            }
        }
        lemma_credentials_none(t);
    }
}

/// Splits `s` at its first colon into user name and password.
pub fn split_credentials(s: &str) -> (r: Option<(String, String)>)
    ensures
        r is None <==> credentials(s@) is None,
        r matches Some((u, p)) ==> credentials(s@) == Some((u@, p@)),
{
    let n = s.unicode_len();
    let mut i: usize = 0;
    while i < n
        invariant
            n == s@.len(),
            i <= n,
            forall|k: int| 0 <= k < i ==> s@[k] != ':',
        decreases n - i,
    {
        if s.get_char(i) == ':' {
            let u = String::from_str(s.substring_char(0, i));
            let p = String::from_str(s.substring_char(i + 1, n));
            proof {
                assert(!has_colon(u@));
                assert(s@ =~= u@ + seq![':'] + p@);
                lemma_credentials_split(u@, p@);
            }
            return Some((u, p));
        }
        i = i + 1;
    }
    proof {
        lemma_credentials_none(s@);
    }
    None
}

/// The text after the `Basic ` scheme prefix, if `s` starts with it.
pub fn strip_basic_prefix(s: &str) -> (r: Option<String>)
    ensures
        r is Some <==> has_basic_prefix(s@),
        r matches Some(t) ==> t@ == s@.subrange(6, s@.len() as int),
{
    let n = s.unicode_len();
    if n < 6 {
        return None;
    }
    if s.get_char(0) == 'B' && s.get_char(1) == 'a' && s.get_char(2) == 's' && s.get_char(3) == 'i'
        && s.get_char(4) == 'c' && s.get_char(5) == ' ' {
        assert(s@.subrange(0, 6) =~= basic_prefix());
        Some(String::from_str(s.substring_char(6, n)))
    } else {
        proof {
            if has_basic_prefix(s@) {
                assert(s@[0] == s@.subrange(0, 6)[0]);
                assert(s@[1] == s@.subrange(0, 6)[1]);
                assert(s@[2] == s@.subrange(0, 6)[2]);
                assert(s@[3] == s@.subrange(0, 6)[3]);
                assert(s@[4] == s@.subrange(0, 6)[4]);
                assert(s@[5] == s@.subrange(0, 6)[5]);
            }
        }
        None
    }
}

proof fn lemma_strip_front_head(s: Seq<char>, ws: bool)
    ensures
        strip_front(s, ws).len() == 0 || !trimmed(strip_front(s, ws)[0], ws),
    decreases s.len(),
{
    if s.len() > 0 && trimmed(s[0], ws) {
        lemma_strip_front_head(s.drop_first(), ws);
    }
}

proof fn lemma_strip_back_prefix(s: Seq<char>, ws: bool)
    ensures
        strip_back(s, ws).len() <= s.len(),
        strip_back(s, ws) == s.subrange(0, strip_back(s, ws).len() as int),
        strip_back(s, ws).len() == 0 || !trimmed(strip_back(s, ws).last(), ws),
    decreases s.len(),
{
    if s.len() > 0 && trimmed(s.last(), ws) {
        lemma_strip_back_prefix(s.drop_last(), ws);
        let b = strip_back(s.drop_last(), ws);
        assert(s.drop_last().subrange(0, b.len() as int) =~= s.subrange(0, b.len() as int));
    } else {
        assert(s.subrange(0, s.len() as int) =~= s);
    }
}

/// Trimmed text neither starts nor ends with a trimmed character.
pub proof fn lemma_trim_by_ends(s: Seq<char>, ws: bool)
    ensures
        trim_by(s, ws).len() == 0 || (!trimmed(trim_by(s, ws)[0], ws) && !trimmed(
            trim_by(s, ws).last(),
            ws,
        )),
{
    let f = strip_front(s, ws);
    lemma_strip_front_head(s, ws);
    lemma_strip_back_prefix(f, ws);
    let b = strip_back(f, ws);
    if b.len() > 0 {
        assert(b[0] == f.subrange(0, b.len() as int)[0]);
    }
}

} // verus!
