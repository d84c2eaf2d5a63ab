//! Character-level helpers shared by the rest of the crate.

use vstd::prelude::*;

verus! {

broadcast use vstd::string::group_string_axioms;

/// The characters `char::is_whitespace` accepts: ASCII space and the C0
/// controls `\t` to `\r`, plus the Unicode `White_Space` characters above
/// U+007F.
pub open spec fn is_space(c: char) -> bool {
    let u = c as u32;
    ||| u == 0x20
    ||| (0x09 <= u && u <= 0x0d)
    ||| u == 0x85
    ||| u == 0xa0
    ||| u == 0x1680
    ||| (0x2000 <= u && u <= 0x200a)
    ||| u == 0x2028
    ||| u == 0x2029
    ||| u == 0x202f
    ||| u == 0x205f
    ||| u == 0x3000
}

/// Whether `c` is whitespace.
pub fn char_is_space(c: char) -> (r: bool)
    ensures
        r == is_space(c),
{
    let u = c as u32;
    u == 0x20 || (0x09 <= u && u <= 0x0d) || u == 0x85 || u == 0xa0 || u == 0x1680 || (0x2000
        <= u && u <= 0x200a) || u == 0x2028 || u == 0x2029 || u == 0x202f || u == 0x205f || u
        == 0x3000
}

/// The characters of a string slice, in order.
pub fn chars_of(s: &str) -> (v: Vec<char>)
    ensures
        v@ == s@,
{
    let mut v: Vec<char> = Vec::new();
    for c in it: s.chars()
        invariant
            v@ == it.seq().take(it.index() as int),
    {
        v.push(c);
    }
    v
}

/// Whether two strings hold the same characters.
pub fn same_text(a: &str, b: &str) -> (r: bool)
    ensures
        r == (a@ == b@),
{
    let x = chars_of(a);
    let y = chars_of(b);
    if x.len() != y.len() {
        return false;
    }
    let mut i: usize = 0;
    while i < x.len()
        invariant
            x@ == a@,
            y@ == b@,
            x@.len() == y@.len(),
            i <= x@.len(),
            forall|j: int| 0 <= j < i ==> x@[j] == y@[j],
        decreases x@.len() - i,
    {
        if x[i] != y[i] {
            assert(x@[i as int] != y@[i as int]);
            return false;
        }
        i += 1;
    }
    assert(x@ =~= y@);
    true
}

/// Whether `v` begins with `p`.
pub fn begins_with(v: &[char], p: &[char]) -> (r: bool)
    ensures
        r == (p@.len() <= v@.len() && v@.take(p@.len() as int) == p@),
{
    if p.len() > v.len() {
        return false;
    }
    let mut i: usize = 0;
    while i < p.len()
        invariant
            p@.len() <= v@.len(),
            i <= p@.len(),
            forall|j: int| 0 <= j < i ==> v@[j] == p@[j],
        decreases p@.len() - i,
    {
        if v[i] != p[i] {
            assert(v@.take(p@.len() as int)[i as int] != p@[i as int]);
            return false;
        }
        i += 1;
    }
    assert(v@.take(p@.len() as int) =~= p@);
    true
}

/// Appends one character to a string, through `String::push`. Trusted: the
/// contract claims that the string afterwards is the string before with `c`
/// added at the end, as the method's documentation says.
#[verifier::external_body]
pub(crate) fn push_char(s: &mut String, c: char)
    ensures
        final(s)@ == old(s)@.push(c),
{
    s.push(c);
}

/// The string whose characters are `v`.
pub fn string_of(v: &[char]) -> (s: String)
    ensures
        s@ == v@,
{
    let mut s = String::new();
    let mut i: usize = 0;
    while i < v.len()
        invariant
            i <= v@.len(),
            s@ == v@.take(i as int),
        decreases v@.len() - i,
    {
        push_char(&mut s, v[i]);
        i += 1;
        assert(s@ =~= v@.take(i as int));
    }
    assert(v@.take(i as int) =~= v@);
    s
}

/// `s` followed by `t`.
pub fn concat(s: &str, t: &str) -> (r: String)
    ensures
        r@ == s@ + t@,
{
    let mut r = String::from_str(s);
    r.append(t);
    r
}

/// Text from bytes, when the bytes are UTF-8, through `String::from_utf8`.
/// Trusted: the contract claims that it succeeds exactly when the bytes are
/// valid UTF-8 (as vstd's `valid_utf8` defines it) and then holds the
/// characters they encode (as vstd's `decode_utf8` defines them).
#[verifier::external_body]
pub(crate) fn string_from_utf8(bytes: Vec<u8>) -> (r: Option<String>)
    ensures
        r is Some <==> vstd::utf8::valid_utf8(bytes@),
        r matches Some(t) ==> t@ == vstd::utf8::decode_utf8(bytes@),
{
    String::from_utf8(bytes).ok()
}

/// A string slice over bytes, when the bytes are UTF-8, through
/// `std::str::from_utf8`. Trusted: the same claim as for `string_from_utf8`.
#[verifier::external_body]
pub(crate) fn str_from_utf8(bytes: &[u8]) -> (r: Option<&str>)
    ensures
        r is Some <==> vstd::utf8::valid_utf8(bytes@),
        r matches Some(t) ==> t@ == vstd::utf8::decode_utf8(bytes@),
{
    std::str::from_utf8(bytes).ok()
}

/// The character for a decimal digit.
pub open spec fn digit_char(d: nat) -> char {
    if d == 0 {
        '0'
    } else if d == 1 {
        '1'
    } else if d == 2 {
        '2'
    } else if d == 3 {
        '3'
    } else if d == 4 {
        '4'
    } else if d == 5 {
        '5'
    } else if d == 6 {
        '6'
    } else if d == 7 {
        '7'
    } else if d == 8 {
        '8'
    } else {
        '9'
    }
}

/// The decimal digits of `n`, most significant first, with no leading zero.
pub open spec fn digits(n: nat) -> Seq<char>
    decreases n,
{
    if n < 10 {
        seq![digit_char(n)]
    } else {
        digits(n / 10).push(digit_char(n % 10))
    }
}

/// How `Display` writes an integer: a `-` for a negative one, then its digits.
pub open spec fn decimal(n: int) -> Seq<char> {
    if n < 0 {
        seq!['-'] + digits((-n) as nat)
    } else {
        digits(n as nat)
    }
}

fn digit(d: u64) -> (c: char)
    requires
        d < 10,
    ensures
        c == digit_char(d as nat),
{
    if d == 0 {
        '0'
    } else if d == 1 {
        '1'
    } else if d == 2 {
        '2'
    } else if d == 3 {
        '3'
    } else if d == 4 {
        '4'
    } else if d == 5 {
        '5'
    } else if d == 6 {
        '6'
    } else if d == 7 {
        '7'
    } else if d == 8 {
        '8'
    } else {
        '9'
    }
}

/// `n` written in decimal.
pub fn decimal_u64(n: u64) -> (s: String)
    ensures
        s@ == digits(n as nat),
    decreases n,
{
    if n < 10 {
        let mut s = String::new();
        push_char(&mut s, digit(n));
        s
    } else {
        let mut s = decimal_u64(n / 10);
        push_char(&mut s, digit(n % 10));
        s
    }
}

/// `n` written in decimal, with a sign when it is negative.
pub fn decimal_i32(n: i32) -> (s: String)
    ensures
        s@ == decimal(n as int),
{
    if n < 0 {
        let m: i64 = -(n as i64);
        let d = decimal_u64(m as u64);
        proof {
            reveal_strlit("-");
        }
        assert("-"@ =~= seq!['-']);
        concat("-", d.as_str())
    } else {
        decimal_u64(n as u64)
    }
}

/// Whether `needle` occurs in `hay` as a contiguous run.
pub open spec fn occurs(hay: Seq<char>, needle: Seq<char>) -> bool {
    exists|i: int|
        0 <= i && i + needle.len() <= hay.len() && #[trigger] hay.subrange(i, i + needle.len())
            == needle
}

/// Whether `needle` occurs in `hay`.
pub fn contains(hay: &str, needle: &str) -> (r: bool)
    ensures
        r == occurs(hay@, needle@),
{
    let h = chars_of(hay);
    let n = chars_of(needle);
    let hl = h.len();
    let nl = n.len();
    if nl > hl {
        return false;
    }
    let mut i: usize = 0;
    while i <= hl - nl
        invariant
            nl <= hl,
            hl == h@.len(),
            nl == n@.len(),
            h@ == hay@,
            n@ == needle@,
            i <= hl - nl + 1,
            forall|j: int| 0 <= j < i ==> #[trigger] h@.subrange(j, j + nl) != n@,
        decreases hl - i,
    {
        let mut k: usize = 0;
        while k < nl && h[i + k] == n[k]
            invariant
                k <= nl,
                i + nl <= hl,
                hl == h@.len(),
                nl == n@.len(),
                forall|m: int| 0 <= m < k ==> h@[i + m] == n@[m],
            decreases nl - k,
        {
            k += 1;
        }
        if k == nl {
            assert(h@.subrange(i as int, i + nl) =~= n@);
            return true;
        }
        assert(h@.subrange(i as int, i + nl)[k as int] != n@[k as int]);
        i += 1;
    }
    false
}

/// `s` without leading whitespace.
pub open spec fn trim_start(s: Seq<char>) -> Seq<char>
    decreases s.len(),
{
    if s.len() > 0 && is_space(s[0]) {
        trim_start(s.drop_first())
    } else {
        s
    }
}

/// `s` without trailing whitespace.
pub open spec fn trim_end(s: Seq<char>) -> Seq<char>
    decreases s.len(),
{
    if s.len() > 0 && is_space(s.last()) {
        trim_end(s.drop_last())
    } else {
        s
    }
}

/// `str::trim`: `s` without leading or trailing whitespace.
pub open spec fn trim(s: Seq<char>) -> Seq<char> {
    trim_end(trim_start(s))
}

/// Trimming keeps a contiguous run of the text: `trim(s)` is `s[a..b]`.
pub proof fn lemma_trim_within(s: Seq<char>) -> (r: (int, int))
    ensures
        0 <= r.0 <= r.1 <= s.len(),
        trim(s) == s.subrange(r.0, r.1),
{
    let a = lemma_trim_start_within(s);
    let t = s.skip(a);
    let b = lemma_trim_end_within(t);
    assert(t.take(b) =~= s.subrange(a, a + b));
    (a, a + b)
}

proof fn lemma_trim_start_within(s: Seq<char>) -> (a: int)
    ensures
        0 <= a <= s.len(),
        trim_start(s) == s.skip(a),
    decreases s.len(),
{
    if s.len() > 0 && is_space(s[0]) {
        let j = lemma_trim_start_within(s.drop_first());
        assert(s.drop_first().skip(j) =~= s.skip(j + 1));
        j + 1
    } else {
        assert(s.skip(0) =~= s);
        0
    }
}

proof fn lemma_trim_end_within(s: Seq<char>) -> (b: int)
    ensures
        0 <= b <= s.len(),
        trim_end(s) == s.take(b),
    decreases s.len(),
{
    if s.len() > 0 && is_space(s.last()) {
        let j = lemma_trim_end_within(s.drop_last());
        assert(s.drop_last().take(j) =~= s.take(j));
        j
    } else {
        assert(s.take(s.len() as int) =~= s);
        s.len() as int
    }
}

/// Text holding a character that is not whitespace does not trim to nothing.
pub proof fn lemma_trim_nonempty(s: Seq<char>, i: int)
    requires
        0 <= i < s.len(),
        !is_space(s[i]),
    ensures
        trim(s).len() > 0,
{
    lemma_trim_start_keeps(s, i);
    lemma_trim_end_keeps(trim_start(s));
}

proof fn lemma_trim_start_keeps(s: Seq<char>, i: int)
    requires
        0 <= i < s.len(),
        !is_space(s[i]),
    ensures
        trim_start(s).len() > 0,
        !is_space(trim_start(s)[0]),
    decreases s.len(),
{
    if is_space(s[0]) {
        lemma_trim_start_keeps(s.drop_first(), i - 1);
    }
}

proof fn lemma_trim_end_keeps(s: Seq<char>)
    requires
        s.len() > 0,
        !is_space(s[0]),
    ensures
        trim_end(s).len() > 0,
    decreases s.len(),
{
    if is_space(s.last()) {
        lemma_trim_end_keeps(s.drop_last());
    }
}

/// A run that occurs in part of a text occurs in the text.
pub proof fn lemma_occurs_within(s: Seq<char>, a: int, b: int, needle: Seq<char>)
    requires
        0 <= a <= b <= s.len(),
        occurs(s.subrange(a, b), needle),
    ensures
        occurs(s, needle),
{
    let part = s.subrange(a, b);
    let i = choose|i: int|
        0 <= i && i + needle.len() <= part.len() && #[trigger] part.subrange(i, i + needle.len())
            == needle;
    assert(s.subrange(a + i, a + i + needle.len()) =~= part.subrange(i, i + needle.len()));
}

/// The bounds of `v[lo..hi]` with whitespace trimmed from both ends.
pub fn trim_bounds(v: &[char], lo: usize, hi: usize) -> (r: (usize, usize))
    requires
        lo <= hi <= v@.len(),
    ensures
        lo <= r.0 <= r.1 <= hi,
        v@.subrange(r.0 as int, r.1 as int) == trim(v@.subrange(lo as int, hi as int)),
{
    let mut a = lo;
    while a < hi && char_is_space(v[a])
        invariant
            lo <= a <= hi <= v@.len(),
            trim_start(v@.subrange(lo as int, hi as int)) == trim_start(
                v@.subrange(a as int, hi as int),
            ),
        decreases hi - a,
    {
        assert(v@.subrange(a as int, hi as int).drop_first() =~= v@.subrange(a + 1, hi as int));
        a += 1;
    }
    let mut b = hi;
    while b > a && char_is_space(v[b - 1])
        invariant
            lo <= a <= b <= hi <= v@.len(),
            trim_start(v@.subrange(lo as int, hi as int)) == v@.subrange(a as int, hi as int),
            trim_end(v@.subrange(a as int, hi as int)) == trim_end(
                v@.subrange(a as int, b as int),
            ),
        decreases b - a,
    {
        assert(v@.subrange(a as int, b as int).drop_last() =~= v@.subrange(a as int, b - 1));
        b -= 1;
    }
    (a, b)
}

/// The position of the first `c` in `s`, or the length of `s` when there is none.
pub open spec fn first_of(s: Seq<char>, c: char) -> int
    decreases s.len(),
{
    if s.len() == 0 {
        0
    } else if s[0] == c {
        0
    } else {
        1 + first_of(s.drop_first(), c)
    }
}

/// `first_of` points at the first `c`, or past the end when there is none.
pub proof fn lemma_first_of(s: Seq<char>, c: char)
    ensures
        0 <= first_of(s, c) <= s.len(),
        first_of(s, c) < s.len() ==> s[first_of(s, c)] == c,
        forall|j: int| 0 <= j < first_of(s, c) ==> s[j] != c,
    decreases s.len(),
{
    if s.len() > 0 && s[0] != c {
        lemma_first_of(s.drop_first(), c);
        assert forall|j: int| 0 <= j < first_of(s, c) implies s[j] != c by {
            if j > 0 {
                assert(s[j] == s.drop_first()[j - 1]);
            }
        }
    }
}

/// The position of the first `c` in `v[lo..hi]`, counted from the start of `v`;
/// `hi` when there is none.
pub fn find(v: &[char], lo: usize, hi: usize, c: char) -> (r: usize)
    requires
        lo <= hi <= v@.len(),
    ensures
        lo <= r <= hi,
        r == lo + first_of(v@.subrange(lo as int, hi as int), c),
{
    let mut i = lo;
    while i < hi && v[i] != c
        invariant
            lo <= i <= hi <= v@.len(),
            first_of(v@.subrange(lo as int, hi as int), c) == (i - lo) + first_of(
                v@.subrange(i as int, hi as int),
                c,
            ),
        decreases hi - i,
    {
        assert(v@.subrange(i as int, hi as int).drop_first() =~= v@.subrange(i + 1, hi as int));
        i += 1;
    }
    i
}

/// `PathBuf::join` of a relative name: a separator goes between the two unless
/// `dir` is empty or already ends with one.
pub open spec fn joined(dir: Seq<char>, name: Seq<char>) -> Seq<char> {
    if dir.len() == 0 || dir.last() == '/' {
        dir + name
    } else {
        dir + seq!['/'] + name
    }
}

/// The path `name` inside `dir`.
pub fn join(dir: &str, name: &str) -> (r: String)
    ensures
        r@ == joined(dir@, name@),
{
    let d = chars_of(dir);
    let mut r = String::from_str(dir);
    if d.len() > 0 && d[d.len() - 1] != '/' {
        push_char(&mut r, '/');
    }
    r.append(name);
    r
}

/// Where the last component of `s` starts: just after its last `/`, or 0.
pub open spec fn component_start(s: Seq<char>) -> int
    decreases s.len(),
{
    if s.len() == 0 {
        0
    } else if s.last() == '/' {
        s.len() as int
    } else {
        component_start(s.drop_last())
    }
}

pub proof fn lemma_component_start(s: Seq<char>)
    ensures
        0 <= component_start(s) <= s.len(),
        s.len() > 0 && s.last() != '/' ==> component_start(s) < s.len(),
        component_start(s) > 0 ==> s[component_start(s) - 1] == '/',
        forall|j: int| component_start(s) <= j < s.len() ==> s[j] != '/',
    decreases s.len(),
{
    if s.len() > 0 && s.last() != '/' {
        lemma_component_start(s.drop_last());
        assert forall|j: int| component_start(s) <= j < s.len() implies s[j] != '/' by {
            if j < s.len() - 1 {
                assert(s[j] == s.drop_last()[j]);
            }
        }
    }
}

/// `Path::file_name`: the last component of a path, skipping trailing
/// separators and `.` components; nothing for an empty path, the root, or a
/// path that ends in `..`.
pub open spec fn final_name(p: Seq<char>) -> Option<Seq<char>>
    decreases p.len(),
{
    if p.len() == 0 {
        None
    } else if p.last() == '/' {
        final_name(p.drop_last())
    } else {
        let k = component_start(p);
        let comp = p.skip(k);
        if comp == seq!['.'] {
            proof {
                lemma_component_start(p);
            }
            final_name(p.take(k))
        } else if comp == seq!['.', '.'] {
            None
        } else {
            Some(comp)
        }
    }
}

/// The last component of `path`, as `Path::file_name` finds it.
pub fn file_name(path: &str) -> (r: Option<String>)
    ensures
        match final_name(path@) {
            Some(n) => r matches Some(s) && s@ == n,
            None => r is None,
        },
{
    let v = chars_of(path);
    let mut end = v.len();
    assert(v@.take(end as int) =~= v@);
    loop
        invariant
            end <= v@.len(),
            v@ == path@,
            final_name(v@.take(end as int)) == final_name(v@),
        decreases end,
    {
        if end == 0 {
            assert(v@.take(0) =~= Seq::<char>::empty());
            return None;
        }
        if v[end - 1] == '/' {
            assert(v@.take(end as int).drop_last() =~= v@.take(end - 1));
            end -= 1;
        } else {
            let ghost t = v@.take(end as int);
            let mut k = end;
            while k > 0 && v[k - 1] != '/'
                invariant
                    k <= end <= v@.len(),
                    t == v@.take(end as int),
                    component_start(t) == component_start(v@.take(k as int)),
                decreases k,
            {
                assert(v@.take(k as int).drop_last() =~= v@.take(k - 1));
                k -= 1;
            }
            assert(component_start(t) == k);
            let len = end - k;
            assert(t.skip(k as int) =~= v@.subrange(k as int, end as int));
            if len == 1 && v[k] == '.' {
                assert(v@.subrange(k as int, end as int) =~= seq!['.']);
                assert(t.take(k as int) =~= v@.take(k as int));
                end = k;
            } else if len == 2 && v[k] == '.' && v[k + 1] == '.' {
                assert(v@.subrange(k as int, end as int) =~= seq!['.', '.']);
                return None;
            } else {
                assert(v@.subrange(k as int, end as int) != seq!['.']) by {
                    if len == 1 {
                        assert(v@.subrange(k as int, end as int)[0] == v@[k as int]);
                    }
                }
                assert(v@.subrange(k as int, end as int) != seq!['.', '.']) by {
                    if len == 2 {
                        assert(v@.subrange(k as int, end as int)[0] == v@[k as int]);
                        assert(v@.subrange(k as int, end as int)[1] == v@[k + 1]);
                    }
                }
                return Some(string_of(&v[k..end]));
            }
        }
    }
}

/// How `Debug` writes a string: in double quotes, with quotes, backslashes,
/// control characters and unprintable characters escaped. Which characters
/// are escaped rests on Unicode tables, so the text is named, not spelled out.
pub uninterp spec fn debug_quoted(s: Seq<char>) -> Seq<char>;

/// `s` written with `{:?}`, through `<str as Debug>::fmt`. Trusted: the
/// contract claims only that the result is `debug_quoted` of the characters,
/// a function of them alone.
#[verifier::external_body]
pub(crate) fn quoted(s: &str) -> (r: String)
    ensures
        r@ == debug_quoted(s@),
{
    format!("{s:?}")
}

} // verus!
