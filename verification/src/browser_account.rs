//! Matching a browser join to the one saved profile of the same account,
//! without replacing that profile's session.
//!
//! An unreadable profile cannot establish a match, and two profiles of the
//! same account leave the choice to the user rather than choosing by
//! directory order.

use vstd::prelude::*;
use vstd::utf8::{decode_utf8, valid_utf8};
use crate::text::{
    begins_with, chars_of, find, first_of, lemma_first_of, lemma_occurs_within, lemma_trim_within,
    occurs, str_from_utf8, string_of, trim, trim_bounds,
};

verus! {

broadcast use vstd::string::group_string_axioms;

/// The cookie that carries a Roblox session.
pub const SESSION_COOKIE: &'static str = ".ROBLOSECURITY";

/// A Roblox account, by its user id.
#[derive(Clone, Copy, PartialEq, Eq, Debug, Structural)]
pub struct AccountId(pub u64);

/// A session cookie's value. Carried, compared and handed to the
/// authentication endpoint; never formatted into a message.
#[derive(PartialEq, Eq, Debug)]
pub struct SessionCookie {
    value: String,
}

/// Whether a cookie value can be a session: it must not be empty.
pub open spec fn session_value(value: Seq<char>) -> bool {
    value.len() > 0
}

impl View for SessionCookie {
    type V = Seq<char>;

    closed spec fn view(&self) -> Seq<char> {
        self.value@
    }
}

impl SessionCookie {
    /// A session from a cookie's value, when the value can be one.
    pub fn from_value(value: &str) -> (r: Option<SessionCookie>)
        ensures
            r is Some <==> session_value(value@),
            r matches Some(c) ==> c@ == value@,
    {
        if value.is_empty() {
            None
        } else {
            Some(SessionCookie { value: String::from_str(value) })
        }
    }

    /// The cookie's value, for the request that authenticates it.
    pub fn value(&self) -> (r: &str)
        ensures
            r@ == self@,
    {
        self.value.as_str()
    }

    /// Whether two cookies carry the same value.
    pub fn same_as(&self, other: &SessionCookie) -> (r: bool)
        ensures
            r == (self@ == other@),
    {
        crate::text::same_text(self.value.as_str(), other.value.as_str())
    }
}

/// What a backslash and the character after it stand for in a cookie jar:
/// `\\`, `\t`, `\n` and `\r` are escapes, anything else is kept as written.
pub open spec fn escape_of(c: char) -> Seq<char> {
    if c == '\\' {
        seq!['\\']
    } else if c == 't' {
        seq!['\t']
    } else if c == 'n' {
        seq!['\n']
    } else if c == 'r' {
        seq!['\r']
    } else {
        seq!['\\', c]
    }
}

/// A jar with its escapes resolved; a trailing lone backslash is kept.
pub open spec fn unescaped(s: Seq<char>) -> Seq<char>
    decreases s.len(),
{
    if s.len() == 0 {
        seq![]
    } else if s[0] != '\\' {
        seq![s[0]] + unescaped(s.drop_first())
    } else if s.len() == 1 {
        seq!['\\']
    } else {
        escape_of(s[1]) + unescaped(s.skip(2))
    }
}

fn unescape_chars(v: &[char], lo: usize, hi: usize) -> (r: Vec<char>)
    requires
        lo <= hi <= v@.len(),
    ensures
        r@ == unescaped(v@.subrange(lo as int, hi as int)),
{
    let mut out: Vec<char> = Vec::new();
    let mut i = lo;
    while i < hi
        invariant
            lo <= i <= hi <= v@.len(),
            unescaped(v@.subrange(lo as int, hi as int)) == out@ + unescaped(
                v@.subrange(i as int, hi as int),
            ),
        decreases hi - i,
    {
        let ghost rest = v@.subrange(i as int, hi as int);
        let ghost before = out@;
        let c = v[i];
        if c != '\\' {
            assert(rest.drop_first() =~= v@.subrange(i + 1, hi as int));
            out.push(c);
            assert(before + (seq![c] + unescaped(rest.drop_first())) =~= out@ + unescaped(
                rest.drop_first(),
            ));
            i += 1;
        } else if i + 1 == hi {
            out.push('\\');
            assert(v@.subrange(hi as int, hi as int) =~= Seq::<char>::empty());
            assert(before + seq!['\\'] =~= out@ + unescaped(Seq::<char>::empty()));
            i += 1;
        } else {
            let e = v[i + 1];
            assert(rest[1] == e);
            assert(rest.skip(2) =~= v@.subrange(i + 2, hi as int));
            if e == '\\' {
                out.push('\\');
            } else if e == 't' {
                out.push('\t');
            } else if e == 'n' {
                out.push('\n');
            } else if e == 'r' {
                out.push('\r');
            } else {
                out.push('\\');
                out.push(e);
            }
            assert(before + (escape_of(e) + unescaped(rest.skip(2))) =~= out@ + unescaped(
                rest.skip(2),
            ));
            i += 2;
        }
    }
    assert(v@.subrange(hi as int, hi as int) =~= Seq::<char>::empty());
    assert(out@ + unescaped(Seq::<char>::empty()) =~= out@);
    out
}

/// A cookie-jar value with its escapes resolved.
pub fn unescape(value: &str) -> (r: String)
    ensures
        r@ == unescaped(value@),
{
    let v = chars_of(value);
    assert(v@.subrange(0, v@.len() as int) =~= v@);
    let u = unescape_chars(v.as_slice(), 0, v.len());
    string_of(u.as_slice())
}

/// How far a cookie store has been read: `Err` once it cannot establish a
/// session, otherwise the session found so far.
pub type Scan = Result<Option<Seq<char>>, ()>;

/// One `name=value` pair of a jar, already trimmed. Pairs without `=` and
/// other cookies are skipped; a session value that cannot be a session, or a
/// second session that differs from the first, makes the store unusable.
pub open spec fn pair_step(piece: Seq<char>, session: Option<Seq<char>>) -> Scan {
    let e = first_of(piece, '=');
    if e >= piece.len() {
        Ok(session)
    } else if piece.take(e) != SESSION_COOKIE@ {
        Ok(session)
    } else {
        let value = piece.skip(e + 1);
        if !session_value(value) {
            Err(())
        } else {
            match session {
                Some(current) => if current != value {
                    Err(())
                } else {
                    Ok(session)
                },
                None => Ok(Some(value)),
            }
        }
    }
}

/// A jar: its `;`-separated pieces, each trimmed, in order.
pub open spec fn jar_scan(jar: Seq<char>, session: Option<Seq<char>>) -> Scan
    decreases jar.len(),
{
    let k = first_of(jar, ';');
    let step = pair_step(trim(jar.take(k)), session);
    if k >= jar.len() {
        step
    } else {
        proof {
            lemma_first_of(jar, ';');
        }
        match step {
            Err(()) => Err(()),
            Ok(s) => jar_scan(jar.skip(k + 1), s),
        }
    }
}

/// One line of a cookie store. Comments and blank lines are skipped; any
/// other line is `<host>\t<jar>` with the jar escaped, and a line without a tab
/// makes the store unusable.
pub open spec fn line_step(line: Seq<char>, session: Option<Seq<char>>) -> Scan {
    if (line.len() > 0 && line[0] == '#') || trim(line).len() == 0 {
        Ok(session)
    } else {
        let t = first_of(line, '\t');
        if t >= line.len() {
            Err(())
        } else {
            jar_scan(unescaped(line.skip(t + 1)), session)
        }
    }
}

/// A cookie store's text, line by line as `str::lines` splits it: at each
/// `\n`, with a `\r` before it dropped.
pub open spec fn store_scan(text: Seq<char>, session: Option<Seq<char>>) -> Scan
    decreases text.len(),
{
    if text.len() == 0 {
        Ok(session)
    } else {
        let k = first_of(text, '\n');
        let raw = text.take(k);
        let line = if k < text.len() && k > 0 && raw.last() == '\r' {
            raw.drop_last()
        } else {
            raw
        };
        match line_step(line, session) {
            Err(()) => Err(()),
            Ok(s) => if k < text.len() {
                proof {
                    lemma_first_of(text, '\n');
                }
                store_scan(text.skip(k + 1), s)
            } else {
                Ok(s)
            },
        }
    }
}

/// The session a cookie store establishes: the one `.ROBLOSECURITY` value
/// it holds, possibly repeated. Nothing when the bytes are not UTF-8, when a
/// line has no tab, when a session value is unusable or two disagree, or when
/// there is no session at all.
pub open spec fn store_session(bytes: Seq<u8>) -> Option<Seq<char>> {
    if !valid_utf8(bytes) {
        None
    } else {
        match store_scan(decode_utf8(bytes), None) {
            Ok(s) => s,
            Err(()) => None,
        }
    }
}

/// A session as text.
pub open spec fn session_view(s: Option<SessionCookie>) -> Option<Seq<char>> {
    match s {
        Some(c) => Some(c@),
        None => None,
    }
}

/// A scan's state as text.
pub open spec fn scan_view(s: Option<Option<SessionCookie>>) -> Scan {
    match s {
        Some(c) => Ok(session_view(c)),
        None => Err(()),
    }
}

fn pair_scan(v: &[char], lo: usize, hi: usize, session: Option<SessionCookie>) -> (r: Option<
    Option<SessionCookie>,
>)
    requires
        lo <= hi <= v@.len(),
    ensures
        scan_view(r) == pair_step(v@.subrange(lo as int, hi as int), session_view(session)),
{
    let ghost piece = v@.subrange(lo as int, hi as int);
    let e = find(v, lo, hi, '=');
    if e == hi {
        return Some(session);
    }
    proof {
        lemma_first_of(piece, '=');
    }
    assert(piece.take(e - lo) =~= v@.subrange(lo as int, e as int));
    assert(piece.skip(e - lo + 1) =~= v@.subrange(e + 1, hi as int));
    let name = chars_of(SESSION_COOKIE);
    let is_session = e - lo == name.len() && begins_with(&v[lo..e], name.as_slice());
    if is_session {
        assert(v@.subrange(lo as int, e as int).take(name@.len() as int) =~= v@.subrange(
            lo as int,
            e as int,
        ));
    } else {
        assert(v@.subrange(lo as int, e as int) != name@) by {
            if v@.subrange(lo as int, e as int) == name@ {
                assert(v@.subrange(lo as int, e as int).take(name@.len() as int) =~= name@);
            }
        }
        return Some(session);
    }
    let value = string_of(&v[e + 1..hi]);
    let candidate = match SessionCookie::from_value(value.as_str()) {
        Some(c) => c,
        None => {
            return None;
        },
    };
    match session {
        Some(current) => if !current.same_as(&candidate) {
            None
        } else {
            Some(Some(current))
        },
        None => Some(Some(candidate)),
    }
}

fn jar_scan_chars(jar: &[char], start: Option<SessionCookie>) -> (r: Option<
    Option<SessionCookie>,
>)
    ensures
        scan_view(r) == jar_scan(jar@, session_view(start)),
{
    let mut session = start;
    let mut pos: usize = 0;
    let ghost whole = jar_scan(jar@, session_view(session));
    assert(jar@.skip(0) =~= jar@);
    loop
        invariant
            pos <= jar@.len(),
            whole == jar_scan(jar@, session_view(start)),
            whole == jar_scan(jar@.skip(pos as int), session_view(session)),
        decreases jar@.len() - pos,
    {
        let ghost rest = jar@.skip(pos as int);
        let k = find(jar, pos, jar.len(), ';');
        assert(jar@.subrange(pos as int, jar@.len() as int) =~= rest);
        let (a, b) = trim_bounds(jar, pos, k);
        assert(rest.take(k - pos) =~= jar@.subrange(pos as int, k as int));
        let step = pair_scan(jar, a, b, session);
        if k == jar.len() {
            return step;
        }
        proof {
            lemma_first_of(rest, ';');
        }
        assert(rest.skip(k - pos + 1) =~= jar@.skip(k + 1));
        match step {
            None => {
                return None;
            },
            Some(s) => {
                session = s;
                pos = k + 1;
            },
        }
    }
}

fn line_scan(v: &[char], lo: usize, hi: usize, session: Option<SessionCookie>) -> (r: Option<
    Option<SessionCookie>,
>)
    requires
        lo <= hi <= v@.len(),
    ensures
        scan_view(r) == line_step(v@.subrange(lo as int, hi as int), session_view(session)),
{
    let ghost line = v@.subrange(lo as int, hi as int);
    if lo < hi && v[lo] == '#' {
        return Some(session);
    }
    let (a, b) = trim_bounds(v, lo, hi);
    if a == b {
        return Some(session);
    }
    let t = find(v, lo, hi, '\t');
    if t == hi {
        return None;
    }
    proof {
        lemma_first_of(line, '\t');
    }
    assert(line.skip(t - lo + 1) =~= v@.subrange(t + 1, hi as int));
    let jar = unescape_chars(v, t + 1, hi);
    jar_scan_chars(jar.as_slice(), session)
}

/// The session a cookie store holds, or nothing.
pub fn session_from_store(bytes: &[u8]) -> (r: Option<SessionCookie>)
    ensures
        session_view(r) == store_session(bytes@),
{
    let text = match str_from_utf8(bytes) {
        Some(t) => t,
        None => {
            return None;
        },
    };
    let v = chars_of(text);
    let mut session: Option<SessionCookie> = None;
    let mut pos: usize = 0;
    let ghost whole = store_scan(v@, None);
    assert(v@.skip(0) =~= v@);
    while pos < v.len()
        invariant
            pos <= v@.len(),
            v@ == decode_utf8(bytes@),
            valid_utf8(bytes@),
            whole == store_scan(v@, None),
            whole == store_scan(v@.skip(pos as int), session_view(session)),
        decreases v@.len() - pos,
    {
        let ghost rest = v@.skip(pos as int);
        let nl = find(v.as_slice(), pos, v.len(), '\n');
        assert(v@.subrange(pos as int, v@.len() as int) =~= rest);
        proof {
            lemma_first_of(rest, '\n');
        }
        let mut end = nl;
        if nl < v.len() && nl > pos && v[nl - 1] == '\r' {
            end = nl - 1;
            assert(rest.take(nl - pos).drop_last() =~= v@.subrange(pos as int, end as int));
        } else {
            assert(rest.take(nl - pos) =~= v@.subrange(pos as int, end as int));
        }
        let step = line_scan(v.as_slice(), pos, end, session);
        match step {
            None => {
                return None;
            },
            Some(s) => {
                session = s;
            },
        }
        if nl < v.len() {
            assert(rest.skip(nl - pos + 1) =~= v@.skip(nl + 1));
            pos = nl + 1;
        } else {
            assert(v@.skip(v@.len() as int) =~= Seq::<char>::empty());
            pos = v.len();
        }
    }
    assert(v@.skip(pos as int) =~= Seq::<char>::empty());
    session
}

/// Other cookies are passed over: a jar in which the session cookie's name
/// never occurs leaves the session found so far exactly as it was, whatever
/// else the jar holds.
pub proof fn law_a_jar_without_the_session_changes_nothing(
    jar: Seq<char>,
    session: Option<Seq<char>>,
)
    requires
        !occurs(jar, SESSION_COOKIE@),
    ensures
        jar_scan(jar, session) == Scan::Ok(session),
    decreases jar.len(),
{
    let name = SESSION_COOKIE@;
    let k = first_of(jar, ';');
    lemma_first_of(jar, ';');
    let x = jar.take(k);
    let (a, b) = lemma_trim_within(x);
    let piece = trim(x);
    let e = first_of(piece, '=');
    lemma_first_of(piece, '=');
    if e < piece.len() && piece.take(e) == name {
        assert(jar.subrange(a, a + e) =~= piece.take(e));
        assert(jar.subrange(a, a + name.len()) == name);
        assert(occurs(jar, name));
    }
    assert(pair_step(piece, session) == Scan::Ok(session));
    if k < jar.len() {
        let rest = jar.skip(k + 1);
        if occurs(rest, name) {
            assert(jar.subrange(k + 1, jar.len() as int) =~= rest);
            lemma_occurs_within(jar, k + 1, jar.len() as int, name);
        }
        law_a_jar_without_the_session_changes_nothing(rest, session);
    }
}

/// A host line whose cookies do not include the session is passed over: the
/// line `host<TAB>jar`, with no tab in the host and the session cookie's name
/// nowhere in the unescaped jar, leaves the scan as it was. So other hosts'
/// lines, before or after the session's own line, never cost the session.
pub proof fn law_a_line_without_the_session_is_passed_over(
    host: Seq<char>,
    jar: Seq<char>,
    session: Option<Seq<char>>,
)
    requires
        forall|i: int| 0 <= i < host.len() ==> host[i] != '\t',
        !occurs(unescaped(jar), SESSION_COOKIE@),
    ensures
        line_step(host + seq!['\t'] + jar, session) == Scan::Ok(session),
{
    let line = host + seq!['\t'] + jar;
    let t = first_of(line, '\t');
    lemma_first_of(line, '\t');
    assert(line[host.len() as int] == '\t');
    if t > host.len() {
        assert(line[host.len() as int] != '\t');
    }
    if t < host.len() {
        assert(line[t] == host[t]);
    }
    assert(t == host.len());
    assert(line.skip(t + 1) =~= jar);
    law_a_jar_without_the_session_changes_nothing(unescaped(jar), session);
}

/// A line of the store as `str::lines` gives it, its `\n` included, is passed
/// over when it is a host line without the session: the scan of the whole
/// text is the scan of what follows it.
pub proof fn law_a_store_line_without_the_session_is_passed_over(
    host: Seq<char>,
    jar: Seq<char>,
    rest: Seq<char>,
    session: Option<Seq<char>>,
)
    requires
        forall|i: int| 0 <= i < host.len() ==> host[i] != '\t' && host[i] != '\n',
        forall|i: int| 0 <= i < jar.len() ==> jar[i] != '\n',
        jar.len() > 0 ==> jar.last() != '\r',
        !occurs(unescaped(jar), SESSION_COOKIE@),
    ensures
        store_scan(host + seq!['\t'] + jar + seq!['\n'] + rest, session) == store_scan(
            rest,
            session,
        ),
{
    let line = host + seq!['\t'] + jar;
    let text = line + seq!['\n'] + rest;
    let k = first_of(text, '\n');
    lemma_first_of(text, '\n');
    assert(text[line.len() as int] == '\n');
    if k < line.len() {
        assert(text[k] == line[k]);
        if k < host.len() {
            assert(line[k] == host[k]);
        } else if k > host.len() {
            assert(line[k] == jar[k - host.len() - 1]);
        }
    }
    if k > line.len() {
        assert(text[line.len() as int] != '\n');
    }
    assert(k == line.len());
    assert(text.take(k) =~= line);
    assert(line.last() != '\r');
    assert(text.skip(k + 1) =~= rest);
    law_a_line_without_the_session_is_passed_over(host, jar, session);
}

proof fn lemma_unescaped_plain(s: Seq<char>)
    requires
        forall|i: int| 0 <= i < s.len() ==> s[i] != '\\',
    ensures
        unescaped(s) == s,
    decreases s.len(),
{
    if s.len() > 0 {
        lemma_unescaped_plain(s.drop_first());
        assert(seq![s[0]] + s.drop_first() =~= s);
    }
}

/// The session's own line gives its value: the line
/// `host<TAB>.ROBLOSECURITY=value`, with a host that does not make it a
/// comment (a leading `#`) and a plain value (not empty, no `;`,
/// no backslash, not ending in whitespace), sets the session when none was
/// found yet, keeps it when it repeats the same value, and makes the store
/// unusable when it disagrees with the session found before.
pub proof fn law_the_session_line_gives_its_value(
    host: Seq<char>,
    value: Seq<char>,
    session: Option<Seq<char>>,
)
    requires
        forall|i: int| 0 <= i < host.len() ==> host[i] != '\t',
        host.len() > 0 ==> host[0] != '#',
        value.len() > 0,
        forall|i: int| 0 <= i < value.len() ==> value[i] != ';' && value[i] != '\\',
        !crate::text::is_space(value.last()),
    ensures
        line_step(host + seq!['\t'] + SESSION_COOKIE@ + seq!['='] + value, session) == match session {
            None => Scan::Ok(Some(value)),
            Some(current) => if current == value {
                Scan::Ok(session)
            } else {
                Scan::Err(())
            },
        },
{
    reveal_strlit(".ROBLOSECURITY");
    let name = SESSION_COOKIE@;
    let jar = name + seq!['='] + value;
    let line = host + seq!['\t'] + jar;
    assert(line =~= host + seq!['\t'] + SESSION_COOKIE@ + seq!['='] + value);
    let t = first_of(line, '\t');
    lemma_first_of(line, '\t');
    assert(line[host.len() as int] == '\t');
    if t > host.len() {
        assert(line[host.len() as int] != '\t');
    }
    if t < host.len() {
        assert(line[t] == host[t]);
    }
    assert(t == host.len());
    assert(line.skip(t + 1) =~= jar);
    assert(line[host.len() + 1int] == '.');
    crate::text::lemma_trim_nonempty(line, host.len() + 1int);
    assert forall|i: int| 0 <= i < jar.len() implies jar[i] != '\\' by {
        if i > name.len() {
            assert(jar[i] == value[i - name.len() - 1]);
        }
    }
    lemma_unescaped_plain(jar);
    let k = first_of(jar, ';');
    lemma_first_of(jar, ';');
    if k < jar.len() {
        if k > name.len() {
            assert(jar[k] == value[k - name.len() - 1]);
        }
    }
    assert(k == jar.len());
    assert(jar.take(k) =~= jar);
    assert(!crate::text::is_space(jar[0]));
    assert(jar.last() == value.last());
    assert(crate::text::trim_start(jar) == jar);
    assert(crate::text::trim_end(jar) == jar);
    assert(trim(jar) == jar);
    let e = first_of(jar, '=');
    lemma_first_of(jar, '=');
    assert(jar[name.len() as int] == '=');
    if e < name.len() {
        assert(jar[e] == name[e]);
    }
    if e > name.len() {
        assert(jar[name.len() as int] != '=');
    }
    assert(e == name.len());
    assert(jar.take(e) =~= name);
    assert(jar.skip(e + 1) =~= value);
}

// ---------------------------------------------------------------------------
// Saved profiles.
// ---------------------------------------------------------------------------

/// The most of an identity file that is read.
pub const MAX_IDENTITY_BYTES: u64 = 16384;

/// The most of a cookie store that is read.
pub const MAX_COOKIE_BYTES: u64 = 1048576;

/// A file read through a limit: the bytes when the file could be read and
/// holds no more than `limit` of them.
pub open spec fn limited(read: Option<Seq<u8>>, limit: u64) -> Option<Seq<u8>> {
    match read {
        Some(b) => if b.len() <= limit {
            Some(b)
        } else {
            None
        },
        None => None,
    }
}

/// A file's bytes, as read through a limit: `read` is what reading up to one
/// byte past the limit gave.
pub fn within_limit(read: Option<Vec<u8>>, limit: u64) -> (r: Option<Vec<u8>>)
    ensures
        match (r, limited(
            match read {
                Some(b) => Some(b@),
                None => None,
            },
            limit,
        )) {
            (Some(x), Some(y)) => x@ == y,
            (None, None) => true,
            _ => false,
        },
{
    match read {
        Some(b) => if (b.len() as u64) <= limit {
            Some(b)
        } else {
            None
        },
        None => None,
    }
}

/// Whether a directory name can be a profile: not empty, not hidden (so
/// never `.` or `..`), and free of separators and control characters.
pub open spec fn valid_profile_name(name: Seq<char>) -> bool {
    &&& name.len() > 0
    &&& name[0] != '.'
    &&& forall|i: int|
        0 <= i < name.len() ==> #[trigger] name[i] != '/' && (name[i] as u32) >= 0x20 && (
        name[i] as u32) != 0x7f
}

/// Whether a directory name can be a profile.
pub fn is_valid_name(name: &str) -> (r: bool)
    ensures
        r == valid_profile_name(name@),
{
    let v = chars_of(name);
    if v.len() == 0 || v[0] == '.' {
        return false;
    }
    let mut i: usize = 0;
    while i < v.len()
        invariant
            v@ == name@,
            i <= v@.len(),
            forall|j: int|
                0 <= j < i ==> #[trigger] v@[j] != '/' && (v@[j] as u32) >= 0x20 && (
                v@[j] as u32) != 0x7f,
        decreases v@.len() - i,
    {
        let c = v[i];
        let u = c as u32;
        if c == '/' || u < 0x20 || u == 0x7f {
            assert(v@[i as int] == c);
            return false;
        }
        i += 1;
    }
    true
}

/// Whether two byte strings are the same.
pub fn bytes_equal(a: &[u8], b: &[u8]) -> (r: bool)
    ensures
        r == (a@ == b@),
{
    if a.len() != b.len() {
        return false;
    }
    let mut i: usize = 0;
    while i < a.len()
        invariant
            a@.len() == b@.len(),
            i <= a@.len(),
            forall|j: int| 0 <= j < i ==> a@[j] == b@[j],
        decreases a@.len() - i,
    {
        if a[i] != b[i] {
            assert(a@[i as int] != b@[i as int]);
            return false;
        }
        i += 1;
    }
    assert(a@ =~= b@);
    true
}

/// What an identity file claims: `{"schema": 1, "userId": <id>, ...}`.
#[derive(Clone, Copy, PartialEq, Eq, Debug, Structural)]
pub struct SavedIdentity {
    pub schema: u64,
    pub user_id: AccountId,
}

/// The exact profile files that established an automatic account match.
///
/// Deliberately carries opaque bytes rather than parsed credentials: the
/// launcher compares them after taking the profile lock, and never exposes,
/// formats or logs them.
pub struct ProfileMatch {
    name: String,
    identity: Vec<u8>,
    cookies: Vec<u8>,
}

/// A match as values.
pub struct MatchView {
    pub name: Seq<char>,
    pub identity: Seq<u8>,
    pub cookies: Seq<u8>,
}

impl View for ProfileMatch {
    type V = MatchView;

    closed spec fn view(&self) -> MatchView {
        MatchView { name: self.name@, identity: self.identity@, cookies: self.cookies@ }
    }
}

impl ProfileMatch {
    /// The profile's name.
    pub fn name(&self) -> (r: &str)
        ensures
            r@ == self@.name,
    {
        self.name.as_str()
    }

    /// Whether the profile called `name` still holds exactly the files that
    /// matched; `identity_now` and `cookies_now` are its files as read now,
    /// through their limits.
    pub fn still_matches(
        &self,
        name: &str,
        identity_now: Option<Vec<u8>>,
        cookies_now: Option<Vec<u8>>,
    ) -> (r: bool)
        ensures
            r == (self@.name == name@ && (identity_now matches Some(i) && i@ == self@.identity)
                && (cookies_now matches Some(c) && c@ == self@.cookies)),
    {
        if !crate::text::same_text(self.name.as_str(), name) {
            return false;
        }
        let identity_same = match &identity_now {
            Some(i) => bytes_equal(i.as_slice(), self.identity.as_slice()),
            None => false,
        };
        if !identity_same {
            return false;
        }
        match &cookies_now {
            Some(c) => bytes_equal(c.as_slice(), self.cookies.as_slice()),
            None => false,
        }
    }
}

/// A match taken from a profile's files as they are now, when both could be
/// read through their limits.
pub fn snapshot_for_test(name: &str, identity: Option<Vec<u8>>, cookies: Option<Vec<u8>>) -> (r:
    Option<ProfileMatch>)
    ensures
        r is Some <==> (identity is Some && cookies is Some),
        r matches Some(m) ==> m@.name == name@ && m@.identity == identity->0@ && m@.cookies
            == cookies->0@,
{
    match (identity, cookies) {
        (Some(i), Some(c)) => Some(ProfileMatch { name: String::from_str(name), identity: i, cookies: c }),
        _ => None,
    }
}

// ---------------------------------------------------------------------------
// The search through the profiles root.
// ---------------------------------------------------------------------------

/// An entry of the profiles root, as far as the search reads it.
pub struct Candidate {
    /// Whether the entry could be read and is a directory.
    pub is_dir: bool,
    /// The entry's name, when it is UTF-8.
    pub name: Option<String>,
}

/// An entry as values.
pub struct CandidateView {
    pub is_dir: bool,
    pub name: Option<Seq<char>>,
}

impl View for Candidate {
    type V = CandidateView;

    open spec fn view(&self) -> CandidateView {
        CandidateView {
            is_dir: self.is_dir,
            name: match self.name {
                Some(n) => Some(n@),
                None => None,
            },
        }
    }
}

/// Something for the search's driver to do.
pub enum Want {
    /// List the profiles root.
    ListRoot,
    /// The next entry of the root.
    NextEntry,
    /// Read at most `limit` bytes of the file `file` in profile `profile`,
    /// reading one byte more to tell a file over the limit.
    Read { profile: String, file: String, limit: u64 },
    /// Decode identity bytes as JSON.
    Parse(Vec<u8>),
    /// Ask the authenticated-user endpoint which account a session belongs to.
    Authenticate(SessionCookie),
}

/// A want as values.
pub enum WantView {
    ListRoot,
    NextEntry,
    Read { profile: Seq<char>, file: Seq<char>, limit: u64 },
    Parse(Seq<u8>),
    Authenticate(Seq<char>),
}

impl View for Want {
    type V = WantView;

    open spec fn view(&self) -> WantView {
        match self {
            Want::ListRoot => WantView::ListRoot,
            Want::NextEntry => WantView::NextEntry,
            Want::Read { profile, file, limit } => WantView::Read {
                profile: profile@,
                file: file@,
                limit: *limit,
            },
            Want::Parse(b) => WantView::Parse(b@),
            Want::Authenticate(c) => WantView::Authenticate(c@),
        }
    }
}

/// What the driver saw when it did what the search wanted.
pub enum Seen {
    /// After `ListRoot`: whether the root could be listed.
    Listed(bool),
    /// After `NextEntry`: the entry, or nothing when there are no more.
    Entry(Option<Candidate>),
    /// After `Read`: what reading the file up to one byte past its limit
    /// gave, when it could be read at all.
    Bytes(Option<Vec<u8>>),
    /// After `Parse`: what the identity claims, when it decodes.
    Parsed(Option<SavedIdentity>),
    /// After `Authenticate`: the account the endpoint named, if any.
    Authenticated(Option<AccountId>),
}

/// What was seen, as values.
pub enum SeenView {
    Listed(bool),
    Entry(Option<CandidateView>),
    Bytes(Option<Seq<u8>>),
    Parsed(Option<SavedIdentity>),
    Authenticated(Option<AccountId>),
}

impl View for Seen {
    type V = SeenView;

    open spec fn view(&self) -> SeenView {
        match self {
            Seen::Listed(b) => SeenView::Listed(*b),
            Seen::Entry(e) => SeenView::Entry(
                match e {
                    Some(c) => Some(c@),
                    None => None,
                },
            ),
            Seen::Bytes(b) => SeenView::Bytes(
                match b {
                    Some(x) => Some(x@),
                    None => None,
                },
            ),
            Seen::Parsed(p) => SeenView::Parsed(*p),
            Seen::Authenticated(a) => SeenView::Authenticated(*a),
        }
    }
}

/// Where the search has got to with the current entry.
pub enum SearchStage {
    /// Has asked for the root to be listed.
    Listing,
    /// Has asked for the next entry.
    Scanning,
    /// Has asked for the identity file of profile `name`.
    ReadingIdentity { name: String },
    /// Has asked for the identity to be decoded.
    ParsingIdentity { name: String, identity: Vec<u8> },
    /// The identity claims the account: has asked for the cookie store.
    ReadingCookies { name: String, identity: Vec<u8> },
    /// Has asked which account the stored session belongs to.
    Authenticating { name: String, identity: Vec<u8>, cookies: Vec<u8> },
    /// The session is the account's: has asked for the identity again.
    RereadingIdentity { name: String, identity: Vec<u8>, cookies: Vec<u8> },
    /// The identity is unchanged: has asked for the cookie store again.
    RereadingCookies { name: String, identity: Vec<u8>, cookies: Vec<u8> },
    /// Finished.
    Finished,
}

/// A stage as values.
pub enum SearchStageView {
    Listing,
    Scanning,
    ReadingIdentity { name: Seq<char> },
    ParsingIdentity { name: Seq<char>, identity: Seq<u8> },
    ReadingCookies { name: Seq<char>, identity: Seq<u8> },
    Authenticating { name: Seq<char>, identity: Seq<u8>, cookies: Seq<u8> },
    RereadingIdentity { name: Seq<char>, identity: Seq<u8>, cookies: Seq<u8> },
    RereadingCookies { name: Seq<char>, identity: Seq<u8>, cookies: Seq<u8> },
    Finished,
}

impl View for SearchStage {
    type V = SearchStageView;

    open spec fn view(&self) -> SearchStageView {
        match self {
            SearchStage::Listing => SearchStageView::Listing,
            SearchStage::Scanning => SearchStageView::Scanning,
            SearchStage::ReadingIdentity { name } => SearchStageView::ReadingIdentity {
                name: name@,
            },
            SearchStage::ParsingIdentity { name, identity } => SearchStageView::ParsingIdentity {
                name: name@,
                identity: identity@,
            },
            SearchStage::ReadingCookies { name, identity } => SearchStageView::ReadingCookies {
                name: name@,
                identity: identity@,
            },
            SearchStage::Authenticating { name, identity, cookies } =>
                SearchStageView::Authenticating {
                name: name@,
                identity: identity@,
                cookies: cookies@,
            },
            SearchStage::RereadingIdentity { name, identity, cookies } =>
                SearchStageView::RereadingIdentity {
                name: name@,
                identity: identity@,
                cookies: cookies@,
            },
            SearchStage::RereadingCookies { name, identity, cookies } =>
                SearchStageView::RereadingCookies {
                name: name@,
                identity: identity@,
                cookies: cookies@,
            },
            SearchStage::Finished => SearchStageView::Finished,
        }
    }
}

/// The search for the one saved profile of `account`.
pub struct Search {
    pub account: AccountId,
    /// The match found so far.
    pub first: Option<ProfileMatch>,
    pub stage: SearchStage,
}

/// A search as values.
pub struct SearchView {
    pub account: AccountId,
    pub first: Option<MatchView>,
    pub stage: SearchStageView,
}

/// A possible match as values.
pub open spec fn match_option_view(m: Option<ProfileMatch>) -> Option<MatchView> {
    match m {
        Some(x) => Some(x@),
        None => None,
    }
}

impl View for Search {
    type V = SearchView;

    open spec fn view(&self) -> SearchView {
        SearchView {
            account: self.account,
            first: match_option_view(self.first),
            stage: self.stage@,
        }
    }
}

/// The search's next want, or its result.
pub enum SearchStep {
    Do(Want),
    Finish(Option<ProfileMatch>),
}

/// A search step as values.
pub enum SearchStepView {
    Do(WantView),
    Finish(Option<MatchView>),
}

/// A search step as values.
pub open spec fn search_step_view(s: SearchStep) -> SearchStepView {
    match s {
        SearchStep::Do(w) => SearchStepView::Do(w@),
        SearchStep::Finish(m) => SearchStepView::Finish(match_option_view(m)),
    }
}

/// What each stage of a search waits for.
pub open spec fn search_expects(stage: SearchStageView, seen: SeenView) -> bool {
    match stage {
        SearchStageView::Listing => seen is Listed,
        SearchStageView::Scanning => seen is Entry,
        SearchStageView::ReadingIdentity { .. } => seen is Bytes,
        SearchStageView::ParsingIdentity { .. } => seen is Parsed,
        SearchStageView::ReadingCookies { .. } => seen is Bytes,
        SearchStageView::Authenticating { .. } => seen is Authenticated,
        SearchStageView::RereadingIdentity { .. } => seen is Bytes,
        SearchStageView::RereadingCookies { .. } => seen is Bytes,
        SearchStageView::Finished => false,
    }
}

/// The search at another stage.
pub open spec fn search_at(s: SearchView, stage: SearchStageView) -> SearchView {
    SearchView { account: s.account, first: s.first, stage }
}

/// On to the next entry.
pub open spec fn search_skip(s: SearchView) -> (SearchView, SearchStepView) {
    (search_at(s, SearchStageView::Scanning), SearchStepView::Do(WantView::NextEntry))
}

/// What a read gave, taken through the limit it was asked with: the bytes
/// only when the file could be read and holds no more than `limit` of them.
pub open spec fn read_within(seen: SeenView, limit: u64) -> Option<Seq<u8>> {
    match seen {
        SeenView::Bytes(b) => limited(b, limit),
        _ => None,
    }
}

/// Reading a profile's file through its limit.
pub open spec fn read_want(name: Seq<char>, file: Seq<char>, limit: u64) -> WantView {
    WantView::Read { profile: name, file, limit }
}

/// How a search begins: by listing the root.
pub open spec fn search_first(account: AccountId) -> (SearchView, WantView) {
    (SearchView { account, first: None, stage: SearchStageView::Listing }, WantView::ListRoot)
}

/// A search's next stage and step.
///
/// A profile matches when its directory name is valid, its identity (read
/// through `MAX_IDENTITY_BYTES`) claims schema 1 and the account, its cookie
/// store (read through `MAX_COOKIE_BYTES`) holds a session, that session
/// authenticates as the account, and both files read back unchanged, through
/// the same limits, after the check. A file over its limit counts as
/// unreadable. The first match is kept; a second one ends the search with nothing,
/// leaving the choice to the user; the end of the entries ends it with the
/// match kept, if any.
pub open spec fn search_next(s: SearchView, seen: SeenView) -> (SearchView, SearchStepView) {
    let done = SearchView { account: s.account, first: None, stage: SearchStageView::Finished };
    match s.stage {
        SearchStageView::Listing => match seen {
            SeenView::Listed(true) => (
                search_at(s, SearchStageView::Scanning),
                SearchStepView::Do(WantView::NextEntry),
            ),
            _ => (done, SearchStepView::Finish(None)),
        },
        SearchStageView::Scanning => match seen {
            SeenView::Entry(Some(c)) => match c.name {
                Some(n) => if c.is_dir && valid_profile_name(n) {
                    (
                        search_at(s, SearchStageView::ReadingIdentity { name: n }),
                        SearchStepView::Do(read_want(n, "identity"@, MAX_IDENTITY_BYTES)),
                    )
                } else {
                    search_skip(s)
                },
                None => search_skip(s),
            },
            _ => (done, SearchStepView::Finish(s.first)),
        },
        SearchStageView::ReadingIdentity { name } => match read_within(seen, MAX_IDENTITY_BYTES) {
            Some(identity) => (
                search_at(s, SearchStageView::ParsingIdentity { name, identity }),
                SearchStepView::Do(WantView::Parse(identity)),
            ),
            _ => search_skip(s),
        },
        SearchStageView::ParsingIdentity { name, identity } => match seen {
            SeenView::Parsed(Some(claim)) => if claim.schema == 1 && claim.user_id == s.account {
                (
                    search_at(s, SearchStageView::ReadingCookies { name, identity }),
                    SearchStepView::Do(read_want(name, "cookies"@, MAX_COOKIE_BYTES)),
                )
            } else {
                search_skip(s)
            },
            _ => search_skip(s),
        },
        SearchStageView::ReadingCookies { name, identity } => match read_within(
            seen,
            MAX_COOKIE_BYTES,
        ) {
            Some(cookies) => match store_session(cookies) {
                Some(session) => (
                    search_at(s, SearchStageView::Authenticating { name, identity, cookies }),
                    SearchStepView::Do(WantView::Authenticate(session)),
                ),
                None => search_skip(s),
            },
            _ => search_skip(s),
        },
        SearchStageView::Authenticating { name, identity, cookies } => match seen {
            SeenView::Authenticated(Some(a)) => if a == s.account {
                (
                    search_at(s, SearchStageView::RereadingIdentity { name, identity, cookies }),
                    SearchStepView::Do(read_want(name, "identity"@, MAX_IDENTITY_BYTES)),
                )
            } else {
                search_skip(s)
            },
            _ => search_skip(s),
        },
        SearchStageView::RereadingIdentity { name, identity, cookies } => match read_within(
            seen,
            MAX_IDENTITY_BYTES,
        ) {
            Some(again) => if again == identity {
                (
                    search_at(s, SearchStageView::RereadingCookies { name, identity, cookies }),
                    SearchStepView::Do(read_want(name, "cookies"@, MAX_COOKIE_BYTES)),
                )
            } else {
                search_skip(s)
            },
            _ => search_skip(s),
        },
        SearchStageView::RereadingCookies { name, identity, cookies } => match read_within(
            seen,
            MAX_COOKIE_BYTES,
        ) {
            Some(again) => if again == cookies {
                match s.first {
                    None => (
                        SearchView {
                            account: s.account,
                            first: Some(MatchView { name, identity, cookies }),
                            stage: SearchStageView::Scanning,
                        },
                        SearchStepView::Do(WantView::NextEntry),
                    ),
                    Some(_) => (done, SearchStepView::Finish(None)),
                }
            } else {
                search_skip(s)
            },
            _ => search_skip(s),
        },
        SearchStageView::Finished => (done, SearchStepView::Finish(None)),
    }
}

/// Starts the search for the one saved profile of `account`.
pub fn search(account: AccountId) -> (r: (Search, Want))
    ensures
        (r.0@, r.1@) == search_first(account),
{
    (Search { account, first: None, stage: SearchStage::Listing }, Want::ListRoot)
}

fn read_file_want(name: &String, file: &str, limit: u64) -> (r: Want)
    ensures
        r@ == read_want(name@, file@, limit),
{
    Want::Read { profile: name.clone(), file: String::from_str(file), limit }
}

impl Search {
    fn skip(account: AccountId, first: Option<ProfileMatch>) -> (r: (Search, SearchStep))
        ensures
            (r.0@, search_step_view(r.1)) == search_skip(
                SearchView {
                    account,
                    first: match_option_view(first),
                    stage: SearchStageView::Finished,
                },
            ),
    {
        (Search { account, first, stage: SearchStage::Scanning }, SearchStep::Do(Want::NextEntry))
    }

    /// The next step, given what the driver saw.
    pub fn resume(self, seen: Seen) -> (r: (Search, SearchStep))
        requires
            search_expects(self@.stage, seen@),
        ensures
            (r.0@, search_step_view(r.1)) == search_next(self@, seen@),
    {
        let Search { account, first, stage } = self;
        match stage {
            SearchStage::Listing => match seen {
                Seen::Listed(true) => (
                    Search { account, first, stage: SearchStage::Scanning },
                    SearchStep::Do(Want::NextEntry),
                ),
                _ => (
                    Search { account, first: None, stage: SearchStage::Finished },
                    SearchStep::Finish(None),
                ),
            },
            SearchStage::Scanning => match seen {
                Seen::Entry(Some(c)) => {
                    let Candidate { is_dir, name } = c;
                    match name {
                        Some(n) => if is_dir && is_valid_name(n.as_str()) {
                            let want = read_file_want(&n, "identity", MAX_IDENTITY_BYTES);
                            (
                                Search {
                                    account,
                                    first,
                                    stage: SearchStage::ReadingIdentity { name: n },
                                },
                                SearchStep::Do(want),
                            )
                        } else {
                            Search::skip(account, first)
                        },
                        None => Search::skip(account, first),
                    }
                },
                _ => (
                    Search { account, first: None, stage: SearchStage::Finished },
                    SearchStep::Finish(first),
                ),
            },
            SearchStage::ReadingIdentity { name } => match seen {
                Seen::Bytes(read) => match within_limit(read, MAX_IDENTITY_BYTES) {
                    Some(identity) => {
                        let copy = identity.clone();
                        (
                            Search {
                                account,
                                first,
                                stage: SearchStage::ParsingIdentity { name, identity },
                            },
                            SearchStep::Do(Want::Parse(copy)),
                        )
                    },
                    None => Search::skip(account, first),
                },
                _ => Search::skip(account, first),
            },
            SearchStage::ParsingIdentity { name, identity } => match seen {
                Seen::Parsed(Some(claim)) => if claim.schema == 1 && claim.user_id == account {
                    let want = read_file_want(&name, "cookies", MAX_COOKIE_BYTES);
                    (
                        Search {
                            account,
                            first,
                            stage: SearchStage::ReadingCookies { name, identity },
                        },
                        SearchStep::Do(want),
                    )
                } else {
                    Search::skip(account, first)
                },
                _ => Search::skip(account, first),
            },
            SearchStage::ReadingCookies { name, identity } => match seen {
                Seen::Bytes(read) => match within_limit(read, MAX_COOKIE_BYTES) {
                    Some(cookies) => match session_from_store(cookies.as_slice()) {
                        Some(session) => (
                            Search {
                                account,
                                first,
                                stage: SearchStage::Authenticating { name, identity, cookies },
                            },
                            SearchStep::Do(Want::Authenticate(session)),
                        ),
                        None => Search::skip(account, first),
                    },
                    None => Search::skip(account, first),
                },
                _ => Search::skip(account, first),
            },
            SearchStage::Authenticating { name, identity, cookies } => match seen {
                Seen::Authenticated(Some(a)) => if a == account {
                    let want = read_file_want(&name, "identity", MAX_IDENTITY_BYTES);
                    (
                        Search {
                            account,
                            first,
                            stage: SearchStage::RereadingIdentity { name, identity, cookies },
                        },
                        SearchStep::Do(want),
                    )
                } else {
                    Search::skip(account, first)
                },
                _ => Search::skip(account, first),
            },
            SearchStage::RereadingIdentity { name, identity, cookies } => match seen {
                Seen::Bytes(read) => match within_limit(read, MAX_IDENTITY_BYTES) {
                    Some(again) => if bytes_equal(again.as_slice(), identity.as_slice()) {
                        let want = read_file_want(&name, "cookies", MAX_COOKIE_BYTES);
                        (
                            Search {
                                account,
                                first,
                                stage: SearchStage::RereadingCookies { name, identity, cookies },
                            },
                            SearchStep::Do(want),
                        )
                    } else {
                        Search::skip(account, first)
                    },
                    None => Search::skip(account, first),
                },
                _ => Search::skip(account, first),
            },
            SearchStage::RereadingCookies { name, identity, cookies } => match seen {
                Seen::Bytes(read) => match within_limit(read, MAX_COOKIE_BYTES) {
                    Some(again) => if bytes_equal(again.as_slice(), cookies.as_slice()) {
                        match first {
                            None => (
                                Search {
                                    account,
                                    first: Some(ProfileMatch { name, identity, cookies }),
                                    stage: SearchStage::Scanning,
                                },
                                SearchStep::Do(Want::NextEntry),
                            ),
                            Some(_) => (
                                Search { account, first: None, stage: SearchStage::Finished },
                                SearchStep::Finish(None),
                            ),
                        }
                    } else {
                        Search::skip(account, first)
                    },
                    None => Search::skip(account, first),
                },
                _ => Search::skip(account, first),
            },
            SearchStage::Finished => (
                Search { account, first: None, stage: SearchStage::Finished },
                SearchStep::Finish(None),
            ),
        }
    }
}

/// Duplicate accounts leave the choice to the user: the search reports a
/// profile only when the entries have run out with exactly that match kept,
/// and a second match ends the search with nothing.
pub proof fn law_only_a_single_match_is_reported(s: SearchView, seen: SeenView)
    requires
        search_expects(s.stage, seen),
    ensures
        search_next(s, seen).1 matches SearchStepView::Finish(Some(m)) ==> {
            &&& s.stage is Scanning
            &&& seen matches SeenView::Entry(None)
            &&& s.first == Some(m)
        },
        s.first is Some ==> (s.stage matches SearchStageView::RereadingCookies { cookies, .. }
            && read_within(seen, MAX_COOKIE_BYTES) == Some(cookies) ==> search_next(s, seen).1
            == SearchStepView::Finish(None)),
{
}

/// Each check stands between a profile and a match: a profile is read only
/// under a valid name, its files are taken only within their limits, its
/// session is checked only when the identity claims schema 1 and the account
/// and the store holds a session, its files are read again only after the
/// session authenticated as the account, and a match is kept only when both
/// files read back, within their limits, exactly as they were.
pub proof fn law_a_match_passes_every_check(s: SearchView, seen: SeenView)
    requires
        search_expects(s.stage, seen),
    ensures
        ({
            let t = search_next(s, seen).0;
            &&& t.stage matches SearchStageView::ReadingIdentity { name } ==> s.stage is Scanning
                && valid_profile_name(name)
            &&& t.stage is ReadingCookies ==> s.stage is ParsingIdentity && (
            seen matches SeenView::Parsed(Some(claim)) && claim.schema == 1 && claim.user_id
                == s.account)
            &&& t.stage matches SearchStageView::ParsingIdentity { identity, .. } ==> s.stage
                is ReadingIdentity && read_within(seen, MAX_IDENTITY_BYTES) == Some(identity)
            &&& t.stage matches SearchStageView::Authenticating { cookies, .. } ==> s.stage
                is ReadingCookies && read_within(seen, MAX_COOKIE_BYTES) == Some(cookies)
                && store_session(cookies) is Some
            &&& t.stage is RereadingIdentity ==> s.stage is Authenticating && seen
                == SeenView::Authenticated(Some(s.account))
            &&& t.stage matches SearchStageView::RereadingCookies { identity, .. } ==> s.stage
                is RereadingIdentity && read_within(seen, MAX_IDENTITY_BYTES) == Some(identity)
            &&& (t.first is Some && t.first != s.first) ==> (s.stage
                matches SearchStageView::RereadingCookies { name, identity, cookies }
                && read_within(seen, MAX_COOKIE_BYTES) == Some(cookies) && t.first == Some(
                MatchView { name, identity, cookies },
            ))
        }),
{
}

/// What every state of a search holds: the profile being checked has a valid
/// name, its files are held only as taken within their limits, a session is
/// being checked only for a store that holds one, and so does the match kept.
pub open spec fn search_wf(s: SearchView) -> bool {
    &&& s.first matches Some(m) ==> valid_profile_name(m.name) && store_session(m.cookies) is Some
        && files_within_limits(m.identity, m.cookies)
    &&& match s.stage {
        SearchStageView::ReadingIdentity { name } => valid_profile_name(name),
        SearchStageView::ParsingIdentity { name, identity } => valid_profile_name(name)
            && identity.len() <= MAX_IDENTITY_BYTES,
        SearchStageView::ReadingCookies { name, identity } => valid_profile_name(name)
            && identity.len() <= MAX_IDENTITY_BYTES,
        SearchStageView::Authenticating { name, identity, cookies } => valid_profile_name(name)
            && store_session(cookies) is Some && files_within_limits(identity, cookies),
        SearchStageView::RereadingIdentity { name, identity, cookies } => valid_profile_name(name)
            && store_session(cookies) is Some && files_within_limits(identity, cookies),
        SearchStageView::RereadingCookies { name, identity, cookies } => valid_profile_name(name)
            && store_session(cookies) is Some && files_within_limits(identity, cookies),
        _ => true,
    }
}

/// An identity and a cookie store that each fit their limit.
pub open spec fn files_within_limits(identity: Seq<u8>, cookies: Seq<u8>) -> bool {
    identity.len() <= MAX_IDENTITY_BYTES && cookies.len() <= MAX_COOKIE_BYTES
}

/// Every state a search passes through holds `search_wf`, so a reported match
/// always names a valid profile whose cookie store holds a session, and its
/// files fit their limits.
pub proof fn law_search_stays_well_formed(account: AccountId, s: SearchView, seen: SeenView)
    requires
        search_wf(s),
        search_expects(s.stage, seen),
    ensures
        search_wf(search_first(account).0),
        search_wf(search_next(s, seen).0),
        search_next(s, seen).1 matches SearchStepView::Finish(Some(m)) ==> valid_profile_name(
            m.name,
        ) && store_session(m.cookies) is Some && files_within_limits(m.identity, m.cookies),
{
}

/// A match once kept is kept until the search ends: a step that does not
/// finish the search never drops or replaces the kept match, and the only
/// step that changes it is the one that keeps a first match, after its files
/// read back unchanged. An entry that is passed over, for whatever reason,
/// costs nothing already found.
pub proof fn law_a_kept_match_is_never_forgotten(s: SearchView, seen: SeenView)
    requires
        search_expects(s.stage, seen),
    ensures
        ({
            let t = search_next(s, seen).0;
            &&& t.account == s.account
            &&& t.stage !is Finished && s.first is Some ==> t.first == s.first
            &&& t.stage !is Finished && t.first != s.first ==> s.first is None
                && s.stage is RereadingCookies
            &&& t.stage is Scanning && !(s.stage is RereadingCookies) ==> t.first == s.first
        }),
{
}

} // verus!
