//! Where a session is kept: the desktop secret service, a `0600` file in the
//! profile, or nowhere.
//!
//! A stored session is a convenience and never a prerequisite: every way this
//! can fail ends in a signed-out launch with a line saying why, never in a
//! client that will not start. Nothing here ever asks the service to unlock
//! anything, and nothing here formats a stored value into a message.
//!
//! The file system, the session bus and the console are driven from outside
//! this crate. The operations that touch them are written as small machines:
//! each step takes what the last effect observed and says what to do next.

use vstd::prelude::*;
use vstd::utf8::{decode_utf8, encode_utf8, valid_utf8};
use crate::text::{
    begins_with, chars_of, debug_quoted, digit_char, file_name, final_name, join, joined,
    push_char, quoted, same_text, string_from_utf8,
};

verus! {

broadcast use vstd::string::group_string_axioms;

/// The environment variable that chooses the store: `auto` (the default)
/// prefers the service and falls back to the file, `keyring` refuses the
/// fallback, `file` skips the service outright.
pub const SETTING: &'static str = "CORDIAL_SECRET_STORE";

/// Marks a value stored hex-encoded in the service, so that it is one ASCII
/// line whatever the body holds.
pub const ENCODED_PREFIX: &'static str = "cordial-secret-hex-v1:";

/// Which of the two stores a body belongs to. The name doubles as the file
/// name in the profile and as the `store` attribute in the service.
#[derive(Clone, Copy, PartialEq, Eq, Debug, Structural)]
pub enum Kind {
    Cookies,
    Identity,
}

/// Where this instance keeps a session.
#[derive(Clone, Copy, PartialEq, Eq, Debug, Structural)]
pub enum Store {
    /// `org.freedesktop.secrets`, keyed per profile.
    Keyring,
    /// A `0600` file in the profile, in plaintext. Announced, never silent.
    File,
    /// Nothing is kept: reached only by asking for `keyring` on a machine that
    /// has none.
    Nowhere,
}

/// The name of a store: `cookies` or `identity`.
pub open spec fn kind_name(kind: Kind) -> Seq<char> {
    match kind {
        Kind::Cookies => "cookies"@,
        Kind::Identity => "identity"@,
    }
}

impl Kind {
    /// The store's name, used as its file name and as its service attribute.
    pub fn name(self) -> (r: &'static str)
        ensures
            r@ == kind_name(self),
    {
        match self {
            Kind::Cookies => "cookies",
            Kind::Identity => "identity",
        }
    }

    /// What someone reading their keyring sees for an item. Never contains a
    /// value.
    pub fn label(self, dir: &str) -> (r: String)
        ensures
            r@ == item_label(self, dir@),
    {
        let mut r = String::from_str("Cordial: Roblox ");
        r.append(self.name());
        match file_name(dir) {
            Some(p) => {
                r.append(" for profile ");
                let q = quoted(p.as_str());
                r.append(q.as_str());
            },
            None => {},
        }
        r
    }
}

/// The label of a service item: the store's name, and the profile directory's
/// own name written with `{:?}` when the directory has one.
pub open spec fn item_label(kind: Kind, dir: Seq<char>) -> Seq<char> {
    match final_name(dir) {
        Some(p) => "Cordial: Roblox "@ + kind_name(kind) + " for profile "@ + debug_quoted(p),
        None => "Cordial: Roblox "@ + kind_name(kind),
    }
}

/// The file a store occupies in a profile directory.
pub open spec fn store_path(dir: Seq<char>, kind: Kind) -> Seq<char> {
    joined(dir, kind_name(kind))
}

/// What a startup line names as the place a session is kept.
pub open spec fn kept_at(store: Store, dir: Seq<char>, kind: Kind) -> Seq<char> {
    match store {
        Store::Keyring => "the desktop secret service"@,
        Store::File => store_path(dir, kind),
        Store::Nowhere => "nowhere; this session is not being saved"@,
    }
}

/// Where a session is kept, for a startup line to name.
pub fn where_kept(store: Store, dir: &str, kind: Kind) -> (r: String)
    ensures
        r@ == kept_at(store, dir@, kind),
{
    match store {
        Store::Keyring => String::from_str("the desktop secret service"),
        Store::File => join(dir, kind.name()),
        Store::Nowhere => String::from_str("nowhere; this session is not being saved"),
    }
}

/// The attributes a service item is searched and stored under, as
/// `(name, value)` pairs.
pub type Attributes = Vec<(String, String)>;

/// The attributes of a profile's store: the `xdg:schema` family, the
/// application, the profile's full path and the store's name.
pub open spec fn item_attributes(dir: Seq<char>, kind: Kind) -> Seq<(Seq<char>, Seq<char>)> {
    seq![
        ("xdg:schema"@, "org.cordial.Session"@),
        ("application"@, "cordial"@),
        ("profile"@, dir),
        ("store"@, kind_name(kind)),
    ]
}

/// The pairs of a set of attributes, as text.
pub open spec fn attributes_view(a: Seq<(String, String)>) -> Seq<(Seq<char>, Seq<char>)> {
    a.map_values(|p: (String, String)| (p.0@, p.1@))
}

/// How the service tells one profile's session from another's: keyed by the
/// profile's full path, not by its name, so that two roots that both hold a
/// profile called `default` never share an item.
pub fn attributes(dir: &str, kind: Kind) -> (r: Attributes)
    ensures
        attributes_view(r@) == item_attributes(dir@, kind),
{
    let mut r: Attributes = Vec::new();
    r.push((String::from_str("xdg:schema"), String::from_str("org.cordial.Session")));
    r.push((String::from_str("application"), String::from_str("cordial")));
    r.push((String::from_str("profile"), String::from_str(dir)));
    r.push((String::from_str("store"), String::from_str(kind.name())));
    assert(attributes_view(r@) =~= item_attributes(dir@, kind));
    r
}

/// Whether a setting is answered by asking the service first: `keyring`,
/// `auto`, or nothing set.
pub open spec fn asks_service(requested: Seq<char>) -> bool {
    requested == "keyring"@ || requested == "auto"@ || requested.len() == 0
}

/// The store a setting and the service's answer choose, and the one line that
/// announces it. `profile` is the active profile directory.
pub open spec fn decision(
    requested: Seq<char>,
    profile: Seq<char>,
    probed: Result<(), String>,
) -> (Store, Seq<char>) {
    let file = joined(profile, "cookies"@);
    if requested == "file"@ {
        (
            Store::File,
            "  [secrets] CORDIAL_SECRET_STORE=file: the session is kept in plaintext at "@ + file
                + ", by request"@,
        )
    } else if asks_service(requested) {
        match probed {
            Ok(()) => (
                Store::Keyring,
                "  [secrets] the session is kept in the desktop secret service (org.freedesktop.secrets); nothing is written to the profile"@,
            ),
            Err(why) => if requested == "keyring"@ {
                (
                    Store::Nowhere,
                    "  [secrets] CORDIAL_SECRET_STORE=keyring, and "@ + why@
                        + ". This session will not be saved; you will sign in again next launch."@,
                )
            } else {
                (
                    Store::File,
                    "  [secrets] "@ + why@ + ", so the session falls back to a 0600 file at "@
                        + file
                        + ". Anything that can read your files can take the account. Set CORDIAL_SECRET_STORE=keyring to refuse this and stay signed out instead."@,
                )
            },
        }
    } else {
        (
            Store::File,
            "  [secrets] CORDIAL_SECRET_STORE="@ + debug_quoted(requested)
                + " is not one of auto, keyring, file; treating it as file, which keeps the session in plaintext at "@
                + file,
        )
    }
}

/// The choice and its announcement, once the service's answer is known (or
/// not needed).
pub fn settle(requested: &str, profile: &str, probed: Result<(), String>) -> (r: (Store, String))
    ensures
        (r.0, r.1@) == decision(requested@, profile@, probed),
{
    let file = join(profile, "cookies");
    if same_text(requested, "file") {
        let mut line = String::from_str(
            "  [secrets] CORDIAL_SECRET_STORE=file: the session is kept in plaintext at ",
        );
        line.append(file.as_str());
        line.append(", by request");
        (Store::File, line)
    } else if same_text(requested, "keyring") || same_text(requested, "auto") || requested.is_empty() {
        match probed {
            Ok(()) => (
                Store::Keyring,
                String::from_str(
                    "  [secrets] the session is kept in the desktop secret service (org.freedesktop.secrets); nothing is written to the profile",
                ),
            ),
            Err(why) => if same_text(requested, "keyring") {
                let mut line = String::from_str("  [secrets] CORDIAL_SECRET_STORE=keyring, and ");
                line.append(why.as_str());
                line.append(
                    ". This session will not be saved; you will sign in again next launch.",
                );
                (Store::Nowhere, line)
            } else {
                let mut line = String::from_str("  [secrets] ");
                line.append(why.as_str());
                line.append(", so the session falls back to a 0600 file at ");
                line.append(file.as_str());
                line.append(
                    ". Anything that can read your files can take the account. Set CORDIAL_SECRET_STORE=keyring to refuse this and stay signed out instead.",
                );
                (Store::File, line)
            },
        }
    } else {
        let mut line = String::from_str("  [secrets] CORDIAL_SECRET_STORE=");
        let q = quoted(requested);
        line.append(q.as_str());
        line.append(
            " is not one of auto, keyring, file; treating it as file, which keeps the session in plaintext at ",
        );
        line.append(file.as_str());
        (Store::File, line)
    }
}

/// The choice, split out from the printing and from the bus.
///
/// `probe` asks whether the service is there and open. It is called only for
/// the settings that want the service, so `file` never touches the bus: the
/// probe need not be callable for any other setting, and this body cannot
/// call it there.
/// `profile` is the active profile directory, named in the announcement.
pub fn decide(
    requested: &str,
    profile: &str,
    probe: impl FnOnce() -> Result<(), String>,
) -> (r: (Store, String))
    requires
        asks_service(requested@) ==> call_requires(probe, ()),
    ensures
        !asks_service(requested@) ==> (r.0, r.1@) == decision(requested@, profile@, Ok(())),
        asks_service(requested@) ==> exists|p: Result<(), String>|
            call_ensures(probe, (), p) && (r.0, r.1@) == decision(requested@, profile@, p),
{
    if same_text(requested, "keyring") || same_text(requested, "auto") || requested.is_empty() {
        let p = probe();
        settle(requested, profile, p)
    } else {
        settle(requested, profile, Ok(()))
    }
}

/// The three settings are different words, none of them empty.
proof fn lemma_settings_distinct()
    ensures
        "file"@ != "keyring"@,
        "file"@ != "auto"@,
        "auto"@ != "keyring"@,
        "file"@.len() > 0,
        "auto"@.len() > 0,
        "keyring"@.len() > 0,
{
    reveal_strlit("file");
    reveal_strlit("keyring");
    reveal_strlit("auto");
    assert("auto"@[0] != "file"@[0]);
}

/// Every setting and every answer from the service resolves to a store and a
/// line that announces it: nothing here can stop a client starting.
pub proof fn law_every_outcome_is_announced(
    requested: Seq<char>,
    profile: Seq<char>,
    probed: Result<(), String>,
)
    ensures
        decision(requested, profile, probed).1.len() > 0,
{
    reveal_strlit("  [secrets] CORDIAL_SECRET_STORE=file: the session is kept in plaintext at ");
    reveal_strlit(
        "  [secrets] the session is kept in the desktop secret service (org.freedesktop.secrets); nothing is written to the profile",
    );
    reveal_strlit("  [secrets] CORDIAL_SECRET_STORE=keyring, and ");
    reveal_strlit("  [secrets] ");
    reveal_strlit("  [secrets] CORDIAL_SECRET_STORE=");
}

/// The service is used exactly when the setting asks for it and the service
/// answered that it is there and open; nothing is kept exactly when the user
/// asked for `keyring` and the service could not be used. Every other outcome
/// keeps the session in the file.
pub proof fn law_store_follows_setting_and_answer(
    requested: Seq<char>,
    profile: Seq<char>,
    probed: Result<(), String>,
)
    ensures
        (decision(requested, profile, probed).0 == Store::Keyring) <==> (asks_service(requested)
            && probed is Ok),
        (decision(requested, profile, probed).0 == Store::Nowhere) <==> (requested == "keyring"@
            && probed is Err),
{
    lemma_settings_distinct();
}

/// A locked or missing keyring never costs the user their session unless they
/// asked for `keyring`: the session falls back to the `0600` file, and the line
/// says why and where. Under `keyring` the line says the session will not be
/// saved.
pub proof fn law_unusable_service_is_announced(
    requested: Seq<char>,
    profile: Seq<char>,
    why: String,
)
    requires
        asks_service(requested),
    ensures
        requested != "keyring"@ ==> {
            let (store, line) = decision(requested, profile, Err(why));
            &&& store == Store::File
            &&& crate::text::occurs(line, why@)
            &&& crate::text::occurs(line, "0600"@)
        },
        requested == "keyring"@ ==> crate::text::occurs(
            decision(requested, profile, Err(why)).1,
            "will not be saved"@,
        ),
{
    lemma_settings_distinct();
    reveal_strlit("  [secrets] ");
    reveal_strlit(", so the session falls back to a 0600 file at ");
    reveal_strlit("0600");
    reveal_strlit("  [secrets] CORDIAL_SECRET_STORE=keyring, and ");
    reveal_strlit(". This session will not be saved; you will sign in again next launch.");
    reveal_strlit("will not be saved");
    let line = decision(requested, profile, Err(why)).1;
    if requested != "keyring"@ {
        let w = why@;
        assert(line.subrange(12, 12 + w.len() as int) =~= w);
        let z = "0600"@;
        let at: int = 12 + w.len() as int + 33;
        assert(line.subrange(at, at + z.len() as int) =~= z);
    } else {
        let pre = "  [secrets] CORDIAL_SECRET_STORE=keyring, and "@;
        let post = ". This session will not be saved; you will sign in again next launch."@;
        assert(line == pre + why@ + post);
        assert(pre.len() == 46);
        let n = "will not be saved"@;
        let at: int = 46 + why@.len() as int + 15;
        assert(line.subrange(at, at + n.len() as int) =~= n);
    }
}

/// The lower-case hexadecimal digit for `n < 16`.
pub open spec fn hex_digit(n: nat) -> char {
    if n < 10 {
        digit_char(n)
    } else if n == 10 {
        'a'
    } else if n == 11 {
        'b'
    } else if n == 12 {
        'c'
    } else if n == 13 {
        'd'
    } else if n == 14 {
        'e'
    } else {
        'f'
    }
}

/// Bytes written as lower-case hexadecimal, two digits each, high nibble
/// first.
pub open spec fn hex_of(b: Seq<u8>) -> Seq<char>
    decreases b.len(),
{
    if b.len() == 0 {
        seq![]
    } else {
        seq![hex_digit((b[0] / 16) as nat), hex_digit((b[0] % 16) as nat)] + hex_of(
            b.drop_first(),
        )
    }
}

/// How a body is stored in the service: the marker, then the body's UTF-8
/// bytes in hexadecimal.
pub open spec fn keyring_encoded(body: Seq<char>) -> Seq<char> {
    ENCODED_PREFIX@ + hex_of(encode_utf8(body))
}

fn hex_char(n: u8) -> (c: char)
    requires
        n < 16,
    ensures
        c == hex_digit(n as nat),
{
    if n < 10 {
        if n == 0 {
            '0'
        } else if n == 1 {
            '1'
        } else if n == 2 {
            '2'
        } else if n == 3 {
            '3'
        } else if n == 4 {
            '4'
        } else if n == 5 {
            '5'
        } else if n == 6 {
            '6'
        } else if n == 7 {
            '7'
        } else if n == 8 {
            '8'
        } else {
            '9'
        }
    } else if n == 10 {
        'a'
    } else if n == 11 {
        'b'
    } else if n == 12 {
        'c'
    } else if n == 13 {
        'd'
    } else if n == 14 {
        'e'
    } else {
        'f'
    }
}

/// A body as the service carries it: one ASCII line, whatever the body holds,
/// because the service truncates values containing newlines, tabs or `=`.
pub fn encode_keyring(body: &str) -> (r: String)
    ensures
        r@ == keyring_encoded(body@),
{
    let bytes = body.as_bytes();
    let mut r = String::from_str(ENCODED_PREFIX);
    let mut i: usize = 0;
    assert(bytes@.skip(0) =~= bytes@);
    while i < bytes.len()
        invariant
            i <= bytes@.len(),
            bytes@ == encode_utf8(body@),
            keyring_encoded(body@) == r@ + hex_of(bytes@.skip(i as int)),
        decreases bytes@.len() - i,
    {
        let b = bytes[i];
        assert(bytes@.skip(i as int).drop_first() =~= bytes@.skip(i + 1));
        push_char(&mut r, hex_char(b / 16));
        push_char(&mut r, hex_char(b % 16));
        i += 1;
    }
    assert(bytes@.skip(i as int) =~= Seq::<u8>::empty());
    assert(r@ + hex_of(Seq::<u8>::empty()) =~= r@);
    r
}

/// The value of a hexadecimal digit, either case.
pub open spec fn hex_value(c: char) -> Option<u8> {
    let u = c as u32;
    if 48 <= u <= 57 {
        Some((u - 48) as u8)
    } else if 97 <= u <= 102 {
        Some((u - 87) as u8)
    } else if 65 <= u <= 70 {
        Some((u - 55) as u8)
    } else {
        None
    }
}

fn hex_nibble(c: char) -> (r: Option<u8>)
    ensures
        r == hex_value(c),
{
    let u = c as u32;
    if 48 <= u && u <= 57 {
        Some((u - 48) as u8)
    } else if 97 <= u && u <= 102 {
        Some((u - 87) as u8)
    } else if 65 <= u && u <= 70 {
        Some((u - 55) as u8)
    } else {
        None
    }
}

/// Pairs of hexadecimal digits read back as bytes; nothing if a digit is not
/// one or a digit is left over.
pub open spec fn unhex(h: Seq<char>) -> Option<Seq<u8>>
    decreases h.len(),
{
    if h.len() == 0 {
        Some(seq![])
    } else if h.len() == 1 {
        None
    } else {
        match (hex_value(h[0]), hex_value(h[1]), unhex(h.skip(2))) {
            (Some(hi), Some(lo), Some(rest)) => Some(seq![(hi * 16 + lo) as u8] + rest),
            _ => None,
        }
    }
}

/// A value read back from the service: the body, when it carries the marker
/// followed by an even number of hexadecimal digits that spell out UTF-8.
pub open spec fn keyring_decoded(stored: Seq<char>) -> Option<Seq<char>> {
    let p = ENCODED_PREFIX@;
    if stored.len() < p.len() || stored.take(p.len() as int) != p {
        None
    } else {
        let h = stored.skip(p.len() as int);
        if h.len() % 2 != 0 {
            None
        } else {
            match unhex(h) {
                Some(b) => if valid_utf8(b) {
                    Some(decode_utf8(b))
                } else {
                    None
                },
                None => None,
            }
        }
    }
}

/// Reads a stored value back into the body it encodes.
pub fn decode_keyring(stored: &str) -> (r: Option<String>)
    ensures
        match keyring_decoded(stored@) {
            Some(b) => r matches Some(t) && t@ == b,
            None => r is None,
        },
{
    let v = chars_of(stored);
    let p = chars_of(ENCODED_PREFIX);
    if !begins_with(v.as_slice(), p.as_slice()) {
        return None;
    }
    let start = p.len();
    if (v.len() - start) % 2 != 0 {
        return None;
    }
    let ghost h = v@.skip(start as int);
    let mut bytes: Vec<u8> = Vec::new();
    let mut i = start;
    assert(v@.skip(i as int) =~= h);
    assert(bytes@ + Seq::<u8>::empty() =~= bytes@);
    while i < v.len()
        invariant
            v@ == stored@,
            p@ == ENCODED_PREFIX@,
            start == p@.len(),
            p@.len() <= v@.len(),
            v@.take(p@.len() as int) == p@,
            (v@.len() - start) % 2 == 0,
            start <= i <= v@.len(),
            (v@.len() - i) % 2 == 0,
            h == v@.skip(start as int),
            unhex(h) == match unhex(v@.skip(i as int)) {
                Some(rest) => Some(bytes@ + rest),
                None => None::<Seq<u8>>,
            },
        decreases v@.len() - i,
    {
        let ghost t = v@.skip(i as int);
        assert(t[0] == v@[i as int]);
        assert(t[1] == v@[i + 1]);
        assert(t.skip(2) =~= v@.skip(i + 2));
        assert(t.len() >= 2);
        let hi = match hex_nibble(v[i]) {
            Some(x) => x,
            None => {
                assert(unhex(t) is None);
                return None;
            },
        };
        let lo = match hex_nibble(v[i + 1]) {
            Some(x) => x,
            None => {
                assert(unhex(t) is None);
                return None;
            },
        };
        let ghost before = bytes@;
        bytes.push(hi * 16 + lo);
        proof {
            match unhex(v@.skip(i + 2)) {
                Some(rest) => {
                    assert(before + (seq![(hi * 16 + lo) as u8] + rest) =~= bytes@ + rest);
                },
                None => {},
            }
        }
        i += 2;
    }
    assert(v@.skip(i as int) =~= Seq::<char>::empty());
    assert(bytes@ + Seq::<u8>::empty() =~= bytes@);
    string_from_utf8(bytes)
}

proof fn lemma_hex_digit_value(n: nat)
    requires
        n < 16,
    ensures
        hex_value(hex_digit(n)) == Some(n as u8),
{
}

proof fn lemma_hex_of_len(b: Seq<u8>)
    ensures
        hex_of(b).len() == 2 * b.len(),
    decreases b.len(),
{
    if b.len() > 0 {
        lemma_hex_of_len(b.drop_first());
    }
}

proof fn lemma_hex_of_at(b: Seq<u8>)
    ensures
        forall|i: int|
            0 <= i < b.len() ==> hex_of(b)[2 * i] == hex_digit((#[trigger] b[i] / 16) as nat)
                && hex_of(b)[2 * i + 1] == hex_digit((b[i] % 16) as nat),
    decreases b.len(),
{
    if b.len() > 0 {
        let r = b.drop_first();
        lemma_hex_of_at(r);
        lemma_hex_of_len(r);
        assert forall|i: int| 0 <= i < b.len() implies hex_of(b)[2 * i] == hex_digit(
            (#[trigger] b[i] / 16) as nat,
        ) && hex_of(b)[2 * i + 1] == hex_digit((b[i] % 16) as nat) by {
            if i > 0 {
                assert(b[i] == r[i - 1]);
                assert(hex_of(b)[2 * i] == hex_of(r)[2 * (i - 1)]);
                assert(hex_of(b)[2 * i + 1] == hex_of(r)[2 * (i - 1) + 1]);
            }
        }
    }
}

/// The hexadecimal digits are the usual ones: digit `n` is the `n`-th of
/// `0123456789abcdef`, and reading back the `n`-th of `0123456789abcdef` or of
/// `0123456789ABCDEF` gives `n`.
pub proof fn law_hex_digits_are_the_usual_ones(n: nat)
    requires
        n < 16,
    ensures
        hex_digit(n) == "0123456789abcdef"@[n as int],
        hex_value("0123456789abcdef"@[n as int]) == Some(n as u8),
        hex_value("0123456789ABCDEF"@[n as int]) == Some(n as u8),
{
    reveal_strlit("0123456789abcdef");
    reveal_strlit("0123456789ABCDEF");
    let lower = "0123456789abcdef"@;
    let upper = "0123456789ABCDEF"@;
    assert(lower =~= seq!['0', '1', '2', '3', '4', '5', '6', '7', '8', '9', 'a', 'b', 'c', 'd', 'e', 'f']);
    assert(upper =~= seq!['0', '1', '2', '3', '4', '5', '6', '7', '8', '9', 'A', 'B', 'C', 'D', 'E', 'F']);
}

/// The code points of the two digit strings: `0`-`9` are 48-57, `a`-`f`
/// 97-102 and `A`-`F` 65-70.
proof fn lemma_digit_codes()
    ensures
        forall|k: int|
            0 <= k < 16 ==> ("0123456789abcdef"@[k] as u32) == (if k < 10 {
                48 + k
            } else {
                87 + k
            }) && ("0123456789ABCDEF"@[k] as u32) == (if k < 10 {
                48 + k
            } else {
                55 + k
            }),
{
    reveal_strlit("0123456789abcdef");
    reveal_strlit("0123456789ABCDEF");
    let lower = "0123456789abcdef"@;
    let upper = "0123456789ABCDEF"@;
    assert(lower =~= seq!['0', '1', '2', '3', '4', '5', '6', '7', '8', '9', 'a', 'b', 'c', 'd', 'e', 'f']);
    assert(upper =~= seq!['0', '1', '2', '3', '4', '5', '6', '7', '8', '9', 'A', 'B', 'C', 'D', 'E', 'F']);
    assert(lower[0] as u32 == 48 && upper[0] as u32 == 48);
    assert(lower[1] as u32 == 49 && upper[1] as u32 == 49);
    assert(lower[2] as u32 == 50 && upper[2] as u32 == 50);
    assert(lower[3] as u32 == 51 && upper[3] as u32 == 51);
    assert(lower[4] as u32 == 52 && upper[4] as u32 == 52);
    assert(lower[5] as u32 == 53 && upper[5] as u32 == 53);
    assert(lower[6] as u32 == 54 && upper[6] as u32 == 54);
    assert(lower[7] as u32 == 55 && upper[7] as u32 == 55);
    assert(lower[8] as u32 == 56 && upper[8] as u32 == 56);
    assert(lower[9] as u32 == 57 && upper[9] as u32 == 57);
    assert(lower[10] as u32 == 97 && upper[10] as u32 == 65);
    assert(lower[11] as u32 == 98 && upper[11] as u32 == 66);
    assert(lower[12] as u32 == 99 && upper[12] as u32 == 67);
    assert(lower[13] as u32 == 100 && upper[13] as u32 == 68);
    assert(lower[14] as u32 == 101 && upper[14] as u32 == 69);
    assert(lower[15] as u32 == 102 && upper[15] as u32 == 70);
}

/// Nothing but a hexadecimal digit reads back as one: a character that gives
/// a value `n` is the `n`-th of `0123456789abcdef` or of `0123456789ABCDEF`.
pub proof fn law_only_hex_digits_read_back(c: char)
    ensures
        hex_value(c) matches Some(n) ==> n < 16 && ("0123456789abcdef"@[n as int] == c
            || "0123456789ABCDEF"@[n as int] == c),
{
    lemma_digit_codes();
    if let Some(n) = hex_value(c) {
        let u = c as u32;
        let k = n as int;
        let x = if u <= 102 && !(65 <= u <= 70) {
            "0123456789abcdef"@[k]
        } else {
            "0123456789ABCDEF"@[k]
        };
        assert(x as u32 == u);
        vstd::utf8::char_u32_cast(x, u);
        vstd::utf8::char_u32_cast(c, u);
    }
}

/// A stored value is the marker followed by each UTF-8 byte of the body as two
/// digits of `0123456789abcdef`, the byte's high half first.
pub proof fn law_keyring_value_spells_each_byte(body: Seq<char>)
    ensures
        ({
            let b = encode_utf8(body);
            let e = keyring_encoded(body);
            let p = ENCODED_PREFIX@.len() as int;
            let digits = "0123456789abcdef"@;
            &&& e.len() == p + 2 * b.len()
            &&& e.take(p) == ENCODED_PREFIX@
            &&& forall|i: int|
                0 <= i < b.len() ==> e[p + 2 * i] == digits[(#[trigger] b[i] / 16) as int] && e[p
                    + 2 * i + 1] == digits[(b[i] % 16) as int]
        }),
{
    let b = encode_utf8(body);
    let e = keyring_encoded(body);
    let p = ENCODED_PREFIX@.len() as int;
    let digits = "0123456789abcdef"@;
    lemma_hex_of_len(b);
    lemma_hex_of_at(b);
    assert(e.take(p) =~= ENCODED_PREFIX@);
    assert forall|i: int| 0 <= i < b.len() implies e[p + 2 * i] == digits[(#[trigger] b[i]
        / 16) as int] && e[p + 2 * i + 1] == digits[(b[i] % 16) as int] by {
        law_hex_digits_are_the_usual_ones((b[i] / 16) as nat);
        law_hex_digits_are_the_usual_ones((b[i] % 16) as nat);
        assert(e[p + 2 * i] == hex_of(b)[2 * i]);
        assert(e[p + 2 * i + 1] == hex_of(b)[2 * i + 1]);
    }
}

proof fn lemma_unhex_hex_of(b: Seq<u8>)
    ensures
        unhex(hex_of(b)) == Some(b),
    decreases b.len(),
{
    if b.len() > 0 {
        let h = hex_of(b);
        let x = b[0];
        lemma_hex_of_len(b.drop_first());
        lemma_unhex_hex_of(b.drop_first());
        lemma_hex_digit_value((x / 16) as nat);
        lemma_hex_digit_value((x % 16) as nat);
        assert(h.skip(2) =~= hex_of(b.drop_first()));
        assert(((x / 16) * 16 + x % 16) as u8 == x);
        assert(seq![x] + b.drop_first() =~= b);
    }
}

/// What is stored comes back byte for byte: decoding an encoded body gives
/// the body.
pub proof fn law_keyring_round_trip(body: Seq<char>)
    ensures
        keyring_decoded(keyring_encoded(body)) == Some(body),
{
    let b = encode_utf8(body);
    let e = keyring_encoded(body);
    let p = ENCODED_PREFIX@;
    vstd::utf8::encode_utf8_valid_utf8(body);
    vstd::utf8::encode_utf8_decode_utf8(body);
    lemma_hex_of_len(b);
    lemma_unhex_hex_of(b);
    assert(e.take(p.len() as int) =~= p);
    assert(e.skip(p.len() as int) =~= hex_of(b));
}

proof fn lemma_hex_of_plain(b: Seq<u8>)
    ensures
        forall|i: int|
            0 <= i < hex_of(b).len() ==> {
                let c = #[trigger] hex_of(b)[i];
                &&& c != '\n'
                &&& c != '\t'
                &&& c != '='
                &&& c != '\r'
            },
    decreases b.len(),
{
    if b.len() > 0 {
        lemma_hex_of_plain(b.drop_first());
        let h = hex_of(b);
        assert forall|i: int| 0 <= i < h.len() implies {
            let c = #[trigger] h[i];
            &&& c != '\n'
            &&& c != '\t'
            &&& c != '='
            &&& c != '\r'
        } by {
            if i >= 2 {
                assert(h[i] == hex_of(b.drop_first())[i - 2]);
            }
        }
    }
}

/// A stored value is one line holding none of the separators the service
/// truncates at: no newline, carriage return, tab or `=`.
pub proof fn law_keyring_value_is_one_plain_line(body: Seq<char>)
    ensures
        forall|i: int|
            0 <= i < keyring_encoded(body).len() ==> {
                let c = #[trigger] keyring_encoded(body)[i];
                &&& c != '\n'
                &&& c != '\t'
                &&& c != '='
                &&& c != '\r'
            },
{
    let p = ENCODED_PREFIX@;
    let h = hex_of(encode_utf8(body));
    let e = keyring_encoded(body);
    reveal_strlit("cordial-secret-hex-v1:");
    lemma_hex_of_plain(encode_utf8(body));
    assert forall|i: int| 0 <= i < e.len() implies {
        let c = #[trigger] e[i];
        &&& c != '\n'
        &&& c != '\t'
        &&& c != '='
        &&& c != '\r'
    } by {
        if i >= p.len() {
            assert(e[i] == h[i - p.len()]);
        } else {
            assert(e[i] == p[i]);
        }
    }
}

/// The attributes are the whole of the isolation between profiles: two
/// profile directories, even two that share a name under different roots, or
/// the two stores of one profile, never share a service item.
pub proof fn law_attributes_separate_profiles_and_stores(
    dir1: Seq<char>,
    kind1: Kind,
    dir2: Seq<char>,
    kind2: Kind,
)
    ensures
        item_attributes(dir1, kind1) == item_attributes(dir2, kind2) ==> dir1 == dir2 && kind1
            == kind2,
{
    reveal_strlit("cookies");
    reveal_strlit("identity");
    assert("cookies"@.len() != "identity"@.len());
    if item_attributes(dir1, kind1) == item_attributes(dir2, kind2) {
        let a = item_attributes(dir1, kind1);
        let b = item_attributes(dir2, kind2);
        assert(a[2] == ("profile"@, dir1));
        assert(b[2] == ("profile"@, dir2));
        assert(a[3] == ("store"@, kind_name(kind1)));
        assert(b[3] == ("store"@, kind_name(kind2)));
        assert(a[2] == b[2]);
        assert(a[3] == b[3]);
    }
}

} // verus!
