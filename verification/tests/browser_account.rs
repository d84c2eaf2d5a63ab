use cordial::browser_account::{
    bytes_equal, is_valid_name, search, session_from_store, snapshot_for_test, unescape,
    within_limit, AccountId, Candidate, ProfileMatch, SavedIdentity, Search, SearchStep, Seen,
    SessionCookie, Want, MAX_COOKIE_BYTES, MAX_IDENTITY_BYTES,
};
use std::collections::HashMap;

fn session_value(bytes: &[u8]) -> Option<String> {
    session_from_store(bytes).map(|s| s.value().to_string())
}

#[test]
fn unescaping_resolves_the_four_escapes() {
    assert_eq!(unescape("a\\tb\\nc\\rd\\\\e"), "a\tb\nc\rd\\e");
    assert_eq!(unescape("keep\\x"), "keep\\x");
    assert_eq!(unescape("trailing\\"), "trailing\\");
    assert_eq!(unescape(""), "");
    assert_eq!(unescape("\\\\t"), "\\t");
}

#[test]
fn a_store_yields_its_one_session() {
    let store = b"# Netscape cookie file\n\nroblox.com\tGuestData=x; .ROBLOSECURITY=_|WARNING|_abc; RBXID=1\n";
    assert_eq!(session_value(store).as_deref(), Some("_|WARNING|_abc"));
}

#[test]
fn a_repeated_session_is_still_one_session() {
    let store = b"roblox.com\t.ROBLOSECURITY=tok\nwww.roblox.com\t .ROBLOSECURITY=tok ;x=y\r\n";
    assert_eq!(session_value(store).as_deref(), Some("tok"));
}

#[test]
fn two_different_sessions_are_no_session() {
    let store = b"roblox.com\t.ROBLOSECURITY=one\nwww.roblox.com\t.ROBLOSECURITY=two\n";
    assert_eq!(session_value(store), None);
}

#[test]
fn a_line_without_a_tab_makes_the_store_unusable() {
    assert_eq!(session_value(b"roblox.com\t.ROBLOSECURITY=tok\nbroken line\n"), None);
    assert_eq!(session_value(b"# comment without tab\n   \t \nroblox.com\t.ROBLOSECURITY=tok"), Some("tok".to_string()));
}

#[test]
fn an_empty_session_value_makes_the_store_unusable() {
    assert_eq!(session_value(b"roblox.com\t.ROBLOSECURITY=\n"), None);
    assert_eq!(session_value(b"roblox.com\t.ROBLOSECURITY=  ;\n"), None);
}

#[test]
fn a_store_without_a_session_has_none() {
    assert_eq!(session_value(b""), None);
    assert_eq!(session_value(b"roblox.com\tRBXID=1; .ROBLOSECURITY; .ROBLOSECURITY =x\n"), None);
}

#[test]
fn escapes_in_the_jar_are_resolved_before_splitting() {
    assert_eq!(session_value(b"roblox.com\tRBXID=1\\t;.ROBLOSECURITY=a\\\\b\n").as_deref(), Some("a\\b"));
    assert_eq!(session_value(b"roblox.com\tx=1;\\n.ROBLOSECURITY=v\n").as_deref(), Some("v"));
}

#[test]
fn bytes_that_are_not_text_hold_no_session() {
    assert_eq!(session_value(b"roblox.com\t.ROBLOSECURITY=tok\xff\n"), None);
}

#[test]
fn a_session_cookie_keeps_its_value() {
    assert!(SessionCookie::from_value("").is_none());
    let a = SessionCookie::from_value("abc").unwrap();
    let b = SessionCookie::from_value("abc").unwrap();
    let c = SessionCookie::from_value("abd").unwrap();
    assert_eq!(a.value(), "abc");
    assert!(a.same_as(&b));
    assert!(!a.same_as(&c));
}

#[test]
fn profile_names_are_single_visible_components() {
    assert!(is_valid_name("default"));
    assert!(is_valid_name("Work Account 2"));
    assert!(!is_valid_name(""));
    assert!(!is_valid_name("."));
    assert!(!is_valid_name(".."));
    assert!(!is_valid_name(".hidden"));
    assert!(!is_valid_name("a/b"));
    assert!(!is_valid_name("tab\there"));
}

#[test]
fn reads_are_held_to_their_limit() {
    assert_eq!(within_limit(Some(vec![1, 2, 3]), 3), Some(vec![1, 2, 3]));
    assert_eq!(within_limit(Some(vec![1, 2, 3, 4]), 3), None);
    assert_eq!(within_limit(None, 3), None);
    assert_eq!(MAX_IDENTITY_BYTES, 16 * 1024);
    assert_eq!(MAX_COOKIE_BYTES, 1024 * 1024);
    assert!(bytes_equal(b"ab", b"ab"));
    assert!(!bytes_equal(b"ab", b"abc"));
}

#[test]
fn a_snapshot_needs_both_files() {
    assert!(snapshot_for_test("p", Some(vec![1]), None).is_none());
    assert!(snapshot_for_test("p", None, Some(vec![1])).is_none());
    let m = snapshot_for_test("p", Some(b"id".to_vec()), Some(b"ck".to_vec())).unwrap();
    assert_eq!(m.name(), "p");
    assert!(m.still_matches("p", Some(b"id".to_vec()), Some(b"ck".to_vec())));
    assert!(!m.still_matches("q", Some(b"id".to_vec()), Some(b"ck".to_vec())));
    assert!(!m.still_matches("p", Some(b"id2".to_vec()), Some(b"ck".to_vec())));
    assert!(!m.still_matches("p", Some(b"id".to_vec()), None));
}

/// A pretend profiles root: entry name to (is_dir, identity file, cookie store).
struct Root {
    listable: bool,
    entries: Vec<(String, bool)>,
    files: HashMap<(String, String), Vec<u8>>,
    accounts: HashMap<String, u64>,
    /// Files that change while the account is being checked.
    changes: HashMap<(String, String), Vec<u8>>,
    authenticated: Vec<String>,
}

impl Root {
    fn new() -> Root {
        Root {
            listable: true,
            entries: Vec::new(),
            files: HashMap::new(),
            accounts: HashMap::new(),
            changes: HashMap::new(),
            authenticated: Vec::new(),
        }
    }

    fn profile(&mut self, name: &str, user_id: u64, session: &str) {
        self.entries.push((name.to_string(), true));
        self.files.insert(
            (name.to_string(), "identity".to_string()),
            format!("{{\"schema\":1,\"userId\":{user_id}}}").into_bytes(),
        );
        self.files.insert(
            (name.to_string(), "cookies".to_string()),
            format!("roblox.com\t.ROBLOSECURITY={session}\n").into_bytes(),
        );
        self.accounts.insert(session.to_string(), user_id);
    }

    /// Parses `{"schema":N,"userId":M}` the way the identity files here are written.
    fn parse(bytes: &[u8]) -> Option<SavedIdentity> {
        let text = std::str::from_utf8(bytes).ok()?;
        let text = text.strip_prefix("{\"schema\":")?.strip_suffix('}')?;
        let (schema, user) = text.split_once(",\"userId\":")?;
        Some(SavedIdentity { schema: schema.parse().ok()?, user_id: AccountId(user.parse().ok()?) })
    }

    fn find(&mut self, account: u64) -> Option<ProfileMatch> {
        let (mut machine, mut want): (Search, Want) = search(AccountId(account));
        let mut next_entry = 0;
        loop {
            let seen = match want {
                Want::ListRoot => Seen::Listed(self.listable),
                Want::NextEntry => {
                    let entry = self.entries.get(next_entry).map(|(name, is_dir)| Candidate {
                        is_dir: *is_dir,
                        name: Some(name.clone()),
                    });
                    next_entry += 1;
                    Seen::Entry(entry)
                }
                // The search takes each read through the limit it asked for.
                Want::Read { profile, file, .. } => {
                    let key = (profile, file);
                    let bytes = if self.authenticated.contains(&key.0) && self.changes.contains_key(&key) {
                        self.changes.get(&key).cloned()
                    } else {
                        self.files.get(&key).cloned()
                    };
                    Seen::Bytes(bytes)
                }
                Want::Parse(bytes) => Seen::Parsed(Root::parse(&bytes)),
                Want::Authenticate(session) => {
                    let who = self.accounts.get(session.value()).copied().map(AccountId);
                    // Which profile asked is the one whose store holds this session.
                    for ((profile, file), bytes) in &self.files {
                        if file == "cookies" && session_from_store(bytes).map(|s| s.value().to_string()).as_deref() == Some(session.value()) {
                            self.authenticated.push(profile.clone());
                        }
                    }
                    Seen::Authenticated(who)
                }
            };
            let (next, step) = machine.resume(seen);
            machine = next;
            match step {
                SearchStep::Do(w) => want = w,
                SearchStep::Finish(found) => return found,
            }
        }
    }
}

#[test]
fn the_one_saved_profile_of_the_account_is_found() {
    let mut root = Root::new();
    root.profile("main", 7, "seven");
    root.profile("alt", 8, "eight");
    let found = root.find(7).expect("the account's profile");
    assert_eq!(found.name(), "main");
    assert!(found.still_matches(
        "main",
        Some(b"{\"schema\":1,\"userId\":7}".to_vec()),
        Some(b"roblox.com\t.ROBLOSECURITY=seven\n".to_vec())
    ));
    assert!(root.find(9).is_none());
}

#[test]
fn two_profiles_of_one_account_leave_the_choice_to_the_user() {
    let mut root = Root::new();
    root.profile("one", 7, "seven-a");
    root.profile("two", 7, "seven-b");
    root.accounts.insert("seven-b".to_string(), 7);
    assert!(root.find(7).is_none());
}

#[test]
fn a_session_that_authenticates_elsewhere_is_no_match() {
    let mut root = Root::new();
    root.profile("main", 7, "stale");
    root.accounts.insert("stale".to_string(), 99);
    assert!(root.find(7).is_none());
}

#[test]
fn a_file_that_changes_during_the_check_is_no_match() {
    let mut root = Root::new();
    root.profile("main", 7, "seven");
    root.changes.insert(
        ("main".to_string(), "cookies".to_string()),
        b"roblox.com\t.ROBLOSECURITY=seven\n# flushed\n".to_vec(),
    );
    assert!(root.find(7).is_none());
}

#[test]
fn unusable_entries_are_passed_over() {
    let mut root = Root::new();
    root.entries.push(("notes.txt".to_string(), false));
    root.entries.push((".cache".to_string(), true));
    root.profile("wrong-schema", 7, "x");
    root.files.insert(
        ("wrong-schema".to_string(), "identity".to_string()),
        b"{\"schema\":2,\"userId\":7}".to_vec(),
    );
    root.profile("main", 7, "seven");
    assert_eq!(root.find(7).map(|m| m.name().to_string()).as_deref(), Some("main"));
}

#[test]
fn an_unlistable_root_has_no_match() {
    let mut root = Root::new();
    root.profile("main", 7, "seven");
    root.listable = false;
    assert!(root.find(7).is_none());
}

#[test]
fn an_oversized_identity_is_not_read() {
    let mut root = Root::new();
    root.profile("main", 7, "seven");
    let mut big = b"{\"schema\":1,\"userId\":7}".to_vec();
    big.resize(16 * 1024 + 1, b' ');
    root.files.insert(("main".to_string(), "identity".to_string()), big);
    assert!(root.find(7).is_none());
}

#[test]
fn an_oversized_cookie_store_is_not_read() {
    let mut root = Root::new();
    root.profile("main", 7, "seven");
    let mut big = b"roblox.com\t.ROBLOSECURITY=seven\n".to_vec();
    big.resize(1024 * 1024 + 1, b'#');
    root.files.insert(("main".to_string(), "cookies".to_string()), big);
    assert!(root.find(7).is_none());
}

#[test]
fn a_read_is_taken_only_within_its_limit() {
    let at_identity = || {
        let (machine, _) = search(AccountId(7));
        let (machine, _) = machine.resume(Seen::Listed(true));
        let (machine, step) = machine.resume(Seen::Entry(Some(Candidate {
            is_dir: true,
            name: Some("main".to_string()),
        })));
        assert!(matches!(step, SearchStep::Do(Want::Read { limit, .. }) if limit == MAX_IDENTITY_BYTES));
        machine
    };
    let (_, step) = at_identity().resume(Seen::Bytes(Some(vec![b' '; MAX_IDENTITY_BYTES as usize])));
    assert!(matches!(step, SearchStep::Do(Want::Parse(ref b)) if b.len() == MAX_IDENTITY_BYTES as usize));
    let (_, step) =
        at_identity().resume(Seen::Bytes(Some(vec![b' '; MAX_IDENTITY_BYTES as usize + 1])));
    assert!(matches!(step, SearchStep::Do(Want::NextEntry)));
    let (_, step) = at_identity().resume(Seen::Bytes(None));
    assert!(matches!(step, SearchStep::Do(Want::NextEntry)));
}
