use std::collections::HashMap;

use cordial::custody::{
    default_collection, erase, load, lock_state, read_keyring, save, save_outcome, secret_text,
    stored_without_prompt, Answer, Effect, Observation, Request, Step,
};
use cordial::secrets::{encode_keyring, Kind, Store};

/// How the pretend service behaves.
#[derive(PartialEq)]
enum Service {
    /// Stores and returns values faithfully.
    Faithful,
    /// Refuses every request.
    Refusing,
    /// Accepts writes but hands back something else.
    Forgetful,
}

/// A pretend file system, secret service and console.
struct World {
    files: HashMap<String, String>,
    items: HashMap<Vec<(String, String)>, String>,
    service: Service,
    shred_fails: bool,
    shredded: Vec<String>,
    said: Vec<String>,
    asked: Vec<&'static str>,
}

impl World {
    fn new(service: Service) -> World {
        World {
            files: HashMap::new(),
            items: HashMap::new(),
            service,
            shred_fails: false,
            shredded: Vec::new(),
            said: Vec::new(),
            asked: Vec::new(),
        }
    }

    fn ask(&mut self, request: Request) -> Answer {
        if self.service == Service::Refusing {
            self.asked.push("refused");
            return Err("the desktop keyring is locked".to_string());
        }
        match request {
            Request::Usable => Ok(None),
            Request::Read(attrs) => {
                self.asked.push("read");
                if self.service == Service::Forgetful {
                    return Ok(Some(encode_keyring("something else")));
                }
                Ok(self.items.get(&attrs).cloned())
            }
            Request::Write { attrs, label, body } => {
                self.asked.push("write");
                assert!(label.starts_with("Cordial: Roblox "));
                self.items.insert(attrs, body);
                Ok(None)
            }
            Request::Remove(attrs) => {
                self.asked.push("remove");
                self.items.remove(&attrs);
                Ok(None)
            }
        }
    }

    fn perform(&mut self, effect: Effect) -> Observation {
        match effect {
            Effect::Exists(path) => Observation::Exists(self.files.contains_key(&path)),
            Effect::ReadFile(path) => Observation::Text(self.files.get(&path).cloned()),
            Effect::Shred(path) => {
                self.shredded.push(path.clone());
                if self.shred_fails {
                    return Observation::Done(Err("Permission denied".to_string()));
                }
                self.files.remove(&path);
                Observation::Done(Ok(()))
            }
            Effect::WritePrivate { path, temp, body } => {
                self.files.insert(temp.clone(), body);
                let written = self.files.remove(&temp).unwrap();
                self.files.insert(path, written);
                Observation::Done(Ok(()))
            }
            Effect::Ask(request) => Observation::Answer(self.ask(request)),
            Effect::Say(line) => {
                self.said.push(line);
                Observation::Said
            }
        }
    }

    fn load(&mut self, store: Store, dir: &str, kind: Kind) -> Option<String> {
        let (mut machine, mut effect) = load(store, dir, kind);
        loop {
            let seen = self.perform(effect);
            let (next, step) = machine.resume(seen);
            machine = next;
            match step {
                Step::Do(e) => effect = e,
                Step::Finish(result) => return result,
            }
        }
    }

    fn save(&mut self, store: Store, dir: &str, kind: Kind, body: &str) -> Result<(), String> {
        match save(store, dir, kind, body) {
            Step::Finish(result) => result,
            Step::Do(effect) => save_outcome(self.perform(effect)),
        }
    }

    fn erase(&mut self, store: Store, dir: &str, kind: Kind) -> Result<(), String> {
        let (mut machine, mut effect) = erase(store, dir, kind);
        loop {
            let seen = self.perform(effect);
            let (next, step) = machine.resume(seen);
            machine = next;
            match step {
                Step::Do(e) => effect = e,
                Step::Finish(result) => return result,
            }
        }
    }
}

#[test]
fn an_interrupted_write_cannot_leave_half_a_session() {
    let mut w = World::new(Service::Refusing);
    let dir = "/tmp/cordial-secrets-test-atomic";
    w.save(Store::File, dir, Kind::Cookies, "a=1\n").unwrap();
    w.save(Store::File, dir, Kind::Cookies, "a=2\n").unwrap();
    assert!(!w.files.contains_key(&format!("{dir}/cookies.new")), "the temp file must not survive");
    assert_eq!(w.load(Store::File, dir, Kind::Cookies).as_deref(), Some("a=2\n"));
}

#[test]
fn a_private_write_goes_through_a_temporary_name() {
    match save(Store::File, "/p/default", Kind::Cookies, "a=b\n") {
        Step::Do(Effect::WritePrivate { path, temp, body }) => {
            assert_eq!(path, "/p/default/cookies");
            assert_eq!(temp, "/p/default/cookies.new");
            assert_eq!(body, "a=b\n");
        }
        _ => panic!("a file save is one private write"),
    }
}

#[test]
fn nothing_saved_is_not_a_failure() {
    let mut w = World::new(Service::Refusing);
    let dir = "/tmp/cordial-secrets-test-absent";
    assert!(w.load(Store::File, dir, Kind::Cookies).is_none());
    assert!(w.load(Store::Nowhere, dir, Kind::Cookies).is_none());
    assert!(w.save(Store::Nowhere, dir, Kind::Cookies, "a=b").is_ok());
    assert!(w.erase(Store::File, dir, Kind::Identity).is_ok());
    assert!(w.asked.is_empty(), "none of that may touch the service");
}

#[test]
fn erasing_overwrites_before_unlinking() {
    let mut w = World::new(Service::Refusing);
    let dir = "/tmp/cordial-secrets-test-shred";
    w.save(Store::File, dir, Kind::Cookies, ".ROBLOSECURITY=fake\n").unwrap();
    w.erase(Store::File, dir, Kind::Cookies).unwrap();
    assert_eq!(w.shredded, vec![format!("{dir}/cookies")]);
    assert!(!w.files.contains_key(&format!("{dir}/cookies")));
    assert!(!w.files.contains_key(&format!("{dir}/cookies.new")));
}

#[test]
fn erasing_reaches_both_backends() {
    let mut w = World::new(Service::Faithful);
    let dir = "/p/default";
    w.save(Store::Keyring, dir, Kind::Identity, "{\"schema\":1}").unwrap();
    w.files.insert("/p/default/identity".to_string(), "stale".to_string());
    w.erase(Store::Keyring, dir, Kind::Identity).unwrap();
    assert!(w.files.is_empty());
    assert!(w.items.is_empty());
    assert_eq!(w.shredded, vec!["/p/default/identity".to_string()]);
}

#[test]
fn a_failed_erase_says_why() {
    let mut w = World::new(Service::Refusing);
    w.files.insert("/p/cookies".to_string(), "x".to_string());
    w.shred_fails = true;
    assert_eq!(w.erase(Store::Keyring, "/p", Kind::Cookies), Err("Permission denied".to_string()));
    assert!(w.asked.is_empty(), "a file that could not be destroyed stops the erase");
    w.shred_fails = false;
    assert_eq!(
        w.erase(Store::Keyring, "/p", Kind::Cookies),
        Err("the desktop keyring is locked".to_string())
    );
}

#[test]
fn a_session_survives_the_round_trip_through_the_service() {
    let mut w = World::new(Service::Faithful);
    let dir = "/tmp/cordial-secrets-test-keyring";
    let body = "# cordial test\nroblox.com\tCORDIALTEST=not-a-session\n";
    w.save(Store::Keyring, dir, Kind::Cookies, body).unwrap();
    assert_eq!(
        w.load(Store::Keyring, dir, Kind::Cookies).as_deref(),
        Some(body),
        "what was stored must come back byte for byte"
    );
    w.erase(Store::Keyring, dir, Kind::Cookies).unwrap();
    assert!(
        w.load(Store::Keyring, dir, Kind::Cookies).is_none(),
        "and a removed item must not linger in somebody's keyring"
    );
}

#[test]
fn a_plaintext_store_is_adopted_and_destroyed() {
    let mut w = World::new(Service::Faithful);
    let dir = "/tmp/cordial-secrets-test-adopt";
    let body = "# cordial test\nroblox.com\tCORDIALTEST=adopt-me\n";
    w.save(Store::File, dir, Kind::Cookies, body).unwrap();
    assert_eq!(
        w.load(Store::Keyring, dir, Kind::Cookies).as_deref(),
        Some(body),
        "the migrating launch must still be signed in"
    );
    assert!(!w.files.contains_key(&format!("{dir}/cookies")), "and the plaintext file must be gone");
    assert_eq!(
        w.said,
        vec![format!(
            "  [secrets] cookies: {} bytes moved into the secret service; the plaintext file was overwritten and removed",
            body.len()
        )]
    );
    assert_eq!(
        w.load(Store::Keyring, dir, Kind::Cookies).as_deref(),
        Some(body),
        "the next launch must read it from the service"
    );
    w.erase(Store::Keyring, dir, Kind::Cookies).unwrap();
}

#[test]
fn a_service_that_refuses_the_file_leaves_it_alone() {
    let mut w = World::new(Service::Refusing);
    w.files.insert("/p/cookies".to_string(), "a=b".to_string());
    assert_eq!(w.load(Store::Keyring, "/p", Kind::Cookies).as_deref(), Some("a=b"));
    assert!(w.files.contains_key("/p/cookies"));
    assert_eq!(
        w.said,
        vec!["  [secrets] cookies: 3 bytes are still in plaintext at /p/cookies (the desktop keyring is locked); it was left alone rather than half-moved".to_string()]
    );
}

#[test]
fn a_service_that_hands_back_something_else_keeps_the_file() {
    let mut w = World::new(Service::Forgetful);
    w.files.insert("/p/cookies".to_string(), "a=b".to_string());
    assert_eq!(w.load(Store::Keyring, "/p", Kind::Cookies).as_deref(), Some("a=b"));
    assert!(w.files.contains_key("/p/cookies"));
    assert!(w.shredded.is_empty());
    assert_eq!(
        w.said,
        vec!["  [secrets] cookies: the secret service did not hand back what it was given, so /p/cookies was left alone".to_string()]
    );
}

#[test]
fn a_file_that_cannot_be_destroyed_still_signs_in() {
    let mut w = World::new(Service::Faithful);
    w.shred_fails = true;
    w.files.insert("/p/identity".to_string(), "{}".to_string());
    assert_eq!(w.load(Store::Keyring, "/p", Kind::Identity).as_deref(), Some("{}"));
    assert_eq!(
        w.said,
        vec!["  [secrets] identity: moved into the secret service, but /p/identity could not be destroyed (Permission denied); delete it by hand".to_string()]
    );
}

#[test]
fn an_unreadable_service_is_a_signed_out_launch() {
    let mut w = World::new(Service::Refusing);
    assert_eq!(w.load(Store::Keyring, "/p", Kind::Cookies), None);
    assert_eq!(
        w.said,
        vec!["  [secrets] cookies: not read back (the desktop keyring is locked); signed out".to_string()]
    );
}

#[test]
fn keyring_or_nothing_ignores_the_file_and_says_so() {
    let mut w = World::new(Service::Faithful);
    w.files.insert("/p/cookies".to_string(), "a=b".to_string());
    assert_eq!(w.load(Store::Nowhere, "/p", Kind::Cookies), None);
    assert!(w.files.contains_key("/p/cookies"), "the file is not deleted out from under them");
    assert!(w.asked.is_empty());
    assert_eq!(
        w.said,
        vec!["  [secrets] cookies is present in plaintext at /p/cookies and is being ignored, because CORDIAL_SECRET_STORE=keyring. Delete it if you no longer want it there.".to_string()]
    );
}

#[test]
fn a_service_write_error_is_the_save_result() {
    let mut w = World::new(Service::Refusing);
    assert_eq!(
        w.save(Store::Keyring, "/p", Kind::Cookies, "a=b"),
        Err("the desktop keyring is locked".to_string())
    );
    assert_eq!(save_outcome(Observation::Done(Err("disk full".to_string()))), Err("disk full".to_string()));
}

#[test]
fn older_values_are_read_as_they_were_written() {
    assert_eq!(read_keyring(Ok(Some("{\"userId\":1}".to_string()))), Ok(Some("{\"userId\":1}".to_string())));
    assert_eq!(read_keyring(Ok(Some(encode_keyring("a\tb")))), Ok(Some("a\tb".to_string())));
    assert_eq!(
        read_keyring(Ok(Some("cordial-secret-hex-v1:zz".to_string()))),
        Err("the stored session has an invalid encoding".to_string())
    );
    assert_eq!(read_keyring(Ok(None)), Ok(None));
    assert_eq!(read_keyring(Err("gone".to_string())), Err("gone".to_string()));
}

#[test]
fn the_service_answers_mean_what_they_say() {
    assert_eq!(lock_state(Ok(false)), Ok(()));
    assert_eq!(
        lock_state(Ok(true)),
        Err("the desktop keyring is locked, and unlocking it is not something a game launcher should demand before it will start".to_string())
    );
    assert_eq!(
        lock_state(Err("no such property".to_string())),
        Err("the keyring would not say whether it is locked (no such property)".to_string())
    );
    assert_eq!(default_collection("/"), Err("the secret service has no default collection".to_string()));
    assert_eq!(default_collection("/org/freedesktop/secrets/aliases/default"), Ok(()));
    assert_eq!(stored_without_prompt("/"), Ok(()));
    assert_eq!(
        stored_without_prompt("/org/freedesktop/secrets/prompt/p1"),
        Err("storing the session would have needed a prompt".to_string())
    );
    assert_eq!(secret_text(b"a=b".to_vec()), Ok(Some("a=b".to_string())));
    assert_eq!(secret_text(vec![0xff, 0xfe]), Err("the stored session is not text".to_string()));
}

#[test]
fn a_body_reaches_the_output_only_through_its_length() {
    for service in [Service::Faithful, Service::Refusing, Service::Forgetful] {
        let mut lines = Vec::new();
        for body in ["token-aaaa", "token-bbbb"] {
            let mut w = World::new(match service {
                Service::Faithful => Service::Faithful,
                Service::Refusing => Service::Refusing,
                Service::Forgetful => Service::Forgetful,
            });
            w.files.insert("/p/cookies".to_string(), body.to_string());
            assert_eq!(w.load(Store::Keyring, "/p", Kind::Cookies).as_deref(), Some(body));
            assert!(w.said.iter().all(|line| !line.contains(body)));
            lines.push(w.said);
        }
        assert_eq!(lines[0], lines[1]);
    }
}
