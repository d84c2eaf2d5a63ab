//! Reading, writing and removing a stored session, as machines that say what
//! to do next.
//!
//! The file system, the secret service and the console are outside this
//! crate. Each operation starts with an [`Effect`] for its driver to perform;
//! the driver hands back what it observed, and the operation answers with the
//! next effect or with its result. Every failure ends in a result a launch can
//! carry on from: a load that fails is a signed-out launch, not a failed one.

use vstd::prelude::*;
use vstd::utf8::encode_utf8;
use crate::secrets::{
    attributes, attributes_view, decode_keyring, encode_keyring, item_attributes, item_label,
    kind_name, keyring_decoded, keyring_encoded, store_path, Attributes, Kind, Store,
    ENCODED_PREFIX,
};
use crate::text::{begins_with, chars_of, decimal_u64, digits, join, joined};

verus! {

broadcast use vstd::string::group_string_axioms;

/// What the service answered: `Ok(Some(text))` for a read that found
/// something, `Ok(None)` for one that did not and for every write or removal,
/// `Err` for a reason to report and carry on from.
pub type Answer = Result<Option<String>, String>;

/// An answer as text.
pub open spec fn answer_view(a: Answer) -> Result<Option<Seq<char>>, Seq<char>> {
    match a {
        Ok(Some(s)) => Ok(Some(s@)),
        Ok(None) => Ok(None),
        Err(e) => Err(e@),
    }
}

/// Whether `s` begins with `p`.
pub open spec fn has_prefix(s: Seq<char>, p: Seq<char>) -> bool {
    p.len() <= s.len() && s.take(p.len() as int) == p
}

/// A read answer with a hex-encoded value decoded. A value without the marker
/// was written directly by an older release and is taken as it is.
pub open spec fn stored_reading(a: Result<Option<Seq<char>>, Seq<char>>) -> Result<
    Option<Seq<char>>,
    Seq<char>,
> {
    match a {
        Ok(Some(s)) => if has_prefix(s, ENCODED_PREFIX@) {
            match keyring_decoded(s) {
                Some(b) => Ok(Some(b)),
                None => Err("the stored session has an invalid encoding"@),
            }
        } else {
            Ok(Some(s))
        },
        _ => a,
    }
}

/// The body the service's answer to a read stands for.
pub fn read_keyring(answer: Answer) -> (r: Answer)
    ensures
        answer_view(r) == stored_reading(answer_view(answer)),
{
    match answer {
        Ok(Some(stored)) => {
            let v = chars_of(stored.as_str());
            let p = chars_of(ENCODED_PREFIX);
            if begins_with(v.as_slice(), p.as_slice()) {
                match decode_keyring(stored.as_str()) {
                    Some(b) => Ok(Some(b)),
                    None => Err(String::from_str("the stored session has an invalid encoding")),
                }
            } else {
                Ok(Some(stored))
            }
        },
        Ok(None) => Ok(None),
        Err(e) => Err(e),
    }
}

/// A question for the secret service.
pub enum Request {
    /// Is there a service, and is its default collection open?
    Usable,
    /// The value of the item with these attributes, if there is one.
    Read(Attributes),
    /// Store `body` under these attributes, replacing any item that has them.
    Write { attrs: Attributes, label: String, body: String },
    /// Delete every item with these attributes.
    Remove(Attributes),
}

/// A request as text.
pub enum RequestView {
    Usable,
    Read(Seq<(Seq<char>, Seq<char>)>),
    Write { attrs: Seq<(Seq<char>, Seq<char>)>, label: Seq<char>, body: Seq<char> },
    Remove(Seq<(Seq<char>, Seq<char>)>),
}

impl View for Request {
    type V = RequestView;

    open spec fn view(&self) -> RequestView {
        match self {
            Request::Usable => RequestView::Usable,
            Request::Read(a) => RequestView::Read(attributes_view(a@)),
            Request::Write { attrs, label, body } => RequestView::Write {
                attrs: attributes_view(attrs@),
                label: label@,
                body: body@,
            },
            Request::Remove(a) => RequestView::Remove(attributes_view(a@)),
        }
    }
}

/// Something for the driver to do.
pub enum Effect {
    /// Whether a file exists at the path.
    Exists(String),
    /// Read the file at the path as text; nothing if it is missing,
    /// unreadable or not UTF-8.
    ReadFile(String),
    /// Overwrite the file at the path with zeros over its whole length, sync
    /// it, then unlink it.
    Shred(String),
    /// Write `body` to `temp` created at mode `0600` (and set to `0600` if it
    /// already existed), sync it, then rename it over `path`.
    WritePrivate { path: String, temp: String, body: String },
    /// Put a question to the secret service.
    Ask(Request),
    /// Print a line.
    Say(String),
}

/// An effect as text.
pub enum EffectView {
    Exists(Seq<char>),
    ReadFile(Seq<char>),
    Shred(Seq<char>),
    WritePrivate { path: Seq<char>, temp: Seq<char>, body: Seq<char> },
    Ask(RequestView),
    Say(Seq<char>),
}

impl View for Effect {
    type V = EffectView;

    open spec fn view(&self) -> EffectView {
        match self {
            Effect::Exists(p) => EffectView::Exists(p@),
            Effect::ReadFile(p) => EffectView::ReadFile(p@),
            Effect::Shred(p) => EffectView::Shred(p@),
            Effect::WritePrivate { path, temp, body } => EffectView::WritePrivate {
                path: path@,
                temp: temp@,
                body: body@,
            },
            Effect::Ask(r) => EffectView::Ask(r@),
            Effect::Say(l) => EffectView::Say(l@),
        }
    }
}

/// What the driver saw when it performed an effect.
pub enum Observation {
    /// After `Exists`.
    Exists(bool),
    /// After `ReadFile`.
    Text(Option<String>),
    /// After `Shred` or `WritePrivate`: done, or why not.
    Done(Result<(), String>),
    /// After `Ask`.
    Answer(Answer),
    /// After `Say`.
    Said,
}

/// An observation as text.
pub enum ObservationView {
    Exists(bool),
    Text(Option<Seq<char>>),
    Done(Result<(), Seq<char>>),
    Answer(Result<Option<Seq<char>>, Seq<char>>),
    Said,
}

impl View for Observation {
    type V = ObservationView;

    open spec fn view(&self) -> ObservationView {
        match self {
            Observation::Exists(b) => ObservationView::Exists(*b),
            Observation::Text(t) => ObservationView::Text(
                match t {
                    Some(s) => Some(s@),
                    None => None,
                },
            ),
            Observation::Done(r) => ObservationView::Done(
                match r {
                    Ok(()) => Ok(()),
                    Err(e) => Err(e@),
                },
            ),
            Observation::Answer(a) => ObservationView::Answer(answer_view(*a)),
            Observation::Said => ObservationView::Said,
        }
    }
}

/// The next thing an operation wants: an effect performed, or to finish.
pub enum Step<T> {
    Do(Effect),
    Finish(T),
}

/// A step as text.
pub enum StepView<T> {
    Do(EffectView),
    Finish(T),
}

/// A load's step as text.
pub open spec fn load_step_view(s: Step<Option<String>>) -> StepView<Option<Seq<char>>> {
    match s {
        Step::Do(e) => StepView::Do(e@),
        Step::Finish(Some(b)) => StepView::Finish(Some(b@)),
        Step::Finish(None) => StepView::Finish(None),
    }
}

/// A save's or an erase's step as text.
pub open spec fn outcome_step_view(s: Step<Result<(), String>>) -> StepView<Result<(), Seq<char>>> {
    match s {
        Step::Do(e) => StepView::Do(e@),
        Step::Finish(Ok(())) => StepView::Finish(Ok(())),
        Step::Finish(Err(e)) => StepView::Finish(Err(e@)),
    }
}

// ---------------------------------------------------------------------------
// What a load says on the way.
// ---------------------------------------------------------------------------

/// A plaintext file ignored because the user asked for keyring-or-nothing.
pub open spec fn ignored_note(name: Seq<char>, path: Seq<char>) -> Seq<char> {
    "  [secrets] "@ + name + " is present in plaintext at "@ + path
        + " and is being ignored, because CORDIAL_SECRET_STORE=keyring. Delete it if you no longer want it there."@
}

/// The service could not give a session back.
pub open spec fn unread_note(name: Seq<char>, why: Seq<char>) -> Seq<char> {
    "  [secrets] "@ + name + ": not read back ("@ + why + "); signed out"@
}

/// The service would not take a plaintext file in.
pub open spec fn kept_note(name: Seq<char>, bytes: nat, path: Seq<char>, why: Seq<char>) -> Seq<
    char,
> {
    "  [secrets] "@ + name + ": "@ + digits(bytes) + " bytes are still in plaintext at "@ + path
        + " ("@ + why + "); it was left alone rather than half-moved"@
}

/// A plaintext file moved into the service and destroyed.
pub open spec fn moved_note(name: Seq<char>, bytes: nat) -> Seq<char> {
    "  [secrets] "@ + name + ": "@ + digits(bytes)
        + " bytes moved into the secret service; the plaintext file was overwritten and removed"@
}

/// A plaintext file moved into the service that could not be destroyed.
pub open spec fn undestroyed_note(name: Seq<char>, path: Seq<char>, why: Seq<char>) -> Seq<char> {
    "  [secrets] "@ + name + ": moved into the secret service, but "@ + path
        + " could not be destroyed ("@ + why + "); delete it by hand"@
}

/// A plaintext file left alone because the service did not hand it back.
pub open spec fn unconfirmed_note(name: Seq<char>, path: Seq<char>) -> Seq<char> {
    "  [secrets] "@ + name + ": the secret service did not hand back what it was given, so "@
        + path + " was left alone"@
}

fn ignored_line(name: &str, path: &str) -> (r: String)
    ensures
        r@ == ignored_note(name@, path@),
{
    let mut r = String::from_str("  [secrets] ");
    r.append(name);
    r.append(" is present in plaintext at ");
    r.append(path);
    r.append(
        " and is being ignored, because CORDIAL_SECRET_STORE=keyring. Delete it if you no longer want it there.",
    );
    r
}

fn unread_line(name: &str, why: &str) -> (r: String)
    ensures
        r@ == unread_note(name@, why@),
{
    let mut r = String::from_str("  [secrets] ");
    r.append(name);
    r.append(": not read back (");
    r.append(why);
    r.append("); signed out");
    r
}

fn kept_line(name: &str, bytes: usize, path: &str, why: &str) -> (r: String)
    ensures
        r@ == kept_note(name@, bytes as nat, path@, why@),
{
    let mut r = String::from_str("  [secrets] ");
    r.append(name);
    r.append(": ");
    let n = decimal_u64(bytes as u64);
    r.append(n.as_str());
    r.append(" bytes are still in plaintext at ");
    r.append(path);
    r.append(" (");
    r.append(why);
    r.append("); it was left alone rather than half-moved");
    r
}

fn moved_line(name: &str, bytes: usize) -> (r: String)
    ensures
        r@ == moved_note(name@, bytes as nat),
{
    let mut r = String::from_str("  [secrets] ");
    r.append(name);
    r.append(": ");
    let n = decimal_u64(bytes as u64);
    r.append(n.as_str());
    r.append(
        " bytes moved into the secret service; the plaintext file was overwritten and removed",
    );
    r
}

fn undestroyed_line(name: &str, path: &str, why: &str) -> (r: String)
    ensures
        r@ == undestroyed_note(name@, path@, why@),
{
    let mut r = String::from_str("  [secrets] ");
    r.append(name);
    r.append(": moved into the secret service, but ");
    r.append(path);
    r.append(" could not be destroyed (");
    r.append(why);
    r.append("); delete it by hand");
    r
}

fn unconfirmed_line(name: &str, path: &str) -> (r: String)
    ensures
        r@ == unconfirmed_note(name@, path@),
{
    let mut r = String::from_str("  [secrets] ");
    r.append(name);
    r.append(": the secret service did not hand back what it was given, so ");
    r.append(path);
    r.append(" was left alone");
    r
}

// ---------------------------------------------------------------------------
// Loading.
// ---------------------------------------------------------------------------

/// Where a load has got to.
pub enum LoadStage {
    /// Nothing is kept: has asked whether a plaintext file is there.
    CheckingIgnored,
    /// File store: has asked for the file.
    ReadingFile,
    /// Service store: has asked for a plaintext file to take in.
    Adopting,
    /// Has asked the service to store the plaintext `body`.
    StoringAdopted { body: String },
    /// Has asked the service for the stored `body` back.
    CheckingAdopted { body: String },
    /// The service handed `body` back: has asked for the file to be destroyed.
    ShreddingAdopted { body: String },
    /// Service store, no plaintext file: has asked the service for the body.
    ReadingService,
    /// Has asked for a line to be printed; then finishes with `result`.
    Announcing { result: Option<String> },
    /// Finished.
    Finished,
}

/// A load's stage as text.
pub enum LoadStageView {
    CheckingIgnored,
    ReadingFile,
    Adopting,
    StoringAdopted { body: Seq<char> },
    CheckingAdopted { body: Seq<char> },
    ShreddingAdopted { body: Seq<char> },
    ReadingService,
    Announcing { result: Option<Seq<char>> },
    Finished,
}

/// Reading a body back for a profile's store.
pub struct Load {
    pub store: Store,
    pub dir: String,
    pub kind: Kind,
    pub stage: LoadStage,
}

/// A load as text.
pub struct LoadView {
    pub store: Store,
    pub dir: Seq<char>,
    pub kind: Kind,
    pub stage: LoadStageView,
}

impl View for LoadStage {
    type V = LoadStageView;

    open spec fn view(&self) -> LoadStageView {
        match self {
            LoadStage::CheckingIgnored => LoadStageView::CheckingIgnored,
            LoadStage::ReadingFile => LoadStageView::ReadingFile,
            LoadStage::Adopting => LoadStageView::Adopting,
            LoadStage::StoringAdopted { body } => LoadStageView::StoringAdopted { body: body@ },
            LoadStage::CheckingAdopted { body } => LoadStageView::CheckingAdopted { body: body@ },
            LoadStage::ShreddingAdopted { body } => LoadStageView::ShreddingAdopted {
                body: body@,
            },
            LoadStage::ReadingService => LoadStageView::ReadingService,
            LoadStage::Announcing { result } => LoadStageView::Announcing {
                result: match result {
                    Some(b) => Some(b@),
                    None => None,
                },
            },
            LoadStage::Finished => LoadStageView::Finished,
        }
    }
}

impl View for Load {
    type V = LoadView;

    open spec fn view(&self) -> LoadView {
        LoadView { store: self.store, dir: self.dir@, kind: self.kind, stage: self.stage@ }
    }
}

/// The same load at another stage.
pub open spec fn load_at(l: LoadView, stage: LoadStageView) -> LoadView {
    LoadView { store: l.store, dir: l.dir, kind: l.kind, stage }
}

/// How a load begins: with the profile's file, whatever the store. Nothing is
/// kept: only whether the file is there. File store: the file. Service store:
/// the file first, to take a plaintext store in before reading the service.
pub open spec fn load_first(store: Store, dir: Seq<char>, kind: Kind) -> (LoadView, EffectView) {
    let path = store_path(dir, kind);
    let l = LoadView { store, dir, kind, stage: LoadStageView::Finished };
    match store {
        Store::Nowhere => (load_at(l, LoadStageView::CheckingIgnored), EffectView::Exists(path)),
        Store::File => (load_at(l, LoadStageView::ReadingFile), EffectView::ReadFile(path)),
        Store::Keyring => (load_at(l, LoadStageView::Adopting), EffectView::ReadFile(path)),
    }
}

/// What each stage of a load waits for.
pub open spec fn load_expects(stage: LoadStageView, seen: ObservationView) -> bool {
    match stage {
        LoadStageView::CheckingIgnored => seen is Exists,
        LoadStageView::ReadingFile => seen is Text,
        LoadStageView::Adopting => seen is Text,
        LoadStageView::StoringAdopted { .. } => seen is Answer,
        LoadStageView::CheckingAdopted { .. } => seen is Answer,
        LoadStageView::ShreddingAdopted { .. } => seen is Done,
        LoadStageView::ReadingService => seen is Answer,
        LoadStageView::Announcing { .. } => seen is Said,
        LoadStageView::Finished => false,
    }
}

/// A load's next stage and step, given what its last effect observed.
///
/// A plaintext file in a profile whose store is the service is newer than
/// anything in the service, so it is taken in: stored, asked back, and
/// destroyed only when the service hands back the same body. Whatever happens
/// on the way, that body is this launch's session.
pub open spec fn load_next(l: LoadView, seen: ObservationView) -> (
    LoadView,
    StepView<Option<Seq<char>>>,
) {
    let path = store_path(l.dir, l.kind);
    let attrs = item_attributes(l.dir, l.kind);
    let name = kind_name(l.kind);
    let done = load_at(l, LoadStageView::Finished);
    match l.stage {
        LoadStageView::CheckingIgnored => match seen {
            ObservationView::Exists(true) => (
                load_at(l, LoadStageView::Announcing { result: None }),
                StepView::Do(EffectView::Say(ignored_note(name, path))),
            ),
            _ => (done, StepView::Finish(None)),
        },
        LoadStageView::ReadingFile => match seen {
            ObservationView::Text(t) => (done, StepView::Finish(t)),
            _ => (done, StepView::Finish(None)),
        },
        LoadStageView::Adopting => match seen {
            ObservationView::Text(Some(body)) => (
                load_at(l, LoadStageView::StoringAdopted { body }),
                StepView::Do(
                    EffectView::Ask(
                        RequestView::Write {
                            attrs,
                            label: item_label(l.kind, l.dir),
                            body: keyring_encoded(body),
                        },
                    ),
                ),
            ),
            _ => (
                load_at(l, LoadStageView::ReadingService),
                StepView::Do(EffectView::Ask(RequestView::Read(attrs))),
            ),
        },
        LoadStageView::StoringAdopted { body } => match seen {
            ObservationView::Answer(Err(why)) => (
                load_at(l, LoadStageView::Announcing { result: Some(body) }),
                StepView::Do(
                    EffectView::Say(kept_note(name, encode_utf8(body).len(), path, why)),
                ),
            ),
            _ => (
                load_at(l, LoadStageView::CheckingAdopted { body }),
                StepView::Do(EffectView::Ask(RequestView::Read(attrs))),
            ),
        },
        LoadStageView::CheckingAdopted { body } => match seen {
            ObservationView::Answer(a) => if stored_reading(a) == Ok::<
                Option<Seq<char>>,
                Seq<char>,
            >(Some(body)) {
                (
                    load_at(l, LoadStageView::ShreddingAdopted { body }),
                    StepView::Do(EffectView::Shred(path)),
                )
            } else {
                (
                    load_at(l, LoadStageView::Announcing { result: Some(body) }),
                    StepView::Do(EffectView::Say(unconfirmed_note(name, path))),
                )
            },
            _ => (done, StepView::Finish(Some(body))),
        },
        LoadStageView::ShreddingAdopted { body } => match seen {
            ObservationView::Done(Err(why)) => (
                load_at(l, LoadStageView::Announcing { result: Some(body) }),
                StepView::Do(EffectView::Say(undestroyed_note(name, path, why))),
            ),
            _ => (
                load_at(l, LoadStageView::Announcing { result: Some(body) }),
                StepView::Do(EffectView::Say(moved_note(name, encode_utf8(body).len()))),
            ),
        },
        LoadStageView::ReadingService => match seen {
            ObservationView::Answer(a) => match stored_reading(a) {
                Ok(b) => (done, StepView::Finish(b)),
                Err(why) => (
                    load_at(l, LoadStageView::Announcing { result: None }),
                    StepView::Do(EffectView::Say(unread_note(name, why))),
                ),
            },
            _ => (done, StepView::Finish(None)),
        },
        LoadStageView::Announcing { result } => (done, StepView::Finish(result)),
        LoadStageView::Finished => (done, StepView::Finish(None)),
    }
}

/// Reads a body back, or nothing for "nothing saved", which is the answer for
/// missing, locked, unreadable and malformed alike. Returns the load and the
/// first effect for its driver.
pub fn load(store: Store, dir: &str, kind: Kind) -> (r: (Load, Effect))
    ensures
        (r.0@, r.1@) == load_first(store, dir@, kind),
{
    let path = join(dir, kind.name());
    match store {
        Store::Nowhere => (
            Load { store, dir: String::from_str(dir), kind, stage: LoadStage::CheckingIgnored },
            Effect::Exists(path),
        ),
        Store::File => (
            Load { store, dir: String::from_str(dir), kind, stage: LoadStage::ReadingFile },
            Effect::ReadFile(path),
        ),
        Store::Keyring => (
            Load { store, dir: String::from_str(dir), kind, stage: LoadStage::Adopting },
            Effect::ReadFile(path),
        ),
    }
}

impl Load {
    /// The next step, given what the last effect observed.
    pub fn resume(self, seen: Observation) -> (r: (Load, Step<Option<String>>))
        requires
            load_expects(self@.stage, seen@),
        ensures
            (r.0@, load_step_view(r.1)) == load_next(self@, seen@),
    {
        let ghost old_view = self@;
        let path = join(self.dir.as_str(), self.kind.name());
        let name = self.kind.name();
        let Load { store, dir, kind, stage } = self;
        match stage {
            LoadStage::CheckingIgnored => match seen {
                Observation::Exists(true) => {
                    let line = ignored_line(name, path.as_str());
                    (
                        Load { store, dir, kind, stage: LoadStage::Announcing { result: None } },
                        Step::Do(Effect::Say(line)),
                    )
                },
                _ => (Load { store, dir, kind, stage: LoadStage::Finished }, Step::Finish(None)),
            },
            LoadStage::ReadingFile => match seen {
                Observation::Text(t) => (
                    Load { store, dir, kind, stage: LoadStage::Finished },
                    Step::Finish(t),
                ),
                _ => (Load { store, dir, kind, stage: LoadStage::Finished }, Step::Finish(None)),
            },
            LoadStage::Adopting => match seen {
                Observation::Text(Some(body)) => {
                    let attrs = attributes(dir.as_str(), kind);
                    let label = kind.label(dir.as_str());
                    let encoded = encode_keyring(body.as_str());
                    (
                        Load { store, dir, kind, stage: LoadStage::StoringAdopted { body } },
                        Step::Do(Effect::Ask(Request::Write { attrs, label, body: encoded })),
                    )
                },
                _ => {
                    let attrs = attributes(dir.as_str(), kind);
                    (
                        Load { store, dir, kind, stage: LoadStage::ReadingService },
                        Step::Do(Effect::Ask(Request::Read(attrs))),
                    )
                },
            },
            LoadStage::StoringAdopted { body } => match seen {
                Observation::Answer(Err(why)) => {
                    let line = kept_line(name, body.as_str().as_bytes().len(), path.as_str(), why.as_str());
                    (
                        Load {
                            store,
                            dir,
                            kind,
                            stage: LoadStage::Announcing { result: Some(body) },
                        },
                        Step::Do(Effect::Say(line)),
                    )
                },
                _ => {
                    let attrs = attributes(dir.as_str(), kind);
                    (
                        Load { store, dir, kind, stage: LoadStage::CheckingAdopted { body } },
                        Step::Do(Effect::Ask(Request::Read(attrs))),
                    )
                },
            },
            LoadStage::CheckingAdopted { body } => match seen {
                Observation::Answer(a) => {
                    let back = read_keyring(a);
                    let same = match &back {
                        Ok(Some(b)) => crate::text::same_text(b.as_str(), body.as_str()),
                        _ => false,
                    };
                    if same {
                        (
                            Load {
                                store,
                                dir,
                                kind,
                                stage: LoadStage::ShreddingAdopted { body },
                            },
                            Step::Do(Effect::Shred(path)),
                        )
                    } else {
                        let line = unconfirmed_line(name, path.as_str());
                        (
                            Load {
                                store,
                                dir,
                                kind,
                                stage: LoadStage::Announcing { result: Some(body) },
                            },
                            Step::Do(Effect::Say(line)),
                        )
                    }
                },
                _ => (
                    Load { store, dir, kind, stage: LoadStage::Finished },
                    Step::Finish(Some(body)),
                ),
            },
            LoadStage::ShreddingAdopted { body } => match seen {
                Observation::Done(Err(why)) => {
                    let line = undestroyed_line(name, path.as_str(), why.as_str());
                    (
                        Load {
                            store,
                            dir,
                            kind,
                            stage: LoadStage::Announcing { result: Some(body) },
                        },
                        Step::Do(Effect::Say(line)),
                    )
                },
                _ => {
                    let line = moved_line(name, body.as_str().as_bytes().len());
                    (
                        Load {
                            store,
                            dir,
                            kind,
                            stage: LoadStage::Announcing { result: Some(body) },
                        },
                        Step::Do(Effect::Say(line)),
                    )
                },
            },
            LoadStage::ReadingService => match seen {
                Observation::Answer(a) => match read_keyring(a) {
                    Ok(b) => (
                        Load { store, dir, kind, stage: LoadStage::Finished },
                        Step::Finish(b),
                    ),
                    Err(why) => {
                        let line = unread_line(name, why.as_str());
                        (
                            Load {
                                store,
                                dir,
                                kind,
                                stage: LoadStage::Announcing { result: None },
                            },
                            Step::Do(Effect::Say(line)),
                        )
                    },
                },
                _ => (Load { store, dir, kind, stage: LoadStage::Finished }, Step::Finish(None)),
            },
            LoadStage::Announcing { result } => (
                Load { store, dir, kind, stage: LoadStage::Finished },
                Step::Finish(result),
            ),
            LoadStage::Finished => (
                Load { store, dir, kind, stage: LoadStage::Finished },
                Step::Finish(None),
            ),
        }
    }
}

/// Whether a stage holds a plaintext body taken in for adoption.
pub open spec fn carries(stage: LoadStageView, body: Seq<char>) -> bool {
    match stage {
        LoadStageView::StoringAdopted { body: b } => b == body,
        LoadStageView::CheckingAdopted { body: b } => b == body,
        LoadStageView::ShreddingAdopted { body: b } => b == body,
        LoadStageView::Announcing { result: Some(b) } => b == body,
        _ => false,
    }
}

/// A migration never signs anybody out: once a plaintext body has been read
/// for adoption, every later step keeps it, and the load ends with that body
/// whatever the service and the file system do.
pub proof fn law_adoption_keeps_the_session(l: LoadView, seen: ObservationView, body: Seq<char>)
    requires
        load_expects(l.stage, seen),
    ensures
        l.stage is Adopting && seen == ObservationView::Text(Some(body)) ==> carries(
            load_next(l, seen).0.stage,
            body,
        ),
        carries(l.stage, body) ==> carries(load_next(l, seen).0.stage, body)
            || load_next(l, seen).1 == StepView::<Option<Seq<char>>>::Finish(Some(body)),
{
}

/// The plaintext file is destroyed only after the service has been asked for
/// the body back and handed back exactly what it was given.
pub proof fn law_shred_only_after_confirmation(l: LoadView, seen: ObservationView)
    requires
        load_expects(l.stage, seen),
    ensures
        load_next(l, seen).1 matches StepView::Do(EffectView::Shred(_)) ==> {
            &&& l.stage matches LoadStageView::CheckingAdopted { body }
            &&& seen matches ObservationView::Answer(a)
            &&& stored_reading(a) == Ok::<Option<Seq<char>>, Seq<char>>(Some(body))
        },
{
}

/// When nothing is kept, a load only looks: the plaintext file is neither
/// read nor destroyed, the service is not asked, and the launch is signed out.
pub proof fn law_nothing_kept_only_looks(dir: Seq<char>, kind: Kind, seen: ObservationView)
    requires
        seen is Exists,
    ensures
        load_first(Store::Nowhere, dir, kind).1 == EffectView::Exists(store_path(dir, kind)),
        ({
            let (l2, s) = load_next(load_first(Store::Nowhere, dir, kind).0, seen);
            &&& s is Finish ==> s == StepView::<Option<Seq<char>>>::Finish(None)
            &&& s is Do ==> s->Do_0 is Say && l2.stage == LoadStageView::Announcing { result: None }
        }),
{
}

// ---------------------------------------------------------------------------
// Saving.
// ---------------------------------------------------------------------------

/// A done-or-why result as text.
pub open spec fn outcome_view(r: Result<(), String>) -> Result<(), Seq<char>> {
    match r {
        Ok(()) => Ok(()),
        Err(e) => Err(e@),
    }
}

/// What saving a body asks for. Nothing kept: nothing, and success. File: an
/// atomic private write through `<name>.new`. Service: the body, encoded,
/// stored under the profile's attributes.
pub open spec fn save_first(store: Store, dir: Seq<char>, kind: Kind, body: Seq<char>) -> StepView<
    Result<(), Seq<char>>,
> {
    match store {
        Store::Nowhere => StepView::Finish(Ok(())),
        Store::File => StepView::Do(
            EffectView::WritePrivate {
                path: store_path(dir, kind),
                temp: joined(dir, kind_name(kind) + ".new"@),
                body,
            },
        ),
        Store::Keyring => StepView::Do(
            EffectView::Ask(
                RequestView::Write {
                    attrs: item_attributes(dir, kind),
                    label: item_label(kind, dir),
                    body: keyring_encoded(body),
                },
            ),
        ),
    }
}

/// Writes a body, or says plainly that it was not written: returns the one
/// effect to perform, or the result when there is none.
pub fn save(store: Store, dir: &str, kind: Kind, body: &str) -> (r: Step<Result<(), String>>)
    ensures
        outcome_step_view(r) == save_first(store, dir@, kind, body@),
{
    match store {
        Store::Nowhere => Step::Finish(Ok(())),
        Store::File => {
            let path = join(dir, kind.name());
            let temp_name = crate::text::concat(kind.name(), ".new");
            let temp = join(dir, temp_name.as_str());
            Step::Do(Effect::WritePrivate { path, temp, body: String::from_str(body) })
        },
        Store::Keyring => {
            let attrs = attributes(dir, kind);
            let label = kind.label(dir);
            let encoded = encode_keyring(body);
            Step::Do(Effect::Ask(Request::Write { attrs, label, body: encoded }))
        },
    }
}

/// A save's result from what its effect observed: the write's own result, or
/// the service's answer with any found value ignored.
pub open spec fn saved(seen: ObservationView) -> Result<(), Seq<char>> {
    match seen {
        ObservationView::Done(r) => r,
        ObservationView::Answer(Err(why)) => Err(why),
        _ => Ok(()),
    }
}

/// The result of a save, once its effect has been performed.
pub fn save_outcome(seen: Observation) -> (r: Result<(), String>)
    requires
        seen@ is Done || seen@ is Answer,
    ensures
        outcome_view(r) == saved(seen@),
{
    match seen {
        Observation::Done(r) => r,
        Observation::Answer(Err(why)) => Err(why),
        _ => Ok(()),
    }
}

// ---------------------------------------------------------------------------
// Erasing.
// ---------------------------------------------------------------------------

/// Where an erase has got to.
#[derive(PartialEq, Eq, Structural)]
pub enum EraseStage {
    /// Has asked whether the profile's file is there.
    Looking,
    /// Has asked for the file to be destroyed.
    Shredding,
    /// Has asked the service to remove the item.
    Removing,
    /// Finished.
    Finished,
}

/// Removing a body from both backends, whichever is active.
pub struct Erase {
    pub store: Store,
    pub dir: String,
    pub kind: Kind,
    pub stage: EraseStage,
}

/// An erase as text.
pub struct EraseView {
    pub store: Store,
    pub dir: Seq<char>,
    pub kind: Kind,
    pub stage: EraseStage,
}

impl View for Erase {
    type V = EraseView;

    open spec fn view(&self) -> EraseView {
        EraseView { store: self.store, dir: self.dir@, kind: self.kind, stage: self.stage }
    }
}

/// The same erase at another stage.
pub open spec fn erase_at(e: EraseView, stage: EraseStage) -> EraseView {
    EraseView { store: e.store, dir: e.dir, kind: e.kind, stage }
}

/// How an erase begins, whatever the store: by looking for the profile's
/// file, because a profile that has been through the file store can still
/// have one.
pub open spec fn erase_first(store: Store, dir: Seq<char>, kind: Kind) -> (EraseView, EffectView) {
    (
        EraseView { store, dir, kind, stage: EraseStage::Looking },
        EffectView::Exists(store_path(dir, kind)),
    )
}

/// What each stage of an erase waits for.
pub open spec fn erase_expects(stage: EraseStage, seen: ObservationView) -> bool {
    match stage {
        EraseStage::Looking => seen is Exists,
        EraseStage::Shredding => seen is Done,
        EraseStage::Removing => seen is Answer,
        EraseStage::Finished => false,
    }
}

/// After the file: the service's item too when the service is the store.
pub open spec fn erase_service(e: EraseView) -> (EraseView, StepView<Result<(), Seq<char>>>) {
    if e.store == Store::Keyring {
        (
            erase_at(e, EraseStage::Removing),
            StepView::Do(EffectView::Ask(RequestView::Remove(item_attributes(e.dir, e.kind)))),
        )
    } else {
        (erase_at(e, EraseStage::Finished), StepView::Finish(Ok(())))
    }
}

/// An erase's next stage and step. Absent is success: the state asked for is
/// "nothing saved", and that is already true.
pub open spec fn erase_next(e: EraseView, seen: ObservationView) -> (
    EraseView,
    StepView<Result<(), Seq<char>>>,
) {
    let done = erase_at(e, EraseStage::Finished);
    match e.stage {
        EraseStage::Looking => match seen {
            ObservationView::Exists(true) => (
                erase_at(e, EraseStage::Shredding),
                StepView::Do(EffectView::Shred(store_path(e.dir, e.kind))),
            ),
            _ => erase_service(e),
        },
        EraseStage::Shredding => match seen {
            ObservationView::Done(Err(why)) => (done, StepView::Finish(Err(why))),
            _ => erase_service(e),
        },
        EraseStage::Removing => match seen {
            ObservationView::Answer(Err(why)) => (done, StepView::Finish(Err(why))),
            _ => (done, StepView::Finish(Ok(()))),
        },
        EraseStage::Finished => (done, StepView::Finish(Ok(()))),
    }
}

/// Removes a body. Returns the erase and its first effect.
pub fn erase(store: Store, dir: &str, kind: Kind) -> (r: (Erase, Effect))
    ensures
        (r.0@, r.1@) == erase_first(store, dir@, kind),
{
    let path = join(dir, kind.name());
    (Erase { store, dir: String::from_str(dir), kind, stage: EraseStage::Looking }, Effect::Exists(path))
}

impl Erase {
    fn after_file(store: Store, dir: String, kind: Kind) -> (r: (Erase, Step<Result<(), String>>))
        ensures
            (r.0@, outcome_step_view(r.1)) == erase_service(
                EraseView { store, dir: dir@, kind, stage: EraseStage::Looking },
            ),
    {
        if store == Store::Keyring {
            let attrs = attributes(dir.as_str(), kind);
            (
                Erase { store, dir, kind, stage: EraseStage::Removing },
                Step::Do(Effect::Ask(Request::Remove(attrs))),
            )
        } else {
            (Erase { store, dir, kind, stage: EraseStage::Finished }, Step::Finish(Ok(())))
        }
    }

    /// The next step, given what the last effect observed.
    pub fn resume(self, seen: Observation) -> (r: (Erase, Step<Result<(), String>>))
        requires
            erase_expects(self@.stage, seen@),
        ensures
            (r.0@, outcome_step_view(r.1)) == erase_next(self@, seen@),
    {
        let Erase { store, dir, kind, stage } = self;
        match stage {
            EraseStage::Looking => match seen {
                Observation::Exists(true) => {
                    let path = join(dir.as_str(), kind.name());
                    (
                        Erase { store, dir, kind, stage: EraseStage::Shredding },
                        Step::Do(Effect::Shred(path)),
                    )
                },
                _ => Erase::after_file(store, dir, kind),
            },
            EraseStage::Shredding => match seen {
                Observation::Done(Err(why)) => (
                    Erase { store, dir, kind, stage: EraseStage::Finished },
                    Step::Finish(Err(why)),
                ),
                _ => Erase::after_file(store, dir, kind),
            },
            EraseStage::Removing => match seen {
                Observation::Answer(Err(why)) => (
                    Erase { store, dir, kind, stage: EraseStage::Finished },
                    Step::Finish(Err(why)),
                ),
                _ => (
                    Erase { store, dir, kind, stage: EraseStage::Finished },
                    Step::Finish(Ok(())),
                ),
            },
            EraseStage::Finished => (
                Erase { store, dir, kind, stage: EraseStage::Finished },
                Step::Finish(Ok(())),
            ),
        }
    }
}

/// Nothing saved is not a failure: with nothing kept a save does nothing and
/// succeeds, and an erase that finds no file succeeds without asking anything
/// unless the service is the store.
pub proof fn law_absent_is_success(store: Store, dir: Seq<char>, kind: Kind, body: Seq<char>)
    ensures
        save_first(Store::Nowhere, dir, kind, body) == StepView::<Result<(), Seq<char>>>::Finish(
            Ok(()),
        ),
        store != Store::Keyring ==> erase_next(
            erase_first(store, dir, kind).0,
            ObservationView::Exists(false),
        ).1 == StepView::<Result<(), Seq<char>>>::Finish(Ok(())),
{
}

/// An erase destroys the profile's plaintext file whenever there is one,
/// whichever store is active, before anything else; and a file that could not
/// be destroyed ends the erase with the reason, without touching the service.
pub proof fn law_erase_destroys_the_file_first(
    store: Store,
    dir: Seq<char>,
    kind: Kind,
    why: Seq<char>,
)
    ensures
        erase_next(erase_first(store, dir, kind).0, ObservationView::Exists(true)).1
            == StepView::<Result<(), Seq<char>>>::Do(EffectView::Shred(store_path(dir, kind))),
        erase_next(
            erase_at(erase_first(store, dir, kind).0, EraseStage::Shredding),
            ObservationView::Done(Err(why)),
        ).1 == StepView::<Result<(), Seq<char>>>::Finish(Err(why)),
{
}

// ---------------------------------------------------------------------------
// What the service's own answers mean.
// ---------------------------------------------------------------------------

/// Whether the service has a default collection: it answers `/` when there is
/// none.
pub open spec fn collection_found(path: Seq<char>) -> Result<(), Seq<char>> {
    if path == "/"@ {
        Err("the secret service has no default collection"@)
    } else {
        Ok(())
    }
}

/// The service's default collection, or why there is none to use.
pub fn default_collection(path: &str) -> (r: Result<(), String>)
    ensures
        outcome_view(r) == collection_found(path@),
{
    if crate::text::same_text(path, "/") {
        Err(String::from_str("the secret service has no default collection"))
    } else {
        Ok(())
    }
}

/// Whether the default collection can be used, from its `Locked` property.
/// A locked collection is the ordinary case with auto-login and is reported,
/// never unlocked: unlocking is a prompt in front of somebody who asked to
/// play.
pub open spec fn lock_reading(locked: Result<bool, Seq<char>>) -> Result<(), Seq<char>> {
    match locked {
        Ok(false) => Ok(()),
        Ok(true) => Err(
            "the desktop keyring is locked, and unlocking it is not something a game launcher should demand before it will start"@,
        ),
        Err(e) => Err("the keyring would not say whether it is locked ("@ + e + ")"@),
    }
}

/// What the collection's `Locked` property means for this launch; `Err(e)`
/// is the reason the property could not be read.
pub fn lock_state(locked: Result<bool, String>) -> (r: Result<(), String>)
    ensures
        outcome_view(r) == lock_reading(
            match locked {
                Ok(b) => Ok(b),
                Err(e) => Err(e@),
            },
        ),
{
    match locked {
        Ok(false) => Ok(()),
        Ok(true) => Err(
            String::from_str(
                "the desktop keyring is locked, and unlocking it is not something a game launcher should demand before it will start",
            ),
        ),
        Err(e) => {
            let mut r = String::from_str("the keyring would not say whether it is locked (");
            r.append(e.as_str());
            r.append(")");
            Err(r)
        },
    }
}

/// Whether an item was stored without a prompt: the service answers `/` for
/// "no prompt needed", and anything else would put a dialog in front of the
/// user.
pub open spec fn stored_quietly(prompt: Seq<char>) -> Result<(), Seq<char>> {
    if prompt == "/"@ {
        Ok(())
    } else {
        Err("storing the session would have needed a prompt"@)
    }
}

/// The result of storing an item, from the prompt path the service returned.
pub fn stored_without_prompt(prompt: &str) -> (r: Result<(), String>)
    ensures
        outcome_view(r) == stored_quietly(prompt@),
{
    if crate::text::same_text(prompt, "/") {
        Ok(())
    } else {
        Err(String::from_str("storing the session would have needed a prompt"))
    }
}

/// A secret's bytes as the answer to a read: the text, or a reason that does
/// not carry the bytes.
pub open spec fn secret_reading(value: Seq<u8>) -> Result<Option<Seq<char>>, Seq<char>> {
    if vstd::utf8::valid_utf8(value) {
        Ok(Some(vstd::utf8::decode_utf8(value)))
    } else {
        Err("the stored session is not text"@)
    }
}

/// The answer to a read, from the bytes of the secret the service returned.
pub fn secret_text(value: Vec<u8>) -> (r: Answer)
    ensures
        answer_view(r) == secret_reading(value@),
{
    match crate::text::string_from_utf8(value) {
        Some(t) => Ok(Some(t)),
        None => Err(String::from_str("the stored session is not text")),
    }
}

/// Whether a question may still be put to the service. Once a call has timed
/// out the service's thread is stuck inside it, so every later question would
/// queue behind it: they are answered at once with the reason instead.
pub fn before_asking(wedged: bool) -> (r: Result<(), String>)
    ensures
        outcome_view(r) == if wedged {
            Err("the secret service stopped answering earlier this session"@)
        } else {
            Ok::<(), Seq<char>>(())
        },
{
    if wedged {
        Err(String::from_str("the secret service stopped answering earlier this session"))
    } else {
        Ok(())
    }
}

/// Why a question got no answer in time.
pub fn timed_out(seconds: u64) -> (r: String)
    ensures
        r@ == "the secret service did not answer within "@ + digits(seconds as nat) + " seconds"@,
{
    let mut r = String::from_str("the secret service did not answer within ");
    let n = decimal_u64(seconds);
    r.append(n.as_str());
    r.append(" seconds");
    r
}

/// A load gives back what a save wrote. The file store writes the body where
/// the load reads it; the service store writes under the attributes the load
/// reads, and a service that hands back the value it was given makes the load
/// finish with the body, byte for byte.
pub proof fn law_load_reads_back_what_save_wrote(dir: Seq<char>, kind: Kind, body: Seq<char>)
    ensures
        save_first(Store::File, dir, kind, body) matches StepView::Do(
            EffectView::WritePrivate { path, body: written, .. },
        ) && path == store_path(dir, kind) && written == body,
        load_first(Store::File, dir, kind).1 == EffectView::ReadFile(store_path(dir, kind)),
        load_next(load_first(Store::File, dir, kind).0, ObservationView::Text(Some(body))).1
            == StepView::<Option<Seq<char>>>::Finish(Some(body)),
        save_first(Store::Keyring, dir, kind, body) matches StepView::Do(
            EffectView::Ask(RequestView::Write { attrs, body: stored, .. }),
        ) && ({
            let (l1, s1) = load_next(
                load_first(Store::Keyring, dir, kind).0,
                ObservationView::Text(None),
            );
            &&& s1 == StepView::<Option<Seq<char>>>::Do(EffectView::Ask(RequestView::Read(attrs)))
            &&& load_next(l1, ObservationView::Answer(Ok(Some(stored)))).1 == StepView::<
                Option<Seq<char>>,
            >::Finish(Some(body))
        }),
{
    let stored = keyring_encoded(body);
    let p = ENCODED_PREFIX@;
    crate::secrets::law_keyring_round_trip(body);
    assert(stored.take(p.len() as int) =~= p);
    assert(has_prefix(stored, p));
}

/// Two bodies the output cannot tell apart: the same number of UTF-8 bytes.
pub open spec fn same_size(b1: Seq<char>, b2: Seq<char>) -> bool {
    encode_utf8(b1).len() == encode_utf8(b2).len()
}

/// Two load stages that are the same but for the bodies they hold, which are
/// of the same size.
pub open spec fn alike(s1: LoadStageView, s2: LoadStageView) -> bool {
    match (s1, s2) {
        (LoadStageView::StoringAdopted { body: b1 }, LoadStageView::StoringAdopted { body: b2 }) =>
            same_size(b1, b2),
        (
            LoadStageView::CheckingAdopted { body: b1 },
            LoadStageView::CheckingAdopted { body: b2 },
        ) => same_size(b1, b2),
        (
            LoadStageView::ShreddingAdopted { body: b1 },
            LoadStageView::ShreddingAdopted { body: b2 },
        ) => same_size(b1, b2),
        (
            LoadStageView::Announcing { result: Some(b1) },
            LoadStageView::Announcing { result: Some(b2) },
        ) => same_size(b1, b2),
        _ => s1 == s2,
    }
}

/// Two observations that are the same outcome for two alike stages: a file
/// read that found bodies of the same size, a read-back that confirmed both
/// bodies or neither, a service read that gave a body both times or failed
/// with the same reason; otherwise the very same observation.
pub open spec fn same_outcome(
    s1: LoadStageView,
    s2: LoadStageView,
    o1: ObservationView,
    o2: ObservationView,
) -> bool {
    match (s1, o1, o2) {
        (
            LoadStageView::Adopting,
            ObservationView::Text(Some(x1)),
            ObservationView::Text(Some(x2)),
        ) => same_size(x1, x2),
        (
            LoadStageView::CheckingAdopted { body: b1 },
            ObservationView::Answer(a1),
            ObservationView::Answer(a2),
        ) => s2 matches LoadStageView::CheckingAdopted { body: b2 } && (stored_reading(a1) == Ok::<
            Option<Seq<char>>,
            Seq<char>,
        >(Some(b1))) == (stored_reading(a2) == Ok::<Option<Seq<char>>, Seq<char>>(Some(b2))),
        (LoadStageView::ReadingService, ObservationView::Answer(a1), ObservationView::Answer(a2)) =>
            match (stored_reading(a1), stored_reading(a2)) {
            (Ok(_), Ok(_)) => true,
            (Err(e1), Err(e2)) => e1 == e2,
            _ => false,
        },
        _ => o1 == o2,
    }
}

/// The line a step prints, if it prints one.
pub open spec fn printed(s: StepView<Option<Seq<char>>>) -> Option<Seq<char>> {
    match s {
        StepView::Do(EffectView::Say(line)) => Some(line),
        _ => None,
    }
}

/// Nothing a load prints carries a session: two loads of the same store,
/// profile and kind whose bodies differ but are of the same size, and whose
/// outcomes are the same, print the same lines, step by step, and stay alike.
/// A body reaches the output only through its length.
pub proof fn law_no_body_is_printed(
    l1: LoadView,
    l2: LoadView,
    o1: ObservationView,
    o2: ObservationView,
)
    requires
        l1.store == l2.store,
        l1.dir == l2.dir,
        l1.kind == l2.kind,
        alike(l1.stage, l2.stage),
        load_expects(l1.stage, o1),
        load_expects(l2.stage, o2),
        same_outcome(l1.stage, l2.stage, o1, o2),
    ensures
        ({
            let (n1, t1) = load_next(l1, o1);
            let (n2, t2) = load_next(l2, o2);
            &&& alike(n1.stage, n2.stage)
            &&& printed(t1) == printed(t2)
            &&& (t1 is Do) == (t2 is Do)
        }),
        load_first(l1.store, l1.dir, l1.kind) == load_first(l2.store, l2.dir, l2.kind),
{
}

} // verus!
